//! The session loop's decisions: what an input event does to the session.
use crate::pubsub::TopicId;
use crate::pubsub::typed_topic;
use crate::state::EditorAction;
use crate::state::State;
use crate::state::StateModel;
use crate::state::event_command;
use crate::state::input_map;
use crate::userinput::Event;
use vstd::prelude::*;

verus! {

/// The topic on which the end of the session is published.
pub fn shutdown_event_topic() -> (t: TopicId<()>)
    ensures
        t@ == "shutdown"@,
{
    typed_topic("shutdown")
}

/// The session after an input event: as it was where the event stands for
/// no command in the session's mode, else after that command.
pub open spec fn after_event(session: StateModel, e: Event) -> StateModel {
    match event_command(session.mode, e) {
        Some(c) => session.step(c),
        None => session,
    }
}

/// What an input event asks of the program: what its command asks, or to go
/// on where it stands for none.
pub open spec fn event_action(session: StateModel, e: Event) -> EditorAction {
    match event_command(session.mode, e) {
        Some(c) => session.action(c),
        None => EditorAction::Continue,
    }
}

/// Whether the buffer's counters are used up for an input event: its command
/// changes the buffer, and they leave no room for that.
pub open spec fn lacks_room(session: StateModel, e: Event) -> bool {
    match event_command(session.mode, e) {
        Some(c) => session.text_ops(c).len() > 0 && !session.has_room(),
        None => false,
    }
}

/// Carries out the command that an input event stands for, if it stands for
/// one, and says what the program is to do; says nothing, and leaves the
/// session as it is, where the command changes the buffer and the buffer's
/// counters are used up.
pub fn handle(session: &mut State, e: Event) -> (r: Option<EditorAction>)
    requires
        old(session).wf(),
    ensures
        final(session).wf(),
        lacks_room(old(session)@, e) ==> r is None && final(session)@ == old(session)@,
        !lacks_room(old(session)@, e) ==> r == Some(event_action(old(session)@, e)) && final(session)@ == after_event(old(session)@, e),
{
    match input_map(session.mode(), e) {
        Some(command) => {
            if session.changes_text(&command) && !session.has_room() {
                return None;
            }
            Some(session.dispatch(command))
        },
        None => Some(EditorAction::Continue),
    }
}

} // verus!
