//! What shows the session to the user.
use crate::state::StateSnapshot;
use vstd::prelude::*;

verus! {

/// Something that can show a snapshot of the session.
pub trait Display: Send + 'static {
    fn update(&mut self, state: &StateSnapshot);
}

} // verus!
