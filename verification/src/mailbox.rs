//! A mailbox of one slot: a value that arrives while another waits takes
//! its place, so that only the latest is ever taken out.
use vstd::prelude::*;

verus! {

/// The mailbox.
pub struct Mailbox<T> {
    pending: Option<T>,
}

impl<T> View for Mailbox<T> {
    type V = Option<T>;

    closed spec fn view(&self) -> Option<T> {
        self.pending
    }
}

/// What waits in a mailbox after the values have arrived, one after the
/// other.
pub open spec fn after_arrivals<T>(waiting: Option<T>, values: Seq<T>) -> Option<T>
    decreases values.len(),
{
    if values.len() == 0 {
        waiting
    } else {
        after_arrivals(Some(values[0]), values.drop_first())
    }
}

/// However many values arrive before the next one is taken out, the last of
/// them waits and nothing else: the others are dropped, not queued.
pub proof fn law_only_latest_waits<T>(waiting: Option<T>, values: Seq<T>)
    requires
        values.len() > 0,
    ensures
        after_arrivals(waiting, values) == Some(values.last()),
    decreases values.len(),
{
    let rest = values.drop_first();
    if values.len() > 1 {
        law_only_latest_waits(Some(values[0]), rest);
        assert(rest.last() == values.last());
    } else {
        assert(rest.len() == 0);
        assert(after_arrivals(Some(values[0]), rest) == Some(values[0]));
        assert(values[0] == values.last());
    }
}

impl<T> Mailbox<T> {
    /// The mailbox in which nothing waits.
    pub fn new() -> (m: Self)
        ensures
            m@ is None,
    {
        Mailbox { pending: None }
    }

    /// Puts `value` in the mailbox, in place of what waited there, and says
    /// whether something did.
    pub fn put(&mut self, value: T) -> (replaced: bool)
        ensures
            final(self)@ == Some(value),
            final(self)@ == after_arrivals(old(self)@, seq![value]),
            replaced == old(self)@ is Some,
    {
        let replaced = self.pending.is_some();
        self.pending = Some(value);
        proof {
            assert(seq![value].drop_first().len() == 0);
            assert(after_arrivals(Some(value), seq![value].drop_first()) == Some(value));
        }
        replaced
    }

    /// Takes out what waits, and leaves nothing.
    pub fn take(&mut self) -> (r: Option<T>)
        ensures
            r == old(self)@,
            final(self)@ is None,
    {
        self.pending.take()
    }

    /// Whether nothing waits.
    pub fn is_empty(&self) -> (r: bool)
        ensures
            r == self@ is None,
    {
        self.pending.is_none()
    }
}

} // verus!
