//! The message bus for values of one type: topics by name, each with its
//! subscribers' channels; registering a subscriber, publishing to all
//! subscribers of a topic, and pruning those whose receiver is gone.
use crossbeam::channel::Receiver;
use crossbeam::channel::Sender;
use std::marker::PhantomData;
use vstd::pervasive::cloned;
use vstd::prelude::*;

verus! {

/// `crossbeam::channel::Sender`: the sending end of a channel.
#[verifier::external_type_specification]
#[verifier::external_body]
#[verifier::reject_recursive_types(T)]
pub struct ExSender<T>(Sender<T>);

/// `crossbeam::channel::Receiver`: the receiving end of a channel.
#[verifier::external_type_specification]
#[verifier::external_body]
#[verifier::reject_recursive_types(T)]
pub struct ExReceiver<T>(Receiver<T>);

/// `crossbeam::channel::unbounded`: a new channel, as its sending and its
/// receiving end.
#[verifier::external_body]
fn open_channel<T>() -> (ends: (Sender<T>, Receiver<T>)) {
    crossbeam::channel::unbounded()
}

/// `Sender::send`: hands `value` to the channel and says whether the channel
/// took it, which it does not once its receiver is gone.
#[verifier::external_body]
fn deliver<T>(sender: &Sender<T>, value: T) -> (taken: bool) {
    match sender.send(value) {
        Ok(()) => true,
        Err(_) => false,
    }
}

/// The address of a topic: a name, and the type `T` of what is published on
/// it.
pub struct TopicId<T> {
    name: &'static str,
    _type: PhantomData<T>,
}

impl<T> View for TopicId<T> {
    type V = Seq<char>;

    closed spec fn view(&self) -> Seq<char> {
        self.name@
    }
}

impl<T> Clone for TopicId<T> {
    fn clone(&self) -> (r: Self)
        ensures
            r@ == self@,
    {
        TopicId { name: self.name, _type: PhantomData }
    }
}

impl<T> TopicId<T> {
    /// The topic's name.
    pub fn name(&self) -> (r: &'static str)
        ensures
            r@ == self@,
    {
        self.name
    }
}

/// The topic of the given name for values of type `A`.
pub fn typed_topic<A>(name: &'static str) -> (t: TopicId<A>)
    ensures
        t@ == name@,
{
    TopicId { name, _type: PhantomData }
}

/// The topic that the type `A` alone addresses: the one without a name.
pub fn type_topic<A>() -> (t: TopicId<A>)
    ensures
        t@ == ""@,
{
    TopicId { name: "", _type: PhantomData }
}

/// The logs after a publish, of the first `n` subscribers: each subscriber
/// whose channel took its value stays, with the value added to its log, and
/// the others are gone.
pub open spec fn kept<T>(logs: Seq<Seq<T>>, handed: Seq<T>, taken: Seq<bool>, n: int) -> Seq<
    Seq<T>,
>
    decreases n,
{
    if n <= 0 {
        Seq::empty()
    } else {
        let before = kept(logs, handed, taken, n - 1);
        if taken[n - 1] {
            before.push(logs[n - 1].push(handed[n - 1]))
        } else {
            before
        }
    }
}

/// Whether `after` are the logs that a publish of `value` leaves of
/// `before`, where `handed` holds the clone of `value` that was handed to
/// each subscriber's channel and `taken` says which channels took theirs.
pub open spec fn published<T: Clone>(
    before: Seq<Seq<T>>,
    after: Seq<Seq<T>>,
    value: T,
    handed: Seq<T>,
    taken: Seq<bool>,
) -> bool {
    &&& handed.len() == before.len()
    &&& taken.len() == before.len()
    &&& forall|i: int| 0 <= i < handed.len() ==> cloned(value, #[trigger] handed[i])
    &&& after == kept(before, handed, taken, before.len() as int)
}

/// A topic: the sending ends of its subscribers' channels.
///
/// Its view is the log of each subscriber: the values that were handed to
/// the subscriber's channel, and taken by it, since the subscriber
/// registered.
#[verifier::reject_recursive_types(T)]
pub struct Topic<T> {
    senders: Vec<Sender<T>>,
    logs: Ghost<Seq<Seq<T>>>,
}

impl<T> View for Topic<T> {
    type V = Seq<Seq<T>>;

    closed spec fn view(&self) -> Seq<Seq<T>> {
        self.logs@
    }
}

impl<T> Topic<T> {
    /// There is one log for each subscriber.
    #[verifier::type_invariant]
    spec fn one_log_each(&self) -> bool {
        self.senders@.len() == self.logs@.len()
    }

    /// The topic without subscribers.
    pub fn new() -> (t: Self)
        ensures
            t@ == Seq::<Seq<T>>::empty(),
    {
        Topic { senders: Vec::new(), logs: Ghost(Seq::empty()) }
    }

    /// The number of subscribers.
    pub fn subscriber_count(&self) -> (n: usize)
        ensures
            n == self@.len(),
    {
        proof {
            use_type_invariant(self);
        }
        self.senders.len()
    }

    /// Registers a subscriber and hands back the receiving end of its
    /// channel. The subscriber's log starts empty: nothing that was
    /// published before is handed to it.
    pub fn get_receiver(&mut self) -> (r: Receiver<T>)
        ensures
            final(self)@ == old(self)@.push(Seq::empty()),
    {
        proof {
            use_type_invariant(&*self);
        }
        let mut held = Topic::new();
        std::mem::swap(self, &mut held);
        let Topic { senders, logs } = held;
        let mut senders = senders;
        let (s, r) = open_channel();
        senders.push(s);
        *self = Topic { senders, logs: Ghost(logs@.push(Seq::empty())) };
        r
    }
}

impl<T: Clone> Topic<T> {
    /// Publishes `value`: hands a clone of it to each subscriber's channel,
    /// prunes the subscribers whose channel did not take it, and says whether
    /// a subscriber remained.
    pub fn send(&mut self, value: T) -> (r: Result<(), ()>)
        ensures
            r is Ok <==> final(self)@.len() > 0,
            exists|handed: Seq<T>, taken: Seq<bool>| #[trigger]
                published(old(self)@, final(self)@, value, handed, taken),
    {
        proof {
            use_type_invariant(&*self);
        }
        let mut held = Topic::new();
        std::mem::swap(self, &mut held);
        let Topic { senders, logs } = held;
        let ghost before = logs@;
        let ghost mut handed: Seq<T> = Seq::empty();
        let ghost mut taken: Seq<bool> = Seq::empty();
        let ghost mut after: Seq<Seq<T>> = Seq::empty();
        let mut live: Vec<Sender<T>> = Vec::new();
        let count = senders.len();
        let mut i: usize = 0;
        for s in it: senders
            invariant
                i == it.index(),
                it.seq().len() == count,
                before == old(self)@,
                before.len() == count,
                handed.len() == i,
                taken.len() == i,
                forall|k: int| 0 <= k < i ==> cloned(value, #[trigger] handed[k]),
                live@.len() == after.len(),
                after == kept(before, handed, taken, i as int),
        {
            let message = value.clone();
            let ok = deliver(&s, message);
            proof {
                let h2 = handed.push(message);
                let t2 = taken.push(ok);
                lemma_kept_prefix(before, handed, taken, h2, t2, i as int);
                handed = h2;
                taken = t2;
            }
            if ok {
                live.push(s);
                proof {
                    after = after.push(before[i as int].push(message));
                }
            }
            i += 1;
        }
        assert(published(before, after, value, handed, taken));
        let remained = live.len() > 0;
        *self = Topic { senders: live, logs: Ghost(after) };
        if remained {
            Ok(())
        } else {
            Err(())
        }
    }
}

/// Whether two names are the same.
fn same_name(a: &str, b: &str) -> (r: bool)
    ensures
        r == (a@ == b@),
{
    let len = a.unicode_len();
    if len != b.unicode_len() {
        return false;
    }
    let mut i: usize = 0;
    while i < len
        invariant
            i <= len,
            len == a@.len(),
            len == b@.len(),
            forall|k: int| 0 <= k < i ==> a@[k] == b@[k],
        decreases len - i,
    {
        if a.get_char(i) != b.get_char(i) {
            return false;
        }
        i += 1;
    }
    assert(a@ =~= b@);
    true
}

/// A topic under its name.
#[verifier::reject_recursive_types(T)]
struct Entry<T> {
    name: &'static str,
    topic: Topic<T>,
}

/// The index of the first entry from `from` on that has the name `name`, or
/// the number of entries where none has.
spec fn first_named<T>(entries: Seq<Entry<T>>, name: Seq<char>, from: int) -> int
    decreases entries.len() - from,
{
    if from < 0 || from >= entries.len() {
        entries.len() as int
    } else if entries[from].name@ == name {
        from
    } else {
        first_named(entries, name, from + 1)
    }
}

/// The first entry of a name has the name, and no entry before it has.
proof fn lemma_first_named<T>(entries: Seq<Entry<T>>, name: Seq<char>, from: int)
    requires
        0 <= from <= entries.len(),
    ensures
        from <= first_named(entries, name, from) <= entries.len(),
        first_named(entries, name, from) < entries.len() ==> entries[first_named(
            entries,
            name,
            from,
        )].name@ == name,
        forall|k: int|
            from <= k < first_named(entries, name, from) ==> (#[trigger] entries[k]).name@ != name,
    decreases entries.len() - from,
{
    if from < entries.len() && entries[from].name@ != name {
        lemma_first_named(entries, name, from + 1);
    }
}

/// The first entry of a name is where no entry before it has the name and
/// it has.
proof fn lemma_first_named_is<T>(entries: Seq<Entry<T>>, name: Seq<char>, from: int, at: int)
    requires
        0 <= from <= at <= entries.len(),
        forall|k: int| from <= k < at ==> (#[trigger] entries[k]).name@ != name,
        at < entries.len() ==> entries[at].name@ == name,
    ensures
        first_named(entries, name, from) == at,
    decreases at - from,
{
    if from < at {
        lemma_first_named_is(entries, name, from + 1, at);
    }
}

/// The topics for values of one type, by their names.
///
/// Its view gives, for each name that a topic was made for, the logs of the
/// topic's subscribers.
#[verifier::reject_recursive_types(T)]
pub struct Registry<T> {
    entries: Vec<Entry<T>>,
}

impl<T> View for Registry<T> {
    type V = Map<Seq<char>, Seq<Seq<T>>>;

    closed spec fn view(&self) -> Map<Seq<char>, Seq<Seq<T>>> {
        Map::new(
            |name: Seq<char>| first_named(self.entries@, name, 0) < self.entries@.len(),
            |name: Seq<char>| self.entries@[first_named(self.entries@, name, 0)].topic@,
        )
    }
}

/// The logs of the subscribers of the topic `name`: none where no topic was
/// made for the name.
pub open spec fn logs_of<T>(topics: Map<Seq<char>, Seq<Seq<T>>>, name: Seq<char>) -> Seq<Seq<T>> {
    if topics.contains_key(name) {
        topics[name]
    } else {
        Seq::empty()
    }
}

impl<T> Registry<T> {
    /// The registry without topics.
    pub fn new() -> (r: Self)
        ensures
            r@ == Map::<Seq<char>, Seq<Seq<T>>>::empty(),
    {
        let r = Registry { entries: Vec::new() };
        assert(r@ =~= Map::<Seq<char>, Seq<Seq<T>>>::empty());
        r
    }

    /// The place of the topic of the given name, which is made where there
    /// is none yet.
    fn get_or_create_topic(&mut self, name: &'static str) -> (i: usize)
        ensures
            i < final(self).entries@.len(),
            i == first_named(final(self).entries@, name@, 0),
            final(self).entries@[i as int].name@ == name@,
            final(self)@ == old(self)@.insert(name@, logs_of(old(self)@, name@)),
            final(self).entries@[i as int].topic@ == logs_of(old(self)@, name@),
    {
        let mut i: usize = 0;
        while i < self.entries.len()
            invariant
                i <= self.entries@.len(),
                self.entries@ == old(self).entries@,
                forall|k: int| 0 <= k < i ==> (#[trigger] self.entries@[k]).name@ != name@,
            decreases self.entries@.len() - i,
        {
            if same_name(self.entries[i].name, name) {
                proof {
                    lemma_first_named_is(self.entries@, name@, 0, i as int);
                    assert(self@ =~= old(self)@.insert(name@, logs_of(old(self)@, name@)));
                }
                return i;
            }
            i += 1;
        }
        self.entries.push(Entry { name, topic: Topic::new() });
        proof {
            let before = old(self).entries@;
            let after = self.entries@;
            lemma_first_named_is(before, name@, 0, before.len() as int);
            lemma_first_named_is(after, name@, 0, before.len() as int);
            assert forall|n: Seq<char>| n != name@ implies (#[trigger] self@.contains_key(n)
                <==> old(self)@.contains_key(n)) && (old(self)@.contains_key(n) ==> self@[n]
                == old(self)@[n]) by {
                lemma_first_named(before, n, 0);
                let at = first_named(before, n, 0);
                if at < before.len() {
                    lemma_first_named_is(after, n, 0, at);
                } else {
                    lemma_first_named_is(after, n, 0, after.len() as int);
                }
            }
            assert(self@ =~= old(self)@.insert(name@, logs_of(old(self)@, name@)));
        }
        i
    }

    /// Unfolds the view where the entries changed in the topic at `i` alone,
    /// which is the first of its name.
    proof fn lemma_topic_changed(&self, after: &Self, i: int)
        requires
            0 <= i < self.entries@.len(),
            after.entries@.len() == self.entries@.len(),
            forall|k: int|
                0 <= k < self.entries@.len() ==> (#[trigger] after.entries@[k]).name@
                    == self.entries@[k].name@,
            forall|k: int|
                0 <= k < self.entries@.len() && k != i ==> (#[trigger] after.entries@[k]).topic@
                    == self.entries@[k].topic@,
            i == first_named(self.entries@, self.entries@[i].name@, 0),
        ensures
            after@ == self@.insert(self.entries@[i].name@, after.entries@[i].topic@),
    {
        let name = self.entries@[i].name@;
        let changed = self@.insert(name, after.entries@[i].topic@);
        assert forall|n: Seq<char>|
            (after@.contains_key(n) <==> #[trigger] changed.contains_key(n)) && (
            after@.contains_key(n) ==> after@[n] == changed[n]) by {
            lemma_first_named(self.entries@, n, 0);
            lemma_first_named_is(after.entries@, n, 0, first_named(self.entries@, n, 0));
        }
        assert(after@ =~= changed);
    }

    /// Registers a subscriber of a topic, which is made where there is none
    /// of its name yet, and hands back the receiving end of the subscriber's
    /// channel. The subscriber's log starts empty, and no other topic changes.
    pub fn get_receiver(&mut self, topic: &TopicId<T>) -> (r: Receiver<T>)
        ensures
            final(self)@ == old(self)@.insert(
                topic@,
                logs_of(old(self)@, topic@).push(Seq::empty()),
            ),
    {
        let i = self.get_or_create_topic(topic.name());
        let ghost found = *self;
        let r = self.entries[i].topic.get_receiver();
        proof {
            found.lemma_topic_changed(&*self, i as int);
            assert(self@ =~= old(self)@.insert(
                topic@,
                logs_of(old(self)@, topic@).push(Seq::empty()),
            ));
        }
        r
    }

    /// The number of subscribers of a topic.
    pub fn subscriber_count(&self, topic: &TopicId<T>) -> (n: usize)
        ensures
            n == logs_of(self@, topic@).len(),
    {
        let name = topic.name();
        let mut i: usize = 0;
        while i < self.entries.len()
            invariant
                i <= self.entries@.len(),
                name@ == topic@,
                forall|k: int| 0 <= k < i ==> (#[trigger] self.entries@[k]).name@ != name@,
            decreases self.entries@.len() - i,
        {
            if same_name(self.entries[i].name, name) {
                proof {
                    lemma_first_named_is(self.entries@, name@, 0, i as int);
                    assert(self@.contains_key(name@));
                    assert(self@[name@] == self.entries@[i as int].topic@);
                }
                return self.entries[i].topic.subscriber_count();
            }
            i += 1;
        }
        proof {
            lemma_first_named_is(self.entries@, name@, 0, self.entries@.len() as int);
            assert(!self@.contains_key(name@));
        }
        0
    }
}

impl<T: Clone> Registry<T> {
    /// Publishes `value` on a topic, which is made where there is none of
    /// its name yet: see `Topic::send`. No other topic changes.
    pub fn send(&mut self, topic: &TopicId<T>, value: T) -> (r: Result<(), ()>)
        ensures
            final(self)@.contains_key(topic@),
            final(self)@ == old(self)@.insert(topic@, final(self)@[topic@]),
            r is Ok <==> final(self)@[topic@].len() > 0,
            exists|handed: Seq<T>, taken: Seq<bool>| #[trigger]
                published(
                    logs_of(old(self)@, topic@),
                    final(self)@[topic@],
                    value,
                    handed,
                    taken,
                ),
    {
        let i = self.get_or_create_topic(topic.name());
        let ghost found = *self;
        let r = self.entries[i].topic.send(value);
        proof {
            found.lemma_topic_changed(&*self, i as int);
            assert(self@ =~= old(self)@.insert(topic@, self.entries@[i as int].topic@));
        }
        r
    }
}

/// Each subscriber that stays after a publish was a subscriber before it,

/// took its value, and has this one value more in its log; and no more
/// subscribers stay than there were.
pub proof fn law_kept_took_one_more<T>(
    logs: Seq<Seq<T>>,
    handed: Seq<T>,
    taken: Seq<bool>,
    n: int,
    j: int,
)
    requires
        0 <= n <= logs.len(),
        0 <= j < kept(logs, handed, taken, n).len(),
    ensures
        kept(logs, handed, taken, n).len() <= n,
        exists|i: int|
            0 <= i < n && taken[i] && #[trigger] kept(logs, handed, taken, n)[j] == logs[i].push(
                handed[i],
            ),
    decreases n,
{
    if n > 0 {
        let before = kept(logs, handed, taken, n - 1);
        lemma_kept_len(logs, handed, taken, n - 1);
        if j < before.len() {
            law_kept_took_one_more(logs, handed, taken, n - 1, j);
            let i = choose|i: int|
                0 <= i < n - 1 && taken[i] && #[trigger] before[j] == logs[i].push(handed[i]);
            assert(kept(logs, handed, taken, n)[j] == logs[i].push(handed[i]));
        } else {
            assert(taken[n - 1]);
            assert(kept(logs, handed, taken, n)[j] == logs[n - 1].push(handed[n - 1]));
        }
    }
}

/// No more subscribers stay than there were.
proof fn lemma_kept_len<T>(logs: Seq<Seq<T>>, handed: Seq<T>, taken: Seq<bool>, n: int)
    ensures
        kept(logs, handed, taken, n).len() <= if n < 0 {
            0
        } else {
            n
        },
    decreases n,
{
    if n > 0 {
        lemma_kept_len(logs, handed, taken, n - 1);
    }
}

/// Where every channel takes its value, every subscriber stays, in its
/// place, with one value more in its log.
pub proof fn law_all_taken_all_kept<T>(
    logs: Seq<Seq<T>>,
    handed: Seq<T>,
    taken: Seq<bool>,
    n: int,
)
    requires
        0 <= n <= logs.len(),
        forall|i: int| 0 <= i < n ==> taken[i],
    ensures
        kept(logs, handed, taken, n) == Seq::new(n as nat, |i: int| logs[i].push(handed[i])),
    decreases n,
{
    if n > 0 {
        law_all_taken_all_kept(logs, handed, taken, n - 1);
    }
    assert(kept(logs, handed, taken, n) =~= Seq::new(n as nat, |i: int| logs[i].push(handed[i])));
}

/// What was kept of the first `n` subscribers does not depend on what is
/// handed to the later ones.
proof fn lemma_kept_prefix<T>(
    logs: Seq<Seq<T>>,
    handed: Seq<T>,
    taken: Seq<bool>,
    handed2: Seq<T>,
    taken2: Seq<bool>,
    n: int,
)
    requires
        0 <= n <= handed.len(),
        handed.len() == taken.len(),
        handed.len() <= handed2.len(),
        taken.len() <= taken2.len(),
        forall|k: int| 0 <= k < handed.len() ==> handed2[k] == handed[k],
        forall|k: int| 0 <= k < taken.len() ==> taken2[k] == taken[k],
    ensures
        kept(logs, handed2, taken2, n) == kept(logs, handed, taken, n),
    decreases n,
{
    if n > 0 {
        lemma_kept_prefix(logs, handed, taken, handed2, taken2, n - 1);
    }
}

} // verus!
