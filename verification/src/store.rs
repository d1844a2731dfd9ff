//! The message store: a shared, ordered collection of message texts,
//! kept most-recent-first.

use vstd::prelude::*;
use std::collections::VecDeque;

verus! {

/// The canonical ordered list of messages.
///
/// The view is the sequence of message texts, most-recently-appended first.
/// Messages are opaque text: they are stored verbatim, never mutated, and
/// never removed.
pub struct MessageStore {
    messages: VecDeque<String>,
}

impl View for MessageStore {
    type V = Seq<Seq<char>>;

    closed spec fn view(&self) -> Seq<Seq<char>> {
        self.messages.deep_view()
    }
}

impl MessageStore {
    /// Creates an empty store.
    pub fn new() -> (s: MessageStore)
        ensures
            s@ == Seq::<Seq<char>>::empty(),
    {
        let s = MessageStore { messages: VecDeque::new() };
        proof {
            assert(s@ =~= Seq::<Seq<char>>::empty());
        }
        s
    }

    /// Returns an independent copy of the current full sequence,
    /// most-recent-first. Later mutation of the store cannot be observed
    /// through the returned value.
    pub fn list(&self) -> (r: Vec<String>)
        ensures
            r.deep_view() == self@,
    {
        let mut out: Vec<String> = Vec::new();
        let n = self.messages.len();
        let mut i: usize = 0;
        while i < n
            invariant
                n == self.messages@.len(),
                i <= n,
                out@.len() == i,
                forall|j: int| 0 <= j < i ==> out@[j]@ == self.messages@[j]@,
            decreases n - i,
        {
            out.push(self.messages[i].clone());
            i += 1;
        }
        proof {
            assert(out.deep_view() =~= self@);
        }
        out
    }

    /// Inserts `message` at the front, so it becomes the most-recent entry,
    /// and returns the resulting full sequence (same copy semantics as
    /// `list`).
    pub fn append(&mut self, message: String) -> (r: Vec<String>)
        ensures
            final(self)@ == seq![message@] + old(self)@,
            r.deep_view() == final(self)@,
    {
        self.messages.push_front(message);
        proof {
            assert(self@ =~= seq![message@] + old(self)@);
        }
        self.list()
    }
}

/// The store's view after the texts of `ms` are appended in order, one
/// `append` at a time, starting from the view `init`. Each step adds one
/// text at the front, exactly as `append` ensures.
pub open spec fn after_appends(init: Seq<Seq<char>>, ms: Seq<Seq<char>>) -> Seq<Seq<char>>
    decreases ms.len(),
{
    if ms.len() == 0 {
        init
    } else {
        after_appends(seq![ms[0]] + init, ms.drop_first())
    }
}

/// Appending `m1, ..., mn` strictly sequentially to a store whose view is
/// `init` leaves the view `[mn, ..., m1] + init`: the new entries stand in
/// reverse insertion order, most-recent-first, ahead of what was there
/// before, and nothing is lost.
pub proof fn lemma_appends_most_recent_first(init: Seq<Seq<char>>, ms: Seq<Seq<char>>)
    ensures
        after_appends(init, ms).len() == ms.len() + init.len(),
        forall|i: int|
            0 <= i < ms.len() ==> after_appends(init, ms)[i] == ms[ms.len() - 1 - i],
        forall|i: int|
            0 <= i < init.len() ==> after_appends(init, ms)[ms.len() + i] == init[i],
    decreases ms.len(),
{
    if ms.len() == 0 {
    } else {
        let pushed = seq![ms[0]] + init;
        let rest = ms.drop_first();
        lemma_appends_most_recent_first(pushed, rest);
        assert(after_appends(init, ms) == after_appends(pushed, rest));
        assert forall|i: int| 0 <= i < ms.len() implies
            after_appends(init, ms)[i] == ms[ms.len() - 1 - i] by {
            if i < rest.len() {
                assert(after_appends(pushed, rest)[i] == rest[rest.len() - 1 - i]);
                assert(rest[rest.len() - 1 - i] == ms[ms.len() - 1 - i]);
            } else {
                assert(after_appends(pushed, rest)[rest.len() as int] == pushed[0]);
            }
        }
        assert forall|i: int| 0 <= i < init.len() implies
            after_appends(init, ms)[ms.len() + i] == init[i] by {
            assert(after_appends(pushed, rest)[rest.len() + i + 1] == pushed[i + 1]);
            assert(pushed[i + 1] == init[i]);
        }
    }
}

/// Appending any number of pairwise-distinct texts to an empty store
/// yields exactly that many entries, each text present exactly once: no
/// entry is dropped, duplicated, or invented.
pub proof fn lemma_distinct_appends_each_once(ms: Seq<Seq<char>>)
    requires
        forall|i: int, j: int| 0 <= i < j < ms.len() ==> ms[i] != ms[j],
    ensures
        after_appends(Seq::empty(), ms).len() == ms.len(),
        forall|i: int, j: int|
            0 <= i < j < ms.len()
                ==> after_appends(Seq::empty(), ms)[i] != after_appends(Seq::empty(), ms)[j],
        forall|m: Seq<char>|
            after_appends(Seq::empty(), ms).contains(m) <==> ms.contains(m),
{
    let out = after_appends(Seq::empty(), ms);
    lemma_appends_most_recent_first(Seq::empty(), ms);
    assert forall|m: Seq<char>| out.contains(m) <==> ms.contains(m) by {
        if out.contains(m) {
            let i = choose|i: int| 0 <= i < out.len() && out[i] == m;
            assert(ms[ms.len() - 1 - i] == m);
        }
        if ms.contains(m) {
            let i = choose|i: int| 0 <= i < ms.len() && ms[i] == m;
            assert(out[ms.len() - 1 - i] == m);
        }
    }
}

} // verus!
