//! The registry of the sessions that are under way, in the order in which
//! they were inserted.

use crate::session::{reply_to, Session, SessionCall, SessionReply};
use crate::text::str_equal;
use vstd::prelude::*;

verus! {

/// No session has the identifier that was asked for.
#[derive(Debug)]
pub struct NotFound;

/// Whether `i` is the place of the first entry with the identifier `id`.
pub open spec fn is_first_match<S>(entries: Seq<Session<S>>, id: Seq<char>, i: int) -> bool {
    &&& 0 <= i < entries.len()
    &&& entries[i]@.id == id
    &&& forall|j: int| 0 <= j < i ==> (#[trigger] entries[j])@.id != id
}

/// Whether some entry has the identifier `id`.
pub open spec fn has_id<S>(entries: Seq<Session<S>>, id: Seq<char>) -> bool {
    exists|i: int| 0 <= i < entries.len() && (#[trigger] entries[i])@.id == id
}

/// Whether no two entries share an identifier.
pub open spec fn unique_ids<S>(entries: Seq<Session<S>>) -> bool {
    forall|i: int, j: int|
        0 <= i < j < entries.len() ==> (#[trigger] entries[i])@.id != (#[trigger] entries[j])@.id
}

/// What an operation on the session `id` makes of a table: nothing where no
/// entry has that identifier; else the first such entry takes the step, and
/// leaves the table if it is done after it. The other entries stay as they are.
pub open spec fn stepped<S>(
    before: Seq<Session<S>>,
    after: Seq<Session<S>>,
    id: Seq<char>,
    now: u128,
    call: SessionCall,
) -> bool {
    &&& !has_id(before, id) ==> after == before
    &&& forall|i: int| #[trigger]
        is_first_match(before, id, i) ==> {
            let next = before[i]@.step(now, call);
            if next.is_done() {
                after == before.remove(i)
            } else {
                &&& after.len() == before.len()
                &&& after[i]@ == next
                &&& after[i].link() == before[i].link()
                &&& forall|j: int|
                    0 <= j < before.len() && j != i ==> #[trigger] after[j] == before[j]
            }
        }
}

/// Whether an entry has the identifier `id` and is not done after the
/// operation.
pub open spec fn stays_after<S>(
    before: Seq<Session<S>>,
    id: Seq<char>,
    now: u128,
    call: SessionCall,
) -> bool {
    exists|i: int|
        0 <= i < before.len() && (#[trigger] before[i])@.id == id && !before[i]@.step(
            now,
            call,
        ).is_done()
}

/// The entries that are still in use at `now`.
pub open spec fn fresh<S>(now: u128) -> spec_fn(Session<S>) -> bool {
    |s: Session<S>| !s@.is_timed_out(now)
}

/// The entries that have timed out at `now`.
pub open spec fn stale<S>(now: u128) -> spec_fn(Session<S>) -> bool {
    |s: Session<S>| s@.is_timed_out(now)
}

/// The sessions of one server.
pub struct SessionTable<S> {
    sessions: Vec<Session<S>>,
}

impl<S> SessionTable<S> {
    /// The sessions in the table, oldest first.
    pub closed spec fn entries(&self) -> Seq<Session<S>> {
        self.sessions@
    }

    /// An empty table.
    pub fn new() -> (table: Self)
        ensures
            table.entries() == Seq::<Session<S>>::empty(),
    {
        SessionTable { sessions: Vec::new() }
    }

    /// The number of sessions.
    pub fn len(&self) -> (n: usize)
        ensures
            n == self.entries().len(),
    {
        self.sessions.len()
    }

    /// Appends a session. The identifiers stay distinct where the new one is
    /// not in the table yet.
    pub fn insert(&mut self, session: Session<S>)
        ensures
            final(self).entries() == old(self).entries().push(session),
            unique_ids(old(self).entries()) && !has_id(old(self).entries(), session@.id)
                ==> unique_ids(final(self).entries()),
    {
        self.sessions.push(session);
    }

    /// The place of the first session with the identifier `id`.
    pub fn position(&self, id: &str) -> (place: Option<usize>)
        ensures
            place is Some <==> has_id(self.entries(), id@),
            place is Some ==> is_first_match(self.entries(), id@, place->Some_0 as int),
    {
        let mut i: usize = 0;
        while i < self.sessions.len()
            invariant
                i <= self.sessions@.len(),
                forall|j: int| 0 <= j < i ==> (#[trigger] self.sessions@[j])@.id != id@,
            decreases self.sessions@.len() - i,
        {
            if str_equal(self.sessions[i].id(), id) {
                return Some(i);
            }
            i += 1;
        }
        None
    }

    /// Whether a session with the identifier `id` is in the table.
    pub fn contains(&self, id: &str) -> (found: bool)
        ensures
            found == has_id(self.entries(), id@),
    {
        self.position(id).is_some()
    }

    /// The backend socket of the first session with the identifier `id`.
    pub fn stream(&self, id: &str) -> (stream: Option<&S>)
        ensures
            stream is Some <==> has_id(self.entries(), id@),
            forall|i: int|
                stream is Some && #[trigger] is_first_match(self.entries(), id@, i) ==> *stream->Some_0
                    == self.entries()[i].link(),
    {
        match self.position(id) {
            Some(i) => Some(self.sessions[i].stream()),
            None => None,
        }
    }

    /// Carries out `call` at `now` on the first session with the identifier
    /// `id` and hands back that session's reply; a session that is done after
    /// it leaves the table. Without such a session nothing changes.
    pub fn with_session(&mut self, id: &str, now: u128, call: SessionCall) -> (res: Result<
        SessionReply,
        NotFound,
    >)
        ensures
            res is Ok <==> has_id(old(self).entries(), id@),
            res is Ok ==> res->Ok_0 == reply_to(call),
            stepped(old(self).entries(), final(self).entries(), id@, now, call),
            unique_ids(old(self).entries()) ==> unique_ids(final(self).entries()),
            unique_ids(old(self).entries()) ==> (has_id(final(self).entries(), id@)
                <==> stays_after(old(self).entries(), id@, now, call)),
    {
        let ghost before = self.sessions@;
        match self.position(id) {
            None => Err(NotFound),
            Some(i) => {
                let reply = self.sessions[i].apply(now, call);
                let ghost mid = self.sessions@;
                let done = self.sessions[i].is_done();
                if done {
                    let gone = self.sessions.remove(i);
                }
                proof {
                    let after = self.sessions@;
                    let k = i as int;
                    assert forall|m: int| #[trigger]
                        is_first_match(before, id@, m) implies m == k by {
                        if m < k {
                            assert(before[m]@.id != id@);
                        }
                        if k < m {
                            assert(before[k]@.id != id@);
                        }
                    }
                    assert(mid[k]@.id == id@);
                    assert(is_first_match(before, id@, k));
                    if done {
                        assert(after =~= before.remove(k));
                    } else {
                        assert(after == mid);
                    }
                    assert(stepped(before, after, id@, now, call));
                    if unique_ids(before) {
                        lemma_session_stays_unless_done(before, after, id@, now, call);
                    }
                }
                Ok(reply)
            },
        }
    }

    /// Takes out every session that has timed out at `now`, walking from the
    /// newest entry to the oldest, and hands them back in the order in which
    /// they left. The others keep their order.
    pub fn sweep(&mut self, now: u128) -> (removed: Vec<Session<S>>)
        ensures
            final(self).entries() == old(self).entries().filter(fresh(now)),
            removed@ == old(self).entries().filter(stale(now)).reverse(),
            unique_ids(old(self).entries()) ==> unique_ids(final(self).entries()),
    {
        let ghost before = self.sessions@;
        let mut removed: Vec<Session<S>> = Vec::new();
        let mut i: usize = self.sessions.len();
        proof {
            assert(before.skip(i as int) =~= Seq::<Session<S>>::empty());
            before.skip(i as int).lemma_filter_len(fresh(now));
            before.skip(i as int).lemma_filter_len(stale(now));
            assert(before.skip(i as int).filter(fresh(now)) =~= Seq::<Session<S>>::empty());
            assert(before.skip(i as int).filter(stale(now)) =~= Seq::<Session<S>>::empty());
            assert(self.sessions@ =~= before.take(i as int) + before.skip(i as int).filter(
                fresh(now),
            ));
            assert(removed@ =~= before.skip(i as int).filter(stale(now)).reverse());
        }
        while i > 0
            invariant
                i <= before.len(),
                self.sessions@ == before.take(i as int) + before.skip(i as int).filter(fresh(now)),
                removed@ == before.skip(i as int).filter(stale(now)).reverse(),
            decreases i,
        {
            i -= 1;
            let ghost rest = before.skip(i + 1);
            let ghost current = before[i as int];
            proof {
                assert(before.skip(i as int) =~= seq![current] + rest);
                rest.lemma_filter_prepend(current, fresh(now));
                rest.lemma_filter_prepend(current, stale(now));
                assert(self.sessions@[i as int] == current);
            }
            if self.sessions[i].is_timed_out(now) {
                let gone = self.sessions.remove(i);
                removed.push(gone);
                proof {
                    assert(self.sessions@ =~= before.take(i as int) + rest.filter(fresh(now)));
                    assert(removed@ =~= (seq![current] + rest.filter(stale(now))).reverse());
                }
            } else {
                proof {
                    assert(self.sessions@ =~= before.take(i as int) + (seq![current] + rest.filter(
                        fresh(now),
                    )));
                }
            }
        }
        proof {
            assert(before.skip(0) =~= before);
            assert(before.take(0) + before.filter(fresh(now)) =~= before.filter(fresh(now)));
            if unique_ids(before) {
                lemma_filter_keeps_unique(before, fresh(now));
            }
        }
        removed
    }
}

/// In a table without two equal identifiers, after an operation on the
/// session `id` the table holds a session `id` exactly if one was there and is
/// not done after the operation; and its identifiers are still distinct.
pub proof fn lemma_session_stays_unless_done<S>(
    before: Seq<Session<S>>,
    after: Seq<Session<S>>,
    id: Seq<char>,
    now: u128,
    call: SessionCall,
)
    requires
        unique_ids(before),
        stepped(before, after, id, now, call),
    ensures
        unique_ids(after),
        has_id(after, id) <==> stays_after(before, id, now, call),
{
    if has_id(before, id) {
        let k = choose|i: int| 0 <= i < before.len() && (#[trigger] before[i])@.id == id;
        assert(is_first_match(before, id, k));
        let next = before[k]@.step(now, call);
        assert(next.id == id);
        if next.is_done() {
            assert forall|a: int| 0 <= a < after.len() implies (#[trigger] after[a])@.id != id by {
                let a0 = if a < k { a } else { a + 1 };
                assert(after[a] == before[a0]);
            }
            assert forall|a: int, b: int| 0 <= a < b < after.len() implies (#[trigger] after[a])@.id
                != (#[trigger] after[b])@.id by {
                let a0 = if a < k { a } else { a + 1 };
                let b0 = if b < k { b } else { b + 1 };
                assert(after[a] == before[a0]);
                assert(after[b] == before[b0]);
            }
            assert forall|m: int| 0 <= m < before.len() && (#[trigger] before[m])@.id == id implies m
                == k by {}
        } else {
            assert(after[k]@.id == id);
            assert forall|a: int| 0 <= a < after.len() implies (#[trigger] after[a])@.id
                == before[a]@.id by {}
        }
    }
}

/// Leaving entries out makes no two identifiers equal.
pub proof fn lemma_filter_keeps_unique<S>(entries: Seq<Session<S>>, keep: spec_fn(Session<S>) -> bool)
    requires
        unique_ids(entries),
    ensures
        unique_ids(entries.filter(keep)),
    decreases entries.len(),
{
    reveal(Seq::filter);
    if entries.len() > 0 {
        let front = entries.drop_last();
        lemma_filter_keeps_unique(front, keep);
        let kept = front.filter(keep);
        if keep(entries.last()) {
            assert forall|i: int, j: int| 0 <= i < j < kept.len() + 1 implies (
            #[trigger] entries.filter(keep)[i])@.id != (#[trigger] entries.filter(keep)[j])@.id by {
                if j == kept.len() {
                    assert(kept.contains(kept[i]));
                    front.lemma_filter_contains_rev(keep, kept[i]);
                    let m = choose|m: int| 0 <= m < front.len() && front[m] == kept[i];
                    assert(entries[m] == kept[i]);
                    assert(entries[entries.len() - 1] == entries.last());
                } else {
                    assert(entries.filter(keep)[i] == kept[i]);
                    assert(entries.filter(keep)[j] == kept[j]);
                }
            }
        }
    }
}

} // verus!
