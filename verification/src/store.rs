use vstd::prelude::*;
use crate::models::Session;
use crate::models::SessionModel;
use crate::models::clone_opt_string;
use crate::models::session_refs_ok;
use crate::models::session_times_ok;

verus! {

/// The model of the session store: the records it holds, in insertion order,
/// and the identity it will assign next.
pub struct StoreModel {
    pub sessions: Seq<SessionModel>,
    pub next_id: u64,
}

/// A stored record carries an assigned identity below `next_id`, instants in
/// the renderable range forming a positive interval where both are present,
/// and well-formed references.
pub open spec fn session_record_wf(m: SessionModel, next_id: u64) -> bool {
    &&& m.id matches Some(i) && i < next_id as u128
    &&& session_times_ok(m)
    &&& session_refs_ok(m)
}

/// Store well-formedness: every record well-formed, identities unique.
pub open spec fn store_wf(m: StoreModel) -> bool {
    &&& forall|i: int|
        0 <= i < m.sessions.len() ==> session_record_wf(#[trigger] m.sessions[i], m.next_id)
    &&& forall|i: int, j: int|
        #![trigger m.sessions[i].id, m.sessions[j].id]
        0 <= i < j < m.sessions.len() ==> m.sessions[i].id != m.sessions[j].id
}

pub open spec fn has_id(s: Seq<SessionModel>, id: u128) -> bool {
    exists|i: int| 0 <= i < s.len() && #[trigger] s[i].id == Some(id)
}

pub open spec fn index_of_id(s: Seq<SessionModel>, id: u128) -> int {
    choose|i: int| 0 <= i < s.len() && #[trigger] s[i].id == Some(id)
}

/// A stored session stands in the way of a candidate `[start, end)` in
/// `hall`: same hall, both instants present, and the half-open intervals
/// intersect. A record without a hall or without both instants is
/// unschedulable and stands in nobody's way.
pub open spec fn session_overlaps(m: SessionModel, hall: u128, start: i64, end: i64) -> bool {
    &&& m.hall_id == Some(hall)
    &&& m.start matches Some(s2) && s2 < end
    &&& m.end matches Some(e2) && e2 > start
}

pub open spec fn not_excluded(m: SessionModel, exclude: Option<u128>) -> bool {
    exclude matches Some(x) ==> m.id != Some(x)
}

pub open spec fn overlap_match(
    m: SessionModel,
    hall: u128,
    start: i64,
    end: i64,
    exclude: Option<u128>,
) -> bool {
    session_overlaps(m, hall, start, end) && not_excluded(m, exclude)
}

/// The conflict relation of the scheduler: a candidate with a positive
/// interval conflicts when some non-excluded session in the same hall
/// overlaps it; a degenerate candidate conflicts with nothing.
pub open spec fn candidate_conflicts(
    s: Seq<SessionModel>,
    hall: u128,
    start: i64,
    end: i64,
    exclude: Option<u128>,
) -> bool {
    start < end && exists|i: int|
        0 <= i < s.len() && overlap_match(#[trigger] s[i], hall, start, end, exclude)
}

/// How many stored sessions overlap the candidate, exclusion applied.
pub open spec fn overlap_count(
    s: Seq<SessionModel>,
    hall: u128,
    start: i64,
    end: i64,
    exclude: Option<u128>,
) -> nat
    decreases s.len(),
{
    if s.len() == 0 {
        0
    } else {
        overlap_count(s.drop_last(), hall, start, end, exclude) + if overlap_match(
            s.last(),
            hall,
            start,
            end,
            exclude,
        ) {
            1nat
        } else {
            0nat
        }
    }
}

pub proof fn lemma_overlap_count_zero(
    s: Seq<SessionModel>,
    hall: u128,
    start: i64,
    end: i64,
    exclude: Option<u128>,
)
    ensures
        overlap_count(s, hall, start, end, exclude) == 0 <==> forall|i: int|
            0 <= i < s.len() ==> !overlap_match(#[trigger] s[i], hall, start, end, exclude),
    decreases s.len(),
{
    if s.len() > 0 {
        lemma_overlap_count_zero(s.drop_last(), hall, start, end, exclude);
        assert forall|i: int| 0 <= i < s.len() - 1 implies s.drop_last()[i] == s[i] by {}
        if overlap_count(s, hall, start, end, exclude) == 0 {
            assert forall|i: int| 0 <= i < s.len() implies !overlap_match(
                #[trigger] s[i],
                hall,
                start,
                end,
                exclude,
            ) by {
                if i < s.len() - 1 {
                    assert(s[i] == s.drop_last()[i]);
                } else {
                    assert(s[i] == s.last());
                }
            }
        }
    }
}

/// The session store: an in-memory document collection holding session
/// records and assigning identities on insert.
pub struct SessionStore {
    records: Vec<Session>,
    next_id: u64,
}

impl View for SessionStore {
    type V = StoreModel;

    closed spec fn view(&self) -> StoreModel {
        StoreModel {
            sessions: self.records@.map_values(|s: Session| s@),
            next_id: self.next_id,
        }
    }
}

impl SessionStore {
    pub open spec fn wf(&self) -> bool {
        store_wf(self@)
    }

    /// An empty store; the first assigned identity is 1.
    pub fn new() -> (s: SessionStore)
        ensures
            s@.sessions == Seq::<SessionModel>::empty(),
            s@.next_id == 1,
            s.wf(),
    {
        let s = SessionStore { records: Vec::new(), next_id: 1 };
        proof {
            assert(s@.sessions =~= Seq::<SessionModel>::empty());
        }
        s
    }


    /// Whether the store can still assign a fresh identity.
    pub fn can_insert(&self) -> (r: bool)
        ensures
            r == (self@.next_id < u64::MAX),
    {
        self.next_id < u64::MAX
    }

    /// The position of the record with identity `id`, if one is stored.
    fn find_index(&self, id: u128) -> (r: Option<usize>)
        ensures
            r is Some <==> has_id(self@.sessions, id),
            r matches Some(k) ==> k < self@.sessions.len() && self@.sessions[k as int].id == Some(
                id,
            ),
    {
        let n = self.records.len();
        let mut i: usize = 0;
        while i < n
            invariant
                n == self@.sessions.len(),
                i <= n,
                forall|j: int| 0 <= j < i ==> #[trigger] self@.sessions[j].id != Some(id),
            decreases n - i,
        {
            if self.records[i].id == Some(id) {
                return Some(i);
            }
            i = i + 1;
        }
        None
    }

    /// Looks a record up by identity, returning a copy.
    pub fn find_by_id(&self, id: u128) -> (r: Option<Session>)
        requires
            self.wf(),
        ensures
            r is Some <==> has_id(self@.sessions, id),
            r matches Some(s) ==> {
                &&& s@.id == Some(id)
                &&& 0 <= index_of_id(self@.sessions, id) < self@.sessions.len()
                &&& s@ == self@.sessions[index_of_id(self@.sessions, id)]
            },
    {
        let n = self.records.len();
        let mut i: usize = 0;
        while i < n
            invariant
                self.wf(),
                n == self@.sessions.len(),
                i <= n,
                forall|j: int| 0 <= j < i ==> #[trigger] self@.sessions[j].id != Some(id),
            decreases n - i,
        {
            let rec = &self.records[i];
            if rec.id == Some(id) {
                let found = Session {
                    id: rec.id,
                    title: clone_opt_string(&rec.title),
                    movie_id: rec.movie_id,
                    hall_id: rec.hall_id,
                    start: rec.start,
                    end: rec.end,
                };
                proof {
                    assert(self@.sessions[i as int].id == Some(id));
                    assert(has_id(self@.sessions, id));
                    let k = index_of_id(self@.sessions, id);
                    assert(0 <= k < self@.sessions.len() && self@.sessions[k].id == Some(id));
                    if k != i as int {
                        assert(self@.sessions[k].id == self@.sessions[i as int].id);
                        assert(false);
                    }
                    assert(found@ == self@.sessions[i as int]);
                }
                return Some(found);
            }
            i = i + 1;
        }
        None
    }

    /// Inserts a record with no identity; the store assigns and returns one.
    pub fn insert(&mut self, session: Session) -> (id: u128)
        requires
            old(self).wf(),
            old(self)@.next_id < u64::MAX,
            session@.id is None,
            session_times_ok(session@),
            session_refs_ok(session@),
        ensures
            final(self).wf(),
            id == old(self)@.next_id as u128,
            final(self)@.next_id == old(self)@.next_id + 1,
            final(self)@.sessions == old(self)@.sessions.push(
                SessionModel { id: Some(id), ..session@ },
            ),
    {
        let id: u128 = self.next_id as u128;
        let mut s = session;
        s.id = Some(id);
        let ghost new_model = SessionModel { id: Some(id), ..session@ };
        self.records.push(s);
        self.next_id = self.next_id + 1;
        proof {
            assert(self@.sessions =~= old(self)@.sessions.push(new_model));
            let m = self@;
            assert forall|i: int| 0 <= i < m.sessions.len() implies session_record_wf(
                #[trigger] m.sessions[i],
                m.next_id,
            ) by {
                if i < m.sessions.len() - 1 {
                    assert(session_record_wf(old(self)@.sessions[i], old(self)@.next_id));
                }
            }
        }
        id
    }

    /// Overwrites every field but the identity of the record with identity
    /// `id`; reports whether a record matched.
    pub fn replace_fields(&mut self, id: u128, session: Session) -> (matched: bool)
        requires
            old(self).wf(),
            session@.id is None,
            session_times_ok(session@),
            session_refs_ok(session@),
        ensures
            final(self).wf(),
            final(self)@.next_id == old(self)@.next_id,
            matched == has_id(old(self)@.sessions, id),
            !matched ==> final(self)@.sessions == old(self)@.sessions,
            matched ==> {
                &&& 0 <= index_of_id(old(self)@.sessions, id) < old(self)@.sessions.len()
                &&& final(self)@.sessions == old(self)@.sessions.update(
                    index_of_id(old(self)@.sessions, id),
                    SessionModel { id: Some(id), ..session@ },
                )
            },
    {
        let ghost pre = self@;
        match self.find_index(id) {
            None => false,
            Some(i) => {
                let ghost new_model = SessionModel { id: Some(id), ..session@ };
                proof {
                    assert(session_times_ok(new_model));
                    assert(session_refs_ok(new_model));
                }
                let mut s = session;
                s.id = Some(id);
                self.records.remove(i);
                self.records.insert(i, s);
                proof {
                    assert(pre.sessions[i as int].id == Some(id));
                    let k = index_of_id(pre.sessions, id);
                    assert(0 <= k < pre.sessions.len() && pre.sessions[k].id == Some(id));
                    if k != i as int {
                        assert(pre.sessions[k].id == pre.sessions[i as int].id);
                        assert(false);
                    }
                    assert(s@ == new_model);
                    assert(self@.sessions =~= pre.sessions.update(i as int, new_model));
                    let m = self@;
                    assert(m.next_id == pre.next_id);
                    assert forall|a: int| 0 <= a < m.sessions.len() implies session_record_wf(
                        #[trigger] m.sessions[a],
                        m.next_id,
                    ) by {
                        if a == i as int {
                            assert(m.sessions[a] == new_model);
                            assert(session_record_wf(pre.sessions[a], pre.next_id));
                        } else {
                            assert(m.sessions[a] == pre.sessions[a]);
                            assert(session_record_wf(pre.sessions[a], pre.next_id));
                        }
                    }
                    assert forall|a: int, b: int|
                        0 <= a < b < m.sessions.len() implies m.sessions[a].id != m.sessions[b].id
                    by {
                        assert(m.sessions[a].id == pre.sessions[a].id);
                        assert(m.sessions[b].id == pre.sessions[b].id);
                    }
                }
                true
            },
        }
    }

    /// Removes the record with identity `id`; reports whether one matched.
    pub fn delete(&mut self, id: u128) -> (matched: bool)
        requires
            old(self).wf(),
        ensures
            final(self).wf(),
            final(self)@.next_id == old(self)@.next_id,
            matched == has_id(old(self)@.sessions, id),
            !matched ==> final(self)@.sessions == old(self)@.sessions,
            matched ==> {
                &&& 0 <= index_of_id(old(self)@.sessions, id) < old(self)@.sessions.len()
                &&& final(self)@.sessions == old(self)@.sessions.remove(
                    index_of_id(old(self)@.sessions, id),
                )
            },
    {
        let n = self.records.len();
        let mut i: usize = 0;
        while i < n
            invariant
                self.wf(),
                self@ == old(self)@,
                n == self@.sessions.len(),
                i <= n,
                forall|j: int| 0 <= j < i ==> #[trigger] self@.sessions[j].id != Some(id),
            decreases n - i,
        {
            let matches_here = self.records[i].id == Some(id);
            if matches_here {
                self.records.remove(i);
                proof {
                    assert(old(self)@.sessions[i as int].id == Some(id));
                    assert(has_id(old(self)@.sessions, id));
                    let k = index_of_id(old(self)@.sessions, id);
                    assert(0 <= k < old(self)@.sessions.len() && old(self)@.sessions[k].id == Some(
                        id,
                    ));
                    if k != i as int {
                        assert(old(self)@.sessions[k].id == old(self)@.sessions[i as int].id);
                        assert(false);
                    }
                    assert(self@.sessions =~= old(self)@.sessions.remove(i as int));
                    let m = self@;
                    assert forall|a: int| 0 <= a < m.sessions.len() implies session_record_wf(
                        #[trigger] m.sessions[a],
                        m.next_id,
                    ) by {
                        if a < i as int {
                            assert(m.sessions[a] == old(self)@.sessions[a]);
                        } else {
                            assert(m.sessions[a] == old(self)@.sessions[a + 1]);
                        }
                    }
                    assert forall|a: int, b: int|
                        0 <= a < b < m.sessions.len() implies m.sessions[a].id != m.sessions[b].id
                    by {
                        if a < i as int {
                            assert(m.sessions[a] == old(self)@.sessions[a]);
                        } else {
                            assert(m.sessions[a] == old(self)@.sessions[a + 1]);
                        }
                        if b < i as int {
                            assert(m.sessions[b] == old(self)@.sessions[b]);
                        } else {
                            assert(m.sessions[b] == old(self)@.sessions[b + 1]);
                        }
                    }
                }
                return true;
            }
            i = i + 1;
        }
        false
    }

    /// A copy of every stored record, in insertion order.
    pub fn list_all(&self) -> (r: Vec<Session>)
        ensures
            r@.len() == self@.sessions.len(),
            forall|i: int| 0 <= i < r@.len() ==> #[trigger] r@[i]@ == self@.sessions[i],
    {
        let n = self.records.len();
        let mut r: Vec<Session> = Vec::new();
        let mut i: usize = 0;
        while i < n
            invariant
                n == self@.sessions.len(),
                i <= n,
                r@.len() == i,
                forall|j: int| 0 <= j < i ==> #[trigger] r@[j]@ == self@.sessions[j],
            decreases n - i,
        {
            let rec = &self.records[i];
            let copy = Session {
                id: rec.id,
                title: clone_opt_string(&rec.title),
                movie_id: rec.movie_id,
                hall_id: rec.hall_id,
                start: rec.start,
                end: rec.end,
            };
            r.push(copy);
            i = i + 1;
        }
        r
    }

    /// Counts the stored sessions that overlap the candidate interval in the
    /// given hall, leaving out the excluded identity.
    pub fn count_overlapping(
        &self,
        hall_id: u128,
        start: i64,
        end: i64,
        exclude_session_id: Option<u128>,
    ) -> (count: usize)
        ensures
            count == overlap_count(self@.sessions, hall_id, start, end, exclude_session_id),
    {
        let n = self.records.len();
        let mut count: usize = 0;
        let mut i: usize = 0;
        while i < n
            invariant
                n == self@.sessions.len(),
                i <= n,
                count <= i,
                count == overlap_count(
                    self@.sessions.take(i as int),
                    hall_id,
                    start,
                    end,
                    exclude_session_id,
                ),
            decreases n - i,
        {
            let rec = &self.records[i];
            let overlap = match (rec.hall_id, rec.start, rec.end) {
                (Some(h), Some(s2), Some(e2)) => h == hall_id && s2 < end && e2 > start,
                _ => false,
            };
            let excluded = match (exclude_session_id, rec.id) {
                (Some(x), Some(rid)) => rid == x,
                _ => false,
            };
            proof {
                assert(self@.sessions.take(i + 1).drop_last() =~= self@.sessions.take(i as int));
                assert(self@.sessions.take(i + 1).last() == self@.sessions[i as int]);
                assert(rec@ == self@.sessions[i as int]);
            }
            if overlap && !excluded {
                count = count + 1;
            }
            i = i + 1;
        }
        proof {
            assert(self@.sessions.take(n as int) =~= self@.sessions);
        }
        count
    }

    /// Whether the hall is free for the candidate interval: no non-excluded
    /// session overlaps it. A degenerate candidate conflicts with nothing.
    pub fn is_hall_available(
        &self,
        hall_id: u128,
        start: i64,
        end: i64,
        exclude_session_id: Option<u128>,
    ) -> (free: bool)
        ensures
            free == !candidate_conflicts(self@.sessions, hall_id, start, end, exclude_session_id),
    {
        if end <= start {
            return true;
        }
        let count = self.count_overlapping(hall_id, start, end, exclude_session_id);
        proof {
            lemma_overlap_count_zero(self@.sessions, hall_id, start, end, exclude_session_id);
        }
        count == 0
    }
}

/// A candidate that properly crosses an existing session of the same hall is
/// always reported as conflicting.
pub proof fn lemma_crossing_candidate_conflicts(
    sessions: Seq<SessionModel>,
    i: int,
    hall: u128,
    s2: i64,
    e2: i64,
)
    requires
        0 <= i < sessions.len(),
        sessions[i].hall_id == Some(hall),
        sessions[i].start is Some,
        sessions[i].end is Some,
        s2 < e2,
        s2 < sessions[i].end->0,
        e2 > sessions[i].start->0,
    ensures
        candidate_conflicts(sessions, hall, s2, e2, None),
{
    assert(overlap_match(sessions[i], hall, s2, e2, None));
}

/// A candidate that only touches a session at a boundary — starting exactly
/// at its end, or ending exactly at its start — does not overlap it.
pub proof fn lemma_boundary_touch_no_overlap(m: SessionModel, hall: u128, s2: i64, e2: i64)
    requires
        m.start is Some,
        m.end is Some,
        s2 == m.end->0 || e2 == m.start->0,
        s2 < e2,
        m.start->0 < m.end->0,
    ensures
        !session_overlaps(m, hall, s2, e2),
{
}

/// A candidate that only touches the one existing session at a boundary is
/// reported as non-conflicting: back-to-back scheduling is allowed.
pub proof fn lemma_boundary_touch_no_conflict(m: SessionModel, hall: u128, s2: i64, e2: i64)
    requires
        m.start is Some,
        m.end is Some,
        s2 == m.end->0 || e2 == m.start->0,
    ensures
        !candidate_conflicts(seq![m], hall, s2, e2, None),
{
    assert(!session_overlaps(m, hall, s2, e2));
    assert forall|i: int| 0 <= i < seq![m].len() implies !overlap_match(
        #[trigger] seq![m][i],
        hall,
        s2,
        e2,
        None,
    ) by {
        assert(seq![m][i] == m);
    }
}

/// The exclusion never lets a session conflict with itself: when every
/// overlapping session carries the excluded identity, no conflict is
/// reported.
pub proof fn lemma_exclude_self(
    sessions: Seq<SessionModel>,
    hall: u128,
    s2: i64,
    e2: i64,
    x: u128,
)
    requires
        forall|i: int|
            0 <= i < sessions.len() && session_overlaps(#[trigger] sessions[i], hall, s2, e2)
                ==> sessions[i].id == Some(x),
    ensures
        !candidate_conflicts(sessions, hall, s2, e2, Some(x)),
{
}

} // verus!
