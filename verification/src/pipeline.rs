use vstd::prelude::*;
use crate::errors::SessionError;
use crate::ids::OID_LIMIT;
use crate::ids::id_in_range;
use crate::ids::parse_hex_id;
use crate::ids::parse_hex_id_spec;
use crate::models::Session;
use crate::models::SessionDeleteResponse;
use crate::models::SessionModel;
use crate::models::SessionResponse;
use crate::models::SessionUpdate;
use crate::models::SessionUpdateModel;
use crate::models::clone_opt_string;
use crate::store::SessionStore;
use crate::store::StoreModel;
use crate::store::candidate_conflicts;
use crate::store::has_id;
use crate::store::index_of_id;
use crate::store::store_wf;
use crate::timefmt::MAX_TS;
use crate::timefmt::MIN_TS;
use crate::timefmt::ts_in_range;

verus! {

/// The hall and movie references of a payload are well-formed ids.
pub open spec fn payload_refs_ok(p: SessionUpdateModel) -> bool {
    &&& (p.movie_id matches Some(v) ==> id_in_range(v))
    &&& (p.hall_id matches Some(v) ==> id_in_range(v))
}

/// Every instant a payload carries lies in the renderable range.
pub open spec fn payload_times_in_range(p: SessionUpdateModel) -> bool {
    &&& (p.start matches Some(s) ==> ts_in_range(s))
    &&& (p.end matches Some(e) ==> ts_in_range(e))
}

/// Which failure, if any, creating a session from `p` meets, in the order
/// the pipeline checks: interval and hall present and positive, payload
/// well-formed, hall free.
pub open spec fn create_error(m: StoreModel, p: SessionUpdateModel) -> Option<SessionError> {
    if !(p.start is Some && p.end is Some && p.start->0 < p.end->0 && p.hall_id is Some) {
        Some(SessionError::InvalidInterval)
    } else if !(payload_times_in_range(p) && payload_refs_ok(p)) {
        Some(SessionError::BadRequest)
    } else if candidate_conflicts(m.sessions, p.hall_id->0, p.start->0, p.end->0, None) {
        Some(SessionError::SchedulingConflict)
    } else {
        None
    }
}

/// The record a successful create persists: the payload's fields under the
/// identity the store assigns next.
pub open spec fn created_session(m: StoreModel, p: SessionUpdateModel) -> SessionModel {
    SessionModel {
        id: Some(m.next_id as u128),
        title: p.title,
        movie_id: p.movie_id,
        hall_id: p.hall_id,
        start: p.start,
        end: p.end,
    }
}

/// The hall an update resolves to: the payload's when given, else the
/// current record's.
pub open spec fn resolved_hall(cur: SessionModel, p: SessionUpdateModel) -> Option<u128> {
    if p.hall_id is Some {
        p.hall_id
    } else {
        cur.hall_id
    }
}

/// The record a successful update persists: a full overwrite of the current
/// record's fields from the payload, except that the hall falls back to the
/// existing value when omitted and the identity is kept.
pub open spec fn updated_session(cur: SessionModel, p: SessionUpdateModel) -> SessionModel {
    SessionModel {
        id: cur.id,
        title: p.title,
        movie_id: p.movie_id,
        hall_id: resolved_hall(cur, p),
        start: p.start,
        end: p.end,
    }
}

/// Which failure, if any, updating the session named by `idstr` with `p`
/// meets, in the order the pipeline checks: id parse, lookup, hall
/// resolution, payload well-formedness, interval, conflict against every
/// other session.
pub open spec fn update_error(m: StoreModel, idstr: Seq<char>, p: SessionUpdateModel) -> Option<
    SessionError,
> {
    if parse_hex_id_spec(idstr) is None {
        Some(SessionError::BadRequest)
    } else {
        let id = parse_hex_id_spec(idstr)->0;
        if !has_id(m.sessions, id) {
            Some(SessionError::NotFound)
        } else {
            let cur = m.sessions[index_of_id(m.sessions, id)];
            if resolved_hall(cur, p) is None {
                Some(SessionError::BadRequest)
            } else if !(payload_times_in_range(p) && payload_refs_ok(p)) {
                Some(SessionError::BadRequest)
            } else if p.start is Some && p.end is Some && !(p.start->0 < p.end->0) {
                Some(SessionError::InvalidInterval)
            } else if p.start is Some && p.end is Some && candidate_conflicts(
                m.sessions,
                resolved_hall(cur, p)->0,
                p.start->0,
                p.end->0,
                Some(id),
            ) {
                Some(SessionError::SchedulingConflict)
            } else {
                None
            }
        }
    }
}

/// Which failure, if any, deleting the session named by `idstr` meets.
pub open spec fn delete_error(m: StoreModel, idstr: Seq<char>) -> Option<SessionError> {
    if parse_hex_id_spec(idstr) is None {
        Some(SessionError::BadRequest)
    } else if !has_id(m.sessions, parse_hex_id_spec(idstr)->0) {
        Some(SessionError::NotFound)
    } else {
        None
    }
}

/// Creates a session: validates the interval and hall, checks the hall is
/// free with no exclusion, persists, and returns the canonical record under
/// the assigned identity.
pub fn add_ws_session(store: &mut SessionStore, session_data: SessionUpdate) -> (r: Result<
    SessionResponse,
    SessionError,
>)
    requires
        old(store).wf(),
        old(store)@.next_id < u64::MAX,
    ensures
        final(store).wf(),
        r is Err <==> create_error(old(store)@, session_data@) is Some,
        r matches Err(e) ==> Some(e) == create_error(old(store)@, session_data@) && final(store)@
            == old(store)@,
        r matches Ok(resp) ==> {
            &&& resp@ == created_session(old(store)@, session_data@)
            &&& final(store)@.sessions == old(store)@.sessions.push(
                created_session(old(store)@, session_data@),
            )
            &&& final(store)@.next_id == old(store)@.next_id + 1
        },
{
    let (s_ms, e_ms) = match (session_data.start, session_data.end) {
        (Some(a), Some(b)) => (a, b),
        _ => { return Err(SessionError::InvalidInterval) },
    };
    if e_ms <= s_ms {
        return Err(SessionError::InvalidInterval);
    }
    let hall = match session_data.hall_id {
        Some(h) => h,
        None => { return Err(SessionError::InvalidInterval) },
    };
    if !(MIN_TS <= s_ms && s_ms <= MAX_TS && MIN_TS <= e_ms && e_ms <= MAX_TS) {
        return Err(SessionError::BadRequest);
    }
    let movie_bad = match session_data.movie_id {
        Some(mv) => mv >= OID_LIMIT,
        None => false,
    };
    if movie_bad || hall >= OID_LIMIT {
        return Err(SessionError::BadRequest);
    }
    if !store.is_hall_available(hall, s_ms, e_ms, None) {
        return Err(SessionError::SchedulingConflict);
    }
    let title_copy = clone_opt_string(&session_data.title);
    let record = Session {
        id: None,
        title: session_data.title,
        movie_id: session_data.movie_id,
        hall_id: Some(hall),
        start: Some(s_ms),
        end: Some(e_ms),
    };
    let id = store.insert(record);
    let resp = SessionResponse {
        id: Some(id),
        title: title_copy,
        movie_id: session_data.movie_id,
        hall_id: Some(hall),
        start: Some(s_ms),
        end: Some(e_ms),
    };
    proof {
        assert(resp@ == created_session(old(store)@, session_data@));
    }
    Ok(resp)
}

/// Updates a session: resolves the record and the effective hall, validates
/// the payload, re-checks the hall excluding the session's own identity when
/// both instants change, persists the overwrite, and returns the canonical
/// record.
pub fn update_ws_session(
    store: &mut SessionStore,
    id_str: &str,
    session_data: SessionUpdate,
) -> (r: Result<SessionResponse, SessionError>)
    requires
        old(store).wf(),
    ensures
        final(store).wf(),
        r is Err <==> update_error(old(store)@, id_str@, session_data@) is Some,
        r matches Err(e) ==> Some(e) == update_error(old(store)@, id_str@, session_data@)
            && final(store)@ == old(store)@,
        r matches Ok(resp) ==> {
            let id = parse_hex_id_spec(id_str@)->0;
            let idx = index_of_id(old(store)@.sessions, id);
            &&& resp@ == updated_session(old(store)@.sessions[idx], session_data@)
            &&& final(store)@.sessions == old(store)@.sessions.update(
                idx,
                updated_session(old(store)@.sessions[idx], session_data@),
            )
            &&& final(store)@.next_id == old(store)@.next_id
        },
{
    let id = match parse_hex_id(id_str) {
        Some(v) => v,
        None => { return Err(SessionError::BadRequest) },
    };
    let current = match store.find_by_id(id) {
        Some(c) => c,
        None => { return Err(SessionError::NotFound) },
    };
    let hall = match (session_data.hall_id, current.hall_id) {
        (Some(h), _) => h,
        (None, Some(h)) => h,
        (None, None) => { return Err(SessionError::BadRequest) },
    };
    let start_bad = match session_data.start {
        Some(s) => !(MIN_TS <= s && s <= MAX_TS),
        None => false,
    };
    let end_bad = match session_data.end {
        Some(e) => !(MIN_TS <= e && e <= MAX_TS),
        None => false,
    };
    let movie_bad = match session_data.movie_id {
        Some(mv) => mv >= OID_LIMIT,
        None => false,
    };
    let payload_hall_bad = match session_data.hall_id {
        Some(h) => h >= OID_LIMIT,
        None => false,
    };
    if start_bad || end_bad || movie_bad || payload_hall_bad {
        return Err(SessionError::BadRequest);
    }
    if let (Some(s_ms), Some(e_ms)) = (session_data.start, session_data.end) {
        if e_ms <= s_ms {
            return Err(SessionError::InvalidInterval);
        }
        if !store.is_hall_available(hall, s_ms, e_ms, Some(id)) {
            return Err(SessionError::SchedulingConflict);
        }
    }
    let title_copy = clone_opt_string(&session_data.title);
    let record = Session {
        id: None,
        title: session_data.title,
        movie_id: session_data.movie_id,
        hall_id: Some(hall),
        start: session_data.start,
        end: session_data.end,
    };
    let matched = store.replace_fields(id, record);
    proof {
        assert(matched);
    }
    let resp = SessionResponse {
        id: Some(id),
        title: title_copy,
        movie_id: session_data.movie_id,
        hall_id: Some(hall),
        start: session_data.start,
        end: session_data.end,
    };
    Ok(resp)
}

/// Deletes a session by its wire identity; reports the identity back.
pub fn delete_ws_session(store: &mut SessionStore, id_str: &str) -> (r: Result<
    SessionDeleteResponse,
    SessionError,
>)
    requires
        old(store).wf(),
    ensures
        final(store).wf(),
        r is Err <==> delete_error(old(store)@, id_str@) is Some,
        r matches Err(e) ==> Some(e) == delete_error(old(store)@, id_str@)
            && final(store)@ == old(store)@,
        r matches Ok(resp) ==> {
            let id = parse_hex_id_spec(id_str@)->0;
            &&& 0 <= index_of_id(old(store)@.sessions, id) < old(store)@.sessions.len()
            &&& final(store)@.sessions == old(store)@.sessions.remove(
                index_of_id(old(store)@.sessions, id),
            )
            &&& final(store)@.next_id == old(store)@.next_id
            &&& resp.message@ == "Session deleted successfully"@
            &&& resp.id@ == id_str@
        },
{
    let id = match parse_hex_id(id_str) {
        Some(v) => v,
        None => { return Err(SessionError::BadRequest) },
    };
    let matched = store.delete(id);
    if !matched {
        return Err(SessionError::NotFound);
    }
    Ok(SessionDeleteResponse { message: "Session deleted successfully".to_owned(), id: id_str.to_owned() })
}

/// Every stored session in canonical form, in insertion order.
pub fn get_sessions(store: &SessionStore) -> (r: Vec<SessionResponse>)
    requires
        store.wf(),
    ensures
        r@.len() == store@.sessions.len(),
        forall|i: int| 0 <= i < r@.len() ==> #[trigger] r@[i]@ == store@.sessions[i],
{
    let records = store.list_all();
    let n = records.len();
    let mut r: Vec<SessionResponse> = Vec::new();
    let mut i: usize = 0;
    while i < n
        invariant
            n == records@.len(),
            records@.len() == store@.sessions.len(),
            forall|j: int| 0 <= j < records@.len() ==> #[trigger] records@[j]@ == store@.sessions[j],
            i <= n,
            r@.len() == i,
            forall|j: int| 0 <= j < i ==> #[trigger] r@[j]@ == store@.sessions[j],
        decreases n - i,
    {
        let rec = &records[i];
        let resp = SessionResponse {
            id: rec.id,
            title: clone_opt_string(&rec.title),
            movie_id: rec.movie_id,
            hall_id: rec.hall_id,
            start: rec.start,
            end: rec.end,
        };
        proof {
            assert(records@[i as int]@ == store@.sessions[i as int]);
            assert(resp@ == records@[i as int]@);
        }
        let ghost r_old = r@;
        r.push(resp);
        proof {
            assert forall|j: int| 0 <= j < i + 1 implies #[trigger] r@[j]@ == store@.sessions[j] by {
                if j < i {
                    assert(r@[j] == r_old[j]);
                } else {
                    assert(r@[j] == resp);
                }
            }
        }
        i = i + 1;
    }
    r
}

/// A create whose payload carries a non-positive interval always fails with
/// `InvalidInterval`; with the pipeline's contract, the store is untouched.
pub proof fn lemma_create_rejects_empty_interval(m: StoreModel, p: SessionUpdateModel)
    requires
        p.start is Some,
        p.end is Some,
        p.end->0 <= p.start->0,
    ensures
        create_error(m, p) == Some(SessionError::InvalidInterval),
{
}

/// An update that carries neither instants nor a hall nor a movie — it can
/// change only the title — succeeds whenever the id resolves and the record
/// keeps a hall, whatever else the store holds.
pub proof fn lemma_title_only_update_succeeds(m: StoreModel, idstr: Seq<char>, p: SessionUpdateModel)
    requires
        parse_hex_id_spec(idstr) is Some,
        has_id(m.sessions, parse_hex_id_spec(idstr)->0),
        m.sessions[index_of_id(m.sessions, parse_hex_id_spec(idstr)->0)].hall_id is Some,
        p.hall_id is None,
        p.start is None,
        p.end is None,
        p.movie_id is None,
    ensures
        update_error(m, idstr, p) is None,
{
}

/// Deletion is final: after a successful delete the identity resolves to no
/// record, so a later listing or lookup no longer carries it.
pub proof fn lemma_delete_removes_id(m: StoreModel, idstr: Seq<char>)
    requires
        store_wf(m),
        delete_error(m, idstr) is None,
    ensures
        ({
            let id = parse_hex_id_spec(idstr)->0;
            !has_id(m.sessions.remove(index_of_id(m.sessions, id)), id)
        }),
{
    let id = parse_hex_id_spec(idstr)->0;
    let idx = index_of_id(m.sessions, id);
    assert(0 <= idx < m.sessions.len() && m.sessions[idx].id == Some(id));
    let after = m.sessions.remove(idx);
    assert forall|i: int| 0 <= i < after.len() implies after[i].id != Some(id) by {
        if i < idx {
            assert(after[i] == m.sessions[i]);
            assert(m.sessions[i].id != m.sessions[idx].id);
        } else {
            assert(after[i] == m.sessions[i + 1]);
            assert(m.sessions[idx].id != m.sessions[i + 1].id);
        }
    }
}

/// A delete whose id parses but resolves to no record always fails with
/// `NotFound`; with the pipeline's contract, the store is untouched.
pub proof fn lemma_delete_missing_id(m: StoreModel, idstr: Seq<char>)
    requires
        parse_hex_id_spec(idstr) is Some,
        !has_id(m.sessions, parse_hex_id_spec(idstr)->0),
    ensures
        delete_error(m, idstr) == Some(SessionError::NotFound),
{
}

} // verus!
