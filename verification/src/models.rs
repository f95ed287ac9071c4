use vstd::prelude::*;
use crate::ids::id_in_range;
use crate::timefmt::ts_in_range;

verus! {

/// The mathematical model of a stored or returned session record.
pub struct SessionModel {
    pub id: Option<u128>,
    pub title: Option<Seq<char>>,
    pub movie_id: Option<u128>,
    pub hall_id: Option<u128>,
    pub start: Option<i64>,
    pub end: Option<i64>,
}

pub open spec fn opt_text(o: Option<String>) -> Option<Seq<char>> {
    match o {
        Option::Some(s) => Option::Some(s@),
        Option::None => Option::None,
    }
}

/// A session record as the document store holds it: identity assigned by the
/// store, hall and movie referenced by id, a half-open interval of instants
/// in milliseconds.
pub struct Session {
    pub id: Option<u128>,
    pub title: Option<String>,
    pub movie_id: Option<u128>,
    pub hall_id: Option<u128>,
    pub start: Option<i64>,
    pub end: Option<i64>,
}

impl View for Session {
    type V = SessionModel;

    open spec fn view(&self) -> SessionModel {
        SessionModel {
            id: self.id,
            title: opt_text(self.title),
            movie_id: self.movie_id,
            hall_id: self.hall_id,
            start: self.start,
            end: self.end,
        }
    }
}

/// An inbound mutation payload: every field optional, instants in
/// milliseconds since the epoch.
pub struct SessionUpdate {
    pub movie_id: Option<u128>,
    pub hall_id: Option<u128>,
    pub title: Option<String>,
    pub start: Option<i64>,
    pub end: Option<i64>,
    pub poster: Option<String>,
}

/// The model of a mutation payload.
pub struct SessionUpdateModel {
    pub movie_id: Option<u128>,
    pub hall_id: Option<u128>,
    pub title: Option<Seq<char>>,
    pub start: Option<i64>,
    pub end: Option<i64>,
    pub poster: Option<Seq<char>>,
}

impl View for SessionUpdate {
    type V = SessionUpdateModel;

    open spec fn view(&self) -> SessionUpdateModel {
        SessionUpdateModel {
            movie_id: self.movie_id,
            hall_id: self.hall_id,
            title: opt_text(self.title),
            start: self.start,
            end: self.end,
            poster: opt_text(self.poster),
        }
    }
}

/// The canonical session representation a successful mutation returns.
pub struct SessionResponse {
    pub id: Option<u128>,
    pub title: Option<String>,
    pub movie_id: Option<u128>,
    pub hall_id: Option<u128>,
    pub start: Option<i64>,
    pub end: Option<i64>,
}

impl View for SessionResponse {
    type V = SessionModel;

    open spec fn view(&self) -> SessionModel {
        SessionModel {
            id: self.id,
            title: opt_text(self.title),
            movie_id: self.movie_id,
            hall_id: self.hall_id,
            start: self.start,
            end: self.end,
        }
    }
}

/// What a successful delete reports: a fixed message and the deleted id.
pub struct SessionDeleteResponse {
    pub message: String,
    pub id: String,
}

/// A hall: a room with a capacity. Sessions reference halls by id.
pub struct Hall {
    pub id: Option<u128>,
    pub name: String,
    pub description: String,
    pub capacity: u32,
}

/// A movie. Sessions reference movies by id.
pub struct Movie {
    pub id: Option<u128>,
    pub title: String,
    pub duration: i32,
    pub description: Option<String>,
    pub poster: Option<String>,
}

/// A partial update of a hall.
pub struct HallUpdate {
    pub name: Option<String>,
    pub capacity: Option<u32>,
    pub description: Option<String>,
}

/// A partial update of a movie.
pub struct MovieUpdate {
    pub title: Option<String>,
    pub duration: Option<i32>,
    pub description: Option<String>,
    pub poster: Option<String>,
}

/// The instants of a record lie in the renderable range, and where both ends
/// of the interval are present the interval is positive.
pub open spec fn session_times_ok(m: SessionModel) -> bool {
    &&& (m.start matches Some(s) ==> ts_in_range(s))
    &&& (m.end matches Some(e) ==> ts_in_range(e))
    &&& (m.start is Some && m.end is Some ==> m.start->0 < m.end->0)
}

/// The hall and movie references of a record are well-formed ids.
pub open spec fn session_refs_ok(m: SessionModel) -> bool {
    &&& (m.movie_id matches Some(v) ==> id_in_range(v))
    &&& (m.hall_id matches Some(v) ==> id_in_range(v))
}

pub(crate) fn clone_opt_string(s: &Option<String>) -> (r: Option<String>)
    ensures
        opt_text(r) == opt_text(*s),
{
    match s {
        Option::Some(t) => Option::Some(t.clone()),
        Option::None => Option::None,
    }
}

} // verus!
