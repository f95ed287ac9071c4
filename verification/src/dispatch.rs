use vstd::prelude::*;
use crate::codec::delete_data_json;
use crate::codec::delete_data_to_json;
use crate::codec::envelope_json;
use crate::codec::error_data_json;
use crate::codec::error_data_to_json;
use crate::codec::session_json;
use crate::codec::session_to_json;
use crate::codec::sessions_json;
use crate::codec::sessions_to_json;
use crate::errors::SessionError;
use crate::hub::SharedState;
use crate::models::SessionResponse;
use crate::models::SessionUpdate;
use crate::models::SessionUpdateModel;
use crate::models::opt_text;
use crate::models::session_times_ok;
use crate::pipeline::add_ws_session;
use crate::pipeline::create_error;
use crate::pipeline::created_session;
use crate::pipeline::delete_error;
use crate::pipeline::delete_ws_session;
use crate::pipeline::get_sessions;
use crate::pipeline::update_error;
use crate::pipeline::update_ws_session;
use crate::pipeline::updated_session;
use crate::ids::parse_hex_id_spec;
use crate::store::SessionStore;
use crate::store::StoreModel;
use crate::store::index_of_id;

verus! {

/// One inbound frame, after the transport has decoded the JSON envelope:
/// either unusable (malformed JSON or no action field), or an action with
/// its optional id and its decoded payload (`None` when the data part could
/// not be decoded).
pub enum InboundMessage {
    Invalid,
    Action { name: String, id: Option<String>, data: Option<SessionUpdate> },
}

/// The model of an inbound frame.
pub enum InboundModel {
    Invalid,
    Action { name: Seq<char>, id: Option<Seq<char>>, data: Option<SessionUpdateModel> },
}

pub open spec fn opt_payload(o: Option<SessionUpdate>) -> Option<SessionUpdateModel> {
    match o {
        Option::Some(p) => Option::Some(p@),
        Option::None => Option::None,
    }
}

impl View for InboundMessage {
    type V = InboundModel;

    open spec fn view(&self) -> InboundModel {
        match *self {
            InboundMessage::Invalid => InboundModel::Invalid,
            InboundMessage::Action { name, id, data } => InboundModel::Action {
                name: name@,
                id: opt_text(id),
                data: opt_payload(data),
            },
        }
    }
}

/// The wire identity an action carries: the given id, or empty when absent.
pub open spec fn wire_id(id: Option<Seq<char>>) -> Seq<char> {
    if id is Some {
        id->0
    } else {
        Seq::empty()
    }
}

/// An error envelope: status `error`, the message in the data object.
pub open spec fn error_envelope(action: Seq<char>, msg: Seq<char>) -> Seq<char> {
    envelope_json(action, "error"@, error_data_json(msg))
}

/// The envelope the dispatcher broadcasts for one inbound frame against one
/// store state.
pub open spec fn response_envelope(m: StoreModel, msg: InboundModel) -> Seq<char> {
    match msg {
        InboundModel::Invalid => error_envelope("error"@, "Action type is missing"@),
        InboundModel::Action { name, id, data } => {
            if name == "get_sessions"@ {
                envelope_json(name, "success"@, sessions_json(m.sessions))
            } else if name == "add_session"@ {
                match data {
                    Option::None => error_envelope(name, "Failed to parse session data"@),
                    Option::Some(p) => match create_error(m, p) {
                        Option::Some(e) => error_envelope(name, e.message_spec()),
                        Option::None => envelope_json(
                            name,
                            "success"@,
                            session_json(created_session(m, p)),
                        ),
                    },
                }
            } else if name == "update_session"@ {
                match data {
                    Option::None => error_envelope(name, "Failed to parse session update data"@),
                    Option::Some(p) => match update_error(m, wire_id(id), p) {
                        Option::Some(e) => error_envelope(name, e.message_spec()),
                        Option::None => envelope_json(
                            name,
                            "success"@,
                            session_json(
                                updated_session(
                                    m.sessions[index_of_id(
                                        m.sessions,
                                        parse_hex_id_spec(wire_id(id))->0,
                                    )],
                                    p,
                                ),
                            ),
                        ),
                    },
                }
            } else if name == "delete_session"@ {
                match delete_error(m, wire_id(id)) {
                    Option::Some(e) => error_envelope(name, e.message_spec()),
                    Option::None => envelope_json(name, "success"@, delete_data_json(wire_id(id))),
                }
            } else {
                error_envelope(name, "Unsupported action"@)
            }
        },
    }
}

/// The store state after one inbound frame: exactly the successful
/// mutation's effect, and unchanged in every other case.
pub open spec fn store_after(m: StoreModel, msg: InboundModel) -> StoreModel {
    match msg {
        InboundModel::Invalid => m,
        InboundModel::Action { name, id, data } => {
            if name == "add_session"@ && data is Some && create_error(m, data->0) is None {
                StoreModel {
                    sessions: m.sessions.push(created_session(m, data->0)),
                    next_id: (m.next_id + 1) as u64,
                }
            } else if name == "update_session"@ && data is Some && update_error(
                m,
                wire_id(id),
                data->0,
            ) is None {
                let sid = parse_hex_id_spec(wire_id(id))->0;
                let idx = index_of_id(m.sessions, sid);
                StoreModel {
                    sessions: m.sessions.update(idx, updated_session(m.sessions[idx], data->0)),
                    next_id: m.next_id,
                }
            } else if name == "delete_session"@ && delete_error(m, wire_id(id)) is None {
                let sid = parse_hex_id_spec(wire_id(id))->0;
                StoreModel {
                    sessions: m.sessions.remove(index_of_id(m.sessions, sid)),
                    next_id: m.next_id,
                }
            } else {
                m
            }
        },
    }
}

/// The four action names of the wire protocol are pairwise distinct, so at
/// most one arm of the dispatch applies to a frame.
proof fn action_names_distinct()
    ensures
        "get_sessions"@ != "add_session"@,
        "get_sessions"@ != "update_session"@,
        "get_sessions"@ != "delete_session"@,
        "add_session"@ != "update_session"@,
        "add_session"@ != "delete_session"@,
        "update_session"@ != "delete_session"@,
{
    reveal_strlit("get_sessions");
    reveal_strlit("add_session");
    reveal_strlit("update_session");
    reveal_strlit("delete_session");
    assert(("get_sessions"@).len() == 12);
    assert(("add_session"@).len() == 11);
    assert(("update_session"@).len() == 14);
    assert(("delete_session"@).len() == 14);
    assert(("update_session"@)[0] == 'u');
    assert(("delete_session"@)[0] == 'd');
}

/// Relies on std's `str` equality: two slices are equal exactly when their
/// character sequences are.
#[verifier::external_body]
fn str_eq(a: &str, b: &str) -> (r: bool)
    ensures
        r == (a@ == b@),
{
    a == b
}

/// Dispatches one inbound frame: decides the action, drives the mutation
/// pipeline, and broadcasts the one resulting envelope to every subscriber.
/// Returns the envelope that was broadcast.
pub fn handle_message(store: &mut SessionStore, state: &mut SharedState, msg: InboundMessage) -> (env:
    String)
    requires
        old(store).wf(),
        old(store)@.next_id < u64::MAX,
        old(state).wf(),
    ensures
        final(store).wf(),
        final(state).wf(),
        env@ == response_envelope(old(store)@, msg@),
        final(store)@ == store_after(old(store)@, msg@),
        final(state)@.next_key == old(state)@.next_key,
        final(state)@.subs.len() == old(state)@.subs.len(),
        forall|i: int|
            0 <= i < old(state)@.subs.len() ==> {
                &&& (#[trigger] final(state)@.subs[i]).key == old(state)@.subs[i].key
                &&& final(state)@.subs[i].queue == old(state)@.subs[i].queue.push(
                    response_envelope(old(store)@, msg@),
                )
            },
{
    proof {
        action_names_distinct();
    }
    match msg {
        InboundMessage::Invalid => {
            let d = error_data_to_json("Action type is missing");
            state.broadcast("error", "error", d.as_str())
        },
        InboundMessage::Action { name, id, data } => {
            if str_eq(name.as_str(), "get_sessions") {
                let list = get_sessions(store);
                proof {
                    assert forall|i: int| 0 <= i < list@.len() implies session_times_ok(
                        #[trigger] list@[i]@,
                    ) by {
                        assert(list@[i]@ == store@.sessions[i]);
                    }
                    assert(list@.map_values(|x: SessionResponse| x@) =~= store@.sessions);
                }
                let d = sessions_to_json(&list);
                state.broadcast(name.as_str(), "success", d.as_str())
            } else if str_eq(name.as_str(), "add_session") {
                match data {
                    None => {
                        let d = error_data_to_json("Failed to parse session data");
                        state.broadcast(name.as_str(), "error", d.as_str())
                    },
                    Some(p) => match add_ws_session(store, p) {
                        Ok(resp) => {
                            proof {
                                assert(session_times_ok(resp@));
                            }
                            let d = session_to_json(&resp);
                                state.broadcast(name.as_str(), "success", d.as_str())
                        },
                        Err(e) => {
                            let d = error_data_to_json(e.message());
                                state.broadcast(name.as_str(), "error", d.as_str())
                        },
                    },
                }
            } else if str_eq(name.as_str(), "update_session") {
                match data {
                    None => {
                        let d = error_data_to_json("Failed to parse session update data");
                        state.broadcast(name.as_str(), "error", d.as_str())
                    },
                    Some(p) => {
                        let id_string = match &id {
                            Some(s) => s.as_str(),
                            None => "",
                        };
                        proof {
                            reveal_strlit("");
                            assert(""@ =~= Seq::<char>::empty());
                            assert(id_string@ == wire_id(msg@->Action_id));
                        }
                        match update_ws_session(store, id_string, p) {
                            Ok(resp) => {
                                proof {
                                    assert(session_times_ok(resp@));
                                }
                                let d = session_to_json(&resp);
                                        state.broadcast(name.as_str(), "success", d.as_str())
                            },
                            Err(e) => {
                                let d = error_data_to_json(e.message());
                                        state.broadcast(name.as_str(), "error", d.as_str())
                            },
                        }
                    },
                }
            } else if str_eq(name.as_str(), "delete_session") {
                let id_string = match &id {
                    Some(s) => s.as_str(),
                    None => "",
                };
                proof {
                    reveal_strlit("");
                    assert(""@ =~= Seq::<char>::empty());
                    assert(id_string@ == wire_id(msg@->Action_id));
                }
                match delete_ws_session(store, id_string) {
                    Ok(_done) => {
                        let d = delete_data_to_json(id_string);
                        state.broadcast(name.as_str(), "success", d.as_str())
                    },
                    Err(e) => {
                        let d = error_data_to_json(e.message());
                        state.broadcast(name.as_str(), "error", d.as_str())
                    },
                }
            } else {
                let d = error_data_to_json(SessionError::Unsupported.message());
                state.broadcast(name.as_str(), "error", d.as_str())
            }
        },
    }
}

} // verus!
