use vstd::prelude::*;
use crate::ids::hex24_of;
use crate::ids::hex_digit_seq;
use crate::ids::id_to_hex;
use crate::models::SessionModel;
use crate::models::SessionResponse;
use crate::models::session_times_ok;
use crate::timefmt::format_rfc3339;
use crate::timefmt::rfc3339_of;

verus! {

/// Relies on std's `String::push`: appends exactly the given character.
#[verifier::external_body]
fn push_char(s: &mut String, c: char)
    ensures
        final(s)@ == old(s)@.push(c),
{
    s.push(c);
}

/// The JSON escape of one character: quote and backslash get a backslash,
/// control characters the `\u00XX` form, everything else stands as itself.
pub open spec fn escape_char(c: char) -> Seq<char> {
    if c == '"' {
        "\\\""@
    } else if c == '\\' {
        "\\\\"@
    } else if (c as u32) < 32 {
        "\\u00"@ + hex_digit_seq((c as u32 / 16) as int) + hex_digit_seq((c as u32 % 16) as int)
    } else {
        seq![c]
    }
}

/// The JSON escape of a text, character by character.
pub open spec fn escape_seq(s: Seq<char>) -> Seq<char>
    decreases s.len(),
{
    if s.len() == 0 {
        Seq::empty()
    } else {
        escape_seq(s.drop_last()) + escape_char(s.last())
    }
}

/// A text wrapped in double quotes.
pub open spec fn quoted(s: Seq<char>) -> Seq<char> {
    "\""@ + s + "\""@
}

/// Escapes a text for inclusion in a JSON string literal.
pub fn json_escape(s: &str) -> (r: String)
    ensures
        r@ == escape_seq(s@),
{
    let n = s.unicode_len();
    let mut out = String::new();
    let mut i: usize = 0;
    while i < n
        invariant
            n == s@.len(),
            i <= n,
            out@ == escape_seq(s@.take(i as int)),
        decreases n - i,
    {
        let c = s.get_char(i);
        if c == '"' {
            out.append("\\\"");
        } else if c == '\\' {
            out.append("\\\\");
        } else if (c as u32) < 32 {
            let code = c as u32;
            out.append("\\u00");
            out.append(crate::ids::hex_digit_str((code / 16) as u128));
            out.append(crate::ids::hex_digit_str((code % 16) as u128));
        } else {
            push_char(&mut out, c);
            proof {
                assert(out@ =~= escape_seq(s@.take(i as int)) + seq![c]);
            }
        }
        proof {
            assert(s@.take(i + 1).drop_last() =~= s@.take(i as int));
            assert(s@.take(i + 1).last() == s@[i as int]);
        }
        i = i + 1;
    }
    proof {
        assert(s@.take(n as int) =~= s@);
    }
    out
}

/// Joins text fragments with a comma between each pair.
pub open spec fn join_comma(parts: Seq<Seq<char>>) -> Seq<char>
    decreases parts.len(),
{
    if parts.len() == 0 {
        Seq::empty()
    } else if parts.len() == 1 {
        parts[0]
    } else {
        join_comma(parts.drop_last()) + ","@ + parts.last()
    }
}

fn join_comma_exec(parts: &Vec<String>) -> (r: String)
    ensures
        r@ == join_comma(parts@.map_values(|p: String| p@)),
{
    let ghost m = parts@.map_values(|p: String| p@);
    let n = parts.len();
    let mut out = String::new();
    let mut i: usize = 0;
    while i < n
        invariant
            n == parts@.len(),
            m == parts@.map_values(|p: String| p@),
            i <= n,
            out@ == join_comma(m.take(i as int)),
        decreases n - i,
    {
        if i > 0 {
            out.append(",");
        }
        out.append(parts[i].as_str());
        proof {
            assert(m.take(i + 1).drop_last() =~= m.take(i as int));
            assert(m.take(i + 1).last() == m[i as int]);
            if i == 0 {
                assert(out@ =~= m.take(1)[0]);
            } else {
                assert(out@ =~= join_comma(m.take(i as int)) + ","@ + m[i as int]);
            }
        }
        i = i + 1;
    }
    proof {
        assert(m.take(n as int) =~= m);
    }
    out
}

/// The canonical JSON fragments of a session, in canonical order; an absent
/// field is omitted.
pub open spec fn session_fields(m: SessionModel) -> Seq<Seq<char>> {
    (if m.id is Some {
        seq!["\"_id\":"@ + quoted(hex24_of(m.id->0))]
    } else {
        Seq::empty()
    }) + (if m.title is Some {
        seq!["\"title\":"@ + quoted(escape_seq(m.title->0))]
    } else {
        Seq::empty()
    }) + (if m.movie_id is Some {
        seq!["\"movie_id\":"@ + quoted(hex24_of(m.movie_id->0))]
    } else {
        Seq::empty()
    }) + (if m.hall_id is Some {
        seq!["\"hall_id\":"@ + quoted(hex24_of(m.hall_id->0))]
    } else {
        Seq::empty()
    }) + (if m.start is Some {
        seq!["\"start\":"@ + quoted(rfc3339_of(m.start->0))]
    } else {
        Seq::empty()
    }) + (if m.end is Some {
        seq!["\"end\":"@ + quoted(rfc3339_of(m.end->0))]
    } else {
        Seq::empty()
    })
}

/// The canonical JSON shape of a session record.
pub open spec fn session_json(m: SessionModel) -> Seq<char> {
    "{"@ + join_comma(session_fields(m)) + "}"@
}

fn quoted_exec(inner: String) -> (r: String)
    ensures
        r@ == quoted(inner@),
{
    let mut out = "\"".to_owned();
    out.append(inner.as_str());
    out.append("\"");
    proof {
        assert(out@ =~= quoted(inner@));
    }
    out
}

fn keyed_fragment(key: &str, value: String) -> (r: String)
    ensures
        r@ == key@ + quoted(value@),
{
    let mut out = key.to_owned();
    let q = quoted_exec(value);
    out.append(q.as_str());
    out
}

/// Renders a session record in its canonical JSON shape.
pub fn session_to_json(resp: &SessionResponse) -> (r: String)
    requires
        session_times_ok(resp@),
    ensures
        r@ == session_json(resp@),
{
    let mut parts: Vec<String> = Vec::new();
    let ghost mut expect: Seq<Seq<char>> = Seq::empty();
    match resp.id {
        Some(v) => {
            let f = keyed_fragment("\"_id\":", id_to_hex(v));
            parts.push(f);
            proof {
                expect = expect.push("\"_id\":"@ + quoted(hex24_of(v)));
                assert(parts@.map_values(|p: String| p@) =~= expect);
            }
        },
        None => {},
    }
    match &resp.title {
        Some(t) => {
            let f = keyed_fragment("\"title\":", json_escape(t.as_str()));
            parts.push(f);
            proof {
                expect = expect.push("\"title\":"@ + quoted(escape_seq(t@)));
                assert(parts@.map_values(|p: String| p@) =~= expect);
            }
        },
        None => {},
    }
    match resp.movie_id {
        Some(v) => {
            let f = keyed_fragment("\"movie_id\":", id_to_hex(v));
            parts.push(f);
            proof {
                expect = expect.push("\"movie_id\":"@ + quoted(hex24_of(v)));
                assert(parts@.map_values(|p: String| p@) =~= expect);
            }
        },
        None => {},
    }
    match resp.hall_id {
        Some(v) => {
            let f = keyed_fragment("\"hall_id\":", id_to_hex(v));
            parts.push(f);
            proof {
                expect = expect.push("\"hall_id\":"@ + quoted(hex24_of(v)));
                assert(parts@.map_values(|p: String| p@) =~= expect);
            }
        },
        None => {},
    }
    match resp.start {
        Some(ms) => {
            let f = keyed_fragment("\"start\":", format_rfc3339(ms));
            parts.push(f);
            proof {
                expect = expect.push("\"start\":"@ + quoted(rfc3339_of(ms)));
                assert(parts@.map_values(|p: String| p@) =~= expect);
            }
        },
        None => {},
    }
    match resp.end {
        Some(ms) => {
            let f = keyed_fragment("\"end\":", format_rfc3339(ms));
            parts.push(f);
            proof {
                expect = expect.push("\"end\":"@ + quoted(rfc3339_of(ms)));
                assert(parts@.map_values(|p: String| p@) =~= expect);
            }
        },
        None => {},
    }
    proof {
        assert(expect =~= session_fields(resp@));
    }
    let body = join_comma_exec(&parts);
    let mut out = "{".to_owned();
    out.append(body.as_str());
    out.append("}");
    proof {
        assert(out@ =~= session_json(resp@));
    }
    out
}

/// The canonical JSON of a list of session records.
pub open spec fn sessions_json(ms: Seq<SessionModel>) -> Seq<char> {
    "["@ + join_comma(ms.map_values(|m: SessionModel| session_json(m))) + "]"@
}

/// Renders a list of session records as a JSON array.
pub fn sessions_to_json(list: &Vec<SessionResponse>) -> (r: String)
    requires
        forall|i: int| 0 <= i < list@.len() ==> session_times_ok(#[trigger] list@[i]@),
    ensures
        r@ == sessions_json(list@.map_values(|x: SessionResponse| x@)),
{
    let ghost ms = list@.map_values(|x: SessionResponse| x@);
    let n = list.len();
    let mut parts: Vec<String> = Vec::new();
    let mut i: usize = 0;
    while i < n
        invariant
            n == list@.len(),
            ms == list@.map_values(|x: SessionResponse| x@),
            forall|j: int| 0 <= j < list@.len() ==> session_times_ok(#[trigger] list@[j]@),
            i <= n,
            parts@.len() == i,
            forall|j: int|
                0 <= j < i ==> #[trigger] parts@[j]@ == session_json(ms[j]),
        decreases n - i,
    {
        let f = session_to_json(&list[i]);
        parts.push(f);
        i = i + 1;
    }
    proof {
        assert(parts@.map_values(|p: String| p@) =~= ms.map_values(|m: SessionModel| session_json(m)));
    }
    let body = join_comma_exec(&parts);
    let mut out = "[".to_owned();
    out.append(body.as_str());
    out.append("]");
    proof {
        assert(out@ =~= sessions_json(ms));
    }
    out
}

/// The outbound event envelope: the echoed action name, a status, and a
/// JSON data object.
pub open spec fn envelope_json(action: Seq<char>, status: Seq<char>, data: Seq<char>) -> Seq<char> {
    "{\"action_type\":"@ + quoted(escape_seq(action)) + ",\"status\":"@ + quoted(
        escape_seq(status),
    )
        + ",\"data\":"@ + data + "}"@
}

/// Renders an event envelope; the data argument must already be JSON.
pub fn envelope_to_json(action: &str, status: &str, data: &str) -> (r: String)
    ensures
        r@ == envelope_json(action@, status@, data@),
{
    let mut out = "{\"action_type\":".to_owned();
    let qa = quoted_exec(json_escape(action));
    out.append(qa.as_str());
    out.append(",\"status\":");
    let qs = quoted_exec(json_escape(status));
    out.append(qs.as_str());
    out.append(",\"data\":");
    out.append(data);
    out.append("}");
    proof {
        assert(out@ =~= envelope_json(action@, status@, data@));
    }
    out
}

/// The data object of an error envelope.
pub open spec fn error_data_json(msg: Seq<char>) -> Seq<char> {
    "{\"error\":"@ + quoted(escape_seq(msg)) + "}"@
}

/// Renders the data object of an error envelope.
pub fn error_data_to_json(msg: &str) -> (r: String)
    ensures
        r@ == error_data_json(msg@),
{
    let mut out = "{\"error\":".to_owned();
    let q = quoted_exec(json_escape(msg));
    out.append(q.as_str());
    out.append("}");
    proof {
        assert(out@ =~= error_data_json(msg@));
    }
    out
}

/// The data object of a successful delete: the fixed message and the echoed
/// wire identity.
pub open spec fn delete_data_json(id: Seq<char>) -> Seq<char> {
    "{\"message\":\"Session deleted successfully\",\"_id\":"@ + quoted(escape_seq(id)) + "}"@
}

/// Renders the data object of a successful delete.
pub fn delete_data_to_json(id_str: &str) -> (r: String)
    ensures
        r@ == delete_data_json(id_str@),
{
    let mut out = "{\"message\":\"Session deleted successfully\",\"_id\":".to_owned();
    let q = quoted_exec(json_escape(id_str));
    out.append(q.as_str());
    out.append("}");
    proof {
        assert(out@ =~= delete_data_json(id_str@));
    }
    out
}

} // verus!
