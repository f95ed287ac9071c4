use vstd::prelude::*;

verus! {

/// Exclusive upper bound of an object id: ids travel on the wire as exactly
/// 24 hex digits, so a valid id carries 96 bits.
pub const OID_LIMIT: u128 = 0x1000000000000000000000000;

pub open spec fn id_in_range(v: u128) -> bool {
    v < OID_LIMIT
}

/// 16 to the power `n`.
pub open spec fn pow16(n: nat) -> int
    decreases n,
{
    if n == 0 {
        1
    } else {
        16 * pow16((n - 1) as nat)
    }
}

pub proof fn lemma_pow16_pos(n: nat)
    ensures
        pow16(n) >= 1,
    decreases n,
{
    if n > 0 {
        lemma_pow16_pos((n - 1) as nat);
    }
}

pub proof fn lemma_pow16_mono(a: nat, b: nat)
    requires
        a <= b,
    ensures
        pow16(a) <= pow16(b),
    decreases b,
{
    if a < b {
        lemma_pow16_mono(a, (b - 1) as nat);
        lemma_pow16_pos((b - 1) as nat);
    }
}

/// The lower-case hex digit for `d`.
pub open spec fn hex_digit_seq(d: int) -> Seq<char> {
    if d == 0 {
        "0"@
    } else if d == 1 {
        "1"@
    } else if d == 2 {
        "2"@
    } else if d == 3 {
        "3"@
    } else if d == 4 {
        "4"@
    } else if d == 5 {
        "5"@
    } else if d == 6 {
        "6"@
    } else if d == 7 {
        "7"@
    } else if d == 8 {
        "8"@
    } else if d == 9 {
        "9"@
    } else if d == 10 {
        "a"@
    } else if d == 11 {
        "b"@
    } else if d == 12 {
        "c"@
    } else if d == 13 {
        "d"@
    } else if d == 14 {
        "e"@
    } else {
        "f"@
    }
}

/// The `w` low hex digits of `v`, most significant first.
pub open spec fn hex_seq(v: int, w: nat) -> Seq<char>
    decreases w,
{
    if w == 0 {
        Seq::empty()
    } else {
        hex_seq(v / 16, (w - 1) as nat) + hex_digit_seq(v % 16)
    }
}

/// The canonical 24-digit rendering of an object id.
pub open spec fn hex24_of(v: u128) -> Seq<char> {
    hex_seq(v as int, 24)
}

pub(crate) fn hex_digit_str(d: u128) -> (r: &'static str)
    requires
        d < 16,
    ensures
        r@ == hex_digit_seq(d as int),
{
    if d == 0 {
        "0"
    } else if d == 1 {
        "1"
    } else if d == 2 {
        "2"
    } else if d == 3 {
        "3"
    } else if d == 4 {
        "4"
    } else if d == 5 {
        "5"
    } else if d == 6 {
        "6"
    } else if d == 7 {
        "7"
    } else if d == 8 {
        "8"
    } else if d == 9 {
        "9"
    } else if d == 10 {
        "a"
    } else if d == 11 {
        "b"
    } else if d == 12 {
        "c"
    } else if d == 13 {
        "d"
    } else if d == 14 {
        "e"
    } else {
        "f"
    }
}

fn hex_of_width(v: u128, w: usize) -> (r: String)
    ensures
        r@ == hex_seq(v as int, w as nat),
    decreases w,
{
    if w == 0 {
        String::new()
    } else {
        let mut s = hex_of_width(v / 16, w - 1);
        s.append(hex_digit_str(v % 16));
        s
    }
}

/// Renders an id as its 24-digit lower-case hex form.
pub fn id_to_hex(v: u128) -> (r: String)
    ensures
        r@ == hex24_of(v),
{
    hex_of_width(v, 24)
}

pub open spec fn is_hex_char(c: char) -> bool {
    (48 <= c as u32 && c as u32 <= 57) || (97 <= c as u32 && c as u32 <= 102) || (65 <= c as u32
        && c as u32 <= 70)
}

pub open spec fn hex_char_val(c: char) -> int {
    if 48 <= c as u32 && c as u32 <= 57 {
        c as u32 - 48
    } else if 97 <= c as u32 && c as u32 <= 102 {
        c as u32 - 97 + 10
    } else {
        c as u32 - 65 + 10
    }
}

pub open spec fn all_hex(s: Seq<char>) -> bool {
    forall|i: int| 0 <= i < s.len() ==> is_hex_char(#[trigger] s[i])
}

/// The value of a big-endian string of hex digits.
pub open spec fn hex_value_seq(s: Seq<char>) -> int
    decreases s.len(),
{
    if s.len() == 0 {
        0
    } else {
        hex_value_seq(s.drop_last()) * 16 + hex_char_val(s.last())
    }
}

/// What parsing a wire id yields: a value exactly when the text is 24 hex
/// digits, upper or lower case.
pub open spec fn parse_hex_id_spec(s: Seq<char>) -> Option<u128> {
    if s.len() == 24 && all_hex(s) {
        Some(hex_value_seq(s) as u128)
    } else {
        None
    }
}

fn hex_char_val_exec(c: char) -> (r: Option<u8>)
    ensures
        r is Some <==> is_hex_char(c),
        r matches Some(d) ==> d as int == hex_char_val(c),
{
    let u = c as u32;
    if 48 <= u && u <= 57 {
        Some((u - 48) as u8)
    } else if 97 <= u && u <= 102 {
        Some((u - 97 + 10) as u8)
    } else if 65 <= u && u <= 70 {
        Some((u - 65 + 10) as u8)
    } else {
        None
    }
}

/// Parses a wire id: exactly 24 hex digits, as the store's ids travel.
pub fn parse_hex_id(s: &str) -> (r: Option<u128>)
    ensures
        r == parse_hex_id_spec(s@),
{
    let n = s.unicode_len();
    if n != 24 {
        return None;
    }
    let mut v: u128 = 0;
    for i in 0..24usize
        invariant
            s@.len() == 24,
            all_hex(s@.take(i as int)),
            v == hex_value_seq(s@.take(i as int)),
            v < pow16(i as nat),
    {
        let c = s.get_char(i);
        match hex_char_val_exec(c) {
            Some(d) => {
                proof {
                    lemma_pow16_mono(i as nat, 23);
                    assert(pow16(24) == 0x1000000000000000000000000) by {
                        reveal_with_fuel(pow16, 25);
                    }
                    assert(pow16((i + 1) as nat) == 16 * pow16(i as nat));
                    lemma_pow16_mono((i + 1) as nat, 24);
                }
                v = v * 16 + (d as u128);
                proof {
                    assert(s@.take(i + 1).drop_last() =~= s@.take(i as int));
                    assert(s@.take(i + 1).last() == s@[i as int]);
                    assert forall|j: int| 0 <= j < i + 1 implies is_hex_char(
                        #[trigger] s@.take(i + 1)[j],
                    ) by {
                        if j < i {
                            assert(s@.take(i + 1)[j] == s@.take(i as int)[j]);
                        }
                    }
                }
            },
            None => {
                proof {
                    assert(!is_hex_char(s@[i as int]));
                }
                return None;
            },
        }
    }
    proof {
        assert(s@.take(24) =~= s@);
    }
    Some(v)
}

pub proof fn lemma_hex_digit_wf(d: int)
    ensures
        hex_digit_seq(d).len() == 1,
        is_hex_char(hex_digit_seq(d)[0]),
{
    reveal_strlit("0");
    reveal_strlit("1");
    reveal_strlit("2");
    reveal_strlit("3");
    reveal_strlit("4");
    reveal_strlit("5");
    reveal_strlit("6");
    reveal_strlit("7");
    reveal_strlit("8");
    reveal_strlit("9");
    reveal_strlit("a");
    reveal_strlit("b");
    reveal_strlit("c");
    reveal_strlit("d");
    reveal_strlit("e");
    reveal_strlit("f");
}

proof fn lemma_hex_digit_val(d: int)
    requires
        0 <= d < 16,
    ensures
        hex_char_val(hex_digit_seq(d)[0]) == d,
{
    reveal_strlit("0");
    reveal_strlit("1");
    reveal_strlit("2");
    reveal_strlit("3");
    reveal_strlit("4");
    reveal_strlit("5");
    reveal_strlit("6");
    reveal_strlit("7");
    reveal_strlit("8");
    reveal_strlit("9");
    reveal_strlit("a");
    reveal_strlit("b");
    reveal_strlit("c");
    reveal_strlit("d");
    reveal_strlit("e");
    reveal_strlit("f");
}

proof fn lemma_hex_value_inverse(v: int, w: nat)
    requires
        v >= 0,
    ensures
        hex_value_seq(hex_seq(v, w)) == v % pow16(w),
    decreases w,
{
    if w == 0 {
        assert(v % 1 == 0);
    } else {
        let s = hex_seq(v, w);
        let pre = hex_seq(v / 16, (w - 1) as nat);
        lemma_hex_seq_len(v / 16, (w - 1) as nat);
        lemma_hex_digit_wf(v % 16);
        assert(s.drop_last() =~= pre);
        assert(s.last() == hex_digit_seq(v % 16)[0]);
        lemma_hex_value_inverse(v / 16, (w - 1) as nat);
        lemma_hex_digit_val(v % 16);
        let p1 = pow16((w - 1) as nat);
        lemma_pow16_pos((w - 1) as nat);
        let q = (v / 16) / p1;
        let r1 = (v / 16) % p1;
        vstd::arithmetic::div_mod::lemma_fundamental_div_mod(v / 16, p1);
        vstd::arithmetic::div_mod::lemma_fundamental_div_mod(v, 16);
        vstd::arithmetic::div_mod::lemma_mod_bound(v / 16, p1);
        assert(v == q * (16 * p1) + (16 * r1 + v % 16)) by (nonlinear_arith)
            requires
                v / 16 == p1 * q + r1,
                v == 16 * (v / 16) + (v % 16),
        ;
        assert(0 <= 16 * r1 + v % 16 < 16 * p1);
        vstd::arithmetic::div_mod::lemma_fundamental_div_mod_converse(
            v,
            16 * p1,
            q,
            16 * r1 + v % 16,
        );
        assert(hex_value_seq(s) == r1 * 16 + v % 16);
    }
}

/// Round trip of the wire identity codec: rendering an in-range id to its 24
/// hex digits and parsing the digits back yields the id.
pub proof fn lemma_hex_round_trip(v: u128)
    requires
        id_in_range(v),
    ensures
        parse_hex_id_spec(hex24_of(v)) == Some(v),
{
    lemma_hex_seq_len(v as int, 24);
    lemma_hex_value_inverse(v as int, 24);
    assert(pow16(24) == 0x1000000000000000000000000) by {
        reveal_with_fuel(pow16, 25);
    }
    vstd::arithmetic::div_mod::lemma_small_mod(v as nat, 0x1000000000000000000000000nat);
}

pub proof fn lemma_hex_seq_len(v: int, w: nat)
    ensures
        hex_seq(v, w).len() == w,
        all_hex(hex_seq(v, w)),
    decreases w,
{
    if w > 0 {
        lemma_hex_seq_len(v / 16, (w - 1) as nat);
        lemma_hex_digit_wf(v % 16);
        let pre = hex_seq(v / 16, (w - 1) as nat);
        let tail = hex_digit_seq(v % 16);
        assert forall|i: int| 0 <= i < hex_seq(v, w).len() implies is_hex_char(
            #[trigger] hex_seq(v, w)[i],
        ) by {
            if i < w - 1 {
                assert(hex_seq(v, w)[i] == pre[i]);
            } else {
                assert(hex_seq(v, w)[i] == tail[0]);
            }
        }
    }
}

} // verus!
