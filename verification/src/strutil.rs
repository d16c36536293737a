//! Verified string comparison and small text helpers shared by the
//! provider modules.

use vstd::prelude::*;

use vstd::utf8::encode_utf8;

verus! {

broadcast use {
    vstd::utf8::encode_utf8_decode_utf8,
    vstd::string::group_string_axioms,
};

/// Whether two string slices hold the same characters, decided by one
/// pass over their bytes.
pub fn str_eq(a: &str, b: &str) -> (r: bool)
    ensures
        r == (a@ == b@),
{
    let ab = a.as_bytes();
    let bb = b.as_bytes();
    let n = ab.len();
    if n != bb.len() {
        proof {
            assert(a@ != b@) by {
                if a@ == b@ {
                    assert(encode_utf8(a@) == encode_utf8(b@));
                }
            }
        }
        return false;
    }
    for i in 0..n
        invariant
            n == ab@.len() == bb@.len(),
            ab@ == encode_utf8(a@),
            bb@ == encode_utf8(b@),
            forall|k: int| 0 <= k < i ==> #[trigger] ab@[k] == bb@[k],
    {
        if ab[i] != bb[i] {
            proof {
                assert(a@ != b@) by {
                    if a@ == b@ {
                        assert(encode_utf8(a@) == encode_utf8(b@));
                    }
                }
            }
            return false;
        }
    }
    proof {
        assert(encode_utf8(a@) =~= encode_utf8(b@));
        assert(vstd::utf8::decode_utf8(encode_utf8(a@)) == a@);
        assert(vstd::utf8::decode_utf8(encode_utf8(b@)) == b@);
    }
    true
}

/// The texts that parse as one JSON value; what `json_value_ok` accepts
/// is defined by serde_json and depends on the text alone.
pub uninterp spec fn json_ok(s: Seq<char>) -> bool;

/// Relies on serde_json's from_str for `Value`: it accepts exactly the
/// texts that parse as one JSON value.
#[verifier::external_body]
pub fn json_value_ok(s: &str) -> (r: bool)
    ensures
        r == json_ok(s@),
{
    serde_json::from_str::<serde_json::Value>(s).is_ok()
}

/// Whether `c` has the Unicode white-space property, as std's
/// whitespace test defines it.
pub open spec fn is_white_space(c: char) -> bool {
    let u = c as u32;
    (9 <= u && u <= 13) || u == 32 || u == 0x85 || u == 0xA0 || u == 0x1680 || (0x2000 <= u && u
        <= 0x200A) || u == 0x2028 || u == 0x2029 || u == 0x202F || u == 0x205F || u == 0x3000
}

/// Whether `c` has the Unicode white-space property, decided in place.
pub fn is_white_space_exec(c: char) -> (r: bool)
    ensures
        r == is_white_space(c),
{
    let u = c as u32;
    (9 <= u && u <= 13) || u == 32 || u == 0x85 || u == 0xA0 || u == 0x1680 || (0x2000 <= u && u
        <= 0x200A) || u == 0x2028 || u == 0x2029 || u == 0x202F || u == 0x205F || u == 0x3000
}

/// `s` with leading white space removed.
pub open spec fn ws_trim_front(s: Seq<char>) -> Seq<char>
    decreases s.len(),
{
    if s.len() > 0 && is_white_space(s[0]) {
        ws_trim_front(s.drop_first())
    } else {
        s
    }
}

/// `s` with trailing white space removed.
pub open spec fn ws_trim_back(s: Seq<char>) -> Seq<char>
    decreases s.len(),
{
    if s.len() > 0 && is_white_space(s.last()) {
        ws_trim_back(s.drop_last())
    } else {
        s
    }
}

/// `s` with white space removed at both ends.
pub open spec fn ws_trim(s: Seq<char>) -> Seq<char> {
    ws_trim_back(ws_trim_front(s))
}

/// `ws_trim_front` lands exactly where a forward scan stops.
proof fn lemma_ws_trim_front_skip(s: Seq<char>, a: int)
    requires
        0 <= a <= s.len(),
        forall|k: int| 0 <= k < a ==> is_white_space(#[trigger] s[k]),
        a < s.len() ==> !is_white_space(s[a]),
    ensures
        ws_trim_front(s) == s.skip(a),
    decreases a,
{
    if a == 0 {
        assert(s.skip(0) =~= s);
    } else {
        assert(is_white_space(s[0]));
        assert forall|k: int| 0 <= k < a - 1 implies is_white_space(
            #[trigger] s.drop_first()[k],
        ) by {
            assert(is_white_space(s[k + 1]));
        }
        lemma_ws_trim_front_skip(s.drop_first(), a - 1);
        assert(s.drop_first().skip(a - 1) =~= s.skip(a));
    }
}

/// `ws_trim_back` lands exactly where a backward scan stops.
proof fn lemma_ws_trim_back_take(s: Seq<char>, b: int)
    requires
        0 <= b <= s.len(),
        forall|k: int| b <= k < s.len() ==> is_white_space(#[trigger] s[k]),
        b > 0 ==> !is_white_space(s[b - 1]),
    ensures
        ws_trim_back(s) == s.take(b),
    decreases s.len() - b,
{
    if b == s.len() {
        if s.len() > 0 {
            assert(!is_white_space(s.last()));
        }
        assert(s.take(b) =~= s);
    } else {
        assert(is_white_space(s[s.len() - 1]));
        assert forall|k: int| b <= k < s.drop_last().len() implies is_white_space(
            #[trigger] s.drop_last()[k],
        ) by {
            assert(is_white_space(s[k]));
        }
        lemma_ws_trim_back_take(s.drop_last(), b);
        assert(s.drop_last().take(b) =~= s.take(b));
    }
}

/// A copy of `s` with white space removed at both ends.
pub fn ws_trim_exec(s: &str) -> (r: String)
    ensures
        r@ == ws_trim(s@),
{
    let n = s.unicode_len();
    let mut a: usize = 0;
    while a < n && is_white_space_exec(s.get_char(a))
        invariant
            0 <= a <= n,
            n == s@.len(),
            forall|k: int| 0 <= k < a ==> is_white_space(#[trigger] s@[k]),
        decreases n - a,
    {
        a = a + 1;
    }
    proof {
        lemma_ws_trim_front_skip(s@, a as int);
    }
    let mut b: usize = n;
    while b > a && is_white_space_exec(s.get_char(b - 1))
        invariant
            a <= b <= n,
            n == s@.len(),
            forall|k: int| b <= k < n ==> is_white_space(#[trigger] s@[k]),
        decreases b,
    {
        b = b - 1;
    }
    proof {
        let t = s@.skip(a as int);
        assert forall|k: int| b - a <= k < t.len() implies is_white_space(#[trigger] t[k]) by {
            assert(is_white_space(s@[k + a]));
        }
        if b > a {
            assert(!is_white_space(t[b - a - 1]));
        }
        lemma_ws_trim_back_take(t, b - a);
        assert(t.take(b - a) =~= s@.subrange(a as int, b as int));
    }
    let sub = s.substring_char(a, b);
    String::from_str(sub)
}

/// Whether every character of `s` is an ASCII digit.
pub open spec fn all_digit_chars(s: Seq<char>) -> bool {
    forall|i: int| 0 <= i < s.len() ==> 48 <= ((#[trigger] s[i]) as u32) <= 57
}

/// The numeric value of a digit string, most significant digit first.
pub open spec fn digits_val_chars(s: Seq<char>) -> nat
    decreases s.len(),
{
    if s.len() == 0 {
        0
    } else {
        digits_val_chars(s.drop_last()) * 10 + (if 48 <= (s.last() as u32) <= 57 {
            ((s.last() as u32) - 48) as nat
        } else {
            0
        })
    }
}

/// The value of a digit prefix grows (weakly) as more digits follow.
proof fn lemma_digits_val_chars_monotone(s: Seq<char>, i: int)
    requires
        0 <= i <= s.len(),
    ensures
        digits_val_chars(s.take(i)) <= digits_val_chars(s),
    decreases s.len() - i,
{
    if i == s.len() {
        assert(s.take(i) =~= s);
    } else {
        lemma_digits_val_chars_monotone(s, i + 1);
        let t = s.take(i + 1);
        assert(t.drop_last() =~= s.take(i));
        assert(digits_val_chars(s.take(i)) <= digits_val_chars(t));
    }
}

/// The value a trimmed retry text names: after one optional leading
/// `+`, a nonempty string of ASCII digits whose value fits a `u64`;
/// anything else names nothing.
pub open spec fn retry_chars(t: Seq<char>) -> Option<u64> {
    let d = if t.len() > 0 && t[0] == '+' {
        t.drop_first()
    } else {
        t
    };
    if d.len() > 0 && all_digit_chars(d) && digits_val_chars(d) <= u64::MAX {
        Some(digits_val_chars(d) as u64)
    } else {
        None
    }
}

/// Parse a retry value from text: trim white space, allow one leading
/// `+`, then ASCII digits fitting a `u64`.
pub fn parse_retry_str(s: &str) -> (r: Option<u64>)
    ensures
        r == retry_chars(ws_trim(s@)),
{
    let t = ws_trim_exec(s);
    let ghost tg = t@;
    let n = t.as_str().unicode_len();
    let mut start: usize = 0;
    if n > 0 && t.as_str().get_char(0) == '+' {
        start = 1;
    }
    let ghost d = if tg.len() > 0 && tg[0] == '+' {
        tg.drop_first()
    } else {
        tg
    };
    proof {
        if start == 1 {
            assert(d =~= tg.skip(1));
        } else {
            assert(d =~= tg.skip(0));
        }
    }
    if start >= n {
        proof {
            assert(d.len() == 0);
            assert(retry_chars(tg) is None);
        }
        return None;
    }
    let mut acc: u64 = 0;
    let mut i: usize = start;
    proof {
        assert(d.take(0) =~= Seq::<char>::empty());
    }
    while i < n
        invariant
            start <= i <= n,
            start == 0 || start == 1,
            n == tg.len(),
            tg == t@,
            tg == ws_trim(s@),
            start == 1 ==> (tg.len() > 0 && tg[0] == '+'),
            start == 0 ==> !(tg.len() > 0 && tg[0] == '+'),
            d == tg.skip(start as int),
            all_digit_chars(d.take(i - start)),
            acc == digits_val_chars(d.take(i - start)),
        decreases n - i,
    {
        let c = t.as_str().get_char(i);
        let u = c as u32;
        proof {
            assert(d[i - start] == tg[i as int]);
        }
        if u < 48 || u > 57 {
            proof {
                if start == 1 {
                    assert(tg.drop_first() =~= tg.skip(1));
                } else {
                    assert(tg.skip(0) =~= tg);
                }
                let d2 = if tg.len() > 0 && tg[0] == '+' {
                    tg.drop_first()
                } else {
                    tg
                };
                assert(d2 == d);
                assert(!all_digit_chars(d));
                assert(retry_chars(tg) is None);
            }
            return None;
        }
        let dig = (u - 48) as u64;
        proof {
            let t1 = d.take(i - start + 1);
            assert(t1.drop_last() =~= d.take(i - start));
            assert(t1.last() == d[i - start]);
            assert(digits_val_chars(t1) == digits_val_chars(d.take(i - start)) * 10 + dig);
            assert forall|k: int| 0 <= k < i - start + 1 implies 48 <= ((#[trigger] d.take(
                i - start + 1,
            )[k]) as u32) <= 57 by {
                if k < i - start {
                    assert(48 <= (d.take(i - start)[k] as u32) <= 57);
                }
            }
        }
        let next = match acc.checked_mul(10) {
            Some(x) => x.checked_add(dig),
            None => None,
        };
        match next {
            Some(x) => {
                acc = x;
            },
            None => {
                proof {
                    if start == 1 {
                        assert(tg.drop_first() =~= tg.skip(1));
                    } else {
                        assert(tg.skip(0) =~= tg);
                    }
                    let t1 = d.take(i - start + 1);
                    lemma_digits_val_chars_monotone(d, i - start + 1);
                    assert(acc * 10 + dig > u64::MAX);
                    assert(digits_val_chars(t1) > u64::MAX);
                    assert(digits_val_chars(d) >= digits_val_chars(t1));
                    assert(retry_chars(tg) is None);
                }
                return None;
            },
        }
        i = i + 1;
    }
    proof {
        if start == 1 {
            assert(tg.drop_first() =~= tg.skip(1));
        } else {
            assert(tg.skip(0) =~= tg);
        }
        assert(d.take(n - start) =~= d);
    }
    Some(acc)
}

/// The characters of the `[DONE]` sentinel.
pub open spec fn done_chars() -> Seq<char> {
    seq!['[', 'D', 'O', 'N', 'E', ']']
}

/// Whether a data payload is exactly the `[DONE]` sentinel once the
/// surrounding white space is trimmed.
pub fn data_is_done(s: &str) -> (r: bool)
    ensures
        r == (ws_trim(s@) == done_chars()),
{
    let t = ws_trim_exec(s);
    let n = t.as_str().unicode_len();
    let r = n == 6 && t.as_str().get_char(0) == '[' && t.as_str().get_char(1) == 'D'
        && t.as_str().get_char(2) == 'O' && t.as_str().get_char(3) == 'N' && t.as_str().get_char(4)
        == 'E' && t.as_str().get_char(5) == ']';
    proof {
        if r {
            assert(t@ =~= done_chars());
        } else {
            assert(t@ != done_chars());
        }
    }
    r
}

/// Whether the data of an SSE event is provider keep-alive padding: the
/// `[DONE]` sentinel, or nothing but white space.
pub fn is_skippable_data(s: &str) -> (r: bool)
    ensures
        r == (ws_trim(s@) == done_chars() || ws_trim(s@).len() == 0),
{
    if data_is_done(s) {
        return true;
    }
    let t = ws_trim_exec(s);
    t.as_str().is_empty()
}

} // verus!
