//! Small verified helpers on text: equality of string slices and the reading
//! of unsigned decimal numerals.

use vstd::prelude::*;
use vstd::string::*;
use vstd::utf8::*;

verus! {

/// Whether two string slices hold the same characters.
pub fn same_text(a: &str, b: &str) -> (r: bool)
    ensures
        r == (a@ == b@),
{
    let x = a.as_bytes();
    let y = b.as_bytes();
    if x.len() != y.len() {
        return false;
    }
    let mut i: usize = 0;
    while i < x.len()
        invariant
            i <= x.len(),
            x.len() == y.len(),
            x@ == encode_utf8(a@),
            y@ == encode_utf8(b@),
            forall|k: int| 0 <= k < i ==> x@[k] == y@[k],
        decreases x.len() - i,
    {
        if x[i] != y[i] {
            return false;
        }
        i += 1;
    }
    proof {
        assert(x@ =~= y@);
        encode_utf8_decode_utf8(a@);
        encode_utf8_decode_utf8(b@);
    }
    true
}

/// Whether `c` is one of the ten ASCII decimal digits.
pub open spec fn is_digit(c: char) -> bool {
    '0' <= c && c <= '9'
}

/// The number that the digit `c` stands for; 0 for any other character.
pub open spec fn digit_value(c: char) -> nat {
    if is_digit(c) {
        (c as int - '0' as int) as nat
    } else {
        0
    }
}

/// Whether every character of `s` is a decimal digit.
pub open spec fn all_digits(s: Seq<char>) -> bool {
    forall|i: int| 0 <= i < s.len() ==> is_digit(#[trigger] s[i])
}

/// The number written by the digits `s`, most significant first.
pub open spec fn decimal_value(s: Seq<char>) -> nat
    decreases s.len(),
{
    if s.len() == 0 {
        0
    } else {
        decimal_value(s.drop_last()) * 10 + digit_value(s.last())
    }
}

/// The digits of a numeral: the text itself, without one leading `+` if it
/// has one.
pub open spec fn numeral_digits(s: Seq<char>) -> Seq<char> {
    if s.len() > 0 && s[0] == '+' {
        s.drop_first()
    } else {
        s
    }
}

/// The number that the text `s` denotes: one or more decimal digits, with an
/// optional `+` in front and nothing else. `None` for any other text.
pub open spec fn numeral(s: Seq<char>) -> Option<nat> {
    let d = numeral_digits(s);
    if d.len() > 0 && all_digits(d) {
        Some(decimal_value(d))
    } else {
        None
    }
}

/// The number that `s` denotes, where it is a numeral of at most `max`.
pub open spec fn numeral_within(s: Seq<char>, max: nat) -> Option<nat> {
    match numeral(s) {
        Some(v) => if v <= max {
            Some(v)
        } else {
            None
        },
        None => None,
    }
}

/// The value of a prefix of a digit string never exceeds that of the whole.
proof fn lemma_prefix_value_le(d: Seq<char>, k: int)
    requires
        0 <= k <= d.len(),
    ensures
        decimal_value(d.take(k)) <= decimal_value(d),
    decreases d.len(),
{
    if k == d.len() {
        assert(d.take(k) =~= d);
    } else {
        lemma_prefix_value_le(d.drop_last(), k);
        assert(d.drop_last().take(k) =~= d.take(k));
    }
}

/// Appending one character to a prefix multiplies its value by ten and adds
/// the character's digit value.
proof fn lemma_prefix_value_step(d: Seq<char>, k: int)
    requires
        0 <= k < d.len(),
    ensures
        decimal_value(d.take(k + 1)) == decimal_value(d.take(k)) * 10 + digit_value(d[k]),
{
    assert(d.take(k + 1).drop_last() =~= d.take(k));
    assert(d.take(k + 1).last() == d[k]);
}

/// Reads `s` as a numeral of at most `max`.
fn parse_bounded(s: &str, max: u64) -> (r: Option<u64>)
    ensures
        r == match numeral_within(s@, max as nat) {
            Some(v) => Some(v as u64),
            None => None::<u64>,
        },
{
    let ghost d = numeral_digits(s@);
    if !s.is_ascii() {
        proof {
            let i = choose|i: int| 0 <= i < s@.len() && !('\0' <= #[trigger] s@[i] <= '\u{7f}');
            if s@[0] == '+' {
                assert(i > 0);
                assert(d[i - 1] == s@[i]);
                assert(!is_digit(d[i - 1]));
            } else {
                assert(d[i] == s@[i]);
                assert(!is_digit(d[i]));
            }
        }
        return None;
    }
    proof {
        is_ascii_chars_encode_utf8(s@);
    }
    let n: usize = s.as_bytes().len();
    let start: usize = if n > 0 && s.get_ascii(0) == 43 {
        1
    } else {
        0
    };
    assert(s@.len() > 0 ==> ((s@[0] as u8 == 43) <==> s@[0] == '+'));
    assert(d.len() == n - start);
    assert(forall|k: int| 0 <= k < d.len() ==> d[k] == s@[k + start]);
    if start == n {
        return None;
    }
    let mut acc: u64 = 0;
    let mut i: usize = start;
    assert(d.take(0) =~= Seq::<char>::empty());
    while i < n
        invariant
            start <= i <= n,
            n == s@.len(),
            is_ascii(s),
            d.len() == n - start,
            d.len() > 0,
            d == numeral_digits(s@),
            forall|k: int| 0 <= k < d.len() ==> d[k] == s@[k + start],
            all_digits(d.take(i - start)),
            acc == decimal_value(d.take(i - start)),
            acc <= max,
        decreases n - i,
    {
        let b: u8 = s.get_ascii(i);
        let ghost c = s@[i as int];
        assert(c == d[i - start]);
        assert(is_digit(c) <==> (48 <= b && b <= 57));
        if b < 48 || b > 57 {
            return None;
        }
        let v: u64 = (b - 48) as u64;
        assert(v == digit_value(c));
        proof {
            lemma_prefix_value_step(d, i - start);
            lemma_prefix_value_le(d, i - start + 1);
        }
        if acc > max / 10 {
            return None;
        }
        if v > max - acc * 10 {
            return None;
        }
        acc = acc * 10 + v;
        i += 1;
        assert forall|k: int| 0 <= k < d.take(i - start).len() implies is_digit(
            #[trigger] d.take(i - start)[k],
        ) by {
            if k < i - start - 1 {
                assert(d.take(i - start)[k] == d.take(i - start - 1)[k]);
            }
        }
    }
    assert(d.take(i - start) =~= d);
    Some(acc)
}

/// Reads `s` as the decimal numeral of a `u32`. `None` where `s` is no
/// numeral or denotes more than `u32::MAX`.
pub fn parse_u32(s: &str) -> (r: Option<u32>)
    ensures
        r == match numeral_within(s@, u32::MAX as nat) {
            Some(v) => Some(v as u32),
            None => None::<u32>,
        },
{
    match parse_bounded(s, u32::MAX as u64) {
        Some(v) => Some(v as u32),
        None => None,
    }
}

/// Reads `s` as the decimal numeral of a position. `None` where `s` is no
/// numeral or denotes more than `usize::MAX`.
pub fn parse_index(s: &str) -> (r: Option<usize>)
    ensures
        r == match numeral_within(s@, usize::MAX as nat) {
            Some(v) => Some(v as usize),
            None => None::<usize>,
        },
{
    match parse_bounded(s, usize::MAX as u64) {
        Some(v) => Some(v as usize),
        None => None,
    }
}

} // verus!
