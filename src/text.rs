//! Case-insensitive words and hexadecimal tokens.
use vstd::prelude::*;
use vstd::string::StrSliceExecFns;

verus! {

/// `c` is the upper-case ASCII letter or symbol `u`, in either case.
pub open spec fn same_letter(c: char, u: char) -> bool {
    c == u || ('A' <= u <= 'Z' && c as u32 == u as u32 + 32)
}

/// `s`, with ASCII letters upper-cased, equals the upper-case word `w`.
pub open spec fn eq_upper(s: Seq<char>, w: Seq<char>) -> bool {
    s.len() == w.len() && forall|i: int| 0 <= i < s.len() ==> same_letter(#[trigger] s[i], w[i])
}

/// Compares `s` with the upper-case word `w`, ignoring ASCII case in `s`.
pub fn matches_upper(s: &str, w: &str) -> (r: bool)
    ensures
        r == eq_upper(s@, w@),
{
    let n = s.unicode_len();
    if n != w.unicode_len() {
        return false;
    }
    let mut i: usize = 0;
    while i < n
        invariant
            n == s@.len(),
            n == w@.len(),
            i <= n,
            forall|k: int| 0 <= k < i ==> same_letter(#[trigger] s@[k], w@[k]),
        decreases n - i,
    {
        let c = s.get_char(i);
        let u = w.get_char(i);
        if !(c == u || ('A' <= u && u <= 'Z' && c as u32 == u as u32 + 32)) {
            return false;
        }
        i = i + 1;
    }
    true
}

/// The value of a hexadecimal digit, if `c` is one.
pub open spec fn hex_digit(c: char) -> Option<int> {
    if '0' <= c <= '9' {
        Some(c as int - '0' as int)
    } else if 'a' <= c <= 'f' {
        Some(c as int - 'a' as int + 10)
    } else if 'A' <= c <= 'F' {
        Some(c as int - 'A' as int + 10)
    } else {
        None
    }
}

/// The value of a string of hexadecimal digits, most significant first.
pub open spec fn hex_digits_value(d: Seq<char>) -> int
    decreases d.len(),
{
    if d.len() == 0 {
        0
    } else {
        hex_digits_value(d.drop_last()) * 16 + hex_digit(d.last())->0
    }
}

/// A token `0x` (or `0X`) followed by one to eight hexadecimal digits.
pub open spec fn is_hex_token(t: Seq<char>) -> bool {
    &&& 3 <= t.len() <= 10
    &&& t[0] == '0'
    &&& (t[1] == 'x' || t[1] == 'X')
    &&& forall|i: int| 2 <= i < t.len() ==> (#[trigger] hex_digit(t[i])) is Some
}

/// The value of a hexadecimal token, if it is one.
pub open spec fn hex_token_value(t: Seq<char>) -> Option<int> {
    if is_hex_token(t) {
        Some(hex_digits_value(t.subrange(2, t.len() as int)))
    } else {
        None
    }
}

fn digit_value(c: char) -> (r: Option<u32>)
    ensures
        r matches Some(v) ==> hex_digit(c) == Some(v as int) && v < 16,
        r is None ==> hex_digit(c) is None,
{
    if '0' <= c && c <= '9' {
        Some(c as u32 - '0' as u32)
    } else if 'a' <= c && c <= 'f' {
        Some(c as u32 - 'a' as u32 + 10)
    } else if 'A' <= c && c <= 'F' {
        Some(c as u32 - 'A' as u32 + 10)
    } else {
        None
    }
}

/// Reads a token `0xDDDDDD`: up to eight hexadecimal digits after `0x` or `0X`.
pub fn parse_hex_token(t: &str) -> (r: Option<u32>)
    ensures
        r matches Some(v) ==> hex_token_value(t@) == Some(v as int),
        r is None ==> hex_token_value(t@) is None,
{
    let n = t.unicode_len();
    if n < 3 || n > 10 {
        return None;
    }
    if t.get_char(0) != '0' {
        return None;
    }
    let x = t.get_char(1);
    if x != 'x' && x != 'X' {
        return None;
    }
    let ghost d = t@.subrange(2, n as int);
    let mut v: u32 = 0;
    let mut i: usize = 2;
    while i < n
        invariant
            n == t@.len(),
            3 <= n <= 10,
            2 <= i <= n,
            d == t@.subrange(2, n as int),
            forall|k: int| 2 <= k < i ==> (#[trigger] hex_digit(t@[k])) is Some,
            v as int == hex_digits_value(t@.subrange(2, i as int)),
            v < pow16((i - 2) as nat),
        decreases n - i,
    {
        let c = t.get_char(i);
        match digit_value(c) {
            None => {
                return None;
            },
            Some(dv) => {
                proof {
                    assert(t@.subrange(2, i + 1).drop_last() =~= t@.subrange(2, i as int));
                    assert(t@.subrange(2, i + 1).last() == c);
                    assert(pow16((i + 1 - 2) as nat) == 16 * pow16((i - 2) as nat));
                    assert(pow16((i + 1 - 2) as nat) <= 0x1_0000_0000) by {
                        lemma_pow16_le((i + 1 - 2) as nat, 8);
                        reveal_with_fuel(pow16, 9);
                    }
                }
                v = v * 16 + dv;
            },
        }
        i = i + 1;
    }
    proof {
        assert(t@.subrange(2, n as int) == d);
    }
    Some(v)
}

pub open spec fn pow16(k: nat) -> int
    decreases k,
{
    if k == 0 {
        1
    } else {
        16 * pow16((k - 1) as nat)
    }
}

proof fn lemma_pow16_le(a: nat, b: nat)
    requires
        a <= b,
    ensures
        1 <= pow16(a) <= pow16(b),
    decreases b,
{
    if a < b {
        lemma_pow16_le(a, (b - 1) as nat);
    } else if a > 0 {
        lemma_pow16_le((a - 1) as nat, (a - 1) as nat);
    }
}

/// Finds the first space of `s`.
pub fn find_space(s: &str) -> (r: Option<usize>)
    ensures
        r matches Some(i) ==> i < s@.len() && s@[i as int] == ' ' && forall|k: int| 0 <= k < i ==> s@[k] != ' ',
        r is None ==> forall|k: int| 0 <= k < s@.len() ==> s@[k] != ' ',
{
    let n = s.unicode_len();
    let mut i: usize = 0;
    while i < n
        invariant
            n == s@.len(),
            i <= n,
            forall|k: int| 0 <= k < i ==> s@[k] != ' ',
        decreases n - i,
    {
        if s.get_char(i) == ' ' {
            return Some(i);
        }
        i = i + 1;
    }
    None
}

} // verus!
