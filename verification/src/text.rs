use vstd::prelude::*;

verus! {

/// Relies on `char::from_u32` of std: it returns `Some(c)` with
/// `c as u32 == u` exactly when `u` is a Unicode scalar value (not a
/// surrogate, at most `0x10FFFF`), and `None` otherwise.
pub assume_specification[ char::from_u32 ](u: u32) -> (r: Option<char>)
    ensures
        match r {
            Some(c) => c as u32 == u && (u < 0xD800 || (0xE000 <= u && u <= 0x10FFFF)),
            None => !(u < 0xD800 || (0xE000 <= u && u <= 0x10FFFF)),
        },
;

/// Relies on `String::push` of std: it appends exactly the one character.
pub assume_specification[ std::string::String::push ](s: &mut String, c: char)
    ensures
        final(s)@ == old(s)@.push(c),
;

/// Character-wise string comparison; `true` exactly on equal contents.
pub fn str_eq(a: &str, b: &str) -> (r: bool)
    ensures
        r == (a@ == b@),
{
    let an = a.unicode_len();
    let bn = b.unicode_len();
    if an != bn {
        assert(a@ != b@);
        return false;
    }
    let mut i: usize = 0;
    while i < an
        invariant
            an == a@.len(),
            an == b@.len(),
            i <= an,
            forall|j: int| 0 <= j < i ==> a@[j] == b@[j],
        decreases an - i,
    {
        if a.get_char(i) != b.get_char(i) {
            return false;
        }
        i += 1;
    }
    proof {
        assert(a@ =~= b@);
    }
    true
}

/// The characters of a string, in order.
pub fn chars_of_str(s: &str) -> (v: Vec<char>)
    ensures
        v@ == s@,
{
    let n = s.unicode_len();
    let mut v: Vec<char> = Vec::new();
    let mut i: usize = 0;
    while i < n
        invariant
            n == s@.len(),
            i <= n,
            v@ == s@.subrange(0, i as int),
        decreases n - i,
    {
        v.push(s.get_char(i));
        i += 1;
    }
    assert(v@ =~= s@);
    v
}

/// The string holding exactly the given characters.
pub fn string_of_chars(v: &Vec<char>) -> (s: String)
    ensures
        s@ == v@,
{
    let mut s = String::new();
    let mut i: usize = 0;
    while i < v.len()
        invariant
            i <= v.len(),
            s@ == v@.subrange(0, i as int),
        decreases v.len() - i,
    {
        s.push(v[i]);
        i += 1;
    }
    assert(s@ =~= v@);
    s
}

/// A decimal digit.
pub open spec fn is_digit(c: char) -> bool {
    48 <= (c as u32) && (c as u32) <= 57
}

pub open spec fn digit_val(c: char) -> nat {
    ((c as u32) - 48) as nat
}

pub open spec fn all_digits(s: Seq<char>) -> bool {
    forall|i: int| 0 <= i < s.len() ==> is_digit(#[trigger] s[i])
}

/// The number a digit string denotes.
pub open spec fn dec_val(s: Seq<char>) -> nat
    decreases s.len(),
{
    if s.len() == 0 {
        0
    } else {
        dec_val(s.drop_last()) * 10 + digit_val(s.last())
    }
}

/// The digits of an unsigned decimal literal: an optional leading `+` is
/// allowed and ignored.
pub open spec fn strip_plus(s: Seq<char>) -> Seq<char> {
    if s.len() > 0 && s[0] == '+' {
        s.drop_first()
    } else {
        s
    }
}

/// What `str::parse::<u64>` accepts and returns: a nonempty digit string
/// (after an optional `+`) whose value fits.
pub open spec fn parses_to_u64(s: Seq<char>) -> Option<u64> {
    let t = strip_plus(s);
    if t.len() > 0 && all_digits(t) && dec_val(t) <= u64::MAX {
        Some(dec_val(t) as u64)
    } else {
        None
    }
}

/// What `str::parse::<u32>` accepts and returns.
pub open spec fn parses_to_u32(s: Seq<char>) -> Option<u32> {
    let t = strip_plus(s);
    if t.len() > 0 && all_digits(t) && dec_val(t) <= u32::MAX {
        Some(dec_val(t) as u32)
    } else {
        None
    }
}

/// A longer digit prefix never denotes a smaller number.
proof fn lemma_dec_val_prefix(t: Seq<char>, j: int)
    requires
        0 <= j <= t.len(),
    ensures
        dec_val(t) >= dec_val(t.take(j)),
    decreases t.len(),
{
    if j == t.len() {
        assert(t.take(j) =~= t);
    } else {
        lemma_dec_val_prefix(t.drop_last(), j);
        assert(t.drop_last().take(j) =~= t.take(j));
    }
}

/// Parse an unsigned decimal 64-bit integer, as `str::parse::<u64>` does.
pub fn parse_u64(s: &str) -> (r: Option<u64>)
    ensures
        r == parses_to_u64(s@),
{
    let n = s.unicode_len();
    let mut start: usize = 0;
    if n > 0 && s.get_char(0) == '+' {
        start = 1;
    }
    let ghost t = strip_plus(s@);
    assert(t =~= s@.subrange(start as int, n as int));
    if start == n {
        return None;
    }
    let mut acc: u64 = 0;
    let mut i: usize = start;
    while i < n
        invariant
            n == s@.len(),
            start <= i <= n,
            start < n,
            t == strip_plus(s@),
            t == s@.subrange(start as int, n as int),
            all_digits(t.take(i - start)),
            acc == dec_val(t.take(i - start)),
        decreases n - i,
    {
        let c = s.get_char(i);
        let u = c as u32;
        if u < 48 || u > 57 {
            assert(!is_digit(t[i - start]));
            return None;
        }
        let d: u64 = ((u - 48) as u64);
        let ghost pre = t.take(i - start);
        let ghost cur = t.take(i + 1 - start);
        assert(cur.drop_last() =~= pre && cur.last() == t[i - start]);
        if acc > 1844674407370955161u64 || (acc == 1844674407370955161u64 && d > 5) {
            proof {
                assert(dec_val(cur) > u64::MAX);
                lemma_dec_val_prefix(t, i + 1 - start);
            }
            return None;
        }
        acc = acc * 10 + d;
        i += 1;
    }
    assert(t.take(n - start) =~= t);
    Some(acc)
}

/// Parse an unsigned decimal 32-bit integer, as `str::parse::<u32>` does.
pub fn parse_u32(s: &str) -> (r: Option<u32>)
    ensures
        r == parses_to_u32(s@),
{
    match parse_u64(s) {
        Some(v) => {
            if v <= 0xFFFFFFFFu64 {
                Some(v as u32)
            } else {
                None
            }
        },
        None => {
            proof {
                let t = strip_plus(s@);
                if t.len() > 0 && all_digits(t) && dec_val(t) <= u32::MAX {
                    assert(dec_val(t) <= u64::MAX);
                }
            }
            None
        },
    }
}

} // verus!
