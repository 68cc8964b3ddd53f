use vstd::prelude::*;
use vstd::string::*;

verus! {

/// The lower-case form of an ASCII capital; every other character is itself.
pub open spec fn ascii_lower(c: char) -> char {
    if 'A' <= c && c <= 'Z' {
        ((c as u8) + 32) as char
    } else {
        c
    }
}

/// A text with every ASCII capital replaced by its lower-case form.
pub open spec fn lowered(s: Seq<char>) -> Seq<char> {
    s.map_values(|c: char| ascii_lower(c))
}

/// `needle` occurs in `hay` starting at position `at`.
pub open spec fn occurs_at(hay: Seq<char>, needle: Seq<char>, at: int) -> bool {
    &&& 0 <= at
    &&& at + needle.len() <= hay.len()
    &&& hay.subrange(at, at + needle.len()) == needle
}

/// `needle` occurs somewhere in `hay`.
pub open spec fn occurs_in(hay: Seq<char>, needle: Seq<char>) -> bool {
    exists|at: int| occurs_at(hay, needle, at)
}

/// The decimal digits of a natural number, most significant first.
pub open spec fn digits(n: nat) -> Seq<char>
    decreases n,
{
    if n < 10 {
        seq![((n + 48) as u8) as char]
    } else {
        digits(n / 10).push((((n % 10) + 48) as u8) as char)
    }
}

/// The decimal text of an integer: a minus sign for a negative number, then
/// its digits.
pub open spec fn decimal(n: int) -> Seq<char> {
    if n < 0 {
        seq!['-'] + digits((-n) as nat)
    } else {
        digits(n as nat)
    }
}

/// `str::to_ascii_lowercase` of std: the text with the ASCII letters 'A' to
/// 'Z' mapped to 'a' to 'z' and every other character unchanged.
#[verifier::external_body]
pub(crate) fn to_lower(s: &str) -> (r: String)
    ensures
        r@ == lowered(s@),
{
    s.to_ascii_lowercase()
}

/// `str::contains` of std with a text as the pattern: whether the pattern
/// matches a sub-slice of the text.
#[verifier::external_body]
pub(crate) fn contains_text(hay: &str, needle: &str) -> (found: bool)
    ensures
        found == occurs_in(hay@, needle@),
{
    hay.contains(needle)
}

/// `i128::to_string` of std: the number written in decimal, a minus sign
/// first when it is negative.
#[verifier::external_body]
pub(crate) fn decimal_text(n: i128) -> (r: String)
    ensures
        r@ == decimal(n as int),
{
    n.to_string()
}

/// `u128::to_string` of std: the number written in decimal.
#[verifier::external_body]
pub(crate) fn unsigned_text(n: u128) -> (r: String)
    ensures
        r@ == decimal(n as int),
{
    n.to_string()
}

/// Whether two texts are the same.
pub fn same_text(a: &str, b: &str) -> (same: bool)
    ensures
        same == (a@ == b@),
{
    let x = a.to_string();
    let y = b.to_string();
    x == y
}

/// The text `a` followed by the text `b`.
pub fn join(a: &str, b: &str) -> (r: String)
    ensures
        r@ == a@ + b@,
{
    let r = a.to_string();
    r.concat(b)
}

/// The text `a`, then `b`, then `c`.
pub fn join3(a: &str, b: &str, c: &str) -> (r: String)
    ensures
        r@ == a@ + b@ + c@,
{
    let r = a.to_string();
    r.concat(b).concat(c)
}

/// A copy of a text.
pub fn text(s: &str) -> (r: String)
    ensures
        r@ == s@,
{
    s.to_string()
}

/// Every character is a decimal digit.
pub open spec fn all_digits(d: Seq<char>) -> bool {
    forall|i: int| 0 <= i < d.len() ==> '0' <= #[trigger] d[i] <= '9'
}

/// The number that a sequence of decimal digits writes.
pub open spec fn decimal_value(d: Seq<char>) -> nat
    decreases d.len(),
{
    if d.len() == 0 {
        0
    } else {
        (10 * decimal_value(d.drop_last()) + (d.last() as u32 - 48)) as nat
    }
}

/// The digits read so far never write more than all of them do.
pub proof fn lemma_prefix_value(d: Seq<char>, k: int)
    requires
        all_digits(d),
        0 <= k <= d.len(),
    ensures
        decimal_value(d.take(k)) <= decimal_value(d),
    decreases d.len(),
{
    if k == d.len() {
        assert(d.take(k) =~= d);
    } else {
        lemma_prefix_value(d.drop_last(), k);
        assert(d.drop_last().take(k) =~= d.take(k));
        assert('0' <= d[d.len() - 1] <= '9');
    }
}

/// The number that a text of decimal digits writes, when it has at least
/// one digit and nothing else and the number fits 128 bits.
pub open spec fn digits_value(d: Seq<char>) -> Option<nat> {
    if d.len() > 0 && all_digits(d) && decimal_value(d) <= u128::MAX {
        Some(decimal_value(d))
    } else {
        None
    }
}

/// The integer that a text writes: an optional sign, then decimal digits.
pub open spec fn integer_of(t: Seq<char>) -> Option<int> {
    let signed = t.len() > 0 && (t[0] == '-' || t[0] == '+');
    let d = if signed {
        t.skip(1)
    } else {
        t
    };
    match digits_value(d) {
        Some(v) => if t.len() > 0 && t[0] == '-' {
            Some(-(v as int))
        } else {
            Some(v as int)
        },
        None => None,
    }
}

/// The integer that a text writes, when it fits sixteen bits.
pub open spec fn short_of(t: Seq<char>) -> Option<i16> {
    match integer_of(t) {
        Some(v) => if i16::MIN <= v <= i16::MAX {
            Some(v as i16)
        } else {
            None
        },
        None => None,
    }
}

/// The number without a sign that a text writes: an optional plus sign,
/// then decimal digits.
pub open spec fn unsigned_of(t: Seq<char>) -> Option<u128> {
    let d = if t.len() > 0 && t[0] == '+' {
        t.skip(1)
    } else {
        t
    };
    match digits_value(d) {
        Some(v) => Some(v as u128),
        None => None,
    }
}

/// Reads the characters of `s` from `from` up to `to` as decimal digits.
pub fn parse_digits(s: &str, from: usize, to: usize) -> (value: Option<u128>)
    requires
        from <= to <= s@.len(),
    ensures
        match digits_value(s@.subrange(from as int, to as int)) {
            Some(v) => value == Some(v as u128),
            None => value is None,
        },
{
    let ghost d = s@.subrange(from as int, to as int);
    if from == to {
        return None;
    }
    let mut value: u128 = 0;
    let mut i: usize = from;
    while i < to
        invariant
            from <= i <= to <= s@.len(),
            d == s@.subrange(from as int, to as int),
            all_digits(d.take(i - from)),
            value == decimal_value(d.take(i - from)),
        decreases to - i,
    {
        let c = s.get_char(i);
        assert(d[i - from] == c);
        if c < '0' || c > '9' {
            return None;
        }
        let digit: u128 = (c as u32 - 48) as u128;
        proof {
            let next = d.take(i - from + 1);
            assert(next.drop_last() =~= d.take(i - from));
            assert(next.last() == c);
            assert(all_digits(next));
        }
        if value > (u128::MAX - digit) / 10 {
            proof {
                if all_digits(d) {
                    lemma_prefix_value(d, i - from + 1);
                }
            }
            return None;
        }
        value = value * 10 + digit;
        i += 1;
    }
    proof {
        assert(d.take(i - from) =~= d);
    }
    Some(value)
}

/// Reads a text as an integer of sixteen bits.
pub fn parse_short(s: &str) -> (value: Option<i16>)
    ensures
        value == short_of(s@),
{
    let n = s.unicode_len();
    let mut start: usize = 0;
    let mut negative = false;
    if n > 0 {
        let c = s.get_char(0);
        if c == '-' {
            negative = true;
            start = 1;
        } else if c == '+' {
            start = 1;
        }
    }
    proof {
        if start == 0 {
            assert(s@.subrange(0, n as int) =~= s@);
        } else {
            assert(s@.subrange(1, n as int) =~= s@.skip(1));
        }
    }
    match parse_digits(s, start, n) {
        Some(v) => {
            if negative {
                if v <= 32768 {
                    Some((-(v as i32)) as i16)
                } else {
                    None
                }
            } else if v <= 32767 {
                Some(v as i16)
            } else {
                None
            }
        },
        None => None,
    }
}

/// Reads a text as a number without a sign of 128 bits.
pub fn parse_unsigned(s: &str) -> (value: Option<u128>)
    ensures
        value == unsigned_of(s@),
{
    let n = s.unicode_len();
    let mut start: usize = 0;
    if n > 0 && s.get_char(0) == '+' {
        start = 1;
    }
    proof {
        if start == 0 {
            assert(s@.subrange(0, n as int) =~= s@);
        } else {
            assert(s@.subrange(1, n as int) =~= s@.skip(1));
        }
    }
    parse_digits(s, start, n)
}

} // verus!
