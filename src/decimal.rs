//! Decimal text: the value of digit strings, the parse of signed 32-bit
//! integers, and the canonical decimal rendering of integers.

use vstd::prelude::*;

verus! {

pub open spec fn is_digit(c: char) -> bool {
    '0' <= c && c <= '9'
}

pub open spec fn digit_value(c: char) -> int {
    c as int - '0' as int
}

/// Every character of `s` is an ASCII decimal digit.
pub open spec fn all_digits(s: Seq<char>) -> bool {
    forall|i: int| 0 <= i < s.len() ==> is_digit(#[trigger] s[i])
}

/// The number that a string of decimal digits denotes.
pub open spec fn digits_value(s: Seq<char>) -> int
    decreases s.len(),
{
    if s.len() == 0 {
        0
    } else {
        10 * digits_value(s.drop_last()) + digit_value(s.last())
    }
}

/// The ASCII digits of `s`, in order, with every other character dropped.
pub open spec fn digits_of(s: Seq<char>) -> Seq<char> {
    s.filter(|c: char| is_digit(c))
}

pub open spec fn in_i32(v: int) -> bool {
    i32::MIN <= v && v <= i32::MAX
}

/// What parsing `s` as an `i32` yields: an optional `+` or `-`, then one or
/// more digits, with a value that fits.
pub open spec fn parse_i32_spec(s: Seq<char>) -> Option<i32> {
    let neg = s.len() > 0 && s[0] == '-';
    let signed = s.len() > 0 && (s[0] == '-' || s[0] == '+');
    let body = if signed { s.drop_first() } else { s };
    let v = if neg { -digits_value(body) } else { digits_value(body) };
    if body.len() > 0 && all_digits(body) && in_i32(v) {
        Some(v as i32)
    } else {
        None
    }
}

/// The canonical decimal text of a natural number: no leading zeros.
pub open spec fn nat_text(n: nat) -> Seq<char>
    decreases n,
{
    if n < 10 {
        seq![digit_char(n)]
    } else {
        nat_text(n / 10) + seq![digit_char(n % 10)]
    }
}

pub open spec fn digit_char(d: nat) -> char {
    ('0' as nat + d) as char
}

/// The canonical decimal text of an integer: a `-` before negative values.
pub open spec fn int_text(v: int) -> Seq<char> {
    if v < 0 {
        seq!['-'] + nat_text((-v) as nat)
    } else {
        nat_text(v as nat)
    }
}

proof fn lemma_digits_value_grows(s: Seq<char>, k: int)
    requires
        0 <= k <= s.len(),
        all_digits(s),
    ensures
        digits_value(s.take(k)) <= digits_value(s),
        0 <= digits_value(s.take(k)),
    decreases s.len() - k,
{
    if k < s.len() {
        lemma_digits_value_grows(s, k + 1);
        assert(s.take(k + 1).drop_last() =~= s.take(k));
        assert(is_digit(s[k]));
    } else {
        assert(s.take(k) =~= s);
    }
    lemma_digits_value_nonneg(s.take(k));
}

proof fn lemma_digits_value_nonneg(s: Seq<char>)
    requires
        all_digits(s),
    ensures
        0 <= digits_value(s),
    decreases s.len(),
{
    if s.len() > 0 {
        assert(is_digit(s[s.len() - 1]));
        lemma_digits_value_nonneg(s.drop_last());
    }
}

/// The value of the digits `s[start..]`, if it is at most `limit`. All of
/// them must be digits.
fn bounded_digits_value(s: &Vec<char>, start: usize, limit: u64) -> (r: Option<u64>)
    requires
        start <= s@.len(),
        all_digits(s@.skip(start as int)),
        limit <= u32::MAX,
    ensures
        r is Some <==> digits_value(s@.skip(start as int)) <= limit,
        r matches Some(v) ==> v == digits_value(s@.skip(start as int)),
{
    let ghost body = s@.skip(start as int);
    let mut acc: u64 = 0;
    let mut i: usize = start;
    while i < s.len()
        invariant
            start <= i <= s@.len(),
            body == s@.skip(start as int),
            all_digits(body),
            acc == digits_value(body.take(i - start)),
            acc <= limit,
            limit <= u32::MAX,
        decreases s@.len() - i,
    {
        proof {
            assert(body.take(i - start + 1).drop_last() =~= body.take(i - start));
            assert(body[i - start] == s@[i as int]);
            assert(is_digit(body[i - start]));
        }
        let d = (s[i] as u32 - '0' as u32) as u64;
        let next = acc * 10 + d;
        if next > limit {
            proof {
                lemma_digits_value_grows(body, i - start + 1);
            }
            return None;
        }
        acc = next;
        i = i + 1;
    }
    proof {
        assert(body.take(i - start) =~= body);
    }
    Some(acc)
}

/// Parses `s` as a signed 32-bit decimal integer: an optional sign and one or
/// more digits, nothing else.
pub fn parse_i32(s: &Vec<char>) -> (r: Option<i32>)
    ensures
        r == parse_i32_spec(s@),
{
    let n = s.len();
    let neg = n > 0 && s[0] == '-';
    let signed = n > 0 && (s[0] == '-' || s[0] == '+');
    let start: usize = if signed { 1 } else { 0 };
    let ghost body = s@.skip(start as int);
    proof {
        if !signed {
            assert(body =~= s@);
        } else {
            assert(body =~= s@.drop_first());
        }
        assert(signed == (s@.len() > 0 && (s@[0] == '-' || s@[0] == '+')));
        assert(neg == (s@.len() > 0 && s@[0] == '-'));
    }
    if start >= n {
        return None;
    }
    let mut i: usize = start;
    while i < n
        invariant
            start <= i <= n,
            n == s@.len(),
            body == s@.skip(start as int),
            body == (if signed { s@.drop_first() } else { s@ }),
            signed == (s@.len() > 0 && (s@[0] == '-' || s@[0] == '+')),
            start == (if signed { 1usize } else { 0usize }),
            forall|j: int| start <= j < i ==> is_digit(#[trigger] s@[j]),
        decreases n - i,
    {
        if !(s[i] >= '0' && s[i] <= '9') {
            proof {
                assert(!is_digit(body[i - start]));
                assert(!all_digits(body));
            }
            return None;
        }
        i = i + 1;
    }
    proof {
        assert forall|k: int| 0 <= k < body.len() implies is_digit(#[trigger] body[k]) by {
            assert(body[k] == s@[k + start]);
        }
    }
    let limit: u64 = if neg { 2147483648 } else { 2147483647 };
    match bounded_digits_value(s, start, limit) {
        None => None,
        Some(v) => {
            if neg {
                Some((0 - v as i64) as i32)
            } else {
                Some(v as i32)
            }
        },
    }
}

/// What a key yields as a core index: its digits, read as one decimal
/// number, when there is at least one and the number fits in an `i32`.
pub open spec fn core_id_spec(key: Seq<char>) -> Option<i32> {
    let d = digits_of(key);
    if d.len() > 0 && digits_value(d) <= i32::MAX {
        Some(digits_value(d) as i32)
    } else {
        None
    }
}

/// The characters of `s`, in order.
pub fn chars_of(s: &str) -> (r: Vec<char>)
    ensures
        r@ == s@,
{
    let mut v: Vec<char> = Vec::new();
    for c in it: s.chars()
        invariant
            it.seq() == s@,
            v@ == it.seq().take(it.index() as int),
    {
        proof {
            assert(it.seq().take(it.index() + 1) =~= v@.push(c));
        }
        v.push(c);
    }
    proof {
        assert(v@ =~= s@);
    }
    v
}

/// Reads the core index out of a key such as `cpu7` or `core_12`: all its
/// ASCII digits, in order, as one decimal number.
pub fn parse_core_id(key: &str) -> (r: Option<i32>)
    ensures
        r == core_id_spec(key@),
{
    let cs = chars_of(key);
    let mut digits: Vec<char> = Vec::new();
    let mut i: usize = 0;
    while i < cs.len()
        invariant
            i <= cs@.len(),
            cs@ == key@,
            digits@ == digits_of(cs@.take(i as int)),
        decreases cs@.len() - i,
    {
        proof {
            reveal(Seq::filter);
            assert(cs@.take(i + 1).drop_last() =~= cs@.take(i as int));
            assert(cs@.take(i + 1).last() == cs@[i as int]);
        }
        if cs[i] >= '0' && cs[i] <= '9' {
            digits.push(cs[i]);
        }
        i = i + 1;
    }
    proof {
        assert(cs@.take(i as int) =~= key@);
        let d = digits_of(key@);
        assert forall|k: int| 0 <= k < d.len() implies is_digit(#[trigger] d[k]) by {
            key@.lemma_filter_pred(|c: char| is_digit(c), k);
        }
        assert(d.skip(0) =~= d);
    }
    if digits.len() == 0 {
        return None;
    }
    match bounded_digits_value(&digits, 0, 2147483647) {
        None => None,
        Some(v) => Some(v as i32),
    }
}

/// The text of one decimal digit.
fn digit_str(d: u32) -> (r: &'static str)
    requires
        d < 10,
    ensures
        r@ == seq![digit_char(d as nat)],
{
    proof {
        reveal_strlit("0");
        reveal_strlit("1");
        reveal_strlit("2");
        reveal_strlit("3");
        reveal_strlit("4");
        reveal_strlit("5");
        reveal_strlit("6");
        reveal_strlit("7");
        reveal_strlit("8");
        reveal_strlit("9");
    }
    match d {
        0 => "0",
        1 => "1",
        2 => "2",
        3 => "3",
        4 => "4",
        5 => "5",
        6 => "6",
        7 => "7",
        8 => "8",
        _ => "9",
    }
}

fn push_nat_text(n: u32, out: &mut String)
    ensures
        final(out)@ == old(out)@ + nat_text(n as nat),
    decreases n,
{
    if n >= 10 {
        push_nat_text(n / 10, out);
    }
    out.append(digit_str(n % 10));
    assert(out@ =~= old(out)@ + nat_text(n as nat));
}

/// The canonical decimal text of `v`, as `to_string` writes it.
pub fn decimal_text(v: i32) -> (r: String)
    ensures
        r@ == int_text(v as int),
{
    let mut out = String::new();
    if v < 0 {
        out.append("-");
        proof {
            reveal_strlit("-");
        }
        let m: u32 = (0 - v as i64) as u32;
        push_nat_text(m, &mut out);
    } else {
        push_nat_text(v as u32, &mut out);
    }
    out
}

} // verus!
