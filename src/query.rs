use vstd::prelude::*;

verus! {

/// A setting request whose value is missing, not a number, or above 255.
#[derive(Clone, Copy, Debug, PartialEq, Eq, Structural)]
pub struct ValidationError;

pub open spec fn is_digit(c: char) -> bool {
    '0' <= c && c <= '9'
}

pub open spec fn digit_value(c: char) -> int {
    c as int - '0' as int
}

pub open spec fn all_digits(s: Seq<char>) -> bool {
    forall|i: int| 0 <= i < s.len() ==> is_digit(#[trigger] s[i])
}

/// The number written by a string of decimal digits, most significant first.
pub open spec fn decimal_value(s: Seq<char>) -> int
    decreases s.len(),
{
    if s.len() == 0 {
        0
    } else {
        decimal_value(s.drop_last()) * 10 + digit_value(s.last())
    }
}

/// The digits of a byte parse, after an optional leading `+`.
pub open spec fn unsigned_digits(s: Seq<char>) -> Seq<char> {
    if s.len() > 0 && s[0] == '+' {
        s.drop_first()
    } else {
        s
    }
}

/// A byte written in decimal: an optional `+`, then one or more digits
/// (leading zeros allowed) whose value is at most 255.
pub open spec fn parse_byte(s: Seq<char>) -> Option<u8> {
    let d = unsigned_digits(s);
    if d.len() > 0 && all_digits(d) && decimal_value(d) <= 255 {
        Some(decimal_value(d) as u8)
    } else {
        None
    }
}

/// What follows the first `=` of a request target; empty when it has none.
pub open spec fn after_first_eq(s: Seq<char>) -> Seq<char>
    decreases s.len(),
{
    if s.len() == 0 {
        s
    } else if s[0] == '=' {
        s.drop_first()
    } else {
        after_first_eq(s.drop_first())
    }
}

/// The byte that a setting request carries, if it carries a valid one.
pub open spec fn query_value_of(uri: Seq<char>) -> Option<u8> {
    parse_byte(after_first_eq(uri))
}

/// Reads the value of a setting request such as `/set-duty-cycle?value=128`:
/// the text after the first `=`, parsed as a decimal byte.
pub fn query_value(uri: &str) -> (r: Result<u8, ValidationError>)
    ensures
        match r {
            Ok(v) => query_value_of(uri@) == Some(v),
            Err(_) => query_value_of(uri@) is None,
        },
{
    let n = uri.unicode_len();
    let ghost s = uri@;
    let mut i: usize = 0;
    assert(s.subrange(0, n as int) =~= s);
    while i < n && uri.get_char(i) != '='
        invariant
            n == s.len(),
            s == uri@,
            i <= n,
            after_first_eq(s) == after_first_eq(s.subrange(i as int, n as int)),
        decreases n - i,
    {
        assert(s.subrange(i as int, n as int).drop_first() =~= s.subrange(i + 1, n as int));
        i = i + 1;
    }
    if i == n {
        assert(s.subrange(i as int, n as int).len() == 0);
        return Err(ValidationError);
    }
    assert(s.subrange(i as int, n as int).drop_first() =~= s.subrange(i + 1, n as int));
    let ghost t = s.subrange(i + 1, n as int);
    assert(after_first_eq(s) == t);
    let mut j: usize = i + 1;
    if j < n && uri.get_char(j) == '+' {
        j = j + 1;
    }
    assert(unsigned_digits(t) =~= s.subrange(j as int, n as int));
    if j == n {
        return Err(ValidationError);
    }
    let start = j;
    let mut v: u32 = 0;
    while j < n
        invariant
            n == s.len(),
            s == uri@,
            start <= j <= n,
            after_first_eq(s) == t,
            unsigned_digits(t) == s.subrange(start as int, n as int),
            all_digits(s.subrange(start as int, j as int)),
            v as int == if decimal_value(s.subrange(start as int, j as int)) < 256 {
                decimal_value(s.subrange(start as int, j as int))
            } else {
                256
            },
        decreases n - j,
    {
        let c = uri.get_char(j);
        if !('0' <= c && c <= '9') {
            assert(s.subrange(start as int, n as int)[j - start] == c);
            assert(!all_digits(unsigned_digits(t)));
            return Err(ValidationError);
        }
        let ghost prev = s.subrange(start as int, j as int);
        let ghost next = s.subrange(start as int, j + 1);
        assert(next.drop_last() =~= prev);
        assert(decimal_value(next) == decimal_value(prev) * 10 + digit_value(c));
        assert(all_digits(next)) by {
            assert forall|k: int| 0 <= k < next.len() implies is_digit(#[trigger] next[k]) by {
                if k < prev.len() {
                    assert(next[k] == prev[k]);
                }
            }
        }
        let d = (c as u32) - ('0' as u32);
        v = v * 10 + d;
        if v > 256 {
            v = 256;
        }
        j = j + 1;
    }
    if v <= 255 {
        Ok(v as u8)
    } else {
        Err(ValidationError)
    }
}

/// The character of a decimal digit.
pub open spec fn digit_char(d: nat) -> char {
    if d == 0 { '0' }
    else if d == 1 { '1' }
    else if d == 2 { '2' }
    else if d == 3 { '3' }
    else if d == 4 { '4' }
    else if d == 5 { '5' }
    else if d == 6 { '6' }
    else if d == 7 { '7' }
    else if d == 8 { '8' }
    else { '9' }
}

/// The usual decimal writing of `v`, without sign or leading zeros.
pub open spec fn decimal_of(v: nat) -> Seq<char>
    decreases v,
{
    if v < 10 {
        seq![digit_char(v)]
    } else {
        decimal_of(v / 10).push(digit_char(v % 10))
    }
}

proof fn lemma_decimal_of(v: nat)
    ensures
        decimal_of(v).len() > 0,
        all_digits(decimal_of(v)),
        decimal_value(decimal_of(v)) == v,
        decimal_of(v)[0] != '+',
    decreases v,
{
    if v < 10 {
        assert(decimal_of(v).drop_last() =~= Seq::<char>::empty());
        assert(digit_value(digit_char(v)) == v);
        assert(decimal_value(Seq::<char>::empty()) == 0);
        assert(decimal_value(decimal_of(v)) == v);
    } else {
        lemma_decimal_of(v / 10);
        let s = decimal_of(v);
        assert(s.drop_last() =~= decimal_of(v / 10));
        assert(digit_value(digit_char(v % 10)) == v % 10);
        assert(decimal_value(s) == (v / 10) * 10 + v % 10);
        assert forall|i: int| 0 <= i < s.len() implies is_digit(#[trigger] s[i]) by {
            if i < s.len() - 1 {
                assert(s[i] == decimal_of(v / 10)[i]);
            }
        }
    }
}

/// Every byte, written in decimal, parses back to itself.
pub proof fn lemma_parse_decimal(v: u8)
    ensures
        parse_byte(decimal_of(v as nat)) == Some(v),
{
    lemma_decimal_of(v as nat);
}

/// Before its first `=`, a request target has no say in the value it carries.
pub proof fn lemma_after_first_eq(path: Seq<char>, t: Seq<char>)
    requires
        !path.contains('='),
    ensures
        after_first_eq(path + seq!['='] + t) == t,
    decreases path.len(),
{
    let s = path + seq!['='] + t;
    if path.len() == 0 {
        assert(s.drop_first() =~= t);
    } else {
        assert(s[0] == path[0]);
        assert(s.drop_first() =~= path.drop_first() + seq!['='] + t);
        assert(!path.drop_first().contains('=')) by {
            if path.drop_first().contains('=') {
                let k = choose|k: int| 0 <= k < path.drop_first().len() && path.drop_first()[k] == '=';
                assert(path[k + 1] == '=');
            }
        }
        lemma_after_first_eq(path.drop_first(), t);
    }
}

} // verus!
