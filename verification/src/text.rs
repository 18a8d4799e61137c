//! Small verified utilities over strings: equality, concatenation of
//! composite keys, decimal index parsing, and field splitting.

use vstd::prelude::*;
use vstd::string::StrSliceExecFns;
use vstd::string::StringExecFns;

verus! {

/// Character-wise equality of two string slices.
pub fn str_eq(a: &str, b: &str) -> (r: bool)
    ensures
        r == (a@ == b@),
{
    let alen = a.unicode_len();
    let blen = b.unicode_len();
    if alen != blen {
        return false;
    }
    let mut i: usize = 0;
    while i < alen
        invariant
            alen == a@.len(),
            alen == b@.len(),
            i <= alen,
            forall|j: int| 0 <= j < i ==> a@[j] == b@[j],
        decreases alen - i,
    {
        if a.get_char(i) != b.get_char(i) {
            return false;
        }
        i = i + 1;
    }
    proof {
        assert(a@ =~= b@);
    }
    true
}

/// The composite storage key `"{server}.{kind}.{name}"`.
pub open spec fn spec_composite_key(server: Seq<char>, kind: Seq<char>, name: Seq<char>) -> Seq<
    char,
> {
    server + "."@ + kind + "."@ + name
}

/// Builds the composite storage key for an entity of one server.
pub fn composite_key(server: &str, kind: &str, name: &str) -> (r: String)
    ensures
        r@ == spec_composite_key(server@, kind@, name@),
{
    let mut key = String::new();
    key.append(server);
    key.append(".");
    key.append(kind);
    key.append(".");
    key.append(name);
    key
}

/// The composite whitelist key `"{kind}.{name}"`.
pub open spec fn spec_whitelist_key(kind: Seq<char>, name: Seq<char>) -> Seq<char> {
    kind + "."@ + name
}

/// Builds the composite whitelist key for an entity kind and name.
pub fn whitelist_key(kind: &str, name: &str) -> (r: String)
    ensures
        r@ == spec_whitelist_key(kind@, name@),
{
    let mut key = String::new();
    key.append(kind);
    key.append(".");
    key.append(name);
    key
}

/// Whether `c` is a decimal digit.
pub open spec fn spec_is_digit(c: char) -> bool {
    '0' <= c && c <= '9'
}

/// The numeric value of one decimal digit character.
pub open spec fn spec_digit_val(c: char) -> nat {
    (c as int - '0' as int) as nat
}

/// The value of a sequence of decimal digits, most significant first.
pub open spec fn spec_digits_value(s: Seq<char>) -> nat
    decreases s.len(),
{
    if s.len() == 0 {
        0
    } else {
        spec_digits_value(s.drop_last()) * 10 + spec_digit_val(s.last())
    }
}

/// Whether every character of `s` is a decimal digit.
pub open spec fn spec_all_digits(s: Seq<char>) -> bool {
    forall|i: int| 0 <= i < s.len() ==> spec_is_digit(s[i])
}

/// What `usize::from_str` accepts for `s`: a non-empty run of digits,
/// optionally preceded by one `+` sign, whose value fits in `usize`.
pub open spec fn spec_parse_usize(s: Seq<char>) -> Option<usize> {
    let digits = if s.len() > 0 && s[0] == '+' {
        s.drop_first()
    } else {
        s
    };
    if digits.len() > 0 && spec_all_digits(digits) && spec_digits_value(digits) <= usize::MAX {
        Some(spec_digits_value(digits) as usize)
    } else {
        None
    }
}

proof fn lemma_digits_value_take_step(s: Seq<char>, i: int)
    requires
        0 <= i < s.len(),
    ensures
        spec_digits_value(s.take(i + 1)) == spec_digits_value(s.take(i)) * 10 + spec_digit_val(
            s[i],
        ),
{
    assert(s.take(i + 1).drop_last() =~= s.take(i));
    assert(s.take(i + 1).last() == s[i]);
}

/// Parses a decimal `usize` as `usize::from_str` would, rejecting
/// malformed text and overflow instead of failing.
pub fn parse_usize(s: &str) -> (r: Option<usize>)
    ensures
        r == spec_parse_usize(s@),
{
    let len = s.unicode_len();
    let has_sign = len > 0 && s.get_char(0) == '+';
    let start: usize = if has_sign {
        1
    } else {
        0
    };
    let ghost digits = if has_sign {
        s@.drop_first()
    } else {
        s@
    };
    proof {
        assert(digits =~= s@.subrange(start as int, len as int));
    }
    if start >= len {
        return None;
    }
    let mut value: usize = 0;
    let mut i: usize = start;
    while i < len
        invariant
            len == s@.len(),
            start <= i <= len,
            start < len,
            digits == s@.subrange(start as int, len as int),
            digits == (if s@.len() > 0 && s@[0] == '+' {
                s@.drop_first()
            } else {
                s@
            }),
            forall|j: int| start <= j < i ==> spec_is_digit(s@[j]),
            value == spec_digits_value(digits.take(i - start)),
        decreases len - i,
    {
        let c = s.get_char(i);
        if !('0' <= c && c <= '9') {
            proof {
                assert(digits[i - start] == s@[i as int]);
                assert(!spec_is_digit(digits[i - start]));
                assert(!spec_all_digits(digits));
            }
            return None;
        }
        let d = (c as u32 - '0' as u32) as usize;
        if value > (usize::MAX - d) / 10 {
            proof {
                assert(digits[i - start] == s@[i as int]);
                assert(d == spec_digit_val(digits[i - start]));
                lemma_digits_value_take_step(digits, i - start);
                assert(value * 10 + d > usize::MAX) by (nonlinear_arith)
                    requires
                        value > (usize::MAX - d) / 10,
                        d <= 9,
                ;
                lemma_digits_value_monotone(digits, i - start + 1);
            }
            return None;
        }
        proof {
            assert(digits[i - start] == s@[i as int]);
            assert(d == spec_digit_val(digits[i - start]));
            lemma_digits_value_take_step(digits, i - start);
            assert(value * 10 + d <= usize::MAX) by (nonlinear_arith)
                requires
                    value <= (usize::MAX - d) / 10,
                    d <= 9,
            ;
        }
        value = value * 10 + d;
        i = i + 1;
    }
    proof {
        assert(digits.take(len - start) =~= digits);
        assert(forall|k: int| 0 <= k < digits.len() ==> digits[k] == s@[k + start]);
        assert(spec_all_digits(digits));
    }
    Some(value)
}

/// Once one digit run exceeds `usize::MAX`, any extension of it does too.
proof fn lemma_digits_value_monotone(s: Seq<char>, i: int)
    requires
        0 <= i <= s.len(),
        spec_digits_value(s.take(i)) > usize::MAX,
    ensures
        spec_digits_value(s) > usize::MAX,
    decreases s.len() - i,
{
    if i < s.len() {
        lemma_digits_value_take_step(s, i);
        let a = spec_digits_value(s.take(i));
        let b = spec_digit_val(s[i]);
        assert(a * 10 + b > usize::MAX) by (nonlinear_arith)
            requires
                a > usize::MAX,
        ;
        lemma_digits_value_monotone(s, i + 1);
    } else {
        assert(s.take(i) =~= s);
    }
}

/// The index of the first occurrence of `sep` in `s`, if any.
pub open spec fn spec_find(s: Seq<char>, sep: char) -> Option<int> {
    if exists|i: int| 0 <= i < s.len() && s[i] == sep {
        Some(
            choose|i: int|
                0 <= i < s.len() && s[i] == sep && (forall|j: int| 0 <= j < i ==> s[j] != sep),
        )
    } else {
        None
    }
}

/// Finds the first occurrence of `sep` in `s`.
pub fn find_char(s: &str, sep: char) -> (r: Option<usize>)
    ensures
        match r {
            Some(i) => i < s@.len() && s@[i as int] == sep && spec_find(s@, sep) == Some(i as int),
            None => spec_find(s@, sep) is None,
        },
{
    let len = s.unicode_len();
    let mut i: usize = 0;
    while i < len
        invariant
            len == s@.len(),
            i <= len,
            forall|j: int| 0 <= j < i ==> s@[j] != sep,
        decreases len - i,
    {
        if s.get_char(i) == sep {
            proof {
                let w = choose|w: int|
                    0 <= w < s@.len() && s@[w] == sep && (forall|j: int|
                        0 <= j < w ==> s@[j] != sep);
                assert(w == i);
            }
            return Some(i);
        }
        i = i + 1;
    }
    None
}

} // verus!
