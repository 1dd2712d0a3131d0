//! Character-level helpers for parsing input text.
use vstd::prelude::*;

verus! {

/// The characters of `s`, in order.
pub fn chars_of(s: &str) -> (r: Vec<char>)
    ensures
        r@ == s@,
{
    let mut v: Vec<char> = Vec::new();
    for c in it: s.chars()
        invariant
            v@ == it.seq().take(it.index() as int),
            it.seq() == s@,
    {
        v.push(c);
    }
    v
}


/// `s` without its `_` characters.
pub open spec fn without_underscores(s: Seq<char>) -> Seq<char>
    decreases s.len(),
{
    if s.len() == 0 {
        s
    } else if s.last() == '_' {
        without_underscores(s.drop_last())
    } else {
        without_underscores(s.drop_last()).push(s.last())
    }
}

/// The characters of `s` other than `_`, in order.
pub fn remove_underscores(s: &Vec<char>) -> (r: Vec<char>)
    ensures
        r@ == without_underscores(s@),
{
    let mut v: Vec<char> = Vec::new();
    let n = s.len();
    for i in 0..n
        invariant
            n == s@.len(),
            v@ == without_underscores(s@.take(i as int)),
    {
        assert(s@.take(i + 1).drop_last() =~= s@.take(i as int));
        if s[i] != '_' {
            v.push(s[i]);
        }
    }
    assert(s@.take(n as int) =~= s@);
    v
}

/// No `_` remains once they are removed.
pub proof fn lemma_without_underscores_has_none(s: Seq<char>)
    ensures
        forall|i: int|
            0 <= i < without_underscores(s).len() ==> #[trigger] without_underscores(s)[i] != '_',
    decreases s.len(),
{
    if s.len() > 0 {
        lemma_without_underscores_has_none(s.drop_last());
        let r = without_underscores(s.drop_last());
        if s.last() != '_' {
            assert forall|i: int| 0 <= i < r.push(s.last()).len() implies #[trigger] r.push(
                s.last(),
            )[i] != '_' by {
                if i < r.len() {
                    assert(r[i] != '_');
                }
            }
        }
    }
}

/// Text without `_` is left as it is.
pub proof fn lemma_without_underscores_none(s: Seq<char>)
    requires
        forall|i: int| 0 <= i < s.len() ==> s[i] != '_',
    ensures
        without_underscores(s) == s,
    decreases s.len(),
{
    if s.len() > 0 {
        let d = s.drop_last();
        assert forall|i: int| 0 <= i < d.len() implies d[i] != '_' by {
            assert(d[i] == s[i]);
        }
        lemma_without_underscores_none(d);
        assert(d.push(s.last()) =~= s);
    }
}

/// Removing separators a second time changes nothing.
pub proof fn lemma_without_underscores_idempotent(s: Seq<char>)
    ensures
        without_underscores(without_underscores(s)) == without_underscores(s),
    decreases s.len(),
{
    if s.len() > 0 {
        lemma_without_underscores_idempotent(s.drop_last());
        let r = without_underscores(s.drop_last());
        if s.last() != '_' {
            assert(r.push(s.last()).drop_last() =~= r);
        }
    }
}

/// std's `String::from_iter` over characters.
#[verifier::external_body]
pub(crate) fn string_of(chars: &[char]) -> (r: String)
    ensures
        r@ == chars@,
{
    String::from_iter(chars.iter())
}

/// The value of a digit character (`0-9`, then `a-z` or `A-Z` for 10 to 35);
/// 36 for any other character.
pub open spec fn digit_value(c: char) -> int {
    if '0' <= c && c <= '9' {
        c as int - '0' as int
    } else if 'a' <= c && c <= 'z' {
        c as int - 'a' as int + 10
    } else if 'A' <= c && c <= 'Z' {
        c as int - 'A' as int + 10
    } else {
        36
    }
}

/// Every character is a digit below `radix`.
pub open spec fn all_digits(s: Seq<char>, radix: int) -> bool {
    forall|i: int| 0 <= i < s.len() ==> #[trigger] digit_value(s[i]) < radix
}

/// The value of big-endian digits in `radix`.
pub open spec fn digits_value(s: Seq<char>, radix: int) -> int
    decreases s.len(),
{
    if s.len() == 0 {
        0
    } else {
        digits_value(s.drop_last(), radix) * radix + digit_value(s.last())
    }
}

/// An integer written in `radix`: an optional `+` or `-`, then at least one
/// digit below `radix`.
pub open spec fn parse_radix(s: Seq<char>, radix: int) -> Option<int> {
    let negative = s.len() > 0 && s[0] == '-';
    let body = if s.len() > 0 && (s[0] == '-' || s[0] == '+') {
        s.drop_first()
    } else {
        s
    };
    if body.len() > 0 && all_digits(body, radix) {
        Some(if negative { -digits_value(body, radix) } else { digits_value(body, radix) })
    } else {
        None
    }
}

} // verus!
