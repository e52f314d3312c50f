use vstd::prelude::*;

verus! {

/// Whether `a` and `b` hold the same characters.
pub fn same_text(a: &str, b: &str) -> (same: bool)
    ensures
        same == (a@ == b@),
{
    let mut left = a.chars();
    let mut right = b.chars();
    let ghost mut seen: int = 0;
    loop
        invariant
            0 <= seen <= a@.len(),
            seen <= b@.len(),
            vstd::std_specs::iter::IteratorSpec::remaining(&left) == a@.skip(seen),
            vstd::std_specs::iter::IteratorSpec::remaining(&right) == b@.skip(seen),
            a@.take(seen) == b@.take(seen),
        decreases a@.len() - seen,
    {
        let x = left.next();
        let y = right.next();
        match (x, y) {
            (Some(c), Some(d)) => {
                if c != d {
                    assert(a@[seen] != b@[seen]);
                    return false;
                }
                proof {
                    assert(a@.skip(seen).drop_first() =~= a@.skip(seen + 1));
                    assert(b@.skip(seen).drop_first() =~= b@.skip(seen + 1));
                    assert(a@.take(seen + 1) =~= a@.take(seen).push(a@[seen]));
                    assert(b@.take(seen + 1) =~= b@.take(seen).push(b@[seen]));
                    seen = seen + 1;
                }
            },
            (None, None) => {
                assert(a@.take(seen) =~= a@);
                assert(b@.take(seen) =~= b@);
                return true;
            },
            (_, _) => {
                assert(a@.len() != b@.len());
                return false;
            },
        }
    }
}

/// The characters with the Unicode property `White_Space`.
pub open spec fn white_space(c: char) -> bool {
    let code = c as u32;
    ||| 0x09 <= code <= 0x0d
    ||| code == 0x20
    ||| code == 0x85
    ||| code == 0xa0
    ||| code == 0x1680
    ||| 0x2000 <= code <= 0x200a
    ||| code == 0x2028
    ||| code == 0x2029
    ||| code == 0x202f
    ||| code == 0x205f
    ||| code == 0x3000
}

/// Whether a text holds white space only; the empty text does.
pub open spec fn blank(text: Seq<char>) -> bool {
    forall|i: int| 0 <= i < text.len() ==> white_space(#[trigger] text[i])
}

/// Whether a character is white space.
pub fn is_white_space(c: char) -> (white: bool)
    ensures
        white == white_space(c),
{
    let code: u32 = c as u32;
    (0x09 <= code && code <= 0x0d) || code == 0x20 || code == 0x85 || code == 0xa0 || code == 0x1680
        || (0x2000 <= code && code <= 0x200a) || code == 0x2028 || code == 0x2029 || code == 0x202f
        || code == 0x205f || code == 0x3000
}

/// Whether a text holds white space only; the empty text does.
pub fn is_blank(text: &str) -> (empty: bool)
    ensures
        empty == blank(text@),
{
    for c in it: text.chars()
        invariant
            it.seq() == text@,
            forall|i: int| 0 <= i < it.index() ==> white_space(#[trigger] text@[i]),
    {
        if !is_white_space(c) {
            assert(!white_space(text@[it.index()]));
            return false;
        }
    }
    true
}

/// Whether `text` starts with `prefix`.
pub fn starts_with(text: &str, prefix: &str) -> (starts: bool)
    ensures
        starts == prefix@.is_prefix_of(text@),
{
    let mut rest = text.chars();
    let ghost mut seen: int = 0;
    for c in it: prefix.chars()
        invariant
            it.seq() == prefix@,
            seen == it.index(),
            seen <= text@.len(),
            vstd::std_specs::iter::IteratorSpec::remaining(&rest) == text@.skip(seen),
            prefix@.take(seen) == text@.take(seen),
    {
        match rest.next() {
            Some(d) => {
                if c != d {
                    assert(prefix@[seen] != text@[seen]);
                    return false;
                }
                proof {
                    assert(text@.skip(seen).drop_first() =~= text@.skip(seen + 1));
                    assert(text@.take(seen + 1) =~= text@.take(seen).push(text@[seen]));
                    assert(prefix@.take(seen + 1) =~= prefix@.take(seen).push(prefix@[seen]));
                    seen = seen + 1;
                }
            },
            None => {
                return false;
            },
        }
    }
    assert(prefix@.take(seen) =~= prefix@);
    true
}

/// What follows `prefix` in `text`, where `text` starts with it.
pub fn strip_prefix<'a>(text: &'a str, prefix: &str) -> (rest: Option<&'a str>)
    ensures
        match rest {
            Some(rest) => text@ == prefix@ + rest@,
            None => !prefix@.is_prefix_of(text@),
        },
{
    if starts_with(text, prefix) {
        let rest = text.substring_char(prefix.unicode_len(), text.unicode_len());
        assert(text@ =~= prefix@ + rest@);
        Some(rest)
    } else {
        None
    }
}

/// What precedes `suffix` in `text`, where `text` ends with it.
pub fn strip_suffix<'a>(text: &'a str, suffix: &str) -> (rest: Option<&'a str>)
    ensures
        match rest {
            Some(rest) => text@ == rest@ + suffix@,
            None => !suffix@.is_suffix_of(text@),
        },
{
    let whole: usize = text.unicode_len();
    let cut: usize = suffix.unicode_len();
    if cut <= whole && same_text(text.substring_char(whole - cut, whole), suffix) {
        let rest = text.substring_char(0, whole - cut);
        assert(text@ =~= rest@ + suffix@);
        Some(rest)
    } else {
        None
    }
}

/// What precedes and what follows the first `mark` in `text`.
pub fn split_once<'a>(text: &'a str, mark: char) -> (parts: Option<(&'a str, &'a str)>)
    ensures
        match parts {
            Some((before, after)) => {
                &&& text@ == before@.push(mark) + after@
                &&& !before@.contains(mark)
            },
            None => !text@.contains(mark),
        },
{
    let whole: usize = text.unicode_len();
    let mut at: usize = 0;
    for c in it: text.chars()
        invariant
            whole == text@.len(),
            it.seq() == text@,
            at == it.index(),
            forall|i: int| 0 <= i < at ==> #[trigger] text@[i] != mark,
    {
        if c == mark {
            let before = text.substring_char(0, at);
            let after = text.substring_char(at + 1, whole);
            assert(text@ =~= before@.push(mark) + after@);
            return Some((before, after));
        }
        at = at + 1;
    }
    None
}

/// The number that a run of decimal digits stands for.
pub open spec fn digits_value(digits: Seq<char>) -> nat
    decreases digits.len(),
{
    if digits.len() == 0 {
        0
    } else {
        digits_value(digits.drop_last()) * 10 + (digits.last() as nat - '0' as nat) as nat
    }
}

pub open spec fn is_digit(c: char) -> bool {
    '0' <= c <= '9'
}

/// The digits of an unsigned decimal number, which a `+` may precede.
pub open spec fn unsigned_digits(text: Seq<char>) -> Seq<char> {
    if text.len() > 0 && text[0] == '+' {
        text.skip(1)
    } else {
        text
    }
}

/// The number that a text writes in decimal: an optional `+` and at least one
/// digit, and nothing else.
pub open spec fn decimal(text: Seq<char>) -> Option<nat> {
    let digits = unsigned_digits(text);
    if digits.len() > 0 && forall|i: int| 0 <= i < digits.len() ==> is_digit(#[trigger] digits[i]) {
        Some(digits_value(digits))
    } else {
        None
    }
}

/// Reads an unsigned decimal number that fits 64 bits.
pub fn parse_u64(text: &str) -> (number: Option<u64>)
    ensures
        match decimal(text@) {
            Some(value) => if value <= u64::MAX {
                number == Some(value as u64)
            } else {
                number is None
            },
            None => number is None,
        },
{
    let digits = match strip_prefix(text, "+") {
        Some(rest) => rest,
        None => text,
    };
    proof {
        reveal_strlit("+");
        if text@.len() > 0 && text@[0] == '+' {
            assert("+"@.is_prefix_of(text@));
            assert(text@.skip(1) =~= digits@);
        } else {
            assert(!"+"@.is_prefix_of(text@));
        }
    }
    assert(digits@ == unsigned_digits(text@));
    let mut value: Option<u64> = Some(0);
    for c in it: digits.chars()
        invariant
            it.seq() == digits@,
            digits@ == unsigned_digits(text@),
            forall|i: int| 0 <= i < it.index() ==> is_digit(#[trigger] digits@[i]),
            match value {
                Some(value) => value == digits_value(digits@.take(it.index())),
                None => digits_value(digits@.take(it.index())) > u64::MAX,
            },
    {
        if c < '0' || '9' < c {
            assert(!is_digit(digits@[it.index()]));
            return None;
        }
        proof {
            let next = digits@.take(it.index() + 1);
            assert(next.drop_last() =~= digits@.take(it.index()));
            assert(next.last() == c);
        }
        let digit: u64 = (c as u32 - '0' as u32) as u64;
        value = match value {
            Some(value) => match value.checked_mul(10) {
                Some(value) => value.checked_add(digit),
                None => None,
            },
            None => None,
        };
    }
    assert(digits@.take(digits@.len() as int) =~= digits@);
    if digits.is_empty() {
        return None;
    }
    value
}

/// The text of an optional string.
pub open spec fn text_view(text: Option<String>) -> Option<Seq<char>> {
    match text {
        Some(text) => Some(text@),
        None => None,
    }
}

/// A copy of an optional string.
pub fn copy_text(text: &Option<String>) -> (copy: Option<String>)
    ensures
        text_view(copy) == text_view(*text),
{
    match text {
        Some(text) => Some(text.clone()),
        None => None,
    }
}

} // verus!
