//! The text of module contract type names: messages, generic bodies such as
//! `List[...]`, and splitting type lists at top-level commas.
use vstd::prelude::*;
use vstd::string::*;
use crate::text::{str_concat3, str_trim, spec_trim, str_strip_prefix, str_strip_suffix};

verus! {

/// A contract message, prefixed by its source when there is one.
pub open spec fn contract_message(source: Option<Seq<char>>, detail: Seq<char>) -> Seq<char> {
    match source {
        Some(s) => if s.len() > 0 { s + ": "@ + detail } else { detail },
        None => detail,
    }
}

/// A contract message, prefixed by its source when there is one.
pub fn module_contract_message(source: Option<&str>, detail: &str) -> (r: String)
    ensures
        r@ == contract_message(match source { Some(s) => Some(s@), None => None }, detail@),
{
    match source {
        Some(s) => {
            if !s.is_empty() {
                str_concat3(s, ": ", detail)
            } else {
                String::from_str(detail)
            }
        },
        None => String::from_str(detail),
    }
}

/// The body of `name[...]`, trimmed.
pub open spec fn generic_body(expected: Seq<char>, name: Seq<char>) -> Option<Seq<char>> {
    let n = name.len();
    let m = expected.len();
    if m >= n + 2 && expected.subrange(0, n as int) == name && expected[n as int] == '['
        && expected[m - 1] == ']' {
        Some(spec_trim(expected.subrange((n + 1) as int, m - 1)))
    } else {
        None
    }
}

/// The body of `name[...]`, trimmed, when `expected` has that shape.
pub fn module_contract_generic_body<'a>(expected: &'a str, name: &str) -> (r: Option<&'a str>)
    ensures
        match r {
            Some(b) => generic_body(expected@, name@) == Some(b@),
            None => generic_body(expected@, name@) is None,
        },
{
    proof { reveal_strlit("["); reveal_strlit("]"); }
    let rest = str_strip_prefix(expected, name)?;
    let ghost n = name@.len();
    let ghost m = expected@.len();
    proof {
        if rest@.len() > 0 {
            assert(rest@[0] == expected@[n as int]);
            assert(rest@.subrange(0, 1)[0] == rest@[0]);
            if rest@[0] == '[' {
                assert(rest@.subrange(0, 1) =~= "["@);
            }
        }
    }
    let inner = str_strip_prefix(rest, "[")?;
    proof {
        if inner@.len() > 0 {
            assert(inner@[inner@.len() - 1] == expected@[m - 1]);
            assert(inner@.subrange(inner@.len() - 1, inner@.len() as int)[0] == inner@[inner@.len() - 1]);
            if inner@[inner@.len() - 1] == ']' {
                assert(inner@.subrange(inner@.len() - 1, inner@.len() as int) =~= "]"@);
            }
        }
    }
    let body = str_strip_suffix(inner, "]")?;
    assert(body@ =~= expected@.subrange((n + 1) as int, m - 1));
    Some(str_trim(body))
}

/// The bracket depth after reading `text[..i]`.
pub open spec fn depth_at(text: Seq<char>, i: int) -> int
    decreases i,
{
    if i <= 0 {
        0
    } else {
        depth_at(text, i - 1) + (if text[i - 1] == '[' { 1int } else if text[i - 1] == ']' { -1int } else { 0int })
    }
}

/// Whether `text[i]` is a comma outside every bracket.
pub open spec fn top_comma(text: Seq<char>, i: int) -> bool {
    0 <= i < text.len() && text[i] == ',' && depth_at(text, i) == 0
}

/// The first top-level comma at or after `i`.
pub open spec fn first_top_comma_from(text: Seq<char>, i: int) -> Option<int>
    decreases text.len() - i,
{
    if i < 0 || i >= text.len() {
        None
    } else if top_comma(text, i) {
        Some(i)
    } else {
        first_top_comma_from(text, i + 1)
    }
}

/// The two halves around the first top-level comma.
pub open spec fn split_pair(text: Seq<char>) -> Option<(Seq<char>, Seq<char>)> {
    match first_top_comma_from(text, 0) {
        Some(i) => Some((text.subrange(0, i), text.subrange(i + 1, text.len() as int))),
        None => None,
    }
}

/// Splits `text` at its first comma outside brackets.
pub fn module_contract_split_pair<'a>(text: &'a str) -> (r: Option<(&'a str, &'a str)>)
    ensures
        match r {
            Some((a, b)) => split_pair(text@) == Some((a@, b@)),
            None => split_pair(text@) is None,
        },
{
    let n = text.unicode_len();
    let mut depth: i128 = 0;
    let mut i: usize = 0;
    assert(first_top_comma_from(text@, 0) == first_top_comma_from(text@, 0));
    while i < n
        invariant
            n == text@.len(),
            i <= n,
            depth == depth_at(text@, i as int),
            -(i as int) <= depth <= i as int,
            first_top_comma_from(text@, 0) == first_top_comma_from(text@, i as int),
        decreases n - i,
    {
        let ch = text.get_char(i);
        if ch == '[' {
            depth = depth + 1;
        } else if ch == ']' {
            depth = depth - 1;
        } else if ch == ',' && depth == 0 {
            return Some((text.substring_char(0, i), text.substring_char(i + 1, n)));
        }
        i = i + 1;
    }
    None
}

/// The pieces of `text` between its top-level commas, scanning from `i`
/// with the current piece starting at `start`.
pub open spec fn split_from(text: Seq<char>, i: int, start: int, acc: Seq<Seq<char>>) -> Seq<Seq<char>>
    decreases text.len() - i,
{
    if i < 0 || i >= text.len() {
        acc.push(text.subrange(start, text.len() as int))
    } else if top_comma(text, i) {
        split_from(text, i + 1, i + 1, acc.push(text.subrange(start, i)))
    } else {
        split_from(text, i + 1, start, acc)
    }
}

/// Splits a type list at its top-level commas.
pub fn module_contract_split_types<'a>(text: &'a str) -> (r: Vec<&'a str>)
    ensures
        r@.len() == split_from(text@, 0, 0, Seq::empty()).len(),
        forall|k: int| 0 <= k < r@.len() ==> r@[k]@ == split_from(text@, 0, 0, Seq::empty())[k],
{
    let n = text.unicode_len();
    let mut items: Vec<&'a str> = Vec::new();
    let mut depth: i128 = 0;
    let mut start: usize = 0;
    let mut i: usize = 0;
    let ghost mut acc: Seq<Seq<char>> = Seq::empty();
    while i < n
        invariant
            n == text@.len(),
            i <= n,
            start <= i,
            depth == depth_at(text@, i as int),
            -(i as int) <= depth <= i as int,
            items@.len() == acc.len(),
            forall|k: int| 0 <= k < acc.len() ==> items@[k]@ == acc[k],
            split_from(text@, 0, 0, Seq::empty()) == split_from(text@, i as int, start as int, acc),
        decreases n - i,
    {
        let ch = text.get_char(i);
        if ch == '[' {
            depth = depth + 1;
        } else if ch == ']' {
            depth = depth - 1;
        } else if ch == ',' && depth == 0 {
            let piece = text.substring_char(start, i);
            items.push(piece);
            proof { acc = acc.push(piece@); }
            start = i + 1;
        }
        i = i + 1;
    }
    let piece = text.substring_char(start, n);
    items.push(piece);
    proof { acc = acc.push(piece@); }
    items
}

} // verus!
