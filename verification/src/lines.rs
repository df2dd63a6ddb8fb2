//! Splitting a text into lines: a line ends at a newline byte, a carriage
//! return just before the newline is not part of the line, and a newline
//! at the very end does not start one more, empty line.
use vstd::prelude::*;
use vstd::string::*;
use vstd::utf8::encode_utf8;
use crate::value::{Value, ValueModel, model_list};
use crate::text::{utf8_lossy, string_from_utf8_lossy};

verus! {

/// The first newline byte of `t` at or after `i` and before `end`, or `end`
/// when there is none.
pub open spec fn first_newline(t: Seq<u8>, i: int, end: int) -> int
    decreases end - i,
{
    if i >= end {
        end
    } else if t[i] == 10u8 {
        i
    } else {
        first_newline(t, i + 1, end)
    }
}

/// The first newline lies between `i` and `end`, nothing before it is a
/// newline, and it is a newline unless it is `end`.
pub proof fn lemma_first_newline(t: Seq<u8>, i: int, end: int)
    requires
        i <= end,
    ensures
        i <= first_newline(t, i, end) <= end,
        first_newline(t, i, end) < end ==> t[first_newline(t, i, end)] == 10u8,
        forall|j: int| i <= j < first_newline(t, i, end) ==> t[j] != 10u8,
    decreases end - i,
{
    if i < end && t[i] != 10u8 {
        lemma_first_newline(t, i + 1, end);
    }
}

/// A position `x` with no newline in `[i, x)` that is `end` or a newline is
/// the first newline.
proof fn lemma_first_newline_is(t: Seq<u8>, i: int, end: int, x: int)
    requires
        i <= x <= end,
        forall|j: int| i <= j < x ==> t[j] != 10u8,
        x < end ==> t[x] == 10u8,
    ensures
        first_newline(t, i, end) == x,
    decreases x - i,
{
    if i < x {
        lemma_first_newline_is(t, i + 1, end, x);
    }
}

/// The line starting at `cursor`: where its view ends (a carriage return
/// right before the newline left out) and where the next line starts.
pub open spec fn line_at(t: Seq<u8>, cursor: int, end: int) -> (int, int) {
    let le = first_newline(t, cursor, end);
    let view_end = if le > cursor && t[le - 1] == 13u8 { le - 1 } else { le };
    (view_end, if le < end { le + 1 } else { end })
}

/// The lines of `t[cursor..end]`, one after another.
pub open spec fn text_lines(t: Seq<u8>, cursor: int, end: int) -> Seq<Seq<u8>>
    decreases end - cursor,
{
    if cursor >= end {
        Seq::empty()
    } else {
        proof {
            lemma_first_newline(t, cursor, end);
        }
        let (view_end, next) = line_at(t, cursor, end);
        seq![t.subrange(cursor, view_end)] + text_lines(t, next, end)
    }
}

/// The lines a `for` over the lines of `v` runs through: the lines of a byte
/// string as byte strings, and those of a text, split on its UTF-8 bytes,
/// as texts; no other value has lines.
pub open spec fn line_values(v: ValueModel) -> Option<Seq<ValueModel>> {
    match v {
        ValueModel::Bytes(bs) => Some(text_lines(bs, 0, bs.len() as int).map_values(|l: Seq<u8>| ValueModel::Bytes(l))),
        ValueModel::Str(cs) => {
            let bs = encode_utf8(cs);
            Some(text_lines(bs, 0, bs.len() as int).map_values(|l: Seq<u8>| ValueModel::Str(utf8_lossy(l))))
        },
        _ => None,
    }
}

/// `memchr::memchr`: the position of the first byte of `haystack` equal to
/// `needle`, or `None` when there is none, as the crate documents.
#[verifier::external_body]
fn find_byte(needle: u8, haystack: &[u8]) -> (r: Option<usize>)
    ensures
        match r {
            Some(i) => i < haystack@.len() && haystack@[i as int] == needle
                && forall|j: int| 0 <= j < i ==> haystack@[j] != needle,
            None => forall|j: int| 0 <= j < haystack@.len() ==> haystack@[j] != needle,
        },
{
    memchr::memchr(needle, haystack)
}

/// The line of `text` starting at `cursor`, the text ending at `end`: where
/// its view ends and where the next line starts.
pub fn next_line(text: &[u8], cursor: usize, end: usize) -> (r: (usize, usize))
    requires
        cursor < end <= text@.len(),
    ensures
        r.0 as int == line_at(text@, cursor as int, end as int).0,
        r.1 as int == line_at(text@, cursor as int, end as int).1,
        cursor <= r.0 <= end,
        cursor < r.1 <= end,
{
    let rest = vstd::slice::slice_subrange(text, cursor, end);
    let le: usize = match find_byte(10u8, rest) {
        Some(off) => {
            proof {
                assert forall|j: int| cursor <= j < cursor + off implies text@[j] != 10u8 by {
                    assert(rest@[j - cursor] == text@[j]);
                }
                assert(rest@[off as int] == text@[cursor + off]);
                lemma_first_newline_is(text@, cursor as int, end as int, cursor + off);
            }
            cursor + off
        },
        None => {
            proof {
                assert forall|j: int| cursor <= j < end implies text@[j] != 10u8 by {
                    assert(rest@[j - cursor] == text@[j]);
                }
                lemma_first_newline_is(text@, cursor as int, end as int, end as int);
            }
            end
        },
    };
    let view_end = if le > cursor && text[le - 1] == 13u8 { le - 1 } else { le };
    let next = if le < end { le + 1 } else { end };
    (view_end, next)
}

/// The lines of `text`, as byte strings.
pub fn split_lines(text: &[u8]) -> (r: Vec<Vec<u8>>)
    ensures
        r@.len() == text_lines(text@, 0, text@.len() as int).len(),
        forall|i: int| 0 <= i < r@.len() ==> #[trigger] r@[i]@ == text_lines(text@, 0, text@.len() as int)[i],
{
    let end = text.len();
    let ghost whole = text_lines(text@, 0, end as int);
    let mut out: Vec<Vec<u8>> = Vec::new();
    let mut cursor: usize = 0;
    while cursor < end
        invariant
            end == text@.len(),
            cursor <= end,
            whole == text_lines(text@, 0, end as int),
            out@.len() + text_lines(text@, cursor as int, end as int).len() == whole.len(),
            forall|i: int| 0 <= i < out@.len() ==> #[trigger] out@[i]@ == whole[i],
            forall|i: int| 0 <= i < text_lines(text@, cursor as int, end as int).len()
                ==> #[trigger] text_lines(text@, cursor as int, end as int)[i] == whole[out@.len() + i],
        decreases end - cursor,
    {
        let ghost rest = text_lines(text@, cursor as int, end as int);
        let (view_end, next) = next_line(text, cursor, end);
        let ghost tail = text_lines(text@, next as int, end as int);
        assert(rest == seq![text@.subrange(cursor as int, view_end as int)] + tail);
        let line = vstd::slice::slice_to_vec(vstd::slice::slice_subrange(text, cursor, view_end));
        let ghost before = out@;
        out.push(line);
        proof {
            assert(rest[0] == text@.subrange(cursor as int, view_end as int));
            assert(whole[before.len() as int] == rest[0]);
            assert forall|i: int| 0 <= i < tail.len() implies #[trigger] tail[i] == whole[out@.len() + i] by {
                assert(rest[i + 1] == tail[i]);
            }
            assert forall|i: int| 0 <= i < out@.len() implies #[trigger] out@[i]@ == whole[i] by {
                if i < before.len() {
                    assert(out@[i] == before[i]);
                }
            }
        }
        cursor = next;
    }
    out
}

/// The lines of `v`, as a `for` over them runs through them: `None` when `v`
/// is neither a text nor a byte string.
pub fn line_values_of(v: &Value) -> (r: Option<Vec<Value>>)
    ensures
        match line_values(v@) {
            Some(items) => r matches Some(x) && model_list(x@) == items,
            None => r is None,
        },
{
    let (lines, text) = match v {
        Value::Bytes(bs) => (split_lines(bs.as_slice()), false),
        Value::Str(s) => (split_lines(s.as_str().as_bytes()), true),
        _ => return None,
    };
    let ghost ls = match v@ {
        ValueModel::Bytes(bs) => text_lines(bs, 0, bs.len() as int),
        ValueModel::Str(cs) => text_lines(encode_utf8(cs), 0, encode_utf8(cs).len() as int),
        _ => Seq::empty(),
    };
    let ghost target = line_values(v@)->0;
    assert(lines@.len() == ls.len());
    let mut out: Vec<Value> = Vec::new();
    let mut i: usize = 0;
    while i < lines.len()
        invariant
            i <= lines@.len(),
            lines@.len() == ls.len(),
            forall|k: int| 0 <= k < lines@.len() ==> #[trigger] lines@[k]@ == ls[k],
            target.len() == ls.len(),
            forall|k: int| 0 <= k < ls.len() ==> #[trigger] target[k] == (if text {
                ValueModel::Str(utf8_lossy(ls[k]))
            } else {
                ValueModel::Bytes(ls[k])
            }),
            out@.len() == i,
            model_list(out@) =~= target.take(i as int),
        decreases lines@.len() - i,
    {
        let line = if text {
            Value::Str(string_from_utf8_lossy(lines[i].as_slice()))
        } else {
            Value::Bytes(vstd::slice::slice_to_vec(lines[i].as_slice()))
        };
        assert(lines@[i as int]@ == ls[i as int]);
        assert(line@ == target[i as int]);
        let ghost before = out@;
        let ghost lv = line@;
        out.push(line);
        assert(out@[i as int]@ == lv);
        assert(model_list(out@) =~= target.take(i as int + 1)) by {
            assert forall|k: int| 0 <= k < out@.len() implies #[trigger] model_list(out@)[k] == target.take(i as int + 1)[k] by {
                if k < before.len() {
                    assert(out@[k] == before[k]);
                    assert(model_list(before)[k] == target.take(i as int)[k]);
                }
            }
        }
        i = i + 1;
    }
    assert(target.take(lines@.len() as int) =~= target);
    Some(out)
}

} // verus!
