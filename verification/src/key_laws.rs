//! Laws of cache keys: a key can be read back, so calls on different
//! texts, tags, functions, integers or booleans never share a key.
use vstd::prelude::*;
use vstd::string::*;
use crate::value::ValueModel;
use crate::text::{decimal, hex_digit};
use crate::cache_key::{encode_key, encode_items, utf8_len};
use vstd::utf8::{encode_utf8, encode_scalar};

verus! {

/// Each scalar takes at least one byte.
proof fn lemma_scalar_bytes(c: char)
    ensures
        encode_scalar(c as u32).len() >= 1,
{
}

/// The UTF-8 length of two texts one after the other is the sum of their
/// lengths, and a text that is not empty takes at least one byte.
proof fn lemma_utf8_len_concat(a: Seq<char>, b: Seq<char>)
    ensures
        utf8_len(a + b) == utf8_len(a) + utf8_len(b),
        a.len() > 0 ==> utf8_len(a) > 0,
    decreases a.len(),
{
    if a.len() > 0 {
        lemma_scalar_bytes(a[0]);
        lemma_utf8_len_concat(a.drop_first(), b);
        assert((a + b).drop_first() =~= a.drop_first() + b);
        assert((a + b)[0] == a[0]);
        assert(encode_utf8(a + b) == encode_scalar(a[0] as u32) + encode_utf8(a.drop_first() + b));
    } else {
        assert(a + b =~= b);
    }
}

/// The digits of a number are never `:`, and there is at least one.
proof fn lemma_decimal_digits(n: nat)
    ensures
        decimal(n).len() >= 1,
        forall|i: int| 0 <= i < decimal(n).len() ==> #[trigger] decimal(n)[i] != ':',
    decreases n,
{
    reveal_strlit("0123456789abcdef");
    if n >= 10 {
        lemma_decimal_digits(n / 10);
        assert forall|i: int| 0 <= i < decimal(n).len() implies #[trigger] decimal(n)[i] != ':' by {
            if i < decimal(n / 10).len() {
                assert(decimal(n)[i] == decimal(n / 10)[i]);
            } else {
                assert(decimal(n)[i] == hex_digit(n % 10));
            }
        }
    }
}

/// The first digit of a number is never a minus sign.
proof fn lemma_decimal_first_not_minus(n: nat)
    ensures
        decimal(n).len() > 0 && decimal(n)[0] != '-',
    decreases n,
{
    reveal_strlit("0123456789abcdef");
    if n >= 10 {
        lemma_decimal_first_not_minus(n / 10);
        assert(decimal(n)[0] == decimal(n / 10)[0]);
    }
}

/// Different numbers have different digits.
proof fn lemma_decimal_injective(a: nat, b: nat)
    requires
        decimal(a) == decimal(b),
    ensures
        a == b,
    decreases a,
{
    reveal_strlit("0123456789abcdef");
    lemma_decimal_digits(a / 10);
    lemma_decimal_digits(b / 10);
    if a < 10 && b < 10 {
        assert(decimal(a)[0] == hex_digit(a));
        assert(decimal(b)[0] == hex_digit(b));
    } else if a < 10 {
        assert(decimal(b).len() >= 2);
    } else if b < 10 {
        assert(decimal(a).len() >= 2);
    } else {
        let da = decimal(a / 10);
        let db = decimal(b / 10);
        assert(decimal(a).len() == da.len() + 1);
        assert(decimal(a).drop_last() =~= da);
        assert(decimal(b).drop_last() =~= db);
        assert(hex_digit(a % 10) == decimal(a).last());
        assert(hex_digit(b % 10) == decimal(b).last());
        lemma_decimal_injective(a / 10, b / 10);
    }
}

/// A text framed by its UTF-8 length, `:` and the text itself can be read
/// back: two framings that begin a sequence alike frame the same text and
/// are followed by the same rest.
pub proof fn lemma_framing_reads_back(s1: Seq<char>, r1: Seq<char>, s2: Seq<char>, r2: Seq<char>)
    requires
        decimal(utf8_len(s1)) + ":"@ + s1 + r1 == decimal(utf8_len(s2)) + ":"@ + s2 + r2,
    ensures
        s1 == s2,
        r1 == r2,
{
    reveal_strlit(":");
    let d1 = decimal(utf8_len(s1));
    let d2 = decimal(utf8_len(s2));
    let x = d1 + ":"@ + s1 + r1;
    let y = d2 + ":"@ + s2 + r2;
    lemma_decimal_digits(utf8_len(s1));
    lemma_decimal_digits(utf8_len(s2));
    assert(x[d1.len() as int] == ':');
    assert(y[d2.len() as int] == ':');
    if d1.len() < d2.len() {
        assert(y[d1.len() as int] == d2[d1.len() as int]);
        assert(false);
    }
    if d2.len() < d1.len() {
        assert(x[d2.len() as int] == d1[d2.len() as int]);
        assert(false);
    }
    assert(d1 =~= x.subrange(0, d1.len() as int));
    assert(d2 =~= y.subrange(0, d2.len() as int));
    lemma_decimal_injective(utf8_len(s1), utf8_len(s2));
    let p: int = d1.len() as int + 1;
    if s1.len() < s2.len() {
        assert(s1 =~= x.subrange(p, p + s1.len()));
        assert(s2.subrange(0, s1.len() as int) =~= y.subrange(p, p + s1.len()));
        let tail = s2.subrange(s1.len() as int, s2.len() as int);
        assert(s2 =~= s1 + tail);
        lemma_utf8_len_concat(s1, tail);
        lemma_utf8_len_concat(tail, Seq::empty());
        assert(false);
    }
    if s2.len() < s1.len() {
        assert(s2 =~= y.subrange(p, p + s2.len()));
        assert(s1.subrange(0, s2.len() as int) =~= x.subrange(p, p + s2.len()));
        let tail = s1.subrange(s2.len() as int, s1.len() as int);
        assert(s1 =~= s2 + tail);
        lemma_utf8_len_concat(s2, tail);
        lemma_utf8_len_concat(tail, Seq::empty());
        assert(false);
    }
    assert(s1 =~= x.subrange(p, p + s1.len()));
    assert(s2 =~= y.subrange(p, p + s2.len()));
    assert(r1 =~= x.subrange(p + s1.len(), x.len() as int));
    assert(r2 =~= y.subrange(p + s2.len(), y.len() as int));
}

/// The items' encodings are appended after what came before.
proof fn lemma_encode_items_extends(items: Seq<ValueModel>, i: int, acc: Seq<char>)
    ensures
        encode_items(items, i, acc) matches Ok(r) ==> r.len() >= acc.len() && r.subrange(0, acc.len() as int) == acc,
    decreases items.len() - i,
{
    if 0 <= i < items.len() {
        match encode_key(items[i]) {
            Err(_) => {},
            Ok(e) => {
                let acc2 = acc + crate::cache_key::framed(e);
                lemma_encode_items_extends(items, i + 1, acc2);
                if encode_items(items, i, acc) is Ok {
                    let r = encode_items(items, i, acc)->Ok_0;
                    assert(r.subrange(0, acc.len() as int) =~= r.subrange(0, acc2.len() as int).subrange(0, acc.len() as int));
                }
            },
        }
    } else {
        if encode_items(items, i, acc) is Ok {
            assert(acc.subrange(0, acc.len() as int) =~= acc);
        }
    }
}

/// Texts with the same key are the same text.
#[verifier::spinoff_prover]
#[verifier::rlimit(60)]
pub proof fn lemma_text_keys_tell_texts_apart(a: Seq<char>, b: Seq<char>)
    requires
        encode_key(ValueModel::Str(a)) == encode_key(ValueModel::Str(b)),
    ensures
        a == b,
{
    reveal_strlit("S");
    reveal_strlit(":");
    let ka = "S"@ + decimal(utf8_len(a)) + ":"@ + a;
    let kb = "S"@ + decimal(utf8_len(b)) + ":"@ + b;
    assert(ka == kb);
    assert(ka.drop_first() =~= decimal(utf8_len(a)) + ":"@ + a + Seq::<char>::empty());
    assert(kb.drop_first() =~= decimal(utf8_len(b)) + ":"@ + b + Seq::<char>::empty());
    lemma_framing_reads_back(a, Seq::empty(), b, Seq::empty());
}

/// A sequence that begins with `T`, a framed name and more reads, past the
/// `T`, as the framing of that name followed by the rest.
proof fn lemma_tag_prefix(k: Seq<char>, n: Seq<char>, x: Seq<char>)
    requires
        k.len() >= 1 + decimal(utf8_len(n)).len() + 1 + n.len() + x.len(),
        k.subrange(0, 1int + decimal(utf8_len(n)).len() + 1 + n.len() + x.len())
            == "T"@ + decimal(utf8_len(n)) + ":"@ + n + x,
    ensures
        k.drop_first() == decimal(utf8_len(n)) + ":"@ + n
            + k.subrange(1int + decimal(utf8_len(n)).len() + 1 + n.len(), k.len() as int),
{
    reveal_strlit("T");
    reveal_strlit(":");
    let d = decimal(utf8_len(n));
    let acc = "T"@ + d + ":"@ + n + x;
    let rest = k.subrange(1int + d.len() + 1 + n.len(), k.len() as int);
    assert forall|i: int| 0 <= i < k.len() - 1 implies #[trigger] k.drop_first()[i] == (d + ":"@ + n + rest)[i] by {
        if i < d.len() + 1 + n.len() {
            assert(k[i + 1] == k.subrange(0, acc.len() as int)[i + 1]);
            assert(acc[i + 1] == (d + ":"@ + n)[i]);
        }
    }
    assert(k.drop_first() =~= d + ":"@ + n + rest);
}

/// Tags with the same key have the same name: a call on one tag is never
/// answered from the cached result of a call on a tag of another name.
#[verifier::spinoff_prover]
#[verifier::rlimit(60)]
pub proof fn lemma_tag_keys_tell_names_apart(n1: Seq<char>, f1: Seq<ValueModel>, n2: Seq<char>, f2: Seq<ValueModel>)
    requires
        encode_key(ValueModel::Tag { name: n1, fields: f1 }) is Ok,
        encode_key(ValueModel::Tag { name: n1, fields: f1 }) == encode_key(ValueModel::Tag { name: n2, fields: f2 }),
    ensures
        n1 == n2,
{
    reveal_strlit("T");
    reveal_strlit(":");
    let acc1 = "T"@ + decimal(utf8_len(n1)) + ":"@ + n1 + decimal(f1.len());
    let acc2 = "T"@ + decimal(utf8_len(n2)) + ":"@ + n2 + decimal(f2.len());
    let k = encode_key(ValueModel::Tag { name: n1, fields: f1 })->Ok_0;
    assert(encode_items(f1, 0, acc1) == Ok::<Seq<char>, Seq<char>>(k));
    assert(encode_items(f2, 0, acc2) == Ok::<Seq<char>, Seq<char>>(k));
    assert(k.len() >= acc1.len() && k.subrange(0, acc1.len() as int) == acc1) by {
        lemma_encode_items_extends(f1, 0, acc1);
    }
    assert(k.len() >= acc2.len() && k.subrange(0, acc2.len() as int) == acc2) by {
        lemma_encode_items_extends(f2, 0, acc2);
    }
    lemma_tag_prefix(k, n1, decimal(f1.len()));
    lemma_tag_prefix(k, n2, decimal(f2.len()));
    let rest1 = k.subrange(1int + decimal(utf8_len(n1)).len() + 1 + n1.len(), k.len() as int);
    let rest2 = k.subrange(1int + decimal(utf8_len(n2)).len() + 1 + n2.len(), k.len() as int);
    lemma_framing_reads_back(n1, rest1, n2, rest2);
}

/// The key of a call tells functions apart: two calls with the same key
/// call functions of the same name.
#[verifier::spinoff_prover]
#[verifier::rlimit(60)]
pub proof fn lemma_call_keys_tell_functions_apart(f1: Seq<char>, a1: Seq<ValueModel>, f2: Seq<char>, a2: Seq<ValueModel>)
    requires
        crate::cache_key::call_key(f1, a1) is Ok,
        crate::cache_key::call_key(f1, a1) == crate::cache_key::call_key(f2, a2),
    ensures
        f1 == f2,
{
    reveal_strlit(":");
    let acc1 = decimal(utf8_len(f1)) + ":"@ + f1 + decimal(a1.len());
    let acc2 = decimal(utf8_len(f2)) + ":"@ + f2 + decimal(a2.len());
    lemma_encode_items_extends(a1, 0, acc1);
    lemma_encode_items_extends(a2, 0, acc2);
    let k = crate::cache_key::call_key(f1, a1)->Ok_0;
    let d1 = decimal(utf8_len(f1));
    let d2 = decimal(utf8_len(f2));
    let rest1 = k.subrange((d1.len() + 1 + f1.len()) as int, k.len() as int);
    let rest2 = k.subrange((d2.len() + 1 + f2.len()) as int, k.len() as int);
    assert(k.subrange(0, acc1.len() as int) == acc1);
    assert(k.subrange(0, acc2.len() as int) == acc2);
    assert(k =~= d1 + ":"@ + f1 + rest1) by {
        assert forall|i: int| 0 <= i < k.len() implies #[trigger] k[i] == (d1 + ":"@ + f1 + rest1)[i] by {
            if i < d1.len() + 1 + f1.len() {
                assert(k[i] == acc1[i]);
            }
        }
    }
    assert(k =~= d2 + ":"@ + f2 + rest2) by {
        assert forall|i: int| 0 <= i < k.len() implies #[trigger] k[i] == (d2 + ":"@ + f2 + rest2)[i] by {
            if i < d2.len() + 1 + f2.len() {
                assert(k[i] == acc2[i]);
            }
        }
    }
    lemma_framing_reads_back(f1, rest1, f2, rest2);
}

/// Integers with the same key are the same integer, and `true` and `false`
/// have different keys.
pub proof fn lemma_int_and_bool_keys(a: i64, b: i64)
    ensures
        encode_key(ValueModel::Int(a)) == encode_key(ValueModel::Int(b)) ==> a == b,
        encode_key(ValueModel::Bool(true)) != encode_key(ValueModel::Bool(false)),
{
    reveal_strlit("I");
    reveal_strlit("-");
    reveal_strlit("B1");
    reveal_strlit("B0");
    reveal_strlit("0123456789abcdef");
    if encode_key(ValueModel::Int(a)) == encode_key(ValueModel::Int(b)) {
        let sa = crate::text::signed_decimal(a as int);
        let sb = crate::text::signed_decimal(b as int);
        assert(("I"@ + sa).drop_first() =~= sa);
        assert(("I"@ + sb).drop_first() =~= sb);
        assert(sa == sb);
        lemma_decimal_digits((-(a as int)) as nat);
        lemma_decimal_digits((-(b as int)) as nat);
        lemma_decimal_digits(a as nat);
        lemma_decimal_digits(b as nat);
        lemma_decimal_first_not_minus(a as nat);
        lemma_decimal_first_not_minus(b as nat);
        lemma_decimal_first_not_minus((-(a as int)) as nat);
        lemma_decimal_first_not_minus((-(b as int)) as nat);
        if a < 0 && b < 0 {
            assert(sa.drop_first() =~= decimal((-(a as int)) as nat));
            assert(sb.drop_first() =~= decimal((-(b as int)) as nat));
            lemma_decimal_injective((-(a as int)) as nat, (-(b as int)) as nat);
        } else if a >= 0 && b >= 0 {
            lemma_decimal_injective(a as nat, b as nat);
        } else if a < 0 {
            assert(sa[0] == '-');
            assert(sb[0] == decimal(b as nat)[0]);
        } else {
            assert(sb[0] == '-');
            assert(sa[0] == decimal(a as nat)[0]);
        }
    }
    assert(encode_key(ValueModel::Bool(true))->Ok_0[1] != encode_key(ValueModel::Bool(false))->Ok_0[1]);
}

/// The entries' encodings are appended after what came before.
proof fn lemma_encode_entries_extends(e: Seq<(Seq<char>, ValueModel)>, i: int, acc: Seq<char>)
    ensures
        crate::cache_key::encode_entries(e, i, acc) matches Ok(r) ==> r.len() >= acc.len()
            && r.subrange(0, acc.len() as int) == acc,
    decreases e.len() - i,
{
    if 0 <= i < e.len() {
        match encode_key(e[i].1) {
            Err(_) => {},
            Ok(x) => {
                let acc2 = acc + crate::cache_key::framed(e[i].0) + crate::cache_key::framed(x);
                lemma_encode_entries_extends(e, i + 1, acc2);
                if crate::cache_key::encode_entries(e, i, acc) is Ok {
                    let r = crate::cache_key::encode_entries(e, i, acc)->Ok_0;
                    assert(r.subrange(0, acc.len() as int) =~= r.subrange(0, acc2.len() as int).subrange(0, acc.len() as int));
                }
            },
        }
    } else {
        if crate::cache_key::encode_entries(e, i, acc) is Ok {
            assert(acc.subrange(0, acc.len() as int) =~= acc);
        }
    }
}

/// The letter a key of a value of this kind begins with.
spec fn kind_letter(v: ValueModel) -> char {
    match v {
        ValueModel::Null => 'N',
        ValueModel::Bool(_) => 'B',
        ValueModel::Int(_) => 'I',
        ValueModel::Float(_) => 'F',
        ValueModel::Duration(_) => 'D',
        ValueModel::Str(_) => 'S',
        ValueModel::Bytes(_) => 'Y',
        ValueModel::Path(_) => 'P',
        ValueModel::Digest { .. } => 'G',
        ValueModel::Regex(_) => 'X',
        ValueModel::List(_) => 'L',
        ValueModel::Dict(_) => 'M',
        ValueModel::Record(_) => 'R',
        ValueModel::Module(_) => 'R',
        ValueModel::Tag { .. } => 'T',
        _ => '?',
    }
}

/// A key begins with the letter of its value's kind.
#[verifier::spinoff_prover]
#[verifier::rlimit(60)]
proof fn lemma_key_begins_with_kind(v: ValueModel)
    ensures
        encode_key(v) matches Ok(k) ==> k.len() >= 1 && k[0] == kind_letter(v),
{
    reveal_strlit("N");
    reveal_strlit("B1");
    reveal_strlit("B0");
    reveal_strlit("I");
    reveal_strlit("F");
    reveal_strlit("D");
    reveal_strlit("S");
    reveal_strlit("Y");
    reveal_strlit("P");
    reveal_strlit("G");
    reveal_strlit("X");
    reveal_strlit("L");
    reveal_strlit("M");
    reveal_strlit("R");
    reveal_strlit("T");
    match v {
        ValueModel::List(items) => {
            let acc = "L"@ + decimal(items.len());
            lemma_encode_items_extends(items, 0, acc);
            if encode_key(v) is Ok {
                let k = encode_key(v)->Ok_0;
                assert(k[0] == k.subrange(0, acc.len() as int)[0]);
            }
        },
        ValueModel::Tag { name, fields } => {
            let acc = "T"@ + decimal(utf8_len(name)) + ":"@ + name + decimal(fields.len());
            lemma_encode_items_extends(fields, 0, acc);
            if encode_key(v) is Ok {
                let k = encode_key(v)->Ok_0;
                assert(k[0] == k.subrange(0, acc.len() as int)[0]);
            }
        },
        ValueModel::Dict(e) => {
            let acc = "M"@ + decimal(e.len());
            lemma_encode_entries_extends(e, 0, acc);
            if encode_key(v) is Ok {
                let k = encode_key(v)->Ok_0;
                assert(k[0] == k.subrange(0, acc.len() as int)[0]);
            }
        },
        ValueModel::Record(e) => {
            let acc = "R"@ + decimal(e.len());
            lemma_encode_entries_extends(e, 0, acc);
            if encode_key(v) is Ok {
                let k = encode_key(v)->Ok_0;
                assert(k[0] == k.subrange(0, acc.len() as int)[0]);
            }
        },
        ValueModel::Module(e) => {
            let acc = "R"@ + decimal(e.len());
            lemma_encode_entries_extends(e, 0, acc);
            if encode_key(v) is Ok {
                let k = encode_key(v)->Ok_0;
                assert(k[0] == k.subrange(0, acc.len() as int)[0]);
            }
        },
        _ => {},
    }
}

/// Values of different kinds never share a key, so a call on a value of one
/// kind is never answered from the cached result of a call on a value of
/// another; records and modules are one kind here, keyed by their entries.
pub proof fn lemma_keys_tell_kinds_apart(v1: ValueModel, v2: ValueModel)
    requires
        encode_key(v1) is Ok,
        encode_key(v1) == encode_key(v2),
    ensures
        v1 is Null <==> v2 is Null,
        v1 is Bool <==> v2 is Bool,
        v1 is Int <==> v2 is Int,
        v1 is Float <==> v2 is Float,
        v1 is Duration <==> v2 is Duration,
        v1 is Str <==> v2 is Str,
        v1 is Bytes <==> v2 is Bytes,
        v1 is Path <==> v2 is Path,
        v1 is Digest <==> v2 is Digest,
        v1 is Regex <==> v2 is Regex,
        v1 is List <==> v2 is List,
        v1 is Dict <==> v2 is Dict,
        v1 is Tag <==> v2 is Tag,
        (v1 is Record || v1 is Module) <==> (v2 is Record || v2 is Module),
{
    lemma_key_begins_with_kind(v1);
    lemma_key_begins_with_kind(v2);
    assert(kind_letter(v1) == kind_letter(v2));
    assert(kind_letter(v1) != '?');
}

} // verus!
