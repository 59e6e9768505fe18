//! The wire form of structured content.
//!
//! The store exchanges documents in a compact textual wire form. This module
//! defines the canonical rendering of a `Value` — object fields emitted in
//! lexicographic name order, strings with the supported escapes, integers in
//! decimal — as a specification-level function, together with the executable
//! encoder proved against it, and the parser for incoming wire text.

use vstd::prelude::*;
use vstd::string::*;

use crate::value::{field_views, value_views, Field, SpecField, SpecValue, Value};

verus! {

broadcast use vstd::seq::group_seq_axioms, vstd::std_specs::vec::group_vec_axioms;

// ---------------------------------------------------------------------------
// Lexicographic order on character sequences
// ---------------------------------------------------------------------------

/// Whether `a` is lexicographically at most `b`, comparing scalar values
/// from position `i` on.
pub open spec fn lex_le_from(a: Seq<char>, b: Seq<char>, i: int) -> bool
    decreases a.len() - i,
{
    if i >= a.len() {
        true
    } else if i >= b.len() {
        false
    } else if (a[i] as u32) < (b[i] as u32) {
        true
    } else if (a[i] as u32) > (b[i] as u32) {
        false
    } else {
        lex_le_from(a, b, i + 1)
    }
}

/// Whether `a` is lexicographically at most `b`.
pub open spec fn lex_le(a: Seq<char>, b: Seq<char>) -> bool {
    lex_le_from(a, b, 0)
}

fn lex_le_from_exec(a: &str, b: &str, i: usize) -> (r: bool)
    ensures
        r == lex_le_from(a@, b@, i as int),
    decreases a@.len() - i as int,
{
    if i >= a.unicode_len() {
        true
    } else if i >= b.unicode_len() {
        false
    } else {
        let ca = a.get_char(i);
        let cb = b.get_char(i);
        if (ca as u32) < (cb as u32) {
            true
        } else if (ca as u32) > (cb as u32) {
            false
        } else {
            lex_le_from_exec(a, b, i + 1)
        }
    }
}

/// Compares two strings in the order the canonical wire form sorts
/// object field names by.
pub fn lex_le_exec(a: &str, b: &str) -> (r: bool)
    ensures
        r == lex_le(a@, b@),
{
    lex_le_from_exec(a, b, 0)
}

// ---------------------------------------------------------------------------
// The canonical order of object fields
// ---------------------------------------------------------------------------

/// The name of the field at position `i`, or the empty name out of range.
pub open spec fn name_at(fs: Seq<SpecField>, i: int) -> Seq<char> {
    if 0 <= i < fs.len() {
        fs[i].name
    } else {
        Seq::empty()
    }
}

/// Inserts position `k` into an already ordered sequence of positions,
/// keeping the positions ordered by field name.
pub open spec fn insert_idx(order: Seq<int>, fs: Seq<SpecField>, k: int) -> Seq<int>
    decreases order.len(),
{
    if order.len() == 0 {
        seq![k]
    } else if lex_le(name_at(fs, k), name_at(fs, order[0])) {
        seq![k] + order
    } else {
        seq![order[0]] + insert_idx(order.drop_first(), fs, k)
    }
}

/// The positions `0..n` of `fs`, ordered by field name.
pub open spec fn sorted_idx_upto(fs: Seq<SpecField>, n: int) -> Seq<int>
    decreases n,
{
    if n <= 0 {
        Seq::empty()
    } else {
        insert_idx(sorted_idx_upto(fs, n - 1), fs, n - 1)
    }
}

/// The positions of `fs` in the order the canonical wire form emits them.
pub open spec fn sorted_idx(fs: Seq<SpecField>) -> Seq<int> {
    sorted_idx_upto(fs, fs.len() as int)
}

fn insert_idx_exec(order: &Vec<usize>, from: usize, fields: &Vec<Field>, k: usize) -> (res: Vec<
    usize,
>)
    requires
        from <= order@.len(),
        k < fields@.len(),
        forall|j: int| from as int <= j < order@.len() ==> order@[j] < fields@.len(),
    ensures
        res@.len() == insert_idx(idx_view(order@.skip(from as int)), field_views(fields@), k as int).len(),
        forall|j: int|
            0 <= j < res@.len() ==> res@[j] as int == insert_idx(
                idx_view(order@.skip(from as int)),
                field_views(fields@),
                k as int,
            )[j],
        forall|j: int| 0 <= j < res@.len() ==> res@[j] < fields@.len(),
    decreases order@.len() - from as int,
{
    let ghost fs = field_views(fields@);
    let ghost tail = idx_view(order@.skip(from as int));
    if from >= order.len() {
        let mut res: Vec<usize> = Vec::new();
        res.push(k);
        proof {
            assert(tail =~= Seq::<int>::empty());
            assert(insert_idx(tail, fs, k as int) =~= seq![k as int]);
        }
        res
    } else {
        let head: usize = order[from];
        proof {
            assert(name_at(fs, k as int) == fields@[k as int]@.name);
            assert(name_at(fs, head as int) == fields@[head as int]@.name);
            assert(fields@[k as int]@.name == fields@[k as int].name@);
        }
        if lex_le_exec(fields[k].name.as_str(), fields[head].name.as_str()) {
            let mut res: Vec<usize> = Vec::new();
            res.push(k);
            let mut j: usize = from;
            while j < order.len()
                invariant
                    from <= j <= order@.len(),
                    k < fields@.len(),
                    forall|m: int| from as int <= m < order@.len() ==> order@[m] < fields@.len(),
                    res@.len() == 1 + j as int - from as int,
                    res@[0] == k,
                    forall|m: int| 1 <= m < res@.len() ==> res@[m] == order@[from as int + m - 1],
                decreases order@.len() - j as int,
            {
                res.push(order[j]);
                j = j + 1;
            }
            proof {
                assert(lex_le(name_at(fs, k as int), name_at(fs, tail[0])));
                assert(insert_idx(tail, fs, k as int) == seq![k as int] + tail);
                assert(idx_view(res@) =~= seq![k as int] + tail);
                lemma_idx_view_index(res@);
            }
            res
        } else {
            let rest = insert_idx_exec(order, from + 1, fields, k);
            let mut res: Vec<usize> = Vec::new();
            res.push(head);
            let mut j: usize = 0;
            while j < rest.len()
                invariant
                    j <= rest@.len(),
                    res@.len() == 1 + j as int,
                    res@[0] == head,
                    forall|m: int| 1 <= m < res@.len() ==> res@[m] == rest@[m - 1],
                decreases rest@.len() - j as int,
            {
                res.push(rest[j]);
                j = j + 1;
            }
            proof {
                assert(!lex_le(name_at(fs, k as int), name_at(fs, tail[0])));
                assert(tail.drop_first() =~= idx_view(order@.skip(from as int + 1)));
                assert(insert_idx(tail, fs, k as int) == seq![tail[0]] + insert_idx(
                    tail.drop_first(),
                    fs,
                    k as int,
                ));
                assert(idx_view(res@) =~= insert_idx(tail, fs, k as int));
                lemma_idx_view_index(res@);
            }
            res
        }
    }
}

proof fn lemma_insert_idx_len(order: Seq<int>, fs: Seq<SpecField>, k: int)
    ensures
        insert_idx(order, fs, k).len() == order.len() + 1,
    decreases order.len(),
{
    if order.len() > 0 && !lex_le(name_at(fs, k), name_at(fs, order[0])) {
        lemma_insert_idx_len(order.drop_first(), fs, k);
    }
}

/// The canonical emission order covers each field position exactly once,
/// so it has as many entries as the object has fields.
pub proof fn lemma_sorted_idx_upto_len(fs: Seq<SpecField>, n: int)
    requires
        n >= 0,
    ensures
        sorted_idx_upto(fs, n).len() == n,
    decreases n,
{
    if n > 0 {
        lemma_sorted_idx_upto_len(fs, n - 1);
        lemma_insert_idx_len(sorted_idx_upto(fs, n - 1), fs, n - 1);
    }
}

/// The positions of a sequence, as mathematical integers.
pub open spec fn idx_view(s: Seq<usize>) -> Seq<int> {
    s.map_values(|u: usize| u as int)
}

proof fn lemma_idx_view_index(s: Seq<usize>)
    ensures
        idx_view(s).len() == s.len(),
        forall|j: int| 0 <= j < s.len() ==> idx_view(s)[j] == s[j] as int,
{
}

/// Computes the canonical emission order of the given fields.
fn sorted_idx_exec(fields: &Vec<Field>) -> (res: Vec<usize>)
    ensures
        res@.len() == fields@.len(),
        res@.len() == sorted_idx(field_views(fields@)).len(),
        forall|j: int|
            0 <= j < res@.len() ==> res@[j] as int == sorted_idx(field_views(fields@))[j],
        forall|j: int| 0 <= j < res@.len() ==> res@[j] < fields@.len(),
{
    let ghost fs = field_views(fields@);
    let mut order: Vec<usize> = Vec::new();
    let mut n: usize = 0;
    while n < fields.len()
        invariant
            n <= fields@.len(),
            order@.len() == sorted_idx_upto(field_views(fields@), n as int).len(),
            forall|j: int|
                0 <= j < order@.len() ==> order@[j] as int == sorted_idx_upto(
                    field_views(fields@),
                    n as int,
                )[j],
            forall|j: int| 0 <= j < order@.len() ==> order@[j] < fields@.len(),
        decreases fields@.len() - n as int,
    {
        proof {
            assert(idx_view(order@.skip(0)) =~= sorted_idx_upto(field_views(fields@), n as int));
        }
        let next = insert_idx_exec(&order, 0, fields, n);
        order = next;
        n = n + 1;
    }
    proof {
        assert(sorted_idx(fs) == sorted_idx_upto(fs, fields@.len() as int));
        lemma_sorted_idx_upto_len(fs, fields@.len() as int);
    }
    order
}

// ---------------------------------------------------------------------------
// Decimal rendering of integers
// ---------------------------------------------------------------------------

/// The character for one decimal digit.
pub open spec fn digit_char(d: int) -> char {
    ((48 + d) as u8) as char
}

/// The decimal digits of a non-negative integer, most significant first.
pub open spec fn dec_digits(n: int) -> Seq<char>
    decreases n,
{
    if n < 10 {
        seq![digit_char(if n < 0 { 0 } else { n })]
    } else {
        dec_digits(n / 10) + seq![digit_char(n % 10)]
    }
}

/// The decimal rendering of an integer, with a leading minus sign when
/// negative.
pub open spec fn dec_int(i: int) -> Seq<char> {
    if i < 0 {
        seq!['-'] + dec_digits(-i)
    } else {
        dec_digits(i)
    }
}

fn push_digit(d: u64, out: &mut String)
    requires
        d < 10,
    ensures
        final(out)@ == old(out)@ + seq![digit_char(d as int)],
{
    let ghost base = out@;
    if d == 0 {
        out.append("0");
        proof { reveal_strlit("0"); }
    } else if d == 1 {
        out.append("1");
        proof { reveal_strlit("1"); }
    } else if d == 2 {
        out.append("2");
        proof { reveal_strlit("2"); }
    } else if d == 3 {
        out.append("3");
        proof { reveal_strlit("3"); }
    } else if d == 4 {
        out.append("4");
        proof { reveal_strlit("4"); }
    } else if d == 5 {
        out.append("5");
        proof { reveal_strlit("5"); }
    } else if d == 6 {
        out.append("6");
        proof { reveal_strlit("6"); }
    } else if d == 7 {
        out.append("7");
        proof { reveal_strlit("7"); }
    } else if d == 8 {
        out.append("8");
        proof { reveal_strlit("8"); }
    } else {
        out.append("9");
        proof { reveal_strlit("9"); }
    }
    proof {
        assert(out@ =~= base + seq![digit_char(d as int)]);
    }
}

/// Appends the decimal digits of `n` to `out`.
pub fn push_dec_u64(n: u64, out: &mut String)
    ensures
        final(out)@ == old(out)@ + dec_digits(n as int),
    decreases n,
{
    if n >= 10 {
        push_dec_u64(n / 10, out);
    }
    push_digit(n % 10, out);
    proof {
        if n < 10 {
            assert(n % 10 == n as int);
        }
    }
}

/// Appends the decimal rendering of `i` to `out`.
pub fn push_dec_i64(i: i64, out: &mut String)
    ensures
        final(out)@ == old(out)@ + dec_int(i as int),
{
    let ghost base = out@;
    if i < 0 {
        out.append("-");
        proof {
            reveal_strlit("-");
            assert(out@ =~= base + seq!['-']);
        }
        let m: u64 = if i == i64::MIN {
            9223372036854775808u64
        } else {
            (-i) as u64
        };
        push_dec_u64(m, out);
        proof {
            assert(m as int == -(i as int));
            assert(out@ =~= base + dec_int(i as int));
        }
    } else {
        push_dec_u64(i as u64, out);
    }
}

// ---------------------------------------------------------------------------
// String escaping
// ---------------------------------------------------------------------------

/// The wire rendering of one character inside a quoted string.
pub open spec fn esc_char(c: char) -> Seq<char> {
    if c == '"' {
        seq!['\\', '"']
    } else if c == '\\' {
        seq!['\\', '\\']
    } else if c == '\n' {
        seq!['\\', 'n']
    } else if c == '\r' {
        seq!['\\', 'r']
    } else if c == '\t' {
        seq!['\\', 't']
    } else {
        seq![c]
    }
}

/// The wire rendering of the first `i` characters of a string body.
pub open spec fn escape_upto(s: Seq<char>, i: int) -> Seq<char>
    decreases i,
{
    if i <= 0 {
        Seq::empty()
    } else {
        escape_upto(s, i - 1) + esc_char(s[i - 1])
    }
}

/// The wire rendering of a string body, between the quotes.
pub open spec fn escape(s: Seq<char>) -> Seq<char> {
    escape_upto(s, s.len() as int)
}

/// Appends the escaped rendering of `s` to `out`.
pub fn push_escaped(s: &str, out: &mut String)
    ensures
        final(out)@ == old(out)@ + escape(s@),
{
    let ghost base = out@;
    let len = s.unicode_len();
    let mut i: usize = 0;
    while i < len
        invariant
            i <= len,
            len == s@.len(),
            out@ == base + escape_upto(s@, i as int),
        decreases len - i,
    {
        let ghost before = out@;
        let c = s.get_char(i);
        if c == '"' {
            out.append("\\\"");
            proof { reveal_strlit("\\\""); }
        } else if c == '\\' {
            out.append("\\\\");
            proof { reveal_strlit("\\\\"); }
        } else if c == '\n' {
            out.append("\\n");
            proof { reveal_strlit("\\n"); }
        } else if c == '\r' {
            out.append("\\r");
            proof { reveal_strlit("\\r"); }
        } else if c == '\t' {
            out.append("\\t");
            proof { reveal_strlit("\\t"); }
        } else {
            let piece = s.substring_char(i, i + 1);
            out.append(piece);
            proof {
                assert(piece@ =~= seq![s@[i as int]]);
            }
        }
        proof {
            assert(out@ =~= before + esc_char(s@[i as int]));
            assert(out@ =~= base + escape_upto(s@, i as int + 1));
        }
        i = i + 1;
    }
}

// ---------------------------------------------------------------------------
// The canonical wire form
// ---------------------------------------------------------------------------

/// The wire rendering of one quoted string.
pub open spec fn quoted(s: Seq<char>) -> Seq<char> {
    seq!['"'] + escape(s) + seq!['"']
}

/// The canonical wire form of a value: no whitespace, object fields in
/// lexicographic name order, strings quoted with the supported escapes,
/// integers in decimal.
pub open spec fn spec_encode(v: SpecValue) -> Seq<char>
    decreases v, 0int,
{
    match v {
        SpecValue::Null => seq!['n', 'u', 'l', 'l'],
        SpecValue::Bool(b) => if b {
            seq!['t', 'r', 'u', 'e']
        } else {
            seq!['f', 'a', 'l', 's', 'e']
        },
        SpecValue::Int(i) => dec_int(i),
        SpecValue::Str(s) => quoted(s),
        SpecValue::Array(elems) => seq!['['] + enc_elems_upto(elems, elems.len() as int)
            + seq![']'],
        SpecValue::Object(fs) => seq!['{'] + enc_fields_upto(fs, sorted_idx(fs), fs.len() as int)
            + seq!['}'],
    }
}

/// The wire rendering of the first `k` elements of an array body,
/// separated by commas.
pub open spec fn enc_elems_upto(elems: Seq<SpecValue>, k: int) -> Seq<char>
    decreases elems, k,
{
    if k <= 0 {
        Seq::empty()
    } else {
        let head = if 0 <= k - 1 < elems.len() {
            spec_encode(elems[k - 1])
        } else {
            Seq::empty()
        };
        enc_elems_upto(elems, k - 1) + (if k - 1 > 0 {
            seq![',']
        } else {
            Seq::<char>::empty()
        }) + head
    }
}

/// The wire rendering of the first `k` fields of an object body in the
/// order given, separated by commas.
pub open spec fn enc_fields_upto(fs: Seq<SpecField>, order: Seq<int>, k: int) -> Seq<char>
    decreases fs, k,
{
    if k <= 0 {
        Seq::empty()
    } else {
        let head = if 0 <= k - 1 < order.len() && 0 <= order[k - 1] < fs.len() {
            quoted(fs[order[k - 1]].name) + seq![':'] + spec_encode(fs[order[k - 1]].value)
        } else {
            Seq::empty()
        };
        enc_fields_upto(fs, order, k - 1) + (if k - 1 > 0 {
            seq![',']
        } else {
            Seq::<char>::empty()
        }) + head
    }
}

fn encode_elems(elems: &Vec<Value>, out: &mut String)
    ensures
        final(out)@ == old(out)@ + enc_elems_upto(value_views(elems@), elems@.len() as int),
    decreases *elems,
{
    let ghost vs = value_views(elems@);
    let ghost base = out@;
    let mut i: usize = 0;
    while i < elems.len()
        invariant
            i <= elems@.len(),
            vs == value_views(elems@),
            out@ == base + enc_elems_upto(vs, i as int),
        decreases elems@.len() - i as int,
    {
        let ghost before = out@;
        if i > 0 {
            out.append(",");
            proof {
                reveal_strlit(",");
                assert(out@ =~= before + seq![',']);
            }
        }
        encode_value(&elems[i], out);
        proof {
            assert(vs[i as int] == elems@[i as int]@);
            assert(out@ =~= base + enc_elems_upto(vs, i as int + 1));
        }
        i = i + 1;
    }
}

fn encode_fields(fields: &Vec<Field>, order: &Vec<usize>, out: &mut String)
    requires
        order@.len() == field_views(fields@).len(),
        forall|j: int|
            0 <= j < order@.len() ==> order@[j] as int == sorted_idx(field_views(fields@))[j],
        forall|j: int| 0 <= j < order@.len() ==> order@[j] < fields@.len(),
    ensures
        final(out)@ == old(out)@ + enc_fields_upto(
            field_views(fields@),
            sorted_idx(field_views(fields@)),
            fields@.len() as int,
        ),
    decreases *fields,
{
    let ghost fs = field_views(fields@);
    let ghost sorder = sorted_idx(fs);
    proof {
        lemma_sorted_idx_upto_len(fs, fs.len() as int);
    }
    let ghost base = out@;
    let mut i: usize = 0;
    while i < order.len()
        invariant
            i <= order@.len(),
            fs == field_views(fields@),
            sorder == sorted_idx(fs),
            order@.len() == fs.len(),
            sorder.len() == fs.len(),
            forall|j: int| 0 <= j < order@.len() ==> order@[j] as int == sorder[j],
            forall|j: int| 0 <= j < order@.len() ==> order@[j] < fields@.len(),
            out@ == base + enc_fields_upto(fs, sorder, i as int),
        decreases order@.len() - i as int,
    {
        let ghost before = out@;
        if i > 0 {
            out.append(",");
            proof {
                reveal_strlit(",");
                assert(out@ =~= before + seq![',']);
            }
        }
        let pos: usize = order[i];
        out.append("\"");
        let ghost afterq = out@;
        proof {
            reveal_strlit("\"");
            assert(afterq =~= before + (if i > 0 { seq![','] } else { Seq::<char>::empty() })
                + seq!['"']);
        }
        push_escaped(fields[pos].name.as_str(), out);
        out.append("\":");
        let ghost aftern = out@;
        proof {
            reveal_strlit("\":");
            assert(fields@[pos as int]@.name == fields@[pos as int].name@);
            assert(aftern =~= before + (if i > 0 { seq![','] } else { Seq::<char>::empty() })
                + quoted(fs[pos as int].name) + seq![':']);
        }
        encode_value(&fields[pos].value, out);
        proof {
            assert(fs[pos as int].value == fields@[pos as int].value@);
            assert(out@ =~= base + enc_fields_upto(fs, sorder, i as int + 1));
        }
        i = i + 1;
    }
}

/// Appends the canonical wire form of `v` to `out`.
pub fn encode_value(v: &Value, out: &mut String)
    ensures
        final(out)@ == old(out)@ + spec_encode(v@),
    decreases *v, 0int,
{
    let ghost base = out@;
    match v {
        Value::Null => {
            out.append("null");
            proof {
                reveal_strlit("null");
                assert(out@ =~= base + spec_encode(v@));
            }
        },
        Value::Bool(b) => {
            if *b {
                out.append("true");
                proof {
                    reveal_strlit("true");
                    assert(out@ =~= base + spec_encode(v@));
                }
            } else {
                out.append("false");
                proof {
                    reveal_strlit("false");
                    assert(out@ =~= base + spec_encode(v@));
                }
            }
        },
        Value::Int(i) => {
            push_dec_i64(*i, out);
        },
        Value::Str(s) => {
            out.append("\"");
            proof { reveal_strlit("\""); }
            push_escaped(s.as_str(), out);
            out.append("\"");
            proof {
                assert(out@ =~= base + quoted(s@));
            }
        },
        Value::Array(elems) => {
            out.append("[");
            proof { reveal_strlit("["); }
            encode_elems(elems, out);
            out.append("]");
            proof {
                reveal_strlit("]");
                assert(out@ =~= base + spec_encode(v@));
            }
        },
        Value::Object(fields) => {
            let order = sorted_idx_exec(fields);
            out.append("{");
            proof { reveal_strlit("{"); }
            encode_fields(fields, &order, out);
            out.append("}");
            proof {
                reveal_strlit("}");
                assert(out@ =~= base + spec_encode(v@));
            }
        },
    }
}

/// The canonical wire form of `v`, as a fresh string.
pub fn encode_to_string(v: &Value) -> (res: String)
    ensures
        res@ == spec_encode(v@),
{
    let mut out = String::new();
    encode_value(v, &mut out);
    proof {
        assert(out@ =~= spec_encode(v@));
    }
    out
}

// ---------------------------------------------------------------------------
// Parsing wire text
// ---------------------------------------------------------------------------

/// Whether `c` is insignificant whitespace between wire tokens.
pub open spec fn is_ws(c: char) -> bool {
    c == ' ' || c == '\n' || c == '\r' || c == '\t'
}

/// The position of the first character at or after `i` that is not
/// insignificant whitespace.
pub open spec fn sp_ws(s: Seq<char>, i: int) -> int
    decreases s.len() - i,
{
    if 0 <= i < s.len() && is_ws(s[i]) {
        sp_ws(s, i + 1)
    } else {
        i
    }
}

/// The string body read from position `i` (just inside the quotes) up to
/// the closing quote: the characters collected so far in `acc`, the
/// supported escapes resolved, and the position just past the quote.
pub open spec fn sp_string(s: Seq<char>, i: int, acc: Seq<char>) -> Option<(Seq<char>, int)>
    decreases s.len() - i,
{
    if i < 0 || i >= s.len() {
        None
    } else if s[i] == '"' {
        Some((acc, i + 1))
    } else if s[i] == '\\' {
        if i + 1 >= s.len() {
            None
        } else {
            let e = s[i + 1];
            if e == '"' || e == '\\' || e == '/' {
                sp_string(s, i + 2, acc.push(e))
            } else if e == 'n' {
                sp_string(s, i + 2, acc.push('\n'))
            } else if e == 'r' {
                sp_string(s, i + 2, acc.push('\r'))
            } else if e == 't' {
                sp_string(s, i + 2, acc.push('\t'))
            } else {
                None
            }
        }
    } else {
        sp_string(s, i + 1, acc.push(s[i]))
    }
}

/// The run of decimal digits read from position `i` into the accumulator
/// `acc`, refusing a value beyond the widest unsigned machine word, and
/// the position after the run; `got` says whether a digit was read yet.
pub open spec fn sp_digits(s: Seq<char>, i: int, acc: u64, got: bool) -> Option<(u64, int)>
    decreases s.len() - i,
{
    if 0 <= i < s.len() && 48 <= s[i] as u32 <= 57 {
        let d = ((s[i] as u32) - 48) as u64;
        if acc > (u64::MAX - d) / 10 {
            None
        } else {
            sp_digits(s, i + 1, (acc * 10 + d) as u64, true)
        }
    } else {
        if got {
            Some((acc, i))
        } else {
            None
        }
    }
}

/// The integer read from position `i`: an optional minus sign and a digit
/// run, refused when the value does not fit the library's signed integers.
pub open spec fn sp_number(s: Seq<char>, i: int) -> Option<(i64, int)> {
    if 0 <= i < s.len() && s[i] == '-' {
        match sp_digits(s, i + 1, 0, false) {
            Some((acc, j)) => if acc > 9223372036854775808u64 {
                None
            } else if acc == 9223372036854775808u64 {
                Some((i64::MIN, j))
            } else {
                Some(((0 - acc as int) as i64, j))
            },
            None => None,
        }
    } else {
        match sp_digits(s, i, 0, false) {
            Some((acc, j)) => if acc > 9223372036854775807u64 {
                None
            } else {
                Some((acc as i64, j))
            },
            None => None,
        }
    }
}

fn skip_ws(s: &str, i: usize) -> (j: usize)
    requires
        i <= s@.len(),
    ensures
        i <= j <= s@.len(),
        j as int == sp_ws(s@, i as int),
{
    let len = s.unicode_len();
    let mut j = i;
    loop
        invariant
            i <= j <= len,
            len == s@.len(),
            sp_ws(s@, i as int) == sp_ws(s@, j as int),
        decreases len - j,
    {
        if j >= len {
            return j;
        }
        let c = s.get_char(j);
        if c == ' ' || c == '\n' || c == '\r' || c == '\t' {
            j = j + 1;
        } else {
            return j;
        }
    }
}

fn parse_string_at(s: &str, i: usize) -> (r: Result<(String, usize), ()>)
    requires
        i <= s@.len(),
    ensures
        r matches Ok(p) ==> i < p.1 <= s@.len() && i < s@.len() && s@[i as int] == '"'
            && sp_string(s@, i as int + 1, Seq::empty()) == Some((p.0@, p.1 as int)),
        r is Err ==> (i >= s@.len() || s@[i as int] != '"' || sp_string(
            s@,
            i as int + 1,
            Seq::empty(),
        ) is None),
{
    let len = s.unicode_len();
    if i >= len {
        return Err(());
    }
    if s.get_char(i) != '"' {
        return Err(());
    }
    let mut out = String::new();
    let mut cur = i + 1;
    loop
        invariant
            i < cur <= len,
            len == s@.len(),
            s@[i as int] == '"',
            sp_string(s@, i as int + 1, Seq::empty()) == sp_string(s@, cur as int, out@),
        decreases len - cur,
    {
        if cur >= len {
            return Err(());
        }
        let c = s.get_char(cur);
        if c == '"' {
            return Ok((out, cur + 1));
        }
        let ghost before = out@;
        if c == '\\' {
            if cur + 1 >= len {
                return Err(());
            }
            let e = s.get_char(cur + 1);
            if e == '"' {
                out.append("\"");
                proof {
                    reveal_strlit("\"");
                    assert(out@ =~= before.push('"'));
                }
            } else if e == '\\' {
                out.append("\\");
                proof {
                    reveal_strlit("\\");
                    assert(out@ =~= before.push('\\'));
                }
            } else if e == '/' {
                out.append("/");
                proof {
                    reveal_strlit("/");
                    assert(out@ =~= before.push('/'));
                }
            } else if e == 'n' {
                out.append("\n");
                proof {
                    reveal_strlit("\n");
                    assert(out@ =~= before.push('\n'));
                }
            } else if e == 'r' {
                out.append("\r");
                proof {
                    reveal_strlit("\r");
                    assert(out@ =~= before.push('\r'));
                }
            } else if e == 't' {
                out.append("\t");
                proof {
                    reveal_strlit("\t");
                    assert(out@ =~= before.push('\t'));
                }
            } else {
                return Err(());
            }
            cur = cur + 2;
        } else {
            let piece = s.substring_char(cur, cur + 1);
            out.append(piece);
            proof {
                assert(out@ =~= before.push(s@[cur as int]));
            }
            cur = cur + 1;
        }
    }
}

fn parse_number_at(s: &str, i: usize) -> (r: Result<(i64, usize), ()>)
    requires
        i <= s@.len(),
    ensures
        r matches Ok(p) ==> i < p.1 <= s@.len() && sp_number(s@, i as int) == Some((
            p.0,
            p.1 as int,
        )),
        r is Err ==> sp_number(s@, i as int) is None,
{
    let len = s.unicode_len();
    if i >= len {
        return Err(());
    }
    let mut cur = i;
    let mut neg = false;
    if s.get_char(cur) == '-' {
        neg = true;
        cur = cur + 1;
    }
    let ghost dstart = cur as int;
    let mut acc: u64 = 0;
    let mut got = false;
    loop
        invariant
            i <= cur <= len,
            dstart <= cur as int,
            len == s@.len(),
            got ==> cur > i,
            neg ==> (cur > i && i < len && s@[i as int] == '-' && dstart == i as int + 1),
            !neg ==> (dstart == i as int && (i < len ==> s@[i as int] != '-')),
            sp_digits(s@, dstart, 0, false) == sp_digits(s@, cur as int, acc, got),
        ensures
            i <= cur <= len,
            got ==> cur > i,
            sp_digits(s@, dstart, 0, false) == sp_digits(s@, cur as int, acc, got),
            cur as int >= s@.len() || !(48 <= s@[cur as int] as u32 <= 57),
        decreases len - cur,
    {
        if cur >= len {
            break ;
        }
        let c = s.get_char(cur);
        if (c as u32) < 48 || (c as u32) > 57 {
            break ;
        }
        let d: u64 = ((c as u32) - 48) as u64;
        if acc > (u64::MAX - d) / 10 {
            return Err(());
        }
        acc = acc * 10 + d;
        got = true;
        cur = cur + 1;
    }
    proof {
        assert(sp_digits(s@, dstart, 0, false) == (if got {
            Some((acc, cur as int))
        } else {
            None::<(u64, int)>
        }));
    }
    if !got {
        return Err(());
    }
    if neg {
        if acc > 9223372036854775808u64 {
            Err(())
        } else if acc == 9223372036854775808u64 {
            Ok((i64::MIN, cur))
        } else {
            Ok((-(acc as i64), cur))
        }
    } else {
        if acc > 9223372036854775807u64 {
            Err(())
        } else {
            Ok((acc as i64, cur))
        }
    }
}

/// The value read from position `i`, which must not be whitespace, and
/// the position just past it. Positions that a sub-parse hands back are
/// checked to have advanced, so the reading is refused wherever that
/// cannot hold.
pub open spec fn sp_value(s: Seq<char>, i: int) -> Option<(SpecValue, int)>
    decreases s.len() - i, 0int,
{
    if i < 0 || i >= s.len() {
        None
    } else {
        let c = s[i];
        if c == 'n' {
            if i + 4 <= s.len() && s[i + 1] == 'u' && s[i + 2] == 'l' && s[i + 3] == 'l' {
                Some((SpecValue::Null, i + 4))
            } else {
                None
            }
        } else if c == 't' {
            if i + 4 <= s.len() && s[i + 1] == 'r' && s[i + 2] == 'u' && s[i + 3] == 'e' {
                Some((SpecValue::Bool(true), i + 4))
            } else {
                None
            }
        } else if c == 'f' {
            if i + 5 <= s.len() && s[i + 1] == 'a' && s[i + 2] == 'l' && s[i + 3] == 's' && s[i
                + 4] == 'e' {
                Some((SpecValue::Bool(false), i + 5))
            } else {
                None
            }
        } else if c == '"' {
            match sp_string(s, i + 1, Seq::empty()) {
                Some((text, j)) => Some((SpecValue::Str(text), j)),
                None => None,
            }
        } else if c == '-' || 48 <= c as u32 <= 57 {
            match sp_number(s, i) {
                Some((n, j)) => Some((SpecValue::Int(n as int), j)),
                None => None,
            }
        } else if c == '[' {
            let cur = sp_ws(s, i + 1);
            if 0 <= cur < s.len() && s[cur] == ']' {
                Some((SpecValue::Array(Seq::empty()), cur + 1))
            } else if i < cur < s.len() {
                match sp_elems(s, cur, Seq::empty()) {
                    Some((elems, j)) => Some((SpecValue::Array(elems), j)),
                    None => None,
                }
            } else {
                None
            }
        } else if c == '{' {
            let cur = sp_ws(s, i + 1);
            if 0 <= cur < s.len() && s[cur] == '}' {
                Some((SpecValue::Object(Seq::empty()), cur + 1))
            } else if i < cur < s.len() {
                match sp_fields(s, cur, Seq::empty()) {
                    Some((fields, j)) => Some((SpecValue::Object(fields), j)),
                    None => None,
                }
            } else {
                None
            }
        } else {
            None
        }
    }
}

/// The remaining elements of an array body read from position `i` (at an
/// element), appended to `acc`, and the position just past the `]`.
pub open spec fn sp_elems(s: Seq<char>, i: int, acc: Seq<SpecValue>) -> Option<(Seq<SpecValue>, int)>
    decreases s.len() - i, 1int,
{
    match sp_value(s, i) {
        Some((v, j)) => if j <= i {
            None
        } else {
            let cur = sp_ws(s, j);
            if !(0 <= cur < s.len()) {
                None
            } else if s[cur] == ']' {
                Some((acc.push(v), cur + 1))
            } else if s[cur] == ',' {
                let next = sp_ws(s, cur + 1);
                if i < next < s.len() {
                    sp_elems(s, next, acc.push(v))
                } else {
                    None
                }
            } else {
                None
            }
        },
        None => None,
    }
}

/// The remaining fields of an object body read from position `i` (at a
/// field name), appended to `acc`, and the position just past the `}`.
pub open spec fn sp_fields(s: Seq<char>, i: int, acc: Seq<SpecField>) -> Option<(Seq<SpecField>, int)>
    decreases s.len() - i, 1int,
{
    if !(0 <= i < s.len() && s[i] == '"') {
        None
    } else {
        match sp_string(s, i + 1, Seq::empty()) {
            Some((name, j)) => {
                let cur = sp_ws(s, j);
                if !(0 <= cur < s.len() && s[cur] == ':') {
                    None
                } else {
                    let vpos = sp_ws(s, cur + 1);
                    if !(i < vpos < s.len()) {
                        None
                    } else {
                        match sp_value(s, vpos) {
                            Some((v, k)) => if k <= i {
                                None
                            } else {
                                let after = sp_ws(s, k);
                                if !(0 <= after < s.len()) {
                                    None
                                } else if s[after] == '}' {
                                    Some((acc.push(SpecField { name, value: v }), after + 1))
                                } else if s[after] == ',' {
                                    let next = sp_ws(s, after + 1);
                                    if i < next < s.len() {
                                        sp_fields(s, next, acc.push(SpecField { name, value: v }))
                                    } else {
                                        None
                                    }
                                } else {
                                    None
                                }
                            },
                            None => None,
                        }
                    }
                }
            },
            None => None,
        }
    }
}

/// Parses one wire value starting at position `i`, which must not be
/// whitespace. On success the returned position is just past the value.
fn parse_value_at(s: &str, i: usize) -> (r: Result<(Value, usize), ()>)
    requires
        i <= s@.len(),
    ensures
        r matches Ok(p) ==> i < p.1 <= s@.len() && sp_value(s@, i as int) == Some((
            p.0@,
            p.1 as int,
        )),
        r is Err ==> sp_value(s@, i as int) is None,
    decreases s@.len() - i as int,
{
    let len = s.unicode_len();
    if i >= len {
        return Err(());
    }
    let c = s.get_char(i);
    if c == 'n' {
        if len - i < 4 {
            return Err(());
        }
        if s.get_char(i + 1) == 'u' && s.get_char(i + 2) == 'l' && s.get_char(i + 3) == 'l' {
            Ok((Value::Null, i + 4))
        } else {
            Err(())
        }
    } else if c == 't' {
        if len - i < 4 {
            return Err(());
        }
        if s.get_char(i + 1) == 'r' && s.get_char(i + 2) == 'u' && s.get_char(i + 3) == 'e' {
            Ok((Value::Bool(true), i + 4))
        } else {
            Err(())
        }
    } else if c == 'f' {
        if len - i < 5 {
            return Err(());
        }
        if s.get_char(i + 1) == 'a' && s.get_char(i + 2) == 'l' && s.get_char(i + 3) == 's'
            && s.get_char(i + 4) == 'e' {
            Ok((Value::Bool(false), i + 5))
        } else {
            Err(())
        }
    } else if c == '"' {
        match parse_string_at(s, i) {
            Ok((text, j)) => Ok((Value::Str(text), j)),
            Err(()) => Err(()),
        }
    } else if c == '-' || ((c as u32) >= 48 && (c as u32) <= 57) {
        match parse_number_at(s, i) {
            Ok((n, j)) => Ok((Value::Int(n), j)),
            Err(()) => Err(()),
        }
    } else if c == '[' {
        let mut elems: Vec<Value> = Vec::new();
        let mut cur = skip_ws(s, i + 1);
        if cur < len && s.get_char(cur) == ']' {
            proof {
                assert(value_views(elems@) =~= Seq::<SpecValue>::empty());
            }
            return Ok((Value::Array(elems), cur + 1));
        }
        proof {
            assert(value_views(elems@) =~= Seq::<SpecValue>::empty());
        }
        loop
            invariant
                i < cur <= len,
                len == s@.len(),
                sp_value(s@, i as int) == (match sp_elems(s@, cur as int, value_views(elems@)) {
                    Some((vs, j)) => Some((SpecValue::Array(vs), j)),
                    None => None,
                }),
            decreases len - cur,
        {
            let ghost cur0 = cur as int;
            let ghost acc0 = value_views(elems@);
            let parsed = parse_value_at(s, cur);
            match parsed {
                Ok((v, j)) => {
                    let ghost gv = v@;
                    elems.push(v);
                    proof {
                        assert(value_views(elems@) =~= acc0.push(gv));
                    }
                    cur = skip_ws(s, j);
                },
                Err(()) => {
                    return Err(());
                },
            }
            if cur >= len {
                return Err(());
            }
            let d = s.get_char(cur);
            if d == ']' {
                return Ok((Value::Array(elems), cur + 1));
            }
            if d != ',' {
                return Err(());
            }
            cur = skip_ws(s, cur + 1);
        }
    } else if c == '{' {
        let mut fields: Vec<Field> = Vec::new();
        let mut cur = skip_ws(s, i + 1);
        if cur < len && s.get_char(cur) == '}' {
            proof {
                assert(field_views(fields@) =~= Seq::<SpecField>::empty());
            }
            return Ok((Value::Object(fields), cur + 1));
        }
        proof {
            assert(field_views(fields@) =~= Seq::<SpecField>::empty());
        }
        loop
            invariant
                i < cur <= len,
                len == s@.len(),
                sp_value(s@, i as int) == (match sp_fields(s@, cur as int, field_views(fields@)) {
                    Some((fs, j)) => Some((SpecValue::Object(fs), j)),
                    None => None,
                }),
            decreases len - cur,
        {
            let ghost fpos = cur as int;
            let ghost acc0 = field_views(fields@);
            let name;
            match parse_string_at(s, cur) {
                Ok((text, j)) => {
                    name = text;
                    cur = skip_ws(s, j);
                },
                Err(()) => {
                    return Err(());
                },
            }
            if cur >= len || s.get_char(cur) != ':' {
                return Err(());
            }
            cur = skip_ws(s, cur + 1);
            let ghost vpos = cur as int;
            match parse_value_at(s, cur) {
                Ok((v, j)) => {
                    let ghost gname = name@;
                    let ghost gv = v@;
                    fields.push(Field { name, value: v });
                    proof {
                        assert(field_views(fields@) =~= acc0.push(
                            SpecField { name: gname, value: gv },
                        ));
                    }
                    cur = skip_ws(s, j);
                },
                Err(()) => {
                    return Err(());
                },
            }
            if cur >= len {
                return Err(());
            }
            let d = s.get_char(cur);
            if d == '}' {
                return Ok((Value::Object(fields), cur + 1));
            }
            if d != ',' {
                return Err(());
            }
            cur = skip_ws(s, cur + 1);
        }
    } else {
        Err(())
    }
}

/// The value one complete wire text denotes: one value between optional
/// whitespace, or nothing where the text is not of that form.
pub open spec fn sp_text(s: Seq<char>) -> Option<SpecValue> {
    match sp_value(s, sp_ws(s, 0)) {
        Some((v, j)) => if sp_ws(s, j) == s.len() {
            Some(v)
        } else {
            None
        },
        None => None,
    }
}

/// Parses a complete wire text into a value: exactly the reading `sp_text`
/// gives.
///
/// The supported wire grammar is the one `spec_encode` emits, plus
/// insignificant whitespace between tokens, the `\/` escape, and redundant
/// leading zeros in integers; fractional numbers, exponents and `\u` escapes
/// are not part of the library's data model and are rejected. Anything but
/// one value with optional surrounding whitespace is rejected.
pub fn parse_text(s: &str) -> (r: Option<Value>)
    ensures
        match r {
            Some(v) => sp_text(s@) == Some(v@),
            None => sp_text(s@) is None,
        },
{
    let len = s.unicode_len();
    let start = skip_ws(s, 0);
    match parse_value_at(s, start) {
        Ok((v, j)) => {
            let end = skip_ws(s, j);
            if end == len {
                Some(v)
            } else {
                None
            }
        },
        Err(()) => None,
    }
}

/// Parses a complete wire text that must hold an object, yielding its
/// fields in wire order.
pub fn parse_object_text(s: &str) -> (r: Option<Vec<Field>>)
    ensures
        match r {
            Some(fields) => sp_text(s@) == Some(SpecValue::Object(field_views(fields@))),
            None => !(sp_text(s@) matches Some(v) && v is Object),
        },
{
    match parse_text(s) {
        Some(v) => match v {
            Value::Object(fields) => Some(fields),
            _ => None,
        },
        None => None,
    }
}

/// The canonical wire form of an object with the given fields.
pub fn encode_object_to_string(fields: &Vec<Field>) -> (res: String)
    ensures
        res@ == spec_encode(SpecValue::Object(field_views(fields@))),
{
    let order = sorted_idx_exec(fields);
    let mut out = String::new();
    out.append("{");
    proof { reveal_strlit("{"); }
    encode_fields(fields, &order, &mut out);
    out.append("}");
    proof {
        reveal_strlit("}");
        assert(out@ =~= spec_encode(SpecValue::Object(field_views(fields@))));
    }
    out
}

} // verus!
