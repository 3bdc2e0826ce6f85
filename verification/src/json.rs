use vstd::prelude::*;
use vstd::string::StrSliceExecFns;
use crate::records::{InvoiceItem, ItemModel, items_model};
use crate::text::chars_to_string;

verus! {

// ------------------------------------------------------------------
// The wire format of the invoice `items` column.
//
// A list of line items is stored as one JSON array of objects, each
// object carrying the four fields of an item in a fixed order:
//
//   [{"description":"...","quantity":1,"unit_price":2.5,"total":2.5}, ...]
//
// Strings are escaped as JSON requires (quote, backslash, and control
// characters); the numeric fields are spliced in verbatim, which is why
// well-formed items carry plain numeric text there. The encoder below
// produces exactly this form, and the decoder accepts exactly this
// form: anything it accepts is the encoding of the items it returns
// and of no other well-formed list, and anything it rejects is the
// encoding of no well-formed list at all. Column text written by other
// tools in another JSON spelling (reordered keys, extra whitespace,
// uncommon escapes) is therefore the encoding of no list and reads as
// the empty list at the invoice level.
// ------------------------------------------------------------------
/// Characters that may appear in the numeric text of an item field.
pub open spec fn is_number_char(c: char) -> bool {
    ('0' as u32 <= c as u32 && c as u32 <= '9' as u32) || c == '-' || c == '+' || c == '.' || c
        == 'e' || c == 'E'
}

/// Numeric text: nonempty, made of number characters only, so that it
/// contains no delimiter of the surrounding JSON.
pub open spec fn is_number_text(s: Seq<char>) -> bool {
    s.len() > 0 && (forall|i: int| 0 <= i < s.len() ==> is_number_char(#[trigger] s[i]))
}

/// A line item fit for encoding: its three numeric fields hold numeric text.
pub open spec fn wf_item(m: ItemModel) -> bool {
    &&& is_number_text(m.quantity)
    &&& is_number_text(m.unit_price)
    &&& is_number_text(m.total)
}

/// A whole list of line items fit for encoding.
pub open spec fn wf_items(items: Seq<ItemModel>) -> bool {
    forall|k: int| 0 <= k < items.len() ==> wf_item(#[trigger] items[k])
}

/// The lower-case hexadecimal digit for a value below sixteen.
pub open spec fn hex_digit(n: u32) -> char {
    if n == 0 {
        '0'
    } else if n == 1 {
        '1'
    } else if n == 2 {
        '2'
    } else if n == 3 {
        '3'
    } else if n == 4 {
        '4'
    } else if n == 5 {
        '5'
    } else if n == 6 {
        '6'
    } else if n == 7 {
        '7'
    } else if n == 8 {
        '8'
    } else if n == 9 {
        '9'
    } else if n == 10 {
        'a'
    } else if n == 11 {
        'b'
    } else if n == 12 {
        'c'
    } else if n == 13 {
        'd'
    } else if n == 14 {
        'e'
    } else {
        'f'
    }
}

/// How one character of a description is written inside a JSON string:
/// quote and backslash get a backslash escape, the five common control
/// characters get their short escapes, any other control character is
/// written as a hexadecimal escape, and everything else stands as is.
pub open spec fn escape_char(c: char) -> Seq<char> {
    if c == '"' {
        seq!['\\', '"']
    } else if c == '\\' {
        seq!['\\', '\\']
    } else if c == '\u{8}' {
        seq!['\\', 'b']
    } else if c == '\t' {
        seq!['\\', 't']
    } else if c == '\n' {
        seq!['\\', 'n']
    } else if c == '\u{c}' {
        seq!['\\', 'f']
    } else if c == '\r' {
        seq!['\\', 'r']
    } else if (c as u32) < 32 {
        seq!['\\', 'u', '0', '0', hex_digit((c as u32) / 16), hex_digit((c as u32) % 16)]
    } else {
        seq![c]
    }
}

/// A whole description, escaped character by character.
pub open spec fn escape_seq(s: Seq<char>) -> Seq<char>
    decreases s.len(),
{
    if s.len() == 0 {
        Seq::empty()
    } else {
        escape_char(s[0]) + escape_seq(s.skip(1))
    }
}

proof fn lemma_escape_seq_snoc(s: Seq<char>, c: char)
    ensures
        escape_seq(s.push(c)) == escape_seq(s) + escape_char(c),
    decreases s.len(),
{
    if s.len() == 0 {
        assert(s.push(c)[0] == c);
        assert(s.push(c).skip(1) =~= Seq::<char>::empty());
        assert(escape_seq(Seq::<char>::empty()) == Seq::<char>::empty());
        assert(escape_seq(s.push(c)) == escape_char(c) + escape_seq(Seq::<char>::empty()));
        assert(escape_seq(s.push(c)) =~= escape_seq(s) + escape_char(c));
    } else {
        assert(s.push(c).skip(1) =~= s.skip(1).push(c));
        lemma_escape_seq_snoc(s.skip(1), c);
        assert(escape_seq(s.push(c)) =~= escape_seq(s) + escape_char(c));
    }
}

/// The text of one line item object.
pub open spec fn encode_item(m: ItemModel) -> Seq<char> {
    "{\"description\":\""@ + escape_seq(m.description) + "\",\"quantity\":"@ + m.quantity
        + ",\"unit_price\":"@ + m.unit_price + ",\"total\":"@ + m.total + "}"@
}

/// The item objects joined with commas.
pub open spec fn encode_list(items: Seq<ItemModel>) -> Seq<char>
    decreases items.len(),
{
    if items.len() == 0 {
        Seq::empty()
    } else if items.len() == 1 {
        encode_item(items[0])
    } else {
        encode_item(items[0]) + ","@ + encode_list(items.skip(1))
    }
}

/// The whole array, brackets included: what the `items` column holds.
pub open spec fn encode_items(items: Seq<ItemModel>) -> Seq<char> {
    "["@ + encode_list(items) + "]"@
}

proof fn lemma_encode_list_snoc(s: Seq<ItemModel>, m: ItemModel)
    ensures
        s.len() == 0 ==> encode_list(s.push(m)) == encode_item(m),
        s.len() > 0 ==> encode_list(s.push(m)) == encode_list(s) + ","@ + encode_item(m),
    decreases s.len(),
{
    if s.len() == 0 {
        assert(s.push(m).len() == 1);
        assert(s.push(m)[0] == m);
    } else {
        let t = s.push(m);
        assert(t.skip(1) =~= s.skip(1).push(m));
        lemma_encode_list_snoc(s.skip(1), m);
        if s.len() == 1 {
            assert(encode_list(t) =~= encode_list(s) + ","@ + encode_item(m));
        } else {
            assert(encode_list(s.skip(1)) + ","@ + encode_item(m) == encode_list(
                s.skip(1).push(m),
            ));
            assert(encode_list(t) =~= encode_list(s) + ","@ + encode_item(m));
        }
    }
}

// ------------------------------------------------------------------
// The stored text of a well-formed list determines the list: no two
// distinct lists share an encoding. Together with the decoder's
// contract this pins the decoder's answer down completely: text it
// accepts is the encoding of exactly one list, the one it returns.
// ------------------------------------------------------------------
broadcast proof fn lemma_hex_digit_inj(a: u32, b: u32)
    ensures
        #![trigger hex_digit(a), hex_digit(b)]
        a < 16 && b < 16 && hex_digit(a) == hex_digit(b) ==> a == b,
{
}

proof fn lemma_hex_pair_inj(u1: u32, u2: u32)
    requires
        u1 < 32,
        u2 < 32,
        hex_digit(u1 / 16) == hex_digit(u2 / 16),
        hex_digit(u1 % 16) == hex_digit(u2 % 16),
    ensures
        u1 == u2,
{
    vstd::arithmetic::div_mod::lemma_fundamental_div_mod(u1 as int, 16);
    vstd::arithmetic::div_mod::lemma_fundamental_div_mod(u2 as int, 16);
    vstd::arithmetic::div_mod::lemma_mod_bound(u1 as int, 16);
    vstd::arithmetic::div_mod::lemma_mod_bound(u2 as int, 16);
    lemma_hex_digit_inj(u1 % 16, u2 % 16);
    lemma_hex_digit_inj(u1 / 16, u2 / 16);
}

/// How the first characters of an escape chunk identify the character
/// it stands for.
proof fn lemma_escape_char_shape(c: char)
    ensures
        1 <= escape_char(c).len(),
        escape_char(c)[0] != '"',
        (escape_char(c)[0] == '\\') == (c == '"' || c == '\\' || (c as u32) < 32),
        escape_char(c)[0] != '\\' ==> escape_char(c) == seq![c],
        escape_char(c)[0] == '\\' ==> {
            &&& escape_char(c).len() == 2 || escape_char(c).len() == 6
            &&& (escape_char(c)[1] == '"' <==> c == '"')
            &&& (escape_char(c)[1] == '\\' <==> c == '\\')
            &&& (escape_char(c)[1] == 'b' <==> c == '\u{8}')
            &&& (escape_char(c)[1] == 't' <==> c == '\t')
            &&& (escape_char(c)[1] == 'n' <==> c == '\n')
            &&& (escape_char(c)[1] == 'f' <==> c == '\u{c}')
            &&& (escape_char(c)[1] == 'r' <==> c == '\r')
            &&& (escape_char(c)[1] == 'u' ==> escape_char(c).len() == 6 && escape_char(c)[4]
                == hex_digit((c as u32) / 16) && escape_char(c)[5] == hex_digit((c as u32) % 16))
        },
        ((c as u32) < 32 && c != '\u{8}' && c != '\t' && c != '\n' && c != '\u{c}' && c != '\r')
            ==> escape_char(c) == seq![
            '\\',
            'u',
            '0',
            '0',
            hex_digit((c as u32) / 16),
            hex_digit((c as u32) % 16),
        ],
{
}

/// Two escape chunks that begin the same text stand for the same
/// character and leave the same remainder.
proof fn lemma_escape_chunk_inj(c1: char, c2: char, t1: Seq<char>, t2: Seq<char>)
    requires
        escape_char(c1) + t1 == escape_char(c2) + t2,
    ensures
        c1 == c2,
        t1 == t2,
{
    let e1 = escape_char(c1);
    let e2 = escape_char(c2);
    let s = e1 + t1;
    lemma_escape_char_shape(c1);
    lemma_escape_char_shape(c2);
    assert(s[0] == e1[0] && s[0] == e2[0]);
    if e1[0] != '\\' && e2[0] != '\\' {
        assert(c1 == s[0] && c2 == s[0]);
        assert(t1 =~= s.skip(1) && t2 =~= s.skip(1));
    } else if e1[0] == '\\' && e2[0] == '\\' {
        assert(s[1] == e1[1] && s[1] == e2[1]);
        let d = e1[1];
        if d == 'u' {
            let u1 = c1 as u32;
            let u2 = c2 as u32;
            assert(e1.len() == 6 && e2.len() == 6);
            assert(s[4] == e1[4] && s[4] == e2[4]);
            assert(s[5] == e1[5] && s[5] == e2[5]);
            assert(u1 < 32 && u2 < 32);
            lemma_hex_pair_inj(u1, u2);
            vstd::utf8::char_u32_cast(c1, u1);
            vstd::utf8::char_u32_cast(c2, u2);
            assert(c1 == c2);
            assert(t1 =~= s.skip(6) && t2 =~= s.skip(6));
        } else {
            assert(c1 == c2);
            assert(e1.len() == 2 && e2.len() == 2);
            assert(t1 =~= s.skip(2) && t2 =~= s.skip(2));
        }
    } else {
        assert(false);
    }
}

/// An escaped text followed by its closing quote determines the text.
proof fn lemma_escape_boundary(d1: Seq<char>, d2: Seq<char>, x: Seq<char>, y: Seq<char>)
    requires
        escape_seq(d1) + seq!['"'] + x == escape_seq(d2) + seq!['"'] + y,
    ensures
        d1 == d2,
        x == y,
    decreases d1.len(),
{
    let s = escape_seq(d1) + seq!['"'] + x;
    if d1.len() == 0 && d2.len() == 0 {
        assert(x =~= s.skip(1) && y =~= s.skip(1));
        assert(d1 =~= d2);
    } else if d1.len() == 0 {
        lemma_escape_char_shape(d2[0]);
        assert(s =~= escape_char(d2[0]) + (escape_seq(d2.skip(1)) + seq!['"'] + y));
        assert(s[0] == '"' && s[0] == escape_char(d2[0])[0]);
        assert(false);
    } else if d2.len() == 0 {
        lemma_escape_char_shape(d1[0]);
        assert(s =~= escape_char(d1[0]) + (escape_seq(d1.skip(1)) + seq!['"'] + x));
        assert(s[0] == '"' && s[0] == escape_char(d1[0])[0]);
        assert(false);
    } else {
        assert(escape_char(d1[0]) + (escape_seq(d1.skip(1)) + seq!['"'] + x) =~= s);
        assert(escape_char(d2[0]) + (escape_seq(d2.skip(1)) + seq!['"'] + y) =~= s);
        lemma_escape_chunk_inj(
            d1[0],
            d2[0],
            escape_seq(d1.skip(1)) + seq!['"'] + x,
            escape_seq(d2.skip(1)) + seq!['"'] + y,
        );
        lemma_escape_boundary(d1.skip(1), d2.skip(1), x, y);
        assert(d1 =~= seq![d1[0]] + d1.skip(1));
        assert(d2 =~= seq![d2[0]] + d2.skip(1));
    }
}

/// A scanned run of escape chunks agrees with any escaped text spelled
/// by the same characters: the scanned characters are a prefix of that
/// text, and what remains is the rest of its escaped form.
proof fn lemma_escape_prefix(o: Seq<char>, d: Seq<char>, r: Seq<char>, x: Seq<char>)
    requires
        escape_seq(o) + r == escape_seq(d) + seq!['"'] + x,
    ensures
        o.len() <= d.len(),
        o == d.take(o.len() as int),
        r == escape_seq(d.skip(o.len() as int)) + seq!['"'] + x,
    decreases o.len(),
{
    if o.len() == 0 {
        assert(o =~= d.take(0));
        assert(d.skip(0) =~= d);
        assert(r =~= escape_seq(d) + seq!['"'] + x);
    } else if d.len() == 0 {
        let s = escape_seq(o) + r;
        lemma_escape_char_shape(o[0]);
        assert(s =~= escape_char(o[0]) + (escape_seq(o.skip(1)) + r));
        assert(s[0] == escape_char(o[0])[0]);
        assert(s =~= seq!['"'] + x);
        assert(false);
    } else {
        let s = escape_seq(o) + r;
        assert(escape_char(o[0]) + (escape_seq(o.skip(1)) + r) =~= s);
        assert(escape_char(d[0]) + (escape_seq(d.skip(1)) + seq!['"'] + x) =~= s);
        lemma_escape_chunk_inj(
            o[0],
            d[0],
            escape_seq(o.skip(1)) + r,
            escape_seq(d.skip(1)) + seq!['"'] + x,
        );
        lemma_escape_prefix(o.skip(1), d.skip(1), r, x);
        assert(o.skip(1) == d.skip(1).take(o.len() as int - 1));
        assert forall|t: int| 0 <= t < o.len() implies o[t] == d.take(o.len() as int)[t] by {
            if t > 0 {
                assert(o[t] == o.skip(1)[t - 1]);
                assert(d.skip(1).take(o.len() as int - 1)[t - 1] == d[t]);
            }
        }
        assert(o =~= d.take(o.len() as int));
        assert(d.skip(1).skip(o.len() as int - 1) =~= d.skip(o.len() as int));
    }
}

/// Splitting a suffix that spells an escaped text and its closing quote.
proof fn lemma_suffix_shape(dd: Seq<char>, suf: Seq<char>, tail: Seq<char>)
    requires
        suf == escape_seq(dd) + seq!['"'] + tail,
    ensures
        suf.len() >= 1,
        dd.len() == 0 ==> suf[0] == '"',
        dd.len() > 0 ==> suf == escape_char(dd[0]) + (escape_seq(dd.skip(1)) + seq!['"'] + tail)
            && suf.len() >= escape_char(dd[0]).len() + 1,
{
    if dd.len() == 0 {
        assert(suf =~= seq!['"'] + tail);
    } else {
        assert(suf =~= escape_char(dd[0]) + (escape_seq(dd.skip(1)) + seq!['"'] + tail));
        lemma_escape_char_shape(dd[0]);
    }
}

/// What the scanner has read so far aligns with any closing quote ahead:
/// the rest of the input is the escaped form of the rest of that text.
proof fn lemma_scan_state(w: Seq<char>, i: int, p: int, o: Seq<char>, d: Seq<char>, j: int)
    requires
        0 <= i <= p <= w.len(),
        escape_seq(o) == w.subrange(i, p),
        i <= j < w.len(),
        escape_seq(d) == w.subrange(i, j),
        w[j] == '"',
    ensures
        o.len() <= d.len(),
        w.subrange(p, w.len() as int) == escape_seq(d.skip(o.len() as int)) + seq!['"']
            + w.subrange(j + 1, w.len() as int),
{
    let len = w.len() as int;
    assert(w.subrange(i, len) =~= escape_seq(o) + w.subrange(p, len));
    assert(w.subrange(j, j + 1) =~= seq![w[j]]);
    assert(w.subrange(i, len) =~= escape_seq(d) + seq!['"'] + w.subrange(j + 1, len));
    lemma_escape_prefix(o, d, w.subrange(p, len), w.subrange(j + 1, len));
}

/// At a scanner position holding the lead-in of a hexadecimal escape,
/// any escaped text ahead fixes all six characters of the chunk.
proof fn lemma_scan_hex_case(w: Seq<char>, i: int, p: int, o: Seq<char>, d: Seq<char>, j: int)
    requires
        0 <= i <= p <= w.len(),
        escape_seq(o) == w.subrange(i, p),
        i <= j < w.len(),
        escape_seq(d) == w.subrange(i, j),
        w[j] == '"',
        p < w.len(),
        w[p] == '\\',
        p + 1 < w.len(),
        w[p + 1] == 'u',
    ensures
        p + 6 < w.len(),
        w[p + 2] == '0',
        w[p + 3] == '0',
        exists|u0: u32|
            #![trigger hex_digit(u0 / 16)]
            u0 < 32 && u0 != 8 && u0 != 9 && u0 != 10 && u0 != 12 && u0 != 13 && u0 / 16 < 16
                && u0 % 16 < 16 && 16 * (u0 / 16) + u0 % 16 == u0 && w[p + 4] == hex_digit(
                u0 / 16,
            ) && w[p + 5] == hex_digit(u0 % 16),
{
    let len = w.len() as int;
    lemma_scan_state(w, i, p, o, d, j);
    let dd = d.skip(o.len() as int);
    let suf = w.subrange(p, len);
    lemma_suffix_shape(dd, suf, w.subrange(j + 1, len));
    if dd.len() == 0 {
        assert(suf[0] == '"');
        assert(false);
    }
    let c0 = dd[0];
    lemma_escape_char_shape(c0);
    let e0 = escape_char(c0);
    assert(suf[0] == e0[0]);
    assert(e0[0] == '\\');
    assert(suf.len() >= e0.len() + 1);
    assert(suf[1] == e0[1]);
    assert(e0[1] == 'u');
    assert(c0 != '"' && c0 != '\\' && c0 != '\u{8}' && c0 != '\t' && c0 != '\n' && c0 != '\u{c}'
        && c0 != '\r');
    assert((c0 as u32) < 32);
    let u0 = c0 as u32;
    assert(e0 == seq!['\\', 'u', '0', '0', hex_digit(u0 / 16), hex_digit(u0 % 16)]);
    assert(suf.len() >= 7);
    assert(suf[2] == e0[2] && suf[3] == e0[3] && suf[4] == e0[4] && suf[5] == e0[5]);
    vstd::arithmetic::div_mod::lemma_fundamental_div_mod(u0 as int, 16);
    vstd::arithmetic::div_mod::lemma_mod_bound(u0 as int, 16);
    assert(u0 / 16 < 16) by {
        assert(16 * ((u0 as int) / 16) <= u0 as int);
        assert((u0 as int) / 16 < 2) by (nonlinear_arith)
            requires
                16 * ((u0 as int) / 16) <= u0 as int,
                u0 < 32,
                (u0 as int) / 16 >= 0,
        ;
    }
    assert(u0 != 8 && u0 != 9 && u0 != 10 && u0 != 12 && u0 != 13) by {
        vstd::utf8::char_u32_cast(c0, u0);
        vstd::utf8::char_u32_cast('\u{8}', 8);
        vstd::utf8::char_u32_cast('\t', 9);
        vstd::utf8::char_u32_cast('\n', 10);
        vstd::utf8::char_u32_cast('\u{c}', 12);
        vstd::utf8::char_u32_cast('\r', 13);
    }
}

/// Numeric text followed by a stopping character determines the text.
proof fn lemma_number_boundary(
    n1: Seq<char>,
    n2: Seq<char>,
    x: Seq<char>,
    y: Seq<char>,
    stop: char,
)
    requires
        is_number_text(n1),
        is_number_text(n2),
        !is_number_char(stop),
        n1 + seq![stop] + x == n2 + seq![stop] + y,
    ensures
        n1 == n2,
        x == y,
{
    let s = n1 + seq![stop] + x;
    if n1.len() < n2.len() {
        assert(s[n1.len() as int] == stop);
        assert(s[n1.len() as int] == n2[n1.len() as int]);
        assert(is_number_char(n2[n1.len() as int]));
        assert(false);
    } else if n2.len() < n1.len() {
        assert(s[n2.len() as int] == stop);
        assert(s[n2.len() as int] == n1[n2.len() as int]);
        assert(is_number_char(n1[n2.len() as int]));
        assert(false);
    } else {
        assert(n1 =~= s.take(n1.len() as int) && n2 =~= s.take(n1.len() as int));
        assert(x =~= s.skip(n1.len() as int + 1) && y =~= s.skip(n1.len() as int + 1));
    }
}

/// One encoded item at the head of a text determines the item and the
/// remainder.
proof fn lemma_encode_item_prefix(m1: ItemModel, m2: ItemModel, r1: Seq<char>, r2: Seq<char>)
    requires
        wf_item(m1),
        wf_item(m2),
        encode_item(m1) + r1 == encode_item(m2) + r2,
    ensures
        m1 == m2,
        r1 == r2,
{
    reveal_strlit("{\"description\":\"");
    reveal_strlit("\",\"quantity\":");
    reveal_strlit(",\"unit_price\":");
    reveal_strlit(",\"total\":");
    reveal_strlit("}");
    reveal_strlit(",\"quantity\":");
    let l1 = "{\"description\":\""@;
    let l2t = ",\"quantity\":"@;
    let s = encode_item(m1) + r1;
    let a1 = escape_seq(m1.description) + seq!['"'] + (l2t + m1.quantity + ",\"unit_price\":"@
        + m1.unit_price + ",\"total\":"@ + m1.total + "}"@ + r1);
    let a2 = escape_seq(m2.description) + seq!['"'] + (l2t + m2.quantity + ",\"unit_price\":"@
        + m2.unit_price + ",\"total\":"@ + m2.total + "}"@ + r2);
    assert("\",\"quantity\":"@ =~= seq!['"'] + l2t);
    assert(s =~= l1 + a1);
    assert(s =~= l1 + a2);
    assert(a1 =~= s.skip(l1.len() as int));
    assert(a2 =~= s.skip(l1.len() as int));
    lemma_escape_boundary(
        m1.description,
        m2.description,
        l2t + m1.quantity + ",\"unit_price\":"@ + m1.unit_price + ",\"total\":"@ + m1.total + "}"@
            + r1,
        l2t + m2.quantity + ",\"unit_price\":"@ + m2.unit_price + ",\"total\":"@ + m2.total + "}"@
            + r2,
    );
    let b = l2t + m1.quantity + ",\"unit_price\":"@ + m1.unit_price + ",\"total\":"@ + m1.total
        + "}"@ + r1;
    let q1 = m1.quantity + seq![','] + ("\"unit_price\":"@ + m1.unit_price + ",\"total\":"@
        + m1.total + "}"@ + r1);
    let q2 = m2.quantity + seq![','] + ("\"unit_price\":"@ + m2.unit_price + ",\"total\":"@
        + m2.total + "}"@ + r2);
    reveal_strlit("\"unit_price\":");
    assert(",\"unit_price\":"@ =~= seq![','] + "\"unit_price\":"@);
    assert(q1 =~= b.skip(l2t.len() as int));
    assert(q2 =~= b.skip(l2t.len() as int));
    assert(!is_number_char(','));
    lemma_number_boundary(
        m1.quantity,
        m2.quantity,
        "\"unit_price\":"@ + m1.unit_price + ",\"total\":"@ + m1.total + "}"@ + r1,
        "\"unit_price\":"@ + m2.unit_price + ",\"total\":"@ + m2.total + "}"@ + r2,
        ',',
    );
    let c = "\"unit_price\":"@ + m1.unit_price + ",\"total\":"@ + m1.total + "}"@ + r1;
    let u1 = m1.unit_price + seq![','] + ("\"total\":"@ + m1.total + "}"@ + r1);
    let u2 = m2.unit_price + seq![','] + ("\"total\":"@ + m2.total + "}"@ + r2);
    reveal_strlit("\"total\":");
    assert(",\"total\":"@ =~= seq![','] + "\"total\":"@);
    assert(u1 =~= c.skip("\"unit_price\":"@.len() as int));
    assert(u2 =~= c.skip("\"unit_price\":"@.len() as int));
    lemma_number_boundary(
        m1.unit_price,
        m2.unit_price,
        "\"total\":"@ + m1.total + "}"@ + r1,
        "\"total\":"@ + m2.total + "}"@ + r2,
        ',',
    );
    let e = "\"total\":"@ + m1.total + "}"@ + r1;
    let t1 = m1.total + seq!['}'] + r1;
    let t2 = m2.total + seq!['}'] + r2;
    assert("}"@ =~= seq!['}']);
    assert(t1 =~= e.skip("\"total\":"@.len() as int));
    assert(t2 =~= e.skip("\"total\":"@.len() as int));
    assert(!is_number_char('}'));
    lemma_number_boundary(m1.total, m2.total, r1, r2, '}');
}

/// A joined list of encoded items determines the items.
proof fn lemma_encode_list_inj(a: Seq<ItemModel>, b: Seq<ItemModel>)
    requires
        wf_items(a),
        wf_items(b),
        encode_list(a) == encode_list(b),
    ensures
        a == b,
    decreases a.len(),
{
    reveal_strlit("{\"description\":\"");
    if a.len() == 0 && b.len() == 0 {
        assert(a =~= b);
    } else if a.len() == 0 {
        assert(encode_item(b[0]).len() >= 16);
        assert(encode_list(b).len() >= 16);
        assert(false);
    } else if b.len() == 0 {
        assert(encode_item(a[0]).len() >= 16);
        assert(encode_list(a).len() >= 16);
        assert(false);
    } else {
        let ra: Seq<char> = if a.len() == 1 {
            Seq::empty()
        } else {
            ","@ + encode_list(a.skip(1))
        };
        let rb: Seq<char> = if b.len() == 1 {
            Seq::empty()
        } else {
            ","@ + encode_list(b.skip(1))
        };
        assert(encode_item(a[0]) + ra =~= encode_list(a));
        assert(encode_item(b[0]) + rb =~= encode_list(b));
        lemma_encode_item_prefix(a[0], b[0], ra, rb);
        reveal_strlit(",");
        if a.len() == 1 && b.len() == 1 {
            assert(a =~= b);
        } else if a.len() == 1 {
            assert(ra.len() == 0 && rb.len() >= 1);
            assert(false);
        } else if b.len() == 1 {
            assert(ra.len() >= 1 && rb.len() == 0);
            assert(false);
        } else {
            assert(encode_list(a.skip(1)) =~= ra.skip(1));
            assert(encode_list(b.skip(1)) =~= rb.skip(1));
            assert(forall|k: int|
                0 <= k < a.skip(1).len() ==> wf_item(#[trigger] a.skip(1)[k]));
            assert(forall|k: int|
                0 <= k < b.skip(1).len() ==> wf_item(#[trigger] b.skip(1)[k]));
            lemma_encode_list_inj(a.skip(1), b.skip(1));
            assert(a =~= seq![a[0]] + a.skip(1));
            assert(b =~= seq![b[0]] + b.skip(1));
        }
    }
}

/// A joined list read so far against a joined list that ends the text:
/// either they are the same list and only the closing bracket remains,
/// or the text goes on with a comma and the encodings of the items
/// still to come.
proof fn lemma_list_status(p: Seq<ItemModel>, v: Seq<ItemModel>, x: Seq<char>)
    requires
        p.len() >= 1,
        wf_items(p),
        wf_items(v),
        encode_list(p) + x == encode_list(v) + seq![']'],
    ensures
        (p == v && x == seq![']']) || (p.len() < v.len() && v.skip(p.len() as int).len() >= 1 && x
            == seq![','] + encode_list(v.skip(p.len() as int)) + seq![']']),
    decreases p.len(),
{
    reveal_strlit("{\"description\":\"");
    reveal_strlit(",");
    assert(encode_item(p[0]).len() >= 16);
    if v.len() == 0 {
        assert(encode_list(p).len() >= 16);
        assert((encode_list(p) + x).len() >= 16);
        assert(false);
    }
    assert(encode_item(v[0]).len() >= 16);
    let tp: Seq<char> = if p.len() == 1 {
        x
    } else {
        ","@ + encode_list(p.skip(1)) + x
    };
    let tv: Seq<char> = if v.len() == 1 {
        seq![']']
    } else {
        ","@ + encode_list(v.skip(1)) + seq![']']
    };
    assert(encode_item(p[0]) + tp =~= encode_list(p) + x);
    assert(encode_item(v[0]) + tv =~= encode_list(v) + seq![']']);
    lemma_encode_item_prefix(p[0], v[0], tp, tv);
    if p.len() == 1 && v.len() == 1 {
        assert(p =~= v);
    } else if p.len() == 1 {
        assert(v.skip(1).len() >= 1);
        assert(x =~= seq![','] + encode_list(v.skip(1)) + seq![']']);
        assert(v.skip(p.len() as int) == v.skip(1));
    } else if v.len() == 1 {
        assert(encode_list(p.skip(1)).len() >= 16);
        assert(tp.len() >= 17);
        assert(false);
    } else {
        assert(tp.skip(1) =~= encode_list(p.skip(1)) + x);
        assert(tv.skip(1) =~= encode_list(v.skip(1)) + seq![']']);
        assert(forall|k: int| 0 <= k < p.skip(1).len() ==> wf_item(#[trigger] p.skip(1)[k]));
        assert(forall|k: int| 0 <= k < v.skip(1).len() ==> wf_item(#[trigger] v.skip(1)[k]));
        lemma_list_status(p.skip(1), v.skip(1), x);
        if p.skip(1) == v.skip(1) && x == seq![']'] {
            assert(p.len() == v.len());
            assert forall|t: int| 0 <= t < p.len() implies p[t] == v[t] by {
                if t > 0 {
                    assert(p[t] == p.skip(1)[t - 1]);
                    assert(v.skip(1)[t - 1] == v[t]);
                }
            }
            assert(p =~= v);
        } else {
            assert(v.skip(1).skip(p.len() as int - 1) =~= v.skip(p.len() as int));
        }
    }
}

/// The stored text of a well-formed list of items stands for exactly
/// that list: two lists with the same encoding are the same.
pub proof fn lemma_items_encoding_injective(a: Seq<ItemModel>, b: Seq<ItemModel>)
    requires
        wf_items(a),
        wf_items(b),
        encode_items(a) == encode_items(b),
    ensures
        a == b,
{
    reveal_strlit("[");
    reveal_strlit("]");
    let s = encode_items(a);
    assert(encode_list(a).len() == encode_list(b).len()) by {
        assert(s.len() == 2 + encode_list(a).len());
        assert(s.len() == 2 + encode_list(b).len());
    }
    assert(encode_list(a) =~= s.subrange(1, 1 + encode_list(a).len() as int));
    assert(encode_list(b) =~= s.subrange(1, 1 + encode_list(a).len() as int));
    lemma_encode_list_inj(a, b);
}

// ------------------------------------------------------------------
// Encoding
// ------------------------------------------------------------------
/// The lower-case hexadecimal digit for a value below sixteen.
fn hex_digit_x(n: u32) -> (c: char)
    requires
        n < 16,
    ensures
        c == hex_digit(n),
{
    if n == 0 {
        '0'
    } else if n == 1 {
        '1'
    } else if n == 2 {
        '2'
    } else if n == 3 {
        '3'
    } else if n == 4 {
        '4'
    } else if n == 5 {
        '5'
    } else if n == 6 {
        '6'
    } else if n == 7 {
        '7'
    } else if n == 8 {
        '8'
    } else if n == 9 {
        '9'
    } else if n == 10 {
        'a'
    } else if n == 11 {
        'b'
    } else if n == 12 {
        'c'
    } else if n == 13 {
        'd'
    } else if n == 14 {
        'e'
    } else {
        'f'
    }
}

/// Append the characters of a literal chunk.
fn push_chunk(out: &mut Vec<char>, s: &str)
    ensures
        final(out)@ == old(out)@ + s@,
{
    let n = s.unicode_len();
    let mut i: usize = 0;
    while i < n
        invariant
            n == s@.len(),
            i <= n,
            out@ == old(out)@ + s@.subrange(0, i as int),
        decreases n - i,
    {
        let c = s.get_char(i);
        out.push(c);
        proof {
            assert(out@ =~= old(out)@ + s@.subrange(0, i + 1));
        }
        i = i + 1;
    }
    proof {
        assert(s@.subrange(0, n as int) =~= s@);
    }
}

/// Append a description with every character escaped.
fn push_escaped(out: &mut Vec<char>, s: &str)
    ensures
        final(out)@ == old(out)@ + escape_seq(s@),
{
    let n = s.unicode_len();
    let mut i: usize = 0;
    while i < n
        invariant
            n == s@.len(),
            i <= n,
            out@ == old(out)@ + escape_seq(s@.subrange(0, i as int)),
        decreases n - i,
    {
        let c = s.get_char(i);
        let ghost pre = out@;
        if c == '"' {
            out.push('\\');
            out.push('"');
        } else if c == '\\' {
            out.push('\\');
            out.push('\\');
        } else if c == '\u{8}' {
            out.push('\\');
            out.push('b');
        } else if c == '\t' {
            out.push('\\');
            out.push('t');
        } else if c == '\n' {
            out.push('\\');
            out.push('n');
        } else if c == '\u{c}' {
            out.push('\\');
            out.push('f');
        } else if c == '\r' {
            out.push('\\');
            out.push('r');
        } else if (c as u32) < 32 {
            let u = c as u32;
            out.push('\\');
            out.push('u');
            out.push('0');
            out.push('0');
            out.push(hex_digit_x(u / 16));
            out.push(hex_digit_x(u % 16));
        } else {
            out.push(c);
        }
        proof {
            assert(out@ =~= pre + escape_char(c));
            lemma_escape_seq_snoc(s@.subrange(0, i as int), c);
            assert(s@.subrange(0, i + 1) =~= s@.subrange(0, i as int).push(c));
            assert(out@ =~= old(out)@ + escape_seq(s@.subrange(0, i + 1)));
        }
        i = i + 1;
    }
    proof {
        assert(s@.subrange(0, n as int) =~= s@);
    }
}

/// Append the text of one line item object.
fn push_item(out: &mut Vec<char>, it: &InvoiceItem)
    ensures
        final(out)@ == old(out)@ + encode_item(it@),
{
    push_chunk(out, "{\"description\":\"");
    push_escaped(out, it.description.as_str());
    push_chunk(out, "\",\"quantity\":");
    push_chunk(out, it.quantity.as_str());
    push_chunk(out, ",\"unit_price\":");
    push_chunk(out, it.unit_price.as_str());
    push_chunk(out, ",\"total\":");
    push_chunk(out, it.total.as_str());
    push_chunk(out, "}");
    proof {
        assert(out@ =~= old(out)@ + encode_item(it@));
    }
}

/// Render a list of line items as the JSON text the `items` column stores.
pub fn items_to_json(items: &Vec<InvoiceItem>) -> (r: String)
    ensures
        r@ == encode_items(items_model(items@)),
{
    let mut out: Vec<char> = Vec::new();
    out.push('[');
    proof {
        reveal_strlit("[");
        assert(items_model(items@).take(0) =~= Seq::<ItemModel>::empty());
        assert(out@ =~= "["@ + encode_list(items_model(items@).take(0)));
    }
    let mut k: usize = 0;
    while k < items.len()
        invariant
            k <= items@.len(),
            out@ == "["@ + encode_list(items_model(items@).take(k as int)),
        decreases items@.len() - k,
    {
        let ghost models = items_model(items@);
        let ghost pre = out@;
        if k > 0 {
            push_chunk(&mut out, ",");
        }
        push_item(&mut out, &items[k]);
        proof {
            let m = models[k as int];
            assert(m == items@[k as int]@);
            assert(models.take(k + 1) =~= models.take(k as int).push(m));
            lemma_encode_list_snoc(models.take(k as int), m);
            if k > 0 {
                assert(out@ =~= "["@ + (encode_list(models.take(k as int)) + ","@ + encode_item(
                    m,
                )));
            }
            assert(out@ =~= "["@ + encode_list(models.take(k + 1)));
        }
        k = k + 1;
    }
    proof {
        assert(items_model(items@).take(items@.len() as int) =~= items_model(items@));
    }
    out.push(']');
    proof {
        reveal_strlit("]");
        assert(out@ =~= encode_items(items_model(items@)));
    }
    chars_to_string(&out)
}

// ------------------------------------------------------------------
// Decoding
// ------------------------------------------------------------------
/// Does `c` belong to the numeric alphabet?
fn is_number_char_x(c: char) -> (b: bool)
    ensures
        b == is_number_char(c),
{
    ('0' as u32 <= c as u32 && c as u32 <= '9' as u32) || c == '-' || c == '+' || c == '.' || c
        == 'e' || c == 'E'
}

/// The value of a lower-case hexadecimal digit, if `c` is one.
fn hex_val(c: char) -> (r: Option<u32>)
    ensures
        r matches Some(n) ==> n < 16 && hex_digit(n) == c,
        r is None ==> forall|n: u32| n < 16 ==> hex_digit(n) != c,
{
    if c == '0' {
        Some(0)
    } else if c == '1' {
        Some(1)
    } else if c == '2' {
        Some(2)
    } else if c == '3' {
        Some(3)
    } else if c == '4' {
        Some(4)
    } else if c == '5' {
        Some(5)
    } else if c == '6' {
        Some(6)
    } else if c == '7' {
        Some(7)
    } else if c == '8' {
        Some(8)
    } else if c == '9' {
        Some(9)
    } else if c == 'a' {
        Some(10)
    } else if c == 'b' {
        Some(11)
    } else if c == 'c' {
        Some(12)
    } else if c == 'd' {
        Some(13)
    } else if c == 'e' {
        Some(14)
    } else if c == 'f' {
        Some(15)
    } else {
        None
    }
}

/// Does the text of `lit` stand at position `i` of `v`? On success the
/// result is the position just past it.
fn match_lit(v: &Vec<char>, i: usize, lit: &str) -> (r: Option<usize>)
    requires
        i <= v@.len(),
    ensures
        r matches Some(j) ==> i + lit@.len() == j && j <= v@.len() && v@.subrange(
            i as int,
            j as int,
        ) == lit@,
        r is None ==> !(i + lit@.len() <= v@.len() && v@.subrange(
            i as int,
            i as int + lit@.len() as int,
        ) == lit@),
{
    let n = lit.unicode_len();
    let vn = v.len();
    if n > vn - i {
        return None;
    }
    let mut k: usize = 0;
    while k < n
        invariant
            n == lit@.len(),
            vn == v@.len(),
            i + n <= vn,
            k <= n,
            forall|t: int| 0 <= t < k ==> v@[i + t] == lit@[t],
        decreases n - k,
    {
        let c = lit.get_char(k);
        if v[i + k] != c {
            proof {
                if i + n <= v@.len() && v@.subrange(i as int, i as int + n as int) == lit@ {
                    assert(v@.subrange(i as int, i as int + n as int)[k as int] == lit@[k as int]);
                    assert(false);
                }
            }
            return None;
        }
        k = k + 1;
    }
    proof {
        assert(v@.subrange(i as int, (i + n) as int) =~= lit@);
    }
    Some(i + n)
}

/// Take the longest run of number characters from position `i`.
fn scan_number(v: &Vec<char>, i: usize) -> (r: (Vec<char>, usize))
    requires
        i <= v@.len(),
    ensures
        i + r.0@.len() == r.1 && r.1 <= v@.len(),
        r.0@ == v@.subrange(i as int, r.1 as int),
        forall|t: int| 0 <= t < r.0@.len() ==> is_number_char(#[trigger] r.0@[t]),
        r.1 < v@.len() ==> !is_number_char(v@[r.1 as int]),
{
    let mut out: Vec<char> = Vec::new();
    let mut p: usize = i;
    while p < v.len()
        invariant
            i <= p <= v@.len(),
            out@ == v@.subrange(i as int, p as int),
            forall|t: int| i <= t < p ==> is_number_char(#[trigger] v@[t]),
        ensures
            i <= p <= v@.len(),
            out@ == v@.subrange(i as int, p as int),
            forall|t: int| i <= t < p ==> is_number_char(#[trigger] v@[t]),
            p < v@.len() ==> !is_number_char(v@[p as int]),
        decreases v@.len() - p,
    {
        let c = v[p];
        if !is_number_char_x(c) {
            break ;
        }
        out.push(c);
        p = p + 1;
        proof {
            assert(out@ =~= v@.subrange(i as int, p as int));
        }
    }
    (out, p)
}

/// Read an escaped string body from position `i` up to its closing
/// quote. On success the consumed text is exactly the escaped form of
/// the returned characters, and the closing quote stands at the
/// returned position; on failure no escaped text closed by a quote
/// starts at `i` at all.
fn scan_string(v: &Vec<char>, i: usize) -> (r: Option<(Vec<char>, usize)>)
    requires
        i <= v@.len(),
    ensures
        r matches Some(p) ==> i <= p.1 < v@.len() && escape_seq(p.0@) == v@.subrange(
            i as int,
            p.1 as int,
        ) && v@[p.1 as int] == '"',
        r is None ==> forall|d: Seq<char>, j: int|
            #![trigger escape_seq(d), v@.subrange(i as int, j)]
            !(i <= j < v@.len() && escape_seq(d) == v@.subrange(i as int, j) && v@[j] == '"'),
{
    let mut out: Vec<char> = Vec::new();
    let mut p: usize = i;
    loop
        invariant
            i <= p <= v@.len(),
            escape_seq(out@) == v@.subrange(i as int, p as int),
        decreases v@.len() - p,
    {
        if p >= v.len() {
            proof {
                assert forall|d: Seq<char>, j: int|
                    #![trigger escape_seq(d), v@.subrange(i as int, j)]
                    !(i <= j < v@.len() && escape_seq(d) == v@.subrange(i as int, j) && v@[j]
                        == '"') by {
                    if i <= j < v@.len() && escape_seq(d) == v@.subrange(i as int, j) && v@[j]
                        == '"' {
                        lemma_scan_state(v@, i as int, p as int, out@, d, j);
                        lemma_suffix_shape(
                            d.skip(out@.len() as int),
                            v@.subrange(p as int, v@.len() as int),
                            v@.subrange(j + 1, v@.len() as int),
                        );
                        assert(false);
                    }
                }
            }
            return None;
        }
        let c = v[p];
        if c == '"' {
            return Some((out, p));
        }
        let ghost pre = out@;
        let ghost p0 = p;
        if c == '\\' {
            if p + 1 >= v.len() {
                proof {
                    assert forall|d: Seq<char>, j: int|
                        #![trigger escape_seq(d), v@.subrange(i as int, j)]
                        !(i <= j < v@.len() && escape_seq(d) == v@.subrange(i as int, j) && v@[j]
                            == '"') by {
                        if i <= j < v@.len() && escape_seq(d) == v@.subrange(i as int, j) && v@[j]
                            == '"' {
                            lemma_scan_state(v@, i as int, p as int, out@, d, j);
                            let dd = d.skip(out@.len() as int);
                            let suf = v@.subrange(p as int, v@.len() as int);
                            lemma_suffix_shape(dd, suf, v@.subrange(j + 1, v@.len() as int));
                            assert(suf.len() == 1);
                            assert(suf[0] == '\\');
                            if dd.len() == 0 {
                                assert(suf[0] == '"');
                            } else {
                                lemma_escape_char_shape(dd[0]);
                                assert(escape_char(dd[0])[0] == '\\');
                                assert(suf.len() >= 3);
                            }
                            assert(false);
                        }
                    }
                }
                return None;
            }
            let d = v[p + 1];
            if d == '"' {
                out.push('"');
                p = p + 2;
            } else if d == '\\' {
                out.push('\\');
                p = p + 2;
            } else if d == 'b' {
                out.push('\u{8}');
                p = p + 2;
            } else if d == 't' {
                out.push('\t');
                p = p + 2;
            } else if d == 'n' {
                out.push('\n');
                p = p + 2;
            } else if d == 'f' {
                out.push('\u{c}');
                p = p + 2;
            } else if d == 'r' {
                out.push('\r');
                p = p + 2;
            } else if d == 'u' {
                let mut code: Option<u32> = None;
                if v.len() - p >= 6 && v[p + 2] == '0' && v[p + 3] == '0' {
                    if let Some(h1) = hex_val(v[p + 4]) {
                        if let Some(h2) = hex_val(v[p + 5]) {
                            let u = h1 * 16 + h2;
                            if u < 32 && u != 8 && u != 9 && u != 10 && u != 12 && u != 13 {
                                proof {
                                    vstd::arithmetic::div_mod::lemma_fundamental_div_mod_converse(
                                        u as int,
                                        16,
                                        h1 as int,
                                        h2 as int,
                                    );
                                }
                                code = Some(u);
                            }
                        }
                    }
                }
                let u = match code {
                    Some(u) => u,
                    None => {
                        proof {
                            broadcast use lemma_hex_digit_inj;

                            assert forall|dq: Seq<char>, j: int|
                                #![trigger escape_seq(dq), v@.subrange(i as int, j)]
                                !(i <= j < v@.len() && escape_seq(dq) == v@.subrange(i as int, j)
                                    && v@[j] == '"') by {
                                if i <= j < v@.len() && escape_seq(dq) == v@.subrange(i as int, j)
                                    && v@[j] == '"' {
                                    lemma_scan_hex_case(v@, i as int, p as int, out@, dq, j);
                                    let u0 = choose|u0: u32|
                                        #![trigger hex_digit(u0 / 16)]
                                        u0 < 32 && u0 != 8 && u0 != 9 && u0 != 10 && u0 != 12 && u0
                                            != 13 && u0 / 16 < 16 && u0 % 16 < 16 && 16 * (u0 / 16)
                                            + u0 % 16 == u0 && v@[p + 4] == hex_digit(u0 / 16)
                                            && v@[p + 5] == hex_digit(u0 % 16);
                                    assert(false);
                                }
                            }
                        }
                        return None;
                    },
                };
                let b = u as u8;
                let c2 = b as char;
                proof {
                    assert(u as u8 as u32 == u) by (bit_vector)
                        requires
                            u < 32,
                    ;
                    assert(c2 as u32 == u);
                    assert(escape_char(c2) =~= seq![
                        '\\',
                        'u',
                        '0',
                        '0',
                        hex_digit(u / 16),
                        hex_digit(u % 16),
                    ]);
                }
                out.push(c2);
                p = p + 6;
            } else {
                proof {
                    assert forall|dq: Seq<char>, j: int|
                        #![trigger escape_seq(dq), v@.subrange(i as int, j)]
                        !(i <= j < v@.len() && escape_seq(dq) == v@.subrange(i as int, j) && v@[j]
                            == '"') by {
                        if i <= j < v@.len() && escape_seq(dq) == v@.subrange(i as int, j) && v@[j]
                            == '"' {
                            lemma_scan_state(v@, i as int, p as int, out@, dq, j);
                            let dd = dq.skip(out@.len() as int);
                            let suf = v@.subrange(p as int, v@.len() as int);
                            lemma_suffix_shape(dd, suf, v@.subrange(j + 1, v@.len() as int));
                            if dd.len() == 0 {
                                assert(suf[0] == '"');
                            } else {
                                let c0 = dd[0];
                                lemma_escape_char_shape(c0);
                                let e0 = escape_char(c0);
                                assert(suf[0] == e0[0]);
                                assert(e0[0] == '\\');
                                assert(suf.len() >= e0.len() + 1);
                                assert(suf[1] == e0[1]);
                                if c0 == '"' {
                                } else if c0 == '\\' {
                                } else if c0 == '\u{8}' {
                                } else if c0 == '\t' {
                                } else if c0 == '\n' {
                                } else if c0 == '\u{c}' {
                                } else if c0 == '\r' {
                                } else {
                                    assert((c0 as u32) < 32);
                                    assert(e0[1] == 'u');
                                }
                            }
                            assert(false);
                        }
                    }
                }
                return None;
            }
        } else {
            if (c as u32) < 32 {
                proof {
                    assert forall|dq: Seq<char>, j: int|
                        #![trigger escape_seq(dq), v@.subrange(i as int, j)]
                        !(i <= j < v@.len() && escape_seq(dq) == v@.subrange(i as int, j) && v@[j]
                            == '"') by {
                        if i <= j < v@.len() && escape_seq(dq) == v@.subrange(i as int, j) && v@[j]
                            == '"' {
                            lemma_scan_state(v@, i as int, p as int, out@, dq, j);
                            let dd = dq.skip(out@.len() as int);
                            let suf = v@.subrange(p as int, v@.len() as int);
                            lemma_suffix_shape(dd, suf, v@.subrange(j + 1, v@.len() as int));
                            if dd.len() == 0 {
                                assert(suf[0] == '"');
                            } else {
                                let c0 = dd[0];
                                lemma_escape_char_shape(c0);
                                let e0 = escape_char(c0);
                                assert(suf[0] == e0[0]);
                                if e0[0] == '\\' {
                                    assert(c == '\\');
                                } else {
                                    assert(e0 == seq![c0]);
                                    assert(c0 == c);
                                    assert(!((c0 as u32) < 32));
                                }
                            }
                            assert(false);
                        }
                    }
                }
                return None;
            }
            out.push(c);
            p = p + 1;
        }
        proof {
            lemma_escape_seq_snoc(pre, out@[out@.len() - 1]);
            assert(escape_char(out@[out@.len() - 1]) =~= v@.subrange(p0 as int, p as int));
            assert(v@.subrange(i as int, p as int) =~= v@.subrange(i as int, p0 as int)
                + v@.subrange(p0 as int, p as int));
            assert(escape_seq(out@) =~= v@.subrange(i as int, p as int));
        }
    }
}

/// Where each part of an encoded item stands inside a text that holds
/// one from position `i` to `j`.
proof fn lemma_item_layout(w: Seq<char>, i: int, j: int, m: ItemModel)
    requires
        0 <= i <= j <= w.len(),
        w.subrange(i, j) == encode_item(m),
    ensures
        ({
            let a0 = i + 16;
            let a1 = a0 + escape_seq(m.description).len();
            let a2 = a1 + 13;
            let a3 = a2 + m.quantity.len();
            let a4 = a3 + 14;
            let a5 = a4 + m.unit_price.len();
            let a6 = a5 + 9;
            let a7 = a6 + m.total.len();
            &&& j == a7 + 1
            &&& w.subrange(i, a0) == "{\"description\":\""@
            &&& w.subrange(a0, a1) == escape_seq(m.description)
            &&& w.subrange(a1, a2) == "\",\"quantity\":"@
            &&& w[a1] == '"'
            &&& w.subrange(a2, a3) == m.quantity
            &&& w.subrange(a3, a4) == ",\"unit_price\":"@
            &&& w[a3] == ','
            &&& w.subrange(a4, a5) == m.unit_price
            &&& w.subrange(a5, a6) == ",\"total\":"@
            &&& w[a5] == ','
            &&& w.subrange(a6, a7) == m.total
            &&& w[a7] == '}'
        }),
{
    reveal_strlit("{\"description\":\"");
    reveal_strlit("\",\"quantity\":");
    reveal_strlit(",\"unit_price\":");
    reveal_strlit(",\"total\":");
    reveal_strlit("}");
    let a0 = i + 16;
    let a1 = a0 + escape_seq(m.description).len();
    let a2 = a1 + 13;
    let a3 = a2 + m.quantity.len();
    let a4 = a3 + 14;
    let a5 = a4 + m.unit_price.len();
    let a6 = a5 + 9;
    let a7 = a6 + m.total.len();
    assert(encode_item(m).len() == 16 + escape_seq(m.description).len() + 13 + m.quantity.len()
        + 14 + m.unit_price.len() + 9 + m.total.len() + 1);
    let p8 = "{\"description\":\""@ + escape_seq(m.description) + "\",\"quantity\":"@ + m.quantity
        + ",\"unit_price\":"@ + m.unit_price + ",\"total\":"@ + m.total;
    let p7 = "{\"description\":\""@ + escape_seq(m.description) + "\",\"quantity\":"@ + m.quantity
        + ",\"unit_price\":"@ + m.unit_price + ",\"total\":"@;
    let p6 = "{\"description\":\""@ + escape_seq(m.description) + "\",\"quantity\":"@ + m.quantity
        + ",\"unit_price\":"@ + m.unit_price;
    let p5 = "{\"description\":\""@ + escape_seq(m.description) + "\",\"quantity\":"@ + m.quantity
        + ",\"unit_price\":"@;
    let p4 = "{\"description\":\""@ + escape_seq(m.description) + "\",\"quantity\":"@
        + m.quantity;
    let p3 = "{\"description\":\""@ + escape_seq(m.description) + "\",\"quantity\":"@;
    let p2 = "{\"description\":\""@ + escape_seq(m.description);
    let e = encode_item(m);
    assert(w.subrange(a7, j) =~= w.subrange(i, j).subrange(a7 - i, j - i));
    assert(e.subrange(a7 - i, j - i) =~= "}"@);
    assert(w.subrange(i, a7) =~= w.subrange(i, j).subrange(0, a7 - i));
    assert(e.subrange(0, a7 - i) =~= p8);
    assert(w.subrange(a6, a7) =~= w.subrange(i, a7).subrange(a6 - i, a7 - i));
    assert(p8.subrange(a6 - i, a7 - i) =~= m.total);
    assert(w.subrange(i, a6) =~= w.subrange(i, a7).subrange(0, a6 - i));
    assert(p8.subrange(0, a6 - i) =~= p7);
    assert(w.subrange(a5, a6) =~= w.subrange(i, a6).subrange(a5 - i, a6 - i));
    assert(p7.subrange(a5 - i, a6 - i) =~= ",\"total\":"@);
    assert(w.subrange(i, a5) =~= w.subrange(i, a6).subrange(0, a5 - i));
    assert(p7.subrange(0, a5 - i) =~= p6);
    assert(w.subrange(a4, a5) =~= w.subrange(i, a5).subrange(a4 - i, a5 - i));
    assert(p6.subrange(a4 - i, a5 - i) =~= m.unit_price);
    assert(w.subrange(i, a4) =~= w.subrange(i, a5).subrange(0, a4 - i));
    assert(p6.subrange(0, a4 - i) =~= p5);
    assert(w.subrange(a3, a4) =~= w.subrange(i, a4).subrange(a3 - i, a4 - i));
    assert(p5.subrange(a3 - i, a4 - i) =~= ",\"unit_price\":"@);
    assert(w.subrange(i, a3) =~= w.subrange(i, a4).subrange(0, a3 - i));
    assert(p5.subrange(0, a3 - i) =~= p4);
    assert(w.subrange(a2, a3) =~= w.subrange(i, a3).subrange(a2 - i, a3 - i));
    assert(p4.subrange(a2 - i, a3 - i) =~= m.quantity);
    assert(w.subrange(i, a2) =~= w.subrange(i, a3).subrange(0, a2 - i));
    assert(p4.subrange(0, a2 - i) =~= p3);
    assert(w.subrange(a1, a2) =~= w.subrange(i, a2).subrange(a1 - i, a2 - i));
    assert(p3.subrange(a1 - i, a2 - i) =~= "\",\"quantity\":"@);
    assert(w.subrange(i, a1) =~= w.subrange(i, a2).subrange(0, a1 - i));
    assert(p3.subrange(0, a1 - i) =~= p2);
    assert(w.subrange(a0, a1) =~= w.subrange(i, a1).subrange(a0 - i, a1 - i));
    assert(p2.subrange(a0 - i, a1 - i) =~= escape_seq(m.description));
    assert(w.subrange(i, a0) =~= w.subrange(i, a1).subrange(0, a0 - i));
    assert(p2.subrange(0, a0 - i) =~= "{\"description\":\""@);
    assert(w[a1] == w.subrange(a1, a2)[0]);
    assert(w[a3] == w.subrange(a3, a4)[0]);
    assert(w[a5] == w.subrange(a5, a6)[0]);
    assert(w[a7] == w.subrange(a7, j)[0]);
}

/// Two runs of number characters cut at the same delimiter are the same
/// run.
proof fn lemma_number_align(
    w: Seq<char>,
    a: int,
    b: int,
    num: Seq<char>,
    scanned: Seq<char>,
    e: int,
)
    requires
        0 <= a <= b <= w.len(),
        w.subrange(a, b) == num,
        is_number_text(num),
        b < w.len(),
        !is_number_char(w[b]),
        a <= e <= w.len(),
        scanned == w.subrange(a, e),
        forall|t: int| 0 <= t < scanned.len() ==> is_number_char(#[trigger] scanned[t]),
        e < w.len() ==> !is_number_char(w[e]),
    ensures
        e == b,
        scanned == num,
{
    if e < b {
        assert(w[e] == num[e - a]);
        assert(false);
    }
    if e > b {
        assert(scanned[b - a] == w[b]);
        assert(false);
    }
    assert(scanned =~= num);
}

/// Two escaped texts that start at one position and end at a closing
/// quote are the same text ending at the same quote.
proof fn lemma_quote_align(w: Seq<char>, a: int, d1: Seq<char>, j1: int, d2: Seq<char>, j2: int)
    requires
        0 <= a <= w.len(),
        a <= j1 < w.len(),
        escape_seq(d1) == w.subrange(a, j1),
        w[j1] == '"',
        a <= j2 < w.len(),
        escape_seq(d2) == w.subrange(a, j2),
        w[j2] == '"',
    ensures
        d1 == d2,
        j1 == j2,
{
    let len = w.len() as int;
    assert(w.subrange(j1, j1 + 1) =~= seq![w[j1]]);
    assert(w.subrange(j2, j2 + 1) =~= seq![w[j2]]);
    assert(escape_seq(d1) + seq!['"'] + w.subrange(j1 + 1, len) =~= w.subrange(a, len));
    assert(escape_seq(d2) + seq!['"'] + w.subrange(j2 + 1, len) =~= w.subrange(a, len));
    lemma_escape_boundary(d1, d2, w.subrange(j1 + 1, len), w.subrange(j2 + 1, len));
}

/// Read one line item object from position `i`. On success the consumed
/// text is exactly the encoding of the returned item; on failure no
/// encoded well-formed item starts at `i` at all.
fn parse_item(v: &Vec<char>, i: usize) -> (r: Option<(InvoiceItem, usize)>)
    requires
        i <= v@.len(),
    ensures
        r matches Some(p) ==> i < p.1 <= v@.len() && v@.subrange(i as int, p.1 as int)
            == encode_item(p.0@) && wf_item(p.0@),
        r is None ==> forall|m: ItemModel, j: int|
            #![trigger encode_item(m), v@.subrange(i as int, j)]
            !(i <= j <= v@.len() && v@.subrange(i as int, j) == encode_item(m) && wf_item(m)),
{
    let ghost ii = i as int;
    let j0 = match match_lit(v, i, "{\"description\":\"") {
        Some(j) => j,
        None => {
            proof {
                assert forall|m: ItemModel, j: int|
                    #![trigger encode_item(m), v@.subrange(i as int, j)]
                    !(i <= j <= v@.len() && v@.subrange(i as int, j) == encode_item(m) && wf_item(
                        m,
                    )) by {
                    if i <= j <= v@.len() && v@.subrange(i as int, j) == encode_item(m) && wf_item(
                        m,
                    ) {
                        reveal_strlit("{\"description\":\"");
                        lemma_item_layout(v@, ii, j, m);
                        assert(v@.subrange(ii, ii + 16) == "{\"description\":\""@);
                        assert(false);
                    }
                }
            }
            return None;
        },
    };
    let (desc, j1) = match scan_string(v, j0) {
        Some(p) => p,
        None => {
            proof {
                assert forall|m: ItemModel, j: int|
                    #![trigger encode_item(m), v@.subrange(i as int, j)]
                    !(i <= j <= v@.len() && v@.subrange(i as int, j) == encode_item(m) && wf_item(
                        m,
                    )) by {
                    if i <= j <= v@.len() && v@.subrange(i as int, j) == encode_item(m) && wf_item(
                        m,
                    ) {
                        reveal_strlit("{\"description\":\"");
                        lemma_item_layout(v@, ii, j, m);
                        let a1 = ii + 16 + escape_seq(m.description).len();
                        assert(escape_seq(m.description) == v@.subrange(j0 as int, a1));
                        assert(a1 < v@.len() && v@[a1] == '"');
                        assert(false);
                    }
                }
            }
            return None;
        },
    };
    let j2 = match match_lit(v, j1, "\",\"quantity\":") {
        Some(j) => j,
        None => {
            proof {
                assert forall|m: ItemModel, j: int|
                    #![trigger encode_item(m), v@.subrange(i as int, j)]
                    !(i <= j <= v@.len() && v@.subrange(i as int, j) == encode_item(m) && wf_item(
                        m,
                    )) by {
                    if i <= j <= v@.len() && v@.subrange(i as int, j) == encode_item(m) && wf_item(
                        m,
                    ) {
                        reveal_strlit("{\"description\":\"");
                        reveal_strlit("\",\"quantity\":");
                        lemma_item_layout(v@, ii, j, m);
                        let a1 = ii + 16 + escape_seq(m.description).len();
                        lemma_quote_align(v@, j0 as int, desc@, j1 as int, m.description, a1);
                        assert(v@.subrange(a1, a1 + 13) == "\",\"quantity\":"@);
                        assert(false);
                    }
                }
            }
            return None;
        },
    };
    let (qty, j3) = scan_number(v, j2);
    if qty.len() == 0 {
        proof {
            assert forall|m: ItemModel, j: int|
                #![trigger encode_item(m), v@.subrange(i as int, j)]
                !(i <= j <= v@.len() && v@.subrange(i as int, j) == encode_item(m) && wf_item(
                    m,
                )) by {
                if i <= j <= v@.len() && v@.subrange(i as int, j) == encode_item(m) && wf_item(m) {
                    reveal_strlit("{\"description\":\"");
                    reveal_strlit("\",\"quantity\":");
                    lemma_item_layout(v@, ii, j, m);
                    let a1 = ii + 16 + escape_seq(m.description).len();
                    let a2 = a1 + 13;
                    let a3 = a2 + m.quantity.len();
                    lemma_quote_align(v@, j0 as int, desc@, j1 as int, m.description, a1);
                    lemma_number_align(v@, a2, a3, m.quantity, qty@, j3 as int);
                    assert(false);
                }
            }
        }
        return None;
    }
    let j4 = match match_lit(v, j3, ",\"unit_price\":") {
        Some(j) => j,
        None => {
            proof {
                assert forall|m: ItemModel, j: int|
                    #![trigger encode_item(m), v@.subrange(i as int, j)]
                    !(i <= j <= v@.len() && v@.subrange(i as int, j) == encode_item(m) && wf_item(
                        m,
                    )) by {
                    if i <= j <= v@.len() && v@.subrange(i as int, j) == encode_item(m) && wf_item(
                        m,
                    ) {
                        reveal_strlit("{\"description\":\"");
                        reveal_strlit("\",\"quantity\":");
                        reveal_strlit(",\"unit_price\":");
                        lemma_item_layout(v@, ii, j, m);
                        let a1 = ii + 16 + escape_seq(m.description).len();
                        let a2 = a1 + 13;
                        let a3 = a2 + m.quantity.len();
                        lemma_quote_align(v@, j0 as int, desc@, j1 as int, m.description, a1);
                        lemma_number_align(v@, a2, a3, m.quantity, qty@, j3 as int);
                        assert(v@.subrange(a3, a3 + 14) == ",\"unit_price\":"@);
                        assert(false);
                    }
                }
            }
            return None;
        },
    };
    let (up, j5) = scan_number(v, j4);
    if up.len() == 0 {
        proof {
            assert forall|m: ItemModel, j: int|
                #![trigger encode_item(m), v@.subrange(i as int, j)]
                !(i <= j <= v@.len() && v@.subrange(i as int, j) == encode_item(m) && wf_item(
                    m,
                )) by {
                if i <= j <= v@.len() && v@.subrange(i as int, j) == encode_item(m) && wf_item(m) {
                    reveal_strlit("{\"description\":\"");
                    reveal_strlit("\",\"quantity\":");
                    reveal_strlit(",\"unit_price\":");
                    lemma_item_layout(v@, ii, j, m);
                    let a1 = ii + 16 + escape_seq(m.description).len();
                    let a2 = a1 + 13;
                    let a3 = a2 + m.quantity.len();
                    let a4 = a3 + 14;
                    let a5 = a4 + m.unit_price.len();
                    lemma_quote_align(v@, j0 as int, desc@, j1 as int, m.description, a1);
                    lemma_number_align(v@, a2, a3, m.quantity, qty@, j3 as int);
                    lemma_number_align(v@, a4, a5, m.unit_price, up@, j5 as int);
                    assert(false);
                }
            }
        }
        return None;
    }
    let j6 = match match_lit(v, j5, ",\"total\":") {
        Some(j) => j,
        None => {
            proof {
                assert forall|m: ItemModel, j: int|
                    #![trigger encode_item(m), v@.subrange(i as int, j)]
                    !(i <= j <= v@.len() && v@.subrange(i as int, j) == encode_item(m) && wf_item(
                        m,
                    )) by {
                    if i <= j <= v@.len() && v@.subrange(i as int, j) == encode_item(m) && wf_item(
                        m,
                    ) {
                        reveal_strlit("{\"description\":\"");
                        reveal_strlit("\",\"quantity\":");
                        reveal_strlit(",\"unit_price\":");
                        reveal_strlit(",\"total\":");
                        lemma_item_layout(v@, ii, j, m);
                        let a1 = ii + 16 + escape_seq(m.description).len();
                        let a2 = a1 + 13;
                        let a3 = a2 + m.quantity.len();
                        let a4 = a3 + 14;
                        let a5 = a4 + m.unit_price.len();
                        lemma_quote_align(v@, j0 as int, desc@, j1 as int, m.description, a1);
                        lemma_number_align(v@, a2, a3, m.quantity, qty@, j3 as int);
                        lemma_number_align(v@, a4, a5, m.unit_price, up@, j5 as int);
                        assert(v@.subrange(a5, a5 + 9) == ",\"total\":"@);
                        assert(false);
                    }
                }
            }
            return None;
        },
    };
    let (tot, j7) = scan_number(v, j6);
    if tot.len() == 0 {
        proof {
            assert forall|m: ItemModel, j: int|
                #![trigger encode_item(m), v@.subrange(i as int, j)]
                !(i <= j <= v@.len() && v@.subrange(i as int, j) == encode_item(m) && wf_item(
                    m,
                )) by {
                if i <= j <= v@.len() && v@.subrange(i as int, j) == encode_item(m) && wf_item(m) {
                    reveal_strlit("{\"description\":\"");
                    reveal_strlit("\",\"quantity\":");
                    reveal_strlit(",\"unit_price\":");
                    reveal_strlit(",\"total\":");
                    lemma_item_layout(v@, ii, j, m);
                    let a1 = ii + 16 + escape_seq(m.description).len();
                    let a2 = a1 + 13;
                    let a3 = a2 + m.quantity.len();
                    let a4 = a3 + 14;
                    let a5 = a4 + m.unit_price.len();
                    let a6 = a5 + 9;
                    let a7 = a6 + m.total.len();
                    lemma_quote_align(v@, j0 as int, desc@, j1 as int, m.description, a1);
                    lemma_number_align(v@, a2, a3, m.quantity, qty@, j3 as int);
                    lemma_number_align(v@, a4, a5, m.unit_price, up@, j5 as int);
                    lemma_number_align(v@, a6, a7, m.total, tot@, j7 as int);
                    assert(false);
                }
            }
        }
        return None;
    }
    let j8 = match match_lit(v, j7, "}") {
        Some(j) => j,
        None => {
            proof {
                assert forall|m: ItemModel, j: int|
                    #![trigger encode_item(m), v@.subrange(i as int, j)]
                    !(i <= j <= v@.len() && v@.subrange(i as int, j) == encode_item(m) && wf_item(
                        m,
                    )) by {
                    if i <= j <= v@.len() && v@.subrange(i as int, j) == encode_item(m) && wf_item(
                        m,
                    ) {
                        reveal_strlit("{\"description\":\"");
                        reveal_strlit("\",\"quantity\":");
                        reveal_strlit(",\"unit_price\":");
                        reveal_strlit(",\"total\":");
                        reveal_strlit("}");
                        lemma_item_layout(v@, ii, j, m);
                        let a1 = ii + 16 + escape_seq(m.description).len();
                        let a2 = a1 + 13;
                        let a3 = a2 + m.quantity.len();
                        let a4 = a3 + 14;
                        let a5 = a4 + m.unit_price.len();
                        let a6 = a5 + 9;
                        let a7 = a6 + m.total.len();
                        lemma_quote_align(v@, j0 as int, desc@, j1 as int, m.description, a1);
                        lemma_number_align(v@, a2, a3, m.quantity, qty@, j3 as int);
                        lemma_number_align(v@, a4, a5, m.unit_price, up@, j5 as int);
                        lemma_number_align(v@, a6, a7, m.total, tot@, j7 as int);
                        assert(v@.subrange(a7, a7 + 1) =~= seq![v@[a7]]);
                        assert("}"@ =~= seq!['}']);
                        assert(v@.subrange(a7, a7 + 1) == "}"@);
                        assert(false);
                    }
                }
            }
            return None;
        },
    };
    let item = InvoiceItem {
        description: chars_to_string(&desc),
        quantity: chars_to_string(&qty),
        unit_price: chars_to_string(&up),
        total: chars_to_string(&tot),
    };
    proof {
        let w = v@;
        assert(w.subrange(i as int, j1 as int) =~= w.subrange(i as int, j0 as int) + w.subrange(
            j0 as int,
            j1 as int,
        ));
        assert(w.subrange(i as int, j2 as int) =~= w.subrange(i as int, j1 as int) + w.subrange(
            j1 as int,
            j2 as int,
        ));
        assert(w.subrange(i as int, j3 as int) =~= w.subrange(i as int, j2 as int) + w.subrange(
            j2 as int,
            j3 as int,
        ));
        assert(w.subrange(i as int, j4 as int) =~= w.subrange(i as int, j3 as int) + w.subrange(
            j3 as int,
            j4 as int,
        ));
        assert(w.subrange(i as int, j5 as int) =~= w.subrange(i as int, j4 as int) + w.subrange(
            j4 as int,
            j5 as int,
        ));
        assert(w.subrange(i as int, j6 as int) =~= w.subrange(i as int, j5 as int) + w.subrange(
            j5 as int,
            j6 as int,
        ));
        assert(w.subrange(i as int, j7 as int) =~= w.subrange(i as int, j6 as int) + w.subrange(
            j6 as int,
            j7 as int,
        ));
        assert(w.subrange(i as int, j8 as int) =~= w.subrange(i as int, j7 as int) + w.subrange(
            j7 as int,
            j8 as int,
        ));
        assert(w.subrange(i as int, j8 as int) == encode_item(item@));
    }
    Some((item, j8))
}

/// While the decoder stands before another item, the text of any list
/// it could be reading goes on with the encoding of one more item.
proof fn lemma_no_item_here(w: Seq<char>, n: int, i: int, pp: Seq<ItemModel>, vv: Seq<ItemModel>)
    requires
        w.len() == n,
        3 <= n,
        w == encode_items(vv),
        wf_items(vv),
        wf_items(pp),
        1 <= i <= n,
        pp.len() == 0 ==> i == 1,
        pp.len() > 0 ==> w.subrange(0, i) == "["@ + encode_list(pp) + ","@,
    ensures
        exists|m: ItemModel, jm: int|
            #![trigger encode_item(m), w.subrange(i, jm)]
            i <= jm <= n && w.subrange(i, jm) == encode_item(m) && wf_item(m),
{
    reveal_strlit("[");
    reveal_strlit("]");
    reveal_strlit(",");
    reveal_strlit("{\"description\":\"");
    assert(w.subrange(1, n) =~= encode_list(vv) + seq![']']);
    if vv.len() == 0 {
        assert(w.len() == 2);
        assert(false);
    }
    if pp.len() == 0 {
        lemma_head_item(w, 1, n, vv);
        let m0 = vv[0];
        let jm: int = 1 + encode_item(m0).len() as int;
        assert(w.subrange(i, jm) == encode_item(m0));
    } else {
        assert(","@ =~= seq![',']);
        assert("["@.len() == 1);
        assert(","@.len() == 1);
        assert(w.subrange(0, i).len() == i);
        assert(("["@ + encode_list(pp)).len() == 1 + encode_list(pp).len());
        assert((("["@ + encode_list(pp)) + ","@).len() == ("["@ + encode_list(pp)).len() + 1);
        assert forall|t: int| 0 <= t < i - 1 implies w.subrange(1, i)[t] == (encode_list(pp)
            + seq![','])[t] by {
            assert(w.subrange(1, i)[t] == w.subrange(0, i)[t + 1]);
            assert(w.subrange(0, i)[t + 1] == ("["@ + encode_list(pp) + ","@)[t + 1]);
        }
        assert(w.subrange(1, i) =~= encode_list(pp) + seq![',']);
        assert(w.subrange(1, n) =~= w.subrange(1, i) + w.subrange(i, n));
        assert(encode_list(pp) + (seq![','] + w.subrange(i, n)) =~= encode_list(vv) + seq![']']);
        lemma_list_status(pp, vv, seq![','] + w.subrange(i, n));
        if pp == vv && seq![','] + w.subrange(i, n) == seq![']'] {
            assert((seq![','] + w.subrange(i, n))[0] == ',');
            assert(false);
        }
        let rest = vv.skip(pp.len() as int);
        assert(w.subrange(i, n) =~= (seq![','] + encode_list(rest) + seq![']']).skip(1));
        assert((seq![','] + encode_list(rest) + seq![']']).skip(1) =~= encode_list(rest)
            + seq![']']);
        assert(forall|k: int| 0 <= k < rest.len() ==> wf_item(#[trigger] rest[k]));
        lemma_head_item(w, i, n, rest);
        let m0 = rest[0];
        let jm: int = i + encode_item(m0).len() as int;
        assert(w.subrange(i, jm) == encode_item(m0));
    }
}

/// After a whole item, the text of any list the decoder could be
/// reading continues with either the closing bracket at the very end
/// or a comma.
proof fn lemma_sep_shape(w: Seq<char>, n: int, j: int, pp: Seq<ItemModel>, vv: Seq<ItemModel>)
    requires
        w.len() == n,
        3 <= n,
        w == encode_items(vv),
        wf_items(vv),
        wf_items(pp),
        pp.len() >= 1,
        1 <= j <= n,
        w.subrange(0, j) == "["@ + encode_list(pp),
    ensures
        (j == n - 1 && w[j] == ']') || (j < n && w[j] == ','),
{
    reveal_strlit("[");
    reveal_strlit("]");
    assert(w.subrange(1, n) =~= encode_list(vv) + seq![']']);
    assert("["@.len() == 1);
    assert(w.subrange(0, j).len() == j);
    assert(("["@ + encode_list(pp)).len() == 1 + encode_list(pp).len());
    assert forall|t: int| 0 <= t < j - 1 implies w.subrange(1, j)[t] == encode_list(pp)[t] by {
        assert(w.subrange(1, j)[t] == w.subrange(0, j)[t + 1]);
        assert(w.subrange(0, j)[t + 1] == ("["@ + encode_list(pp))[t + 1]);
    }
    assert(w.subrange(1, j) =~= encode_list(pp));
    assert(w.subrange(1, n) =~= w.subrange(1, j) + w.subrange(j, n));
    assert(encode_list(pp) + w.subrange(j, n) =~= encode_list(vv) + seq![']']);
    lemma_list_status(pp, vv, w.subrange(j, n));
    if pp == vv && w.subrange(j, n) == seq![']'] {
        assert(n - j == 1);
        assert(w[j] == w.subrange(j, n)[0]);
    } else {
        assert(w.subrange(j, n)[0] == ',');
        assert(w[j] == ',');
    }
}

/// A text that spells a joined nonempty list followed by the closing
/// bracket begins with the encoding of the list's first item.
proof fn lemma_head_item(w: Seq<char>, a: int, n: int, rest: Seq<ItemModel>)
    requires
        0 <= a <= n <= w.len(),
        rest.len() >= 1,
        wf_items(rest),
        w.subrange(a, n) == encode_list(rest) + seq![']'],
    ensures
        a + encode_item(rest[0]).len() <= n,
        w.subrange(a, a + encode_item(rest[0]).len()) == encode_item(rest[0]),
        wf_item(rest[0]),
{
    reveal_strlit(",");
    let m0 = rest[0];
    let tail: Seq<char> = if rest.len() == 1 {
        seq![']']
    } else {
        ","@ + encode_list(rest.skip(1)) + seq![']']
    };
    assert(encode_item(m0) + tail =~= encode_list(rest) + seq![']']);
    let jm = a + encode_item(m0).len();
    assert(w.subrange(a, jm) =~= w.subrange(a, n).subrange(0, encode_item(m0).len() as int));
    assert((encode_item(m0) + tail).subrange(0, encode_item(m0).len() as int) =~= encode_item(m0));
}

/// Decode the JSON text of the `items` column. Accepts exactly the form
/// the encoder produces: whatever it accepts is the encoding of the
/// items it returns, and of no other well-formed list; and it rejects
/// only text that is the encoding of no well-formed list.
#[verifier::rlimit(100)]
pub fn items_from_json(s: &str) -> (r: Option<Vec<InvoiceItem>>)
    ensures
        r matches Some(items) ==> s@ == encode_items(items_model(items@)) && wf_items(
            items_model(items@),
        ),
        r matches Some(items) ==> forall|v: Seq<ItemModel>|
            wf_items(v) && s@ == encode_items(v) ==> v == items_model(items@),
        r is None ==> forall|vv: Seq<ItemModel>|
            !(wf_items(vv) && s@ == #[trigger] encode_items(vv)),
{
    let v = crate::text::str_to_chars(s);
    let n = v.len();
    if n < 2 {
        proof {
            assert forall|vv: Seq<ItemModel>|
                !(wf_items(vv) && s@ == #[trigger] encode_items(vv)) by {
                if wf_items(vv) && s@ == encode_items(vv) {
                    reveal_strlit("[");
                    reveal_strlit("]");
                    assert(s@.len() >= 2);
                    assert(false);
                }
            }
        }
        return None;
    }
    if v[0] != '[' {
        proof {
            assert forall|vv: Seq<ItemModel>|
                !(wf_items(vv) && s@ == #[trigger] encode_items(vv)) by {
                if wf_items(vv) && s@ == encode_items(vv) {
                    reveal_strlit("[");
                    reveal_strlit("]");
                    assert(s@[0] == '[');
                    assert(false);
                }
            }
        }
        return None;
    }
    if n == 2 {
        if v[1] == ']' {
            let items: Vec<InvoiceItem> = Vec::new();
            proof {
                reveal_strlit("[");
                reveal_strlit("]");
                assert(items_model(items@) =~= Seq::<ItemModel>::empty());
                assert(s@ =~= encode_items(items_model(items@)));
                assert forall|v: Seq<ItemModel>|
                    wf_items(v) && s@ == encode_items(v) implies v == items_model(items@) by {
                    lemma_items_encoding_injective(v, items_model(items@));
                }
            }
            return Some(items);
        } else {
            proof {
                assert forall|vv: Seq<ItemModel>|
                    !(wf_items(vv) && s@ == #[trigger] encode_items(vv)) by {
                    if wf_items(vv) && s@ == encode_items(vv) {
                        reveal_strlit("[");
                        reveal_strlit("]");
                        reveal_strlit("{\"description\":\"");
                        if vv.len() == 0 {
                            assert(s@ =~= seq!['[', ']']);
                            assert(s@[1] == ']');
                        } else {
                            assert(encode_item(vv[0]).len() >= 16);
                            if vv.len() == 1 {
                                assert(encode_list(vv).len() >= 16);
                            } else {
                                assert(encode_list(vv).len() >= 16);
                            }
                            assert(s@.len() >= 18);
                        }
                        assert(false);
                    }
                }
            }
            return None;
        }
    }
    let ghost w = v@;
    let mut items: Vec<InvoiceItem> = Vec::new();
    let mut i: usize = 1;
    loop
        invariant
            w == v@,
            w == s@,
            n == w.len(),
            3 <= n,
            1 <= i <= n,
            w[0] == '[',
            items@.len() == 0 ==> i == 1,
            items@.len() > 0 ==> w.subrange(0, i as int) == "["@ + encode_list(
                items_model(items@),
            ) + ","@,
            wf_items(items_model(items@)),
        decreases n - i,
    {
        let (item, j) = match parse_item(&v, i) {
            Some(p) => p,
            None => {
                proof {
                    assert forall|vv: Seq<ItemModel>|
                        !(wf_items(vv) && s@ == #[trigger] encode_items(vv)) by {
                        if wf_items(vv) && s@ == encode_items(vv) {
                            lemma_no_item_here(w, n as int, i as int, items_model(items@), vv);
                            let (m, jm): (ItemModel, int) = choose|m: ItemModel, jm: int|
                                #![trigger encode_item(m), w.subrange(i as int, jm)]
                                i <= jm <= n && w.subrange(i as int, jm) == encode_item(m)
                                    && wf_item(m);
                            assert(v@.subrange(i as int, jm) == encode_item(m));
                            assert(false);
                        }
                    }
                }
                return None;
            },
        };
        let ghost prev = items_model(items@);
        items.push(item);
        proof {
            assert(items_model(items@) =~= prev.push(item@));
            lemma_encode_list_snoc(prev, item@);
            if prev.len() == 0 {
                reveal_strlit("[");
                assert(w.subrange(0, 1) =~= "["@);
                assert(w.subrange(0, j as int) =~= w.subrange(0, 1) + w.subrange(1, j as int));
            } else {
                assert(w.subrange(0, j as int) =~= w.subrange(0, i as int) + w.subrange(
                    i as int,
                    j as int,
                ));
            }
            assert(w.subrange(0, j as int) =~= "["@ + encode_list(items_model(items@)));
            assert forall|k: int| 0 <= k < items_model(items@).len() implies wf_item(
                #[trigger] items_model(items@)[k],
            ) by {
                if k < prev.len() {
                    assert(wf_item(prev[k]));
                }
            }
        }
        if j < n && v[j] == ',' {
            proof {
                reveal_strlit(",");
                assert(w.subrange(0, j + 1) =~= w.subrange(0, j as int).push(w[j as int]));
                assert(w.subrange(0, j + 1) =~= "["@ + encode_list(items_model(items@)) + ","@);
            }
            i = j + 1;
        } else if j < n && v[j] == ']' {
            if j + 1 == n {
                proof {
                    reveal_strlit("]");
                    assert(w =~= w.subrange(0, j as int).push(w[j as int]));
                    assert(w =~= "["@ + encode_list(items_model(items@)) + "]"@);
                    assert(s@ == encode_items(items_model(items@)));
                    assert forall|v: Seq<ItemModel>|
                        wf_items(v) && s@ == encode_items(v) implies v == items_model(items@) by {
                        lemma_items_encoding_injective(v, items_model(items@));
                    }
                }
                return Some(items);
            } else {
                proof {
                    assert forall|vv: Seq<ItemModel>|
                        !(wf_items(vv) && s@ == #[trigger] encode_items(vv)) by {
                        if wf_items(vv) && s@ == encode_items(vv) {
                            lemma_sep_shape(w, n as int, j as int, items_model(items@), vv);
                            assert(false);
                        }
                    }
                }
                return None;
            }
        } else {
            proof {
                assert forall|vv: Seq<ItemModel>|
                    !(wf_items(vv) && s@ == #[trigger] encode_items(vv)) by {
                    if wf_items(vv) && s@ == encode_items(vv) {
                        lemma_sep_shape(w, n as int, j as int, items_model(items@), vv);
                        assert(false);
                    }
                }
            }
            return None;
        }
    }
}

} // verus!
