use vstd::prelude::*;

use crate::reports::CellValue;
use crate::sheet_xml::{
    attr_char, decoded_attr, escaped_attr, escaped_text, first_in, inline_text, rendered_cell, replaced,
    style_part, text_char,
};
use crate::text::{is_blank, occurs_at};

verus! {

/// A text written character by character, each as the map writes it.
pub open spec fn pieces(s: Seq<char>, f: spec_fn(char) -> Seq<char>) -> Seq<char>
    decreases s.len(),
{
    if s.len() == 0 {
        seq![]
    } else {
        f(s[0]) + pieces(s.drop_first(), f)
    }
}

proof fn lemma_pieces_push(s: Seq<char>, f: spec_fn(char) -> Seq<char>, c: char)
    ensures
        pieces(s.push(c), f) == pieces(s, f) + f(c),
    decreases s.len(),
{
    if s.len() == 0 {
        let e = Seq::<char>::empty();
        assert(s.push(c).drop_first() =~= e);
        assert(s.push(c)[0] == c);
        assert(pieces(e, f) == e);
        assert(pieces(s.push(c), f) == f(c) + pieces(e, f));
        assert(f(c) + e =~= f(c));
        assert(s =~= e);
    } else {
        lemma_pieces_push(s.drop_first(), f, c);
        assert(s.push(c).drop_first() =~= s.drop_first().push(c));
        assert(s.push(c)[0] == s[0]);
        assert(pieces(s.push(c), f) =~= f(s[0]) + (pieces(s.drop_first(), f) + f(c)));
    }
}

pub proof fn lemma_escaped_text_pieces(s: Seq<char>)
    ensures
        escaped_text(s) == pieces(s, |c: char| text_char(c)),
    decreases s.len(),
{
    if s.len() > 0 {
        lemma_escaped_text_pieces(s.drop_last());
        lemma_pieces_push(s.drop_last(), |c: char| text_char(c), s.last());
        assert(s.drop_last().push(s.last()) =~= s);
    }
}

pub proof fn lemma_escaped_attr_pieces(s: Seq<char>)
    ensures
        escaped_attr(s) == pieces(s, |c: char| attr_char(c)),
    decreases s.len(),
{
    if s.len() > 0 {
        lemma_escaped_attr_pieces(s.drop_last());
        lemma_pieces_push(s.drop_last(), |c: char| attr_char(c), s.last());
        assert(s.drop_last().push(s.last()) =~= s);
    }
}

proof fn lemma_pieces_identity(s: Seq<char>)
    ensures
        pieces(s, |c: char| seq![c]) == s,
    decreases s.len(),
{
    if s.len() > 0 {
        lemma_pieces_identity(s.drop_first());
        assert(seq![s[0]] + s.drop_first() =~= s);
    }
}

/// No `&` in the text.
pub open spec fn amp_free(t: Seq<char>) -> bool {
    forall|i: int| 0 <= i < t.len() ==> #[trigger] t[i] != '&'
}

pub open spec fn differs_at(p: Seq<char>, from: Seq<char>, k: int) -> bool {
    0 < k < p.len() && k < from.len() && p[k] != from[k]
}

/// A piece that decoding `from` passes over: text without `&`, or another entity, which starts
/// with `&`, has no other `&`, and differs from `from` before either ends.
pub open spec fn kept_piece(p: Seq<char>, from: Seq<char>) -> bool {
    ||| amp_free(p)
    ||| p.len() > 0 && p[0] == '&' && amp_free(p.drop_first()) && exists|k: int| #[trigger] differs_at(p, from, k)
}

proof fn lemma_replaced_amp_free(t: Seq<char>, r: Seq<char>, from: Seq<char>, to: Seq<char>)
    requires
        from.len() > 0,
        from[0] == '&',
        amp_free(t),
    ensures
        replaced(t + r, from, to) == t + replaced(r, from, to),
    decreases t.len(),
{
    if t.len() == 0 {
        assert(t + r =~= r);
    } else {
        let s = t + r;
        assert(s[0] == t[0]);
        assert(t[0] != '&');
        if from.len() <= s.len() {
            assert(s.take(from.len() as int)[0] != from[0]);
        }
        assert(s.drop_first() =~= t.drop_first() + r);
        assert(amp_free(t.drop_first())) by {
            assert forall|i: int| 0 <= i < t.drop_first().len() implies #[trigger] t.drop_first()[i] != '&' by {
                assert(t.drop_first()[i] == t[i + 1]);
            }
        }
        lemma_replaced_amp_free(t.drop_first(), r, from, to);
        assert(seq![s[0]] + (t.drop_first() + replaced(r, from, to)) =~= t + replaced(r, from, to));
    }
}

proof fn lemma_replaced_kept_piece(p: Seq<char>, r: Seq<char>, from: Seq<char>, to: Seq<char>)
    requires
        from.len() > 0,
        from[0] == '&',
        kept_piece(p, from),
    ensures
        replaced(p + r, from, to) == p + replaced(r, from, to),
{
    if amp_free(p) {
        lemma_replaced_amp_free(p, r, from, to);
    } else {
        let k = choose|k: int| #[trigger] differs_at(p, from, k);
        let s = p + r;
        assert(s.len() > 0);
        if from.len() <= s.len() {
            assert(s.take(from.len() as int)[k] == p[k]);
            assert(s.take(from.len() as int) != from);
        }
        assert(s.drop_first() =~= p.drop_first() + r);
        lemma_replaced_amp_free(p.drop_first(), r, from, to);
        assert(seq![s[0]] + (p.drop_first() + replaced(r, from, to)) =~= p + replaced(r, from, to));
    }
}

proof fn lemma_replaced_entity(r: Seq<char>, from: Seq<char>, to: Seq<char>)
    requires
        from.len() > 0,
    ensures
        replaced(from + r, from, to) == to + replaced(r, from, to),
{
    let s = from + r;
    assert(s.take(from.len() as int) =~= from);
    assert(s.skip(from.len() as int) =~= r);
}

/// One step of decoding a text written piece by piece: each piece that is the entity becomes
/// its character, every other piece stays as it is.
proof fn lemma_decode_step(
    s: Seq<char>,
    f: spec_fn(char) -> Seq<char>,
    g: spec_fn(char) -> Seq<char>,
    from: Seq<char>,
    to: Seq<char>,
)
    requires
        from.len() > 0,
        from[0] == '&',
        forall|c: char|
            (#[trigger] f(c) == from && g(c) == to) || (kept_piece(f(c), from) && g(c) == f(c)),
    ensures
        replaced(pieces(s, f), from, to) == pieces(s, g),
    decreases s.len(),
{
    if s.len() > 0 {
        let c = s[0];
        let rest = pieces(s.drop_first(), f);
        lemma_decode_step(s.drop_first(), f, g, from, to);
        if f(c) == from && g(c) == to {
            lemma_replaced_entity(rest, from, to);
        } else {
            lemma_replaced_kept_piece(f(c), rest, from, to);
        }
    }
}

proof fn lemma_entity_facts()
    ensures
        "&amp;"@ == seq!['&', 'a', 'm', 'p', ';'],
        "&lt;"@ == seq!['&', 'l', 't', ';'],
        "&gt;"@ == seq!['&', 'g', 't', ';'],
        "&quot;"@ == seq!['&', 'q', 'u', 'o', 't', ';'],
        "&apos;"@ == seq!['&', 'a', 'p', 'o', 's', ';'],
        "\""@ == seq!['"'],
        "'"@ == seq!['\''],
        "<"@ == seq!['<'],
        ">"@ == seq!['>'],
        "&"@ == seq!['&'],
{
    reveal_strlit("&amp;");
    reveal_strlit("&lt;");
    reveal_strlit("&gt;");
    reveal_strlit("&quot;");
    reveal_strlit("&apos;");
    reveal_strlit("\"");
    reveal_strlit("'");
    reveal_strlit("<");
    reveal_strlit(">");
    reveal_strlit("&");
}

proof fn lemma_entity_kept(e: Seq<char>, from: Seq<char>, k: int)
    requires
        e.len() > 1,
        e[0] == '&',
        forall|i: int| 1 <= i < e.len() ==> e[i] != '&',
        0 < k < e.len(),
        k < from.len(),
        e[k] != from[k],
    ensures
        kept_piece(e, from),
{
    assert(differs_at(e, from, k));
    assert forall|i: int| 0 <= i < e.drop_first().len() implies #[trigger] e.drop_first()[i] != '&' by {
        assert(e.drop_first()[i] == e[i + 1]);
    }
}

proof fn lemma_single_kept(c: char, from: Seq<char>)
    requires
        c != '&',
    ensures
        kept_piece(seq![c], from),
{
    assert(amp_free(seq![c]));
}

/// Text written as element text reads back unchanged: decoding the XML escapes of an escaped
/// text gives the text.
pub proof fn law_escaped_text_decodes_back(s: Seq<char>)
    ensures
        decoded_attr(escaped_text(s)) == s,
{
    lemma_entity_facts();
    lemma_escaped_text_pieces(s);
    let amp = "&amp;"@;
    let lt = "&lt;"@;
    let gt = "&gt;"@;
    let f0 = |c: char| text_char(c);
    let f3 = |c: char| if c == '<' { seq!['<'] } else { text_char(c) };
    let f4 = |c: char| if c == '&' { amp } else { seq![c] };
    let f5 = |c: char| seq![c];
    assert forall|c: char| (#[trigger] f0(c) == "&quot;"@ && f0(c) == "\""@) || (kept_piece(f0(c), "&quot;"@) && f0(c) == f0(c)) by {
        if c == '&' {
            lemma_entity_kept(amp, "&quot;"@, 1);
        } else if c == '<' {
            lemma_entity_kept(lt, "&quot;"@, 1);
        } else if c == '>' {
            lemma_entity_kept(gt, "&quot;"@, 1);
        } else {
            lemma_single_kept(c, "&quot;"@);
        }
    }
    lemma_decode_step(s, f0, f0, "&quot;"@, "\""@);
    assert forall|c: char| (#[trigger] f0(c) == "&apos;"@ && f0(c) == "'"@) || (kept_piece(f0(c), "&apos;"@) && f0(c) == f0(c)) by {
        if c == '&' {
            lemma_entity_kept(amp, "&apos;"@, 2);
        } else if c == '<' {
            lemma_entity_kept(lt, "&apos;"@, 1);
        } else if c == '>' {
            lemma_entity_kept(gt, "&apos;"@, 1);
        } else {
            lemma_single_kept(c, "&apos;"@);
        }
    }
    lemma_decode_step(s, f0, f0, "&apos;"@, "'"@);
    assert forall|c: char| (#[trigger] f0(c) == lt && f3(c) == "<"@) || (kept_piece(f0(c), lt) && f3(c) == f0(c)) by {
        if c == '&' {
            lemma_entity_kept(amp, lt, 1);
        } else if c == '<' {
        } else if c == '>' {
            lemma_entity_kept(gt, lt, 1);
        } else {
            lemma_single_kept(c, lt);
        }
    }
    lemma_decode_step(s, f0, f3, lt, "<"@);
    assert forall|c: char| (#[trigger] f3(c) == gt && f4(c) == ">"@) || (kept_piece(f3(c), gt) && f4(c) == f3(c)) by {
        if c == '&' {
            lemma_entity_kept(amp, gt, 1);
        } else if c == '<' {
            lemma_single_kept(c, gt);
        } else if c == '>' {
        } else {
            lemma_single_kept(c, gt);
        }
    }
    lemma_decode_step(s, f3, f4, gt, ">"@);
    assert forall|c: char| (#[trigger] f4(c) == amp && f5(c) == "&"@) || (kept_piece(f4(c), amp) && f5(c) == f4(c)) by {
        if c != '&' {
            lemma_single_kept(c, amp);
        }
    }
    lemma_decode_step(s, f4, f5, amp, "&"@);
    lemma_pieces_identity(s);
}

/// An attribute value reads back unchanged: decoding the XML escapes of an escaped value gives
/// the value.
pub proof fn law_escaped_attr_decodes_back(s: Seq<char>)
    ensures
        decoded_attr(escaped_attr(s)) == s,
{
    lemma_entity_facts();
    lemma_escaped_attr_pieces(s);
    let amp = "&amp;"@;
    let lt = "&lt;"@;
    let gt = "&gt;"@;
    let quot = "&quot;"@;
    let f0 = |c: char| attr_char(c);
    let f1 = |c: char| if c == '"' { seq!['"'] } else { attr_char(c) };
    let f3 = |c: char| if c == '"' || c == '<' { seq![c] } else { attr_char(c) };
    let f4 = |c: char| if c == '&' { amp } else { seq![c] };
    let f5 = |c: char| seq![c];
    assert forall|c: char| (#[trigger] f0(c) == quot && f1(c) == "\""@) || (kept_piece(f0(c), quot) && f1(c) == f0(c)) by {
        if c == '&' {
            lemma_entity_kept(amp, quot, 1);
        } else if c == '"' {
        } else if c == '<' {
            lemma_entity_kept(lt, quot, 1);
        } else if c == '>' {
            lemma_entity_kept(gt, quot, 1);
        } else {
            lemma_single_kept(c, quot);
        }
    }
    lemma_decode_step(s, f0, f1, quot, "\""@);
    assert forall|c: char| (#[trigger] f1(c) == "&apos;"@ && f1(c) == "'"@) || (kept_piece(f1(c), "&apos;"@) && f1(c) == f1(c)) by {
        if c == '&' {
            lemma_entity_kept(amp, "&apos;"@, 2);
        } else if c == '"' {
            lemma_single_kept(c, "&apos;"@);
        } else if c == '<' {
            lemma_entity_kept(lt, "&apos;"@, 1);
        } else if c == '>' {
            lemma_entity_kept(gt, "&apos;"@, 1);
        } else {
            lemma_single_kept(c, "&apos;"@);
        }
    }
    lemma_decode_step(s, f1, f1, "&apos;"@, "'"@);
    assert forall|c: char| (#[trigger] f1(c) == lt && f3(c) == "<"@) || (kept_piece(f1(c), lt) && f3(c) == f1(c)) by {
        if c == '&' {
            lemma_entity_kept(amp, lt, 1);
        } else if c == '"' {
            lemma_single_kept(c, lt);
        } else if c == '<' {
        } else if c == '>' {
            lemma_entity_kept(gt, lt, 1);
        } else {
            lemma_single_kept(c, lt);
        }
    }
    lemma_decode_step(s, f1, f3, lt, "<"@);
    assert forall|c: char| (#[trigger] f3(c) == gt && f4(c) == ">"@) || (kept_piece(f3(c), gt) && f4(c) == f3(c)) by {
        if c == '&' {
            lemma_entity_kept(amp, gt, 1);
        } else if c == '"' || c == '<' {
            lemma_single_kept(c, gt);
        } else if c == '>' {
        } else {
            lemma_single_kept(c, gt);
        }
    }
    lemma_decode_step(s, f3, f4, gt, ">"@);
    assert forall|c: char| (#[trigger] f4(c) == amp && f5(c) == "&"@) || (kept_piece(f4(c), amp) && f5(c) == f4(c)) by {
        if c != '&' {
            lemma_single_kept(c, amp);
        }
    }
    lemma_decode_step(s, f4, f5, amp, "&"@);
    lemma_pieces_identity(s);
}

/// The character does not occur in the text.
pub open spec fn has_no(s: Seq<char>, c: char) -> bool {
    forall|i: int| 0 <= i < s.len() ==> #[trigger] s[i] != c
}

proof fn lemma_pieces_has_no(s: Seq<char>, f: spec_fn(char) -> Seq<char>, c: char)
    requires
        forall|x: char| has_no(#[trigger] f(x), c),
    ensures
        has_no(pieces(s, f), c),
    decreases s.len(),
{
    if s.len() > 0 {
        lemma_pieces_has_no(s.drop_first(), f, c);
        let a = f(s[0]);
        let b = pieces(s.drop_first(), f);
        assert(has_no(a, c));
        assert forall|i: int| 0 <= i < (a + b).len() implies #[trigger] (a + b)[i] != c by {
            if i < a.len() {
                assert((a + b)[i] == a[i]);
            } else {
                assert((a + b)[i] == b[i - a.len()]);
            }
        }
    }
}

/// Escaped text and attribute values hold no `<` or `>`, and attribute values no `"`.
pub proof fn lemma_escaped_have_no_markup(s: Seq<char>)
    ensures
        has_no(escaped_text(s), '<'),
        has_no(escaped_text(s), '>'),
        has_no(escaped_attr(s), '<'),
        has_no(escaped_attr(s), '>'),
        has_no(escaped_attr(s), '"'),
{
    lemma_entity_facts();
    lemma_escaped_text_pieces(s);
    lemma_escaped_attr_pieces(s);
    let ft = |c: char| text_char(c);
    let fa = |c: char| attr_char(c);
    assert forall|x: char| has_no(#[trigger] ft(x), '<') && has_no(ft(x), '>') by {}
    assert forall|x: char| has_no(#[trigger] fa(x), '<') && has_no(fa(x), '>') && has_no(fa(x), '"') by {}
    lemma_pieces_has_no(s, ft, '<');
    lemma_pieces_has_no(s, ft, '>');
    lemma_pieces_has_no(s, fa, '<');
    lemma_pieces_has_no(s, fa, '>');
    lemma_pieces_has_no(s, fa, '"');
}

/// `first_in` finds an occurrence when no earlier one lies in the window.
pub proof fn lemma_first_in_at(hay: Seq<char>, n: Seq<char>, f: int, t: int, p: int)
    requires
        0 <= f <= p,
        p + n.len() <= t <= hay.len(),
        occurs_at(hay, n, p),
        forall|q: int| f <= q < p ==> !occurs_at(hay, n, q),
    ensures
        first_in(hay, n, f, t) == Some(p),
    decreases p - f,
{
    if f < p {
        assert(!occurs_at(hay, n, f));
        lemma_first_in_at(hay, n, f + 1, t, p);
    }
}

pub proof fn lemma_style_part_has_no_lt(style: Option<Seq<char>>)
    ensures
        has_no(style_part(style), '<'),
        has_no(style_part(style), '>'),
{
    reveal_strlit(" s=\"");
    reveal_strlit("\"");
    match style {
        Some(s) => {
            if !is_blank(s) {
                lemma_escaped_have_no_markup(s);
                let e = escaped_attr(s);
                let sp = " s=\""@ + e + "\""@;
                assert forall|i: int| 0 <= i < sp.len() implies #[trigger] sp[i] != '<' && sp[i] != '>' by {
                    if i >= 4 && i < 4 + e.len() {
                        assert(sp[i] == e[i - 4]);
                    }
                }
            }
        },
        None => {},
    }
}

/// A text written into a cell is what the cell's XML holds: the inline text of the rendered
/// cell is the text.
pub proof fn law_rendered_text_cell_holds_its_text(cell: Seq<char>, style: Option<Seq<char>>, v: String)
    ensures
        inline_text(rendered_cell(cell, style, CellValue::Text(v))) == Some(v@),
{
    reveal_strlit("<c r=\"");
    reveal_strlit("\"");
    reveal_strlit(" t=\"inlineStr\"><is><t>");
    reveal_strlit("</t></is></c>");
    reveal_strlit("<t>");
    reveal_strlit("</t>");
    let a = "<c r=\""@;
    let b = "\""@;
    let c = " t=\"inlineStr\"><is><t>"@;
    let d = "</t></is></c>"@;
    let ea = escaped_attr(cell);
    let sp = style_part(style);
    let et = escaped_text(v@);
    lemma_escaped_have_no_markup(cell);
    lemma_escaped_have_no_markup(v@);
    lemma_style_part_has_no_lt(style);
    let r = rendered_cell(cell, style, CellValue::Text(v));
    assert(r == a + ea + b + sp + c + et + d);
    let base: int = (a.len() + ea.len() + b.len() + sp.len()) as int;
    let p: int = base + 19;
    let j: int = p + 3 + et.len();
    assert(c.len() == 22);
    assert(d.len() == 13);
    assert(r.len() == j + 13);
    assert forall|q: int| 0 <= q < a.len() implies #[trigger] r[q] == a[q] by {}
    assert forall|q: int| a.len() <= q < a.len() + ea.len() implies #[trigger] r[q] == ea[q - a.len()] by {}
    assert(r[a.len() + ea.len() as int] == '"');
    assert forall|q: int| a.len() + ea.len() + 1 <= q < base implies #[trigger] r[q] == sp[q - a.len() - ea.len() - 1] by {}
    assert forall|q: int| base <= q < base + 22 implies #[trigger] r[q] == c[q - base] by {}
    assert forall|q: int| p + 3 <= q < j implies #[trigger] r[q] == et[q - p - 3] by {}
    assert forall|q: int| j <= q < j + 13 implies #[trigger] r[q] == d[q - j] by {}
    let open = "<t>"@;
    let close = "</t>"@;
    assert(r.subrange(p, p + 3) =~= open);
    assert forall|q: int| 0 <= q < p implies !occurs_at(r, open, q) by {
        if occurs_at(r, open, q) {
            assert(r.subrange(q, q + 3)[0] == r[q]);
            assert(r.subrange(q, q + 3)[1] == r[q + 1]);
            assert(r[q] == '<' && r[q + 1] == 't');
            if q < a.len() {
                assert(q == 0);
            } else if q < a.len() + ea.len() {
                assert(ea[q - a.len()] != '<');
            } else if q == a.len() + ea.len() {
            } else if q < base {
                assert(sp[q - a.len() - ea.len() - 1] != '<');
            } else {
                assert(c[q - base] == '<');
                assert(q - base == 15);
            }
        }
    }
    lemma_first_in_at(r, open, 0, r.len() as int, p);
    assert(r.subrange(j, j + 4) =~= close);
    assert forall|q: int| p + 3 <= q < j implies !occurs_at(r, close, q) by {
        if occurs_at(r, close, q) {
            assert(r.subrange(q, q + 4)[0] == r[q]);
            assert(et[q - p - 3] != '<');
        }
    }
    lemma_first_in_at(r, close, p + 3, r.len() as int, j);
    assert(r.subrange(p + 3, j) =~= et);
    law_escaped_text_decodes_back(v@);
}

} // verus!
