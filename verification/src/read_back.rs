use vstd::prelude::*;

use crate::profile::leading_upper;
use crate::reports::CellValue;
use crate::sheet_xml::{
    attr_char, attr_value, cell_attr, cell_parts, cell_scan, cell_text_of, escaped_attr, escaped_text, first_in,
    lemma_cell_scan_bounds, lemma_first_in, lemma_row_scan_bounds, patched_sheet, rendered_cell,
    row_attr, row_bounds_spec, row_scan, style_part, tag_self_closing,
};
use crate::text::{all_digits, is_ws, lead_ws, lemma_lead_ws_bound, lemma_trail_ws_bound, occurs_at, trail_ws, trim};
use crate::xml_text::{
    law_rendered_text_cell_holds_its_text, lemma_escaped_have_no_markup, lemma_first_in_at,
    lemma_style_part_has_no_lt, pieces,
};

verus! {

/// Before the first occurrence found, the window holds none.
pub proof fn lemma_first_in_none_before(hay: Seq<char>, n: Seq<char>, f: int, t: int)
    requires
        0 <= f,
        t <= hay.len(),
    ensures
        match first_in(hay, n, f, t) {
            Some(p) => forall|q: int| f <= q < p ==> !occurs_at(hay, n, q),
            None => forall|q: int| f <= q && q + n.len() <= t ==> !occurs_at(hay, n, q),
        },
    decreases t + 1 - f,
{
    if f > t || f + n.len() > t {
    } else if occurs_at(hay, n, f) {
    } else {
        lemma_first_in_none_before(hay, n, f + 1, t);
    }
}

/// An occurrence inside the window means `first_in` finds one, at or before it.
pub proof fn lemma_first_in_finds(hay: Seq<char>, n: Seq<char>, f: int, t: int, p: int)
    requires
        0 <= f <= p,
        p + n.len() <= t,
        occurs_at(hay, n, p),
    ensures
        first_in(hay, n, f, t) matches Some(q) && q <= p,
    decreases p - f,
{
    if !occurs_at(hay, n, f) {
        lemma_first_in_finds(hay, n, f + 1, t, p);
    }
}

/// Two texts that agree on their first `m` characters agree on each occurrence lying there.
pub proof fn lemma_occurs_in_prefix(x: Seq<char>, y: Seq<char>, n: Seq<char>, q: int, m: int)
    requires
        0 <= q,
        q + n.len() <= m,
        m <= x.len(),
        m <= y.len(),
        x.take(m) == y.take(m),
    ensures
        occurs_at(x, n, q) == occurs_at(y, n, q),
{
    assert(x.subrange(q, q + n.len()) =~= x.take(m).subrange(q, q + n.len()));
    assert(y.subrange(q, q + n.len()) =~= y.take(m).subrange(q, q + n.len()));
}

/// A search whose window lies in a common prefix finds the same in both texts.
pub proof fn lemma_first_in_window_same(x: Seq<char>, y: Seq<char>, n: Seq<char>, f: int, t: int, m: int)
    requires
        0 <= f,
        t <= m,
        m <= x.len(),
        m <= y.len(),
        x.take(m) == y.take(m),
    ensures
        first_in(x, n, f, t) == first_in(y, n, f, t),
    decreases t + 1 - f,
{
    if f > t || f + n.len() > t {
    } else {
        lemma_occurs_in_prefix(x, y, n, f, m);
        if !occurs_at(x, n, f) {
            lemma_first_in_window_same(x, y, n, f + 1, t, m);
        }
    }
}

/// A search whose first hit lies in a common prefix hits the same place in both texts.
pub proof fn lemma_first_in_transfer(x: Seq<char>, y: Seq<char>, n: Seq<char>, f: int, tx: int, ty: int, m: int, p: int)
    requires
        0 <= f,
        first_in(x, n, f, tx) == Some(p),
        p + n.len() <= m,
        m <= tx <= x.len(),
        m <= ty <= y.len(),
        x.take(m) == y.take(m),
    ensures
        first_in(y, n, f, ty) == Some(p),
    decreases tx + 1 - f,
{
    lemma_first_in(x, n, f, tx);
    lemma_occurs_in_prefix(x, y, n, f, m);
    if !occurs_at(x, n, f) {
        lemma_first_in_transfer(x, y, n, f + 1, tx, ty, m, p);
    }
}

/// A row scan that starts at `at` finds a row at or after it.
pub proof fn lemma_row_scan_from(x: Seq<char>, attr: Seq<char>, at: int)
    ensures
        row_scan(x, attr, at) matches Some((s, oe, cs, e, closed)) ==> at <= s,
    decreases x.len() + 1 - at,
{
    if at < 0 || at > x.len() {
    } else {
        reveal_strlit("<row");
        reveal_strlit(">");
        lemma_first_in(x, "<row"@, at, x.len() as int);
        if let Some(start) = first_in(x, "<row"@, at, x.len() as int) {
            lemma_first_in(x, ">"@, start, x.len() as int);
            if let Some(gt) = first_in(x, ">"@, start, x.len() as int) {
                if first_in(x, attr, start, gt + 1) is None {
                    lemma_row_scan_from(x, attr, gt + 1);
                }
            }
        }
    }
}

/// A cell scan that starts at `at` finds a cell at or after it.
pub proof fn lemma_cell_scan_from(x: Seq<char>, attr: Seq<char>, at: int, end_at: int)
    ensures
        cell_scan(x, attr, at, end_at) matches Some((s, oe, e)) ==> at <= s,
    decreases end_at - at,
{
    if at < 0 || at >= end_at || end_at > x.len() {
    } else {
        reveal_strlit("<c");
        reveal_strlit(">");
        lemma_first_in(x, "<c"@, at, end_at);
        if let Some(start) = first_in(x, "<c"@, at, end_at) {
            lemma_first_in(x, ">"@, start, end_at);
            if let Some(gt) = first_in(x, ">"@, start, end_at) {
                if first_in(x, attr, start, gt + 1) is None {
                    lemma_cell_scan_from(x, attr, gt + 1, end_at);
                }
            }
        }
    }
}

/// Where a row scan finds its row in the common prefix of two texts (through the row's `<row`),
/// the scan of the other text gets to the same row.
pub proof fn lemma_row_scan_reaches(x: Seq<char>, y: Seq<char>, attr: Seq<char>, at: int, m: int)
    requires
        0 <= at,
        row_scan(x, attr, at) matches Some((s, oe, cs, e, closed)) && s + 4 <= m,
        m <= x.len(),
        m <= y.len(),
        x.take(m) == y.take(m),
    ensures
        row_scan(x, attr, at) matches Some((s, oe, cs, e, closed)) && row_scan(y, attr, at) == row_scan(
            y,
            attr,
            s,
        ),
    decreases x.len() + 1 - at,
{
    reveal_strlit("<row");
    reveal_strlit(">");
    let (s, oe, cs, e, closed) = row_scan(x, attr, at)->0;
    lemma_first_in(x, "<row"@, at, x.len() as int);
    let start = first_in(x, "<row"@, at, x.len() as int)->0;
    lemma_first_in(x, ">"@, start, x.len() as int);
    let gt = first_in(x, ">"@, start, x.len() as int)->0;
    assert(x.subrange(start, start + 4) == "<row"@);
    assert(gt >= start + 4) by {
        lemma_first_in_none_before(x, ">"@, start, x.len() as int);
        if gt < start + 4 {
            assert(x[gt] == x.subrange(start, start + 4)[gt - start]);
            assert(x.subrange(gt, gt + 1)[0] == x[gt]);
        }
    }
    if first_in(x, attr, start, gt + 1) is None {
        assert(row_scan(x, attr, at) == row_scan(x, attr, gt + 1));
        lemma_row_scan_from(x, attr, gt + 1);
        lemma_row_scan_bounds(x, attr, gt + 1);
        assert(gt + 1 <= s && s < oe);
        lemma_first_in_transfer(x, y, "<row"@, at, x.len() as int, y.len() as int, m, start);
        lemma_first_in_transfer(x, y, ">"@, start, x.len() as int, y.len() as int, m, gt);
        lemma_first_in_window_same(x, y, attr, start, gt + 1, m);
        lemma_row_scan_reaches(x, y, attr, gt + 1, m);
    } else {
        assert(s == start);
        lemma_first_in_transfer(x, y, "<row"@, at, x.len() as int, y.len() as int, m, start);
        lemma_first_in_transfer(x, y, "<row"@, start, x.len() as int, y.len() as int, m, start);
    }
}

/// Where a cell scan finds its cell at `c0`, and the two texts agree through `c0 + 2` (the
/// `<c` of the cell), the scan of the other text gets to `c0` with nothing found before.
pub proof fn lemma_cell_scan_reaches(
    x: Seq<char>,
    y: Seq<char>,
    attr: Seq<char>,
    at: int,
    ex: int,
    ey: int,
    m: int,
)
    requires
        0 <= at,
        cell_scan(x, attr, at, ex) matches Some((c0, coe, ce)) && c0 + 2 <= m,
        m <= ex <= x.len(),
        m <= ey <= y.len(),
        x.take(m) == y.take(m),
    ensures
        cell_scan(x, attr, at, ex) matches Some((c0, coe, ce)) && cell_scan(y, attr, at, ey) == cell_scan(
            y,
            attr,
            c0,
            ey,
        ),
    decreases ex - at,
{
    reveal_strlit("<c");
    reveal_strlit(">");
    let (c0, coe, ce) = cell_scan(x, attr, at, ex)->0;
    lemma_first_in(x, "<c"@, at, ex);
    let start = first_in(x, "<c"@, at, ex)->0;
    lemma_first_in(x, ">"@, start, ex);
    let gt = first_in(x, ">"@, start, ex)->0;
    assert(x.subrange(start, start + 2) == "<c"@);
    if first_in(x, attr, start, gt + 1) is None {
        lemma_cell_scan_from(x, attr, gt + 1, ex);
        assert(start + 2 <= c0 + 2) by {
            assert(gt >= start);
        }
        lemma_first_in_transfer(x, y, "<c"@, at, ex, ey, m, start);
        assert(gt + 1 <= c0);
        lemma_first_in_transfer(x, y, ">"@, start, ex, ey, m, gt);
        lemma_first_in_window_same(x, y, attr, start, gt + 1, m);
        lemma_cell_scan_reaches(x, y, attr, gt + 1, ex, ey, m);
    } else {
        assert(c0 == start);
        lemma_first_in_transfer(x, y, "<c"@, at, ex, ey, m, start);
        lemma_first_in_transfer(x, y, "<c"@, start, ex, ey, m, start);
    }
}

proof fn lemma_leading_upper_chars(t: Seq<char>)
    ensures
        leading_upper(t) <= t.len(),
        forall|i: int| 0 <= i < leading_upper(t) ==> crate::cells::is_upper_letter(#[trigger] t[i]),
    decreases t.len(),
{
    if t.len() > 0 && crate::cells::is_upper_letter(t[0]) {
        lemma_leading_upper_chars(t.drop_first());
        assert forall|i: int| 0 <= i < leading_upper(t) implies crate::cells::is_upper_letter(#[trigger] t[i]) by {
            if i > 0 {
                assert(t[i] == t.drop_first()[i - 1]);
            }
        }
    }
}

/// A character an attribute value writes as itself.
pub open spec fn plain_char(c: char) -> bool {
    c != '&' && c != '"' && c != '<' && c != '>'
}

proof fn lemma_plain_pieces(s: Seq<char>)
    requires
        forall|i: int| 0 <= i < s.len() ==> plain_char(#[trigger] s[i]),
    ensures
        pieces(s, |c: char| attr_char(c)) == s,
    decreases s.len(),
{
    if s.len() > 0 {
        lemma_plain_pieces(s.drop_first());
        assert(plain_char(s[0]));
        assert(attr_char(s[0]) == seq![s[0]]);
        assert(seq![s[0]] + s.drop_first() =~= s);
    }
}

/// A cell reference is written into an attribute as it is: once trimmed it is letters, an
/// optional `+` and digits, and what trimming drops is whitespace.
pub proof fn lemma_cell_reference_plain(cell: Seq<char>)
    requires
        cell_parts(cell) is Some,
    ensures
        escaped_attr(cell) == cell,
{
    let lead = lead_ws(cell);
    lemma_lead_ws_bound(cell);
    let u = cell.skip(lead as int);
    lemma_trail_ws_bound(u);
    let t = trim(cell);
    assert(t == u.take(u.len() - trail_ws(u)));
    let k = leading_upper(t);
    lemma_leading_upper_chars(t);
    let rest = t.skip(k as int);
    let d = if rest.len() > 0 && rest[0] == '+' { rest.drop_first() } else { rest };
    assert(all_digits(d));
    assert forall|i: int| 0 <= i < cell.len() implies plain_char(#[trigger] cell[i]) by {
        if i < lead {
            assert(is_ws(cell[i]));
        } else if i - lead >= u.len() - trail_ws(u) {
            assert(cell[i] == u[i - lead]);
            assert(is_ws(u[i - lead]));
        } else {
            let j = i - lead;
            assert(cell[i] == u[j]);
            assert(u[j] == t[j]);
            if j < k {
                assert(crate::cells::is_upper_letter(t[j]));
            } else {
                assert(t[j] == rest[j - k]);
                if rest.len() > 0 && rest[0] == '+' {
                    if j - k > 0 {
                        assert(rest[j - k] == d[j - k - 1]);
                        assert(crate::text::is_digit(d[j - k - 1]));
                    }
                } else {
                    assert(rest[j - k] == d[j - k]);
                    assert(crate::text::is_digit(d[j - k]));
                }
            }
        }
    }
    crate::xml_text::lemma_escaped_attr_pieces(cell);
    lemma_plain_pieces(cell);
}

/// Where the parts of a rendered text cell lie: the cell reference from 6, the start tag's
/// `>` at `base + 14`, the text from `base + 22`, and the closing tags at `j`; the only `<` are
/// those of the tags.
pub open spec fn text_cell_layout(cell: Seq<char>, style: Option<Seq<char>>, v: String) -> bool {
    let ea = escaped_attr(cell);
    let base: int = (7 + ea.len() + style_part(style).len()) as int;
    cell_layout(rendered_cell(cell, style, CellValue::Text(v)), ea, base, base + 22 + escaped_text(v@).len())
}

/// The layout of a text cell `r` written with the reference `ea`: its start tag's `>` at
/// `base + 14` and its closing tags from `j`.
pub open spec fn cell_layout(r: Seq<char>, ea: Seq<char>, base: int, j: int) -> bool {
    let n: int = ea.len() as int;
    &&& base >= 7 + n
    &&& j >= base + 22
    &&& r.len() == j + 13
    &&& r[0] == '<'
    &&& r[1] == 'c'
    &&& r[base + 14] == '>'
    &&& r[base + 13] == '"'
    &&& (forall|q: int| 0 <= q < base + 14 ==> #[trigger] r[q] != '>')
    &&& r.subrange(3, 6) == "r=\""@
    &&& r.subrange(6, 6 + n) == ea
    &&& r[6 + n] == '"'
    &&& (forall|q: int|
        0 <= q < r.len() && #[trigger] r[q] == '<' ==> q == 0 || q == base + 15 || q == base + 19 || q == j
            || q == j + 4 || q == j + 9)
    &&& r[base + 16] == 'i'
    &&& r[base + 20] == 't'
    &&& r[j + 1] == '/'
    &&& r[j + 2] == 't'
    &&& r[j + 5] == '/'
    &&& r[j + 6] == 'i'
    &&& r[j + 9] == '<'
    &&& r[j + 10] == '/'
    &&& r[j + 11] == 'c'
    &&& r[j + 12] == '>'
}

pub proof fn lemma_text_cell_layout(cell: Seq<char>, style: Option<Seq<char>>, v: String)
    ensures
        text_cell_layout(cell, style, v),
{
    reveal_strlit("<c r=\"");
    reveal_strlit("\"");
    reveal_strlit(" t=\"inlineStr\"><is><t>");
    reveal_strlit("</t></is></c>");
    reveal_strlit("r=\"");
    let a = "<c r=\""@;
    let b = "\""@;
    let c = " t=\"inlineStr\"><is><t>"@;
    let d = "</t></is></c>"@;
    let ea = escaped_attr(cell);
    let sp = style_part(style);
    let et = escaped_text(v@);
    lemma_escaped_have_no_markup(cell);
    lemma_escaped_have_no_markup(v@);
    lemma_style_part_has_no_lt(style);
    let r = rendered_cell(cell, style, CellValue::Text(v));
    assert(r == a + ea + b + sp + c + et + d);
    let n: int = ea.len() as int;
    let base: int = 7 + n + sp.len();
    let j: int = base + 22 + et.len();
    assert(a.len() == 6 && b.len() == 1 && c.len() == 22 && d.len() == 13);
    assert forall|q: int| 0 <= q < 6 implies #[trigger] r[q] == a[q] by {}
    assert forall|q: int| 6 <= q < 6 + ea.len() implies #[trigger] r[q] == ea[q - 6] by {}
    assert(r[6 + n] == '"');
    assert forall|q: int| 7 + ea.len() <= q < base implies #[trigger] r[q] == sp[q - 7 - ea.len()] by {}
    assert forall|q: int| base <= q < base + 22 implies #[trigger] r[q] == c[q - base] by {}
    assert forall|q: int| base + 22 <= q < j implies #[trigger] r[q] == et[q - base - 22] by {}
    assert forall|q: int| j <= q < j + 13 implies #[trigger] r[q] == d[q - j] by {}
    assert(r.subrange(3, 6) =~= "r=\""@);
    assert(r.subrange(6, 6 + n) =~= ea);
    assert forall|q: int| 0 <= q < base + 14 implies #[trigger] r[q] != '>' by {
        if q < 6 {
        } else if q < 6 + ea.len() {
            assert(ea[q - 6] != '>');
        } else if q == 6 + ea.len() {
        } else if q < base {
            assert(sp[q - 7 - ea.len()] != '>');
        } else {
        }
    }
    assert forall|q: int|
        0 <= q < r.len() && #[trigger] r[q] == '<' implies q == 0 || q == base + 15 || q == base + 19 || q == j
            || q == j + 4 || q == j + 9 by {
        if q < 6 {
        } else if q < 6 + ea.len() {
            assert(ea[q - 6] != '<');
        } else if q == 6 + ea.len() {
        } else if q < base {
            assert(sp[q - 7 - ea.len()] != '<');
        } else if q < base + 22 {
        } else if q < j {
            assert(et[q - base - 22] != '<');
        } else {
        }
    }
}

/// What a row scan that finds a row saw: the `<row` at its start, the first `>` after it
/// ending the start tag, the attribute inside, and for a row with content its `</row>`.
pub proof fn lemma_row_scan_found(x: Seq<char>, attr: Seq<char>, at: int)
    requires
        row_scan(x, attr, at) is Some,
    ensures
        row_scan(x, attr, at) matches Some((s, oe, cs, e, closed)) && occurs_at(x, "<row"@, s) && s + 4 < oe
            && first_in(x, ">"@, s, x.len() as int) == Some(oe - 1) && first_in(x, attr, s, oe) is Some
            && closed == tag_self_closing(x, s, oe) && (!closed ==> first_in(x, "</row>"@, oe, x.len() as int)
            == Some(cs) && e == cs + 6),
    decreases x.len() + 1 - at,
{
    reveal_strlit("<row");
    reveal_strlit(">");
    lemma_first_in(x, "<row"@, at, x.len() as int);
    let start = first_in(x, "<row"@, at, x.len() as int)->0;
    lemma_first_in(x, ">"@, start, x.len() as int);
    let gt = first_in(x, ">"@, start, x.len() as int)->0;
    assert(gt >= start + 4) by {
        if gt < start + 4 {
            assert(x[gt] == x.subrange(start, start + 4)[gt - start]);
            assert(x.subrange(gt, gt + 1)[0] == x[gt]);
        }
    }
    if first_in(x, attr, start, gt + 1) is None {
        lemma_row_scan_found(x, attr, gt + 1);
    }
}

/// What a cell scan that finds a cell saw: the `<c` at its start, the first `>` after it
/// ending the start tag, the attribute inside, and for a cell with content its `</c>`.
pub proof fn lemma_cell_scan_found(x: Seq<char>, attr: Seq<char>, at: int, end_at: int)
    requires
        cell_scan(x, attr, at, end_at) is Some,
    ensures
        cell_scan(x, attr, at, end_at) matches Some((c0, coe, ce)) && occurs_at(x, "<c"@, c0) && c0 + 2 < coe
            && first_in(x, ">"@, c0, end_at) == Some(coe - 1) && first_in(x, attr, c0, coe) is Some && (
        tag_self_closing(x, c0, coe) ==> ce == coe) && (!tag_self_closing(x, c0, coe) ==> first_in(
            x,
            "</c>"@,
            coe,
            end_at,
        ) == Some(ce - 4)),
    decreases end_at - at,
{
    reveal_strlit("<c");
    reveal_strlit(">");
    lemma_first_in(x, "<c"@, at, end_at);
    let start = first_in(x, "<c"@, at, end_at)->0;
    lemma_first_in(x, ">"@, start, end_at);
    let gt = first_in(x, ">"@, start, end_at)->0;
    assert(gt >= start + 2) by {
        if gt < start + 2 {
            assert(x[gt] == x.subrange(start, start + 2)[gt - start]);
            assert(x.subrange(gt, gt + 1)[0] == x[gt]);
        }
    }
    if first_in(x, attr, start, gt + 1) is None {
        lemma_cell_scan_found(x, attr, gt + 1, end_at);
    }
}

/// A piece of a text is read at its place in it.
pub proof fn lemma_window_index(y: Seq<char>, c0: int, r: Seq<char>)
    requires
        0 <= c0,
        c0 + r.len() <= y.len(),
        y.subrange(c0, c0 + r.len()) == r,
    ensures
        forall|q: int| c0 <= q < c0 + r.len() ==> #[trigger] y[q] == r[q - c0],
{
    assert forall|q: int| c0 <= q < c0 + r.len() implies #[trigger] y[q] == r[q - c0] by {
        assert(y[q] == y.subrange(c0, c0 + r.len())[q - c0]);
    }
}

/// What a scan of a text cell sees, placed at `c0` of a text: its tags, its reference
/// attribute, and the only `<` being those of its tags.
pub open spec fn placed_cell(y: Seq<char>, c0: int, base: int, j: int, attr: Seq<char>) -> bool {
    &&& 0 <= c0
    &&& 3 + attr.len() <= base + 13
    &&& base + 22 <= j
    &&& c0 + j + 13 <= y.len()
    &&& y[c0] == '<'
    &&& y[c0 + 1] == 'c'
    &&& (forall|q: int| c0 <= q < c0 + base + 14 ==> #[trigger] y[q] != '>')
    &&& y[c0 + base + 14] == '>'
    &&& y[c0 + base + 13] == '"'
    &&& y.subrange(c0 + 3, c0 + 3 + attr.len()) == attr
    &&& (forall|q: int|
        c0 <= q < c0 + j + 13 && #[trigger] y[q] == '<' ==> q == c0 || q == c0 + base + 15 || q == c0 + base
            + 19 || q == c0 + j || q == c0 + j + 4 || q == c0 + j + 9)
    &&& y[c0 + base + 16] == 'i'
    &&& y[c0 + base + 20] == 't'
    &&& y[c0 + j + 1] == '/'
    &&& y[c0 + j + 2] == 't'
    &&& y[c0 + j + 5] == '/'
    &&& y[c0 + j + 6] == 'i'
    &&& y[c0 + j + 9] == '<'
    &&& y[c0 + j + 10] == '/'
    &&& y[c0 + j + 11] == 'c'
    &&& y[c0 + j + 12] == '>'
}

/// A text cell laid out as `cell_layout` says, placed at `c0` of a text, is seen there as
/// `placed_cell` says.
#[verifier::spinoff_prover]
#[verifier::rlimit(40)]
proof fn lemma_placed_layout(y: Seq<char>, c0: int, r: Seq<char>, ea: Seq<char>, base: int, j: int)
    requires
        cell_layout(r, ea, base, j),
        0 <= c0,
        c0 + r.len() <= y.len(),
        y.subrange(c0, c0 + r.len()) == r,
    ensures
        placed_cell(y, c0, base, j, "r=\""@ + ea + "\""@),
{
    reveal_strlit("r=\"");
    reveal_strlit("\"");
    let n: int = ea.len() as int;
    let attr = "r=\""@ + ea + "\""@;
    lemma_window_index(y, c0, r);
    assert(attr.len() == n + 4);
    assert forall|k: int| 0 <= k < attr.len() implies #[trigger] y.subrange(c0 + 3, c0 + 3 + attr.len())[k]
        == attr[k] by {
        assert(y.subrange(c0 + 3, c0 + 3 + attr.len())[k] == y[c0 + 3 + k]);
        if k < 3 {
            assert(attr[k] == "r=\""@[k]);
            assert(r[3 + k] == r.subrange(3, 6)[k]);
        } else if k < 3 + n {
            assert(attr[k] == ea[k - 3]);
            assert(r[3 + k] == r.subrange(6, 6 + n)[k - 3]);
        } else {
            assert(attr[k] == '"');
        }
    }
    assert(y.subrange(c0 + 3, c0 + 3 + attr.len()) =~= attr);
    assert forall|q: int| c0 <= q < c0 + base + 14 implies #[trigger] y[q] != '>' by {
        assert(r[q - c0] != '>');
    }
    assert forall|q: int|
        c0 <= q < c0 + j + 13 && #[trigger] y[q] == '<' implies q == c0 || q == c0 + base + 15 || q == c0 + base
            + 19 || q == c0 + j || q == c0 + j + 4 || q == c0 + j + 9 by {
        assert(r[q - c0] == '<');
    }
}

/// A scan from `c0` of a placed text cell finds it.
proof fn lemma_placed_cell_scanned(y: Seq<char>, c0: int, base: int, j: int, attr: Seq<char>, end: int)
    requires
        placed_cell(y, c0, base, j, attr),
        c0 + j + 13 <= end <= y.len(),
    ensures
        cell_scan(y, attr, c0, end) == Some((c0, c0 + base + 15, c0 + j + 13)),
{
    reveal_strlit("<c");
    reveal_strlit(">");
    reveal_strlit("</c>");
    let oe = c0 + base + 15;
    assert(first_in(y, "<c"@, c0, end) == Some(c0)) by {
        assert(y.subrange(c0, c0 + 2) =~= "<c"@);
        lemma_first_in_at(y, "<c"@, c0, end, c0);
    }
    assert(first_in(y, ">"@, c0, end) == Some(c0 + base + 14)) by {
        assert forall|q: int| c0 <= q < c0 + base + 14 implies !occurs_at(y, ">"@, q) by {
            if occurs_at(y, ">"@, q) {
                assert(y.subrange(q, q + 1)[0] == y[q]);
            }
        }
        assert(y.subrange(c0 + base + 14, c0 + base + 15) =~= ">"@);
        lemma_first_in_at(y, ">"@, c0, end, c0 + base + 14);
    }
    assert(first_in(y, attr, c0, oe) is Some) by {
        lemma_first_in_finds(y, attr, c0, oe, c0 + 3);
    }
    assert(first_in(y, "</c>"@, oe, end) == Some(c0 + j + 9)) by {
        assert forall|q: int| oe <= q < c0 + j + 9 implies !occurs_at(y, "</c>"@, q) by {
            if occurs_at(y, "</c>"@, q) {
                let w = y.subrange(q, q + 4);
                assert(w[0] == y[q] && w[1] == y[q + 1] && w[2] == y[q + 2]);
            }
        }
        assert(y.subrange(c0 + j + 9, c0 + j + 13) =~= "</c>"@);
        lemma_first_in_at(y, "</c>"@, oe, end, c0 + j + 9);
    }
}

/// No `<` of a piece starts `</r`, and each is followed by two more characters of it.
pub open spec fn no_row_close_start(r: Seq<char>) -> bool {
    forall|q: int|
        0 <= q < r.len() && #[trigger] r[q] == '<' ==> q + 2 < r.len() && (r[q + 1] == '/' ==> r[q + 2] != 'r')
}

/// Putting a piece with no `</row>` in place of `xml[c0..ce]`, inside a row whose `</row>` is
/// at `cs`, moves that `</row>` by the change in length and keeps it the first.
proof fn lemma_row_close_moves(xml: Seq<char>, r: Seq<char>, c0: int, ce: int, oe: int, cs: int)
    requires
        0 <= oe <= c0 < ce <= cs,
        r.len() > 0,
        r[0] == '<',
        no_row_close_start(r),
        first_in(xml, "</row>"@, oe, xml.len() as int) == Some(cs),
    ensures
        first_in(xml.take(c0) + r + xml.skip(ce), "</row>"@, oe, (xml.len() + c0 + r.len() - ce) as int)
            == Some(cs + c0 + r.len() - ce),
{
    reveal_strlit("</row>");
    let n = "</row>"@;
    let y = xml.take(c0) + r + xml.skip(ce);
    let l: int = r.len() as int;
    let d: int = c0 + l - ce;
    lemma_first_in(xml, n, oe, xml.len() as int);
    lemma_first_in_none_before(xml, n, oe, xml.len() as int);
    assert(y.len() == xml.len() + d);
    assert forall|q: int| 0 <= q < c0 implies #[trigger] y[q] == xml[q] by {}
    assert forall|q: int| c0 <= q < c0 + l implies #[trigger] y[q] == r[q - c0] by {}
    assert forall|q: int| c0 + l <= q < y.len() implies #[trigger] y[q] == xml[q - d] by {}
    assert(occurs_at(y, n, cs + d)) by {
        assert(y.subrange(cs + d, cs + d + 6) =~= xml.subrange(cs, cs + 6));
    }
    assert forall|q: int| oe <= q < cs + d implies !occurs_at(y, n, q) by {
        if occurs_at(y, n, q) {
            let w = y.subrange(q, q + 6);
            assert(w == n);
            if q + 6 <= c0 {
                assert(xml.subrange(q, q + 6) =~= w);
                assert(occurs_at(xml, n, q));
            } else if q < c0 {
                assert(w[c0 - q] == y[c0]);
                assert(n[c0 - q] != '<');
            } else if q < c0 + l {
                assert(w[0] == y[q] && w[1] == y[q + 1] && w[2] == y[q + 2]);
                assert(r[q - c0] == '<');
                assert(y[q + 1] == r[q + 1 - c0]);
                assert(y[q + 2] == r[q + 2 - c0]);
            } else {
                assert(xml.subrange(q - d, q - d + 6) =~= w);
                assert(occurs_at(xml, n, q - d));
            }
        }
    }
    lemma_first_in_at(y, n, oe, (xml.len() + d) as int, cs + d);
}

/// A laid-out text cell starts with `<` and holds no `</r`.
proof fn lemma_layout_no_row_close(r: Seq<char>, ea: Seq<char>, base: int, j: int)
    requires
        cell_layout(r, ea, base, j),
    ensures
        r.len() > 0 && r[0] == '<' && r[1] == 'c' && no_row_close_start(r),
{
}

/// The cell's row is in the sheet, and either it is empty (`<row .../>`) or it holds the cell.
pub open spec fn row_takes_cell(xml: Seq<char>, cell: Seq<char>) -> bool {
    match cell_parts(cell) {
        None => false,
        Some((_, row)) => match row_bounds_spec(xml, row as u32) {
            Some((s, oe, cs, e, closed)) => closed || cell_scan(xml, cell_attr(cell), oe, cs) is Some,
            None => false,
        },
    }
}

/// Putting a text cell in place of the cell at `xml[c0..ce]` of a row with content leaves the
/// row where it was, its `</row>` moved by the change in length.
proof fn lemma_row_after_write(xml: Seq<char>, attr: Seq<char>, c0: int, ce: int, r: Seq<char>)
    requires
        row_scan(xml, attr, 0) matches Some((s, oe, cs, e, closed)) && !closed && oe <= c0 && c0 + 2 < ce
            <= cs,
        occurs_at(xml, "<c"@, c0),
        r.len() > 1,
        r[0] == '<',
        r[1] == 'c',
        no_row_close_start(r),
    ensures
        row_scan(xml, attr, 0) matches Some((s, oe, cs, e, closed)) && row_scan(
            xml.take(c0) + r + xml.skip(ce),
            attr,
            0,
        ) == Some((s, oe, cs + c0 + r.len() - ce, cs + c0 + r.len() - ce + 6, false)),
{
    reveal_strlit("<c");
    reveal_strlit("<row");
    reveal_strlit(">");
    let (s, oe, cs, e, closed) = row_scan(xml, attr, 0)->0;
    let y = xml.take(c0) + r + xml.skip(ce);
    lemma_row_scan_bounds(xml, attr, 0);
    lemma_row_scan_found(xml, attr, 0);
    let d: int = c0 + r.len() - ce;
    let cs2: int = cs + d;
    assert(y.len() == xml.len() + d);
    let m: int = c0 + 2;
    assert(xml.take(m) =~= y.take(m)) by {
        assert(xml[c0] == xml.subrange(c0, c0 + 2)[0]);
        assert(xml[c0 + 1] == xml.subrange(c0, c0 + 2)[1]);
        assert(y[c0] == r[0]);
        assert(y[c0 + 1] == r[1]);
    }
    lemma_row_scan_reaches(xml, y, attr, 0, m);
    lemma_occurs_in_prefix(xml, y, "<row"@, s, m);
    lemma_first_in_at(y, "<row"@, s, y.len() as int, s);
    lemma_first_in_transfer(xml, y, ">"@, s, xml.len() as int, y.len() as int, m, oe - 1);
    lemma_first_in_window_same(xml, y, attr, s, oe, m);
    assert(xml[oe - 2] == xml.take(m)[oe - 2]);
    assert(y[oe - 2] == y.take(m)[oe - 2]);
    lemma_row_close_moves(xml, r, c0, ce, oe, cs);
    assert(row_scan(y, attr, s) == Some((s, oe, cs2, cs2 + 6, false)));
}

/// In that row, the cell scan finds the text cell written in place of the old one.
proof fn lemma_cell_after_write(
    xml: Seq<char>,
    attr: Seq<char>,
    oe: int,
    cs: int,
    c0: int,
    ce: int,
    r: Seq<char>,
    base: int,
    j: int,
    ea: Seq<char>,
)
    requires
        cell_scan(xml, attr, oe, cs) matches Some((a, b, c)) && a == c0 && c == ce,
        0 <= oe,
        cs <= xml.len(),
        cell_layout(r, ea, base, j),
        attr == "r=\""@ + ea + "\""@,
    ensures
        cell_scan(xml.take(c0) + r + xml.skip(ce), attr, oe, cs + c0 + r.len() - ce) == Some(
            (c0, c0 + base + 15, c0 + r.len()),
        ),
{
    reveal_strlit("<c");
    let y = xml.take(c0) + r + xml.skip(ce);
    lemma_cell_scan_bounds(xml, attr, oe, cs);
    lemma_cell_scan_found(xml, attr, oe, cs);
    let d: int = c0 + r.len() - ce;
    let cs2: int = cs + d;
    assert(y.len() == xml.len() + d);
    let m: int = c0 + 2;
    lemma_layout_no_row_close(r, ea, base, j);
    assert(xml.take(m) =~= y.take(m)) by {
        assert(xml[c0] == xml.subrange(c0, c0 + 2)[0]);
        assert(xml[c0 + 1] == xml.subrange(c0, c0 + 2)[1]);
        assert(y[c0] == r[0]);
        assert(y[c0 + 1] == r[1]);
    }
    lemma_cell_scan_reaches(xml, y, attr, oe, cs, cs2, m);
    assert(y.subrange(c0, c0 + r.len()) =~= r);
    lemma_placed_layout(y, c0, r, ea, base, j);
    lemma_placed_cell_scanned(y, c0, base, j, attr, cs2);
}

/// A row start tag `<row r="<row>">` at `s`, followed by a piece with no `</row>` and then
/// `</row>`, is the row a scan from `s` finds: with content, closed after the piece.
proof fn lemma_new_row_scanned(y: Seq<char>, s: int, row: nat, r: Seq<char>)
    requires
        0 <= s,
        row <= u32::MAX,
        no_row_close_start(r),
        s + 10 + crate::text::decimal(row).len() + r.len() + 6 <= y.len(),
        y.subrange(s, s + 10 + crate::text::decimal(row).len()) == "<row r=\""@ + crate::text::decimal(row)
            + "\">"@,
        y.subrange(s + 10 + crate::text::decimal(row).len(), s + 10 + crate::text::decimal(row).len() + r.len())
            == r,
        y.subrange(
            s + 10 + crate::text::decimal(row).len() + r.len(),
            s + 10 + crate::text::decimal(row).len() + r.len() + 6,
        ) == "</row>"@,
    ensures
        ({
            let oe = s + 10 + crate::text::decimal(row).len();
            row_scan(y, row_attr(row as u32), s) == Some((s, oe, oe + r.len(), oe + r.len() + 6, false))
        }),
{
    reveal_strlit("<row r=\"");
    reveal_strlit("\">");
    reveal_strlit("<row");
    reveal_strlit(">");
    reveal_strlit("</row>");
    reveal_strlit("r=\"");
    reveal_strlit("\"");
    let dec = crate::text::decimal(row);
    crate::text::lemma_decimal_digits(row);
    let k: int = dec.len() as int;
    let hl: int = 10 + k;
    let oe: int = s + hl;
    let l: int = r.len() as int;
    let h = "<row r=\""@ + dec + "\">"@;
    assert(h.len() == hl);
    lemma_window_index(y, s, h);
    lemma_window_index(y, oe, r);
    assert forall|q: int| 0 <= q < k implies crate::text::is_digit(#[trigger] dec[q]) by {}
    assert forall|q: int| s + 8 <= q < s + 8 + k implies #[trigger] y[q] == dec[q - s - 8] by {
        assert(y[q] == h[q - s]);
    }
    assert(first_in(y, "<row"@, s, y.len() as int) == Some(s)) by {
        assert(y.subrange(s, s + 4) =~= "<row"@) by {
            assert forall|q: int| 0 <= q < 4 implies y.subrange(s, s + 4)[q] == "<row"@[q] by {
                assert(y[s + q] == h[q]);
            }
        }
        lemma_first_in_at(y, "<row"@, s, y.len() as int, s);
    }
    assert(first_in(y, ">"@, s, y.len() as int) == Some(oe - 1)) by {
        assert forall|q: int| s <= q < oe - 1 implies !occurs_at(y, ">"@, q) by {
            if occurs_at(y, ">"@, q) {
                assert(y.subrange(q, q + 1)[0] == y[q]);
                assert(y[q] == h[q - s]);
                if q - s >= 8 && q - s < 8 + k {
                    assert(dec[q - s - 8] == y[q]);
                }
            }
        }
        assert(y.subrange(oe - 1, oe) =~= ">"@) by {
            assert(y[oe - 1] == h[hl - 1]);
        }
        lemma_first_in_at(y, ">"@, s, y.len() as int, oe - 1);
    }
    let attr = row_attr(row as u32);
    assert(first_in(y, attr, s, oe) is Some) by {
        assert(attr == "r=\""@ + dec + "\""@);
        assert(y.subrange(s + 5, s + 5 + attr.len()) =~= attr) by {
            assert forall|q: int| 0 <= q < attr.len() implies y.subrange(s + 5, s + 5 + attr.len())[q]
                == attr[q] by {
                assert(y[s + 5 + q] == h[5 + q]);
            }
        }
        lemma_first_in_finds(y, attr, s, oe, s + 5);
    }
    assert(y[oe - 2] == h[hl - 2]);
    assert(first_in(y, "</row>"@, oe, y.len() as int) == Some(oe + l)) by {
        assert forall|q: int| oe <= q < oe + l implies !occurs_at(y, "</row>"@, q) by {
            if occurs_at(y, "</row>"@, q) {
                let w = y.subrange(q, q + 6);
                assert(w[0] == y[q] && w[1] == y[q + 1] && w[2] == y[q + 2]);
                assert(r[q - oe] == '<');
                assert(y[q + 1] == r[q + 1 - oe]);
                assert(y[q + 2] == r[q + 2 - oe]);
            }
        }
        lemma_first_in_at(y, "</row>"@, oe, y.len() as int, oe + l);
    }
}

/// The pieces of a text made of five, each where it lies.
proof fn lemma_five_pieces(a: Seq<char>, h: Seq<char>, r: Seq<char>, t: Seq<char>, b: Seq<char>)
    ensures
        ({
            let y = a + h + r + t + b;
            let p: int = a.len() as int;
            let q: int = p + h.len();
            let u: int = q + r.len();
            &&& y.len() == u + t.len() + b.len()
            &&& y.take(p) == a
            &&& y.subrange(p, q) == h
            &&& y.subrange(q, u) == r
            &&& y.subrange(u, u + t.len()) == t
        }),
{
    let y = a + h + r + t + b;
    let p: int = a.len() as int;
    let q: int = p + h.len();
    let u: int = q + r.len();
    assert(y.take(p) =~= a);
    assert(y.subrange(p, q) =~= h);
    assert(y.subrange(q, u) =~= r);
    assert(y.subrange(u, u + t.len()) =~= t);
}

/// An empty row rewritten to hold a laid-out text cell is found where it stood, with the cell
/// in it.
#[verifier::spinoff_prover]
#[verifier::rlimit(40)]
proof fn lemma_empty_row_rewritten(xml: Seq<char>, row: nat, r: Seq<char>, ea: Seq<char>, base: int, j: int)
    requires
        row <= u32::MAX,
        row_scan(xml, row_attr(row as u32), 0) matches Some((s, oe, cs, e, closed)) && closed,
        cell_layout(r, ea, base, j),
    ensures
        row_scan(xml, row_attr(row as u32), 0) matches Some((s, oe, cs, e, closed)) && ({
            let h = "<row r=\""@ + crate::text::decimal(row) + "\">"@;
            let y = xml.take(s) + h + r + "</row>"@ + xml.skip(e);
            let oe2 = s + h.len();
            &&& row_scan(y, row_attr(row as u32), 0) == Some((s, oe2, oe2 + r.len(), oe2 + r.len() + 6, false))
            &&& cell_scan(y, "r=\""@ + ea + "\""@, oe2, oe2 + r.len()) == Some((oe2, oe2 + base + 15, oe2 + r.len()))
            &&& y.subrange(oe2, oe2 + r.len()) == r
        }),
{
    reveal_strlit("<row");
    reveal_strlit("<row r=\"");
    reveal_strlit("</row>");
    let attr_r = row_attr(row as u32);
    let (s, oe, cs, e, closed) = row_scan(xml, attr_r, 0)->0;
    lemma_row_scan_bounds(xml, attr_r, 0);
    lemma_row_scan_found(xml, attr_r, 0);
    lemma_layout_no_row_close(r, ea, base, j);
    let h = "<row r=\""@ + crate::text::decimal(row) + "\">"@;
    let y = xml.take(s) + h + r + "</row>"@ + xml.skip(e);
    let hl: int = h.len() as int;
    let l: int = r.len() as int;
    let oe2: int = s + hl;
    reveal_strlit("\">");
    assert(hl == 10 + crate::text::decimal(row).len());
    lemma_five_pieces(xml.take(s), h, r, "</row>"@, xml.skip(e));
    let m: int = s + 4;
    assert(xml.take(m) =~= y.take(m)) by {
        assert forall|q: int| 0 <= q < m implies xml[q] == y[q] by {
            if q < s {
                assert(y[q] == y.take(s)[q]);
            } else {
                assert(xml[q] == xml.subrange(s, s + 4)[q - s]);
                assert(y[q] == y.subrange(s, s + hl)[q - s]);
                assert(h[q - s] == "<row r=\""@[q - s]);
            }
        }
    }
    lemma_row_scan_reaches(xml, y, attr_r, 0, m);
    lemma_new_row_scanned(y, s, row, r);
    lemma_placed_layout(y, oe2, r, ea, base, j);
    lemma_placed_cell_scanned(y, oe2, base, j, "r=\""@ + ea + "\""@, oe2 + l);
}

/// Text written into a cell of an empty row is read back from it: the row is rewritten to
/// hold the cell, where it stood.
proof fn lemma_empty_row_reads_back(xml: Seq<char>, cell: Seq<char>, v: String)
    requires
        cell_parts(cell) matches Some((_, row)) && row_bounds_spec(xml, row as u32) matches Some((s, oe, cs, e, closed))
            && closed,
    ensures
        patched_sheet(xml, cell, CellValue::Text(v)) is Some,
        cell_text_of(patched_sheet(xml, cell, CellValue::Text(v))->0, cell) == Some(v@),
{
    let (col, row) = cell_parts(cell)->0;
    let attr_r = row_attr(row as u32);
    let (s, oe, cs, e, closed) = row_scan(xml, attr_r, 0)->0;
    let r = rendered_cell(cell, None, CellValue::Text(v));
    let h = "<row r=\""@ + crate::text::decimal(row) + "\">"@;
    let y = xml.take(s) + h + r + "</row>"@ + xml.skip(e);
    assert(patched_sheet(xml, cell, CellValue::Text(v)) == Some(y));
    let n: int = cell.len() as int;
    let base: int = 7 + n + style_part(None).len();
    let j: int = base + 22 + escaped_text(v@).len();
    lemma_text_cell_layout(cell, None, v);
    lemma_cell_reference_plain(cell);
    assert(cell_layout(r, cell, base, j));
    lemma_empty_row_rewritten(xml, row, r, cell, base, j);
    law_rendered_text_cell_holds_its_text(cell, None, v);
}

/// Text written into a cell of a row that is in the sheet, and is empty or holds the cell, is
/// read back from that cell as it was written.
pub proof fn law_written_text_reads_back(xml: Seq<char>, cell: Seq<char>, v: String)
    requires
        row_takes_cell(xml, cell),
    ensures
        patched_sheet(xml, cell, CellValue::Text(v)) is Some,
        cell_text_of(patched_sheet(xml, cell, CellValue::Text(v))->0, cell) == Some(v@),
{
    reveal_strlit("r=\"");
    reveal_strlit("\"");
    let (col, row) = cell_parts(cell)->0;
    let attr_r = row_attr(row as u32);
    let (s, oe, cs, e, closed) = row_scan(xml, attr_r, 0)->0;
    if closed {
        lemma_empty_row_reads_back(xml, cell, v);
        return;
    }
    let cattr = cell_attr(cell);
    let (c0, coe, ce) = cell_scan(xml, cattr, oe, cs)->0;
    let style = attr_value(xml.subrange(c0, coe), "s"@);
    let r = rendered_cell(cell, style, CellValue::Text(v));
    let y = xml.take(c0) + r + xml.skip(ce);
    assert(patched_sheet(xml, cell, CellValue::Text(v)) == Some(y));
    lemma_row_scan_bounds(xml, attr_r, 0);
    lemma_cell_scan_bounds(xml, cattr, oe, cs);
    lemma_cell_scan_found(xml, cattr, oe, cs);
    let n: int = cell.len() as int;
    let base: int = 7 + n + style_part(style).len();
    let j: int = base + 22 + escaped_text(v@).len();
    lemma_text_cell_layout(cell, style, v);
    lemma_cell_reference_plain(cell);
    assert(cell_layout(r, cell, base, j));
    lemma_layout_no_row_close(r, cell, base, j);
    lemma_row_after_write(xml, attr_r, c0, ce, r);
    lemma_cell_after_write(xml, cattr, oe, cs, c0, ce, r, base, j, cell);
    law_rendered_text_cell_holds_its_text(cell, style, v);
    assert(y.subrange(c0, c0 + r.len()) =~= r);
}

} // verus!
