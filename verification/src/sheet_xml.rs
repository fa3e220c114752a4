use vstd::prelude::*;

use crate::patterns::{
    attr_pattern, calc_chain_override_pattern, calc_chain_rel_pattern, calc_pr_pattern, capture_views,
    captures_text, cell_column_pattern, formula_ref_pattern, pair_views, pieces_replaced, pieces_text,
    regex_capture_pieces, regex_compiles, regex_escape, regex_find_pieces, regex_find_split,
    regex_match_result, regex_replace_all, regex_replace_first, relationship_pattern, row_number_pattern,
    shared_cell_pattern, sheet_pattern, CaptureView, CompiledRegex,
};
use crate::str_map::StrMap;
use crate::profile::leading_upper;
use crate::reports::{CellValue, ReportError};
use crate::text::{chars_of, opt_view, is_blank, is_blank_str, occurs_at, occurs_at_chars, parse_unsigned, parse_unsigned_chars, push_str, string_of, string_of_range, trim, trim_str};

verus! {

/// The first position in `[from, to)` where `needle` occurs wholly inside that window, as
/// `str::find` on the slice `hay[from..to]` finds it.
pub open spec fn first_in(hay: Seq<char>, needle: Seq<char>, from: int, to: int) -> Option<int>
    decreases to + 1 - from,
{
    if from > to || from + needle.len() > to {
        None
    } else if occurs_at(hay, needle, from) {
        Some(from)
    } else {
        first_in(hay, needle, from + 1, to)
    }
}

pub proof fn lemma_first_in(hay: Seq<char>, needle: Seq<char>, from: int, to: int)
    requires
        0 <= from,
        to <= hay.len(),
    ensures
        match first_in(hay, needle, from, to) {
            Some(j) => from <= j && j + needle.len() <= to && occurs_at(hay, needle, j),
            None => true,
        },
    decreases to + 1 - from,
{
    if from > to || from + needle.len() > to {
    } else if occurs_at(hay, needle, from) {
    } else {
        lemma_first_in(hay, needle, from + 1, to);
    }
}

/// Finds the first occurrence of `needle` wholly inside `hay[from..to]`.
pub fn find_in(hay: &Vec<char>, needle: &[char], from: usize, to: usize) -> (r: Option<usize>)
    requires
        to <= hay@.len(),
    ensures
        match r {
            Some(j) => first_in(hay@, needle@, from as int, to as int) == Some(j as int),
            None => first_in(hay@, needle@, from as int, to as int) is None,
        },
{
    let mut i = from;
    while i <= to && needle.len() <= to - i
        invariant
            to <= hay@.len(),
            from <= i,
            first_in(hay@, needle@, from as int, to as int) == first_in(hay@, needle@, i as int, to as int),
        decreases to + 1 - i,
    {
        if occurs_at_chars(hay.as_slice(), needle, i) {
            return Some(i);
        }
        if i == to {
            assert(first_in(hay@, needle@, i + 1, to as int) is None);
            return None;
        }
        i += 1;
    }
    None
}

/// A text with every occurrence of `from` (a non-empty text) replaced by `to`, scanning from
/// the left without overlaps, as `str::replace` does.
pub open spec fn replaced(s: Seq<char>, from: Seq<char>, to: Seq<char>) -> Seq<char>
    decreases s.len(),
{
    if s.len() == 0 {
        s
    } else if from.len() > 0 && from.len() <= s.len() && s.take(from.len() as int) == from {
        to + replaced(s.skip(from.len() as int), from, to)
    } else {
        seq![s[0]] + replaced(s.drop_first(), from, to)
    }
}

pub fn replace_text(s: &str, from: &str, to: &str) -> (out: String)
    requires
        from@.len() > 0,
    ensures
        out@ == replaced(s@, from@, to@),
{
    let cs = chars_of(s);
    let fs = chars_of(from);
    let mut out = String::new();
    let mut i: usize = 0;
    assert(s@.skip(0) =~= s@);
    while i < cs.len()
        invariant
            cs@ == s@,
            fs@ == from@,
            from@.len() > 0,
            i <= cs@.len(),
            replaced(s@, from@, to@) == out@ + replaced(s@.skip(i as int), from@, to@),
        decreases cs.len() - i,
    {
        let ghost rest = s@.skip(i as int);
        if occurs_at_chars(cs.as_slice(), fs.as_slice(), i) {
            proof {
                assert(rest.take(from@.len() as int) =~= s@.subrange(i as int, i + from@.len()));
                assert(rest.skip(from@.len() as int) =~= s@.skip(i + from@.len()));
            }
            push_str(&mut out, to);
            i = i + fs.len();
        } else {
            proof {
                if from@.len() <= rest.len() {
                    assert(rest.take(from@.len() as int) =~= s@.subrange(i as int, i + from@.len()));
                }
                assert(rest.drop_first() =~= s@.skip(i + 1));
                assert(rest[0] == s@[i as int]);
            }
            out.push(cs[i]);
            i = i + 1;
        }
    }
    assert(s@.skip(i as int) =~= Seq::<char>::empty());
    out
}

/// The value of an XML attribute with its five predefined entities read back, in the order
/// `&quot;`, `&apos;`, `&lt;`, `&gt;`, then `&amp;`.
pub open spec fn decoded_attr(v: Seq<char>) -> Seq<char> {
    replaced(
        replaced(replaced(replaced(replaced(v, "&quot;"@, "\""@), "&apos;"@, "'"@), "&lt;"@, "<"@), "&gt;"@, ">"@),
        "&amp;"@,
        "&"@,
    )
}

pub fn decode_xml_attr(value: &str) -> (out: String)
    ensures
        out@ == decoded_attr(value@),
{
    proof {
        reveal_strlit("&quot;");
        reveal_strlit("&apos;");
        reveal_strlit("&lt;");
        reveal_strlit("&gt;");
        reveal_strlit("&amp;");
    }
    let a = replace_text(value, "&quot;", "\"");
    let b = replace_text(a.as_str(), "&apos;", "'");
    let c = replace_text(b.as_str(), "&lt;", "<");
    let d = replace_text(c.as_str(), "&gt;", ">");
    replace_text(d.as_str(), "&amp;", "&")
}

/// How a character is written inside an attribute value.
pub open spec fn attr_char(c: char) -> Seq<char> {
    if c == '&' {
        "&amp;"@
    } else if c == '"' {
        "&quot;"@
    } else if c == '<' {
        "&lt;"@
    } else if c == '>' {
        "&gt;"@
    } else {
        seq![c]
    }
}

/// How a character is written as element text.
pub open spec fn text_char(c: char) -> Seq<char> {
    if c == '&' {
        "&amp;"@
    } else if c == '<' {
        "&lt;"@
    } else if c == '>' {
        "&gt;"@
    } else {
        seq![c]
    }
}

pub open spec fn escaped_attr(s: Seq<char>) -> Seq<char>
    decreases s.len(),
{
    if s.len() == 0 {
        s
    } else {
        escaped_attr(s.drop_last()) + attr_char(s.last())
    }
}

pub open spec fn escaped_text(s: Seq<char>) -> Seq<char>
    decreases s.len(),
{
    if s.len() == 0 {
        s
    } else {
        escaped_text(s.drop_last()) + text_char(s.last())
    }
}

pub fn escape_xml_attr(value: &str) -> (out: String)
    ensures
        out@ == escaped_attr(value@),
{
    let cs = chars_of(value);
    let mut out = String::new();
    proof {
        reveal_strlit("&amp;");
        reveal_strlit("&quot;");
        reveal_strlit("&lt;");
        reveal_strlit("&gt;");
    }
    for i in 0..cs.len()
        invariant
            cs@ == value@,
            out@ == escaped_attr(value@.take(i as int)),
    {
        let c = cs[i];
        if c == '&' {
            push_str(&mut out, "&amp;");
        } else if c == '"' {
            push_str(&mut out, "&quot;");
        } else if c == '<' {
            push_str(&mut out, "&lt;");
        } else if c == '>' {
            push_str(&mut out, "&gt;");
        } else {
            out.push(c);
        }
        proof {
            assert(value@.take(i + 1).drop_last() =~= value@.take(i as int));
            assert(out@ =~= escaped_attr(value@.take(i + 1)));
        }
    }
    assert(value@.take(value@.len() as int) =~= value@);
    out
}

pub fn escape_xml_text(value: &str) -> (out: String)
    ensures
        out@ == escaped_text(value@),
{
    let cs = chars_of(value);
    let mut out = String::new();
    proof {
        reveal_strlit("&amp;");
        reveal_strlit("&lt;");
        reveal_strlit("&gt;");
    }
    for i in 0..cs.len()
        invariant
            cs@ == value@,
            out@ == escaped_text(value@.take(i as int)),
    {
        let c = cs[i];
        if c == '&' {
            push_str(&mut out, "&amp;");
        } else if c == '<' {
            push_str(&mut out, "&lt;");
        } else if c == '>' {
            push_str(&mut out, "&gt;");
        } else {
            out.push(c);
        }
        proof {
            assert(value@.take(i + 1).drop_last() =~= value@.take(i as int));
            assert(out@ =~= escaped_text(value@.take(i + 1)));
        }
    }
    assert(value@.take(value@.len() as int) =~= value@);
    out
}

/// A cell reference once trimmed: its leading upper-case letters (the column) and the row
/// number after them, which must read as a `u32` above zero.
pub open spec fn cell_parts(cell: Seq<char>) -> Option<(Seq<char>, nat)> {
    let t = trim(cell);
    let k = leading_upper(t);
    if k == 0 || k >= t.len() {
        None
    } else {
        match parse_unsigned(t.skip(k as int), u32::MAX as nat) {
            Some(r) => if r > 0 {
                Some((t.take(k as int), r))
            } else {
                None
            },
            None => None,
        }
    }
}

proof fn lemma_leading_upper(s: Seq<char>, i: int)
    requires
        0 <= i <= s.len(),
        forall|k: int| 0 <= k < i ==> crate::cells::is_upper_letter(#[trigger] s[k]),
        i == s.len() || !crate::cells::is_upper_letter(s[i]),
    ensures
        leading_upper(s) == i,
    decreases i,
{
    if i > 0 {
        let t = s.drop_first();
        assert forall|k: int| 0 <= k < i - 1 implies crate::cells::is_upper_letter(#[trigger] t[k]) by {
            assert(t[k] == s[k + 1]);
        }
        if i - 1 < t.len() {
            assert(t[i - 1] == s[i]);
        }
        lemma_leading_upper(t, i - 1);
        assert(crate::cells::is_upper_letter(s[0]));
    }
}

/// Splits a cell reference such as `B12` into its column letters and row number.
pub fn split_cell_reference(cell: &str) -> (r: Result<(String, u32), ReportError>)
    ensures
        match cell_parts(cell@) {
            Some((col, row)) => r matches Ok((c, n)) && c@ == col && n == row,
            None => r matches Err(ReportError::InvalidCell(c)) && c@ == cell@,
        },
{
    let trimmed = trim_str(cell);
    let cs = chars_of(trimmed.as_str());
    let mut k: usize = 0;
    while k < cs.len() && 'A' <= cs[k] && cs[k] <= 'Z'
        invariant
            cs@ == trim(cell@),
            k <= cs@.len(),
            forall|j: int| 0 <= j < k ==> crate::cells::is_upper_letter(#[trigger] cs@[j]),
        decreases cs.len() - k,
    {
        k += 1;
    }
    proof {
        lemma_leading_upper(cs@, k as int);
    }
    if k == 0 || k >= cs.len() {
        return Err(ReportError::InvalidCell(cell.to_owned()));
    }
    let digits = string_of_range(cs.as_slice(), k, cs.len());
    let dcs = chars_of(digits.as_str());
    assert(dcs@ =~= cs@.skip(k as int));
    match parse_unsigned_chars(dcs.as_slice(), 4294967295u128) {
        Some(row) => {
            if row == 0 {
                return Err(ReportError::InvalidCell(cell.to_owned()));
            }
            let column = string_of_range(cs.as_slice(), 0, k);
            assert(column@ =~= cs@.take(k as int));
            Ok((column, row as u32))
        },
        None => Err(ReportError::InvalidCell(cell.to_owned())),
    }
}

/// The value of the first `<attr>="..."` in a tag, its entities read back.
pub open spec fn attr_value(tag: Seq<char>, attr: Seq<char>) -> Option<Seq<char>> {
    let pattern = attr + "=\""@;
    match first_in(tag, pattern, 0, tag.len() as int) {
        Some(i) => {
            let start = i + pattern.len();
            match first_in(tag, "\""@, start, tag.len() as int) {
                Some(end) => Some(decoded_attr(tag.subrange(start, end))),
                None => None,
            }
        },
        None => None,
    }
}

pub fn extract_attr(tag: &str, attr: &str) -> (r: Option<String>)
    ensures
        match r {
            Some(v) => attr_value(tag@, attr@) == Some(v@),
            None => attr_value(tag@, attr@) is None,
        },
{
    let cs = chars_of(tag);
    let mut pattern = String::new();
    push_str(&mut pattern, attr);
    push_str(&mut pattern, "=\"");
    let ps = chars_of(pattern.as_str());
    let quote = ['"'];
    proof {
        reveal_strlit("\"");
        assert(quote@ =~= "\""@);
    }
    let i = match find_in(&cs, ps.as_slice(), 0, cs.len()) {
        Some(i) => i,
        None => {
            return None;
        },
    };
    proof {
        lemma_first_in(tag@, pattern@, 0, tag@.len() as int);
    }
    let start = i + ps.len();
    let end = match find_in(&cs, &quote, start, cs.len()) {
        Some(e) => e,
        None => {
            return None;
        },
    };
    proof {
        lemma_first_in(tag@, "\""@, start as int, tag@.len() as int);
    }
    let raw = string_of_range(cs.as_slice(), start, end);
    Some(decode_xml_attr(raw.as_str()))
}

/// The ` s="..."` part of a cell: kept where the style is there and not blank.
pub open spec fn style_part(style: Option<Seq<char>>) -> Seq<char> {
    match style {
        Some(s) => if is_blank(s) {
            Seq::empty()
        } else {
            " s=\""@ + escaped_attr(s) + "\""@
        },
        None => Seq::empty(),
    }
}

/// The XML of a cell holding a value: a number as `<v>`, a text as an inline string.
pub open spec fn rendered_cell(cell: Seq<char>, style: Option<Seq<char>>, value: CellValue) -> Seq<char> {
    match value {
        CellValue::Number(n) => "<c r=\""@ + escaped_attr(cell) + "\""@ + style_part(style) + "><v>"@
            + n@ + "</v></c>"@,
        CellValue::Text(t) => "<c r=\""@ + escaped_attr(cell) + "\""@ + style_part(style)
            + " t=\"inlineStr\"><is><t>"@ + escaped_text(t@) + "</t></is></c>"@,
    }
}

pub fn render_cell(cell: &str, style: Option<&str>, value: &CellValue) -> (out: String)
    ensures
        out@ == rendered_cell(
            cell@,
            match style {
                Some(s) => Some(s@),
                None => None,
            },
            *value,
        ),
{
    let mut out = String::new();
    push_str(&mut out, "<c r=\"");
    let esc = escape_xml_attr(cell);
    push_str(&mut out, esc.as_str());
    push_str(&mut out, "\"");
    match style {
        Some(s) => {
            if !is_blank_str(s) {
                push_str(&mut out, " s=\"");
                let e = escape_xml_attr(s);
                push_str(&mut out, e.as_str());
                push_str(&mut out, "\"");
            }
        },
        None => {},
    }
    match value {
        CellValue::Number(n) => {
            push_str(&mut out, "><v>");
            push_str(&mut out, n.as_str());
            push_str(&mut out, "</v></c>");
        },
        CellValue::Text(t) => {
            push_str(&mut out, " t=\"inlineStr\"><is><t>");
            let e = escape_xml_text(t.as_str());
            push_str(&mut out, e.as_str());
            push_str(&mut out, "</t></is></c>");
        },
    }
    out
}

/// The start tag `xml[start..open_end]` ends with `/>`. (A start tag ends with `>`, so
/// trimming trailing whitespace first, as the scan does, changes nothing.)
pub open spec fn tag_self_closing(xml: Seq<char>, start: int, open_end: int) -> bool {
    open_end - start >= 2 && xml[open_end - 2] == '/'
}

/// Where a `<row>` element lies: its start, the end of its start tag, the start of `</row>`
/// and its end (the last two equal to the first end for `<row .../>`).
pub struct RowBounds {
    pub start: usize,
    pub open_end: usize,
    pub close_start: usize,
    pub end: usize,
    pub self_closing: bool,
}

/// `r="<row>"`.
pub open spec fn row_attr(row: u32) -> Seq<char> {
    "r=\""@ + crate::text::decimal(row as nat) + "\""@
}

/// The first `<row` tag at or after `at` whose start tag holds the attribute, scanning tag by
/// tag; `None` where a tag has no `>` or a non-closed row no `</row>`.
pub open spec fn row_scan(xml: Seq<char>, attr: Seq<char>, at: int) -> Option<(int, int, int, int, bool)>
    decreases xml.len() + 1 - at,
{
    if at < 0 || at > xml.len() {
        None
    } else {
        match first_in(xml, "<row"@, at, xml.len() as int) {
            None => None,
            Some(start) => match first_in(xml, ">"@, start, xml.len() as int) {
                None => None,
                Some(gt) => {
                    proof {
                        lemma_first_in(xml, "<row"@, at, xml.len() as int);
                        lemma_first_in(xml, ">"@, start, xml.len() as int);
                    }
                    let open_end = gt + 1;
                    if first_in(xml, attr, start, open_end) is None {
                        row_scan(xml, attr, open_end)
                    } else if tag_self_closing(xml, start, open_end) {
                        Some((start, open_end, open_end, open_end, true))
                    } else {
                        match first_in(xml, "</row>"@, open_end, xml.len() as int) {
                            Some(c) => Some((start, open_end, c, c + 6, false)),
                            None => None,
                        }
                    }
                }
            },
        }
    }
}

pub open spec fn row_bounds_spec(xml: Seq<char>, row: u32) -> Option<(int, int, int, int, bool)> {
    row_scan(xml, row_attr(row), 0)
}

pub open spec fn row_view(b: RowBounds) -> (int, int, int, int, bool) {
    (b.start as int, b.open_end as int, b.close_start as int, b.end as int, b.self_closing)
}

/// The `<row>` element with the given row number, if the sheet has one.
pub fn find_row_bounds(xml: &Vec<char>, row_number: u32) -> (r: Option<RowBounds>)
    ensures
        match r {
            Some(b) => row_bounds_spec(xml@, row_number) == Some(row_view(b)),
            None => row_bounds_spec(xml@, row_number) is None,
        },
{
    let mut attr = String::new();
    push_str(&mut attr, "r=\"");
    let d = crate::text::decimal_string(row_number as u128);
    push_str(&mut attr, d.as_str());
    push_str(&mut attr, "\"");
    let ac = chars_of(attr.as_str());
    let open_row = ['<', 'r', 'o', 'w'];
    let gt = ['>'];
    let close_row = ['<', '/', 'r', 'o', 'w', '>'];
    proof {
        reveal_strlit("<row");
        reveal_strlit(">");
        reveal_strlit("</row>");
        assert(open_row@ =~= "<row"@);
        assert(gt@ =~= ">"@);
        assert(close_row@ =~= "</row>"@);
    }
    let ghost a = row_attr(row_number);
    assert(ac@ == a);
    let mut search_at: usize = 0;
    while search_at <= xml.len()
        invariant
            a == row_attr(row_number),
            ac@ == a,
            open_row@ == "<row"@,
            gt@ == ">"@,
            close_row@ == "</row>"@,
            row_scan(xml@, a, 0) == row_scan(xml@, a, search_at as int),
        decreases xml.len() + 1 - search_at,
    {
        let start = match find_in(xml, &open_row, search_at, xml.len()) {
            Some(s) => s,
            None => {
                return None;
            },
        };
        let g = match find_in(xml, &gt, start, xml.len()) {
            Some(g) => g,
            None => {
                return None;
            },
        };
        proof {
            lemma_first_in(xml@, "<row"@, search_at as int, xml@.len() as int);
            lemma_first_in(xml@, ">"@, start as int, xml@.len() as int);
        }
        let open_end = g + 1;
        match find_in(xml, ac.as_slice(), start, open_end) {
            None => {
                search_at = open_end;
            },
            Some(_) => {
                let closed = open_end - start >= 2 && xml[open_end - 2] == '/';
                if closed {
                    return Some(
                        RowBounds { start, open_end, close_start: open_end, end: open_end, self_closing: true },
                    );
                }
                match find_in(xml, &close_row, open_end, xml.len()) {
                    Some(c) => {
                        proof {
                            lemma_first_in(xml@, "</row>"@, open_end as int, xml@.len() as int);
                        }
                        return Some(
                            RowBounds { start, open_end, close_start: c, end: c + 6, self_closing: false },
                        );
                    },
                    None => {
                        return None;
                    },
                }
            },
        }
    }
    None
}

/// Where a `<c>` element lies: its start, the end of its start tag and its end.
pub struct CellBounds {
    pub start: usize,
    pub open_end: usize,
    pub end: usize,
}

/// The first `<c` tag in `[at, end_at)` whose start tag holds the attribute, scanning tag by
/// tag inside the window; `None` where a tag has no `>` or a non-closed cell no `</c>` there.
pub open spec fn cell_scan(xml: Seq<char>, attr: Seq<char>, at: int, end_at: int) -> Option<(int, int, int)>
    decreases end_at - at,
{
    if at < 0 || at >= end_at || end_at > xml.len() {
        None
    } else {
        match first_in(xml, "<c"@, at, end_at) {
            None => None,
            Some(start) => match first_in(xml, ">"@, start, end_at) {
                None => None,
                Some(gt) => {
                    proof {
                        reveal_strlit(">");
                        lemma_first_in(xml, "<c"@, at, end_at);
                        lemma_first_in(xml, ">"@, start, end_at);
                    }
                    let open_end = gt + 1;
                    if first_in(xml, attr, start, open_end) is None {
                        cell_scan(xml, attr, open_end, end_at)
                    } else if tag_self_closing(xml, start, open_end) {
                        Some((start, open_end, open_end))
                    } else {
                        match first_in(xml, "</c>"@, open_end, end_at) {
                            Some(c) => Some((start, open_end, c + 4)),
                            None => None,
                        }
                    }
                }
            },
        }
    }
}

/// `r="<cell>"`.
pub open spec fn cell_attr(cell: Seq<char>) -> Seq<char> {
    "r=\""@ + cell + "\""@
}

/// The `<c>` element of the given cell between `start_at` and `end_at`, if there is one.
pub fn find_cell_bounds(xml: &Vec<char>, start_at: usize, end_at: usize, cell: &str) -> (r: Option<CellBounds>)
    requires
        start_at <= end_at <= xml@.len(),
    ensures
        match r {
            Some(b) => cell_scan(xml@, cell_attr(cell@), start_at as int, end_at as int) == Some(
                (b.start as int, b.open_end as int, b.end as int),
            ),
            None => cell_scan(xml@, cell_attr(cell@), start_at as int, end_at as int) is None,
        },
{
    let mut attr = String::new();
    push_str(&mut attr, "r=\"");
    push_str(&mut attr, cell);
    push_str(&mut attr, "\"");
    let ac = chars_of(attr.as_str());
    let open_cell = ['<', 'c'];
    let gt = ['>'];
    let close_cell = ['<', '/', 'c', '>'];
    proof {
        reveal_strlit("<c");
        reveal_strlit(">");
        reveal_strlit("</c>");
        assert(open_cell@ =~= "<c"@);
        assert(gt@ =~= ">"@);
        assert(close_cell@ =~= "</c>"@);
    }
    let ghost a = cell_attr(cell@);
    assert(ac@ == a);
    let mut search_at = start_at;
    while search_at < end_at
        invariant
            a == cell_attr(cell@),
            ac@ == a,
            open_cell@ == "<c"@,
            gt@ == ">"@,
            close_cell@ == "</c>"@,
            end_at <= xml@.len(),
            start_at <= search_at,
            cell_scan(xml@, a, start_at as int, end_at as int) == cell_scan(
                xml@,
                a,
                search_at as int,
                end_at as int,
            ),
        decreases end_at - search_at,
    {
        let start = match find_in(xml, &open_cell, search_at, end_at) {
            Some(s) => s,
            None => {
                return None;
            },
        };
        let g = match find_in(xml, &gt, start, end_at) {
            Some(g) => g,
            None => {
                return None;
            },
        };
        proof {
            lemma_first_in(xml@, "<c"@, search_at as int, end_at as int);
            lemma_first_in(xml@, ">"@, start as int, end_at as int);
        }
        let open_end = g + 1;
        match find_in(xml, ac.as_slice(), start, open_end) {
            None => {
                search_at = open_end;
            },
            Some(_) => {
                let closed = open_end - start >= 2 && xml[open_end - 2] == '/';
                if closed {
                    return Some(CellBounds { start, open_end, end: open_end });
                }
                match find_in(xml, &close_cell, open_end, end_at) {
                    Some(c) => {
                        proof {
                            lemma_first_in(xml@, "</c>"@, open_end as int, end_at as int);
                        }
                        return Some(CellBounds { start, open_end, end: c + 4 });
                    },
                    None => {
                        return None;
                    },
                }
            },
        }
    }
    None
}

/// Where a cell's `<f>` element lies: its start, the end of its start tag and its end, and
/// whether it is written `<f .../>` (with no body).
pub open spec fn formula_segment_spec(xml: Seq<char>) -> Option<(int, int, int, bool)> {
    match first_in(xml, "<f"@, 0, xml.len() as int) {
        None => None,
        Some(start) => match first_in(xml, ">"@, start, xml.len() as int) {
            None => None,
            Some(gt) => {
                let open_end = gt + 1;
                if tag_self_closing(xml, start, open_end) {
                    Some((start, open_end, open_end, true))
                } else {
                    match first_in(xml, "</f>"@, open_end, xml.len() as int) {
                        Some(c) => Some((start, open_end, c + 4, false)),
                        None => None,
                    }
                }
            },
        },
    }
}

/// A cell's formula element: where it lies, its start tag, and its body unless it is written
/// `<f .../>`.
pub struct FormulaSegment {
    pub start: usize,
    pub end: usize,
    pub start_tag: String,
    pub body: Option<String>,
}

pub open spec fn segment_is(f: FormulaSegment, xml: Seq<char>) -> bool {
    match formula_segment_spec(xml) {
        Some((start, open_end, end, closed)) => {
            &&& f.start == start
            &&& f.end == end
            &&& f.start_tag@ == xml.subrange(start, open_end)
            &&& if closed {
                f.body is None
            } else {
                f.body matches Some(b) && b@ == xml.subrange(open_end, end - 4)
            }
        },
        None => false,
    }
}

pub fn find_formula_segment(xml: &Vec<char>) -> (r: Option<FormulaSegment>)
    ensures
        match r {
            Some(f) => segment_is(f, xml@),
            None => formula_segment_spec(xml@) is None,
        },
{
    let open_f = ['<', 'f'];
    let gt = ['>'];
    let close_f = ['<', '/', 'f', '>'];
    proof {
        reveal_strlit("<f");
        reveal_strlit(">");
        reveal_strlit("</f>");
        assert(open_f@ =~= "<f"@);
        assert(gt@ =~= ">"@);
        assert(close_f@ =~= "</f>"@);
    }
    let start = match find_in(xml, &open_f, 0, xml.len()) {
        Some(s) => s,
        None => {
            return None;
        },
    };
    let g = match find_in(xml, &gt, start, xml.len()) {
        Some(g) => g,
        None => {
            return None;
        },
    };
    proof {
        lemma_first_in(xml@, "<f"@, 0, xml@.len() as int);
        lemma_first_in(xml@, ">"@, start as int, xml@.len() as int);
    }
    let open_end = g + 1;
    let start_tag = string_of_range(xml.as_slice(), start, open_end);
    if open_end - start >= 2 && xml[open_end - 2] == '/' {
        return Some(FormulaSegment { start, end: open_end, start_tag, body: None });
    }
    match find_in(xml, &close_f, open_end, xml.len()) {
        Some(c) => {
            proof {
                lemma_first_in(xml@, "</f>"@, open_end as int, xml@.len() as int);
            }
            let body = string_of_range(xml.as_slice(), open_end, c);
            Some(FormulaSegment { start, end: c + 4, start_tag, body: Some(body) })
        },
        None => None,
    }
}

/// A character that continues a name: an ASCII letter or digit, `_` or `.`.
pub open spec fn name_char(c: char) -> bool {
    ('a' <= c <= 'z') || ('A' <= c <= 'Z') || ('0' <= c <= '9') || c == '_' || c == '.'
}

/// A match at `[start, end)` of a formula is part of a longer name or a function call, not a
/// cell reference: a name character before it, or a name character or `(` after it.
pub open spec fn skip_reference(f: Seq<char>, start: int, end: int) -> bool {
    (start > 0 && name_char(f[start - 1])) || (end < f.len() && (f[end] == '(' || name_char(f[end])))
}

fn is_name_char(c: char) -> (b: bool)
    ensures
        b == name_char(c),
{
    ('a' <= c && c <= 'z') || ('A' <= c && c <= 'Z') || ('0' <= c && c <= '9') || c == '_' || c == '.'
}

/// Whether the match at `[start, end)` (character positions) of a formula is to be left alone.
pub fn should_skip_formula_reference(formula: &Vec<char>, start: usize, end: usize) -> (b: bool)
    requires
        start <= end <= formula@.len(),
    ensures
        b == skip_reference(formula@, start as int, end as int),
{
    if start > 0 && is_name_char(formula[start - 1]) {
        return true;
    }
    end < formula.len() && (formula[end] == '(' || is_name_char(formula[end]))
}

/// The number of ASCII digits a text starts with.
pub open spec fn leading_digits(s: Seq<char>) -> nat
    decreases s.len(),
{
    if s.len() > 0 && '0' <= s[0] <= '9' {
        1 + leading_digits(s.drop_first())
    } else {
        0
    }
}

proof fn lemma_leading_digits(s: Seq<char>, i: int)
    requires
        0 <= i <= s.len(),
        forall|k: int| 0 <= k < i ==> '0' <= #[trigger] s[k] <= '9',
        i == s.len() || !('0' <= s[i] <= '9'),
    ensures
        leading_digits(s) == i,
    decreases i,
{
    if i > 0 {
        let t = s.drop_first();
        assert forall|k: int| 0 <= k < i - 1 implies '0' <= #[trigger] t[k] <= '9' by {
            assert(t[k] == s[k + 1]);
        }
        if i - 1 < t.len() {
            assert(t[i - 1] == s[i]);
        }
        lemma_leading_digits(t, i - 1);
    }
}

/// Upper-case letters are no whitespace: trimming a run of them changes nothing.
proof fn lemma_trim_all_upper(s: Seq<char>)
    requires
        crate::cells::all_upper(s),
    ensures
        trim(s) == s,
{
    if s.len() > 0 {
        assert(crate::cells::is_upper_letter(s[0]));
        assert(crate::cells::is_upper_letter(s.last()));
        assert(crate::text::lead_ws(s) == 0);
        assert(s.skip(0) =~= s);
        assert(crate::text::trail_ws(s) == 0);
        assert(s.take(s.len() as int) =~= s);
    } else {
        assert(s.skip(0) =~= s);
    }
}

/// A non-empty run of digits parses to its value where that fits, and to nothing otherwise.
proof fn lemma_digits_parse(d: Seq<char>, max: nat)
    requires
        d.len() > 0,
        forall|k: int| 0 <= k < d.len() ==> '0' <= #[trigger] d[k] <= '9',
    ensures
        parse_unsigned(d, max) == if crate::text::digits_value(d) <= max {
            Some(crate::text::digits_value(d))
        } else {
            None
        },
{
    assert(crate::text::all_digits(d)) by {
        assert forall|k: int| 0 <= k < d.len() implies crate::text::is_digit(#[trigger] d[k]) by {
            assert('0' <= d[k] <= '9');
        }
    }
}

/// The parts of a reference such as `$B$12`: whether the column is absolute, the column
/// letters, whether the row is absolute, and the row digits; `None` unless the whole token is
/// an optional `$`, upper-case letters, an optional `$` and digits.
pub open spec fn reference_parts(t: Seq<char>) -> Option<(bool, Seq<char>, bool, Seq<char>)> {
    let abs_col = t.len() > 0 && t[0] == '$';
    let i = if abs_col { 1int } else { 0int };
    let k = leading_upper(t.skip(i));
    let j = i + k;
    let abs_row = j < t.len() && t[j] == '$';
    let r = if abs_row { j + 1 } else { j };
    let d = leading_digits(t.skip(r));
    if k == 0 || d == 0 || r + d != t.len() {
        None
    } else {
        Some((abs_col, t.subrange(i, j), abs_row, t.skip(r)))
    }
}

/// A reference moved by the given numbers of columns and rows, its `$`-marked parts staying
/// put. `None` where the token is no reference, where the column or row would not be above
/// zero, where the row digits exceed `i64`, the column letters exceed `u32`, or a shifted
/// value leaves `i64` (where the sum would overflow). A shifted column beyond `u32`
/// is taken modulo 2^32, as the cast to `u32` does, and gives `None` where that is zero.
pub open spec fn shifted_reference(t: Seq<char>, column_delta: int, row_delta: int) -> Option<Seq<char>> {
    match reference_parts(t) {
        None => None,
        Some((abs_col, col, abs_row, digits)) => {
            let cn = crate::csv_data::column_value(col);
            let rn = crate::text::digits_value(digits);
            let sc = if abs_col { cn } else { cn + column_delta };
            let sr = if abs_row { rn as int } else { rn + row_delta };
            if cn > u32::MAX || rn > i64::MAX || sc > i64::MAX || sr > i64::MAX || sc <= 0 || sr <= 0
                || sc % 0x1_0000_0000 == 0 {
                None
            } else {
                Some(
                    (if abs_col { "$"@ } else { Seq::empty() }) + crate::cells::column_name(
                        (sc % 0x1_0000_0000) as nat,
                    ) + (if abs_row { "$"@ } else { Seq::empty() }) + crate::text::decimal(sr as nat),
                )
            }
        },
    }
}

pub fn shift_formula_reference(token: &str, column_delta: i64, row_delta: i64) -> (r: Option<String>)
    ensures
        match r {
            Some(s) => shifted_reference(token@, column_delta as int, row_delta as int) == Some(s@),
            None => shifted_reference(token@, column_delta as int, row_delta as int) is None,
        },
{
    let t = chars_of(token);
    let abs_col = t.len() > 0 && t[0] == '$';
    let i: usize = if abs_col { 1 } else { 0 };
    let mut j = i;
    while j < t.len() && 'A' <= t[j] && t[j] <= 'Z'
        invariant
            i <= j <= t@.len(),
            forall|k: int| i <= k < j ==> crate::cells::is_upper_letter(#[trigger] t@[k]),
        decreases t.len() - j,
    {
        j += 1;
    }
    proof {
        let rest = t@.skip(i as int);
        assert forall|k: int| 0 <= k < j - i implies crate::cells::is_upper_letter(#[trigger] rest[k]) by {
            assert(rest[k] == t@[i + k]);
        }
        if j < t@.len() {
            assert(rest[j - i] == t@[j as int]);
        }
        lemma_leading_upper(rest, j - i);
    }
    let abs_row = j < t.len() && t[j] == '$';
    let r: usize = if abs_row { j + 1 } else { j };
    let mut e = r;
    while e < t.len() && '0' <= t[e] && t[e] <= '9'
        invariant
            r <= e <= t@.len(),
            forall|k: int| r <= k < e ==> '0' <= #[trigger] t@[k] <= '9',
        decreases t.len() - e,
    {
        e += 1;
    }
    proof {
        let rest = t@.skip(r as int);
        assert forall|k: int| 0 <= k < e - r implies '0' <= #[trigger] rest[k] <= '9' by {
            assert(rest[k] == t@[r + k]);
        }
        if e < t@.len() {
            assert(rest[e - r] == t@[e as int]);
        }
        lemma_leading_digits(rest, e - r);
    }
    if j == i || e == r || e != t.len() {
        return None;
    }
    let column = string_of_range(t.as_slice(), i, j);
    let cn = match crate::cells::column_name_to_number(column.as_str()) {
        Some(n) => n,
        None => {
            proof {
                lemma_trim_all_upper(column@);
            }
            return None;
        },
    };
    proof {
        lemma_trim_all_upper(column@);
    }
    let digits = string_of_range(t.as_slice(), r, t.len());
    let dcs = chars_of(digits.as_str());
    let rn = match parse_unsigned_chars(dcs.as_slice(), 9223372036854775807u128) {
        Some(v) => v as i64,
        None => {
            proof {
                lemma_digits_parse(dcs@, i64::MAX as nat);
            }
            return None;
        },
    };
    proof {
        lemma_digits_parse(dcs@, i64::MAX as nat);
    }
    let sc: i64 = if abs_col {
        cn as i64
    } else {
        match (cn as i64).checked_add(column_delta) {
            Some(v) => v,
            None => {
                return None;
            },
        }
    };
    let sr: i64 = if abs_row {
        rn
    } else {
        match rn.checked_add(row_delta) {
            Some(v) => v,
            None => {
                return None;
            },
        }
    };
    if sc <= 0 || sr <= 0 {
        return None;
    }
    let wrapped = (sc % 4294967296) as u32;
    let name = match crate::cells::column_number_to_name(wrapped) {
        Some(n) => n,
        None => {
            return None;
        },
    };
    let mut out = String::new();
    if abs_col {
        out.push('$');
    }
    push_str(&mut out, name.as_str());
    if abs_row {
        out.push('$');
    }
    let rd = crate::text::decimal_string(sr as u128);
    push_str(&mut out, rd.as_str());
    proof {
        reveal_strlit("$");
        assert(out@ =~= (if abs_col { "$"@ } else { Seq::empty() }) + crate::cells::column_name(
            (sc % 0x1_0000_0000) as nat,
        ) + (if abs_row { "$"@ } else { Seq::empty() }) + crate::text::decimal(sr as nat));
    }
    Some(out)
}

/// The letters a text starts with are upper-case, and the next character is not.
proof fn lemma_leading_upper_chars(s: Seq<char>)
    ensures
        leading_upper(s) <= s.len(),
        forall|k: int| 0 <= k < leading_upper(s) ==> crate::cells::is_upper_letter(#[trigger] s[k]),
    decreases s.len(),
{
    if s.len() > 0 && crate::cells::is_upper_letter(s[0]) {
        let t = s.drop_first();
        lemma_leading_upper_chars(t);
        assert forall|k: int| 0 <= k < leading_upper(s) implies crate::cells::is_upper_letter(
            #[trigger] s[k],
        ) by {
            if k > 0 {
                assert(s[k] == t[k - 1]);
            }
        }
    }
}

/// The column letters of a split reference are all upper-case.
proof fn lemma_cell_parts_upper(cell: Seq<char>)
    ensures
        cell_parts(cell) matches Some((col, _)) ==> col.len() > 0 && crate::cells::all_upper(col),
{
    let t = trim(cell);
    lemma_leading_upper_chars(t);
    if let Some((col, _)) = cell_parts(cell) {
        assert forall|i: int| 0 <= i < col.len() implies crate::cells::is_upper_letter(#[trigger] col[i]) by {
            assert(col[i] == t[i]);
        }
    }
}

/// The pieces before the `i`th cover a prefix of the text the pieces cover.
proof fn lemma_pieces_prefix(p: Seq<(Seq<char>, Seq<char>)>, i: int)
    requires
        0 <= i <= p.len(),
    ensures
        pieces_text(p.take(i)).len() <= pieces_text(p).len(),
    decreases p.len(),
{
    if i < p.len() {
        assert(p.drop_last().take(i) =~= p.take(i));
        lemma_pieces_prefix(p.drop_last(), i);
    } else {
        assert(p.take(i) =~= p);
    }
}

/// What a match of a reference at `start` becomes: left alone where it is part of a longer
/// name or a call, else shifted (or left alone where it cannot be).
pub open spec fn reference_replacement(f: Seq<char>, start: int, tok: Seq<char>, cd: int, rd: int) -> Seq<char> {
    if skip_reference(f, start, start + tok.len()) {
        tok
    } else {
        match shifted_reference(tok, cd, rd) {
            Some(x) => x,
            None => tok,
        }
    }
}

/// The formula rebuilt piece by piece: each gap kept, each reference replaced.
pub open spec fn translated_pieces(f: Seq<char>, p: Seq<(Seq<char>, Seq<char>)>, cd: int, rd: int) -> Seq<char>
    decreases p.len(),
{
    if p.len() == 0 {
        Seq::empty()
    } else {
        let init = p.drop_last();
        translated_pieces(f, init, cd, rd) + p.last().0 + reference_replacement(
            f,
            (pieces_text(init).len() + p.last().0.len()) as int,
            p.last().1,
            cd,
            rd,
        )
    }
}

/// A shared formula as seen from another cell: every relative reference moved by the
/// distance from the master cell to the target. The formula is kept where either cell does
/// not split, or a column's letters number beyond `u32`.
pub open spec fn translated_formula(f: Seq<char>, master: Seq<char>, target: Seq<char>) -> Seq<char> {
    match (cell_parts(master), cell_parts(target)) {
        (Some((mc, mr)), Some((tc, tr))) => {
            let mcn = crate::csv_data::column_value(mc);
            let tcn = crate::csv_data::column_value(tc);
            if mcn > u32::MAX || tcn > u32::MAX {
                f
            } else {
                let (p, rest) = regex_find_pieces(formula_ref_pattern(), f);
                translated_pieces(f, p, tcn - mcn, tr - mr) + rest
            }
        },
        _ => f,
    }
}

fn column_number_of(col: &String, Ghost(cell): Ghost<Seq<char>>) -> (r: Option<u32>)
    requires
        cell_parts(cell) matches Some((c, _)) && c == col@,
    ensures
        match r {
            Some(n) => n == crate::csv_data::column_value(col@),
            None => crate::csv_data::column_value(col@) > u32::MAX,
        },
{
    proof {
        lemma_cell_parts_upper(cell);
        lemma_trim_all_upper(col@);
    }
    crate::cells::column_name_to_number(col.as_str())
}

pub fn translate_shared_formula(formula: &str, master_cell: &str, target_cell: &str) -> (out: String)
    ensures
        out@ == translated_formula(formula@, master_cell@, target_cell@),
{
    let (mcol, mrow) = match split_cell_reference(master_cell) {
        Ok(x) => x,
        Err(_) => {
            return formula.to_owned();
        },
    };
    let (tcol, trow) = match split_cell_reference(target_cell) {
        Ok(x) => x,
        Err(_) => {
            return formula.to_owned();
        },
    };
    let mcn = match column_number_of(&mcol, Ghost(master_cell@)) {
        Some(n) => n,
        None => {
            return formula.to_owned();
        },
    };
    let tcn = match column_number_of(&tcol, Ghost(target_cell@)) {
        Some(n) => n,
        None => {
            return formula.to_owned();
        },
    };
    let cd: i64 = tcn as i64 - mcn as i64;
    let rd: i64 = trow as i64 - mrow as i64;
    let re = match CompiledRegex::compile("\\$?[A-Z]{1,3}\\$?\\d+") {
        Some(r) => r,
        None => {
            return formula.to_owned();
        },
    };
    let (pieces, rest) = re.find_pieces(formula);
    let ghost pv = pair_views(pieces@);
    let fc = chars_of(formula);
    let mut out = String::new();
    let mut cursor: usize = 0;
    assert(pv.take(0) =~= Seq::<(Seq<char>, Seq<char>)>::empty());
    for i in 0..pieces.len()
        invariant
            pv == pair_views(pieces@),
            pieces_text(pv) + rest@ == formula@,
            fc@ == formula@,
            out@ == translated_pieces(formula@, pv.take(i as int), cd as int, rd as int),
            cursor == pieces_text(pv.take(i as int)).len(),
    {
        let gap = &pieces[i].0;
        let tok = &pieces[i].1;
        let gc = chars_of(gap.as_str());
        let tc = chars_of(tok.as_str());
        proof {
            assert(pv.take(i + 1).drop_last() =~= pv.take(i as int));
            assert(pv.take(i + 1).last() == pv[i as int]);
            assert(pv[i as int] == (gap@, tok@));
            lemma_pieces_prefix(pv, i + 1);
            assert(pieces_text(pv.take(i + 1)) == pieces_text(pv.take(i as int)) + gap@ + tok@);
            assert((pieces_text(pv) + rest@).len() == fc@.len());
        }
        push_str(&mut out, gap.as_str());
        assert(gc@ == gap@ && tc@ == tok@);
        assert(pieces_text(pv.take(i + 1)).len() == cursor + gc@.len() + tc@.len());
        assert(cursor + gc.len() + tc.len() <= fc.len());
        let start = cursor + gc.len();
        let end = start + tc.len();
        if should_skip_formula_reference(&fc, start, end) {
            push_str(&mut out, tok.as_str());
        } else {
            match shift_formula_reference(tok.as_str(), cd, rd) {
                Some(x) => push_str(&mut out, x.as_str()),
                None => push_str(&mut out, tok.as_str()),
            }
        }
        cursor = end;
    }
    assert(pv.take(pieces@.len() as int) =~= pv);
    push_str(&mut out, rest.as_str());
    out
}

/// A shared formula as its master cell defines it: the cell and the formula text.
pub struct SharedFormulaMaster {
    pub cell: String,
    pub formula: String,
}

pub open spec fn master_views(m: Map<Seq<char>, SharedFormulaMaster>) -> Map<Seq<char>, (Seq<char>, Seq<char>)> {
    m.map_values(|x: SharedFormulaMaster| (x.cell@, x.formula@))
}

/// The start tag of a cell's formula, and its body where it has one.
pub open spec fn formula_tag(cell_xml: Seq<char>) -> Option<(Seq<char>, Option<Seq<char>>)> {
    match formula_segment_spec(cell_xml) {
        Some((start, open_end, end, closed)) => Some(
            (
                cell_xml.subrange(start, open_end),
                if closed {
                    None
                } else {
                    Some(cell_xml.subrange(open_end, end - 4))
                },
            ),
        ),
        None => None,
    }
}

/// The shared formula a cell defines as its master: `t="shared"`, an `si` index and a body
/// that is not blank. Gives the index and the body.
pub open spec fn cell_master(cell_xml: Seq<char>) -> Option<(Seq<char>, Seq<char>)> {
    match formula_tag(cell_xml) {
        Some((tag, body)) => if attr_value(tag, "t"@) == Some("shared"@) {
            match (attr_value(tag, "si"@), body) {
                (Some(si), Some(b)) => if is_blank(b) {
                    None
                } else {
                    Some((si, b))
                },
                _ => None,
            }
        } else {
            None
        },
        None => None,
    }
}

/// The masters of the matched cells, by index; a later master of an index replaces an
/// earlier one.
pub open spec fn masters_of(p: Seq<CaptureView>) -> Map<Seq<char>, (Seq<char>, Seq<char>)>
    decreases p.len(),
{
    if p.len() == 0 {
        Map::empty()
    } else {
        let m = masters_of(p.drop_last());
        let c = p.last();
        if c.groups.len() > 0 && c.groups[0] is Some {
            match cell_master(c.matched) {
                Some((si, body)) => m.insert(si, (c.groups[0]->0, body)),
                None => m,
            }
        } else {
            m
        }
    }
}

/// A cell with its shared formula written out: a body it has is kept; an empty one gets the
/// master's formula as seen from this cell; a shared formula whose master is unknown is
/// dropped. Other cells are unchanged.
pub open spec fn expanded_cell(
    cell_xml: Seq<char>,
    cell_ref: Seq<char>,
    masters: Map<Seq<char>, (Seq<char>, Seq<char>)>,
) -> Seq<char> {
    match formula_segment_spec(cell_xml) {
        None => cell_xml,
        Some((start, open_end, end, closed)) => {
            let tag = cell_xml.subrange(start, open_end);
            if attr_value(tag, "t"@) != Some("shared"@) {
                cell_xml
            } else {
                match attr_value(tag, "si"@) {
                    None => cell_xml,
                    Some(si) => if !masters.contains_key(si) {
                        cell_xml.take(start) + cell_xml.skip(end)
                    } else {
                        let explicit = if !closed && !is_blank(cell_xml.subrange(open_end, end - 4)) {
                            cell_xml.subrange(open_end, end - 4)
                        } else {
                            translated_formula(masters[si].1, masters[si].0, cell_ref)
                        };
                        cell_xml.take(start) + "<f>"@ + explicit + "</f>"@ + cell_xml.skip(end)
                    },
                }
            }
        },
    }
}

proof fn lemma_segment_bounds(xml: Seq<char>)
    ensures
        formula_segment_spec(xml) matches Some((start, open_end, end, closed)) ==> 0 <= start
            < open_end <= end <= xml.len() && (!closed ==> open_end <= end - 4),
{
    reveal_strlit("<f");
    reveal_strlit(">");
    reveal_strlit("</f>");
    lemma_first_in(xml, "<f"@, 0, xml.len() as int);
    if let Some(start) = first_in(xml, "<f"@, 0, xml.len() as int) {
        lemma_first_in(xml, ">"@, start, xml.len() as int);
        if let Some(gt) = first_in(xml, ">"@, start, xml.len() as int) {
            lemma_first_in(xml, "</f>"@, gt + 1, xml.len() as int);
        }
    }
}

fn str_opt_eq(a: &Option<String>, b: &str) -> (r: bool)
    ensures
        r == (a matches Some(x) && x@ == b@),
{
    match a {
        Some(x) => crate::text::str_eq(x.as_str(), b),
        None => false,
    }
}

pub fn expand_shared_formula_in_cell(
    cell_xml: &str,
    cell_ref: &str,
    masters: &StrMap<SharedFormulaMaster>,
) -> (out: String)
    ensures
        out@ == expanded_cell(cell_xml@, cell_ref@, master_views(masters@)),
{
    let cs = chars_of(cell_xml);
    let seg = match find_formula_segment(&cs) {
        Some(f) => f,
        None => {
            return cell_xml.to_owned();
        },
    };
    proof {
        lemma_segment_bounds(cs@);
        reveal_strlit("shared");
        reveal_strlit("<f>");
        reveal_strlit("</f>");
    }
    let t = extract_attr(seg.start_tag.as_str(), "t");
    if !str_opt_eq(&t, "shared") {
        return cell_xml.to_owned();
    }
    let si = match extract_attr(seg.start_tag.as_str(), "si") {
        Some(x) => x,
        None => {
            return cell_xml.to_owned();
        },
    };
    let head = string_of_range(cs.as_slice(), 0, seg.start);
    let tail = string_of_range(cs.as_slice(), seg.end, cs.len());
    assert(head@ =~= cell_xml@.take(seg.start as int));
    assert(tail@ =~= cell_xml@.skip(seg.end as int));
    let master = match masters.get(si.as_str()) {
        Some(m) => m,
        None => {
            assert(!master_views(masters@).contains_key(si@));
            let mut out = String::new();
            push_str(&mut out, head.as_str());
            push_str(&mut out, tail.as_str());
            return out;
        },
    };
    assert(master_views(masters@).contains_key(si@));
    assert(master_views(masters@)[si@] == (master.cell@, master.formula@));
    let explicit = match &seg.body {
        Some(b) => {
            if !is_blank_str(b.as_str()) {
                b.clone()
            } else {
                translate_shared_formula(master.formula.as_str(), master.cell.as_str(), cell_ref)
            }
        },
        None => translate_shared_formula(master.formula.as_str(), master.cell.as_str(), cell_ref),
    };
    let mut out = String::new();
    push_str(&mut out, head.as_str());
    push_str(&mut out, "<f>");
    push_str(&mut out, explicit.as_str());
    push_str(&mut out, "</f>");
    push_str(&mut out, tail.as_str());
    out
}

/// The cells put back together, each with its shared formula written out.
pub open spec fn expanded_pieces(p: Seq<CaptureView>, masters: Map<Seq<char>, (Seq<char>, Seq<char>)>) -> Seq<char>
    decreases p.len(),
{
    if p.len() == 0 {
        Seq::empty()
    } else {
        let c = p.last();
        expanded_pieces(p.drop_last(), masters) + c.before + if c.groups.len() > 0 && c.groups[0] is Some {
            expanded_cell(c.matched, c.groups[0]->0, masters)
        } else {
            c.matched
        }
    }
}

/// A worksheet with every shared formula written out in each cell that uses it, so that a
/// cell can be replaced without breaking the cells that share its formula. A sheet without
/// `t="shared"` is unchanged.
pub open spec fn expanded_sheet(xml: Seq<char>) -> Seq<char> {
    if !crate::text::contains(xml, "t=\"shared\""@) {
        xml
    } else {
        let (p, rest) = regex_capture_pieces(shared_cell_pattern(), xml);
        expanded_pieces(p, masters_of(p)) + rest
    }
}

fn first_group(c: &crate::patterns::CapturePiece) -> (r: Option<&String>)
    ensures
        match r {
            Some(g) => c@.groups.len() > 0 && c@.groups[0] == Some(g@),
            None => !(c@.groups.len() > 0 && c@.groups[0] is Some),
        },
{
    if c.groups.len() > 0 {
        match &c.groups[0] {
            Some(g) => Some(g),
            None => None,
        }
    } else {
        None
    }
}

fn cell_master_of(cell_xml: &str) -> (r: Option<(String, String)>)
    ensures
        match r {
            Some((si, body)) => cell_master(cell_xml@) == Some((si@, body@)),
            None => cell_master(cell_xml@) is None,
        },
{
    let cs = chars_of(cell_xml);
    let seg = match find_formula_segment(&cs) {
        Some(f) => f,
        None => {
            return None;
        },
    };
    proof {
        reveal_strlit("shared");
    }
    let t = extract_attr(seg.start_tag.as_str(), "t");
    if !str_opt_eq(&t, "shared") {
        return None;
    }
    let si = match extract_attr(seg.start_tag.as_str(), "si") {
        Some(x) => x,
        None => {
            return None;
        },
    };
    match seg.body {
        Some(b) => {
            if is_blank_str(b.as_str()) {
                None
            } else {
                Some((si, b))
            }
        },
        None => None,
    }
}

pub fn expand_shared_formulas(xml: &str) -> (out: String)
    ensures
        out@ == expanded_sheet(xml@),
{
    if !crate::text::contains_str(xml, "t=\"shared\"") {
        return xml.to_owned();
    }
    let re = match CompiledRegex::compile("(?s)<c\\b[^>]*\\br=\"([A-Z]+[0-9]+)\"[^>]*>.*?</c>") {
        Some(r) => r,
        None => {
            return xml.to_owned();
        },
    };
    let (pieces, rest) = re.capture_pieces(xml);
    let ghost cv = capture_views(pieces@);
    let mut masters: StrMap<SharedFormulaMaster> = StrMap::new();
    assert(master_views(masters@) =~= masters_of(cv.take(0)));
    for i in 0..pieces.len()
        invariant
            cv == capture_views(pieces@),
            master_views(masters@) == masters_of(cv.take(i as int)),
    {
        let piece = &pieces[i];
        proof {
            assert(cv.take(i + 1).drop_last() =~= cv.take(i as int));
            assert(cv.take(i + 1).last() == cv[i as int]);
        }
        let ghost before = masters@;
        match first_group(piece) {
            Some(cell_ref) => {
                match cell_master_of(piece.matched.as_str()) {
                    Some((si, body)) => {
                        masters.insert(si, SharedFormulaMaster { cell: cell_ref.clone(), formula: body });
                        proof {
                            assert(master_views(masters@) =~= master_views(before).insert(
                                si@,
                                (cell_ref@, body@),
                            ));
                        }
                    },
                    None => {},
                }
            },
            None => {},
        }
    }
    assert(cv.take(pieces@.len() as int) =~= cv);
    let mut out = String::new();
    assert(cv.take(0) =~= Seq::<CaptureView>::empty());
    for i in 0..pieces.len()
        invariant
            cv == capture_views(pieces@),
            master_views(masters@) == masters_of(cv),
            out@ == expanded_pieces(cv.take(i as int), masters_of(cv)),
    {
        let piece = &pieces[i];
        proof {
            assert(cv.take(i + 1).drop_last() =~= cv.take(i as int));
            assert(cv.take(i + 1).last() == cv[i as int]);
        }
        push_str(&mut out, piece.before.as_str());
        match first_group(piece) {
            Some(cell_ref) => {
                let e = expand_shared_formula_in_cell(piece.matched.as_str(), cell_ref.as_str(), &masters);
                push_str(&mut out, e.as_str());
            },
            None => push_str(&mut out, piece.matched.as_str()),
        }
    }
    assert(cv.take(pieces@.len() as int) =~= cv);
    push_str(&mut out, rest.as_str());
    out
}

/// The last position where `needle` occurs in `hay`, as `str::rfind` finds it.
pub open spec fn last_occ(hay: Seq<char>, needle: Seq<char>) -> Option<int> {
    last_from(hay, needle, hay.len() - needle.len())
}

pub open spec fn last_from(hay: Seq<char>, needle: Seq<char>, j: int) -> Option<int>
    decreases j + 1,
{
    if j < 0 {
        None
    } else if occurs_at(hay, needle, j) {
        Some(j)
    } else {
        last_from(hay, needle, j - 1)
    }
}

pub fn rfind_chars(hay: &Vec<char>, needle: &[char]) -> (r: Option<usize>)
    ensures
        match r {
            Some(j) => last_occ(hay@, needle@) == Some(j as int) && j + needle@.len() <= hay@.len(),
            None => last_occ(hay@, needle@) is None,
        },
{
    if needle.len() > hay.len() {
        assert(last_from(hay@, needle@, hay@.len() - needle@.len()) is None);
        return None;
    }
    let mut j = hay.len() - needle.len();
    loop
        invariant
            needle@.len() <= hay@.len(),
            j + needle@.len() <= hay@.len(),
            last_occ(hay@, needle@) == last_from(hay@, needle@, j as int),
        decreases j,
    {
        if occurs_at_chars(hay.as_slice(), needle, j) {
            return Some(j);
        }
        if j == 0 {
            assert(last_from(hay@, needle@, -1) is None);
            return None;
        }
        j = j - 1;
    }
}

/// `<attr>="<value>"`, the value escaped.
pub open spec fn attr_text(attr: Seq<char>, value: Seq<char>) -> Seq<char> {
    attr + "=\""@ + escaped_attr(value) + "\""@
}

/// A tag with the attribute set: its existing value replaced (the first `attr="..."` that the
/// attribute pattern matches), else the attribute added before the last `/>`, else before the
/// last `>`; a text with neither is unchanged.
pub open spec fn attr_set(tag: Seq<char>, attr: Seq<char>, value: Seq<char>) -> Seq<char> {
    let pat = attr_pattern(attr);
    let text = attr_text(attr, value);
    if regex_match_result(pat, tag) {
        regex_replace_first(pat, tag, text)
    } else {
        match last_occ(tag, "/>"@) {
            Some(i) => tag.take(i) + " "@ + text + tag.skip(i),
            None => match last_occ(tag, ">"@) {
                Some(i) => tag.take(i) + " "@ + text + tag.skip(i),
                None => tag,
            },
        }
    }
}

pub fn set_xml_attr(tag: &str, attr: &str, value: &str) -> (out: String)
    requires
        regex_compiles(attr_pattern(attr@)) || crate::patterns::fixed_pattern(attr_pattern(attr@)),
    ensures
        out@ == attr_set(tag@, attr@, value@),
{
    let mut source = String::new();
    push_str(&mut source, "\\b");
    let escaped = regex_escape(attr);
    push_str(&mut source, escaped.as_str());
    push_str(&mut source, "=\"[^\"]*\"");
    let mut text = String::new();
    push_str(&mut text, attr);
    push_str(&mut text, "=\"");
    let v = escape_xml_attr(value);
    push_str(&mut text, v.as_str());
    push_str(&mut text, "\"");
    let re = match CompiledRegex::compile(source.as_str()) {
        Some(r) => r,
        None => {
            return tag.to_owned();
        },
    };
    if re.is_match(tag) {
        return re.replace_first(tag, text.as_str());
    }
    let cs = chars_of(tag);
    let slash_gt = ['/', '>'];
    let gt = ['>'];
    proof {
        reveal_strlit("/>");
        reveal_strlit(">");
        assert(slash_gt@ =~= "/>"@);
        assert(gt@ =~= ">"@);
    }
    let at = match rfind_chars(&cs, &slash_gt) {
        Some(i) => i,
        None => match rfind_chars(&cs, &gt) {
            Some(i) => i,
            None => {
                return tag.to_owned();
            },
        },
    };
    let head = string_of_range(cs.as_slice(), 0, at);
    let tail = string_of_range(cs.as_slice(), at, cs.len());
    assert(head@ =~= tag@.take(at as int));
    assert(tail@ =~= tag@.skip(at as int));
    let mut out = String::new();
    push_str(&mut out, head.as_str());
    push_str(&mut out, " ");
    push_str(&mut out, text.as_str());
    push_str(&mut out, tail.as_str());
    out
}

/// `<calcPr calcMode="auto" fullCalcOnLoad="1" forceFullCalc="1"/>`.
pub open spec fn full_calc_pr() -> Seq<char> {
    "<calcPr calcMode=\"auto\" fullCalcOnLoad=\"1\" forceFullCalc=\"1\"/>"@
}

/// A workbook set to recalculate every formula when it is opened: its `<calcPr>` gets
/// `calcMode="auto"`, `fullCalcOnLoad="1"` and `forceFullCalc="1"`; a workbook without one
/// gets one before `</workbook>`; a text with neither is unchanged.
pub open spec fn recalc_forced(xml: Seq<char>) -> Seq<char> {
    match regex_find_split(calc_pr_pattern(), xml) {
        Some((a, m, b)) => a + attr_set(
            attr_set(attr_set(m, "calcMode"@, "auto"@), "fullCalcOnLoad"@, "1"@),
            "forceFullCalc"@,
            "1"@,
        ) + b,
        None => match first_in(xml, "</workbook>"@, 0, xml.len() as int) {
            Some(i) => xml.take(i) + full_calc_pr() + xml.skip(i),
            None => xml,
        },
    }
}

pub fn force_full_recalculation(workbook_xml: &str) -> (out: String)
    ensures
        out@ == recalc_forced(workbook_xml@),
{
    let re = match CompiledRegex::compile("<calcPr\\b[^>]*/?>") {
        Some(r) => r,
        None => {
            return workbook_xml.to_owned();
        },
    };
    match re.find_split(workbook_xml) {
        Some((a, m, b)) => {
            let u1 = set_xml_attr(m.as_str(), "calcMode", "auto");
            let u2 = set_xml_attr(u1.as_str(), "fullCalcOnLoad", "1");
            let u3 = set_xml_attr(u2.as_str(), "forceFullCalc", "1");
            let mut out = String::new();
            push_str(&mut out, a.as_str());
            push_str(&mut out, u3.as_str());
            push_str(&mut out, b.as_str());
            return out;
        },
        None => {},
    }
    let cs = chars_of(workbook_xml);
    let close = chars_of("</workbook>");
    match find_in(&cs, close.as_slice(), 0, cs.len()) {
        Some(i) => {
            proof {
                lemma_first_in(workbook_xml@, "</workbook>"@, 0, workbook_xml@.len() as int);
            }
            let head = string_of_range(cs.as_slice(), 0, i);
            let tail = string_of_range(cs.as_slice(), i, cs.len());
            assert(head@ =~= workbook_xml@.take(i as int));
            assert(tail@ =~= workbook_xml@.skip(i as int));
            let mut out = String::new();
            push_str(&mut out, head.as_str());
            push_str(&mut out, "<calcPr calcMode=\"auto\" fullCalcOnLoad=\"1\" forceFullCalc=\"1\"/>");
            push_str(&mut out, tail.as_str());
            out
        },
        None => workbook_xml.to_owned(),
    }
}

/// The workbook relationships without the one to the calculation chain: every match of the
/// relationship pattern removed.
pub fn remove_calc_chain_relationship(rels_xml: &str) -> (out: String)
    ensures
        out@ == regex_replace_all(calc_chain_rel_pattern(), rels_xml@, Seq::empty()),
        out@ == pieces_replaced(regex_find_pieces(calc_chain_rel_pattern(), rels_xml@).0, Seq::empty())
            + regex_find_pieces(calc_chain_rel_pattern(), rels_xml@).1,
{
    proof {
        reveal_strlit("");
        assert(""@ =~= Seq::<char>::empty());
    }
    let re = match CompiledRegex::compile(
        "<Relationship\\b[^>]*(?:Type=\"[^\"]*/calcChain\"|Target=\"calcChain\\.xml\")[^>]*/>",
    ) {
        Some(r) => r,
        None => {
            return rels_xml.to_owned();
        },
    };
    re.replace_all(rels_xml, "")
}

/// The content types without the calculation chain's override: every match removed.
pub fn remove_calc_chain_content_type(content_types_xml: &str) -> (out: String)
    ensures
        out@ == regex_replace_all(calc_chain_override_pattern(), content_types_xml@, Seq::empty()),
        out@ == pieces_replaced(
            regex_find_pieces(calc_chain_override_pattern(), content_types_xml@).0,
            Seq::empty(),
        ) + regex_find_pieces(calc_chain_override_pattern(), content_types_xml@).1,
{
    proof {
        reveal_strlit("");
        assert(""@ =~= Seq::<char>::empty());
    }
    let re = match CompiledRegex::compile("<Override\\b[^>]*PartName=\"/xl/calcChain\\.xml\"[^>]*/>") {
        Some(r) => r,
        None => {
            return content_types_xml.to_owned();
        },
    };
    re.replace_all(content_types_xml, "")
}

/// A matched start tag's first group reads as a row number above the given one.
pub open spec fn later_row(c: CaptureView, row: u32) -> bool {
    c.groups.len() > 0 && c.groups[0] is Some && match parse_unsigned(c.groups[0]->0, u32::MAX as nat) {
        Some(v) => v > row,
        None => false,
    }
}

/// The position where the first piece at or after `i` that satisfies `later` starts.
pub open spec fn first_later_row(p: Seq<CaptureView>, row: u32, i: int) -> Option<int>
    decreases p.len() - i,
{
    if i < 0 || i >= p.len() {
        None
    } else if later_row(p[i], row) {
        Some((captures_text(p.take(i)).len() + p[i].before.len()) as int)
    } else {
        first_later_row(p, row, i + 1)
    }
}

/// Where a new row goes: before the first `<row>` whose number is above it.
pub open spec fn row_insert_spec(xml: Seq<char>, row: u32) -> Option<int> {
    first_later_row(regex_capture_pieces(row_number_pattern(), xml).0, row, 0)
}

proof fn lemma_captures_prefix(p: Seq<CaptureView>, i: int)
    requires
        0 <= i <= p.len(),
    ensures
        captures_text(p.take(i)).len() <= captures_text(p).len(),
    decreases p.len(),
{
    if i < p.len() {
        assert(p.drop_last().take(i) =~= p.take(i));
        lemma_captures_prefix(p.drop_last(), i);
    } else {
        assert(p.take(i) =~= p);
    }
}

pub fn row_insert_position(xml: &str, row_number: u32) -> (r: Option<usize>)
    ensures
        match r {
            Some(k) => row_insert_spec(xml@, row_number) == Some(k as int) && k <= xml@.len(),
            None => row_insert_spec(xml@, row_number) is None,
        },
{
    let re = match CompiledRegex::compile("<row\\b[^>]*\\br=\"(\\d+)\"") {
        Some(r) => r,
        None => {
            return None;
        },
    };
    let (pieces, rest) = re.capture_pieces(xml);
    let ghost cv = capture_views(pieces@);
    let xl = chars_of(xml).len();
    let mut offset: usize = 0;
    assert(cv.take(0) =~= Seq::<CaptureView>::empty());
    for i in 0..pieces.len()
        invariant
            cv == capture_views(pieces@),
            cv == regex_capture_pieces(row_number_pattern(), xml@).0,
            captures_text(cv) + rest@ == xml@,
            xl == xml@.len(),
            offset == captures_text(cv.take(i as int)).len(),
            first_later_row(cv, row_number, 0) == first_later_row(cv, row_number, i as int),
    {
        let piece = &pieces[i];
        let bl = chars_of(piece.before.as_str()).len();
        let ml = chars_of(piece.matched.as_str()).len();
        proof {
            assert(cv.take(i + 1).drop_last() =~= cv.take(i as int));
            assert(cv.take(i + 1).last() == cv[i as int]);
            assert(cv[i as int] == piece@);
            lemma_captures_prefix(cv, i + 1);
            assert(captures_text(cv.take(i + 1)) == captures_text(cv.take(i as int)) + piece.before@
                + piece.matched@);
            assert((captures_text(cv) + rest@).len() == xl);
        }
        let later = match first_group(piece) {
            Some(g) => {
                let gc = chars_of(g.as_str());
                match parse_unsigned_chars(gc.as_slice(), 4294967295u128) {
                    Some(v) => v > row_number as u128,
                    None => false,
                }
            },
            None => false,
        };
        assert(later == later_row(cv[i as int], row_number));
        if later {
            assert(first_later_row(cv, row_number, i as int) == Some(offset + bl));
            return Some(offset + bl);
        }
        offset = offset + bl + ml;
    }
    None
}

/// The number of a column name as `column_name_to_number` reads it: the trimmed letters, all
/// upper-case, numbering no more than `u32`.
pub open spec fn column_number_spec(s: Seq<char>) -> Option<int> {
    let t = trim(s);
    if t.len() > 0 && crate::cells::all_upper(t) && crate::csv_data::column_value(t) <= u32::MAX {
        Some(crate::csv_data::column_value(t))
    } else {
        None
    }
}

pub open spec fn later_column(c: CaptureView, target: int) -> bool {
    c.groups.len() > 0 && c.groups[0] is Some && match column_number_spec(c.groups[0]->0) {
        Some(v) => v > target,
        None => false,
    }
}

pub open spec fn first_later_column(p: Seq<CaptureView>, target: int, i: int) -> Option<int>
    decreases p.len() - i,
{
    if i < 0 || i >= p.len() {
        None
    } else if later_column(p[i], target) {
        Some((captures_text(p.take(i)).len() + p[i].before.len()) as int)
    } else {
        first_later_column(p, target, i + 1)
    }
}

/// Where a new cell goes in a row's content `xml[start_at..end_at]`: before the first cell
/// whose column lies to the right of it.
pub open spec fn cell_insert_spec(xml: Seq<char>, start_at: int, end_at: int, cell: Seq<char>) -> Option<int> {
    match cell_parts(cell) {
        None => None,
        Some((col, _)) => match column_number_spec(col) {
            None => None,
            Some(target) => {
                let p = regex_capture_pieces(cell_column_pattern(), xml.subrange(start_at, end_at)).0;
                match first_later_column(p, target, 0) {
                    Some(k) => Some(start_at + k),
                    None => None,
                }
            },
        },
    }
}

pub fn cell_insert_position(xml: &Vec<char>, start_at: usize, end_at: usize, cell: &str) -> (r: Option<usize>)
    requires
        start_at <= end_at <= xml@.len(),
    ensures
        match r {
            Some(k) => cell_insert_spec(xml@, start_at as int, end_at as int, cell@) == Some(k as int)
                && start_at <= k <= end_at,
            None => cell_insert_spec(xml@, start_at as int, end_at as int, cell@) is None,
        },
{
    let column = match split_cell_reference(cell) {
        Ok((c, _)) => c,
        Err(_) => {
            return None;
        },
    };
    let target = match crate::cells::column_name_to_number(column.as_str()) {
        Some(t) => t,
        None => {
            return None;
        },
    };
    let re = match CompiledRegex::compile("<c\\b[^>]*\\br=\"([A-Z]+)\\d+\"") {
        Some(r) => r,
        None => {
            return None;
        },
    };
    let row_xml = string_of_range(xml.as_slice(), start_at, end_at);
    let (pieces, rest) = re.capture_pieces(row_xml.as_str());
    proof {
        lemma_cell_parts_upper(cell@);
        lemma_trim_all_upper(column@);
    }
    let ghost cv = capture_views(pieces@);
    let mut offset: usize = 0;
    assert(cv.take(0) =~= Seq::<CaptureView>::empty());
    for i in 0..pieces.len()
        invariant
            cv == capture_views(pieces@),
            cv == regex_capture_pieces(cell_column_pattern(), xml@.subrange(start_at as int, end_at as int)).0,
            cell_insert_spec(xml@, start_at as int, end_at as int, cell@) == match first_later_column(
                cv,
                target as int,
                0,
            ) {
                Some(k) => Some(start_at + k),
                None => None,
            },
            captures_text(cv) + rest@ == row_xml@,
            row_xml@.len() == end_at - start_at,
            end_at <= xml@.len(),
            offset == captures_text(cv.take(i as int)).len(),
            first_later_column(cv, target as int, 0) == first_later_column(cv, target as int, i as int),
    {
        let piece = &pieces[i];
        let bl = chars_of(piece.before.as_str()).len();
        let ml = chars_of(piece.matched.as_str()).len();
        proof {
            assert(cv.take(i + 1).drop_last() =~= cv.take(i as int));
            assert(cv.take(i + 1).last() == cv[i as int]);
            assert(cv[i as int] == piece@);
            lemma_captures_prefix(cv, i + 1);
            assert(captures_text(cv.take(i + 1)) == captures_text(cv.take(i as int)) + piece.before@
                + piece.matched@);
            assert((captures_text(cv) + rest@).len() == end_at - start_at);
        }
        let later = match first_group(piece) {
            Some(g) => match crate::cells::column_name_to_number(g.as_str()) {
                Some(v) => v > target,
                None => false,
            },
            None => false,
        };
        assert(later == later_column(cv[i as int], target as int));
        if later {
            assert(first_later_column(cv, target as int, i as int) == Some(offset + bl));
            return Some(start_at + offset + bl);
        }
        offset = offset + bl + ml;
    }
    None
}

pub proof fn lemma_row_scan_bounds(xml: Seq<char>, attr: Seq<char>, at: int)
    ensures
        row_scan(xml, attr, at) matches Some((s, oe, cs, e, closed)) ==> 0 <= s < oe <= cs <= e
            <= xml.len() && (closed ==> cs == oe && e == oe) && (!closed ==> e == cs + 6),
    decreases xml.len() + 1 - at,
{
    if at < 0 || at > xml.len() {
    } else {
        reveal_strlit("<row");
        reveal_strlit(">");
        reveal_strlit("</row>");
        lemma_first_in(xml, "<row"@, at, xml.len() as int);
        if let Some(start) = first_in(xml, "<row"@, at, xml.len() as int) {
            lemma_first_in(xml, ">"@, start, xml.len() as int);
            if let Some(gt) = first_in(xml, ">"@, start, xml.len() as int) {
                let open_end = gt + 1;
                lemma_first_in(xml, "</row>"@, open_end, xml.len() as int);
                if first_in(xml, attr, start, open_end) is None {
                    lemma_row_scan_bounds(xml, attr, open_end);
                }
            }
        }
    }
}

pub proof fn lemma_cell_scan_bounds(xml: Seq<char>, attr: Seq<char>, at: int, end_at: int)
    ensures
        cell_scan(xml, attr, at, end_at) matches Some((s, oe, e)) ==> at <= s < oe <= e <= end_at,
    decreases end_at - at,
{
    if at < 0 || at >= end_at || end_at > xml.len() {
    } else {
        reveal_strlit("<c");
        reveal_strlit(">");
        reveal_strlit("</c>");
        lemma_first_in(xml, "<c"@, at, end_at);
        if let Some(start) = first_in(xml, "<c"@, at, end_at) {
            lemma_first_in(xml, ">"@, start, end_at);
            if let Some(gt) = first_in(xml, ">"@, start, end_at) {
                let open_end = gt + 1;
                lemma_first_in(xml, "</c>"@, open_end, end_at);
                if first_in(xml, attr, start, open_end) is None {
                    lemma_cell_scan_bounds(xml, attr, open_end, end_at);
                }
            }
        }
    }
}

/// `<row r="<row>" spans="<col>:<col>"><cell></row>`: a new row holding one cell.
pub open spec fn new_row_xml(row: nat, column: Seq<char>, cell_xml: Seq<char>) -> Seq<char> {
    "<row r=\""@ + crate::text::decimal(row) + "\" spans=\""@ + column + ":"@ + column + "\">"@ + cell_xml
        + "</row>"@
}

/// A worksheet with the cell set to the value: an existing cell is replaced (keeping its
/// style); a missing cell is inserted in column order in its row (a `<row/>` becomes a row
/// holding it); a missing row is inserted in row order, or before `</sheetData>`. `None`
/// where the row is missing and the sheet has no `</sheetData>`.
pub open spec fn patched_sheet(xml: Seq<char>, cell: Seq<char>, value: CellValue) -> Option<Seq<char>> {
    match cell_parts(cell) {
        None => None,
        Some((col, row)) => {
            let rendered = rendered_cell(cell, None, value);
            match row_bounds_spec(xml, row as u32) {
                Some((s, oe, cs, e, closed)) => Some(
                    if closed {
                        xml.take(s) + "<row r=\""@ + crate::text::decimal(row) + "\">"@ + rendered + "</row>"@
                            + xml.skip(e)
                    } else {
                        match cell_scan(xml, cell_attr(cell), oe, cs) {
                            Some((c0, coe, ce)) => xml.take(c0) + rendered_cell(
                                cell,
                                attr_value(xml.subrange(c0, coe), "s"@),
                                value,
                            ) + xml.skip(ce),
                            None => {
                                let i = match cell_insert_spec(xml, oe, cs, cell) {
                                    Some(k) => k,
                                    None => cs,
                                };
                                xml.take(i) + rendered + xml.skip(i)
                            },
                        }
                    },
                ),
                None => match first_in(xml, "</sheetData>"@, 0, xml.len() as int) {
                    None => None,
                    Some(sd) => {
                        let i = match row_insert_spec(xml, row as u32) {
                            Some(k) => k,
                            None => sd,
                        };
                        Some(xml.take(i) + new_row_xml(row, col, rendered) + xml.skip(i))
                    },
                },
            }
        },
    }
}

fn spliced(cs: &Vec<char>, from: usize, to: usize, middle: &str) -> (out: String)
    requires
        from <= to <= cs@.len(),
    ensures
        out@ == cs@.take(from as int) + middle@ + cs@.skip(to as int),
{
    let head = string_of_range(cs.as_slice(), 0, from);
    let tail = string_of_range(cs.as_slice(), to, cs.len());
    assert(head@ =~= cs@.take(from as int));
    assert(tail@ =~= cs@.skip(to as int));
    let mut out = String::new();
    push_str(&mut out, head.as_str());
    push_str(&mut out, middle);
    push_str(&mut out, tail.as_str());
    out
}

/// The text of an inline-string cell from its XML: what lies between its first `<t>` and the
/// next `</t>`, with the XML escapes decoded.
pub open spec fn inline_text(cell_xml: Seq<char>) -> Option<Seq<char>> {
    match first_in(cell_xml, "<t>"@, 0, cell_xml.len() as int) {
        Some(i) => match first_in(cell_xml, "</t>"@, i + 3, cell_xml.len() as int) {
            Some(j) => Some(decoded_attr(cell_xml.subrange(i + 3, j))),
            None => None,
        },
        None => None,
    }
}

/// The inline text of a cell of a sheet, found as a patch finds it: in its row's `<row>`
/// element, by its `r` attribute. Nothing where the row or the cell is not there, or the cell
/// holds no inline text.
pub open spec fn cell_text_of(xml: Seq<char>, cell: Seq<char>) -> Option<Seq<char>> {
    match cell_parts(cell) {
        None => None,
        Some((_, row)) => match row_bounds_spec(xml, row as u32) {
            Some((s, oe, cs, e, closed)) => if closed {
                None
            } else {
                match cell_scan(xml, cell_attr(cell), oe, cs) {
                    Some((c0, coe, ce)) => inline_text(xml.subrange(c0, ce)),
                    None => None,
                }
            },
            None => None,
        },
    }
}

/// Reads the inline text of a cell in a sheet's XML; an error where the cell reference is not
/// one.
pub fn sheet_cell_text(xml: &str, cell: &str) -> (r: Result<Option<String>, ReportError>)
    ensures
        match cell_parts(cell@) {
            None => r matches Err(ReportError::InvalidCell(c)) && c@ == cell@,
            Some(_) => r is Ok && opt_view(r->Ok_0) == cell_text_of(xml@, cell@),
        },
{
    let (_column, row_number) = split_cell_reference(cell)?;
    let cs = chars_of(xml);
    proof {
        lemma_row_scan_bounds(cs@, row_attr(row_number), 0);
    }
    let rb = match find_row_bounds(&cs, row_number) {
        Some(rb) => rb,
        None => {
            return Ok(None);
        },
    };
    if rb.self_closing {
        return Ok(None);
    }
    proof {
        lemma_cell_scan_bounds(cs@, cell_attr(cell@), rb.open_end as int, rb.close_start as int);
    }
    let cb = match find_cell_bounds(&cs, rb.open_end, rb.close_start, cell) {
        Some(cb) => cb,
        None => {
            return Ok(None);
        },
    };
    let cell_xml = string_of_range(cs.as_slice(), cb.start, cb.end);
    let inner = chars_of(cell_xml.as_str());
    let open: [char; 3] = ['<', 't', '>'];
    let close: [char; 4] = ['<', '/', 't', '>'];
    proof {
        reveal_strlit("<t>");
        reveal_strlit("</t>");
        assert(open@ =~= "<t>"@);
        assert(close@ =~= "</t>"@);
    }
    let i = match find_in(&inner, &open, 0, inner.len()) {
        Some(i) => i,
        None => {
            return Ok(None);
        },
    };
    proof {
        lemma_first_in(inner@, "<t>"@, 0, inner@.len() as int);
    }
    let j = match find_in(&inner, &close, i + 3, inner.len()) {
        Some(j) => j,
        None => {
            return Ok(None);
        },
    };
    proof {
        lemma_first_in(inner@, "</t>"@, i + 3, inner@.len() as int);
    }
    let raw = string_of_range(inner.as_slice(), i + 3, j);
    Ok(Some(decode_xml_attr(raw.as_str())))
}

/// Sets one cell of a worksheet's XML to a value.
pub fn patch_cell_xml(xml: &str, sheet_name: &str, cell: &str, value: &CellValue) -> (r: Result<String, ReportError>)
    ensures
        match cell_parts(cell@) {
            None => r matches Err(ReportError::InvalidCell(c)) && c@ == cell@,
            Some(_) => match patched_sheet(xml@, cell@, *value) {
                Some(t) => r matches Ok(o) && o@ == t,
                None => r matches Err(ReportError::SheetDataMissing(n)) && n@ == sheet_name@,
            },
        },
{
    let (column, row_number) = split_cell_reference(cell)?;
    let cs = chars_of(xml);
    proof {
        lemma_row_scan_bounds(cs@, row_attr(row_number), 0);
        reveal_strlit("<row r=\"");
        reveal_strlit("\">");
        reveal_strlit("</row>");
    }
    match find_row_bounds(&cs, row_number) {
        Some(rb) => {
            if rb.self_closing {
                let rendered = render_cell(cell, None, value);
                let mut middle = String::new();
                push_str(&mut middle, "<row r=\"");
                let d = crate::text::decimal_string(row_number as u128);
                push_str(&mut middle, d.as_str());
                push_str(&mut middle, "\">");
                push_str(&mut middle, rendered.as_str());
                push_str(&mut middle, "</row>");
                return Ok(spliced(&cs, rb.start, rb.end, middle.as_str()));
            }
            proof {
                lemma_cell_scan_bounds(cs@, cell_attr(cell@), rb.open_end as int, rb.close_start as int);
            }
            match find_cell_bounds(&cs, rb.open_end, rb.close_start, cell) {
                Some(cb) => {
                    let tag = string_of_range(cs.as_slice(), cb.start, cb.open_end);
                    let style = extract_attr(tag.as_str(), "s");
                    let rendered = match &style {
                        Some(st) => render_cell(cell, Some(st.as_str()), value),
                        None => render_cell(cell, None, value),
                    };
                    Ok(spliced(&cs, cb.start, cb.end, rendered.as_str()))
                },
                None => {
                    let rendered = render_cell(cell, None, value);
                    let at = match cell_insert_position(&cs, rb.open_end, rb.close_start, cell) {
                        Some(k) => k,
                        None => rb.close_start,
                    };
                    Ok(spliced(&cs, at, at, rendered.as_str()))
                },
            }
        },
        None => {
            let close = chars_of("</sheetData>");
            let sheet_data_end = match find_in(&cs, close.as_slice(), 0, cs.len()) {
                Some(i) => i,
                None => {
                    return Err(ReportError::SheetDataMissing(sheet_name.to_owned()));
                },
            };
            proof {
                lemma_first_in(cs@, "</sheetData>"@, 0, cs@.len() as int);
            }
            let rendered = render_cell(cell, None, value);
            let mut row_xml = String::new();
            push_str(&mut row_xml, "<row r=\"");
            let d = crate::text::decimal_string(row_number as u128);
            push_str(&mut row_xml, d.as_str());
            push_str(&mut row_xml, "\" spans=\"");
            push_str(&mut row_xml, column.as_str());
            push_str(&mut row_xml, ":");
            push_str(&mut row_xml, column.as_str());
            push_str(&mut row_xml, "\">");
            push_str(&mut row_xml, rendered.as_str());
            push_str(&mut row_xml, "</row>");
            let at = match row_insert_position(xml, row_number) {
                Some(k) => k,
                None => sheet_data_end,
            };
            Ok(spliced(&cs, at, at, row_xml.as_str()))
        },
    }
}

/// The relationship targets by id; a later relationship with the same id wins.
pub open spec fn rel_targets_of(p: Seq<CaptureView>) -> Map<Seq<char>, Seq<char>>
    decreases p.len(),
{
    if p.len() == 0 {
        Map::empty()
    } else {
        let m = rel_targets_of(p.drop_last());
        let c = p.last();
        if c.groups.len() >= 2 && c.groups[0] is Some && c.groups[1] is Some {
            m.insert(c.groups[0]->0, c.groups[1]->0)
        } else {
            m
        }
    }
}

/// The number of `/` a text starts with.
pub open spec fn lead_slashes(t: Seq<char>) -> nat
    decreases t.len(),
{
    if t.len() > 0 && t[0] == '/' {
        1 + lead_slashes(t.drop_first())
    } else {
        0
    }
}

/// A relationship target as a path inside the package: an absolute one without its leading
/// `/`s, one under `xl/` as it is, any other under `xl/`.
pub open spec fn normalized_target(t: Seq<char>) -> Seq<char> {
    if t.len() > 0 && t[0] == '/' {
        t.skip(lead_slashes(t) as int)
    } else if occurs_at(t, "xl/"@, 0) {
        t
    } else {
        "xl/"@ + t
    }
}

/// The worksheet part of each sheet by its name (entities read back), for the sheets whose
/// relationship is known; a later sheet of the same name wins.
pub open spec fn sheet_paths_of(p: Seq<CaptureView>, rels: Map<Seq<char>, Seq<char>>) -> Map<Seq<char>, Seq<char>>
    decreases p.len(),
{
    if p.len() == 0 {
        Map::empty()
    } else {
        let m = sheet_paths_of(p.drop_last(), rels);
        let c = p.last();
        if c.groups.len() >= 2 && c.groups[0] is Some && c.groups[1] is Some && rels.contains_key(
            c.groups[1]->0,
        ) {
            m.insert(decoded_attr(c.groups[0]->0), normalized_target(rels[c.groups[1]->0]))
        } else {
            m
        }
    }
}

pub open spec fn sheet_paths_spec(workbook_xml: Seq<char>, rels_xml: Seq<char>) -> Map<Seq<char>, Seq<char>> {
    sheet_paths_of(
        regex_capture_pieces(sheet_pattern(), workbook_xml).0,
        rel_targets_of(regex_capture_pieces(relationship_pattern(), rels_xml).0),
    )
}

pub open spec fn text_map_view(m: Map<Seq<char>, String>) -> Map<Seq<char>, Seq<char>> {
    m.map_values(|v: String| v@)
}

fn two_groups(c: &crate::patterns::CapturePiece) -> (r: Option<(&String, &String)>)
    ensures
        match r {
            Some((a, b)) => c@.groups.len() >= 2 && c@.groups[0] == Some(a@) && c@.groups[1] == Some(b@),
            None => !(c@.groups.len() >= 2 && c@.groups[0] is Some && c@.groups[1] is Some),
        },
{
    if c.groups.len() < 2 {
        return None;
    }
    match (&c.groups[0], &c.groups[1]) {
        (Some(a), Some(b)) => Some((a, b)),
        _ => None,
    }
}

fn normalize_target(t: &str) -> (out: String)
    ensures
        out@ == normalized_target(t@),
{
    let cs = chars_of(t);
    proof {
        reveal_strlit("xl/");
    }
    if cs.len() > 0 && cs[0] == '/' {
        let mut i: usize = 0;
        assert(t@.skip(0) =~= t@);
        while i < cs.len() && cs[i] == '/'
            invariant
                cs@ == t@,
                i <= cs@.len(),
                lead_slashes(t@) == i + lead_slashes(t@.skip(i as int)),
            decreases cs.len() - i,
        {
            proof {
                assert(t@.skip(i as int).drop_first() =~= t@.skip(i + 1));
            }
            i += 1;
        }
        proof {
            assert(lead_slashes(t@.skip(i as int)) == 0);
        }
        let out = string_of_range(cs.as_slice(), i, cs.len());
        assert(out@ =~= t@.skip(i as int));
        return out;
    }
    if crate::text::starts_with_str(t, "xl/") {
        return t.to_owned();
    }
    let mut out = String::new();
    push_str(&mut out, "xl/");
    push_str(&mut out, t);
    out
}

/// The worksheet part of each sheet of a workbook, by sheet name.
pub fn sheet_paths_by_name(workbook_xml: &str, rels_xml: &str) -> (m: StrMap<String>)
    ensures
        text_map_view(m@) == sheet_paths_spec(workbook_xml@, rels_xml@),
{
    let mut paths: StrMap<String> = StrMap::new();
    let sheet_re = match CompiledRegex::compile("<sheet\\b[^>]*\\bname=\"([^\"]+)\"[^>]*\\br:id=\"([^\"]+)\"") {
        Some(r) => r,
        None => {
            return paths;
        },
    };
    let rel_re = match CompiledRegex::compile("<Relationship\\b[^>]*\\bId=\"([^\"]+)\"[^>]*\\bTarget=\"([^\"]+)\"") {
        Some(r) => r,
        None => {
            return paths;
        },
    };
    let (rels, _) = rel_re.capture_pieces(rels_xml);
    let ghost rv = capture_views(rels@);
    let mut targets: StrMap<String> = StrMap::new();
    assert(text_map_view(targets@) =~= rel_targets_of(rv.take(0)));
    for i in 0..rels.len()
        invariant
            rv == capture_views(rels@),
            text_map_view(targets@) == rel_targets_of(rv.take(i as int)),
    {
        proof {
            assert(rv.take(i + 1).drop_last() =~= rv.take(i as int));
            assert(rv.take(i + 1).last() == rv[i as int]);
        }
        let ghost before = targets@;
        match two_groups(&rels[i]) {
            Some((id, target)) => {
                targets.insert(id.clone(), target.clone());
                proof {
                    assert(text_map_view(targets@) =~= text_map_view(before).insert(id@, target@));
                }
            },
            None => {},
        }
    }
    assert(rv.take(rels@.len() as int) =~= rv);
    let (sheets, _) = sheet_re.capture_pieces(workbook_xml);
    let ghost sv = capture_views(sheets@);
    assert(text_map_view(paths@) =~= sheet_paths_of(sv.take(0), rel_targets_of(rv)));
    for i in 0..sheets.len()
        invariant
            sv == capture_views(sheets@),
            text_map_view(targets@) == rel_targets_of(rv),
            text_map_view(paths@) == sheet_paths_of(sv.take(i as int), rel_targets_of(rv)),
    {
        proof {
            assert(sv.take(i + 1).drop_last() =~= sv.take(i as int));
            assert(sv.take(i + 1).last() == sv[i as int]);
        }
        let ghost before = paths@;
        match two_groups(&sheets[i]) {
            Some((name, rel_id)) => {
                match targets.get(rel_id.as_str()) {
                    Some(target) => {
                        assert(text_map_view(targets@).contains_key(rel_id@));
                        let n = decode_xml_attr(name.as_str());
                        let t = normalize_target(target.as_str());
                        paths.insert(n, t);
                        proof {
                            assert(text_map_view(paths@) =~= text_map_view(before).insert(
                                decoded_attr(name@),
                                normalized_target(target@),
                            ));
                        }
                    },
                    None => {
                        assert(!text_map_view(targets@).contains_key(rel_id@));
                    },
                }
            },
            None => {},
        }
    }
    assert(sv.take(sheets@.len() as int) =~= sv);
    paths
}

} // verus!
