use vstd::prelude::*;

use crate::text::{chars_of, is_blank, is_blank_str, push_str};

verus! {

#[verifier::external_type_specification]
#[verifier::external_body]
pub struct ExRegex(regex::Regex);

/// Whether `regex::Regex::new` accepts the pattern.
pub uninterp spec fn regex_compiles(source: Seq<char>) -> bool;

/// Whether the regular expression with the given pattern matches somewhere in the text.
pub uninterp spec fn regex_match_result(source: Seq<char>, text: Seq<char>) -> bool;

/// The texts of the capture groups of the leftmost match in the text, group 0 being the whole
/// match (`None` for a group that took no part in it); `None` where nothing matches.
pub uninterp spec fn regex_captures(source: Seq<char>, text: Seq<char>) -> Option<Seq<Option<Seq<char>>>>;

/// The text of the group with the given name in the leftmost match, where it took part.
pub uninterp spec fn regex_named_group(source: Seq<char>, text: Seq<char>, name: Seq<char>) -> Option<Seq<char>>;

/// The successive non-overlapping matches of the pattern in the text, each with the text
/// between the end of the previous match (or the start) and its own start; then the text after
/// the last match.
pub uninterp spec fn regex_find_pieces(source: Seq<char>, text: Seq<char>) -> (Seq<(Seq<char>, Seq<char>)>, Seq<char>);

/// As `regex_find_pieces`, with the texts of each match's capture groups from the first on
/// (`None` for a group that took no part in the match).
pub uninterp spec fn regex_capture_pieces(source: Seq<char>, text: Seq<char>) -> (Seq<CaptureView>, Seq<char>);

/// The leftmost-first match of the pattern in the text, with the text before and after it.
pub uninterp spec fn regex_find_split(source: Seq<char>, text: Seq<char>) -> Option<(Seq<char>, Seq<char>, Seq<char>)>;

/// The text with the first match replaced by the replacement (with `$` group expansion).
pub uninterp spec fn regex_replace_first(source: Seq<char>, text: Seq<char>, rep: Seq<char>) -> Seq<char>;

/// The text with every match replaced by the replacement (with `$` group expansion).
pub uninterp spec fn regex_replace_all(source: Seq<char>, text: Seq<char>, rep: Seq<char>) -> Seq<char>;

/// The text before a match, the match, and its capture groups from the first on.
pub ghost struct CaptureView {
    pub before: Seq<char>,
    pub matched: Seq<char>,
    pub groups: Seq<Option<Seq<char>>>,
}

/// The text the pieces cover: each gap followed by its match.
pub open spec fn pieces_text(p: Seq<(Seq<char>, Seq<char>)>) -> Seq<char>
    decreases p.len(),
{
    if p.len() == 0 {
        Seq::empty()
    } else {
        pieces_text(p.drop_last()) + p.last().0 + p.last().1
    }
}

/// The text the capture pieces cover.
pub open spec fn captures_text(p: Seq<CaptureView>) -> Seq<char>
    decreases p.len(),
{
    if p.len() == 0 {
        Seq::empty()
    } else {
        captures_text(p.drop_last()) + p.last().before + p.last().matched
    }
}

/// The gaps and the replacement for each match: what a replacement without `$` gives.
pub open spec fn pieces_replaced(p: Seq<(Seq<char>, Seq<char>)>, rep: Seq<char>) -> Seq<char>
    decreases p.len(),
{
    if p.len() == 0 {
        Seq::empty()
    } else {
        pieces_replaced(p.drop_last(), rep) + p.last().0 + rep
    }
}

pub open spec fn pair_views(v: Seq<(String, String)>) -> Seq<(Seq<char>, Seq<char>)> {
    v.map_values(|x: (String, String)| (x.0@, x.1@))
}

pub open spec fn opt_views(v: Seq<Option<String>>) -> Seq<Option<Seq<char>>> {
    v.map_values(|x: Option<String>| match x {
        Some(s) => Some(s@),
        None => None,
    })
}

/// A match found by `captures_iter`, as plain texts.
pub struct CapturePiece {
    pub before: String,
    pub matched: String,
    pub groups: Vec<Option<String>>,
}

impl View for CapturePiece {
    type V = CaptureView;

    open spec fn view(&self) -> CaptureView {
        CaptureView { before: self.before@, matched: self.matched@, groups: opt_views(self.groups@) }
    }
}

pub open spec fn capture_views(v: Seq<CapturePiece>) -> Seq<CaptureView> {
    v.map_values(|x: CapturePiece| x@)
}

/// `_STEP(\d+)_`: the step number in an export's file name.
pub open spec fn step_pattern() -> Seq<char> {
    seq!['_', 'S', 'T', 'E', 'P', '(', '\\', 'd', '+', ')', '_']
}

/// `^[A-Z]{1,3}[1-9][0-9]{0,6}$`: a cell reference such as `B12`.
pub open spec fn cell_pattern() -> Seq<char> {
    seq![
        '^', '[', 'A', '-', 'Z', ']', '{', '1', ',', '3', '}', '[', '1', '-', '9', ']', '[', '0',
        '-', '9', ']', '{', '0', ',', '6', '}', '$',
    ]
}

/// `k` upper-case ASCII letters, a digit 1-9, then up to six digits.
pub open spec fn cell_reference_split(s: Seq<char>, k: int) -> bool {
    &&& k < s.len() <= k + 7
    &&& forall|i: int| 0 <= i < k ==> 'A' <= #[trigger] s[i] <= 'Z'
    &&& '1' <= s[k] <= '9'
    &&& forall|i: int| k < i < s.len() ==> '0' <= #[trigger] s[i] <= '9'
}

/// One to three upper-case ASCII letters, a digit 1-9, then up to six digits.
pub open spec fn cell_reference_syntax(s: Seq<char>) -> bool {
    cell_reference_split(s, 1) || cell_reference_split(s, 2) || cell_reference_split(s, 3)
}

/// `<calcPr\b[^>]*/?>`: a workbook's calculation properties.
pub open spec fn calc_pr_pattern() -> Seq<char> {
    "<calcPr\\b[^>]*/?>"@
}

/// The relationship of a workbook to its calculation chain.
pub open spec fn calc_chain_rel_pattern() -> Seq<char> {
    "<Relationship\\b[^>]*(?:Type=\"[^\"]*/calcChain\"|Target=\"calcChain\\.xml\")[^>]*/>"@
}

/// The content-type override of the calculation chain part.
pub open spec fn calc_chain_override_pattern() -> Seq<char> {
    "<Override\\b[^>]*PartName=\"/xl/calcChain\\.xml\"[^>]*/>"@
}

/// A whole `<c>` element with its reference captured.
pub open spec fn shared_cell_pattern() -> Seq<char> {
    "(?s)<c\\b[^>]*\\br=\"([A-Z]+[0-9]+)\"[^>]*>.*?</c>"@
}

/// A cell reference inside a formula, such as `$B$12`.
pub open spec fn formula_ref_pattern() -> Seq<char> {
    "\\$?[A-Z]{1,3}\\$?\\d+"@
}

/// A workbook's `<sheet>` with its name and relationship id captured.
pub open spec fn sheet_pattern() -> Seq<char> {
    "<sheet\\b[^>]*\\bname=\"([^\"]+)\"[^>]*\\br:id=\"([^\"]+)\""@
}

/// A relationship with its id and target captured.
pub open spec fn relationship_pattern() -> Seq<char> {
    "<Relationship\\b[^>]*\\bId=\"([^\"]+)\"[^>]*\\bTarget=\"([^\"]+)\""@
}

/// A `<row>` start tag with its row number captured.
pub open spec fn row_number_pattern() -> Seq<char> {
    "<row\\b[^>]*\\br=\"(\\d+)\""@
}

/// A `<c>` start tag with its column letters captured.
pub open spec fn cell_column_pattern() -> Seq<char> {
    "<c\\b[^>]*\\br=\"([A-Z]+)\\d+\""@
}

/// A serial number written in a unit's metadata file, such as `SN: 262343000073`.
pub open spec fn metadata_serial_pattern() -> Seq<char> {
    "(?i)(?:sn|serial\\s*number)[:\\s=]*(\\d{6,})"@
}

/// `^(\d{6,})_(\d{8})$`: a folder named by a serial number and a date.
pub open spec fn serial_date_pattern() -> Seq<char> {
    "^(\\d{6,})_(\\d{8})$"@
}

/// `SN(\d{6,})`: a serial number written after `SN` in a path.
pub open spec fn path_serial_pattern() -> Seq<char> {
    "SN(\\d{6,})"@
}

/// `(\d{8,})`: a run of eight or more digits.
pub open spec fn long_digits_pattern() -> Seq<char> {
    "(\\d{8,})"@
}

/// `\b<attr>="[^"]*"`, the attribute name escaped: an attribute and its value in a tag.
pub open spec fn attr_pattern(attr: Seq<char>) -> Seq<char> {
    "\\b"@ + regex_escaped(attr) + "=\"[^\"]*\""@
}

/// The patterns this library compiles from fixed text; each is valid `regex` syntax.
pub open spec fn fixed_pattern(s: Seq<char>) -> bool {
    ||| s == step_pattern()
    ||| s == cell_pattern()
    ||| s == calc_pr_pattern()
    ||| s == calc_chain_rel_pattern()
    ||| s == calc_chain_override_pattern()
    ||| s == shared_cell_pattern()
    ||| s == formula_ref_pattern()
    ||| s == sheet_pattern()
    ||| s == relationship_pattern()
    ||| s == row_number_pattern()
    ||| s == cell_column_pattern()
    ||| s == attr_pattern("calcMode"@)
    ||| s == attr_pattern("fullCalcOnLoad"@)
    ||| s == attr_pattern("forceFullCalc"@)
    ||| s == metadata_serial_pattern()
    ||| s == serial_date_pattern()
    ||| s == path_serial_pattern()
    ||| s == long_digits_pattern()
}

/// A regular expression together with the pattern it was compiled from.
pub struct CompiledRegex {
    source: String,
    regex: regex::Regex,
}

impl CompiledRegex {
    pub closed spec fn source_view(&self) -> Seq<char> {
        self.source@
    }

    /// Compiles the pattern with `regex::Regex::new`. The contract says that the result is
    /// present exactly where the pattern compiles, and that the fixed patterns of this library
    /// do compile.
    #[verifier::external_body]
    pub fn compile(source: &str) -> (r: Option<CompiledRegex>)
        ensures
            r is Some <==> regex_compiles(source@),
            fixed_pattern(source@) ==> r is Some,
            r matches Some(c) ==> c.source_view() == source@,
    {
        regex::Regex::new(source).ok().map(|regex| CompiledRegex { source: source.to_owned(), regex })
    }

    /// `regex::Regex::is_match`. For the cell pattern, which is plain ASCII classes anchored at
    /// both ends, the contract also states the match.
    #[verifier::external_body]
    pub fn is_match(&self, text: &str) -> (b: bool)
        ensures
            b == regex_match_result(self.source_view(), text@),
            self.source_view() == cell_pattern() ==> b == cell_reference_syntax(text@),
    {
        self.regex.is_match(text)
    }

    /// `regex::Regex::find_iter`: the matches in order, each with the text before it, and
    /// the text after the last. The pieces, put back together, are the text: the matches are
    /// successive and do not overlap.
    #[verifier::external_body]
    pub fn find_pieces(&self, text: &str) -> (r: (Vec<(String, String)>, String))
        ensures
            (pair_views(r.0@), r.1@) == regex_find_pieces(self.source_view(), text@),
            pieces_text(pair_views(r.0@)) + r.1@ == text@,
    {
        let mut pieces = Vec::new();
        let mut cursor: usize = 0;
        for m in self.regex.find_iter(text) {
            pieces.push((text[cursor..m.start()].to_owned(), m.as_str().to_owned()));
            cursor = m.end();
        }
        (pieces, text[cursor..].to_owned())
    }

    /// `regex::Regex::captures_iter`: as `find_pieces`, with each match's capture groups.
    #[verifier::external_body]
    pub fn capture_pieces(&self, text: &str) -> (r: (Vec<CapturePiece>, String))
        ensures
            (capture_views(r.0@), r.1@) == regex_capture_pieces(self.source_view(), text@),
            captures_text(capture_views(r.0@)) + r.1@ == text@,
    {
        let mut pieces = Vec::new();
        let mut cursor: usize = 0;
        for caps in self.regex.captures_iter(text) {
            let m = caps.get_match();
            let groups = caps.iter().skip(1).map(|g| g.map(|g| g.as_str().to_owned())).collect();
            pieces.push(CapturePiece { before: text[cursor..m.start()].to_owned(), matched: m.as_str().to_owned(), groups });
            cursor = m.end();
        }
        (pieces, text[cursor..].to_owned())
    }

    /// `regex::Regex::find`: the leftmost-first match with the text before and after it.
    #[verifier::external_body]
    pub fn find_split(&self, text: &str) -> (r: Option<(String, String, String)>)
        ensures
            match r {
                Some((a, m, b)) => regex_find_split(self.source_view(), text@) == Some((a@, m@, b@))
                    && a@ + m@ + b@ == text@,
                None => regex_find_split(self.source_view(), text@) is None,
            },
    {
        self.regex.find(text).map(
            |m| (text[..m.start()].to_owned(), m.as_str().to_owned(), text[m.end()..].to_owned()),
        )
    }

    /// `regex::Regex::replace`. A replacement without `$` is written literally in place of
    /// the first match that `find_iter` gives (the text is unchanged where there is none).
    #[verifier::external_body]
    pub fn replace_first(&self, text: &str, rep: &str) -> (out: String)
        ensures
            out@ == regex_replace_first(self.source_view(), text@, rep@),
            !rep@.contains('$') ==> {
                let (p, rest) = regex_find_pieces(self.source_view(), text@);
                out@ == if p.len() == 0 {
                    text@
                } else {
                    p[0].0 + rep@ + (pieces_text(p.skip(1)) + rest)
                }
            },
    {
        self.regex.replace(text, rep).into_owned()
    }

    /// `regex::Regex::replace_all`. A replacement without `$` is written literally in place of
    /// each match that `find_iter` gives.
    #[verifier::external_body]
    pub fn replace_all(&self, text: &str, rep: &str) -> (out: String)
        ensures
            out@ == regex_replace_all(self.source_view(), text@, rep@),
            !rep@.contains('$') ==> {
                let (p, rest) = regex_find_pieces(self.source_view(), text@);
                out@ == pieces_replaced(p, rep@) + rest
            },
    {
        self.regex.replace_all(text, rep).into_owned()
    }

    /// `regex::Regex::captures`: the groups of the leftmost match in order (group 0, the whole
    /// match, is always there), and the group with the given name.
    #[verifier::external_body]
    pub fn captures(&self, text: &str, group_name: &str) -> (r: Option<(Vec<Option<String>>, Option<String>)>)
        ensures
            match r {
                Some((g, n)) => {
                    &&& regex_captures(self.source_view(), text@) == Some(opt_views(g@))
                    &&& g@.len() >= 1 && g@[0] is Some
                    &&& match n {
                        Some(x) => regex_named_group(self.source_view(), text@, group_name@) == Some(x@),
                        None => regex_named_group(self.source_view(), text@, group_name@) is None,
                    }
                },
                None => regex_captures(self.source_view(), text@) is None,
            },
    {
        self.regex.captures(text).map(
            |caps| (
                caps.iter().map(|g| g.map(|g| g.as_str().to_owned())).collect(),
                caps.name(group_name).map(|g| g.as_str().to_owned()),
            ),
        )
    }
}

/// The characters that have a meaning in a regular expression.
pub open spec fn is_regex_meta(c: char) -> bool {
    c == '\\' || c == '.' || c == '+' || c == '*' || c == '?' || c == '(' || c == ')' || c == '|'
        || c == '[' || c == ']' || c == '{' || c == '}' || c == '^' || c == '$' || c == '#' || c
        == '&' || c == '-' || c == '~'
}

/// The text with a backslash before every meta character.
pub open spec fn regex_escaped(s: Seq<char>) -> Seq<char>
    decreases s.len(),
{
    if s.len() == 0 {
        s
    } else {
        regex_escaped(s.drop_last()) + if is_regex_meta(s.last()) {
            seq!['\\', s.last()]
        } else {
            seq![s.last()]
        }
    }
}

/// Puts a backslash before each meta character, as `regex::escape` does.
pub fn regex_escape(text: &str) -> (out: String)
    ensures
        out@ == regex_escaped(text@),
{
    let cs = crate::text::chars_of(text);
    let mut out = String::new();
    let mut i: usize = 0;
    while i < cs.len()
        invariant
            i <= cs@.len(),
            cs@ == text@,
            out@ == regex_escaped(cs@.take(i as int)),
        decreases cs.len() - i,
    {
        let c = cs[i];
        proof {
            assert(cs@.take(i + 1).drop_last() =~= cs@.take(i as int));
            assert(cs@.take(i + 1).last() == c);
        }
        let ghost before = out@;
        if c == '\\' || c == '.' || c == '+' || c == '*' || c == '?' || c == '(' || c == ')' || c == '|'
            || c == '[' || c == ']' || c == '{' || c == '}' || c == '^' || c == '$' || c == '#' || c
            == '&' || c == '-' || c == '~' {
            out.push('\\');
            out.push(c);
            assert(out@ =~= before + seq!['\\', c]);
        } else {
            out.push(c);
            assert(out@ =~= before + seq![c]);
        }
        i += 1;
    }
    assert(cs@.take(cs@.len() as int) =~= cs@);
    out
}

/// What a file-name pattern stands for: each `*` is any run of characters, each `?` one
/// character, and every other character stands for itself.
pub open spec fn wildcard_body(p: Seq<char>) -> Seq<char>
    decreases p.len(),
{
    if p.len() == 0 {
        p
    } else {
        wildcard_body(p.drop_last()) + if p.last() == '*' {
            seq!['.', '*']
        } else if p.last() == '?' {
            seq!['.']
        } else {
            regex_escaped(seq![p.last()])
        }
    }
}

/// `(?i)^<body>$`: the whole name must match, in any case.
pub open spec fn wildcard_regex(p: Seq<char>) -> Seq<char> {
    seq!['(', '?', 'i', ')', '^'] + wildcard_body(p) + seq!['$']
}

/// The regular expression for a file-name pattern; `None` for a blank pattern.
pub fn wildcard_regex_source(pattern: &str) -> (r: Option<String>)
    ensures
        match r {
            Some(s) => !is_blank(pattern@) && s@ == wildcard_regex(pattern@),
            None => is_blank(pattern@),
        },
{
    if is_blank_str(pattern) {
        return None;
    }
    let cs = chars_of(pattern);
    let mut out = String::new();
    push_str(&mut out, "(?i)^");
    proof {
        reveal_strlit("(?i)^");
        assert(out@ =~= seq!['(', '?', 'i', ')', '^'] + wildcard_body(pattern@.take(0)));
    }
    for i in 0..cs.len()
        invariant
            cs@ == pattern@,
            out@ == seq!['(', '?', 'i', ')', '^'] + wildcard_body(pattern@.take(i as int)),
    {
        let c = cs[i];
        proof {
            assert(pattern@.take(i + 1).drop_last() =~= pattern@.take(i as int));
            assert(pattern@.take(i + 1).last() == c);
        }
        if c == '*' {
            push_str(&mut out, ".*");
            proof {
                reveal_strlit(".*");
                assert(".*"@ =~= seq!['.', '*']);
            }
        } else if c == '?' {
            out.push('.');
        } else {
            let arr = [c];
            let single = crate::text::string_of(&arr);
            assert(single@ =~= seq![c]);
            let escaped = regex_escape(single.as_str());
            push_str(&mut out, escaped.as_str());
        }
        proof {
            assert(out@ =~= seq!['(', '?', 'i', ')', '^'] + wildcard_body(pattern@.take(i + 1)));
        }
    }
    out.push('$');
    assert(pattern@.take(pattern@.len() as int) =~= pattern@);
    assert(out@ =~= wildcard_regex(pattern@));
    Some(out)
}

/// A file-name pattern made ready for matching; `None` where it is blank or does not compile.
pub fn wildcard_pattern_to_regex(pattern: &str) -> (r: Option<CompiledRegex>)
    ensures
        match r {
            Some(c) => !is_blank(pattern@) && c.source_view() == wildcard_regex(pattern@)
                && regex_compiles(wildcard_regex(pattern@)),
            None => is_blank(pattern@) || !regex_compiles(wildcard_regex(pattern@)),
        },
{
    match wildcard_regex_source(pattern) {
        Some(source) => CompiledRegex::compile(source.as_str()),
        None => None,
    }
}

} // verus!
