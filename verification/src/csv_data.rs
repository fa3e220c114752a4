use vstd::prelude::*;

use crate::select::{is_last_max, last_max_index, no_keys};
use crate::io_error::{is_transient_file_access_error, transient_io, IoFailure};
use crate::text::{
    views, chars_of, concat, decimal, decimal_string, hex16_string, hex_digits, lemma_decimal_digits,
    lemma_hex_digits_shape, lemma_split_concat, lemma_split_single, law_parse_reads_back_decimal,
    parse_unsigned, parse_unsigned_chars, push_str, to_ascii_upper, upper, contains, contains_str, split_chars, split_on, str_eq, string_of, trim,
    trim_str,
};

verus! {

/// Why a CSV export could not be used.
#[derive(Debug, Clone)]
pub enum CsvDataError {
    Io(IoFailure),
    /// The parser refused the text; `io` is the file error underneath, when there was one.
    Csv { path: String, detail: String, io: Option<IoFailure> },
    Empty(String),
    Unstable(String),
    MissingColumn { file: String, label: String, column: String },
    BlankValue { file: String, label: String, column: String },
    NonnumericValue { file: String, label: String, column: String, value: String },
    InvalidColumn(String),
}

pub open spec fn csv_error_is_transient(e: CsvDataError) -> bool {
    match e {
        CsvDataError::Io(io) => transient_io(io),
        CsvDataError::Unstable(_) => true,
        CsvDataError::Csv { io, .. } => match io {
            Some(io) => transient_io(io),
            None => false,
        },
        _ => false,
    }
}

pub open spec fn csv_error_text(e: CsvDataError) -> Seq<char> {
    match e {
        CsvDataError::Io(io) => "CSV file could not be read: "@ + io.message@,
        CsvDataError::Csv { path, detail, .. } => "CSV parser failed for "@ + path@ + ": "@
            + detail@,
        CsvDataError::Empty(p) => "CSV file has no data rows: "@ + p@,
        CsvDataError::Unstable(p) => "CSV file is still changing and is not ready to process: "@
            + p@,
        CsvDataError::MissingColumn { file, label, column } => label@ + " source column "@
            + column@ + " is missing from "@ + file@,
        CsvDataError::BlankValue { file, label, column } => label@ + " source column "@ + column@
            + " is blank in "@ + file@,
        CsvDataError::NonnumericValue { file, label, column, value } => label@
            + " source column "@ + column@ + " value '"@ + value@ + "' is not numeric in "@
            + file@,
        CsvDataError::InvalidColumn(c) => "invalid Excel column reference '"@ + c@ + "'"@,
    }
}

impl CsvDataError {
    /// The text that describes the error.
    pub fn message(&self) -> (m: String)
        ensures
            m@ == csv_error_text(*self),
    {
        let mut m = String::new();
        match self {
            CsvDataError::Io(io) => {
                push_str(&mut m, "CSV file could not be read: ");
                push_str(&mut m, io.message.as_str());
            },
            CsvDataError::Csv { path, detail, .. } => {
                push_str(&mut m, "CSV parser failed for ");
                push_str(&mut m, path.as_str());
                push_str(&mut m, ": ");
                push_str(&mut m, detail.as_str());
            },
            CsvDataError::Empty(p) => {
                push_str(&mut m, "CSV file has no data rows: ");
                push_str(&mut m, p.as_str());
            },
            CsvDataError::Unstable(p) => {
                push_str(&mut m, "CSV file is still changing and is not ready to process: ");
                push_str(&mut m, p.as_str());
            },
            CsvDataError::MissingColumn { file, label, column } => {
                push_str(&mut m, label.as_str());
                push_str(&mut m, " source column ");
                push_str(&mut m, column.as_str());
                push_str(&mut m, " is missing from ");
                push_str(&mut m, file.as_str());
            },
            CsvDataError::BlankValue { file, label, column } => {
                push_str(&mut m, label.as_str());
                push_str(&mut m, " source column ");
                push_str(&mut m, column.as_str());
                push_str(&mut m, " is blank in ");
                push_str(&mut m, file.as_str());
            },
            CsvDataError::NonnumericValue { file, label, column, value } => {
                push_str(&mut m, label.as_str());
                push_str(&mut m, " source column ");
                push_str(&mut m, column.as_str());
                push_str(&mut m, " value '");
                push_str(&mut m, value.as_str());
                push_str(&mut m, "' is not numeric in ");
                push_str(&mut m, file.as_str());
            },
            CsvDataError::InvalidColumn(c) => {
                push_str(&mut m, "invalid Excel column reference '");
                push_str(&mut m, c.as_str());
                push_str(&mut m, "'");
            },
        }
        assert(m@ =~= csv_error_text(*self));
        m
    }

    /// Whether the export is only busy (still being written or locked) and worth retrying.
    pub fn is_transient_file_access(&self) -> (b: bool)
        ensures
            b == csv_error_is_transient(*self),
    {
        match self {
            CsvDataError::Io(source) => is_transient_file_access_error(source),
            CsvDataError::Unstable(_) => true,
            CsvDataError::Csv { io, .. } => match io {
                Some(source) => is_transient_file_access_error(source),
                None => false,
            },
            _ => false,
        }
    }
}

/// An ASCII letter, in either case.
pub open spec fn is_ascii_letter(c: char) -> bool {
    ('A' <= c <= 'Z') || ('a' <= c <= 'z')
}

/// The position of a letter in the alphabet, counting `A` (or `a`) as 1.
pub open spec fn letter_value(c: char) -> int {
    if 'a' <= c <= 'z' {
        c as int - 96
    } else {
        c as int - 64
    }
}

/// The bijective base-26 value of a column name (`A` = 1, `Z` = 26, `AA` = 27).
pub open spec fn column_value(s: Seq<char>) -> int
    decreases s.len(),
{
    if s.len() == 0 {
        0
    } else {
        column_value(s.drop_last()) * 26 + letter_value(s.last())
    }
}

/// A column name of one to three letters, once trimmed.
pub open spec fn valid_column_name(s: Seq<char>) -> bool {
    let t = trim(s);
    1 <= t.len() <= 3 && forall|i: int| 0 <= i < t.len() ==> is_ascii_letter(#[trigger] t[i])
}

pub proof fn lemma_column_value_bound(s: Seq<char>)
    requires
        forall|i: int| 0 <= i < s.len() ==> is_ascii_letter(#[trigger] s[i]),
    ensures
        s.len() > 0 ==> column_value(s) >= 1,
        column_value(s) <= if s.len() == 0 {
            0int
        } else if s.len() == 1 {
            26int
        } else if s.len() == 2 {
            702int
        } else if s.len() == 3 {
            18278int
        } else {
            column_value(s)
        },
    decreases s.len(),
{
    if s.len() > 0 {
        let t = s.drop_last();
        assert forall|i: int| 0 <= i < t.len() implies is_ascii_letter(#[trigger] t[i]) by {
            assert(t[i] == s[i]);
        }
        lemma_column_value_bound(t);
        assert(is_ascii_letter(s[s.len() - 1]));
    }
}

/// The zero-based index of the spreadsheet column named `column` (`A` is 0), as the
/// exports' column letters are written; case and surrounding whitespace are ignored.
pub fn excel_col_to_index(column: &str) -> (r: Result<usize, CsvDataError>)
    ensures
        match r {
            Ok(i) => valid_column_name(column@) && i == column_value(trim(column@)) - 1,
            Err(e) => !valid_column_name(column@) && (e matches CsvDataError::InvalidColumn(c)
                && c@ == column@),
        },
{
    let trimmed = trim_str(column);
    let cs = chars_of(trimmed.as_str());
    if cs.len() == 0 || cs.len() > 3 {
        return Err(CsvDataError::InvalidColumn(column.to_owned()));
    }
    let mut index: usize = 0;
    let mut i: usize = 0;
    while i < cs.len()
        invariant
            cs@ == trim(column@),
            1 <= cs@.len() <= 3,
            0 <= i <= cs@.len(),
            forall|k: int| 0 <= k < i ==> is_ascii_letter(#[trigger] cs@[k]),
            index == column_value(cs@.take(i as int)),
            index <= if i == 0 {
                0int
            } else if i == 1 {
                26int
            } else if i == 2 {
                702int
            } else {
                18278int
            },
        decreases cs.len() - i,
    {
        let c = cs[i];
        let v: usize = if 'A' <= c && c <= 'Z' {
            (c as u32 - 64) as usize
        } else if 'a' <= c && c <= 'z' {
            (c as u32 - 96) as usize
        } else {
            assert(!is_ascii_letter(cs@[i as int]));
            return Err(CsvDataError::InvalidColumn(column.to_owned()));
        };
        proof {
            assert(cs@.take(i + 1).drop_last() =~= cs@.take(i as int));
        }
        index = index * 26 + v;
        i += 1;
    }
    proof {
        assert(cs@.take(cs@.len() as int) =~= cs@);
        lemma_column_value_bound(cs@);
    }
    Ok(index - 1)
}

/// FNV-1a's 64-bit offset basis and prime.
pub const FNV_OFFSET_BASIS: u64 = 0xcbf2_9ce4_8422_2325u64;

pub const FNV_PRIME: u64 = 0x0000_0100_0000_01b3u64;

/// One FNV-1a step: mix in the byte, then multiply modulo 2^64.
pub open spec fn fnv_step(h: u64, b: u8) -> u64 {
    vstd::wrapping::u64_specs::wrapping_mul(h ^ (b as u64), FNV_PRIME)
}

/// The 64-bit FNV-1a hash of the bytes.
pub open spec fn fnv1a64(bytes: Seq<u8>) -> u64
    decreases bytes.len(),
{
    if bytes.len() == 0 {
        FNV_OFFSET_BASIS
    } else {
        fnv_step(fnv1a64(bytes.drop_last()), bytes.last())
    }
}

pub fn fnv1a64_hash(bytes: &[u8]) -> (h: u64)
    ensures
        h == fnv1a64(bytes@),
{
    let mut hash: u64 = FNV_OFFSET_BASIS;
    for i in 0..bytes.len()
        invariant
            hash == fnv1a64(bytes@.take(i as int)),
    {
        proof {
            assert(bytes@.take(i + 1).drop_last() =~= bytes@.take(i as int));
        }
        hash = hash ^ (bytes[i] as u64);
        hash = hash.wrapping_mul(FNV_PRIME);
    }
    assert(bytes@.take(bytes@.len() as int) =~= bytes@);
    hash
}

pub open spec fn fnv_tag() -> Seq<char> {
    seq!['f', 'n', 'v', '1', 'a', '6', '4']
}

pub open spec fn size_tag() -> Seq<char> {
    seq!['s', 'i', 'z', 'e']
}

pub open spec fn mtime_tag() -> Seq<char> {
    seq!['m', 't', 'i', 'm', 'e', '_', 'm', 's']
}

/// `fnv1a64:<hash as 16 hex digits>:size:<length>:mtime_ms:<modified, ms since the epoch>`.
pub open spec fn fingerprint_text(hash: u64, len: u64, modified_ms: u128) -> Seq<char> {
    fnv_tag() + seq![':'] + hex_digits(hash as nat, 16) + seq![':'] + size_tag() + seq![':']
        + decimal(len as nat) + seq![':'] + mtime_tag() + seq![':'] + decimal(modified_ms as nat)
}

/// The fingerprint that identifies one version of a CSV export: a hash of its bytes, its
/// length and its modification time (0 where the file system gives none).
pub fn csv_fingerprint(bytes: &[u8], len: u64, modified_ms: u128) -> (f: String)
    ensures
        f@ == fingerprint_text(fnv1a64(bytes@), len, modified_ms),
{
    let hash = fnv1a64_hash(bytes);
    let mut out = String::new();
    push_str(&mut out, "fnv1a64:");
    let hex = hex16_string(hash);
    push_str(&mut out, hex.as_str());
    push_str(&mut out, ":size:");
    let size = decimal_string(len as u128);
    push_str(&mut out, size.as_str());
    push_str(&mut out, ":mtime_ms:");
    let modified = decimal_string(modified_ms);
    push_str(&mut out, modified.as_str());
    proof {
        reveal_strlit("fnv1a64:");
        reveal_strlit(":size:");
        reveal_strlit(":mtime_ms:");
        assert(out@ =~= fingerprint_text(hash, len, modified_ms));
    }
    out
}

/// The length and modification time that a fingerprint records, if it is one.
pub open spec fn fingerprint_metadata_spec(s: Seq<char>) -> Option<(u64, u128)> {
    let p = split_on(s, ':');
    if p.len() == 6 && p[0] == fnv_tag() && p[2] == size_tag() && p[4] == mtime_tag()
        && parse_unsigned(p[3], u64::MAX as nat) is Some && parse_unsigned(
        p[5],
        u128::MAX as nat,
    ) is Some {
        Some(
            (
                parse_unsigned(p[3], u64::MAX as nat).unwrap() as u64,
                parse_unsigned(p[5], u128::MAX as nat).unwrap() as u128,
            ),
        )
    } else {
        None
    }
}

/// Reads the length and modification time back out of a fingerprint.
pub fn fingerprint_metadata(fingerprint: &str) -> (r: Option<(u64, u128)>)
    ensures
        r == fingerprint_metadata_spec(fingerprint@),
{
    let cs = chars_of(fingerprint);
    let parts = split_chars(cs.as_slice(), ':');
    if parts.len() != 6 {
        return None;
    }
    let p0 = string_of(parts[0].as_slice());
    let p2 = string_of(parts[2].as_slice());
    let p4 = string_of(parts[4].as_slice());
    proof {
        reveal_strlit("fnv1a64");
        reveal_strlit("size");
        reveal_strlit("mtime_ms");
        assert("fnv1a64"@ =~= fnv_tag());
        assert("size"@ =~= size_tag());
        assert("mtime_ms"@ =~= mtime_tag());
    }
    if !str_eq(p0.as_str(), "fnv1a64") || !str_eq(p2.as_str(), "size") || !str_eq(
        p4.as_str(),
        "mtime_ms",
    ) {
        return None;
    }
    let len = match parse_unsigned_chars(parts[3].as_slice(), u64::MAX as u128) {
        Some(v) => v,
        None => {
            return None;
        },
    };
    let modified = match parse_unsigned_chars(parts[5].as_slice(), u128::MAX) {
        Some(v) => v,
        None => {
            return None;
        },
    };
    Some((len as u64, modified))
}

/// Whether a file of the given length and modification time is the one the fingerprint was
/// taken of. A text that is no fingerprint matches nothing.
pub fn csv_metadata_matches_fingerprint(len: u64, modified_ms: Option<u128>, fingerprint: &str) -> (b:
    bool)
    ensures
        b == match fingerprint_metadata_spec(fingerprint@) {
            Some((l, m)) => l == len && m == match modified_ms {
                Some(x) => x,
                None => 0,
            },
            None => false,
        },
{
    match fingerprint_metadata(fingerprint) {
        Some((expected_len, expected_modified)) => {
            let actual = match modified_ms {
                Some(x) => x,
                None => 0,
            };
            len == expected_len && actual == expected_modified
        },
        None => false,
    }
}

/// Law: the metadata check reads back exactly the length and modification time that the
/// fingerprint was written with.
pub proof fn law_fingerprint_reads_back_metadata(hash: u64, len: u64, modified_ms: u128)
    ensures
        fingerprint_metadata_spec(fingerprint_text(hash, len, modified_ms)) == Some(
            (len, modified_ms),
        ),
{
    let h = hex_digits(hash as nat, 16);
    let d1 = decimal(len as nat);
    let d2 = decimal(modified_ms as nat);
    lemma_hex_digits_shape(hash as nat, 16);
    lemma_decimal_digits(len as nat);
    lemma_decimal_digits(modified_ms as nat);
    assert forall|i: int| 0 <= i < d1.len() implies d1[i] != ':' by {
        assert(crate::text::is_digit(d1[i]));
    }
    assert forall|i: int| 0 <= i < d2.len() implies d2[i] != ':' by {
        assert(crate::text::is_digit(d2[i]));
    }
    lemma_split_single(fnv_tag(), ':');
    lemma_split_single(h, ':');
    lemma_split_single(size_tag(), ':');
    lemma_split_single(d1, ':');
    lemma_split_single(mtime_tag(), ':');
    lemma_split_single(d2, ':');
    let t4 = mtime_tag() + seq![':'] + d2;
    let t3 = d1 + seq![':'] + t4;
    let t2 = size_tag() + seq![':'] + t3;
    let t1 = h + seq![':'] + t2;
    let t0 = fnv_tag() + seq![':'] + t1;
    assert(t0 =~= fingerprint_text(hash, len, modified_ms));
    lemma_split_concat(mtime_tag(), ':', d2);
    lemma_split_concat(d1, ':', t4);
    lemma_split_concat(size_tag(), ':', t3);
    lemma_split_concat(h, ':', t2);
    lemma_split_concat(fnv_tag(), ':', t1);
    let p = split_on(t0, ':');
    assert(p =~= seq![fnv_tag(), h, size_tag(), d1, mtime_tag(), d2]);
    law_parse_reads_back_decimal(len as nat, u64::MAX as nat);
    law_parse_reads_back_decimal(modified_ms as nat, u128::MAX as nat);
}

pub open spec fn is_sign(c: char) -> bool {
    c == '+' || c == '-'
}

pub open spec fn ascii_lower(c: char) -> char {
    if 'A' <= c <= 'Z' {
        ((c as u32) + 32) as char
    } else {
        c
    }
}

/// `inf`, `infinity` or `nan`, in any case.
pub open spec fn is_float_word(b: Seq<char>) -> bool {
    let l = b.map_values(|c: char| ascii_lower(c));
    ||| l == seq!['i', 'n', 'f']
    ||| l == seq!['i', 'n', 'f', 'i', 'n', 'i', 't', 'y']
    ||| l == seq!['n', 'a', 'n']
}

/// Digits with at most one decimal point, and at least one digit.
pub open spec fn is_mantissa(m: Seq<char>) -> bool {
    &&& forall|i: int| 0 <= i < m.len() ==> crate::text::is_digit(#[trigger] m[i]) || m[i] == '.'
    &&& forall|i: int, j: int| 0 <= i < m.len() && 0 <= j < m.len() && #[trigger] m[i] == '.'
        && #[trigger] m[j] == '.' ==> i == j
    &&& exists|i: int| 0 <= i < m.len() && crate::text::is_digit(#[trigger] m[i])
}

/// An optional sign, then one or more digits.
pub open spec fn is_exponent(x: Seq<char>) -> bool {
    let d = if x.len() > 0 && is_sign(x[0]) {
        x.drop_first()
    } else {
        x
    };
    d.len() > 0 && crate::text::all_digits(d)
}

pub open spec fn is_exponent_marker(c: char) -> bool {
    c == 'e' || c == 'E'
}

pub open spec fn is_decimal_number(b: Seq<char>) -> bool {
    ||| is_mantissa(b)
    ||| exists|k: int|
        0 <= k < b.len() && is_exponent_marker(#[trigger] b[k]) && is_mantissa(b.take(k))
            && is_exponent(b.skip(k + 1))
}

/// The texts that `str::parse::<f64>` accepts: an optional sign, then `inf`, `infinity` or
/// `nan` in any case, or a decimal number with an optional exponent.
pub open spec fn float_syntax(s: Seq<char>) -> bool {
    let b = if s.len() > 0 && is_sign(s[0]) {
        s.drop_first()
    } else {
        s
    };
    is_float_word(b) || is_decimal_number(b)
}

fn lower_eq(s: &[char], from: usize, word: &[char]) -> (b: bool)
    requires
        from <= s@.len(),
        forall|i: int| 0 <= i < word@.len() ==> ascii_lower(#[trigger] word@[i]) == word@[i],
    ensures
        b == (s@.skip(from as int).map_values(|c: char| ascii_lower(c)) == word@),
{
    let ghost t = s@.skip(from as int).map_values(|c: char| ascii_lower(c));
    let n = s.len();
    if n - from != word.len() {
        assert(t.len() != word@.len());
        return false;
    }
    let mut i: usize = 0;
    while i < word.len()
        invariant
            from + word@.len() == n,
            n == s@.len(),
            t == s@.skip(from as int).map_values(|c: char| ascii_lower(c)),
            0 <= i <= word@.len(),
            forall|k: int| 0 <= k < i ==> t[k] == word@[k],
        decreases word.len() - i,
    {
        let c = s[from + i];
        let l = if 'A' <= c && c <= 'Z' {
            ((c as u32) + 32) as u8 as char
        } else {
            c
        };
        assert(t[i as int] == ascii_lower(c));
        assert(l == ascii_lower(c)) by {
            if 'A' <= c && c <= 'Z' {
                assert((c as u32) + 32 < 256);
            }
        }
        if l != word[i] {
            assert(t[i as int] != word@[i as int]);
            return false;
        }
        i += 1;
    }
    assert(t =~= word@);
    true
}

fn mantissa_range(s: &[char], from: usize, to: usize) -> (b: bool)
    requires
        from <= to <= s@.len(),
    ensures
        b == is_mantissa(s@.subrange(from as int, to as int)),
{
    let ghost m = s@.subrange(from as int, to as int);
    let mut dot: Option<usize> = None;
    let mut digit = false;
    let mut i = from;
    while i < to
        invariant
            from <= i <= to <= s@.len(),
            m == s@.subrange(from as int, to as int),
            forall|k: int| 0 <= k < i - from ==> crate::text::is_digit(#[trigger] m[k]) || m[k]
                == '.',
            match dot {
                Some(d) => from <= d < i && m[d - from] == '.' && forall|k: int|
                    0 <= k < i - from && #[trigger] m[k] == '.' ==> k == d - from,
                None => forall|k: int| 0 <= k < i - from ==> #[trigger] m[k] != '.',
            },
            digit <==> exists|k: int| 0 <= k < i - from && crate::text::is_digit(#[trigger] m[k]),
        decreases to - i,
    {
        let c = s[i];
        assert(m[i - from] == c);
        if '0' <= c && c <= '9' {
            digit = true;
        } else if c == '.' {
            if dot.is_some() {
                let d = dot.unwrap();
                assert(m[d - from] == '.' && m[i - from] == '.');
                return false;
            }
            dot = Some(i);
        } else {
            assert(!(crate::text::is_digit(m[i - from]) || m[i - from] == '.'));
            return false;
        }
        i += 1;
    }
    digit
}

fn exponent_range(s: &[char], from: usize) -> (b: bool)
    requires
        from <= s@.len(),
    ensures
        b == is_exponent(s@.skip(from as int)),
{
    let ghost x = s@.skip(from as int);
    assert(from < s@.len() ==> x[0] == s@[from as int]);
    let start = if from < s.len() && (s[from] == '+' || s[from] == '-') {
        from + 1
    } else {
        from
    };
    let ghost d = if x.len() > 0 && is_sign(x[0]) {
        x.drop_first()
    } else {
        x
    };
    assert(d =~= s@.skip(start as int));
    if start >= s.len() {
        return false;
    }
    let mut i = start;
    while i < s.len()
        invariant
            start <= i <= s@.len(),
            d == s@.skip(start as int),
            x == s@.skip(from as int),
            d == (if x.len() > 0 && is_sign(x[0]) {
                x.drop_first()
            } else {
                x
            }),
            forall|k: int| 0 <= k < i - start ==> crate::text::is_digit(#[trigger] d[k]),
        decreases s.len() - i,
    {
        if !('0' <= s[i] && s[i] <= '9') {
            assert(d[i - start] == s[i as int]);
            assert(!crate::text::is_digit(d[i - start]));
            return false;
        }
        i += 1;
    }
    true
}

/// Whether `str::parse::<f64>` accepts the text.
pub fn is_float_text(s: &[char]) -> (b: bool)
    ensures
        b == float_syntax(s@),
{
    let start: usize = if s.len() > 0 && (s[0] == '+' || s[0] == '-') {
        1
    } else {
        0
    };
    let ghost b = if s@.len() > 0 && is_sign(s@[0]) {
        s@.drop_first()
    } else {
        s@
    };
    assert(b =~= s@.skip(start as int));
    let inf = ['i', 'n', 'f'];
    let infinity = ['i', 'n', 'f', 'i', 'n', 'i', 't', 'y'];
    let nan = ['n', 'a', 'n'];
    assert(inf@ =~= seq!['i', 'n', 'f']);
    assert(infinity@ =~= seq!['i', 'n', 'f', 'i', 'n', 'i', 't', 'y']);
    assert(nan@ =~= seq!['n', 'a', 'n']);
    if lower_eq(s, start, &inf) || lower_eq(s, start, &infinity) || lower_eq(s, start, &nan) {
        return true;
    }
    let mut k = start;
    while k < s.len() && !(s[k] == 'e' || s[k] == 'E')
        invariant
            start <= k <= s@.len(),
            b == s@.skip(start as int),
            forall|j: int| 0 <= j < k - start ==> !is_exponent_marker(#[trigger] b[j]),
        decreases s.len() - k,
    {
        assert(b[k - start] == s[k as int]);
        k += 1;
    }
    if k >= s.len() {
        assert(b =~= s@.subrange(start as int, s@.len() as int));
        let r = mantissa_range(s, start, s.len());
        assert forall|j: int| 0 <= j < b.len() && is_exponent_marker(#[trigger] b[j]) implies !(
        is_mantissa(b.take(j)) && is_exponent(b.skip(j + 1))) by {}
        return r;
    }
    let ghost kk = k - start;
    assert(b[kk] == s[k as int]);
    assert(b.take(kk) =~= s@.subrange(start as int, k as int));
    assert(b.skip(kk + 1) =~= s@.skip(k + 1));
    assert(!is_mantissa(b)) by {
        assert(!(crate::text::is_digit(b[kk]) || b[kk] == '.'));
    }
    let r = mantissa_range(s, start, k) && exponent_range(s, k + 1);
    assert forall|j: int|
        0 <= j < b.len() && is_exponent_marker(#[trigger] b[j]) && is_mantissa(b.take(j))
            && is_exponent(b.skip(j + 1)) implies j == kk by {
        if j > kk {
            assert(b.take(j)[kk] == b[kk]);
            assert(!(crate::text::is_digit(b.take(j)[kk]) || b.take(j)[kk] == '.'));
        }
    }
    r
}

/// The text of each field of each row.
pub open spec fn rows_view(rows: Seq<Vec<String>>) -> Seq<Seq<Seq<char>>> {
    rows.map_values(|r: Vec<String>| row_view(r@))
}

pub open spec fn row_view(row: Seq<String>) -> Seq<Seq<char>> {
    row.map_values(|v: String| v@)
}

/// The rows that the `csv` crate reads from `content` with no header row, rows of any length,
/// fields trimmed of surrounding whitespace and the given delimiter byte; `None` where it
/// reports an error.
pub uninterp spec fn csv_records(content: Seq<char>, delimiter: u8) -> Option<
    Seq<Seq<Seq<char>>>,
>;

/// Reads every record of `content` with `csv::ReaderBuilder` (no headers, flexible,
/// `Trim::All`, the given delimiter). The contract ties the rows to `csv_records`; of an
/// error it promises only that one came, and says nothing of its text.
#[verifier::external_body]
fn read_csv_records(content: &str, delimiter: u8) -> (r: Result<Vec<Vec<String>>, String>)
    ensures
        match r {
            Ok(rows) => csv_records(content@, delimiter) == Some(rows_view(rows@)),
            Err(_) => csv_records(content@, delimiter) is None,
        },
{
    let mut reader = csv::ReaderBuilder::new().has_headers(false).flexible(true).trim(
        csv::Trim::All,
    ).delimiter(delimiter).from_reader(content.as_bytes());
    reader.records().map(
        |record| record.map(|record| record.iter().map(|field| field.to_owned()).collect()),
    ).collect::<Result<Vec<Vec<String>>, csv::Error>>().map_err(|error| error.to_string())
}

/// How often `c` occurs in `s`.
pub open spec fn count_char(s: Seq<char>, c: char) -> nat
    decreases s.len(),
{
    if s.len() == 0 {
        0
    } else {
        count_char(s.drop_last(), c) + if s.last() == c {
            1nat
        } else {
            0nat
        }
    }
}

/// The delimiter that occurs most often among the first 4096 characters, of `,` `;` tab and
/// `|` (the later one on a tie); `,` when none occurs.
pub open spec fn sniffed_delimiter(content: Seq<char>) -> u8 {
    let sample = if content.len() > 4096 {
        content.take(4096)
    } else {
        content
    };
    let a = count_char(sample, ',');
    let b = count_char(sample, ';');
    let c = count_char(sample, '\t');
    let d = count_char(sample, '|');
    if a == 0 && b == 0 && c == 0 && d == 0 {
        44u8
    } else if d >= a && d >= b && d >= c {
        124u8
    } else if c >= a && c >= b {
        9u8
    } else if b >= a {
        59u8
    } else {
        44u8
    }
}

pub fn sniff_delimiter(content: &str) -> (d: u8)
    ensures
        d == sniffed_delimiter(content@),
{
    let cs = chars_of(content);
    let n: usize = if cs.len() > 4096 {
        4096
    } else {
        cs.len()
    };
    let ghost sample = if content@.len() > 4096 {
        content@.take(4096)
    } else {
        content@
    };
    assert(sample =~= cs@.take(n as int));
    let mut a: usize = 0;
    let mut b: usize = 0;
    let mut c: usize = 0;
    let mut d: usize = 0;
    for i in 0..n
        invariant
            n <= cs@.len(),
            a == count_char(cs@.take(i as int), ','),
            b == count_char(cs@.take(i as int), ';'),
            c == count_char(cs@.take(i as int), '\t'),
            d == count_char(cs@.take(i as int), '|'),
            a <= i && b <= i && c <= i && d <= i,
    {
        proof {
            assert(cs@.take(i + 1).drop_last() =~= cs@.take(i as int));
        }
        let ch = cs[i];
        if ch == ',' {
            a += 1;
        } else if ch == ';' {
            b += 1;
        } else if ch == '\t' {
            c += 1;
        } else if ch == '|' {
            d += 1;
        }
    }
    if a == 0 && b == 0 && c == 0 && d == 0 {
        44u8
    } else if d >= a && d >= b && d >= c {
        124u8
    } else if c >= a && c >= b {
        9u8
    } else if b >= a {
        59u8
    } else {
        44u8
    }
}

/// A row with at least one field that is not blank.
pub open spec fn is_data_row(row: Seq<Seq<char>>) -> bool {
    exists|j: int| 0 <= j < row.len() && !crate::text::is_blank(#[trigger] row[j])
}

/// `i` is the first data row at or after `from`.
pub open spec fn first_data_row_from(rows: Seq<Seq<Seq<char>>>, from: int, i: int) -> bool {
    &&& from <= i < rows.len()
    &&& is_data_row(rows[i])
    &&& forall|k: int| from <= k < i ==> !is_data_row(#[trigger] rows[k])
}

/// `i` is the last data row at or after `from`.
pub open spec fn last_data_row_from(rows: Seq<Seq<Seq<char>>>, from: int, i: int) -> bool {
    &&& from <= i < rows.len()
    &&& is_data_row(rows[i])
    &&& forall|k: int| i < k < rows.len() ==> !is_data_row(#[trigger] rows[k])
}

pub open spec fn no_data_row_from(rows: Seq<Seq<Seq<char>>>, from: int) -> bool {
    forall|k: int| from <= k < rows.len() ==> !is_data_row(#[trigger] rows[k])
}

/// `s` without its commas (thousands separators).
pub open spec fn without_commas(s: Seq<char>) -> Seq<char>
    decreases s.len(),
{
    if s.len() == 0 {
        s
    } else if s.last() == ',' {
        without_commas(s.drop_last())
    } else {
        without_commas(s.drop_last()).push(s.last())
    }
}

/// The numeral in a field: its trimmed text without thousands separators.
pub open spec fn numeral_of(field: Seq<char>) -> Seq<char> {
    without_commas(trim(field))
}

/// A row whose field at `index` reads as a number.
pub open spec fn is_numeric_at(row: Seq<Seq<char>>, index: int) -> bool {
    0 <= index < row.len() && float_syntax(numeral_of(row[index]))
}

fn is_data_row_exec(row: &Vec<String>) -> (b: bool)
    ensures
        b == is_data_row(row_view(row@)),
{
    let ghost r = row_view(row@);
    for j in 0..row.len()
        invariant
            r == row_view(row@),
            forall|k: int| 0 <= k < j ==> crate::text::is_blank(#[trigger] r[k]),
    {
        if !crate::text::is_blank_str(row[j].as_str()) {
            assert(!crate::text::is_blank(r[j as int]));
            return true;
        }
    }
    false
}

fn remove_commas(s: &[char]) -> (out: Vec<char>)
    ensures
        out@ == without_commas(s@),
{
    let mut out: Vec<char> = Vec::new();
    for i in 0..s.len()
        invariant
            out@ == without_commas(s@.take(i as int)),
    {
        proof {
            assert(s@.take(i + 1).drop_last() =~= s@.take(i as int));
        }
        if s[i] != ',' {
            out.push(s[i]);
        }
    }
    assert(s@.take(s@.len() as int) =~= s@);
    out
}

/// The numeral of a field, as `str::parse::<f64>` would be given it.
pub fn field_numeral(field: &str) -> (out: Vec<char>)
    ensures
        out@ == numeral_of(field@),
{
    let trimmed = trim_str(field);
    let cs = chars_of(trimmed.as_str());
    remove_commas(cs.as_slice())
}

/// The rows of one CSV export, with the path it was read from.
#[derive(Debug, Clone)]
pub struct CsvTable {
    path: String,
    rows: Vec<Vec<String>>,
}

impl CsvTable {
    pub closed spec fn path_view(&self) -> Seq<char> {
        self.path@
    }

    pub closed spec fn rows(&self) -> Seq<Seq<Seq<char>>> {
        rows_view(self.rows@)
    }

    /// A table of the given rows.
    pub fn from_rows(path: String, rows: Vec<Vec<String>>) -> (t: Self)
        ensures
            t.path_view() == path@,
            t.rows() == rows_view(rows@),
    {
        CsvTable { path, rows }
    }

    /// Parses the text of the export read from `path`, with the delimiter that it uses most.
    pub fn read(path: String, content: &str) -> (r: Result<Self, CsvDataError>)
        ensures
            match r {
                Ok(t) => t.path_view() == path@ && csv_records(
                    content@,
                    sniffed_delimiter(content@),
                ) == Some(t.rows()),
                Err(e) => csv_records(content@, sniffed_delimiter(content@)) is None && (
                e matches CsvDataError::Csv { path: p, io, .. } && p@ == path@ && io is None),
            },
    {
        let delimiter = sniff_delimiter(content);
        match read_csv_records(content, delimiter) {
            Ok(rows) => Ok(CsvTable { path, rows }),
            Err(detail) => Err(CsvDataError::Csv { path, detail, io: None }),
        }
    }

    pub fn path(&self) -> (p: &str)
        ensures
            p@ == self.path_view(),
    {
        self.path.as_str()
    }

    fn empty_error(&self) -> (e: CsvDataError)
        ensures
            e matches CsvDataError::Empty(p) && p@ == self.path_view(),
    {
        CsvDataError::Empty(self.path.clone())
    }

    /// The first row after the header that is not blank.
    pub fn first_data_row_after_header(&self) -> (r: Result<&[String], CsvDataError>)
        ensures
            match r {
                Ok(row) => exists|i: int|
                    first_data_row_from(self.rows(), 1, i) && #[trigger] self.rows()[i]
                        == row_view(row@),
                Err(e) => no_data_row_from(self.rows(), 1) && (e matches CsvDataError::Empty(p)
                    && p@ == self.path_view()),
            },
    {
        let ghost rows = self.rows();
        let mut i: usize = 1;
        while i < self.rows.len()
            invariant
                rows == self.rows(),
                rows == rows_view(self.rows@),
                1 <= i,
                forall|k: int| 1 <= k < i && k < rows.len() ==> !is_data_row(#[trigger] rows[k]),
            decreases self.rows.len() - i,
        {
            if is_data_row_exec(&self.rows[i]) {
                assert(rows[i as int] == row_view(self.rows@[i as int]@));
                return Ok(self.rows[i].as_slice());
            }
            assert(rows[i as int] == row_view(self.rows@[i as int]@));
            i += 1;
        }
        Err(self.empty_error())
    }

    /// The last row at or after `from` that is not blank.
    fn last_data_row_from_index(&self, from: usize) -> (r: Option<usize>)
        ensures
            match r {
                Some(i) => last_data_row_from(self.rows(), from as int, i as int),
                None => no_data_row_from(self.rows(), from as int),
            },
    {
        let ghost rows = self.rows();
        let mut i: usize = self.rows.len();
        while i > from
            invariant
                rows == self.rows(),
                rows == rows_view(self.rows@),
                from <= i || i == self.rows@.len(),
                i <= rows.len(),
                forall|k: int| i <= k < rows.len() && from <= k ==> !is_data_row(
                    #[trigger] rows[k],
                ),
            decreases i,
        {
            if is_data_row_exec(&self.rows[i - 1]) {
                assert(rows[i - 1] == row_view(self.rows@[i - 1]@));
                return Some(i - 1);
            }
            assert(rows[i - 1] == row_view(self.rows@[i - 1]@));
            i -= 1;
        }
        None
    }

    /// The last row after the header that is not blank.
    pub fn last_data_row_after_header(&self) -> (r: Result<&[String], CsvDataError>)
        ensures
            match r {
                Ok(row) => exists|i: int|
                    last_data_row_from(self.rows(), 1, i) && #[trigger] self.rows()[i]
                        == row_view(row@),
                Err(e) => no_data_row_from(self.rows(), 1) && (e matches CsvDataError::Empty(p)
                    && p@ == self.path_view()),
            },
    {
        match self.last_data_row_from_index(1) {
            Some(i) => {
                assert(self.rows()[i as int] == row_view(self.rows@[i as int]@));
                Ok(self.rows[i].as_slice())
            },
            None => Err(self.empty_error()),
        }
    }

    /// The last row that is not blank, the header row included.
    pub fn last_data_row(&self) -> (r: Result<&[String], CsvDataError>)
        ensures
            match r {
                Ok(row) => exists|i: int|
                    last_data_row_from(self.rows(), 0, i) && #[trigger] self.rows()[i]
                        == row_view(row@),
                Err(e) => no_data_row_from(self.rows(), 0) && (e matches CsvDataError::Empty(p)
                    && p@ == self.path_view()),
            },
    {
        match self.last_data_row_from_index(0) {
            Some(i) => {
                assert(self.rows()[i as int] == row_view(self.rows@[i as int]@));
                Ok(self.rows[i].as_slice())
            },
            None => Err(self.empty_error()),
        }
    }

    /// The row at a one-based position, the header being row 1.
    pub fn row_at(&self, one_based_index: u32) -> (r: Result<&[String], CsvDataError>)
        ensures
            match r {
                Ok(row) => 1 <= one_based_index <= self.rows().len() && row_view(row@)
                    == self.rows()[one_based_index - 1],
                Err(e) => !(1 <= one_based_index <= self.rows().len()) && (
                e matches CsvDataError::Empty(p) && p@ == self.path_view()),
            },
    {
        if one_based_index == 0 {
            return Err(self.empty_error());
        }
        let index = (one_based_index - 1) as usize;
        if index < self.rows.len() {
            assert(self.rows()[index as int] == row_view(self.rows@[index as int]@));
            Ok(self.rows[index].as_slice())
        } else {
            Err(self.empty_error())
        }
    }

    /// The last row after the header whose field in `column` reads as a number.
    pub fn last_numeric_row_after_header(&self, column: &str) -> (r: Result<
        &[String],
        CsvDataError,
    >)
        ensures
            match r {
                Ok(row) => valid_column_name(column@) && exists|i: int|
                    1 <= i < self.rows().len() && #[trigger] self.rows()[i] == row_view(row@)
                        && is_numeric_at(row_view(row@), column_value(trim(column@)) - 1)
                        && forall|k: int|
                        i < k < self.rows().len() ==> !is_numeric_at(
                            #[trigger] self.rows()[k],
                            column_value(trim(column@)) - 1,
                        ),
                Err(e) => match e {
                    CsvDataError::InvalidColumn(c) => !valid_column_name(column@) && c@ == column@,
                    CsvDataError::Empty(p) => valid_column_name(column@) && p@ == self.path_view()
                        && forall|k: int|
                        1 <= k < self.rows().len() ==> !is_numeric_at(
                            #[trigger] self.rows()[k],
                            column_value(trim(column@)) - 1,
                        ),
                    _ => false,
                },
            },
    {
        let index = excel_col_to_index(column)?;
        let ghost rows = self.rows();
        let mut i: usize = self.rows.len();
        while i > 1
            invariant
                rows == self.rows(),
                rows == rows_view(self.rows@),
                i <= rows.len(),
                valid_column_name(column@),
                index == column_value(trim(column@)) - 1,
                forall|k: int| i <= k < rows.len() && 1 <= k ==> !is_numeric_at(
                    #[trigger] rows[k],
                    index as int,
                ),
            decreases i,
        {
            let row = &self.rows[i - 1];
            assert(rows[i - 1] == row_view(self.rows@[i - 1]@));
            assert(row_view(row@).len() == row@.len());
            if index < row.len() {
                let numeral = field_numeral(row[index].as_str());
                assert(row_view(row@)[index as int] == row@[index as int]@);
                if is_float_text(numeral.as_slice()) {
                    assert(row_view(row@)[index as int] == row@[index as int]@);
                    assert(is_numeric_at(rows[i - 1], index as int));
                    assert(rows[i - 1] == row_view(row@));
                    return Ok(row.as_slice());
                }
            }
            i -= 1;
        }
        Err(self.empty_error())
    }
}

/// The numeral in column `column` of `row`, checked to read as a number: the field trimmed and
/// without thousands separators. A missing, blank or non-numeric field is an error naming
/// the file and what was being read.
pub fn required_number(row: &[String], column: &str, file: &str, label: &str) -> (r: Result<
    Vec<char>,
    CsvDataError,
>)
    ensures
        match r {
            Ok(numeral) => valid_column_name(column@) && {
                let i = column_value(trim(column@)) - 1;
                &&& 0 <= i < row@.len()
                &&& !crate::text::is_blank(row@[i]@)
                &&& numeral@ == numeral_of(row@[i]@)
                &&& float_syntax(numeral@)
            },
            Err(e) => match e {
                CsvDataError::InvalidColumn(c) => !valid_column_name(column@) && c@ == column@,
                CsvDataError::MissingColumn { file: f, label: l, column: c } => valid_column_name(
                    column@,
                ) && column_value(trim(column@)) - 1 >= row@.len() && f@ == file@ && l@ == label@
                    && c@ == column@,
                CsvDataError::BlankValue { file: f, label: l, column: c } => valid_column_name(
                    column@,
                ) && column_value(trim(column@)) - 1 < row@.len() && crate::text::is_blank(
                    row@[column_value(trim(column@)) - 1]@,
                ) && f@ == file@ && l@ == label@ && c@ == column@,
                CsvDataError::NonnumericValue { file: f, label: l, column: c, value: v } => {
                    let i = column_value(trim(column@)) - 1;
                    &&& valid_column_name(column@)
                    &&& 0 <= i < row@.len()
                    &&& !crate::text::is_blank(row@[i]@)
                    &&& !float_syntax(numeral_of(row@[i]@))
                    &&& v@ == trim(row@[i]@)
                    &&& f@ == file@ && l@ == label@ && c@ == column@
                },
                _ => false,
            },
        },
{
    let index = excel_col_to_index(column)?;
    if index >= row.len() {
        return Err(
            CsvDataError::MissingColumn {
                file: file.to_owned(),
                label: label.to_owned(),
                column: column.to_owned(),
            },
        );
    }
    let raw = row[index].as_str();
    if crate::text::is_blank_str(raw) {
        return Err(
            CsvDataError::BlankValue {
                file: file.to_owned(),
                label: label.to_owned(),
                column: column.to_owned(),
            },
        );
    }
    let numeral = field_numeral(raw);
    if !is_float_text(numeral.as_slice()) {
        return Err(
            CsvDataError::NonnumericValue {
                file: file.to_owned(),
                label: label.to_owned(),
                column: column.to_owned(),
                value: trim_str(raw),
            },
        );
    }
    Ok(numeral)
}

/// A file met while walking a unit folder: its path, its name where that is valid UTF-8, and
/// its modification time (nanoseconds from the Unix epoch, negative before it) where the
/// file system gives one.
#[derive(Debug, Clone)]
pub struct CsvFileCandidate {
    pub path: String,
    pub file_name: Option<String>,
    pub modified: Option<i128>,
}

/// The name has an extension (the text after its last dot, where that dot is not its first
/// character) that reads `csv` in any case.
pub open spec fn has_csv_extension(name: Seq<char>) -> bool {
    exists|k: int|
        0 < k < name.len() && #[trigger] name[k] == '.' && (forall|j: int|
            k < j < name.len() ==> name[j] != '.') && upper(name.skip(k + 1)) == seq![
            'C',
            'S',
            'V',
        ]
}

/// `_STEP<n>_`, the tag an export's name carries for its test step.
pub open spec fn step_tag(step: u16) -> Seq<char> {
    seq!['_', 'S', 'T', 'E', 'P'] + decimal(step as nat) + seq!['_']
}

/// A CSV export of the step whose name, in upper case, holds every required fragment.
pub open spec fn csv_name_matches(name: Seq<char>, step: u16, fragments: Seq<Seq<char>>) -> bool {
    &&& has_csv_extension(name)
    &&& contains(upper(name), step_tag(step))
    &&& forall|i: int| 0 <= i < fragments.len() ==> contains(upper(name), upper(#[trigger] fragments[i]))
}

pub open spec fn candidate_key(c: CsvFileCandidate, step: u16, fragments: Seq<Seq<char>>) -> Option<
    i128,
> {
    match c.file_name {
        Some(name) => if csv_name_matches(name@, step, fragments) {
            c.modified
        } else {
            None
        },
        None => None,
    }
}

pub open spec fn candidate_keys(cs: Seq<CsvFileCandidate>, step: u16, fragments: Seq<Seq<char>>) -> Seq<
    Option<i128>,
> {
    cs.map_values(|c: CsvFileCandidate| candidate_key(c, step, fragments))
}

pub fn has_csv_extension_exec(name: &str) -> (b: bool)
    ensures
        b == has_csv_extension(name@),
{
    let cs = chars_of(name);
    let n = cs.len();
    let mut k = n;
    while k > 0 && cs[k - 1] != '.'
        invariant
            cs@ == name@,
            n == cs@.len(),
            k <= n,
            forall|j: int| k <= j < n ==> cs@[j] != '.',
        decreases k,
    {
        k -= 1;
    }
    if k <= 1 {
        assert forall|m: int|
            0 < m < name@.len() && #[trigger] name@[m] == '.' implies !(forall|j: int|
            m < j < name@.len() ==> name@[j] != '.') by {
            if k == 1 {
                assert(m > 0);
                if m != 0 {
                    assert(name@[m] == '.');
                }
            }
        }
        return false;
    }
    let dot = k - 1;
    let rest = crate::text::string_of_range(cs.as_slice(), dot + 1, n);
    let up = to_ascii_upper(rest.as_str());
    proof {
        reveal_strlit("CSV");
        assert("CSV"@ =~= seq!['C', 'S', 'V']);
        assert(cs@.subrange(dot + 1, n as int) =~= name@.skip(dot + 1));
    }
    let r = str_eq(up.as_str(), "CSV");
    assert forall|m: int|
        0 < m < name@.len() && #[trigger] name@[m] == '.' && (forall|j: int|
            m < j < name@.len() ==> name@[j] != '.') implies m == dot by {
        if m < dot {
            assert(name@[dot as int] == '.');
        }
    }
    r
}

/// `_STEP<n>_`.
pub fn step_tag_string(step: u16) -> (s: String)
    ensures
        s@ == step_tag(step),
{
    let mut s = String::new();
    push_str(&mut s, "_STEP");
    let n = decimal_string(step as u128);
    push_str(&mut s, n.as_str());
    push_str(&mut s, "_");
    proof {
        reveal_strlit("_STEP");
        reveal_strlit("_");
        assert(s@ =~= step_tag(step));
    }
    s
}

/// Whether a file name is that of an export of the step holding every fragment.
pub fn csv_name_matches_exec(name: &str, step: u16, fragments: &Vec<String>) -> (b: bool)
    ensures
        b == csv_name_matches(name@, step, views(fragments@)),
{
    let ghost fs = views(fragments@);
    if !has_csv_extension_exec(name) {
        return false;
    }
    let up = to_ascii_upper(name);
    let tag = step_tag_string(step);
    if !contains_str(up.as_str(), tag.as_str()) {
        return false;
    }
    for i in 0..fragments.len()
        invariant
            fs == views(fragments@),
            up@ == upper(name@),
            forall|j: int| 0 <= j < i ==> contains(upper(name@), upper(#[trigger] fs[j])),
    {
        let f = to_ascii_upper(fragments[i].as_str());
        assert(fs[i as int] == fragments@[i as int]@);
        if !contains_str(up.as_str(), f.as_str()) {
            return false;
        }
    }
    true
}

/// The newest export of the step whose name holds every required fragment (the later one in
/// walk order on a tie); `None` where there is none.
pub fn find_latest_csv(candidates: &Vec<CsvFileCandidate>, step: u16, required_fragments: &Vec<
    String,
>) -> (r: Option<String>)
    ensures
        match r {
            Some(p) => exists|i: int|
                is_last_max(
                    candidate_keys(
                        candidates@,
                        step,
                        views(required_fragments@),
                    ),
                    i,
                ) && #[trigger] candidates@[i].path@ == p@,
            None => no_keys(
                candidate_keys(candidates@, step, views(required_fragments@)),
            ),
        },
{
    let ghost fs = views(required_fragments@);
    let mut keys: Vec<Option<i128>> = Vec::new();
    for i in 0..candidates.len()
        invariant
            fs == views(required_fragments@),
            keys@ == candidate_keys(candidates@.take(i as int), step, fs),
    {
        let c = &candidates[i];
        let key = match &c.file_name {
            Some(name) => if csv_name_matches_exec(name.as_str(), step, required_fragments) {
                c.modified
            } else {
                None
            },
            None => None,
        };
        keys.push(key);
        proof {
            assert(candidates@.take(i + 1) =~= candidates@.take(i as int).push(candidates@[i as int]));
            assert(keys@ =~= candidate_keys(candidates@.take(i + 1), step, fs));
        }
    }
    assert(candidates@.take(candidates@.len() as int) =~= candidates@);
    match last_max_index(&keys) {
        Some(i) => {
            let p = candidates[i].path.clone();
            assert(candidates@[i as int].path@ == p@);
            Some(p)
        },
        None => None,
    }
}

/// What is compared between two looks at an export: its length and modification time.
#[derive(Debug, Clone, Copy, PartialEq, Eq, Structural)]
pub struct CsvFileSnapshot {
    pub len: u64,
    pub modified_ms: Option<u128>,
}

/// Waiting for an export to stop changing. Times are nanoseconds of a monotonic clock counted
/// from the start of the wait; `stable_since` is when the export was last seen to change (or,
/// before any change was seen, when it was last modified), and may lie before the start.
#[derive(Debug, Clone, Copy)]
pub struct StableWait {
    pub stable_for_ns: u128,
    pub max_wait_ns: u128,
    pub stable_since_ns: i128,
    pub previous: CsvFileSnapshot,
}

/// What the wait asks for next.
#[derive(Debug, Clone, Copy, PartialEq, Eq, Structural)]
pub enum StableWaitStep {
    /// The export has not changed for the whole stability window.
    Stable,
    /// The longest wait has passed while the export kept changing.
    GiveUp,
    /// Sleep this many nanoseconds, look at the export again and report what was seen.
    Sleep(u128),
}

/// Largest time span the wait works with (about 5e18 ns, over a century), so that differences of
/// two readings always fit.
pub open spec fn time_fits(t: int) -> bool {
    -0x4000_0000_0000_0000_0000_0000_0000_0000int < t < 0x4000_0000_0000_0000_0000_0000_0000_0000int
}

pub const POLL_INTERVAL_NS: u128 = 100_000_000u128;

/// The first decision of a wait: `None` when there is nothing to wait for, because no stability
/// window was asked for or the export is already older than the window; otherwise the wait,
/// whose window starts at the export's last modification where the clock reaches back that far
/// (`age_fits`), else now. `age_ns` is the export's age, where it is known.
pub fn stable_wait_start(
    stable_for_ns: u128,
    max_wait_ns: u128,
    snapshot: CsvFileSnapshot,
    age_ns: Option<u128>,
    age_fits: bool,
    now_ns: i128,
) -> (r: Option<StableWait>)
    requires
        0 <= now_ns,
        time_fits(now_ns as int),
        time_fits(stable_for_ns as int),
    ensures
        match r {
            None => stable_for_ns == 0 || (age_ns is Some && age_ns->0 >= stable_for_ns),
            Some(w) => {
                &&& stable_for_ns > 0
                &&& !(age_ns is Some && age_ns->0 >= stable_for_ns)
                &&& w.stable_for_ns == stable_for_ns
                &&& w.max_wait_ns == max_wait_ns
                &&& w.previous == snapshot
                &&& w.stable_since_ns == if age_ns is Some && age_fits {
                    now_ns - age_ns->0
                } else {
                    now_ns as int
                }
                &&& time_fits(w.stable_since_ns as int)
            },
        },
{
    if stable_for_ns == 0 {
        return None;
    }
    match age_ns {
        Some(age) => {
            if age >= stable_for_ns {
                return None;
            }
            let since = if age_fits {
                now_ns - (age as i128)
            } else {
                now_ns
            };
            Some(StableWait { stable_for_ns, max_wait_ns, stable_since_ns: since, previous: snapshot })
        },
        None => Some(
            StableWait { stable_for_ns, max_wait_ns, stable_since_ns: now_ns, previous: snapshot },
        ),
    }
}

impl StableWait {
    /// Whether the export has been unchanged for the whole window at `now_ns`.
    pub open spec fn settled(self, now_ns: int) -> bool {
        now_ns - self.stable_since_ns >= self.stable_for_ns
    }

    /// The decision at `now_ns`: stable once the export has been unchanged for the window,
    /// else give up once the longest wait has passed, else sleep a poll interval (at most the
    /// window).
    pub fn poll(&self, now_ns: i128) -> (step: StableWaitStep)
        requires
            time_fits(now_ns as int),
            time_fits(self.stable_since_ns as int),
        ensures
            step == if self.settled(now_ns as int) {
                StableWaitStep::Stable
            } else if now_ns >= self.max_wait_ns {
                StableWaitStep::GiveUp
            } else {
                StableWaitStep::Sleep(
                    if self.stable_for_ns < POLL_INTERVAL_NS {
                        self.stable_for_ns
                    } else {
                        POLL_INTERVAL_NS
                    },
                )
            },
    {
        let elapsed: i128 = now_ns - self.stable_since_ns;
        if elapsed >= 0 && (elapsed as u128) >= self.stable_for_ns {
            StableWaitStep::Stable
        } else if now_ns >= 0 && (now_ns as u128) >= self.max_wait_ns {
            StableWaitStep::GiveUp
        } else if self.stable_for_ns < POLL_INTERVAL_NS {
            StableWaitStep::Sleep(self.stable_for_ns)
        } else {
            StableWaitStep::Sleep(POLL_INTERVAL_NS)
        }
    }

    /// Takes in what a new look at the export showed at `now_ns`: a change restarts the window.
    pub fn observe(&mut self, current: CsvFileSnapshot, now_ns: i128)
        ensures
            final(self).stable_for_ns == old(self).stable_for_ns,
            final(self).max_wait_ns == old(self).max_wait_ns,
            final(self).previous == current,
            final(self).stable_since_ns == if current == old(self).previous {
                old(self).stable_since_ns
            } else {
                now_ns
            },
    {
        if current != self.previous {
            self.previous = current;
            self.stable_since_ns = now_ns;
        }
    }
}

/// Law: a change seen at some moment keeps the export from counting as stable until a whole
/// window has passed after that moment.
pub proof fn law_change_restarts_stability_window(
    w: StableWait,
    current: CsvFileSnapshot,
    seen_ns: i128,
    later_ns: i128,
)
    requires
        current != w.previous,
        later_ns - seen_ns < w.stable_for_ns,
    ensures
        !(StableWait { previous: current, stable_since_ns: seen_ns, ..w }).settled(later_ns as int),
{
}

/// Law: the sniffed delimiter is one of `,` `;` tab `|`, and it occurs in the sample (the first
/// 4096 characters) at least as often as each of the others; on a tie the later of them in that
/// order wins; with none of them there, it is `,`.
pub proof fn law_sniffed_delimiter_is_the_most_frequent(content: Seq<char>)
    ensures
        ({
            let sample = if content.len() > 4096 { content.take(4096) } else { content };
            let d = sniffed_delimiter(content);
            let count_of = |x: u8|
                if x == 44u8 {
                    count_char(sample, ',')
                } else if x == 59u8 {
                    count_char(sample, ';')
                } else if x == 9u8 {
                    count_char(sample, '\t')
                } else {
                    count_char(sample, '|')
                };
            &&& d == 44u8 || d == 59u8 || d == 9u8 || d == 124u8
            &&& count_of(d) >= count_char(sample, ',')
            &&& count_of(d) >= count_char(sample, ';')
            &&& count_of(d) >= count_char(sample, '\t')
            &&& count_of(d) >= count_char(sample, '|')
            &&& (count_char(sample, ',') == 0 && count_char(sample, ';') == 0 && count_char(sample, '\t') == 0
                && count_char(sample, '|') == 0 ==> d == 44u8)
        
            &&& (count_of(d) > 0 && d == 44u8 ==> count_char(sample, ';') < count_of(d) && count_char(sample, '\t')
                < count_of(d) && count_char(sample, '|') < count_of(d))
            &&& (d == 59u8 ==> count_char(sample, '\t') < count_of(d) && count_char(sample, '|') < count_of(d))
            &&& (d == 9u8 ==> count_char(sample, '|') < count_of(d))
        }),
{
}

/// Law: a leading `-` is read as a leading `+` is: a number and its negation are numbers alike,
/// and a sign before a text that starts with none leaves whether it is a number unchanged.
pub proof fn law_float_sign_is_symmetric(s: Seq<char>)
    ensures
        float_syntax(seq!['-'] + s) == float_syntax(seq!['+'] + s),
        s.len() > 0 && s[0] != '+' && s[0] != '-' ==> float_syntax(seq!['-'] + s) == float_syntax(s),
        s.len() > 0 && s[0] != '+' && s[0] != '-' ==> float_syntax(seq!['+'] + s) == float_syntax(s),
{
    assert((seq!['-'] + s).drop_first() =~= s);
    assert((seq!['+'] + s).drop_first() =~= s);
}

} // verus!
