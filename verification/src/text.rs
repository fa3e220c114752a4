use vstd::prelude::*;

verus! {

pub assume_specification[ String::push ](s: &mut String, ch: char)
    ensures
        final(s)@ == old(s)@.push(ch),
;

/// Unicode `White_Space` characters: exactly the set that `char::is_whitespace` accepts.
pub open spec fn is_ws(c: char) -> bool {
    let u = c as u32;
    ||| 0x09 <= u <= 0x0d
    ||| u == 0x20
    ||| u == 0x85
    ||| u == 0xa0
    ||| u == 0x1680
    ||| 0x2000 <= u <= 0x200a
    ||| u == 0x2028
    ||| u == 0x2029
    ||| u == 0x202f
    ||| u == 0x205f
    ||| u == 0x3000
}

pub fn is_whitespace(c: char) -> (b: bool)
    ensures
        b == is_ws(c),
{
    let u = c as u32;
    (0x09 <= u && u <= 0x0d) || u == 0x20 || u == 0x85 || u == 0xa0 || u == 0x1680 || (0x2000 <= u
        && u <= 0x200a) || u == 0x2028 || u == 0x2029 || u == 0x202f || u == 0x205f || u == 0x3000
}

/// Number of leading whitespace characters.
pub open spec fn lead_ws(s: Seq<char>) -> nat
    decreases s.len(),
{
    if s.len() > 0 && is_ws(s[0]) {
        1 + lead_ws(s.drop_first())
    } else {
        0
    }
}

/// Number of trailing whitespace characters.
pub open spec fn trail_ws(s: Seq<char>) -> nat
    decreases s.len(),
{
    if s.len() > 0 && is_ws(s.last()) {
        1 + trail_ws(s.drop_last())
    } else {
        0
    }
}

/// What `str::trim` gives back.
pub open spec fn trim(s: Seq<char>) -> Seq<char> {
    let t = s.skip(lead_ws(s) as int);
    t.take(t.len() - trail_ws(t))
}

/// Every character is whitespace, so the trimmed text is empty.
pub open spec fn is_blank(s: Seq<char>) -> bool {
    forall|i: int| 0 <= i < s.len() ==> is_ws(#[trigger] s[i])
}

pub proof fn lemma_lead_ws_bound(s: Seq<char>)
    ensures
        lead_ws(s) <= s.len(),
        lead_ws(s) < s.len() ==> !is_ws(s[lead_ws(s) as int]),
        forall|i: int| 0 <= i < lead_ws(s) ==> is_ws(#[trigger] s[i]),
    decreases s.len(),
{
    if s.len() > 0 && is_ws(s[0]) {
        lemma_lead_ws_bound(s.drop_first());
        assert forall|i: int| 0 <= i < lead_ws(s) implies is_ws(#[trigger] s[i]) by {
            if i > 0 {
                assert(s[i] == s.drop_first()[i - 1]);
            }
        }
    }
}

pub proof fn lemma_trail_ws_bound(s: Seq<char>)
    ensures
        trail_ws(s) <= s.len(),
        trail_ws(s) < s.len() ==> !is_ws(s[s.len() - trail_ws(s) - 1]),
        forall|i: int| s.len() - trail_ws(s) <= i < s.len() ==> is_ws(#[trigger] s[i]),
    decreases s.len(),
{
    if s.len() > 0 && is_ws(s.last()) {
        lemma_trail_ws_bound(s.drop_last());
        assert forall|i: int| s.len() - trail_ws(s) <= i < s.len() implies is_ws(
            #[trigger] s[i],
        ) by {
            if i < s.len() - 1 {
                assert(s[i] == s.drop_last()[i]);
            }
        }
    }
}

pub proof fn lemma_blank_iff_trim_empty(s: Seq<char>)
    ensures
        is_blank(s) <==> trim(s).len() == 0,
{
    lemma_lead_ws_bound(s);
    let t = s.skip(lead_ws(s) as int);
    lemma_trail_ws_bound(t);
    if is_blank(s) {
        lemma_all_ws_lead(s);
    } else {
        let j = choose|j: int| 0 <= j < s.len() && !is_ws(s[j]);
        assert(lead_ws(s) <= j);
        if trim(s).len() == 0 {
            assert(t[j - lead_ws(s)] == s[j]);
        }
    }
}

proof fn lemma_all_ws_lead(s: Seq<char>)
    requires
        is_blank(s),
    ensures
        lead_ws(s) == s.len(),
    decreases s.len(),
{
    if s.len() > 0 {
        assert(is_ws(s[0]));
        assert forall|i: int| 0 <= i < s.drop_first().len() implies is_ws(
            #[trigger] s.drop_first()[i],
        ) by {
            assert(s.drop_first()[i] == s[i + 1]);
        }
        lemma_all_ws_lead(s.drop_first());
    }
}

/// The characters of a string slice, in order.
pub fn chars_of(s: &str) -> (out: Vec<char>)
    ensures
        out@ == s@,
{
    let mut out: Vec<char> = Vec::new();
    for c in it: s.chars()
        invariant
            it.seq() == s@,
            out@ == s@.take(it.index() as int),
    {
        out.push(c);
        proof {
            assert(s@.take(it.index() + 1) =~= out@);
        }
    }
    proof {
        assert(s@.take(s@.len() as int) =~= s@);
    }
    out
}

/// A string holding the given characters.
pub fn string_of(cs: &[char]) -> (out: String)
    ensures
        out@ == cs@,
{
    let mut out = String::new();
    for i in 0..cs.len()
        invariant
            out@ == cs@.take(i as int),
    {
        out.push(cs[i]);
        proof {
            assert(cs@.take(i + 1) =~= cs@.take(i as int).push(cs@[i as int]));
        }
    }
    proof {
        assert(cs@.take(cs@.len() as int) =~= cs@);
    }
    out
}

/// A string holding the characters `cs[from..to]`.
pub fn string_of_range(cs: &[char], from: usize, to: usize) -> (out: String)
    requires
        from <= to <= cs@.len(),
    ensures
        out@ == cs@.subrange(from as int, to as int),
{
    let mut out = String::new();
    let mut i = from;
    while i < to
        invariant
            from <= i <= to <= cs@.len(),
            out@ == cs@.subrange(from as int, i as int),
        decreases to - i,
    {
        out.push(cs[i]);
        proof {
            assert(cs@.subrange(from as int, i + 1) =~= cs@.subrange(from as int, i as int).push(
                cs@[i as int],
            ));
        }
        i += 1;
    }
    out
}

/// `a` followed by `b`.
pub fn concat(a: &str, b: &str) -> (out: String)
    ensures
        out@ == a@ + b@,
{
    let mut out = a.to_owned();
    out.append(b);
    out
}

/// Appends the text of `b` to `a`.
pub fn push_str(a: &mut String, b: &str)
    ensures
        final(a)@ == old(a)@ + b@,
{
    a.append(b);
}

/// What `str::trim` gives back.
pub fn trim_str(s: &str) -> (out: String)
    ensures
        out@ == trim(s@),
{
    let cs = chars_of(s);
    let n = cs.len();
    let mut start: usize = 0;
    proof {
        assert(s@.skip(0) =~= s@);
    }
    while start < n && is_whitespace(cs[start])
        invariant
            0 <= start <= n == s@.len(),
            cs@ == s@,
            lead_ws(s@) == start + lead_ws(s@.skip(start as int)),
        decreases n - start,
    {
        proof {
            assert(s@.skip(start as int).drop_first() =~= s@.skip(start + 1));
        }
        start += 1;
    }
    let ghost t = s@.skip(start as int);
    assert(lead_ws(t) == 0);
    assert(start == lead_ws(s@));
    let mut end: usize = n;
    proof {
        assert(t.take(t.len() as int) =~= t);
    }
    while end > start && is_whitespace(cs[end - 1])
        invariant
            start <= end <= n == s@.len(),
            cs@ == s@,
            t == s@.skip(start as int),
            trail_ws(t) == (n - end) + trail_ws(t.take(end - start)),
        decreases end,
    {
        proof {
            assert(t.take(end - start).drop_last() =~= t.take(end - 1 - start));
        }
        end -= 1;
    }
    assert(trail_ws(t.take(end - start)) == 0);
    proof {
        assert(t.take(t.len() - trail_ws(t)) =~= s@.subrange(start as int, end as int));
    }
    string_of_range(cs.as_slice(), start, end)
}

/// Whether the text is empty once trimmed.
pub fn is_blank_str(s: &str) -> (b: bool)
    ensures
        b == is_blank(s@),
        b <==> trim(s@).len() == 0,
{
    proof {
        lemma_blank_iff_trim_empty(s@);
    }
    let cs = chars_of(s);
    for i in 0..cs.len()
        invariant
            cs@ == s@,
            is_blank(s@) <==> trim(s@).len() == 0,
            forall|j: int| 0 <= j < i ==> is_ws(#[trigger] s@[j]),
    {
        if !is_whitespace(cs[i]) {
            return false;
        }
    }
    true
}

/// Spec equality of two texts, decided.
pub fn str_eq(a: &str, b: &str) -> (r: bool)
    ensures
        r == (a@ == b@),
{
    let x = chars_of(a);
    let y = chars_of(b);
    if x.len() != y.len() {
        proof {
            assert(a@.len() != b@.len());
        }
        return false;
    }
    for i in 0..x.len()
        invariant
            x@ == a@,
            y@ == b@,
            x@.len() == y@.len(),
            forall|j: int| 0 <= j < i ==> x@[j] == y@[j],
    {
        if x[i] != y[i] {
            return false;
        }
    }
    proof {
        assert(a@ =~= b@);
    }
    true
}

/// The character for a decimal digit.
pub open spec fn digit_char(d: int) -> char {
    (48 + d) as char
}

/// The decimal numeral of `n`, without leading zeros.
pub open spec fn decimal(n: nat) -> Seq<char>
    decreases n,
{
    if n < 10 {
        seq![digit_char(n as int)]
    } else {
        decimal(n / 10).push(digit_char((n % 10) as int))
    }
}

fn digit(d: u128) -> (c: char)
    requires
        d < 10,
    ensures
        c == digit_char(d as int),
{
    let b: u8 = 48u8 + (d as u8);
    b as char
}

fn push_decimal(out: &mut String, n: u128)
    ensures
        final(out)@ == old(out)@ + decimal(n as nat),
    decreases n,
{
    if n >= 10 {
        push_decimal(out, n / 10);
    }
    out.push(digit(n % 10));
    proof {
        if n < 10 {
            assert(old(out)@ + decimal(n as nat) =~= old(out)@.push(digit_char(n as int)));
        } else {
            assert(old(out)@ + decimal(n as nat) =~= old(out)@ + decimal((n / 10) as nat) + seq![
                digit_char((n % 10) as int),
            ]);
        }
    }
}

/// The decimal numeral of `n`.
pub fn decimal_string(n: u128) -> (out: String)
    ensures
        out@ == decimal(n as nat),
{
    let mut out = String::new();
    push_decimal(&mut out, n);
    assert(out@ =~= decimal(n as nat));
    out
}

} // verus!

verus! {

/// The view of an optional text.
pub open spec fn opt_view(o: Option<String>) -> Option<Seq<char>> {
    match o {
        Some(s) => Some(s@),
        None => None,
    }
}

/// A copy of an optional text.
pub fn clone_opt(o: &Option<String>) -> (r: Option<String>)
    ensures
        r == *o,
{
    match o {
        Some(s) => Some(s.clone()),
        None => None,
    }
}

/// Whether `needle` occurs in `hay` at position `i`.
pub open spec fn occurs_at(hay: Seq<char>, needle: Seq<char>, i: int) -> bool {
    0 <= i && i + needle.len() <= hay.len() && hay.subrange(i, i + needle.len()) == needle
}

/// Whether `needle` occurs somewhere in `hay`.
pub open spec fn contains(hay: Seq<char>, needle: Seq<char>) -> bool {
    exists|i: int| occurs_at(hay, needle, i)
}

/// Whether `needle` occurs in `hay` at position `i`, decided over character vectors.
pub fn occurs_at_chars(hay: &[char], needle: &[char], i: usize) -> (b: bool)
    ensures
        b == occurs_at(hay@, needle@, i as int),
{
    if i > hay.len() || needle.len() > hay.len() - i {
        return false;
    }
    for k in 0..needle.len()
        invariant
            i + needle@.len() <= hay@.len(),
            forall|j: int| 0 <= j < k ==> hay@[i + j] == needle@[j],
    {
        assert(i + k < hay@.len());
        assert(hay@.len() == hay.len());
        if hay[i + k] != needle[k] {
            assert(hay@.subrange(i as int, i + needle@.len())[k as int] != needle@[k as int]);
            return false;
        }
    }
    assert(hay@.subrange(i as int, i + needle@.len()) =~= needle@);
    true
}

/// The first position at or after `from` where `needle` occurs in `hay`.
pub fn find_chars(hay: &[char], needle: &[char], from: usize) -> (r: Option<usize>)
    ensures
        match r {
            Some(i) => from <= i && occurs_at(hay@, needle@, i as int) && forall|j: int|
                from <= j < i ==> !occurs_at(hay@, needle@, j),
            None => forall|j: int| from <= j ==> !occurs_at(hay@, needle@, j),
        },
{
    let mut i = from;
    while i <= hay.len()
        invariant
            from <= i,
            forall|j: int| from <= j < i ==> !occurs_at(hay@, needle@, j),
        decreases hay.len() + 1 - i,
    {
        if occurs_at_chars(hay, needle, i) {
            return Some(i);
        }
        if i == hay.len() {
            assert forall|j: int| from <= j implies !occurs_at(hay@, needle@, j) by {
                if j > i {
                    assert(j + needle@.len() > hay@.len());
                }
            }
            return None;
        }
        i += 1;
    }
    assert forall|j: int| from <= j implies !occurs_at(hay@, needle@, j) by {
        if j >= i {
            assert(j + needle@.len() > hay@.len());
        }
    }
    None
}

/// Whether `needle` occurs somewhere in `hay`.
pub fn contains_str(hay: &str, needle: &str) -> (b: bool)
    ensures
        b == contains(hay@, needle@),
{
    let h = chars_of(hay);
    let n = chars_of(needle);
    match find_chars(h.as_slice(), n.as_slice(), 0) {
        Some(i) => true,
        None => false,
    }
}

/// Whether `hay` begins with `prefix`.
pub fn starts_with_str(hay: &str, prefix: &str) -> (b: bool)
    ensures
        b == occurs_at(hay@, prefix@, 0),
{
    let h = chars_of(hay);
    let n = chars_of(prefix);
    occurs_at_chars(h.as_slice(), n.as_slice(), 0)
}

/// Whether `hay` ends with `suffix`.
pub fn ends_with_str(hay: &str, suffix: &str) -> (b: bool)
    ensures
        b == (suffix@.len() <= hay@.len() && occurs_at(hay@, suffix@, hay@.len() - suffix@.len())),
{
    let h = chars_of(hay);
    let n = chars_of(suffix);
    if n.len() > h.len() {
        return false;
    }
    occurs_at_chars(h.as_slice(), n.as_slice(), h.len() - n.len())
}

} // verus!

verus! {

pub open spec fn is_digit(c: char) -> bool {
    '0' <= c <= '9'
}

pub open spec fn all_digits(s: Seq<char>) -> bool {
    forall|i: int| 0 <= i < s.len() ==> is_digit(#[trigger] s[i])
}

/// The value of a run of decimal digits.
pub open spec fn digits_value(s: Seq<char>) -> nat
    decreases s.len(),
{
    if s.len() == 0 {
        0
    } else {
        digits_value(s.drop_last()) * 10 + ((s.last() as int - 48) as nat)
    }
}

/// What `str::parse` of an unsigned integer type whose largest value is `max` gives back:
/// an optional `+`, then one or more decimal digits, whose value must not exceed `max`.
pub open spec fn parse_unsigned(s: Seq<char>, max: nat) -> Option<nat> {
    let d = if s.len() > 0 && s[0] == '+' {
        s.drop_first()
    } else {
        s
    };
    if d.len() > 0 && all_digits(d) && digits_value(d) <= max {
        Some(digits_value(d))
    } else {
        None
    }
}

proof fn lemma_digits_value_grows(s: Seq<char>, i: int, j: int)
    requires
        0 <= i <= j <= s.len(),
        all_digits(s),
    ensures
        digits_value(s.take(i)) <= digits_value(s.take(j)),
    decreases j - i,
{
    if i < j {
        lemma_digits_value_grows(s, i, j - 1);
        assert(s.take(j).drop_last() =~= s.take(j - 1));
        assert(is_digit(s[j - 1]));
    }
}

/// Parses an unsigned decimal numeral no larger than `max`, as `str::parse` does.
pub fn parse_unsigned_chars(s: &[char], max: u128) -> (r: Option<u128>)
    ensures
        match r {
            Some(v) => parse_unsigned(s@, max as nat) == Some(v as nat),
            None => parse_unsigned(s@, max as nat).is_none(),
        },
{
    let start: usize = if s.len() > 0 && s[0] == '+' {
        1
    } else {
        0
    };
    let ghost d = if s@.len() > 0 && s@[0] == '+' {
        s@.drop_first()
    } else {
        s@
    };
    assert(d =~= s@.skip(start as int));
    if start >= s.len() {
        return None;
    }
    let mut acc: u128 = 0;
    let mut over = false;
    let mut i = start;
    assert(d.take(0) =~= Seq::<char>::empty());
    while i < s.len()
        invariant
            start <= i <= s@.len(),
            d == s@.skip(start as int),
            d == (if s@.len() > 0 && s@[0] == '+' {
                s@.drop_first()
            } else {
                s@
            }),
            forall|k: int| 0 <= k < i - start ==> is_digit(#[trigger] d[k]),
            !over ==> acc == digits_value(d.take(i - start)) && acc <= max,
            over ==> digits_value(d.take(i - start)) > max,
        decreases s.len() - i,
    {
        let c = s[i];
        if !('0' <= c && c <= '9') {
            assert(d[i - start] == c);
            assert(!is_digit(d[i - start]));
            assert(!all_digits(d));
            assert(parse_unsigned(s@, max as nat).is_none());
            return None;
        }
        let ghost t = d.take(i - start + 1);
        assert(t.drop_last() =~= d.take(i - start));
        assert(t.last() == c);
        if !over {
            let dv = (c as u32 - 48) as u128;
            if dv > max || acc > (max - dv) / 10 {
                over = true;
                assert(acc * 10 + dv > max) by (nonlinear_arith)
                    requires
                        dv > max || acc > (max - dv) / 10,
                        dv <= 9,
                ;
            } else {
                assert(acc * 10 + dv <= max) by (nonlinear_arith)
                    requires
                        acc <= (max - dv) / 10,
                ;
                acc = acc * 10 + dv;
            }
        } else {
            assert(digits_value(t) >= digits_value(t.drop_last())) by (nonlinear_arith)
                requires
                    digits_value(t) == digits_value(t.drop_last()) * 10 + ((t.last() as int
                        - 48) as nat),
            ;
        }
        i += 1;
    }
    assert(d.take(i - start) =~= d);
    assert(all_digits(d));
    if over {
        None
    } else {
        Some(acc)
    }
}

pub proof fn lemma_decimal_digits(n: nat)
    ensures
        decimal(n).len() > 0,
        all_digits(decimal(n)),
        digits_value(decimal(n)) == n,
        decimal(n)[0] != '+',
    decreases n,
{
    assert(digit_char((n % 10) as int) as int == 48 + n % 10);
    if n < 10 {
        assert(decimal(n).drop_last() =~= Seq::<char>::empty());
        assert(digits_value(Seq::<char>::empty()) == 0);
    } else {
        assert((n / 10) * 10 + n % 10 == n);
        lemma_decimal_digits(n / 10);
        let s = decimal(n);
        assert(s.last() == digit_char((n % 10) as int));
        assert(s.drop_last() =~= decimal(n / 10));
        assert(s[0] == decimal(n / 10)[0]);
    }
}

/// Law: reading back a numeral that `decimal_string` wrote gives the number.
pub proof fn law_parse_reads_back_decimal(n: nat, max: nat)
    requires
        n <= max,
    ensures
        parse_unsigned(decimal(n), max) == Some(n),
{
    lemma_decimal_digits(n);
}

} // verus!

verus! {

/// The pieces of `s` between occurrences of `sep`, as `str::split` gives them.
pub open spec fn split_on(s: Seq<char>, sep: char) -> Seq<Seq<char>>
    decreases s.len(),
{
    if s.len() == 0 {
        seq![Seq::<char>::empty()]
    } else {
        let p = split_on(s.drop_last(), sep);
        if s.last() == sep {
            p.push(Seq::<char>::empty())
        } else {
            p.update(p.len() - 1, p.last().push(s.last()))
        }
    }
}

pub proof fn lemma_split_nonempty(s: Seq<char>, sep: char)
    ensures
        split_on(s, sep).len() >= 1,
    decreases s.len(),
{
    if s.len() > 0 {
        lemma_split_nonempty(s.drop_last(), sep);
    }
}

/// Splitting at a separator splits the pieces on either side independently.
pub proof fn lemma_split_concat(x: Seq<char>, sep: char, y: Seq<char>)
    ensures
        split_on(x + seq![sep] + y, sep) == split_on(x, sep) + split_on(y, sep),
    decreases y.len(),
{
    lemma_split_nonempty(x, sep);
    lemma_split_nonempty(y, sep);
    if y.len() == 0 {
        assert((x + seq![sep] + y).drop_last() =~= x);
        assert(split_on(x, sep).push(Seq::<char>::empty()) =~= split_on(x, sep) + split_on(
            y,
            sep,
        ));
    } else {
        let y0 = y.drop_last();
        lemma_split_concat(x, sep, y0);
        lemma_split_nonempty(y0, sep);
        assert((x + seq![sep] + y).drop_last() =~= x + seq![sep] + y0);
        let p = split_on(y0, sep);
        if y.last() == sep {
            assert(split_on(x, sep) + p.push(Seq::<char>::empty()) =~= (split_on(x, sep) + p).push(
                Seq::<char>::empty(),
            ));
        } else {
            let q = split_on(x, sep) + p;
            assert(split_on(x, sep) + p.update(p.len() - 1, p.last().push(y.last())) =~= q.update(
                q.len() - 1,
                q.last().push(y.last()),
            ));
        }
    }
}

/// Text without the separator is a single piece.
pub proof fn lemma_split_single(s: Seq<char>, sep: char)
    requires
        forall|i: int| 0 <= i < s.len() ==> s[i] != sep,
    ensures
        split_on(s, sep) == seq![s],
    decreases s.len(),
{
    if s.len() > 0 {
        let t = s.drop_last();
        assert forall|i: int| 0 <= i < t.len() implies t[i] != sep by {
            assert(t[i] == s[i]);
        }
        lemma_split_single(t, sep);
        assert(s[s.len() - 1] != sep);
        assert(t.push(s.last()) =~= s);
        assert(seq![t].update(0, t.push(s.last())) =~= seq![s]);
    } else {
        assert(s =~= Seq::<char>::empty());
    }
}

/// The pieces of `s` between occurrences of `sep`.
pub fn split_chars(s: &[char], sep: char) -> (parts: Vec<Vec<char>>)
    ensures
        parts@.len() == split_on(s@, sep).len(),
        forall|i: int| 0 <= i < parts@.len() ==> #[trigger] parts@[i]@ == split_on(s@, sep)[i],
{
    let mut parts: Vec<Vec<char>> = Vec::new();
    let mut current: Vec<char> = Vec::new();
    assert(s@.take(0) =~= Seq::<char>::empty());
    for i in 0..s.len()
        invariant
            parts@.len() + 1 == split_on(s@.take(i as int), sep).len(),
            forall|k: int| 0 <= k < parts@.len() ==> #[trigger] parts@[k]@ == split_on(
                s@.take(i as int),
                sep,
            )[k],
            current@ == split_on(s@.take(i as int), sep).last(),
    {
        proof {
            assert(s@.take(i + 1).drop_last() =~= s@.take(i as int));
            lemma_split_nonempty(s@.take(i as int), sep);
        }
        if s[i] == sep {
            let mut done: Vec<char> = Vec::new();
            std::mem::swap(&mut done, &mut current);
            parts.push(done);
        } else {
            current.push(s[i]);
        }
    }
    proof {
        assert(s@.take(s@.len() as int) =~= s@);
    }
    parts.push(current);
    parts
}

pub open spec fn hex_char(d: int) -> char {
    if d < 10 {
        (48 + d) as char
    } else {
        (87 + d) as char
    }
}

/// The last `n` lowercase hexadecimal digits of `h`, zero-padded.
pub open spec fn hex_digits(h: nat, n: nat) -> Seq<char>
    decreases n,
{
    if n == 0 {
        seq![]
    } else {
        hex_digits(h / 16, (n - 1) as nat).push(hex_char((h % 16) as int))
    }
}

fn push_hex(out: &mut String, h: u64, n: u32)
    ensures
        final(out)@ == old(out)@ + hex_digits(h as nat, n as nat),
    decreases n,
{
    if n > 0 {
        push_hex(out, h / 16, n - 1);
        let d = h % 16;
        let b: u8 = if d < 10 {
            48u8 + (d as u8)
        } else {
            87u8 + (d as u8)
        };
        out.push(b as char);
        proof {
            assert(old(out)@ + hex_digits(h as nat, n as nat) =~= old(out)@ + hex_digits(
                (h / 16) as nat,
                (n - 1) as nat,
            ) + seq![hex_char((h % 16) as int)]);
        }
    } else {
        assert(old(out)@ + hex_digits(h as nat, n as nat) =~= old(out)@);
    }
}

/// `h` as sixteen lowercase hexadecimal digits, as `format!("{h:016x}")` writes it.
pub fn hex16_string(h: u64) -> (out: String)
    ensures
        out@ == hex_digits(h as nat, 16),
{
    let mut out = String::new();
    push_hex(&mut out, h, 16);
    assert(out@ =~= hex_digits(h as nat, 16));
    out
}

pub proof fn lemma_hex_digits_shape(h: nat, n: nat)
    ensures
        hex_digits(h, n).len() == n,
        forall|i: int| 0 <= i < n ==> #[trigger] hex_digits(h, n)[i] != ':',
    decreases n,
{
    if n > 0 {
        lemma_hex_digits_shape(h / 16, (n - 1) as nat);
        let d = (h % 16) as int;
        assert(hex_char(d) as int == if d < 10 { 48 + d } else { 87 + d });
        assert forall|i: int| 0 <= i < n implies #[trigger] hex_digits(h, n)[i] != ':' by {
            if i < n - 1 {
                assert(hex_digits(h, n)[i] == hex_digits(h / 16, (n - 1) as nat)[i]);
            }
        }
    }
}

} // verus!

verus! {

pub open spec fn ascii_upper(c: char) -> char {
    if 'a' <= c <= 'z' {
        ((c as u32) - 32) as char
    } else {
        c
    }
}

/// The text with its ASCII letters in upper case, as `str::to_ascii_uppercase` gives it.
pub open spec fn upper(s: Seq<char>) -> Seq<char> {
    s.map_values(|c: char| ascii_upper(c))
}

pub fn upper_char(c: char) -> (u: char)
    ensures
        u == ascii_upper(c),
{
    if 'a' <= c && c <= 'z' {
        ((c as u32) - 32) as u8 as char
    } else {
        c
    }
}

pub fn to_ascii_upper(s: &str) -> (out: String)
    ensures
        out@ == upper(s@),
{
    let cs = chars_of(s);
    let mut out = String::new();
    for i in 0..cs.len()
        invariant
            cs@ == s@,
            out@ == upper(s@.take(i as int)),
    {
        out.push(upper_char(cs[i]));
        proof {
            assert(upper(s@.take(i + 1)) =~= upper(s@.take(i as int)).push(ascii_upper(s@[i as int])));
        }
    }
    assert(s@.take(s@.len() as int) =~= s@);
    out
}

} // verus!

verus! {

/// The texts of a list of strings.
pub open spec fn views(v: Seq<String>) -> Seq<Seq<char>> {
    v.map_values(|s: String| s@)
}

} // verus!
