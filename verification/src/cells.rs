use vstd::prelude::*;

use crate::csv_data::column_value;
use crate::text::{chars_of, decimal, decimal_string, push_str, trim, trim_str};

verus! {

pub open spec fn is_upper_letter(c: char) -> bool {
    'A' <= c <= 'Z'
}

pub open spec fn all_upper(s: Seq<char>) -> bool {
    forall|i: int| 0 <= i < s.len() ==> is_upper_letter(#[trigger] s[i])
}

/// The column name of a column number (1 is `A`, 27 is `AA`): bijective base 26.
pub open spec fn column_name(n: nat) -> Seq<char>
    decreases n,
{
    if n == 0 {
        Seq::empty()
    } else {
        column_name(((n - 1) / 26) as nat).push((65 + (n - 1) % 26) as char)
    }
}

/// The number of a column name of upper-case letters; `None` for an empty or otherwise
/// invalid name (once trimmed), or one whose number exceeds `u32`.
pub fn column_name_to_number(column: &str) -> (r: Option<u32>)
    ensures
        match r {
            Some(n) => {
                let t = trim(column@);
                &&& t.len() > 0 && all_upper(t)
                &&& n == column_value(t)
            },
            None => {
                let t = trim(column@);
                t.len() == 0 || !all_upper(t) || column_value(t) > u32::MAX
            },
        },
{
    let trimmed = trim_str(column);
    let cs = chars_of(trimmed.as_str());
    if cs.len() == 0 {
        return None;
    }
    let mut number: u64 = 0;
    let mut over = false;
    let mut i: usize = 0;
    while i < cs.len()
        invariant
            cs@ == trim(column@),
            0 <= i <= cs@.len(),
            forall|k: int| 0 <= k < i ==> is_upper_letter(#[trigger] cs@[k]),
            !over ==> number == column_value(cs@.take(i as int)) && number <= u32::MAX,
            over ==> column_value(cs@.take(i as int)) > u32::MAX,
        decreases cs.len() - i,
    {
        let c = cs[i];
        if !('A' <= c && c <= 'Z') {
            assert(!is_upper_letter(cs@[i as int]));
            return None;
        }
        proof {
            assert(cs@.take(i + 1).drop_last() =~= cs@.take(i as int));
            lemma_column_value_nonneg(cs@.take(i as int));
        }
        if !over {
            let v = (c as u32 - 64) as u64;
            number = number * 26 + v;
            if number > u32::MAX as u64 {
                over = true;
            }
        } else {
            assert(column_value(cs@.take(i + 1)) >= column_value(cs@.take(i as int)) * 26) by {
                assert(1 <= crate::csv_data::letter_value(c));
            }
        }
        i += 1;
    }
    assert(cs@.take(cs@.len() as int) =~= cs@);
    if over {
        None
    } else {
        Some(number as u32)
    }
}

proof fn lemma_column_value_nonneg(s: Seq<char>)
    requires
        all_upper(s),
    ensures
        column_value(s) >= 0,
    decreases s.len(),
{
    if s.len() > 0 {
        let t = s.drop_last();
        assert forall|i: int| 0 <= i < t.len() implies is_upper_letter(#[trigger] t[i]) by {
            assert(t[i] == s[i]);
        }
        lemma_column_value_nonneg(t);
    }
}

/// The column name of a number; `None` for 0.
pub fn column_number_to_name(number: u32) -> (r: Option<String>)
    ensures
        match r {
            Some(s) => number > 0 && s@ == column_name(number as nat),
            None => number == 0,
        },
{
    if number == 0 {
        return None;
    }
    let mut letters: Vec<char> = Vec::new();
    let mut n = number;
    while n > 0
        invariant
            column_name(number as nat) == column_name(n as nat) + letters@.reverse(),
        decreases n,
    {
        let m = n - 1;
        let c = ((m % 26) as u8 + 65u8) as char;
        proof {
            assert(column_name(n as nat) == column_name((m / 26) as nat).push(c));
            assert(column_name(n as nat) + letters@.reverse() =~= column_name((m / 26) as nat)
                + letters@.push(c).reverse());
        }
        letters.push(c);
        n = m / 26;
    }
    let mut out = String::new();
    let mut i = letters.len();
    while i > 0
        invariant
            i <= letters@.len(),
            out@ == letters@.subrange(i as int, letters@.len() as int).reverse(),
        decreases i,
    {
        i -= 1;
        out.push(letters[i]);
        proof {
            assert(letters@.subrange(i as int, letters@.len() as int).reverse() =~= letters@.subrange(
                i + 1,
                letters@.len() as int,
            ).reverse().push(letters@[i as int]));
        }
    }
    assert(column_name(0) =~= Seq::<char>::empty());
    assert(letters@.subrange(0, letters@.len() as int) =~= letters@);
    assert(out@ =~= column_name(number as nat));
    Some(out)
}

/// Law: a column number's name reads back as the number.
pub proof fn law_column_name_reads_back(n: nat)
    ensures
        column_value(column_name(n)) == n,
        all_upper(column_name(n)),
    decreases n,
{
    if n > 0 {
        let q = ((n - 1) / 26) as nat;
        law_column_name_reads_back(q);
        let s = column_name(n);
        assert(s.drop_last() =~= column_name(q));
        assert(q * 26 + (n - 1) % 26 + 1 == n);
        assert forall|i: int| 0 <= i < s.len() implies is_upper_letter(#[trigger] s[i]) by {
            if i < s.len() - 1 {
                assert(s[i] == column_name(q)[i]);
            }
        }
    }
}

/// A spreadsheet cell: a column number (1 is `A`) and a row number, both from 1.
#[derive(Debug, Clone, Copy, PartialEq, Eq, Structural)]
pub struct CellRef {
    pub column: u32,
    pub row: u32,
}

/// `B12` and the like.
pub open spec fn cell_text(c: CellRef) -> Seq<char> {
    column_name(c.column as nat) + decimal(c.row as nat)
}

impl CellRef {
    pub fn text(&self) -> (s: String)
        requires
            self.column > 0,
        ensures
            s@ == cell_text(*self),
    {
        let mut s = match column_number_to_name(self.column) {
            Some(name) => name,
            None => String::new(),
        };
        let row = decimal_string(self.row as u128);
        push_str(&mut s, row.as_str());
        s
    }
}

} // verus!
