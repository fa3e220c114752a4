use vstd::prelude::*;

use crate::csv_data::has_csv_extension;
use crate::patterns::{
    regex_captures, regex_compiles, regex_match_result, step_pattern, wildcard_pattern_to_regex,
    wildcard_regex, CompiledRegex,
};
use crate::select::{last_max, last_max_index};
use crate::text::{views, contains, contains_str, is_blank, parse_unsigned, to_ascii_upper, upper};

verus! {

/// A file met while walking a unit folder, with what the walk learned of it: its name where
/// that is valid UTF-8, its modification time (nanoseconds from the Unix epoch; the epoch itself
/// where the file system gives none), its start time in milliseconds (creation, else
/// modification) and whether it could be opened.
#[derive(Debug, Clone)]
pub struct ScannedFile {
    pub path: String,
    pub file_name: Option<String>,
    pub modified: i128,
    pub created_ms: Option<u64>,
    pub readable: bool,
}

/// A CSV export found in a unit folder.
#[derive(Debug, Clone)]
pub struct CsvScanEntry {
    pub path: String,
    pub step: Option<u16>,
    pub file_name: String,
    pub file_name_upper: String,
    pub modified: i128,
    pub created_ms: Option<u64>,
    pub readable: bool,
}

/// The CSV exports of one unit folder, in walk order.
#[derive(Debug, Clone)]
pub struct CsvScanIndex {
    pub entries: Vec<CsvScanEntry>,
}

/// The step number in a file name: the digits after the first `_STEP` tag that the step
/// pattern matches, where they read as a `u16`.
pub open spec fn name_step(name: Seq<char>) -> Option<u16> {
    match regex_captures(step_pattern(), name) {
        Some(g) => if g.len() > 1 && g[1] is Some {
            match parse_unsigned(g[1]->0, 65535) {
                Some(v) => Some(v as u16),
                None => None,
            }
        } else {
            None
        },
        None => None,
    }
}

/// The entry agrees with the scan of the file.
pub open spec fn entry_from(e: CsvScanEntry, f: ScannedFile) -> bool {
    &&& f.file_name is Some
    &&& has_csv_extension(f.file_name->0@)
    &&& e.path == f.path
    &&& e.file_name == f.file_name->0
    &&& e.file_name_upper@ == upper(f.file_name->0@)
    &&& e.step == name_step(f.file_name->0@)
    &&& e.modified == f.modified
    &&& e.created_ms == f.created_ms
    &&& e.readable == f.readable
}

pub open spec fn kept(f: ScannedFile) -> bool {
    f.file_name is Some && has_csv_extension(f.file_name->0@)
}

/// The positions of the files that the scan keeps, in order.
pub open spec fn kept_files(files: Seq<ScannedFile>) -> Seq<ScannedFile> {
    files.filter_map(|f: ScannedFile| if kept(f) { Some(f) } else { None })
}

fn entry_step(step_regex: &CompiledRegex, name: &str) -> (s: Option<u16>)
    requires
        step_regex.source_view() == step_pattern(),
    ensures
        s == name_step(name@),
{
    match step_regex.captures(name, "step") {
        Some((groups, _)) => {
            if groups.len() > 1 {
                match &groups[1] {
                    Some(g) => {
                        let cs = crate::text::chars_of(g.as_str());
                        match crate::text::parse_unsigned_chars(cs.as_slice(), 65535) {
                            Some(v) => Some(v as u16),
                            None => None,
                        }
                    },
                    None => None,
                }
            } else {
                None
            }
        },
        None => None,
    }
}

impl CsvScanIndex {
    /// The index of the files that a walk of the unit folder met: the `.csv` files among them.
    pub fn from_files(files: Vec<ScannedFile>) -> (index: Self)
        ensures
            index.entries@.len() == kept_files(files@).len(),
            forall|i: int|
                0 <= i < index.entries@.len() ==> entry_from(
                    #[trigger] index.entries@[i],
                    kept_files(files@)[i],
                ),
    {
        let pattern = "_STEP(\\d+)_";
        proof {
            reveal_strlit("_STEP(\\d+)_");
            assert(pattern@ =~= step_pattern());
        }
        let step_regex = match CompiledRegex::compile(pattern) {
            Some(r) => r,
            None => {
                proof {
                    assert(false);
                }
                return CsvScanIndex { entries: Vec::new() };
            },
        };
        let mut entries: Vec<CsvScanEntry> = Vec::new();
        let ghost all = files@;
        for i in 0..files.len()
            invariant
                all == files@,
                step_regex.source_view() == step_pattern(),
                entries@.len() == kept_files(all.take(i as int)).len(),
                forall|k: int|
                    0 <= k < entries@.len() ==> entry_from(
                        #[trigger] entries@[k],
                        kept_files(all.take(i as int))[k],
                    ),
        {
            let f = &files[i];
            proof {
                assert(all.take(i + 1).drop_last() =~= all.take(i as int));
                assert(all.take(i + 1).last() == all[i as int]);
            }
            match &f.file_name {
                Some(name) => {
                    if crate::csv_data::has_csv_extension_exec(name.as_str()) {
                        let step = entry_step(&step_regex, name.as_str());
                        let up = to_ascii_upper(name.as_str());
                        entries.push(
                            CsvScanEntry {
                                path: f.path.clone(),
                                step,
                                file_name: name.clone(),
                                file_name_upper: up,
                                modified: f.modified,
                                created_ms: f.created_ms,
                                readable: f.readable,
                            },
                        );
                    }
                },
                None => {},
            }
        }
        assert(all.take(all.len() as int) =~= all);
        CsvScanIndex { entries }
    }

    pub open spec fn has_step_spec(self, step: u16) -> bool {
        exists|i: int| 0 <= i < self.entries@.len() && #[trigger] self.entries@[i].step == Some(step)
    }

    pub fn has_step(&self, step: u16) -> (b: bool)
        ensures
            b == self.has_step_spec(step),
    {
        for i in 0..self.entries.len()
            invariant
                forall|k: int| 0 <= k < i ==> #[trigger] self.entries@[k].step != Some(step),
        {
            if self.entries[i].step == Some(step) {
                return true;
            }
        }
        false
    }

    /// The steps of the list that some export carries, in the list's order.
    pub fn detected_steps_for_task(&self, steps: &[u16]) -> (out: Vec<u16>)
        ensures
            out@ == steps@.filter_map(|s: u16| if self.has_step_spec(s) { Some(s) } else { None }),
    {
        let mut out: Vec<u16> = Vec::new();
        for i in 0..steps.len()
            invariant
                out@ == steps@.take(i as int).filter_map(
                    |s: u16| if self.has_step_spec(s) { Some(s) } else { None },
                ),
        {
            proof {
                assert(steps@.take(i + 1).drop_last() =~= steps@.take(i as int));
            }
            if self.has_step(steps[i]) {
                out.push(steps[i]);
            }
            proof {
                assert(out@ =~= steps@.take(i + 1).filter_map(
                    |s: u16| if self.has_step_spec(s) { Some(s) } else { None },
                ));
            }
        }
        assert(steps@.take(steps@.len() as int) =~= steps@);
        out
    }

    /// The modification times of the exports of the step (and `None` for the others).
    pub open spec fn step_keys(self, step: u16) -> Seq<Option<i128>> {
        self.entries@.map_values(
            |e: CsvScanEntry| if e.step == Some(step) { Some(e.modified) } else { None },
        )
    }

    /// The newest export of the step (the later one in walk order on a tie).
    pub fn latest_for_step(&self, step: u16) -> (r: Option<&CsvScanEntry>)
        ensures
            match last_max(self.step_keys(step)) {
                Some(i) => r is Some && *r->0 == self.entries@[i],
                None => r is None,
            },
    {
        let mut keys: Vec<Option<i128>> = Vec::new();
        for i in 0..self.entries.len()
            invariant
                keys@ == self.step_keys(step).take(i as int),
        {
            let e = &self.entries[i];
            keys.push(
                if e.step == Some(step) {
                    Some(e.modified)
                } else {
                    None
                },
            );
            proof {
                assert(keys@ =~= self.step_keys(step).take(i + 1));
            }
        }
        assert(keys@ =~= self.step_keys(step));
        match last_max_index(&keys) {
            Some(i) => {
                let e = &self.entries[i];
                assert(self.entries@[i as int] == *e);
                Some(e)
            },
            None => None,
        }
    }

    /// The modification times of the exports of the step whose upper-case name holds every
    /// fragment (in upper case).
    pub open spec fn fragment_keys(self, step: u16, fragments: Seq<Seq<char>>) -> Seq<Option<i128>> {
        self.entries@.map_values(
            |e: CsvScanEntry|
                if e.step == Some(step) && (forall|j: int|
                    0 <= j < fragments.len() ==> contains(
                        e.file_name_upper@,
                        upper(#[trigger] fragments[j]),
                    )) {
                    Some(e.modified)
                } else {
                    None
                },
        )
    }

    fn holds_fragments(e: &CsvScanEntry, fragments: &Vec<String>) -> (b: bool)
        ensures
            b == (forall|j: int|
                0 <= j < fragments@.len() ==> contains(
                    e.file_name_upper@,
                    upper(#[trigger] views(fragments@)[j]),
                )),
    {
        let ghost fs = views(fragments@);
        for j in 0..fragments.len()
            invariant
                fs == views(fragments@),
                forall|k: int| 0 <= k < j ==> contains(e.file_name_upper@, upper(#[trigger] fs[k])),
        {
            let f = to_ascii_upper(fragments[j].as_str());
            assert(fs[j as int] == fragments@[j as int]@);
            if !contains_str(e.file_name_upper.as_str(), f.as_str()) {
                return false;
            }
        }
        true
    }

    /// The newest export of the step whose name holds every required fragment.
    pub fn latest_for_step_fragments(&self, step: u16, required_fragments: &Vec<String>) -> (r:
        Option<&CsvScanEntry>)
        ensures
            match last_max(
                self.fragment_keys(step, views(required_fragments@)),
            ) {
                Some(i) => r is Some && *r->0 == self.entries@[i],
                None => r is None,
            },
    {
        let ghost fs = views(required_fragments@);
        let mut keys: Vec<Option<i128>> = Vec::new();
        for i in 0..self.entries.len()
            invariant
                fs == views(required_fragments@),
                keys@ == self.fragment_keys(step, fs).take(i as int),
        {
            let e = &self.entries[i];
            let key = if e.step == Some(step) && Self::holds_fragments(e, required_fragments) {
                Some(e.modified)
            } else {
                None
            };
            keys.push(key);
            proof {
                assert(keys@ =~= self.fragment_keys(step, fs).take(i + 1));
            }
        }
        assert(keys@ =~= self.fragment_keys(step, fs));
        match last_max_index(&keys) {
            Some(i) => {
                let e = &self.entries[i];
                assert(self.entries@[i as int] == *e);
                Some(e)
            },
            None => None,
        }
    }

    /// The modification times of the exports whose name the compiled pattern matches.
    pub open spec fn pattern_keys(self, source: Seq<char>) -> Seq<Option<i128>> {
        self.entries@.map_values(
            |e: CsvScanEntry|
                if regex_match_result(source, e.file_name@) {
                    Some(e.modified)
                } else {
                    None
                },
        )
    }

    /// The newest export whose name matches a file-name pattern (`*` and `?` wildcards, any
    /// case); `None` for a blank pattern or one that does not compile.
    pub fn latest_by_pattern(&self, pattern: &str) -> (r: Option<&CsvScanEntry>)
        ensures
            if is_blank(pattern@) || !regex_compiles(wildcard_regex(pattern@)) {
                r is None
            } else {
                match last_max(self.pattern_keys(wildcard_regex(pattern@))) {
                    Some(i) => r is Some && *r->0 == self.entries@[i],
                    None => r is None,
                }
            },
    {
        let regex = match wildcard_pattern_to_regex(pattern) {
            Some(r) => r,
            None => {
                return None;
            },
        };
        let ghost source = wildcard_regex(pattern@);
        let mut keys: Vec<Option<i128>> = Vec::new();
        for i in 0..self.entries.len()
            invariant
                regex.source_view() == source,
                keys@ == self.pattern_keys(source).take(i as int),
        {
            let e = &self.entries[i];
            let key = if regex.is_match(e.file_name.as_str()) {
                Some(e.modified)
            } else {
                None
            };
            keys.push(key);
            proof {
                assert(keys@ =~= self.pattern_keys(source).take(i + 1));
            }
        }
        assert(keys@ =~= self.pattern_keys(source));
        match last_max_index(&keys) {
            Some(i) => {
                let e = &self.entries[i];
                assert(self.entries@[i as int] == *e);
                Some(e)
            },
            None => None,
        }
    }

    /// The entry that `latest_for_step` gives, as a position.
    pub open spec fn latest_index(self, step: u16) -> Option<int> {
        last_max(self.step_keys(step))
    }

    /// For each step of the list, the modification time of its newest export.
    pub open spec fn steps_keys(self, steps: Seq<u16>) -> Seq<Option<i128>> {
        steps.map_values(
            |s: u16|
                match self.latest_index(s) {
                    Some(i) => Some(self.entries@[i].modified),
                    None => None,
                },
        )
    }

    /// The newest among the newest exports of each step of the list (the later step on a tie).
    pub fn latest_for_steps(&self, steps: &[u16]) -> (r: Option<&CsvScanEntry>)
        ensures
            match last_max(self.steps_keys(steps@)) {
                Some(k) => r is Some && *r->0 == self.entries@[self.latest_index(steps@[k])->0],
                None => r is None,
            },
    {
        let mut keys: Vec<Option<i128>> = Vec::new();
        let mut found: Vec<Option<&CsvScanEntry>> = Vec::new();
        for i in 0..steps.len()
            invariant
                keys@ == self.steps_keys(steps@).take(i as int),
                found@.len() == i,
                forall|k: int|
                    0 <= k < i ==> match self.latest_index(steps@[k]) {
                        Some(j) => #[trigger] found@[k] is Some && *found@[k]->0 == self.entries@[j],
                        None => found@[k] is None,
                    },
        {
            let latest = self.latest_for_step(steps[i]);
            let key = match latest {
                Some(e) => Some(e.modified),
                None => None,
            };
            keys.push(key);
            found.push(latest);
            proof {
                assert(keys@ =~= self.steps_keys(steps@).take(i + 1));
            }
        }
        assert(keys@ =~= self.steps_keys(steps@));
        match last_max_index(&keys) {
            Some(k) => found[k],
            None => None,
        }
    }

    /// When the timer of a task starts: the start time of the newest export of the first step
    /// of the list that has one with a known start time.
    pub open spec fn timer_start(self, steps: Seq<u16>) -> Option<u64>
        decreases steps.len(),
    {
        if steps.len() == 0 {
            None
        } else {
            match self.latest_index(steps[0]) {
                Some(i) => match self.entries@[i].created_ms {
                    Some(c) => Some(c),
                    None => self.timer_start(steps.drop_first()),
                },
                None => self.timer_start(steps.drop_first()),
            }
        }
    }

    pub fn timer_start_millis_for_steps(&self, steps: &[u16]) -> (r: Option<u64>)
        ensures
            r == self.timer_start(steps@),
    {
        let mut i: usize = 0;
        assert(steps@.skip(0) =~= steps@);
        while i < steps.len()
            invariant
                i <= steps@.len(),
                self.timer_start(steps@) == self.timer_start(steps@.skip(i as int)),
            decreases steps.len() - i,
        {
            let ghost rest = steps@.skip(i as int);
            assert(rest[0] == steps@[i as int]);
            assert(rest.drop_first() =~= steps@.skip(i + 1));
            match self.latest_for_step(steps[i]) {
                Some(e) => {
                    if let Some(c) = e.created_ms {
                        return Some(c);
                    }
                },
                None => {},
            }
            i += 1;
        }
        assert(steps@.skip(i as int).len() == 0);
        None
    }
}

} // verus!
