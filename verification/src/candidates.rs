use vstd::prelude::*;

use crate::patterns::{
    metadata_serial_pattern, regex_captures, regex_compiles, regex_named_group, CompiledRegex,
};
use crate::profile::ReportLayoutProfile;
use crate::select::{first_max, first_max_index};
use crate::text::{concat, opt_view, push_str, str_eq, to_ascii_upper, trim, trim_str, upper, views};

verus! {

/// How a unit's serial number is found: a pattern for the folder name (its `serial` group, else
/// its first group, else the whole match), then metadata files in the folder.
#[derive(Debug, Clone)]
pub struct SerialDetectionRules {
    pub folder_pattern: Option<String>,
    pub metadata_files: Vec<String>,
}

/// `^(?<serial>\d{6,})$`: a folder named by six or more digits.
pub open spec fn fallback_folder_pattern() -> Seq<char> {
    "^(?<serial>\\d{6,})$"@
}

pub open spec fn fallback_metadata_files() -> Seq<Seq<char>> {
    seq!["SN.txt"@, "serial_number.txt"@, "info.txt"@, "metadata.txt"@]
}

impl SerialDetectionRules {
    pub fn fallback() -> (r: Self)
        ensures
            opt_view(r.folder_pattern) == Some(fallback_folder_pattern()),
            views(r.metadata_files@) == fallback_metadata_files(),
    {
        let r = SerialDetectionRules {
            folder_pattern: Some("^(?<serial>\\d{6,})$".to_owned()),
            metadata_files: vec![
                "SN.txt".to_owned(),
                "serial_number.txt".to_owned(),
                "info.txt".to_owned(),
                "metadata.txt".to_owned(),
            ],
        };
        assert(views(r.metadata_files@) =~= fallback_metadata_files());
        r
    }

    /// The profile's rules where it has them (its metadata files, or the usual ones where it
    /// lists none); the usual rules otherwise.
    pub fn from_profile(profile: Option<&ReportLayoutProfile>) -> (r: Self)
        ensures
            match profile {
                Some(p) => match p.serial_number {
                    Some(sn) => opt_view(r.folder_pattern) == Some(sn.folder_pattern@) && views(
                        r.metadata_files@,
                    ) == if sn.metadata_files@.len() == 0 {
                        fallback_metadata_files()
                    } else {
                        views(sn.metadata_files@)
                    },
                    None => opt_view(r.folder_pattern) == Some(fallback_folder_pattern()) && views(
                        r.metadata_files@,
                    ) == fallback_metadata_files(),
                },
                None => opt_view(r.folder_pattern) == Some(fallback_folder_pattern()) && views(
                    r.metadata_files@,
                ) == fallback_metadata_files(),
            },
    {
        let fallback = Self::fallback();
        let p = match profile {
            Some(p) => p,
            None => {
                return fallback;
            },
        };
        let sn = match &p.serial_number {
            Some(sn) => sn,
            None => {
                return fallback;
            },
        };
        let metadata_files = if sn.metadata_files.len() == 0 {
            fallback.metadata_files
        } else {
            crate::processors::copy_strings(&sn.metadata_files)
        };
        SerialDetectionRules { folder_pattern: Some(sn.folder_pattern.clone()), metadata_files }
    }
}

/// A serial number found for a unit folder, with how and where it was found.
#[derive(Debug, Clone)]
pub struct CandidateMatch {
    pub serial_number: String,
    pub detection_reason: String,
    pub detection_source: String,
}

/// The group that names the serial in a folder-name match: the `serial` group, else group 1,
/// else the whole match.
pub open spec fn chosen_group(groups: Seq<Option<Seq<char>>>, named: Option<Seq<char>>) -> Option<Seq<char>> {
    match named {
        Some(n) => Some(n),
        None => if groups.len() > 1 && groups[1] is Some {
            groups[1]
        } else if groups.len() > 0 {
            groups[0]
        } else {
            None
        },
    }
}

/// The serial number in a folder's name (as text, invalid UTF-8 replaced): the chosen group of
/// the folder pattern's match, trimmed and not empty.
pub open spec fn folder_serial(name: Option<Seq<char>>, pattern: Option<Seq<char>>) -> Option<Seq<char>> {
    match (name, pattern) {
        (Some(n), Some(p)) => if !regex_compiles(p) {
            None
        } else {
            match regex_captures(p, n) {
                Some(groups) => match chosen_group(groups, regex_named_group(p, n, "serial"@)) {
                    Some(g) => if trim(g).len() > 0 {
                        Some(trim(g))
                    } else {
                        None
                    },
                    None => None,
                },
                None => None,
            }
        },
        _ => None,
    }
}

pub fn detect_serial_from_folder_name(folder_name: Option<&str>, rules: &SerialDetectionRules) -> (r: Option<
    CandidateMatch,
>)
    ensures
        match folder_serial(
            match folder_name {
                Some(n) => Some(n@),
                None => None,
            },
            opt_view(rules.folder_pattern),
        ) {
            Some(s) => {
                &&& r is Some
                &&& r->0.serial_number@ == s
                &&& r->0.detection_reason@ == "matched layout serial_number.folder_pattern"@
                &&& folder_name is Some
                &&& r->0.detection_source@ == folder_name->0@
            },
            None => r is None,
        },
{
    let name = match folder_name {
        Some(n) => n,
        None => {
            return None;
        },
    };
    let pattern = match &rules.folder_pattern {
        Some(p) => p,
        None => {
            return None;
        },
    };
    let re = match CompiledRegex::compile(pattern.as_str()) {
        Some(r) => r,
        None => {
            return None;
        },
    };
    let (groups, named) = match re.captures(name, "serial") {
        Some(c) => c,
        None => {
            return None;
        },
    };
    let chosen: Option<&String> = match &named {
        Some(n) => Some(n),
        None => if groups.len() > 1 && groups[1].is_some() {
            groups[1].as_ref()
        } else if groups.len() > 0 {
            groups[0].as_ref()
        } else {
            None
        },
    };
    proof {
        assert(crate::patterns::opt_views(groups@).len() == groups@.len());
        if groups@.len() > 1 {
            assert(crate::patterns::opt_views(groups@)[1] == opt_view(groups@[1]));
        }
        if groups@.len() > 0 {
            assert(crate::patterns::opt_views(groups@)[0] == opt_view(groups@[0]));
        }
    }
    let g = match chosen {
        Some(g) => g,
        None => {
            return None;
        },
    };
    let serial = trim_str(g.as_str());
    if serial.as_str().is_empty() {
        return None;
    }
    Some(
        CandidateMatch {
            serial_number: serial,
            detection_reason: "matched layout serial_number.folder_pattern".to_owned(),
            detection_source: name.to_owned(),
        },
    )
}

/// A metadata file of a unit folder: its path as shown, and its text where it is a file that
/// could be read.
#[derive(Debug, Clone)]
pub struct MetadataFile {
    pub path: String,
    pub content: Option<String>,
}

/// The serial number a metadata file states: the first group of the metadata pattern.
pub open spec fn metadata_serial(content: Option<String>) -> Option<Seq<char>> {
    match content {
        Some(c) => match regex_captures(metadata_serial_pattern(), c@) {
            Some(groups) => if groups.len() > 1 {
                groups[1]
            } else {
                None
            },
            None => None,
        },
        None => None,
    }
}

/// The first metadata file, in the rules' order, that states a serial number.
pub open spec fn first_metadata(files: Seq<MetadataFile>, i: int) -> Option<int>
    decreases files.len() - i,
{
    if i < 0 || i >= files.len() {
        None
    } else if metadata_serial(files[i].content) is Some {
        Some(i)
    } else {
        first_metadata(files, i + 1)
    }
}

pub fn detect_serial_from_metadata(files: &Vec<MetadataFile>) -> (r: Option<CandidateMatch>)
    ensures
        match first_metadata(files@, 0) {
            Some(i) => {
                &&& r is Some
                &&& Some(r->0.serial_number@) == metadata_serial(files@[i].content)
                &&& r->0.detection_reason@ == "matched layout serial_number.metadata_files"@
                &&& r->0.detection_source@ == files@[i].path@
            },
            None => r is None,
        },
{
    let re = match CompiledRegex::compile("(?i)(?:sn|serial\\s*number)[:\\s=]*(\\d{6,})") {
        Some(r) => r,
        None => {
            return None;
        },
    };
    for i in 0..files.len()
        invariant
            re.source_view() == metadata_serial_pattern(),
            first_metadata(files@, 0) == first_metadata(files@, i as int),
    {
        let f = &files[i];
        match &f.content {
            Some(content) => {
                match re.captures(content.as_str(), "") {
                    Some((groups, _)) => {
                        if groups.len() > 1 {
                            proof {
                                assert(crate::patterns::opt_views(groups@)[1] == opt_view(groups@[1]));
                            }
                            match &groups[1] {
                                Some(serial) => {
                                    return Some(
                                        CandidateMatch {
                                            serial_number: serial.clone(),
                                            detection_reason: "matched layout serial_number.metadata_files".to_owned(),
                                            detection_source: f.path.clone(),
                                        },
                                    );
                                },
                                None => {},
                            }
                        }
                    },
                    None => {},
                }
            },
            None => {},
        }
    }
    None
}

/// Folders that are never a unit: hidden ones, templates and the shop's shared folders (by
/// name, in any case), and those whose name is not valid UTF-8.
pub open spec fn ignored_folder(name: Option<Seq<char>>) -> bool {
    match name {
        None => true,
        Some(n) => {
            let u = upper(n);
            ||| (u.len() > 0 && u[0] == '.')
            ||| u == "00_TEMPLATE"@
            ||| (u.len() >= 3 && u.take(3) == "00_"@)
            ||| u == "ARCHIVE"@
            ||| u == "CONFIG"@
            ||| u == "RELEASE-SUPPORT"@
            ||| u == "RELEASE_SUPPORT"@
            ||| u == "SHARED"@
        },
    }
}

pub fn is_ignored_folder(name: Option<&str>) -> (b: bool)
    ensures
        b == ignored_folder(
            match name {
                Some(n) => Some(n@),
                None => None,
            },
        ),
{
    let n = match name {
        Some(n) => n,
        None => {
            return true;
        },
    };
    let u = to_ascii_upper(n);
    let cs = crate::text::chars_of(u.as_str());
    proof {
        reveal_strlit("00_");
    }
    let prefix = cs.len() >= 3 && cs[0] == '0' && cs[1] == '0' && cs[2] == '_';
    assert(prefix == (u@.len() >= 3 && u@.take(3) == "00_"@)) by {
        if u@.len() >= 3 && u@.take(3) == "00_"@ {
            assert(u@[0] == u@.take(3)[0]);
            assert(u@[1] == u@.take(3)[1]);
            assert(u@[2] == u@.take(3)[2]);
        }
        if prefix {
            assert(u@.take(3) =~= "00_"@);
        }
    }
    let s = u.as_str();
    (cs.len() > 0 && cs[0] == '.') || str_eq(s, "00_TEMPLATE") || prefix || str_eq(s, "ARCHIVE")
        || str_eq(s, "CONFIG") || str_eq(s, "RELEASE-SUPPORT") || str_eq(s, "RELEASE_SUPPORT") || str_eq(
        s,
        "SHARED",
    )
}

/// Paths each kept once, compared without regard to ASCII case; the first of a kind stays.
pub open spec fn deduped(paths: Seq<Seq<char>>) -> Seq<Seq<char>>
    decreases paths.len(),
{
    if paths.len() == 0 {
        seq![]
    } else {
        let d = deduped(paths.drop_last());
        if d.map_values(|p: Seq<char>| lower_key(p)).contains(lower_key(paths.last())) {
            d
        } else {
            d.push(paths.last())
        }
    }
}

/// A path compared without regard to ASCII case.
pub open spec fn lower_key(p: Seq<char>) -> Seq<char> {
    crate::report_paths::lower(p)
}

fn lower_string(s: &str) -> (out: String)
    ensures
        out@ == lower_key(s@),
{
    let cs = crate::text::chars_of(s);
    let mut out = String::new();
    for i in 0..cs.len()
        invariant
            cs@ == s@,
            out@ == crate::report_paths::lower(s@.take(i as int)),
    {
        let c = cs[i];
        let l = if 'A' <= c && c <= 'Z' {
            ((c as u32) + 32) as u8 as char
        } else {
            c
        };
        out.push(l);
        proof {
            assert(crate::report_paths::lower(s@.take(i + 1)) =~= crate::report_paths::lower(
                s@.take(i as int),
            ).push(crate::report_paths::ascii_lower(s@[i as int])));
        }
    }
    assert(s@.take(s@.len() as int) =~= s@);
    out
}

pub fn dedupe_paths(paths: Vec<String>) -> (out: Vec<String>)
    ensures
        views(out@) == deduped(views(paths@)),
{
    let ghost all = views(paths@);
    let mut out: Vec<String> = Vec::new();
    let mut keys: Vec<String> = Vec::new();
    for i in 0..paths.len()
        invariant
            all == views(paths@),
            views(out@) == deduped(all.take(i as int)),
            views(keys@) == views(out@).map_values(|p: Seq<char>| lower_key(p)),
    {
        let p = &paths[i];
        proof {
            assert(all[i as int] == p@);
            assert(all.take(i + 1).drop_last() =~= all.take(i as int));
        }
        let key = lower_string(p.as_str());
        let mut seen = false;
        for k in 0..keys.len()
            invariant
                seen == exists|j: int| 0 <= j < k && #[trigger] keys@[j]@ == key@,
        {
            if str_eq(keys[k].as_str(), key.as_str()) {
                seen = true;
            }
        }
        proof {
            assert(seen == views(keys@).contains(key@)) by {
                if seen {
                    let j = choose|j: int| 0 <= j < keys@.len() && #[trigger] keys@[j]@ == key@;
                    assert(views(keys@)[j] == key@);
                }
                if views(keys@).contains(key@) {
                    let j = choose|j: int| 0 <= j < views(keys@).len() && views(keys@)[j] == key@;
                    assert(keys@[j]@ == key@);
                }
            }
        }
        if !seen {
            let ghost before_out = views(out@);
            let ghost before_keys = views(keys@);
            keys.push(key);
            out.push(p.clone());
            proof {
                assert(views(out@) =~= before_out.push(all[i as int]));
                assert(views(keys@) =~= before_keys.push(lower_key(all[i as int])));
                assert(views(keys@) =~= views(out@).map_values(|q: Seq<char>| lower_key(q)));
            }
        }
    }
    assert(all.take(paths@.len() as int) =~= all);
    out
}

/// The parent of a path, as `std::path::Path::parent` gives it (shown as text).
pub uninterp spec fn path_parent(path: Seq<char>) -> Option<Seq<char>>;

/// `std::path::Path::parent`, shown with `Path::display`. The contract names the result: the
/// parent is a function of the path's text alone.
#[verifier::external_body]
fn parent_of(path: &str) -> (r: Option<String>)
    ensures
        opt_view(r) == path_parent(path@),
{
    match std::path::Path::new(path).parent() {
        Some(parent) => Some(parent.display().to_string()),
        None => None,
    }
}

/// The roots searched for unit folders: the folder that holds the profile's template root.
pub open spec fn candidate_roots_of(profile: ReportLayoutProfile) -> Seq<Seq<char>> {
    match path_parent(profile.templates.default_template_root@) {
        Some(parent) => deduped(seq![parent]),
        None => seq![],
    }
}

pub fn candidate_roots(profile: &ReportLayoutProfile) -> (roots: Vec<String>)
    ensures
        views(roots@) == candidate_roots_of(*profile),
{
    let mut roots: Vec<String> = Vec::new();
    match parent_of(profile.templates.default_template_root.as_str()) {
        Some(parent) => {
            roots.push(parent);
            assert(views(roots@) =~= seq![roots@[0]@]);
        },
        None => {},
    }
    let out = dedupe_paths(roots);
    proof {
        if path_parent(profile.templates.default_template_root@) is None {
            assert(views(Seq::<String>::empty()) =~= Seq::<Seq<char>>::empty());
        }
    }
    out
}

/// The creation and modification times of a folder, in nanoseconds from the Unix epoch (before
/// it where negative), each where the platform reports it.
#[derive(Debug, Clone)]
pub struct FolderTimes {
    pub created: Option<i128>,
    pub modified: Option<i128>,
}

/// The time a folder is ordered by: the later of its creation and modification times, where
/// either is known.
pub open spec fn sort_time_of(created: Option<i128>, modified: Option<i128>) -> Option<i128> {
    match (created, modified) {
        (Some(c), Some(m)) => Some(if c >= m { c } else { m }),
        (Some(c), None) => Some(c),
        (None, Some(m)) => Some(m),
        (None, None) => None,
    }
}

pub fn folder_sort_time(created: Option<i128>, modified: Option<i128>) -> (r: Option<i128>)
    ensures
        r == sort_time_of(created, modified),
{
    match (created, modified) {
        (Some(c), Some(m)) => Some(if c >= m { c } else { m }),
        (Some(c), None) => Some(c),
        (None, Some(m)) => Some(m),
        (None, None) => None,
    }
}

/// Whole milliseconds since the Unix epoch, where the time is not before it and they fit in
/// a `u64`.
pub open spec fn millis_of(nanos: i128) -> Option<u64> {
    if nanos < 0 {
        None
    } else if nanos / 1_000_000 <= u64::MAX {
        Some((nanos / 1_000_000) as u64)
    } else {
        None
    }
}

pub fn system_time_millis(nanos: i128) -> (r: Option<u64>)
    ensures
        r == millis_of(nanos),
{
    if nanos < 0 {
        return None;
    }
    let millis = nanos / 1_000_000;
    if millis <= u64::MAX as i128 {
        Some(millis as u64)
    } else {
        None
    }
}

/// An entry of a searched root, as the file system showed it.
#[derive(Debug, Clone)]
pub struct UnitFolderScan {
    /// The entry's path, as shown.
    pub path: String,
    /// The entry's own name, where it is valid UTF-8.
    pub name: Option<String>,
    pub is_dir: bool,
    /// The rules' metadata files under the entry, in the rules' order.
    pub metadata_files: Vec<MetadataFile>,
    /// The entry's times, where its metadata could be read.
    pub times: Option<FolderTimes>,
}

/// What listing a root gave.
#[derive(Debug, Clone)]
pub enum RootListing {
    Missing,
    Unreadable,
    Entries(Vec<UnitFolderScan>),
}

#[derive(Debug, Clone)]
pub struct RootScan {
    /// The root's path, as shown.
    pub path: String,
    pub listing: RootListing,
}

/// A suggested unit: the newest folder under the searched roots whose serial number is known.
#[derive(Debug, Clone)]
pub struct UnitCandidate {
    pub serial_number: String,
    pub serial_label: String,
    pub unit_folder: String,
    pub detection_reason: String,
    pub detection_source: String,
    pub timestamp_ms: Option<u64>,
}

#[derive(Debug, Clone)]
pub struct LatestUnitCandidateResult {
    pub candidate: Option<UnitCandidate>,
    pub searched_roots: Vec<String>,
    pub warnings: Vec<String>,
}

pub open spec fn name_view(name: Option<String>) -> Option<Seq<char>> {
    opt_view(name)
}

/// The serial number of a folder, with why and from what it was found: its name first, then
/// its metadata files.
pub open spec fn unit_match(f: UnitFolderScan, rules: SerialDetectionRules) -> Option<MatchView> {
    match folder_serial(name_view(f.name), opt_view(rules.folder_pattern)) {
        Some(s) => Some(
            MatchView {
                serial: s,
                reason: "matched layout serial_number.folder_pattern"@,
                source: f.name->0@,
            },
        ),
        None => match first_metadata(f.metadata_files@, 0) {
            Some(i) => Some(
                MatchView {
                    serial: metadata_serial(f.metadata_files@[i].content)->0,
                    reason: "matched layout serial_number.metadata_files"@,
                    source: f.metadata_files@[i].path@,
                },
            ),
            None => None,
        },
    }
}

/// A found serial number, with why and from what it was found.
pub ghost struct MatchView {
    pub serial: Seq<char>,
    pub reason: Seq<char>,
    pub source: Seq<char>,
}

pub open spec fn match_view(m: CandidateMatch) -> MatchView {
    MatchView { serial: m.serial_number@, reason: m.detection_reason@, source: m.detection_source@ }
}

pub fn detect_unit_serial(folder: &UnitFolderScan, rules: &SerialDetectionRules) -> (r: Option<
    CandidateMatch,
>)
    ensures
        match unit_match(*folder, *rules) {
            Some(m) => r is Some && match_view(r->0) == m,
            None => r is None,
        },
{
    let name: Option<&str> = match &folder.name {
        Some(n) => Some(n.as_str()),
        None => None,
    };
    match detect_serial_from_folder_name(name, rules) {
        Some(m) => Some(m),
        None => detect_serial_from_metadata(&folder.metadata_files),
    }
}

/// The time a folder is ordered by, the Unix epoch where neither time is known.
pub open spec fn sort_key(t: FolderTimes) -> i128 {
    match sort_time_of(t.created, t.modified) {
        Some(k) => k,
        None => 0,
    }
}

/// A folder's place in the search: its sort time where it is a unit folder with a known
/// serial number and readable times; `None` where it is passed over.
pub open spec fn folder_key(f: UnitFolderScan, rules: SerialDetectionRules) -> Option<i128> {
    if f.is_dir && !ignored_folder(name_view(f.name)) && unit_match(f, rules) is Some
        && f.times is Some {
        Some(sort_key(f.times->0))
    } else {
        None
    }
}

pub open spec fn root_folders(r: RootScan) -> Seq<UnitFolderScan> {
    match r.listing {
        RootListing::Entries(v) => v@,
        _ => seq![],
    }
}

/// The entries of all roots, root after root.
pub open spec fn all_folders(roots: Seq<RootScan>) -> Seq<UnitFolderScan>
    decreases roots.len(),
{
    if roots.len() == 0 {
        seq![]
    } else {
        all_folders(roots.drop_last()) + root_folders(roots.last())
    }
}

pub open spec fn folder_keys(folders: Seq<UnitFolderScan>, rules: SerialDetectionRules) -> Seq<
    Option<i128>,
> {
    folders.map_values(|f: UnitFolderScan| folder_key(f, rules))
}

pub open spec fn root_warning(r: RootScan) -> Seq<Seq<char>> {
    match r.listing {
        RootListing::Missing => seq!["unit suggestion root not found: "@ + r.path@],
        RootListing::Unreadable => seq!["unit suggestion root could not be read: "@ + r.path@],
        RootListing::Entries(_) => seq![],
    }
}

/// A warning for each root that is missing or could not be listed, in order.
pub open spec fn root_warnings(roots: Seq<RootScan>) -> Seq<Seq<char>>
    decreases roots.len(),
{
    if roots.len() == 0 {
        seq![]
    } else {
        root_warnings(roots.drop_last()) + root_warning(roots.last())
    }
}

/// The candidate a unit folder gives.
pub open spec fn is_candidate_for(c: UnitCandidate, f: UnitFolderScan, rules: SerialDetectionRules) -> bool {
    let m = unit_match(f, rules)->0;
    &&& c.serial_number@ == m.serial
    &&& c.serial_label@ == "SN "@ + m.serial
    &&& c.unit_folder@ == f.path@
    &&& c.detection_reason@ == m.reason
    &&& c.detection_source@ == m.source
    &&& c.timestamp_ms == millis_of(sort_key(f.times->0))
}

fn candidate_for(folder: &UnitFolderScan, m: CandidateMatch, times: &FolderTimes, Ghost(
    rules,
): Ghost<SerialDetectionRules>) -> (c: UnitCandidate)
    requires
        unit_match(*folder, rules) is Some,
        folder.times == Some(*times),
        unit_match(*folder, rules) == Some(match_view(m)),
    ensures
        is_candidate_for(c, *folder, rules),
{
    let sort_time = match folder_sort_time(times.created, times.modified) {
        Some(t) => t,
        None => 0,
    };
    let label = concat("SN ", m.serial_number.as_str());
    UnitCandidate {
        serial_label: label,
        serial_number: m.serial_number,
        unit_folder: folder.path.clone(),
        detection_reason: m.detection_reason,
        detection_source: m.detection_source,
        timestamp_ms: system_time_millis(sort_time),
    }
}

proof fn lemma_all_folders_step(roots: Seq<RootScan>, i: int)
    requires
        0 <= i < roots.len(),
    ensures
        all_folders(roots.take(i + 1)) == all_folders(roots.take(i)) + root_folders(roots[i]),
        root_warnings(roots.take(i + 1)) == root_warnings(roots.take(i)) + root_warning(roots[i]),
{
    assert(roots.take(i + 1).drop_last() =~= roots.take(i));
}

/// The newest unit folder under the roots (by the later of its creation and modification
/// times, the first found on a tie), with the roots searched and a warning for each root that
/// is missing or could not be listed, after the given warnings.
pub fn latest_unit_candidate_in_roots(
    roots: &Vec<RootScan>,
    rules: &SerialDetectionRules,
    warnings: Vec<String>,
) -> (r: LatestUnitCandidateResult)
    ensures
        views(r.searched_roots@) == roots@.map_values(|s: RootScan| s.path@),
        views(r.warnings@) == views(warnings@) + root_warnings(roots@),
        match first_max(folder_keys(all_folders(roots@), *rules)) {
            Some(j) => r.candidate is Some && is_candidate_for(
                r.candidate->0,
                all_folders(roots@)[j],
                *rules,
            ),
            None => r.candidate is None,
        },
{
    let ghost given = views(warnings@);
    let mut warnings = warnings;
    let mut searched: Vec<String> = Vec::new();
    let mut keys: Vec<Option<i128>> = Vec::new();
    let mut found: Vec<Option<UnitCandidate>> = Vec::new();
    for i in 0..roots.len()
        invariant
            views(searched@) == roots@.take(i as int).map_values(|s: RootScan| s.path@),
            views(warnings@) == given + root_warnings(roots@.take(i as int)),
            keys@ == folder_keys(all_folders(roots@.take(i as int)), *rules),
            found@.len() == keys@.len(),
            forall|j: int|
                0 <= j < keys@.len() && #[trigger] keys@[j] is Some ==> found@[j] is Some
                    && is_candidate_for(found@[j]->0, all_folders(roots@.take(i as int))[j], *rules),
    {
        let root = &roots[i];
        proof {
            lemma_all_folders_step(roots@, i as int);
        }
        let ghost before = all_folders(roots@.take(i as int));
        let ghost before_searched = views(searched@);
        searched.push(root.path.clone());
        assert(views(searched@) =~= roots@.take(i + 1).map_values(|s: RootScan| s.path@)) by {
            assert(views(searched@) =~= before_searched.push(root.path@));
        }
        match &root.listing {
            RootListing::Missing => {
                let ghost w = views(warnings@);
                warnings.push(concat("unit suggestion root not found: ", root.path.as_str()));
                assert(views(warnings@) =~= w + root_warning(*root));
                assert(before + root_folders(*root) =~= before);
            },
            RootListing::Unreadable => {
                let ghost w = views(warnings@);
                warnings.push(concat("unit suggestion root could not be read: ", root.path.as_str()));
                assert(views(warnings@) =~= w + root_warning(*root));
                assert(before + root_folders(*root) =~= before);
            },
            RootListing::Entries(entries) => {
                assert(root_warning(*root) =~= Seq::<Seq<char>>::empty());
                assert(views(warnings@) =~= views(warnings@) + root_warning(*root));
                for k in 0..entries.len()
                    invariant
                        root_folders(*root) == entries@,
                        keys@ == folder_keys(before + entries@.take(k as int), *rules),
                        found@.len() == keys@.len(),
                        forall|j: int|
                            0 <= j < keys@.len() && #[trigger] keys@[j] is Some ==> found@[j] is Some
                                && is_candidate_for(
                                found@[j]->0,
                                (before + entries@.take(k as int))[j],
                                *rules,
                            ),
                {
                    let f = &entries[k];
                    let ghost prev = before + entries@.take(k as int);
                    assert(before + entries@.take(k + 1) =~= prev.push(*f));
                    let name: Option<&str> = match &f.name {
                        Some(n) => Some(n.as_str()),
                        None => None,
                    };
                    let mut key: Option<i128> = None;
                    let mut cand: Option<UnitCandidate> = None;
                    if f.is_dir && !is_ignored_folder(name) {
                        match detect_unit_serial(f, rules) {
                            Some(m) => {
                                match &f.times {
                                    Some(t) => {
                                        let c = candidate_for(f, m, t, Ghost(*rules));
                                        key = Some(
                                            match folder_sort_time(t.created, t.modified) {
                                                Some(v) => v,
                                                None => 0,
                                            },
                                        );
                                        cand = Some(c);
                                    },
                                    None => {},
                                }
                            },
                            None => {},
                        }
                    }
                    assert(key == folder_key(*f, *rules));
                    keys.push(key);
                    found.push(cand);
                    assert(keys@ =~= folder_keys(before + entries@.take(k + 1), *rules));
                }
                assert(entries@.take(entries@.len() as int) =~= entries@);
            },
        }
    }
    assert(roots@.take(roots@.len() as int) =~= roots@);
    let candidate = match first_max_index(&keys) {
        Some(j) => found.remove(j),
        None => None,
    };
    LatestUnitCandidateResult { candidate, searched_roots: searched, warnings }
}

/// The result when the layout profile could not be loaded: no candidate, no root searched, and
/// a warning that names the error.
pub fn profile_load_failure(error: &str) -> (r: LatestUnitCandidateResult)
    ensures
        r.candidate is None,
        r.searched_roots@.len() == 0,
        views(r.warnings@) == seq!["layout profile could not be loaded for unit suggestion: "@ + error@],
{
    let w = concat("layout profile could not be loaded for unit suggestion: ", error);
    let warnings = vec![w];
    assert(views(warnings@) =~= seq![w@]);
    LatestUnitCandidateResult { candidate: None, searched_roots: Vec::new(), warnings }
}

/// The suggested unit folder is the newest of those that count: no folder of the search that
/// counts has a later time, and none found before it has the same time.
pub proof fn law_suggestion_is_the_newest_unit(roots: Seq<RootScan>, rules: SerialDetectionRules, j: int)
    requires
        first_max(folder_keys(all_folders(roots), rules)) == Some(j),
    ensures
        0 <= j < all_folders(roots).len(),
        folder_key(all_folders(roots)[j], rules) is Some,
        forall|i: int|
            0 <= i < all_folders(roots).len() && #[trigger] folder_key(all_folders(roots)[i], rules) is Some
                ==> sort_key(all_folders(roots)[i].times->0) <= sort_key(all_folders(roots)[j].times->0),
        forall|i: int|
            0 <= i < j && #[trigger] folder_key(all_folders(roots)[i], rules) is Some ==> sort_key(
                all_folders(roots)[i].times->0,
            ) < sort_key(all_folders(roots)[j].times->0),
{
    let folders = all_folders(roots);
    let keys = folder_keys(folders, rules);
    let c = choose|i: int| crate::select::is_first_max(keys, i);
    assert(crate::select::is_first_max(keys, j));
    assert forall|i: int|
        0 <= i < folders.len() && #[trigger] folder_key(folders[i], rules) is Some implies sort_key(
            folders[i].times->0,
        ) <= sort_key(folders[j].times->0) by {
        assert(keys[i] is Some);
    }
    assert forall|i: int| 0 <= i < j && #[trigger] folder_key(folders[i], rules) is Some implies sort_key(
        folders[i].times->0,
    ) < sort_key(folders[j].times->0) by {
        assert(keys[i] is Some);
    }
}

/// Where some folder of the search counts (a folder, not passed over, with a serial number and
/// readable times), a unit is suggested.
pub proof fn law_a_counting_folder_gives_a_suggestion(roots: Seq<RootScan>, rules: SerialDetectionRules, i: int)
    requires
        0 <= i < all_folders(roots).len(),
        all_folders(roots)[i].is_dir,
        !ignored_folder(name_view(all_folders(roots)[i].name)),
        unit_match(all_folders(roots)[i], rules) is Some,
        all_folders(roots)[i].times is Some,
    ensures
        first_max(folder_keys(all_folders(roots), rules)) is Some,
{
    let keys = folder_keys(all_folders(roots), rules);
    assert(keys[i] is Some);
    crate::select::lemma_first_max_exists(keys);
}

/// The paths as compared without regard to ASCII case.
pub open spec fn key_list(paths: Seq<Seq<char>>) -> Seq<Seq<char>> {
    paths.map_values(|p: Seq<char>| lower_key(p))
}

/// After deduplication no two paths are the same but for ASCII case, and every path given is
/// kept or met by one that is.
pub proof fn law_deduped_paths_are_distinct(paths: Seq<Seq<char>>)
    ensures
        forall|i: int, j: int|
            0 <= i < j < deduped(paths).len() ==> lower_key(#[trigger] deduped(paths)[i]) != lower_key(
                #[trigger] deduped(paths)[j],
            ),
        forall|k: int|
            0 <= k < paths.len() ==> key_list(deduped(paths)).contains(#[trigger] lower_key(paths[k])),
    decreases paths.len(),
{
    if paths.len() > 0 {
        let rest = paths.drop_last();
        law_deduped_paths_are_distinct(rest);
        let d = deduped(rest);
        let keys = key_list(d);
        let last = paths.last();
        if !keys.contains(lower_key(last)) {
            let e = d.push(last);
            assert(deduped(paths) == e);
            assert forall|i: int, j: int| 0 <= i < j < e.len() implies lower_key(#[trigger] e[i]) != lower_key(
                #[trigger] e[j],
            ) by {
                if j == e.len() - 1 {
                    assert(keys[i] == lower_key(d[i]));
                } else {
                    assert(e[i] == d[i] && e[j] == d[j]);
                }
            }
            let ekeys = key_list(e);
            assert forall|k: int| 0 <= k < paths.len() implies ekeys.contains(#[trigger] lower_key(paths[k])) by {
                if k == paths.len() - 1 {
                    assert(ekeys[e.len() - 1] == lower_key(last));
                } else {
                    assert(rest[k] == paths[k]);
                    assert(keys.contains(lower_key(rest[k])));
                    let m = choose|m: int| 0 <= m < keys.len() && keys[m] == lower_key(rest[k]);
                    assert(ekeys[m] == keys[m]);
                }
            }
        } else {
            assert(deduped(paths) == d);
            assert forall|k: int| 0 <= k < paths.len() implies keys.contains(#[trigger] lower_key(paths[k])) by {
                if k < paths.len() - 1 {
                    assert(rest[k] == paths[k]);
                }
            }
        }
    }
}

} // verus!
