use vstd::prelude::*;

use crate::reports::{CellUpdate, CellValue, ReportError};
use crate::sheet_xml::{
    cell_parts, cell_text_of, sheet_cell_text, expand_shared_formulas, expanded_sheet, force_full_recalculation, patch_cell_xml,
    patched_sheet, recalc_forced, remove_calc_chain_content_type, remove_calc_chain_relationship,
    sheet_paths_by_name, sheet_paths_spec, text_map_view,
};
use crate::str_map::StrMap;
use crate::text::{opt_view, str_eq};
use vstd::utf8::{decode_utf8, valid_utf8};

verus! {

/// A file of an xlsx package as read from the archive.
pub struct ZipEntry {
    pub name: String,
    pub is_dir: bool,
    pub data: Vec<u8>,
}

/// What reading a part of the package as text gives.
pub ghost enum PartRead {
    Text(Seq<char>),
    Missing,
    NotUtf8,
}

/// The first entry at or after `i` with the given name.
pub open spec fn entry_index_from(entries: Seq<ZipEntry>, name: Seq<char>, i: int) -> Option<int>
    decreases entries.len() - i,
{
    if i < 0 || i >= entries.len() {
        None
    } else if entries[i].name@ == name {
        Some(i)
    } else {
        entry_index_from(entries, name, i + 1)
    }
}

/// The first entry of the name, read as UTF-8.
pub open spec fn part_read(entries: Seq<ZipEntry>, name: Seq<char>) -> PartRead {
    match entry_index_from(entries, name, 0) {
        None => PartRead::Missing,
        Some(k) => if valid_utf8(entries[k].data@) {
            PartRead::Text(decode_utf8(entries[k].data@))
        } else {
            PartRead::NotUtf8
        },
    }
}

/// `String::from_utf8`: the text of bytes that are valid UTF-8, and nothing otherwise.
#[verifier::external_body]
fn utf8_text(data: &Vec<u8>) -> (r: Option<String>)
    ensures
        r is Some <==> valid_utf8(data@),
        r matches Some(s) ==> s@ == decode_utf8(data@),
{
    String::from_utf8(data.clone()).ok()
}

/// The text of a part of the package.
pub fn entry_text(entries: &Vec<ZipEntry>, name: &str) -> (r: Result<String, ReportError>)
    ensures
        match part_read(entries@, name@) {
            PartRead::Text(t) => r matches Ok(s) && s@ == t,
            PartRead::Missing => r matches Err(ReportError::WorkbookPartMissing(n)) && n@ == name@,
            PartRead::NotUtf8 => r matches Err(ReportError::InvalidUtf8(n)) && n@ == name@,
        },
{
    let mut i: usize = 0;
    while i < entries.len()
        invariant
            i <= entries@.len(),
            entry_index_from(entries@, name@, 0) == entry_index_from(entries@, name@, i as int),
        decreases entries.len() - i,
    {
        if str_eq(entries[i].name.as_str(), name) {
            return match utf8_text(&entries[i].data) {
                Some(s) => Ok(s),
                None => Err(ReportError::InvalidUtf8(name.to_owned())),
            };
        }
        i += 1;
    }
    Err(ReportError::WorkbookPartMissing(name.to_owned()))
}

/// What patching a worksheet with updates one after another gives.
pub ghost enum PatchOutcome {
    Done(Seq<char>),
    BadCell(Seq<char>),
    NoSheetData,
}

/// The updates applied in order; the first that fails stops the rest.
pub open spec fn patch_fold(xml: Seq<char>, ups: Seq<CellUpdate>) -> PatchOutcome
    decreases ups.len(),
{
    if ups.len() == 0 {
        PatchOutcome::Done(xml)
    } else {
        match patch_fold(xml, ups.drop_last()) {
            PatchOutcome::Done(x) => {
                let u = ups.last();
                match cell_parts(u.cell@) {
                    None => PatchOutcome::BadCell(u.cell@),
                    Some(_) => match patched_sheet(x, u.cell@, u.value) {
                        Some(y) => PatchOutcome::Done(y),
                        None => PatchOutcome::NoSheetData,
                    },
                }
            },
            other => other,
        }
    }
}

pub open spec fn patch_error(e: ReportError, sheet: Seq<char>, o: PatchOutcome) -> bool {
    match o {
        PatchOutcome::Done(_) => false,
        PatchOutcome::BadCell(c) => e matches ReportError::InvalidCell(x) && x@ == c,
        PatchOutcome::NoSheetData => e matches ReportError::SheetDataMissing(x) && x@ == sheet,
    }
}

/// A worksheet's XML with its shared formulas written out and the updates applied in order.
pub fn patch_sheet_text(xml: &str, sheet_name: &str, updates: &Vec<CellUpdate>, which: &Vec<usize>) -> (r: Result<
    String,
    ReportError,
>)
    requires
        forall|k: int| 0 <= k < which@.len() ==> #[trigger] which@[k] < updates@.len(),
    ensures
        match patch_fold(expanded_sheet(xml@), which@.map_values(|k: usize| updates@[k as int])) {
            PatchOutcome::Done(t) => r matches Ok(s) && s@ == t,
            o => r matches Err(e) && patch_error(e, sheet_name@, o),
        },
{
    let ghost ups = which@.map_values(|k: usize| updates@[k as int]);
    let mut text = expand_shared_formulas(xml);
    assert(ups.take(0) =~= Seq::<CellUpdate>::empty());
    for j in 0..which.len()
        invariant
            ups == which@.map_values(|k: usize| updates@[k as int]),
            forall|k: int| 0 <= k < which@.len() ==> #[trigger] which@[k] < updates@.len(),
            patch_fold(expanded_sheet(xml@), ups.take(j as int)) == PatchOutcome::Done(text@),
    {
        let u = &updates[which[j]];
        proof {
            assert(ups.take(j + 1).drop_last() =~= ups.take(j as int));
            assert(ups.take(j + 1).last() == *u);
        }
        match patch_cell_xml(text.as_str(), sheet_name, u.cell.as_str(), &u.value) {
            Ok(t) => {
                text = t;
            },
            Err(e) => {
                proof {
                    lemma_patch_fold_stops(expanded_sheet(xml@), ups, j + 1);
                }
                return Err(e);
            },
        }
    }
    assert(ups.take(which@.len() as int) =~= ups);
    Ok(text)
}

/// Once the fold fails on a prefix, it fails the same way on the whole.
proof fn lemma_patch_fold_stops(xml: Seq<char>, ups: Seq<CellUpdate>, i: int)
    requires
        0 <= i <= ups.len(),
        !(patch_fold(xml, ups.take(i)) is Done),
    ensures
        patch_fold(xml, ups) == patch_fold(xml, ups.take(i)),
    decreases ups.len() - i,
{
    if i < ups.len() {
        assert(ups.take(i + 1).drop_last() =~= ups.take(i));
        lemma_patch_fold_stops(xml, ups, i + 1);
    } else {
        assert(ups.take(i) =~= ups);
    }
}

/// The updates grouped by sheet name: each sheet once, in the order it first occurs, with the
/// positions of its updates in order.
pub open spec fn sheet_groups(ups: Seq<CellUpdate>) -> Seq<(Seq<char>, Seq<int>)>
    decreases ups.len(),
{
    if ups.len() == 0 {
        seq![]
    } else {
        let g = sheet_groups(ups.drop_last());
        let i = ups.len() - 1;
        match group_index(g, ups.last().sheet@, 0) {
            Some(k) => g.update(k, (g[k].0, g[k].1.push(i))),
            None => g.push((ups.last().sheet@, seq![i])),
        }
    }
}

/// The first group at or after `k` with the given name.
pub open spec fn group_index(g: Seq<(Seq<char>, Seq<int>)>, name: Seq<char>, k: int) -> Option<int>
    decreases g.len() - k,
{
    if k < 0 || k >= g.len() {
        None
    } else if g[k].0 == name {
        Some(k)
    } else {
        group_index(g, name, k + 1)
    }
}

pub open spec fn groups_view(g: Seq<(String, Vec<usize>)>) -> Seq<(Seq<char>, Seq<int>)> {
    g.map_values(|x: (String, Vec<usize>)| (x.0@, x.1@.map_values(|k: usize| k as int)))
}

proof fn lemma_group_index(g: Seq<(Seq<char>, Seq<int>)>, name: Seq<char>, k: int)
    requires
        0 <= k,
    ensures
        match group_index(g, name, k) {
            Some(j) => k <= j < g.len() && g[j].0 == name,
            None => forall|j: int| k <= j < g.len() ==> g[j].0 != name,
        },
    decreases g.len() - k,
{
    if k < g.len() && g[k].0 != name {
        lemma_group_index(g, name, k + 1);
    }
}

pub fn group_updates(updates: &Vec<CellUpdate>) -> (g: Vec<(String, Vec<usize>)>)
    ensures
        groups_view(g@) == sheet_groups(updates@),
        forall|a: int, k: int|
            0 <= a < g@.len() && 0 <= k < g@[a].1@.len() ==> #[trigger] g@[a].1@[k] < updates@.len(),
{
    let mut g: Vec<(String, Vec<usize>)> = Vec::new();
    assert(updates@.take(0) =~= Seq::<CellUpdate>::empty());
    assert(groups_view(g@) =~= sheet_groups(updates@.take(0)));
    for i in 0..updates.len()
        invariant
            groups_view(g@) == sheet_groups(updates@.take(i as int)),
            forall|a: int, k: int| 0 <= a < g@.len() && 0 <= k < g@[a].1@.len() ==> #[trigger] g@[a].1@[k] < i,
    {
        let name = &updates[i].sheet;
        proof {
            assert(updates@.take(i + 1).drop_last() =~= updates@.take(i as int));
            assert(updates@.take(i + 1).last() == updates@[i as int]);
            lemma_group_index(groups_view(g@), name@, 0);
        }
        let ghost gv = groups_view(g@);
        let mut k: usize = 0;
        while k < g.len() && !str_eq(g[k].0.as_str(), name.as_str())
            invariant
                k <= g@.len(),
                gv == groups_view(g@),
                group_index(gv, name@, 0) == group_index(gv, name@, k as int),
            decreases g.len() - k,
        {
            assert(gv[k as int].0 == g@[k as int].0@);
            k += 1;
        }
        if k < g.len() {
            assert(gv[k as int].0 == name@);
            let ghost before = g@;
            let mut entry = g.remove(k);
            entry.1.push(i);
            g.insert(k, entry);
            proof {
                assert(groups_view(g@) =~= gv.update(k as int, (gv[k as int].0, gv[k as int].1.push(i as int))))
                    by {
                    assert forall|a: int| 0 <= a < g@.len() implies #[trigger] groups_view(g@)[a] == gv.update(
                        k as int,
                        (gv[k as int].0, gv[k as int].1.push(i as int)),
                    )[a] by {
                        if a == k {
                            assert(g@[a].1@.map_values(|x: usize| x as int) =~= before[a].1@.map_values(
                                |x: usize| x as int,
                            ).push(i as int));
                        }
                    }
                }
            }
        } else {
            let ghost before = g@;
            let mut idx: Vec<usize> = Vec::new();
            idx.push(i);
            g.push((name.clone(), idx));
            proof {
                assert(g@.last().1@.map_values(|x: usize| x as int) =~= seq![i as int]);
                assert(groups_view(g@) =~= gv.push((name@, seq![i as int])));
            }
        }
    }
    assert(updates@.take(updates@.len() as int) =~= updates@);
    g
}

/// The group the sheet at `path` gets: the last group whose sheet lives there.
pub open spec fn group_for_path(
    g: Seq<(Seq<char>, Seq<int>)>,
    paths: Map<Seq<char>, Seq<char>>,
    path: Seq<char>,
    n: int,
) -> Option<int>
    decreases n,
{
    if n <= 0 || n > g.len() {
        None
    } else if paths.contains_key(g[n - 1].0) && paths[g[n - 1].0] == path {
        Some(n - 1)
    } else {
        group_for_path(g, paths, path, n - 1)
    }
}

/// The worksheets rewritten: every sheet of the workbook when repairing, and the sheets of the
/// updates.
pub open spec fn rewrite_set(
    g: Seq<(Seq<char>, Seq<int>)>,
    paths: Map<Seq<char>, Seq<char>>,
    repair_all: bool,
) -> Set<Seq<char>> {
    Set::new(
        |p: Seq<char>|
            (repair_all && paths.values().contains(p)) || exists|k: int|
                0 <= k < g.len() && paths.contains_key(g[k].0) && #[trigger] paths[g[k].0] == p,
    )
}

/// What a rewritten worksheet becomes, or why it cannot be.
pub ghost enum SheetOutcome {
    Text(Seq<char>),
    PartMissing,
    NotUtf8,
    Patch(Seq<char>, PatchOutcome),
}

pub open spec fn sheet_outcome(
    entries: Seq<ZipEntry>,
    updates: Seq<CellUpdate>,
    g: Seq<(Seq<char>, Seq<int>)>,
    paths: Map<Seq<char>, Seq<char>>,
    path: Seq<char>,
) -> SheetOutcome {
    match part_read(entries, path) {
        PartRead::Missing => SheetOutcome::PartMissing,
        PartRead::NotUtf8 => SheetOutcome::NotUtf8,
        PartRead::Text(t) => match group_for_path(g, paths, path, g.len() as int) {
            None => SheetOutcome::Text(expanded_sheet(t)),
            Some(k) => match patch_fold(expanded_sheet(t), g[k].1.map_values(|i: int| updates[i])) {
                PatchOutcome::Done(x) => SheetOutcome::Text(x),
                o => SheetOutcome::Patch(g[k].0, o),
            },
        },
    }
}

pub open spec fn sheet_error(e: ReportError, path: Seq<char>, o: SheetOutcome) -> bool {
    match o {
        SheetOutcome::Text(_) => false,
        SheetOutcome::PartMissing => e matches ReportError::WorkbookPartMissing(n) && n@ == path,
        SheetOutcome::NotUtf8 => e matches ReportError::InvalidUtf8(n) && n@ == path,
        SheetOutcome::Patch(sheet, p) => patch_error(e, sheet, p),
    }
}

pub open spec fn part_error(e: ReportError, name: Seq<char>, r: PartRead) -> bool {
    match r {
        PartRead::Text(_) => false,
        PartRead::Missing => e matches ReportError::WorkbookPartMissing(n) && n@ == name,
        PartRead::NotUtf8 => e matches ReportError::InvalidUtf8(n) && n@ == name,
    }
}

/// The new texts of the parts a rewrite changes, by part name, and the parts it drops.
pub struct WorkbookRewrite {
    pub replacements: StrMap<String>,
    pub removed: Vec<String>,
}

pub open spec fn outcome_text(o: SheetOutcome) -> Seq<char> {
    match o {
        SheetOutcome::Text(t) => t,
        _ => Seq::empty(),
    }
}

/// The names of the fixed parts a rewrite touches.
pub open spec fn workbook_part() -> Seq<char> {
    "xl/workbook.xml"@
}

pub open spec fn rels_part() -> Seq<char> {
    "xl/_rels/workbook.xml.rels"@
}

pub open spec fn content_types_part() -> Seq<char> {
    "[Content_Types].xml"@
}

/// The replaced parts: each rewritten worksheet, then the workbook forced to recalculate, its
/// relationships and (where readable) the content types without the calculation chain.
pub open spec fn replaced_parts(
    entries: Seq<ZipEntry>,
    updates: Seq<CellUpdate>,
    workbook_xml: Seq<char>,
    rels_xml: Seq<char>,
    repair_all: bool,
) -> Map<Seq<char>, Seq<char>> {
    let paths = sheet_paths_spec(workbook_xml, rels_xml);
    let g = sheet_groups(updates);
    let sheets = Map::new(
        |p: Seq<char>| rewrite_set(g, paths, repair_all).contains(p),
        |p: Seq<char>| outcome_text(sheet_outcome(entries, updates, g, paths, p)),
    );
    let fixed = sheets.insert(workbook_part(), recalc_forced(workbook_xml)).insert(
        rels_part(),
        crate::patterns::pieces_replaced(
            crate::patterns::regex_find_pieces(crate::patterns::calc_chain_rel_pattern(), rels_xml).0,
            Seq::empty(),
        ) + crate::patterns::regex_find_pieces(crate::patterns::calc_chain_rel_pattern(), rels_xml).1,
    );
    match part_read(entries, content_types_part()) {
        PartRead::Text(c) => fixed.insert(
            content_types_part(),
            crate::patterns::pieces_replaced(
                crate::patterns::regex_find_pieces(crate::patterns::calc_chain_override_pattern(), c).0,
                Seq::empty(),
            ) + crate::patterns::regex_find_pieces(crate::patterns::calc_chain_override_pattern(), c).1,
        ),
        _ => fixed,
    }
}

/// Some sheet of the updates is not in the workbook.
pub open spec fn sheet_missing(g: Seq<(Seq<char>, Seq<int>)>, paths: Map<Seq<char>, Seq<char>>) -> bool {
    exists|k: int| 0 <= k < g.len() && !paths.contains_key(#[trigger] g[k].0)
}

/// Some rewritten worksheet cannot be read or patched.
pub open spec fn sheet_failing(
    entries: Seq<ZipEntry>,
    updates: Seq<CellUpdate>,
    g: Seq<(Seq<char>, Seq<int>)>,
    paths: Map<Seq<char>, Seq<char>>,
    repair_all: bool,
) -> bool {
    exists|p: Seq<char>|
        rewrite_set(g, paths, repair_all).contains(p) && !(sheet_outcome(entries, updates, g, paths, p) is Text)
}

fn last_group_for(groups: &Vec<(String, Vec<usize>)>, paths: &StrMap<String>, path: &String) -> (r: Option<usize>)
    ensures
        match r {
            Some(k) => group_for_path(groups_view(groups@), text_map_view(paths@), path@, groups@.len() as int)
                == Some(k as int) && k < groups@.len(),
            None => group_for_path(groups_view(groups@), text_map_view(paths@), path@, groups@.len() as int)
                is None,
        },
{
    let ghost gv = groups_view(groups@);
    let mut n = groups.len();
    while n > 0
        invariant
            n <= groups@.len(),
            gv == groups_view(groups@),
            group_for_path(gv, text_map_view(paths@), path@, groups@.len() as int) == group_for_path(
                gv,
                text_map_view(paths@),
                path@,
                n as int,
            ),
        decreases n,
    {
        assert(gv[n - 1].0 == groups@[n - 1].0@);
        match paths.get(groups[n - 1].0.as_str()) {
            Some(p) => {
                if str_eq(p.as_str(), path.as_str()) {
                    return Some(n - 1);
                }
            },
            None => {},
        }
        n = n - 1;
    }
    None
}

/// What a rewrite of a package's parts gives: where the workbook and its relationships read as
/// text, the worksheets named by the updates (and, for a repair, all of them) rewritten, the
/// workbook forced to recalculate and the calculation chain removed, or the error of the first
/// sheet that is missing or fails; otherwise the error of the part that does not read.
pub open spec fn rewrite_outcome(
    entries: Seq<ZipEntry>,
    updates: Seq<CellUpdate>,
    repair_all_sheets: bool,
    r: Result<WorkbookRewrite, ReportError>,
) -> bool {
    match (part_read(entries, workbook_part()), part_read(entries, rels_part())) {
        (PartRead::Text(w), PartRead::Text(rl)) => {
            let paths = sheet_paths_spec(w, rl);
            let g = sheet_groups(updates);
            &&& r is Ok <==> (!sheet_missing(g, paths) && !sheet_failing(
                entries,
                updates,
                g,
                paths,
                repair_all_sheets,
            ))
            &&& r matches Ok(x) ==> text_map_view(x.replacements@) == replaced_parts(
                entries,
                updates,
                w,
                rl,
                repair_all_sheets,
            ) && x.removed@.len() == 1 && x.removed@[0]@ == "xl/calcChain.xml"@
            &&& r matches Err(e) ==> if sheet_missing(g, paths) {
                exists|k: int|
                    0 <= k < g.len() && !paths.contains_key(#[trigger] g[k].0) && (e matches ReportError::SheetMissing(n)
                        && n@ == g[k].0)
            } else {
                exists|p: Seq<char>|
                    rewrite_set(g, paths, repair_all_sheets).contains(p) && sheet_error(
                        e,
                        p,
                        sheet_outcome(entries, updates, g, paths, p),
                    )
            }
        },
        (PartRead::Text(_), other) => r matches Err(e) && part_error(e, rels_part(), other),
        (other, _) => r matches Err(e) && part_error(e, workbook_part(), other),
    }
}

/// The parts of a workbook package rewritten with cell updates: each updated sheet (and every
/// sheet when repairing) gets its shared formulas written out and its updates applied in
/// order, the workbook is set to recalculate on opening, and the calculation chain is dropped.
/// The workbook part and its relationships must be there as UTF-8, and every sheet of the
/// updates must exist. Where several sheets fail, the error is that of one of them.
pub fn workbook_rewrite(entries: &Vec<ZipEntry>, updates: &Vec<CellUpdate>, repair_all_sheets: bool) -> (r:
    Result<WorkbookRewrite, ReportError>)
    ensures
        rewrite_outcome(entries@, updates@, repair_all_sheets, r),
{
    let workbook_xml = entry_text(entries, "xl/workbook.xml")?;
    let rels_xml = entry_text(entries, "xl/_rels/workbook.xml.rels")?;
    let paths = sheet_paths_by_name(workbook_xml.as_str(), rels_xml.as_str());
    let groups = group_updates(updates);
    let ghost pm = text_map_view(paths@);
    let ghost gv = groups_view(groups@);
    for k in 0..groups.len()
        invariant
            gv == groups_view(groups@),
            pm == text_map_view(paths@),
            pm == sheet_paths_spec(workbook_xml@, rels_xml@),
            gv == sheet_groups(updates@),
            part_read(entries@, workbook_part()) == PartRead::Text(workbook_xml@),
            part_read(entries@, rels_part()) == PartRead::Text(rels_xml@),
            forall|j: int| 0 <= j < k ==> pm.contains_key(#[trigger] gv[j].0),
    {
        assert(gv[k as int].0 == groups@[k as int].0@);
        if paths.get(groups[k].0.as_str()).is_none() {
            return Err(ReportError::SheetMissing(groups[k].0.clone()));
        }
    }
    assert(!sheet_missing(gv, pm));
    let ghost set = rewrite_set(gv, pm, repair_all_sheets);
    let mut todo: Vec<String> = Vec::new();
    if repair_all_sheets {
        let listed = paths.entries();
        for i in 0..listed.len()
            invariant
                listed@ == paths.entry_seq(),
                pm == text_map_view(paths@),
                forall|j: int| 0 <= j < listed@.len() ==> #[trigger] paths@.contains_key(listed@[j].0@)
                    && paths@[listed@[j].0@] == listed@[j].1,
                todo@.len() == i,
                forall|j: int| 0 <= j < i ==> #[trigger] todo@[j]@ == listed@[j].1@,
                forall|j: int| 0 <= j < i ==> pm.values().contains(#[trigger] todo@[j]@),
        {
            proof {
                let key = listed@[i as int].0@;
                assert(paths@.contains_key(listed@[i as int].0@));
                assert(pm.contains_key(key) && pm[key] == listed@[i as int].1@);
            }
            todo.push(listed[i].1.clone());
        }
        proof {
            assert forall|p: Seq<char>| pm.values().contains(p) implies exists|j: int|
                0 <= j < todo@.len() && #[trigger] todo@[j]@ == p by {
                let key = choose|key: Seq<char>| pm.contains_key(key) && pm[key] == p;
                assert(paths@.contains_key(key));
                let j = choose|j: int| 0 <= j < listed@.len() && #[trigger] listed@[j].0@ == key;
                assert(paths@.contains_key(listed@[j].0@));
                assert(todo@[j]@ == p);
            }
        }
    }
    let ghost base = todo@.len();
    let ghost prefix = todo@;
    for k in 0..groups.len()
        invariant
            gv == groups_view(groups@),
            pm == text_map_view(paths@),
            forall|j: int| 0 <= j < gv.len() ==> pm.contains_key(#[trigger] gv[j].0),
            todo@.len() == base + k,
            base == prefix.len(),
            forall|j: int| 0 <= j < base ==> #[trigger] todo@[j] == prefix[j],
            repair_all_sheets ==> forall|p: Seq<char>| pm.values().contains(p) ==> exists|j: int|
                0 <= j < base && #[trigger] prefix[j]@ == p,
            repair_all_sheets ==> forall|j: int| 0 <= j < base ==> pm.values().contains(#[trigger] prefix[j]@),
            !repair_all_sheets ==> base == 0,
            forall|j: int| 0 <= j < k ==> #[trigger] todo@[base + j]@ == pm[gv[j].0],
    {
        assert(gv[k as int].0 == groups@[k as int].0@);
        match paths.get(groups[k].0.as_str()) {
            Some(p) => todo.push(p.clone()),
            None => {
                return Err(ReportError::SheetMissing(groups[k].0.clone()));
            },
        }
    }
    proof {
        assert forall|p: Seq<char>| set.contains(p) implies exists|j: int| 0 <= j < todo@.len() && #[trigger] todo@[j]@ == p by {
            if repair_all_sheets && pm.values().contains(p) {
                let j = choose|j: int| 0 <= j < base && #[trigger] prefix[j]@ == p;
                assert(todo@[j] == prefix[j]);
            } else {
                let k = choose|k: int| 0 <= k < gv.len() && pm.contains_key(gv[k].0) && #[trigger] pm[gv[k].0] == p;
                assert(todo@[base + k]@ == p);
            }
        }
        assert forall|j: int| 0 <= j < todo@.len() implies set.contains(#[trigger] todo@[j]@) by {
            if j >= base {
                let k = j - base;
                assert(todo@[base + k]@ == pm[gv[k].0]);
            } else {
                assert(todo@[j] == prefix[j]);
            }
        }
    }
    let mut replacements: StrMap<String> = StrMap::new();
    for i in 0..todo.len()
        invariant
            gv == groups_view(groups@),
            pm == text_map_view(paths@),
            pm == sheet_paths_spec(workbook_xml@, rels_xml@),
            gv == sheet_groups(updates@),
            set == rewrite_set(gv, pm, repair_all_sheets),
            !sheet_missing(gv, pm),
            part_read(entries@, workbook_part()) == PartRead::Text(workbook_xml@),
            part_read(entries@, rels_part()) == PartRead::Text(rels_xml@),
            forall|a: int, b: int|
                0 <= a < groups@.len() && 0 <= b < groups@[a].1@.len() ==> #[trigger] groups@[a].1@[b] < updates@.len(),
            forall|j: int| 0 <= j < todo@.len() ==> set.contains(#[trigger] todo@[j]@),
            forall|p: Seq<char>|
                #[trigger] text_map_view(replacements@).contains_key(p) <==> exists|j: int|
                    0 <= j < i && #[trigger] todo@[j]@ == p,
            forall|p: Seq<char>|
                #[trigger] text_map_view(replacements@).contains_key(p) ==> text_map_view(replacements@)[p]
                    == outcome_text(sheet_outcome(entries@, updates@, gv, pm, p)) && sheet_outcome(
                    entries@,
                    updates@,
                    gv,
                    pm,
                    p,
                ) is Text,
    {
        let path = &todo[i];
        let ghost before = replacements@;
        let xml = match entry_text(entries, path.as_str()) {
            Ok(x) => x,
            Err(e) => {
                assert(set.contains(path@));
                assert(sheet_error(e, path@, sheet_outcome(entries@, updates@, gv, pm, path@)));
                return Err(e);
            },
        };
        let text = match last_group_for(&groups, &paths, path) {
            None => expand_shared_formulas(xml.as_str()),
            Some(k) => {
                let ghost ups = groups@[k as int].1@.map_values(|x: usize| updates@[x as int]);
                assert(gv[k as int].1 == groups@[k as int].1@.map_values(|x: usize| x as int));
                assert(ups =~= gv[k as int].1.map_values(|x: int| updates@[x]));
                match patch_sheet_text(xml.as_str(), groups[k].0.as_str(), updates, &groups[k].1) {
                    Ok(t) => t,
                    Err(e) => {
                        assert(gv[k as int].0 == groups@[k as int].0@);
                        assert(set.contains(path@));
                        assert(sheet_error(e, path@, sheet_outcome(entries@, updates@, gv, pm, path@)));
                        return Err(e);
                    },
                }
            },
        };
        replacements.insert(path.clone(), text);
        proof {
            assert(text_map_view(replacements@) =~= text_map_view(before).insert(path@, text@));
            assert(sheet_outcome(entries@, updates@, gv, pm, path@) == SheetOutcome::Text(text@));
        }
    }
    proof {
        assert forall|p: Seq<char>| set.contains(p) implies !(sheet_outcome(entries@, updates@, gv, pm, p) is Text)
            == false by {
            let j = choose|j: int| 0 <= j < todo@.len() && #[trigger] todo@[j]@ == p;
            assert(text_map_view(replacements@).contains_key(todo@[j]@));
        }
        assert(!sheet_failing(entries@, updates@, gv, pm, repair_all_sheets));
    }
    let ghost sheets = text_map_view(replacements@);
    replacements.insert("xl/workbook.xml".to_owned(), force_full_recalculation(workbook_xml.as_str()));
    replacements.insert(
        "xl/_rels/workbook.xml.rels".to_owned(),
        remove_calc_chain_relationship(rels_xml.as_str()),
    );
    match entry_text(entries, "[Content_Types].xml") {
        Ok(ct) => {
            replacements.insert("[Content_Types].xml".to_owned(), remove_calc_chain_content_type(ct.as_str()));
        },
        Err(_) => {},
    }
    proof {
        let expect = Map::new(
            |p: Seq<char>| set.contains(p),
            |p: Seq<char>| outcome_text(sheet_outcome(entries@, updates@, gv, pm, p)),
        );
        assert(sheets =~= expect) by {
            assert forall|p: Seq<char>| sheets.contains_key(p) <==> expect.contains_key(p) by {
                if set.contains(p) {
                    let j = choose|j: int| 0 <= j < todo@.len() && #[trigger] todo@[j]@ == p;
                    assert(sheets.contains_key(todo@[j]@));
                }
            }
        }
        assert(text_map_view(replacements@) =~= replaced_parts(
            entries@,
            updates@,
            workbook_xml@,
            rels_xml@,
            repair_all_sheets,
        ));
    }
    let mut removed: Vec<String> = Vec::new();
    removed.push("xl/calcChain.xml".to_owned());
    Ok(WorkbookRewrite { replacements, removed })
}

/// The inline text of a cell of the named sheet, read from the package; the workbook part and
/// its relationships, and the sheet's part, must be there as UTF-8, and the sheet must exist.
pub open spec fn workbook_cell_outcome(entries: Seq<ZipEntry>, sheet: Seq<char>, cell: Seq<char>, r: Result<Option<String>, ReportError>) -> bool {
    match (part_read(entries, workbook_part()), part_read(entries, rels_part())) {
        (PartRead::Text(w), PartRead::Text(rl)) => {
            let paths = sheet_paths_spec(w, rl);
            if !paths.contains_key(sheet) {
                r matches Err(ReportError::SheetMissing(n)) && n@ == sheet
            } else {
                match part_read(entries, paths[sheet]) {
                    PartRead::Text(x) => match cell_parts(cell) {
                        None => r matches Err(ReportError::InvalidCell(c)) && c@ == cell,
                        Some(_) => r is Ok && opt_view(r->Ok_0) == cell_text_of(x, cell),
                    },
                    other => r is Err && part_error(r->Err_0, paths[sheet], other),
                }
            }
        },
        (PartRead::Text(_), other) => r is Err && part_error(r->Err_0, rels_part(), other),
        (other, _) => r is Err && part_error(r->Err_0, workbook_part(), other),
    }
}

pub fn workbook_cell_text(entries: &Vec<ZipEntry>, sheet: &str, cell: &str) -> (r: Result<Option<String>, ReportError>)
    ensures
        workbook_cell_outcome(entries@, sheet@, cell@, r),
{
    let workbook_xml = entry_text(entries, "xl/workbook.xml")?;
    let rels_xml = entry_text(entries, "xl/_rels/workbook.xml.rels")?;
    let paths = sheet_paths_by_name(workbook_xml.as_str(), rels_xml.as_str());
    let path = match paths.get(sheet) {
        Some(p) => p,
        None => {
            return Err(ReportError::SheetMissing(sheet.to_owned()));
        },
    };
    proof {
        assert(text_map_view(paths@)[sheet@] == path@);
    }
    let xml = entry_text(entries, path.as_str())?;
    sheet_cell_text(xml.as_str(), cell)
}

} // verus!
