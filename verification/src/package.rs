use vstd::prelude::*;

use crate::reports::{CellUpdate, ReportError};
use crate::sheet_xml::text_map_view;
use crate::text::{str_eq, views};
use crate::workbook::{rewrite_outcome, workbook_rewrite, WorkbookRewrite, ZipEntry};
use vstd::string::StringSliceAdditionalSpecFns;
use vstd::utf8::encode_utf8;
use zip::result::ZipError;
use zip::write::SimpleFileOptions;
use zip::{CompressionMethod, DateTime, ZipArchive, ZipWriter};

verus! {

/// An entry of a package as its name, whether it is a directory, and its bytes.
pub open spec fn entry_view(e: ZipEntry) -> (Seq<char>, bool, Seq<u8>) {
    (e.name@, e.is_dir, e.data@)
}

pub open spec fn entry_views(es: Seq<ZipEntry>) -> Seq<(Seq<char>, bool, Seq<u8>)> {
    es.map_values(|e: ZipEntry| entry_view(e))
}

/// The entries that the zip reader finds in an xlsx package, in the order of its central
/// directory; nothing where it cannot read the package.
pub uninterp spec fn zip_entries(package: Seq<u8>) -> Option<Seq<(Seq<char>, bool, Seq<u8>)>>;

/// The xlsx package that the zip writer makes of the entries, in order, each file deflated and
/// dated 1980-01-01; nothing where it refuses them.
pub uninterp spec fn zip_package(entries: Seq<(Seq<char>, bool, Seq<u8>)>) -> Option<Seq<u8>>;

/// `zip::ZipArchive` over the bytes: each entry's name, kind and data, read in order. The
/// contract names the result: the entries are what the reader finds, the error a zip error.
#[verifier::external_body]
fn read_zip_entries(package: &[u8]) -> (r: Result<Vec<ZipEntry>, ReportError>)
    ensures
        match zip_entries(package@) {
            Some(es) => r is Ok && entry_views(r->Ok_0@) == es,
            None => r is Err && r->Err_0 is Zip,
        },
{
    let zip_error = |e: ZipError| ReportError::Zip { io: None, message: e.to_string() };
    let mut archive = ZipArchive::new(std::io::Cursor::new(package)).map_err(zip_error)?;
    let mut entries = Vec::new();
    for index in 0..archive.len() {
        let mut file = archive.by_index(index).map_err(zip_error)?;
        let mut data = Vec::new();
        std::io::Read::read_to_end(&mut file, &mut data).map_err(|e| zip_error(e.into()))?;
        let name = file.name().map_err(zip_error)?.to_string();
        entries.push(ZipEntry { name, is_dir: file.is_dir(), data });
    }
    Ok(entries)
}

/// `zip::ZipWriter` over a byte buffer: each entry added in order, a directory as one, a file
/// deflated with its data, all dated 1980-01-01. The contract names the result.
#[verifier::external_body]
fn write_zip_package(entries: &Vec<ZipEntry>) -> (r: Result<Vec<u8>, ReportError>)
    ensures
        match zip_package(entry_views(entries@)) {
            Some(b) => r is Ok && r->Ok_0@ == b,
            None => r is Err && r->Err_0 is Zip,
        },
{
    let zip_error = |e: ZipError| ReportError::Zip { io: None, message: e.to_string() };
    let options = SimpleFileOptions::default().compression_method(CompressionMethod::Deflated).last_modified_time(DateTime::default());
    let mut writer = ZipWriter::new(std::io::Cursor::new(Vec::new()));
    for entry in entries {
        match entry.is_dir {
            true => writer.add_directory(entry.name.as_str(), options).map_err(zip_error)?,
            false => writer.start_file(entry.name.as_str(), options).map_err(zip_error)?,
        }
        std::io::Write::write_all(&mut writer, &entry.data).map_err(|e| zip_error(e.into()))?;
    }
    Ok(writer.finish().map_err(zip_error)?.into_inner())
}

/// The entries of a package, as the zip reader finds them.
pub fn workbook_entries(package: &[u8]) -> (r: Result<Vec<ZipEntry>, ReportError>)
    ensures
        match zip_entries(package@) {
            Some(es) => r is Ok && entry_views(r->Ok_0@) == es,
            None => r is Err && r->Err_0 is Zip,
        },
{
    read_zip_entries(package)
}

/// The entries after a rewrite: the removed ones left out, a replaced file given the UTF-8
/// bytes of its new text, the others as they were, in their order.
pub open spec fn rebuilt(
    es: Seq<(Seq<char>, bool, Seq<u8>)>,
    replacements: Map<Seq<char>, Seq<char>>,
    removed: Seq<Seq<char>>,
) -> Seq<(Seq<char>, bool, Seq<u8>)>
    decreases es.len(),
{
    if es.len() == 0 {
        Seq::empty()
    } else {
        let rest = rebuilt(es.drop_last(), replacements, removed);
        let e = es.last();
        if removed.contains(e.0) {
            rest
        } else if !e.1 && replacements.contains_key(e.0) {
            rest.push((e.0, e.1, encode_utf8(replacements[e.0])))
        } else {
            rest.push(e)
        }
    }
}

fn is_removed(removed: &Vec<String>, name: &str) -> (b: bool)
    ensures
        b == views(removed@).contains(name@),
{
    let mut i: usize = 0;
    while i < removed.len()
        invariant
            i <= removed@.len(),
            forall|k: int| 0 <= k < i ==> removed@[k]@ != name@,
        decreases removed.len() - i,
    {
        if str_eq(removed[i].as_str(), name) {
            assert(views(removed@)[i as int] == name@);
            return true;
        }
        i += 1;
    }
    proof {
        if views(removed@).contains(name@) {
            let k = choose|k: int| 0 <= k < views(removed@).len() && views(removed@)[k] == name@;
            assert(removed@[k]@ == name@);
        }
    }
    false
}

/// The package's entries with a rewrite applied.
pub fn rebuild_entries(entries: &Vec<ZipEntry>, rewrite: &WorkbookRewrite) -> (out: Vec<ZipEntry>)
    ensures
        entry_views(out@) == rebuilt(
            entry_views(entries@),
            text_map_view(rewrite.replacements@),
            views(rewrite.removed@),
        ),
{
    let ghost repl = text_map_view(rewrite.replacements@);
    let ghost rem = views(rewrite.removed@);
    let mut out: Vec<ZipEntry> = Vec::new();
    let mut i: usize = 0;
    while i < entries.len()
        invariant
            i <= entries@.len(),
            repl == text_map_view(rewrite.replacements@),
            rem == views(rewrite.removed@),
            entry_views(out@) == rebuilt(entry_views(entries@).take(i as int), repl, rem),
        decreases entries.len() - i,
    {
        let e = &entries[i];
        proof {
            assert(entry_views(entries@).take(i + 1).drop_last() =~= entry_views(entries@).take(i as int));
            assert(entry_views(entries@).take(i + 1).last() == entry_view(entries@[i as int]));
        }
        let ghost before = out@;
        if is_removed(&rewrite.removed, e.name.as_str()) {
        } else {
            let replacement = if e.is_dir {
                None
            } else {
                rewrite.replacements.get(e.name.as_str())
            };
            match replacement {
                Some(text) => {
                    let data = text.as_str().as_bytes_vec();
                    out.push(ZipEntry { name: e.name.clone(), is_dir: e.is_dir, data });
                },
                None => {
                    out.push(ZipEntry { name: e.name.clone(), is_dir: e.is_dir, data: e.data.clone() });
                },
            }
            proof {
                assert(entry_views(out@) =~= entry_views(before).push(entry_view(out@.last())));
            }
        }
        i += 1;
    }
    assert(entry_views(entries@).take(entries@.len() as int) =~= entry_views(entries@));
    out
}

/// A package rewritten: read its entries, rewrite its parts, put them back. The outcome of each
/// stage is that of the stage before it: a package that does not read is a zip error; a rewrite
/// that fails gives its error; the rewritten entries are packed again.
pub open spec fn package_rewritten(
    package: Seq<u8>,
    updates: Seq<CellUpdate>,
    repair_all_sheets: bool,
    r: Result<Vec<u8>, ReportError>,
) -> bool {
    match zip_entries(package) {
        None => r is Err && r->Err_0 is Zip,
        Some(vs) => exists|es: Seq<ZipEntry>, w: Result<WorkbookRewrite, ReportError>|
            #[trigger] rewrite_outcome(es, updates, repair_all_sheets, w) && entry_views(es) == vs && match w {
                Err(e) => r == Err::<Vec<u8>, ReportError>(e),
                Ok(x) => match zip_package(
                    rebuilt(vs, text_map_view(x.replacements@), views(x.removed@)),
                ) {
                    Some(b) => r is Ok && r->Ok_0@ == b,
                    None => r is Err && r->Err_0 is Zip,
                },
            },
    }
}

fn rewritten_package(package: &[u8], updates: &Vec<CellUpdate>, repair_all_sheets: bool) -> (r: Result<
    Vec<u8>,
    ReportError,
>)
    ensures
        package_rewritten(package@, updates@, repair_all_sheets, r),
{
    let entries = read_zip_entries(package)?;
    let w = workbook_rewrite(&entries, updates, repair_all_sheets);
    let rewrite = match w {
        Ok(x) => x,
        Err(e) => {
            assert(rewrite_outcome(entries@, updates@, repair_all_sheets, Err::<WorkbookRewrite, ReportError>(e)));
            return Err(e);
        },
    };
    let out = rebuild_entries(&entries, &rewrite);
    let r = write_zip_package(&out);
    assert(rewrite_outcome(entries@, updates@, repair_all_sheets, Ok::<WorkbookRewrite, ReportError>(rewrite)));
    r
}

/// The package of a workbook with the cell updates written: unchanged where there are none;
/// otherwise the package rewritten with them.
pub fn patch_workbook(package: &[u8], updates: &Vec<CellUpdate>) -> (r: Result<Vec<u8>, ReportError>)
    ensures
        updates@.len() == 0 ==> r is Ok && r->Ok_0@ == package@,
        updates@.len() > 0 ==> package_rewritten(package@, updates@, false, r),
{
    if updates.len() == 0 {
        return Ok(vstd::slice::slice_to_vec(package));
    }
    rewritten_package(package, updates, false)
}

/// The package of a workbook with every worksheet repaired: its shared formulas expanded, its
/// calculation forced on opening, its calculation chain dropped.
pub fn repair_workbook(package: &[u8]) -> (r: Result<Vec<u8>, ReportError>)
    ensures
        package_rewritten(package@, Seq::empty(), true, r),
{
    let none: Vec<CellUpdate> = Vec::new();
    rewritten_package(package, &none, true)
}

} // verus!
