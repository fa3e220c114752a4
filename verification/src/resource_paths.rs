use vstd::prelude::*;

use crate::reports::{join_path, joined_path, paths_equal, same_path};

verus! {

/// The path of a file under `report-layouts` in a `config` folder, below a base.
pub open spec fn layout_file_under(base: Seq<char>, file_name: Seq<char>) -> Seq<char> {
    joined_path(joined_path(joined_path(base, "config"@), "report-layouts"@), file_name)
}

/// Where a layout file may be, in the order it is looked for: in the bundled resources (as the
/// bundler lays them out now, then in the shapes it used to), below the working folder and its
/// parent, then in the shop's fixed folder.
pub open spec fn layout_candidates(
    file_name: Seq<char>,
    resource_dir: Option<Seq<char>>,
    current_dir: Option<Seq<char>>,
) -> Seq<Seq<char>> {
    (match resource_dir {
        Some(r) => seq![
            layout_file_under(joined_path(r, "_up_"@), file_name),
            layout_file_under(r, file_name),
            joined_path(joined_path(r, "report-layouts"@), file_name),
            joined_path(r, file_name),
        ],
        None => seq![],
    }) + (match current_dir {
        Some(c) => seq![
            layout_file_under(c, file_name),
            layout_file_under(joined_path(c, ".."@), file_name),
        ],
        None => seq![],
    }) + seq![layout_file_under("C:/PDU500"@, file_name)]
}

/// The paths each kept once, where no equal path came before.
pub open spec fn unique_paths(paths: Seq<Seq<char>>) -> Seq<Seq<char>>
    decreases paths.len(),
{
    if paths.len() == 0 {
        seq![]
    } else {
        let kept = unique_paths(paths.drop_last());
        if exists|i: int| 0 <= i < kept.len() && paths_equal(#[trigger] kept[i], paths.last()) {
            kept
        } else {
            kept.push(paths.last())
        }
    }
}

fn push_unique(paths: &mut Vec<String>, path: String, Ghost(all): Ghost<Seq<Seq<char>>>)
    requires
        crate::text::views(old(paths)@) == unique_paths(all),
    ensures
        crate::text::views(final(paths)@) == unique_paths(all.push(path@)),
{
    assert(all.push(path@).drop_last() =~= all);
    let mut seen = false;
    for i in 0..paths.len()
        invariant
            seen == exists|j: int| 0 <= j < i && paths_equal(#[trigger] paths@[j]@, path@),
    {
        if same_path(paths[i].as_str(), path.as_str()) {
            seen = true;
        }
    }
    proof {
        let kept = unique_paths(all);
        assert(kept == crate::text::views(paths@));
        if seen {
            let j = choose|j: int| 0 <= j < paths@.len() && paths_equal(#[trigger] paths@[j]@, path@);
            assert(paths_equal(kept[j], path@));
        }
        if exists|i: int| 0 <= i < kept.len() && paths_equal(#[trigger] kept[i], path@) {
            let j = choose|i: int| 0 <= i < kept.len() && paths_equal(#[trigger] kept[i], path@);
            assert(paths_equal(paths@[j]@, path@));
        }
    }
    if !seen {
        let ghost before = crate::text::views(paths@);
        paths.push(path);
        assert(crate::text::views(paths@) =~= before.push(path@));
    }
}

fn layout_file_path(base: &str, file_name: &str) -> (p: String)
    ensures
        p@ == layout_file_under(base@, file_name@),
{
    let config = join_path(base, "config");
    let layouts = join_path(config.as_str(), "report-layouts");
    join_path(layouts.as_str(), file_name)
}

/// The places a layout file is looked for, each once. The working folder is passed in where
/// it could be read.
pub fn report_layout_candidate_paths_for(
    file_name: &str,
    resource_dir: Option<&str>,
    current_dir: Option<&str>,
) -> (paths: Vec<String>)
    ensures
        crate::text::views(paths@) == unique_paths(
            layout_candidates(
                file_name@,
                match resource_dir {
                    Some(r) => Some(r@),
                    None => None,
                },
                match current_dir {
                    Some(c) => Some(c@),
                    None => None,
                },
            ),
        ),
{
    let ghost rv = match resource_dir {
        Some(r) => Some(r@),
        None => None,
    };
    let ghost cv = match current_dir {
        Some(c) => Some(c@),
        None => None,
    };
    let ghost all = layout_candidates(file_name@, rv, cv);
    let mut paths: Vec<String> = Vec::new();
    let ghost mut pushed: Seq<Seq<char>> = seq![];
    assert(crate::text::views(paths@) =~= unique_paths(pushed));
    match resource_dir {
        Some(r) => {
            let up = join_path(r, "_up_");
            let p1 = layout_file_path(up.as_str(), file_name);
            push_unique(&mut paths, p1, Ghost(pushed));
            proof {
                pushed = pushed.push(layout_file_under(joined_path(r@, "_up_"@), file_name@));
            }
            let p2 = layout_file_path(r, file_name);
            push_unique(&mut paths, p2, Ghost(pushed));
            proof {
                pushed = pushed.push(layout_file_under(r@, file_name@));
            }
            let layouts = join_path(r, "report-layouts");
            let p3 = join_path(layouts.as_str(), file_name);
            push_unique(&mut paths, p3, Ghost(pushed));
            proof {
                pushed = pushed.push(joined_path(joined_path(r@, "report-layouts"@), file_name@));
            }
            let p4 = join_path(r, file_name);
            push_unique(&mut paths, p4, Ghost(pushed));
            proof {
                pushed = pushed.push(joined_path(r@, file_name@));
            }
        },
        None => {},
    }
    match current_dir {
        Some(c) => {
            let p5 = layout_file_path(c, file_name);
            push_unique(&mut paths, p5, Ghost(pushed));
            proof {
                pushed = pushed.push(layout_file_under(c@, file_name@));
            }
            let parent = join_path(c, "..");
            let p6 = layout_file_path(parent.as_str(), file_name);
            push_unique(&mut paths, p6, Ghost(pushed));
            proof {
                pushed = pushed.push(layout_file_under(joined_path(c@, ".."@), file_name@));
            }
        },
        None => {},
    }
    let p7 = layout_file_path("C:/PDU500", file_name);
    push_unique(&mut paths, p7, Ghost(pushed));
    proof {
        pushed = pushed.push(layout_file_under("C:/PDU500"@, file_name@));
        assert(pushed =~= all);
    }
    paths
}

/// Each location is listed once: no path kept is equal to one kept before it.
pub proof fn law_locations_are_listed_once(paths: Seq<Seq<char>>)
    ensures
        forall|i: int, j: int|
            0 <= i < j < unique_paths(paths).len() ==> !paths_equal(
                #[trigger] unique_paths(paths)[i],
                #[trigger] unique_paths(paths)[j],
            ),
    decreases paths.len(),
{
    if paths.len() > 0 {
        let rest = paths.drop_last();
        law_locations_are_listed_once(rest);
        let kept = unique_paths(rest);
        if !(exists|i: int| 0 <= i < kept.len() && paths_equal(#[trigger] kept[i], paths.last())) {
            let e = kept.push(paths.last());
            assert(unique_paths(paths) == e);
            assert forall|i: int, j: int| 0 <= i < j < e.len() implies !paths_equal(#[trigger] e[i], #[trigger] e[j]) by {
                if j < e.len() - 1 {
                    assert(e[i] == kept[i] && e[j] == kept[j]);
                } else {
                    assert(e[i] == kept[i]);
                }
            }
        }
    }
}

} // verus!
