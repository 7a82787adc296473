//! A start of the daemon: what it writes, and that it writes only what is missing.
use crate::config::{config_of, pane_views, ConfigV, Pane, PaneV};
use crate::node::{file_views, mpv_conf_of, mpv_conf_text, skeleton_of, FileText, FileTextV};
use crate::paths::{
    joined, layouts_dir, pane_dir, pane_dir_of, pane_file_of, pane_mpv_conf, pane_playlist,
    pane_scripts,
};
use crate::text::{has_str, same, strs};
use vstd::prelude::*;

verus! {

/// The playlist file of a new pane.
pub const NEW_PLAYLIST: &'static str = "#EXTM3U\n";

// ---------------------------------------------------------------------------
// What a pane needs
// ---------------------------------------------------------------------------

/// The files that a pane starts from: its player configuration and its playlist.
pub open spec fn pane_skeleton(config: Seq<char>, p: PaneV) -> Seq<FileTextV> {
    seq![
        FileTextV {
            path: pane_file_of(config, p.mpv_name, ".mpv.conf"@),
            text: mpv_conf_of(config, p.mpv_name),
        },
        FileTextV { path: pane_file_of(config, p.mpv_name, ".m3u"@), text: NEW_PLAYLIST@ },
    ]
}

/// The files that panes start from, in order.
pub open spec fn panes_skeleton(config: Seq<char>, panes: Seq<PaneV>) -> Seq<FileTextV>
    decreases panes.len(),
{
    if panes.len() == 0 {
        Seq::empty()
    } else {
        panes_skeleton(config, panes.drop_last()) + pane_skeleton(config, panes.last())
    }
}

/// The directories of panes: one for each, and one in it for its scripts.
pub open spec fn pane_dirs_of(config: Seq<char>, panes: Seq<PaneV>) -> Seq<Seq<char>>
    decreases panes.len(),
{
    if panes.len() == 0 {
        Seq::empty()
    } else {
        let d = pane_dir_of(config, panes.last().mpv_name);
        pane_dirs_of(config, panes.drop_last()) + seq![d, joined(d, "scripts"@)]
    }
}

/// The files that panes start from.
pub fn pane_files(config: &str, panes: &Vec<Pane>) -> (r: Vec<FileText>)
    ensures
        file_views(r@) == panes_skeleton(config@, pane_views(panes@)),
{
    let ghost all = pane_views(panes@);
    let mut out: Vec<FileText> = Vec::new();
    assert(file_views(out@) =~= panes_skeleton(config@, all.take(0)));
    for i in 0..panes.len()
        invariant
            all == pane_views(panes@),
            file_views(out@) == panes_skeleton(config@, all.take(i as int)),
    {
        let ghost before = out@;
        proof {
            assert(all.take(i + 1).drop_last() =~= all.take(i as int));
            assert(all.take(i + 1).last() == panes@[i as int].view());
        }
        let n: &str = panes[i].mpv_name.as_str();
        out.push(FileText { path: pane_mpv_conf(config, n), text: mpv_conf_text(config, n) });
        out.push(FileText { path: pane_playlist(config, n), text: NEW_PLAYLIST.to_owned() });
        assert(file_views(out@) =~= file_views(before) + pane_skeleton(config@, all[i as int]));
    }
    assert(all.take(all.len() as int) =~= all);
    out
}

/// The directories of panes.
pub fn pane_dirs(config: &str, panes: &Vec<Pane>) -> (r: Vec<String>)
    ensures
        strs(r@) == pane_dirs_of(config@, pane_views(panes@)),
{
    let ghost all = pane_views(panes@);
    let mut out: Vec<String> = Vec::new();
    assert(strs(out@) =~= pane_dirs_of(config@, all.take(0)));
    for i in 0..panes.len()
        invariant
            all == pane_views(panes@),
            strs(out@) == pane_dirs_of(config@, all.take(i as int)),
    {
        let ghost before = out@;
        proof {
            assert(all.take(i + 1).drop_last() =~= all.take(i as int));
            assert(all.take(i + 1).last() == panes@[i as int].view());
        }
        let n: &str = panes[i].mpv_name.as_str();
        out.push(pane_dir(config, n));
        out.push(pane_scripts(config, n));
        proof {
            let d = pane_dir_of(config@, n@);
            assert(strs(out@) =~= strs(before) + seq![d, joined(d, "scripts"@)]);
        }
    }
    assert(all.take(all.len() as int) =~= all);
    out
}

/// The directories of the node itself.
pub fn node_dirs(config: &str) -> (r: Vec<String>)
    ensures
        strs(r@) == seq![config@, joined(config@, "layouts"@)],
{
    let v: Vec<String> = vec![config.to_owned(), layouts_dir(config)];
    assert(strs(v@) =~= seq![config@, joined(config@, "layouts"@)]);
    v
}

// ---------------------------------------------------------------------------
// What is missing
// ---------------------------------------------------------------------------

/// One of the files has this path.
pub open spec fn names_path(files: Seq<FileTextV>, path: Seq<char>) -> bool {
    exists|i: int| 0 <= i < files.len() && (#[trigger] files[i]).path == path
}

/// Those of the files that are not there yet; of several with one path the first.
pub open spec fn missing_of(files: Seq<FileTextV>, existing: Set<Seq<char>>) -> Seq<FileTextV>
    decreases files.len(),
{
    if files.len() == 0 {
        Seq::empty()
    } else {
        let before = missing_of(files.drop_last(), existing);
        let f = files.last();
        if existing.contains(f.path) || names_path(before, f.path) {
            before
        } else {
            before.push(f)
        }
    }
}

fn has_path(files: &Vec<FileText>, path: &str) -> (r: bool)
    ensures
        r == names_path(file_views(files@), path@),
{
    let ghost all = file_views(files@);
    for i in 0..files.len()
        invariant
            all == file_views(files@),
            forall|k: int| 0 <= k < i ==> (#[trigger] all[k]).path != path@,
    {
        assert(all[i as int] == files@[i as int].view());
        if same(files[i].path.as_str(), path) {
            assert(all[i as int].path == path@);
            return true;
        }
    }
    false
}

/// Those of the files that are to be written; `existing` are the paths at which there is
/// a file.
pub fn missing_files(files: &Vec<FileText>, existing: &Vec<String>) -> (r: Vec<FileText>)
    ensures
        file_views(r@) == missing_of(file_views(files@), strs(existing@).to_set()),
{
    let ghost all = file_views(files@);
    let ghost there = strs(existing@).to_set();
    let mut out: Vec<FileText> = Vec::new();
    assert(file_views(out@) =~= missing_of(all.take(0), there));
    for i in 0..files.len()
        invariant
            all == file_views(files@),
            there == strs(existing@).to_set(),
            file_views(out@) == missing_of(all.take(i as int), there),
    {
        proof {
            assert(all.take(i + 1).drop_last() =~= all.take(i as int));
            assert(all.take(i + 1).last() == files@[i as int].view());
        }
        let path: &str = files[i].path.as_str();
        let found: bool = has_str(existing, path);
        assert(found == there.contains(path@));
        if !found && !has_path(&out, path) {
            let f: FileText = FileText { path: path.to_owned(), text: files[i].text.clone() };
            assert(file_views(out@.push(f)) =~= file_views(out@).push(f.view()));
            out.push(f);
        }
    }
    assert(all.take(all.len() as int) =~= all);
    out
}

// ---------------------------------------------------------------------------
// A whole start
// ---------------------------------------------------------------------------

/// A disk: what each file holds, and the directories that there are.
pub struct DiskV {
    pub files: Map<Seq<char>, Seq<char>>,
    pub dirs: Set<Seq<char>>,
}

/// What files hold after these were written, in order.
pub open spec fn written(disk: Map<Seq<char>, Seq<char>>, files: Seq<FileTextV>) -> Map<
    Seq<char>,
    Seq<char>,
>
    decreases files.len(),
{
    if files.len() == 0 {
        disk
    } else {
        written(disk, files.drop_last()).insert(files.last().path, files.last().text)
    }
}

/// What files hold after those that were missing were written.
pub open spec fn completed(disk: Map<Seq<char>, Seq<char>>, files: Seq<FileTextV>) -> Map<
    Seq<char>,
    Seq<char>,
> {
    written(disk, missing_of(files, disk.dom()))
}

/// The configuration that the panes file of a disk gives.
pub open spec fn config_on(
    disk: Map<Seq<char>, Seq<char>>,
    config: Seq<char>,
    home: Seq<char>,
) -> ConfigV {
    let path = joined(config, "pb.panes.conf"@);
    config_of(
        if disk.contains_key(path) {
            Some(disk[path])
        } else {
            None
        },
        home,
    )
}

/// The disk after a start: first the files of the node are completed, then those of the
/// panes that the panes file lists.
pub open spec fn started_on(disk: DiskV, config: Seq<char>, home: Seq<char>) -> DiskV {
    let first = completed(disk.files, skeleton_of(config));
    let panes = config_on(first, config, home).panes;
    DiskV {
        files: completed(first, panes_skeleton(config, panes)),
        dirs: disk.dirs.union(seq![config, joined(config, "layouts"@)].to_set()).union(
            pane_dirs_of(config, panes).to_set(),
        ),
    }
}

// ---------------------------------------------------------------------------
// Laws
// ---------------------------------------------------------------------------

proof fn lemma_missing(files: Seq<FileTextV>, existing: Set<Seq<char>>)
    ensures
        forall|i: int|
            0 <= i < missing_of(files, existing).len() ==> !existing.contains(
                (#[trigger] missing_of(files, existing)[i]).path,
            ),
        forall|i: int|
            0 <= i < files.len() ==> existing.contains((#[trigger] files[i]).path) || names_path(
                missing_of(files, existing),
                files[i].path,
            ),
    decreases files.len(),
{
    if files.len() > 0 {
        let front = files.drop_last();
        lemma_missing(front, existing);
        let before = missing_of(front, existing);
        let all = missing_of(files, existing);
        let f = files.last();
        assert forall|i: int| 0 <= i < all.len() implies !existing.contains(
            (#[trigger] all[i]).path,
        ) by {
            if i < before.len() {
                assert(all[i] == before[i]);
            }
        }
        assert forall|i: int| 0 <= i < files.len() implies existing.contains(
            (#[trigger] files[i]).path,
        ) || names_path(all, files[i].path) by {
            if i < front.len() {
                assert(front[i] == files[i]);
                if !existing.contains(files[i].path) {
                    let k = choose|k: int|
                        0 <= k < before.len() && (#[trigger] before[k]).path == files[i].path;
                    assert(all[k].path == files[i].path);
                }
            } else if !existing.contains(f.path) {
                if names_path(before, f.path) {
                    assert(all == before);
                } else {
                    assert(all[before.len() as int].path == f.path);
                }
            }
        }
    }
}

proof fn lemma_written(disk: Map<Seq<char>, Seq<char>>, files: Seq<FileTextV>, p: Seq<char>)
    ensures
        written(disk, files).contains_key(p) <==> disk.contains_key(p) || names_path(files, p),
        disk.contains_key(p) && !names_path(files, p) ==> written(disk, files)[p] == disk[p],
    decreases files.len(),
{
    if files.len() > 0 {
        let front = files.drop_last();
        let f = files.last();
        lemma_written(disk, front, p);
        if names_path(files, p) {
            let k = choose|k: int| 0 <= k < files.len() && (#[trigger] files[k]).path == p;
            if k < front.len() {
                assert(front[k].path == p);
            }
        }
        if names_path(front, p) {
            let k = choose|k: int| 0 <= k < front.len() && (#[trigger] front[k]).path == p;
            assert(files[k].path == p);
        }
        if f.path == p {
            assert(files[files.len() - 1].path == p);
        }
    }
}

/// Once its files are there a start finds none missing.
pub proof fn nothing_is_missing_twice(files: Seq<FileTextV>, existing: Set<Seq<char>>)
    requires
        forall|i: int| 0 <= i < files.len() ==> existing.contains((#[trigger] files[i]).path),
    ensures
        missing_of(files, existing) == Seq::<FileTextV>::empty(),
    decreases files.len(),
{
    if files.len() > 0 {
        let front = files.drop_last();
        assert forall|i: int| 0 <= i < front.len() implies existing.contains(
            (#[trigger] front[i]).path,
        ) by {
            assert(front[i] == files[i]);
        }
        nothing_is_missing_twice(front, existing);
        assert(existing.contains(files[files.len() - 1].path));
    }
}

/// Writing what is missing keeps every file that was there as it was, leaves none of the
/// files missing, and changes nothing the second time.
pub proof fn completing_keeps_what_exists(disk: Map<Seq<char>, Seq<char>>, files: Seq<FileTextV>)
    ensures
        forall|p: Seq<char>|
            disk.contains_key(p) ==> #[trigger] completed(disk, files).contains_key(p) && completed(
                disk,
                files,
            )[p] == disk[p],
        forall|i: int|
            0 <= i < files.len() ==> completed(disk, files).contains_key((#[trigger] files[i]).path),
        completed(completed(disk, files), files) == completed(disk, files),
{
    let gap = missing_of(files, disk.dom());
    let after = completed(disk, files);
    lemma_missing(files, disk.dom());
    assert forall|p: Seq<char>| disk.contains_key(p) implies #[trigger] after.contains_key(p)
        && after[p] == disk[p] by {
        lemma_written(disk, gap, p);
        if names_path(gap, p) {
            let k = choose|k: int| 0 <= k < gap.len() && (#[trigger] gap[k]).path == p;
            assert(!disk.dom().contains(gap[k].path));
        }
    }
    assert forall|i: int| 0 <= i < files.len() implies after.contains_key(
        (#[trigger] files[i]).path,
    ) by {
        lemma_written(disk, gap, files[i].path);
    }
    assert forall|i: int| 0 <= i < files.len() implies after.dom().contains(
        (#[trigger] files[i]).path,
    ) by {
        assert(after.contains_key(files[i].path));
    }
    nothing_is_missing_twice(files, after.dom());
}

/// A start keeps every file that was there as it was. After it the files of the node
/// exist, and for each pane of the panes file its directory, its scripts directory, its
/// player configuration and its playlist. A second start changes nothing.
pub proof fn starts_write_only_what_is_missing(disk: DiskV, config: Seq<char>, home: Seq<char>)
    ensures
        ({
            let after = started_on(disk, config, home);
            let panes = config_on(after.files, config, home).panes;
            &&& forall|p: Seq<char>|
                disk.files.contains_key(p) ==> #[trigger] after.files.contains_key(p)
                    && after.files[p] == disk.files[p]
            &&& forall|i: int|
                0 <= i < skeleton_of(config).len() ==> after.files.contains_key(
                    (#[trigger] skeleton_of(config)[i]).path,
                )
            &&& forall|i: int|
                0 <= i < panes.len() ==> {
                    let n = (#[trigger] panes[i]).mpv_name;
                    &&& after.files.contains_key(pane_file_of(config, n, ".mpv.conf"@))
                    &&& after.files.contains_key(pane_file_of(config, n, ".m3u"@))
                    &&& after.dirs.contains(pane_dir_of(config, n))
                    &&& after.dirs.contains(joined(pane_dir_of(config, n), "scripts"@))
                }
            &&& disk.dirs.subset_of(after.dirs)
            &&& started_on(after, config, home) == after
        }),
{
    let skeleton = skeleton_of(config);
    let first = completed(disk.files, skeleton);
    let panes = config_on(first, config, home).panes;
    let more = panes_skeleton(config, panes);
    let after = started_on(disk, config, home);
    completing_keeps_what_exists(disk.files, skeleton);
    completing_keeps_what_exists(first, more);
    let second = completed(first, more);
    assert(after.files == second);
    assert forall|p: Seq<char>| disk.files.contains_key(p) implies #[trigger] after.files.contains_key(
        p,
    ) && after.files[p] == disk.files[p] by {
        assert(first.contains_key(p));
        assert(second.contains_key(p));
    }
    assert forall|i: int| 0 <= i < skeleton.len() implies after.files.contains_key(
        (#[trigger] skeleton[i]).path,
    ) by {
        assert(first.contains_key(skeleton[i].path));
        assert(second.contains_key(skeleton[i].path));
    }
    // The panes file is there after the first part, and the second keeps it.
    let path = joined(config, "pb.panes.conf"@);
    assert(skeleton[0].path == path);
    assert(first.contains_key(path));
    assert(second.contains_key(path));
    assert(after.files.contains_key(path) && after.files[path] == first[path]);
    assert(config_on(after.files, config, home) == config_on(first, config, home));
    assert forall|i: int| 0 <= i < panes.len() implies {
        let n = (#[trigger] panes[i]).mpv_name;
        &&& after.files.contains_key(pane_file_of(config, n, ".mpv.conf"@))
        &&& after.files.contains_key(pane_file_of(config, n, ".m3u"@))
        &&& after.dirs.contains(pane_dir_of(config, n))
        &&& after.dirs.contains(joined(pane_dir_of(config, n), "scripts"@))
    } by {
        lemma_pane_listed(config, panes, i);
        assert(after.files.contains_key(more[2 * i].path));
        assert(after.files.contains_key(more[2 * i + 1].path));
        let dirs = pane_dirs_of(config, panes);
        assert(dirs.to_set().contains(dirs[2 * i]));
        assert(dirs.to_set().contains(dirs[2 * i + 1]));
    }
    // The second start.
    assert forall|i: int| 0 <= i < skeleton.len() implies after.files.dom().contains(
        (#[trigger] skeleton[i]).path,
    ) by {
        assert(after.files.contains_key(skeleton[i].path));
    }
    nothing_is_missing_twice(skeleton, after.files.dom());
    let again = started_on(after, config, home);
    assert(completed(after.files, skeleton) == after.files);
    assert(again.files == after.files);
    assert(again.dirs =~= after.dirs);
}

/// Where the files and directories of a pane stand among those of all panes.
proof fn lemma_pane_listed(config: Seq<char>, panes: Seq<PaneV>, i: int)
    requires
        0 <= i < panes.len(),
    ensures
        panes_skeleton(config, panes).len() == 2 * panes.len(),
        pane_dirs_of(config, panes).len() == 2 * panes.len(),
        ({
            let n = panes[i].mpv_name;
            let files = panes_skeleton(config, panes);
            let dirs = pane_dirs_of(config, panes);
            &&& files[2 * i].path == pane_file_of(config, n, ".mpv.conf"@)
            &&& files[2 * i + 1].path == pane_file_of(config, n, ".m3u"@)
            &&& dirs[2 * i] == pane_dir_of(config, n)
            &&& dirs[2 * i + 1] == joined(pane_dir_of(config, n), "scripts"@)
        }),
    decreases panes.len(),
{
    let front = panes.drop_last();
    if front.len() > 0 {
        if i < front.len() {
            lemma_pane_listed(config, front, i);
            assert(front[i] == panes[i]);
        } else {
            lemma_pane_listed(config, front, 0);
        }
    } else {
        assert(panes_skeleton(config, front) =~= Seq::empty());
        assert(pane_dirs_of(config, front) =~= Seq::empty());
    }
}

} // verus!
