//! What is found below directories, what is offered for a typed path, and what a new node
//! is given.
use crate::boot::{node_dirs, pane_dirs, pane_files};
use crate::complete::{
    build_completions, complete_lookup, complete_path, completion_parts, completions_among,
    dir_views, matches_among, offered_path, opt_str, DirItem, DirItemV,
};
use crate::config::{Pane, PaneV};
use crate::node::{file_views, mpv_conf_of, FileText, FileTextV};
use crate::paths::{joined, pane_dir_of, pane_file_of};
use crate::text::{in_order, lemma_last_index_unique, lowercase, strs, without_trailing};
use crate::walk::{
    collect_media_files, every_file_is_listed, every_media_file_is_collected, file_paths,
    is_media_name, media_paths, node_views, walk_dir, DirNode, DirNodeV,
};
use vstd::prelude::*;

verus! {

// ---------------------------------------------------------------------------
// Files below a directory
// ---------------------------------------------------------------------------

/// The path of something in a directory that is named without a slash at its end.
pub open spec fn below(dir: Seq<char>, name: Seq<char>) -> Seq<char> {
    dir + seq!['/'] + name
}

/// A directory that is named without a slash at its end.
pub open spec fn bare(dir: Seq<char>) -> bool {
    dir.len() > 0 && dir.last() != '/'
}

proof fn lemma_bare(dir: Seq<char>)
    requires
        bare(dir),
    ensures
        without_trailing(dir, '/') == dir,
        without_trailing(dir + seq!['/'], '/') == dir,
{
    assert((dir + seq!['/']).drop_last() =~= dir);
    reveal_with_fuel(without_trailing, 3);
}

proof fn lemma_joined(dir: Seq<char>, name: Seq<char>)
    requires
        bare(dir),
        name.len() == 0 || name[0] != '/',
    ensures
        joined(dir, name) == below(dir, name),
{
    reveal_strlit("/");
    assert("/"@ =~= seq!['/']);
}

/// What is listed below a directory is each file in it, by its path, and each file below
/// each directory in it; and nothing else.
pub proof fn files_are_listed_by_their_path(dir: Seq<char>, s: Seq<DirNodeV>, x: Seq<char>)
    requires
        bare(dir),
        forall|i: int|
            0 <= i < s.len() ==> (#[trigger] s[i]).name.len() > 0 && s[i].name[0] != '/',
    ensures
        file_paths(dir, s).contains(x) <==> exists|i: int|
            0 <= i < s.len() && (if (#[trigger] s[i]).is_dir {
                file_paths(below(dir, s[i].name) + seq!['/'], s[i].below).contains(x)
            } else {
                x == below(dir, s[i].name)
            }),
        file_paths(dir + seq!['/'], s) == file_paths(dir, s),
    decreases s.len(),
{
    reveal_strlit("/");
    assert("/"@ =~= seq!['/']);
    lemma_bare(dir);
    if s.len() > 0 {
        let front = s.drop_last();
        assert forall|i: int| 0 <= i < front.len() implies (#[trigger] front[i]).name.len() > 0
            && front[i].name[0] != '/' by {
            assert(front[i] == s[i]);
        }
        files_are_listed_by_their_path(dir, front, x);
        let e = s[s.len() - 1];
        lemma_joined(dir, e.name);
        let more = if e.is_dir {
            file_paths(below(dir, e.name) + seq!['/'], e.below)
        } else {
            seq![below(dir, e.name)]
        };
        let before = file_paths(dir, front);
        let all = file_paths(dir, s);
        assert(all == before + more);
        if all.contains(x) {
            let k = choose|k: int| 0 <= k < all.len() && all[k] == x;
            if k < before.len() {
                assert(before[k] == x);
                let i = choose|i: int|
                    0 <= i < front.len() && (if (#[trigger] front[i]).is_dir {
                        file_paths(below(dir, front[i].name) + seq!['/'], front[i].below).contains(
                            x,
                        )
                    } else {
                        x == below(dir, front[i].name)
                    });
                assert(s[i] == front[i]);
            } else {
                assert(more[k - before.len()] == x);
                assert(s[s.len() - 1] == e);
            }
        }
        if exists|i: int|
            0 <= i < s.len() && (if (#[trigger] s[i]).is_dir {
                file_paths(below(dir, s[i].name) + seq!['/'], s[i].below).contains(x)
            } else {
                x == below(dir, s[i].name)
            }) {
            let i = choose|i: int|
                0 <= i < s.len() && (if (#[trigger] s[i]).is_dir {
                    file_paths(below(dir, s[i].name) + seq!['/'], s[i].below).contains(x)
                } else {
                    x == below(dir, s[i].name)
                });
            if i < front.len() {
                assert(front[i] == s[i]);
                let k = choose|k: int| 0 <= k < before.len() && before[k] == x;
                assert(all[k] == x);
            } else if e.is_dir {
                let k = choose|k: int| 0 <= k < more.len() && more[k] == x;
                assert(all[before.len() + k] == x);
            } else {
                assert(all[before.len() as int] == x);
            }
        }
    }
}

/// A walk gives every file below the directory, each as often as it is there, and nothing
/// else.
pub proof fn walks_give_every_file(dir: &str, nodes: Vec<DirNode>, r: Vec<String>)
    requires
        call_ensures(walk_dir, (dir, nodes), r),
    ensures
        strs(r@).to_multiset() == file_paths(dir@, node_views(nodes@)).to_multiset(),
{
    every_file_is_listed(dir@, node_views(nodes@));
}

/// What is collected below a directory is each media file in it, by its path, and each
/// media file below each directory in it; and nothing else.
pub proof fn media_is_collected_by_its_path(dir: Seq<char>, s: Seq<DirNodeV>, x: Seq<char>)
    requires
        bare(dir),
        forall|i: int|
            0 <= i < s.len() ==> (#[trigger] s[i]).name.len() > 0 && s[i].name[0] != '/',
    ensures
        media_paths(dir, s).contains(x) <==> exists|i: int|
            0 <= i < s.len() && (if (#[trigger] s[i]).is_dir {
                media_paths(below(dir, s[i].name), s[i].below).contains(x)
            } else {
                x == below(dir, s[i].name) && is_media_name(s[i].name)
            }),
    decreases s.len(),
{
    if s.len() > 0 {
        let front = s.drop_last();
        assert forall|i: int| 0 <= i < front.len() implies (#[trigger] front[i]).name.len() > 0
            && front[i].name[0] != '/' by {
            assert(front[i] == s[i]);
        }
        media_is_collected_by_its_path(dir, front, x);
        let e = s[s.len() - 1];
        lemma_joined(dir, e.name);
        let more = if e.is_dir {
            media_paths(below(dir, e.name), e.below)
        } else if is_media_name(e.name) {
            seq![below(dir, e.name)]
        } else {
            Seq::empty()
        };
        let before = media_paths(dir, front);
        let all = media_paths(dir, s);
        assert(all == before + more);
        if all.contains(x) {
            let k = choose|k: int| 0 <= k < all.len() && all[k] == x;
            if k < before.len() {
                assert(before[k] == x);
                let i = choose|i: int|
                    0 <= i < front.len() && (if (#[trigger] front[i]).is_dir {
                        media_paths(below(dir, front[i].name), front[i].below).contains(x)
                    } else {
                        x == below(dir, front[i].name) && is_media_name(front[i].name)
                    });
                assert(s[i] == front[i]);
            } else {
                assert(more[k - before.len()] == x);
                assert(s[s.len() - 1] == e);
            }
        }
        if exists|i: int|
            0 <= i < s.len() && (if (#[trigger] s[i]).is_dir {
                media_paths(below(dir, s[i].name), s[i].below).contains(x)
            } else {
                x == below(dir, s[i].name) && is_media_name(s[i].name)
            }) {
            let i = choose|i: int|
                0 <= i < s.len() && (if (#[trigger] s[i]).is_dir {
                    media_paths(below(dir, s[i].name), s[i].below).contains(x)
                } else {
                    x == below(dir, s[i].name) && is_media_name(s[i].name)
                });
            if i < front.len() {
                assert(front[i] == s[i]);
                let k = choose|k: int| 0 <= k < before.len() && before[k] == x;
                assert(all[k] == x);
            } else if e.is_dir {
                let k = choose|k: int| 0 <= k < more.len() && more[k] == x;
                assert(all[before.len() + k] == x);
            } else {
                assert(all[before.len() as int] == x);
            }
        }
    }
}

/// Every media file below the directory is collected, each as often as it is there.
pub proof fn every_media_file_is_given(dir: &str, nodes: Vec<DirNode>, r: Vec<String>)
    requires
        call_ensures(collect_media_files, (dir, nodes), r),
    ensures
        strs(r@).to_multiset() == media_paths(dir@, node_views(nodes@)).to_multiset(),
{
    every_media_file_is_collected(dir@, node_views(nodes@));
}

// ---------------------------------------------------------------------------
// Completions
// ---------------------------------------------------------------------------

/// What is typed is cut at its last slash: before it the directory to look into, behind it
/// the start of the name that is looked for.
pub proof fn typed_paths_are_cut_at_the_last_slash(
    input: &str,
    home: Option<&str>,
    r: (String, String),
    dir: Seq<char>,
    name: Seq<char>,
)
    requires
        input@ == dir + seq!['/'] + name,
        dir.len() == 0 || dir[0] != '~',
        forall|i: int| 0 <= i < name.len() ==> #[trigger] name[i] != '/',
        call_ensures(completion_parts, (input, home), r),
    ensures
        r.0@ == dir + seq!['/'],
        r.1@ == name,
{
    let s = input@;
    let k = dir.len() as int;
    assert(s[0] != '~') by {
        if k > 0 {
            assert(s[0] == dir[0]);
        } else {
            assert(s[0] == '/');
        }
    }
    assert(s[k] == '/');
    assert forall|j: int| k < j < s.len() implies s[j] != '/' by {
        assert(s[j] == name[j - k - 1]);
    }
    lemma_last_index_unique(s, '/', k);
    assert(s.take(k + 1) =~= dir + seq!['/']);
    assert(s.skip(k + 1) =~= name);
}

/// The path of an entry, a directory with a slash at its end.
pub open spec fn path_offered(dir: Seq<char>, e: DirItemV) -> Seq<char> {
    if e.is_dir {
        below(dir, e.name) + seq!['/']
    } else {
        below(dir, e.name)
    }
}

/// The path of an entry whose name begins as typed, in either case.
pub open spec fn completes(
    items: Seq<DirItemV>,
    dir: Seq<char>,
    prefix: Seq<char>,
    x: Seq<char>,
) -> bool {
    exists|k: int|
        0 <= k < items.len() && x == path_offered(dir, #[trigger] items[k]) && lowercase(
            prefix,
        ).is_prefix_of(lowercase(items[k].name))
}

/// The completions of a typed path are the entries of its directory whose names begin as
/// typed, in either case, each by its path and a directory with a slash at its end: the
/// first eight of them in order.
pub proof fn completions_begin_as_typed(
    dir: &str,
    prefix: &str,
    items: &Vec<DirItem>,
    r: Vec<String>,
)
    requires
        bare(dir@),
        forall|i: int|
            0 <= i < items@.len() ==> (#[trigger] items@[i]).name@.len() > 0 && items@[i].name@[0]
                != '/',
        call_ensures(complete_path, (dir, prefix, items), r),
    ensures
        r@.len() <= 8,
        forall|i: int|
            0 <= i < r@.len() ==> completes(
                dir_views(items@),
                dir@,
                prefix@,
                (#[trigger] r@[i])@,
            ),
        items@.len() <= 8 ==> r@.len() == dir_views(items@).filter(
            |e: DirItemV| lowercase(prefix@).is_prefix_of(lowercase(e.name)),
        ).len(),
{
    let all = dir_views(items@);
    assert forall|i: int| 0 <= i < all.len() implies (#[trigger] all[i]).name.len() > 0
        && all[i].name[0] != '/' by {
        assert(items@[i].name@.len() > 0);
    }
    lemma_matches(all, dir@, prefix@);
    let found = matches_among(all, dir@, prefix@);
    let sorted = choose|sorted: Seq<Seq<char>>|
        #![trigger in_order(sorted)]
        in_order(sorted) && sorted.to_multiset() == found.to_multiset() && strs(r@) == (
        if sorted.len() > 8 {
            sorted.take(8)
        } else {
            sorted
        });
    found.to_multiset_ensures();
    sorted.to_multiset_ensures();
    assert(sorted.len() == found.len());
    assert(strs(r@).len() == r@.len());
    assert forall|i: int| 0 <= i < r@.len() implies completes(
        all,
        dir@,
        prefix@,
        (#[trigger] r@[i])@,
    ) by {
        assert(strs(r@)[i] == r@[i]@);
        assert(sorted[i] == r@[i]@);
        assert(sorted.contains(r@[i]@));
        assert(sorted.to_multiset().count(r@[i]@) > 0);
        assert(found.contains(r@[i]@));
        let j = choose|j: int| 0 <= j < found.len() && found[j] == r@[i]@;
        assert(completes(all, dir@, prefix@, found[j]));
    }
}

proof fn lemma_matches(items: Seq<DirItemV>, dir: Seq<char>, prefix: Seq<char>)
    requires
        bare(dir),
        forall|i: int|
            0 <= i < items.len() ==> (#[trigger] items[i]).name.len() > 0 && items[i].name[0]
                != '/',
    ensures
        matches_among(items, dir, prefix).len() == items.filter(
            |e: DirItemV| lowercase(prefix).is_prefix_of(lowercase(e.name)),
        ).len(),
        matches_among(items, dir, prefix).len() <= items.len(),
        forall|j: int|
            0 <= j < matches_among(items, dir, prefix).len() ==> completes(
                items,
                dir,
                prefix,
                #[trigger] matches_among(items, dir, prefix)[j],
            ),
    decreases items.len(),
{
    reveal(Seq::filter);
    reveal_strlit("/");
    assert("/"@ =~= seq!['/']);
    if items.len() > 0 {
        let front = items.drop_last();
        assert forall|i: int| 0 <= i < front.len() implies (#[trigger] front[i]).name.len() > 0
            && front[i].name[0] != '/' by {
            assert(front[i] == items[i]);
        }
        lemma_matches(front, dir, prefix);
        let e = items[items.len() - 1];
        lemma_joined(dir, e.name);
        let all = matches_among(items, dir, prefix);
        let before = matches_among(front, dir, prefix);
        assert forall|j: int| 0 <= j < all.len() implies completes(
            items,
            dir,
            prefix,
            #[trigger] all[j],
        ) by {
            if j < before.len() {
                assert(all[j] == before[j]);
                assert(completes(front, dir, prefix, before[j]));
                let k = choose|k: int|
                    0 <= k < front.len() && before[j] == path_offered(dir, #[trigger] front[k])
                        && lowercase(prefix).is_prefix_of(lowercase(front[k].name));
                assert(items[k] == front[k]);
            } else {
                assert(all[j] == path_offered(dir, items[items.len() - 1]));
            }
        }
    }
}

/// Nothing is looked up for a web address or for nothing; a path that ends in a slash is
/// looked into as it is.
pub proof fn addresses_are_not_completed(input: &str, home: &str, r: Option<(String, String)>)
    requires
        call_ensures(complete_lookup, (input, home), r),
    ensures
        input@.len() == 0 || "http"@.is_prefix_of(input@) || "rtsp"@.is_prefix_of(input@) ==> r
            is None,
        input@.len() > 0 && !"http"@.is_prefix_of(input@) && !"rtsp"@.is_prefix_of(input@)
            ==> r is Some,
        r matches Some((d, p)) ==> input@[0] != '~' && input@.last() == '/' ==> d@ == input@
            && p@.len() == 0,
{
}

/// The completions of a typed media path are the entries of its directory that are offered
/// and whose names begin as typed, each by its path, all of them and in order.
pub proof fn media_completions_begin_as_typed(
    input: &str,
    home: Option<&str>,
    items: &Vec<DirItem>,
    r: Vec<String>,
)
    requires
        call_ensures(build_completions, (input, home, items), r),
    ensures
        ({
            let parts = crate::complete::typed_parts(input@, opt_str(home));
            let fit = dir_views(items@).filter(
                |e: DirItemV|
                    parts.1.is_prefix_of(e.name) && crate::complete::is_offered(
                        offered_path(parts.0, e, opt_str(home)),
                    ),
            );
            &&& in_order(strs(r@))
            &&& strs(r@).to_multiset() == fit.map_values(
                |e: DirItemV| offered_path(parts.0, e, opt_str(home)),
            ).to_multiset()
        }),
{
    let parts = crate::complete::typed_parts(input@, opt_str(home));
    lemma_completions(dir_views(items@), parts.0, parts.1, opt_str(home));
}

proof fn lemma_completions(
    items: Seq<DirItemV>,
    dir: Seq<char>,
    prefix: Seq<char>,
    home: Option<Seq<char>>,
)
    ensures
        completions_among(items, dir, prefix, home) == items.filter(
            |e: DirItemV|
                prefix.is_prefix_of(e.name) && crate::complete::is_offered(
                    offered_path(dir, e, home),
                ),
        ).map_values(|e: DirItemV| offered_path(dir, e, home)),
    decreases items.len(),
{
    reveal(Seq::filter);
    let p = |e: DirItemV|
        prefix.is_prefix_of(e.name) && crate::complete::is_offered(offered_path(dir, e, home));
    let f = |e: DirItemV| offered_path(dir, e, home);
    let some = items.filter(p);
    if items.len() > 0 {
        lemma_completions(items.drop_last(), dir, prefix, home);
        let before = items.drop_last().filter(p);
        if p(items.last()) {
            assert(some.map_values(f) =~= before.map_values(f).push(f(items.last())));
        }
    } else {
        assert(some.map_values(f) =~= Seq::empty());
    }
}

/// A path is offered where it ends as a directory or as one of these kinds of media.
pub proof fn these_endings_are_offered(path: Seq<char>)
    ensures
        crate::complete::is_offered(path) <==> "/"@.is_suffix_of(path) || ".mp4"@.is_suffix_of(path)
            || ".mkv"@.is_suffix_of(path) || ".avi"@.is_suffix_of(path) || ".mov"@.is_suffix_of(
            path,
        ) || ".webm"@.is_suffix_of(path) || ".mp3"@.is_suffix_of(path) || ".flac"@.is_suffix_of(
            path,
        ) || ".m4a"@.is_suffix_of(path) || ".ogg"@.is_suffix_of(path) || ".m3u"@.is_suffix_of(path)
            || ".m3u8"@.is_suffix_of(path) || ".ts"@.is_suffix_of(path) || ".wmv"@.is_suffix_of(
            path,
        ),
{
    let all = crate::complete::offered_endings();
    assert(all[0] == "/"@ && all[1] == ".mp4"@ && all[2] == ".mkv"@ && all[3] == ".avi"@ && all[4]
        == ".mov"@ && all[5] == ".webm"@ && all[6] == ".mp3"@ && all[7] == ".flac"@ && all[8]
        == ".m4a"@ && all[9] == ".ogg"@ && all[10] == ".m3u"@ && all[11] == ".m3u8"@ && all[12]
        == ".ts"@ && all[13] == ".wmv"@);
}

// ---------------------------------------------------------------------------
// What a new pane is given
// ---------------------------------------------------------------------------

/// Every pane is given a player configuration and an empty playlist, in its own directory.
pub proof fn new_panes_are_given_files(config: &str, panes: &Vec<Pane>, r: Vec<FileText>, i: int)
    requires
        0 <= i < panes@.len(),
        call_ensures(pane_files, (config, panes), r),
    ensures
        r@.len() == 2 * panes@.len(),
        r@[2 * i].path@ == pane_file_of(config@, panes@[i].mpv_name@, ".mpv.conf"@),
        r@[2 * i].text@ == mpv_conf_of(config@, panes@[i].mpv_name@),
        r@[2 * i + 1].path@ == pane_file_of(config@, panes@[i].mpv_name@, ".m3u"@),
        r@[2 * i + 1].text@ == "#EXTM3U\n"@,
{
    let all = crate::config::pane_views(panes@);
    lemma_skeleton(config@, all, i);
    let v = file_views(r@);
    assert(v.len() == r@.len());
    assert(v[2 * i] == r@[2 * i].view());
    assert(v[2 * i + 1] == r@[2 * i + 1].view());
    assert(all[i] == panes@[i].view());
}

proof fn lemma_skeleton(config: Seq<char>, panes: Seq<PaneV>, i: int)
    ensures
        crate::boot::panes_skeleton(config, panes).len() == 2 * panes.len(),
        0 <= i < panes.len() ==> crate::boot::panes_skeleton(config, panes)[2 * i] == (FileTextV {
            path: pane_file_of(config, panes[i].mpv_name, ".mpv.conf"@),
            text: mpv_conf_of(config, panes[i].mpv_name),
        }) && crate::boot::panes_skeleton(config, panes)[2 * i + 1] == (FileTextV {
            path: pane_file_of(config, panes[i].mpv_name, ".m3u"@),
            text: "#EXTM3U\n"@,
        }),
    decreases panes.len(),
{
    if panes.len() > 0 {
        lemma_skeleton(config, panes.drop_last(), i);
    }
}

/// Every pane is given a directory, and one in it for scripts; the node itself is given
/// its own and one for layouts.
pub proof fn new_panes_are_given_directories(
    config: &str,
    panes: &Vec<Pane>,
    r: Vec<String>,
    n: Vec<String>,
    i: int,
)
    requires
        0 <= i < panes@.len(),
        call_ensures(pane_dirs, (config, panes), r),
        call_ensures(node_dirs, (config,), n),
    ensures
        r@.len() == 2 * panes@.len(),
        r@[2 * i]@ == pane_dir_of(config@, panes@[i].mpv_name@),
        r@[2 * i + 1]@ == joined(r@[2 * i]@, "scripts"@),
        strs(n@) == seq![config@, joined(config@, "layouts"@)],
{
    let all = crate::config::pane_views(panes@);
    lemma_dirs(config@, all, i);
    let v = strs(r@);
    assert(v.len() == r@.len());
    assert(v[2 * i] == r@[2 * i]@);
    assert(v[2 * i + 1] == r@[2 * i + 1]@);
    assert(all[i] == panes@[i].view());
}

proof fn lemma_dirs(config: Seq<char>, panes: Seq<PaneV>, i: int)
    ensures
        crate::boot::pane_dirs_of(config, panes).len() == 2 * panes.len(),
        0 <= i < panes.len() ==> crate::boot::pane_dirs_of(config, panes)[2 * i] == pane_dir_of(
            config,
            panes[i].mpv_name,
        ) && crate::boot::pane_dirs_of(config, panes)[2 * i + 1] == joined(
            pane_dir_of(config, panes[i].mpv_name),
            "scripts"@,
        ),
    decreases panes.len(),
{
    if panes.len() > 0 {
        lemma_dirs(config, panes.drop_last(), i);
    }
}

} // verus!
