//! Completing a path that is being typed from what its directory holds.
use crate::paths::{expand_tilde, join, joined, tilde_expanded};
use crate::text::{
    cat, ends_with, in_order, is_empty, last_char, last_index, lemma_strs_push, lower, lowercase,
    rfind_char, sort_strings, starts_with, strs,
};
use vstd::prelude::*;

verus! {

/// What a directory holds: a file, or another directory.
#[derive(Debug)]
pub struct DirItem {
    pub name: String,
    pub is_dir: bool,
}

pub struct DirItemV {
    pub name: Seq<char>,
    pub is_dir: bool,
}

impl DirItem {
    pub open spec fn view(&self) -> DirItemV {
        DirItemV { name: self.name@, is_dir: self.is_dir }
    }
}

pub open spec fn dir_views(v: Seq<DirItem>) -> Seq<DirItemV> {
    Seq::new(v.len(), |i: int| v[i].view())
}

// ---------------------------------------------------------------------------
// Completions of media paths
// ---------------------------------------------------------------------------

/// The directory that is typed into, and the start of the name that is typed.
pub open spec fn typed_parts(input: Seq<char>, home: Option<Seq<char>>) -> (Seq<char>, Seq<char>) {
    let full = tilde_expanded(
        input,
        match home {
            Some(h) => h,
            None => "."@,
        },
    );
    let i = last_index(full, '/');
    if i >= 0 {
        (full.take(i + 1), full.skip(i + 1))
    } else {
        ("./"@, full)
    }
}

/// The endings of the files that are offered.
pub open spec fn offered_endings() -> Seq<Seq<char>> {
    seq![
        "/"@, ".mp4"@, ".mkv"@, ".avi"@, ".mov"@, ".webm"@, ".mp3"@, ".flac"@, ".m4a"@, ".ogg"@,
        ".m3u"@, ".m3u8"@, ".ts"@, ".wmv"@,
    ]
}

/// A path that is offered: a directory, or a media file by its ending.
pub open spec fn is_offered(path: Seq<char>) -> bool {
    exists|i: int|
        0 <= i < offered_endings().len() && (#[trigger] offered_endings()[i]).is_suffix_of(path)
}

/// The path of an entry, a directory with a slash at its end, and the home
/// directory written as `~`.
pub open spec fn offered_path(dir: Seq<char>, e: DirItemV, home: Option<Seq<char>>) -> Seq<char> {
    let full = if e.is_dir {
        dir + e.name + "/"@
    } else {
        dir + e.name
    };
    match home {
        Some(h) if h.len() > 0 && h.is_prefix_of(full) => "~"@ + full.skip(h.len() as int),
        _ => full,
    }
}

/// The completions among the entries of the directory, in the entries' order.
pub open spec fn completions_among(
    items: Seq<DirItemV>,
    dir: Seq<char>,
    prefix: Seq<char>,
    home: Option<Seq<char>>,
) -> Seq<Seq<char>>
    decreases items.len(),
{
    if items.len() == 0 {
        Seq::empty()
    } else {
        let before = completions_among(items.drop_last(), dir, prefix, home);
        let e = items.last();
        if prefix.is_prefix_of(e.name) && is_offered(offered_path(dir, e, home)) {
            before.push(offered_path(dir, e, home))
        } else {
            before
        }
    }
}

pub open spec fn opt_str(s: Option<&str>) -> Option<Seq<char>> {
    match s {
        Some(x) => Some(x@),
        None => None,
    }
}

/// The directory that is typed into, and the start of the name that is typed.
pub fn completion_parts(input: &str, home: Option<&str>) -> (r: (String, String))
    ensures
        (r.0@, r.1@) == typed_parts(input@, opt_str(home)),
{
    let full: String = match home {
        Some(h) => expand_tilde(input, h),
        None => expand_tilde(input, "."),
    };
    let n: usize = full.as_str().unicode_len();
    match rfind_char(full.as_str(), '/') {
        Some(i) => {
            let dir: &str = full.as_str().substring_char(0, i + 1);
            let prefix: &str = full.as_str().substring_char(i + 1, n);
            assert(dir@ =~= full@.take(i + 1));
            assert(prefix@ =~= full@.skip(i + 1));
            (dir.to_owned(), prefix.to_owned())
        },
        None => ("./".to_owned(), full),
    }
}

fn offered(path: &str) -> (r: bool)
    ensures
        r == is_offered(path@),
{
    let endings: Vec<&'static str> = vec![
        "/", ".mp4", ".mkv", ".avi", ".mov", ".webm", ".mp3", ".flac", ".m4a", ".ogg", ".m3u", ".m3u8",
        ".ts", ".wmv",
    ];
    let ghost all = offered_endings();
    assert forall|k: int| 0 <= k < all.len() implies (#[trigger] endings@[k])@ == all[k] by {}
    for i in 0..endings.len()
        invariant
            all == offered_endings(),
            endings@.len() == all.len(),
            forall|k: int| 0 <= k < all.len() ==> (#[trigger] endings@[k])@ == all[k],
            forall|k: int| 0 <= k < i ==> !(#[trigger] all[k]).is_suffix_of(path@),
    {
        assert(endings@[i as int]@ == all[i as int]);
        if ends_with(path, endings[i]) {
            return true;
        }
    }
    false
}

/// The completions of what is typed, in order, from what its directory holds.
pub fn build_completions(input: &str, home: Option<&str>, items: &Vec<DirItem>) -> (r: Vec<String>)
    ensures
        in_order(strs(r@)),
        strs(r@).to_multiset() == ({
            let (dir, prefix) = typed_parts(input@, opt_str(home));
            completions_among(dir_views(items@), dir, prefix, opt_str(home)).to_multiset()
        }),
{
    let (dir, prefix): (String, String) = completion_parts(input, home);
    let ghost all = dir_views(items@);
    let mut out: Vec<String> = Vec::new();
    assert(strs(out@) =~= completions_among(all.take(0), dir@, prefix@, opt_str(home)));
    for i in 0..items.len()
        invariant
            all == dir_views(items@),
            strs(out@) == completions_among(all.take(i as int), dir@, prefix@, opt_str(home)),
    {
        let e: &DirItem = &items[i];
        proof {
            assert(all.take(i + 1).drop_last() =~= all.take(i as int));
            assert(all.take(i + 1).last() == e.view());
        }
        if starts_with(e.name.as_str(), prefix.as_str()) {
            let mut full: String = cat(dir.as_str(), e.name.as_str());
            if e.is_dir {
                full.append("/");
            }
            if let Some(h) = home {
                if !is_empty(h) && starts_with(full.as_str(), h) {
                    let n: usize = full.as_str().unicode_len();
                    let m: usize = h.unicode_len();
                    let rest: &str = full.as_str().substring_char(m, n);
                    assert(rest@ =~= full@.skip(m as int));
                    full = cat("~", rest);
                }
            }
            assert(full@ == offered_path(dir@, e.view(), opt_str(home)));
            if offered(full.as_str()) {
                proof {
                    lemma_strs_push(out@, full);
                }
                out.push(full);
            }
        }
    }
    assert(all.take(all.len() as int) =~= all);
    sort_strings(&out)
}

// ---------------------------------------------------------------------------
// Completions of any path
// ---------------------------------------------------------------------------

/// What `std::path::Path::parent` gives for a path, as text.
pub uninterp spec fn parent_of(path: Seq<char>) -> Option<Seq<char>>;

/// What `std::path::Path::file_name` gives for a path, as text.
pub uninterp spec fn file_name_of(path: Seq<char>) -> Option<Seq<char>>;

/// Calls `std::path::Path::parent`: the path without its last component, which
/// depends on the text of the path alone.
#[verifier::external_body]
fn path_parent(path: &str) -> (r: Option<String>)
    ensures
        crate::text::opt(r) == parent_of(path@),
{
    std::path::Path::new(path).parent().map(|p| p.to_string_lossy().to_string())
}

/// Calls `std::path::Path::file_name`: the last component of the path, which
/// depends on the text of the path alone.
#[verifier::external_body]
fn path_file_name(path: &str) -> (r: Option<String>)
    ensures
        crate::text::opt(r) == file_name_of(path@),
{
    std::path::Path::new(path).file_name().map(|p| p.to_string_lossy().to_string())
}

/// Where to look for what is typed, and the start of the name; nothing for a web
/// address or where nothing is typed.
pub open spec fn lookup_of(input: Seq<char>, home: Seq<char>) -> Option<(Seq<char>, Seq<char>)> {
    let full = tilde_expanded(input, home);
    if input.len() == 0 || "http"@.is_prefix_of(input) || "rtsp"@.is_prefix_of(input) {
        None
    } else if full.len() > 0 && full.last() == '/' {
        Some((full, Seq::empty()))
    } else {
        Some(
            (
                match parent_of(full) {
                    Some(d) => d,
                    None => "."@,
                },
                match file_name_of(full) {
                    Some(f) => f,
                    None => Seq::empty(),
                },
            ),
        )
    }
}

/// Where to look for what is typed, and the start of the name.
pub fn complete_lookup(input: &str, home: &str) -> (r: Option<(String, String)>)
    ensures
        match r {
            Some((d, p)) => lookup_of(input@, home@) == Some((d@, p@)),
            None => lookup_of(input@, home@) is None,
        },
{
    if is_empty(input) || starts_with(input, "http") || starts_with(input, "rtsp") {
        return None;
    }
    let full: String = expand_tilde(input, home);
    if last_char(full.as_str()) == Some('/') {
        return Some((full, String::new()));
    }
    let dir: String = match path_parent(full.as_str()) {
        Some(d) => d,
        None => ".".to_owned(),
    };
    let prefix: String = match path_file_name(full.as_str()) {
        Some(f) => f,
        None => String::new(),
    };
    Some((dir, prefix))
}

/// The paths among the entries whose names begin as typed, in either case.
pub open spec fn matches_among(items: Seq<DirItemV>, dir: Seq<char>, prefix: Seq<char>) -> Seq<Seq<char>>
    decreases items.len(),
{
    if items.len() == 0 {
        Seq::empty()
    } else {
        let before = matches_among(items.drop_last(), dir, prefix);
        let e = items.last();
        let path = joined(dir, e.name);
        if lowercase(prefix).is_prefix_of(lowercase(e.name)) {
            before.push(
                if e.is_dir {
                    path + "/"@
                } else {
                    path
                },
            )
        } else {
            before
        }
    }
}

/// The first eight of all the matches in order.
pub open spec fn is_shortlist(found: Seq<Seq<char>>, all: Seq<Seq<char>>) -> bool {
    exists|sorted: Seq<Seq<char>>|
        #![trigger in_order(sorted)]
        in_order(sorted) && sorted.to_multiset() == all.to_multiset() && found == (if sorted.len()
            > 8 {
            sorted.take(8)
        } else {
            sorted
        })
}

/// At most eight completions of what is typed, in order, from what the directory
/// `dir` holds.
pub fn complete_path(dir: &str, prefix: &str, items: &Vec<DirItem>) -> (r: Vec<String>)
    ensures
        is_shortlist(strs(r@), matches_among(dir_views(items@), dir@, prefix@)),
{
    let ghost all = dir_views(items@);
    let low: String = lower(prefix);
    let mut out: Vec<String> = Vec::new();
    assert(strs(out@) =~= matches_among(all.take(0), dir@, prefix@));
    for i in 0..items.len()
        invariant
            all == dir_views(items@),
            low@ == lowercase(prefix@),
            strs(out@) == matches_among(all.take(i as int), dir@, prefix@),
    {
        let e: &DirItem = &items[i];
        proof {
            assert(all.take(i + 1).drop_last() =~= all.take(i as int));
            assert(all.take(i + 1).last() == e.view());
        }
        let name: String = lower(e.name.as_str());
        if starts_with(name.as_str(), low.as_str()) {
            let mut path: String = join(dir, e.name.as_str());
            if e.is_dir {
                path.append("/");
            }
            proof {
                lemma_strs_push(out@, path);
            }
            out.push(path);
        }
    }
    assert(all.take(all.len() as int) =~= all);
    let mut sorted: Vec<String> = sort_strings(&out);
    let ghost full = strs(sorted@);
    if sorted.len() > 8 {
        sorted.truncate(8);
        assert(strs(sorted@) =~= full.take(8));
    }
    assert(in_order(full));
    sorted
}

} // verus!
