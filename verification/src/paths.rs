//! Where things live: the configuration directory and the files of each pane.
//!
//! A path is its text; parts are joined the way Unix paths are.
use crate::text::{
    after_last, cat, cat3, first_char, is_empty, last_char, lemma_last_index_unique, lower, lowercase,
};
use vstd::prelude::*;

verus! {

/// `base` followed by `part`: a part that begins with `/` stands alone, and one
/// `/` comes between the two unless `base` is empty or already ends in it.
pub open spec fn joined(base: Seq<char>, part: Seq<char>) -> Seq<char> {
    if part.len() > 0 && part[0] == '/' {
        part
    } else if base.len() == 0 || base.last() == '/' {
        base + part
    } else {
        base + "/"@ + part
    }
}

/// The configuration directory: below `xdg` where that is given and not empty, else
/// below `.config` in the home directory, else below the current one.
pub open spec fn config_dir_of(xdg: Option<Seq<char>>, home: Option<Seq<char>>) -> Seq<char> {
    match xdg {
        Some(x) if x.len() > 0 => joined(x, "panebot"@),
        _ => joined(
            match home {
                Some(h) => h,
                None => "."@,
            },
            ".config/panebot"@,
        ),
    }
}

/// The directory of the pane `name`.
pub open spec fn pane_dir_of(config: Seq<char>, name: Seq<char>) -> Seq<char> {
    joined(config, lowercase(name))
}

/// The file of the pane `name` that ends in `suffix`.
pub open spec fn pane_file_of(config: Seq<char>, name: Seq<char>, suffix: Seq<char>) -> Seq<char> {
    joined(pane_dir_of(config, name), lowercase(name) + suffix)
}

/// `base` followed by `part`.
pub fn join(base: &str, part: &str) -> (r: String)
    ensures
        r@ == joined(base@, part@),
{
    if let Some(c) = first_char(part) {
        if c == '/' {
            return part.to_owned();
        }
    }
    match last_char(base) {
        Some(c) => if c == '/' {
            cat(base, part)
        } else {
            cat3(base, "/", part)
        },
        None => cat(base, part),
    }
}

/// The configuration directory, from the values of `XDG_CONFIG_HOME`, which counts on
/// Linux alone, and `HOME`.
pub fn config_dir(linux: bool, xdg: Option<&str>, home: Option<&str>) -> (r: String)
    ensures
        r@ == config_dir_of(
            match xdg {
                Some(x) if linux => Some(x@),
                _ => None,
            },
            match home {
                Some(h) => Some(h@),
                None => None,
            },
        ),
{
    if let Some(x) = xdg {
        if linux && !is_empty(x) {
            return join(x, "panebot");
        }
    }
    match home {
        Some(h) => join(h, ".config/panebot"),
        None => join(".", ".config/panebot"),
    }
}

/// The home directory, from the values of `HOME` and `USERPROFILE`.
pub fn home_dir(home: Option<&str>, profile: Option<&str>) -> (r: String)
    ensures
        r@ == (match (home, profile) {
            (Some(h), _) => h@,
            (None, Some(p)) => p@,
            (None, None) => "."@,
        }),
{
    match home {
        Some(h) => h.to_owned(),
        None => match profile {
            Some(p) => p.to_owned(),
            None => ".".to_owned(),
        },
    }
}

/// Where the layout files are.
pub fn layouts_dir(config: &str) -> (r: String)
    ensures
        r@ == joined(config@, "layouts"@),
{
    join(config, "layouts")
}

/// The file that lists the panes.
pub fn panes_conf(config: &str) -> (r: String)
    ensures
        r@ == joined(config@, "pb.panes.conf"@),
{
    join(config, "pb.panes.conf")
}

/// The file that holds the daemon's mode and the known hosts.
pub fn hosts_conf(config: &str) -> (r: String)
    ensures
        r@ == joined(config@, "pb.daemon.conf"@),
{
    join(config, "pb.daemon.conf")
}

/// The file that lists the pane types.
pub fn types_conf(config: &str) -> (r: String)
    ensures
        r@ == joined(config@, "pb.types.conf"@),
{
    join(config, "pb.types.conf")
}

/// The shared scripts.
pub fn scripts_lib(config: &str) -> (r: String)
    ensures
        r@ == joined(config@, "scripts"@),
{
    join(config, "scripts")
}

/// The daemon's certificate.
pub fn cert_path(config: &str) -> (r: String)
    ensures
        r@ == joined(config@, "pb.crt"@),
{
    join(config, "pb.crt")
}

/// The daemon's key.
pub fn key_path(config: &str) -> (r: String)
    ensures
        r@ == joined(config@, "pb.key"@),
{
    join(config, "pb.key")
}

/// The window rules.
pub fn hypr_rules_path(config: &str) -> (r: String)
    ensures
        r@ == joined(config@, "pb.hypr.conf"@),
{
    join(config, "pb.hypr.conf")
}

/// The directory of a pane.
pub fn pane_dir(config: &str, n: &str) -> (r: String)
    ensures
        r@ == pane_dir_of(config@, n@),
{
    join(config, lower(n).as_str())
}

/// A file of a pane.
fn pane_file(config: &str, n: &str, suffix: &str) -> (r: String)
    ensures
        r@ == pane_file_of(config@, n@, suffix@),
{
    join(pane_dir(config, n).as_str(), cat(lower(n).as_str(), suffix).as_str())
}

/// The scripts of a pane.
pub fn pane_scripts(config: &str, n: &str) -> (r: String)
    ensures
        r@ == joined(pane_dir_of(config@, n@), "scripts"@),
{
    join(pane_dir(config, n).as_str(), "scripts")
}

/// The socket of a pane's player.
pub fn pane_socket(config: &str, n: &str) -> (r: String)
    ensures
        r@ == pane_file_of(config@, n@, ".sock"@),
{
    pane_file(config, n, ".sock")
}

/// The player configuration of a pane.
pub fn pane_mpv_conf(config: &str, n: &str) -> (r: String)
    ensures
        r@ == pane_file_of(config@, n@, ".mpv.conf"@),
{
    pane_file(config, n, ".mpv.conf")
}

/// The playlist file of a pane.
pub fn pane_playlist(config: &str, n: &str) -> (r: String)
    ensures
        r@ == pane_file_of(config@, n@, ".m3u"@),
{
    pane_file(config, n, ".m3u")
}

/// The playlist file of a pane, where the console looks for it.
pub fn pane_playlist_path(config: &str, pane_name: &str) -> (r: String)
    ensures
        r@ == pane_file_of(config@, pane_name@, ".m3u"@),
{
    pane_playlist(config, pane_name)
}

/// A leading `~` stands for the home directory.
pub open spec fn tilde_expanded(path: Seq<char>, home: Seq<char>) -> Seq<char> {
    if path.len() > 0 && path[0] == '~' {
        home + path.skip(1)
    } else {
        path
    }
}

/// `path` with a leading `~` replaced by the home directory.
pub fn expand_tilde(path: &str, home: &str) -> (r: String)
    ensures
        r@ == tilde_expanded(path@, home@),
{
    match first_char(path) {
        Some(c) => if c == '~' {
            let n: usize = path.unicode_len();
            let rest: &str = path.substring_char(1, n);
            assert(rest@ =~= path@.skip(1));
            cat(home, rest)
        } else {
            path.to_owned()
        },
        None => path.to_owned(),
    }
}

/// Panes whose names differ in lower case share no file: neither their sockets,
/// nor their playlists, nor their player configurations.
pub proof fn pane_files_are_distinct(
    config: Seq<char>,
    a: Seq<char>,
    b: Seq<char>,
    suffix: Seq<char>,
)
    requires
        lowercase(a) != lowercase(b),
        lowercase(a).len() > 0 && lowercase(a)[0] != '/' && lowercase(a).last() != '/',
        lowercase(b).len() > 0 && lowercase(b)[0] != '/' && lowercase(b).last() != '/',
    ensures
        pane_file_of(config, a, suffix) != pane_file_of(config, b, suffix),
{
    reveal_strlit("/");
    let la = lowercase(a);
    let lb = lowercase(b);
    let pa = pane_file_of(config, a, suffix);
    let pb = pane_file_of(config, b, suffix);
    let c = if config.len() == 0 || config.last() == '/' {
        config
    } else {
        config + "/"@
    };
    assert(pane_dir_of(config, a) =~= c + la);
    assert(pane_dir_of(config, b) =~= c + lb);
    assert((c + la).last() == la.last());
    assert((c + lb).last() == lb.last());
    assert((la + suffix)[0] == la[0]);
    assert((lb + suffix)[0] == lb[0]);
    assert(pa =~= c + la + "/"@ + la + suffix);
    assert(pb =~= c + lb + "/"@ + lb + suffix);
    if pa == pb {
        assert(pa.len() == pb.len());
        assert(la.len() == lb.len());
        assert forall|i: int| 0 <= i < la.len() implies la[i] == lb[i] by {
            assert(pa[c.len() + i] == la[i]);
            assert(pb[c.len() + i] == lb[i]);
        }
        assert(la =~= lb);
    }
}

/// What follows the last slash of a path that is made of a directory and a name without
/// one is that name.
proof fn lemma_name_in(dir: Seq<char>, name: Seq<char>)
    requires
        !name.contains('/'),
    ensures
        after_last(joined(dir, name), '/') == name,
{
    reveal_strlit("/");
    let p = joined(dir, name);
    if name.len() > 0 {
        assert(name[0] != '/');
    }
    if dir.len() == 0 {
        assert(p =~= name);
        lemma_last_index_unique(p, '/', -1);
        assert(p.skip(0) =~= name);
    } else {
        let i = p.len() - name.len() - 1;
        assert(p[i] == '/');
        assert forall|j: int| i < j < p.len() implies p[j] != '/' by {
            assert(p[j] == name[j - i - 1]);
        }
        lemma_last_index_unique(p, '/', i);
        assert(p.skip(i + 1) =~= name);
    }
}

/// The files of a pane are four different ones: its socket, its player configuration, its
/// playlist and its scripts, whatever its name. Where the name holds no slash in lower
/// case, each lies directly in the directory of the pane: behind the last slash of its
/// path stands its own name.
pub proof fn files_of_one_pane(config: Seq<char>, n: Seq<char>)
    ensures
        ({
            let dir = pane_dir_of(config, n);
            let l = lowercase(n);
            let sock = pane_file_of(config, n, ".sock"@);
            let conf = pane_file_of(config, n, ".mpv.conf"@);
            let list = pane_file_of(config, n, ".m3u"@);
            let scripts = joined(dir, "scripts"@);
            &&& sock != conf && sock != list && sock != scripts
            &&& conf != list && conf != scripts && list != scripts
            &&& sock == joined(dir, l + ".sock"@)
            &&& conf == joined(dir, l + ".mpv.conf"@)
            &&& list == joined(dir, l + ".m3u"@)
            &&& !l.contains('/') ==> {
                &&& after_last(sock, '/') == l + ".sock"@
                &&& after_last(conf, '/') == l + ".mpv.conf"@
                &&& after_last(list, '/') == l + ".m3u"@
                &&& after_last(scripts, '/') == "scripts"@
            }
        }),
{
    reveal_strlit("/");
    reveal_strlit(".sock");
    reveal_strlit(".mpv.conf");
    reveal_strlit(".m3u");
    reveal_strlit("scripts");
    let dir = pane_dir_of(config, n);
    let l = lowercase(n);
    let a = l + ".sock"@;
    let b = l + ".mpv.conf"@;
    let c = l + ".m3u"@;
    assert(a.last() == 'k' && b.last() == 'f' && c.last() == 'u' && "scripts"@.last() == 's');
    lemma_ends(dir, a);
    lemma_ends(dir, b);
    lemma_ends(dir, c);
    lemma_ends(dir, "scripts"@);
    if !l.contains('/') {
        assert forall|j: int| 0 <= j < a.len() implies a[j] != '/' by {
            if j < l.len() {
                assert(a[j] == l[j]);
            }
        }
        assert forall|j: int| 0 <= j < b.len() implies b[j] != '/' by {
            if j < l.len() {
                assert(b[j] == l[j]);
            }
        }
        assert forall|j: int| 0 <= j < c.len() implies c[j] != '/' by {
            if j < l.len() {
                assert(c[j] == l[j]);
            }
        }
        lemma_name_in(dir, a);
        lemma_name_in(dir, b);
        lemma_name_in(dir, c);
        lemma_name_in(dir, "scripts"@);
    }
}

/// A path ends as its last part does.
proof fn lemma_ends(dir: Seq<char>, part: Seq<char>)
    requires
        part.len() > 0,
    ensures
        joined(dir, part).len() > 0,
        joined(dir, part).last() == part.last(),
{
}

/// A path without a leading `~` is its own expansion.
pub proof fn tilde_free_paths_are_kept(path: Seq<char>, home: Seq<char>)
    requires
        path.len() == 0 || path[0] != '~',
    ensures
        tilde_expanded(path, home) == path,
{
}

} // verus!
