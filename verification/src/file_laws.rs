//! What files are called, and what the configuration files say.
use crate::config::{
    bind_address, hosts_of, is_remote, layout_entry, load_config, load_daemon_mode, load_hosts,
    load_types, options_of, parse_layout, says_remote, Config, Host, Layout, PaneType,
};
use crate::ini::{ini_of, last_value, line_of, pair_of, LineV, SectionV};
use crate::names::{
    decoded_bytes, display_name, hex_byte, is_media, plain_text_decodes_to_itself, strip_ext,
    PlaylistItem,
};
use crate::node_laws::gives;
use crate::paths::{
    cert_path, config_dir, expand_tilde, home_dir, hosts_conf, key_path, layouts_dir, pane_dir,
    pane_mpv_conf, pane_playlist, pane_playlist_path, pane_scripts, pane_socket, panes_conf,
    types_conf,
};
use crate::text::{
    after_last, last_index, lemma_first_index_unique, lemma_last_index_unique, lemma_trimmed_fixed,
    lines, lowercase, opt, strs, trimmed,
};
use vstd::prelude::*;

verus! {

// ---------------------------------------------------------------------------
// Places
// ---------------------------------------------------------------------------

/// A directory that is named without a slash at its end.
pub open spec fn plain_dir(d: Seq<char>) -> bool {
    d.len() > 0 && d.last() != '/'
}

/// The files of a pane lie in a directory of its own below the configuration, both named
/// by the pane in lower case: its socket, its player configuration and its playlist.
pub proof fn pane_files_lie_in_the_panes_directory(
    config: &str,
    n: &str,
    dir: String,
    sock: String,
    conf: String,
    list: String,
    shown: String,
    scripts: String,
)
    requires
        plain_dir(config@),
        plain_dir(lowercase(n@)),
        lowercase(n@)[0] != '/',
        call_ensures(pane_dir, (config, n), dir),
        call_ensures(pane_socket, (config, n), sock),
        call_ensures(pane_mpv_conf, (config, n), conf),
        call_ensures(pane_playlist, (config, n), list),
        call_ensures(pane_playlist_path, (config, n), shown),
        call_ensures(pane_scripts, (config, n), scripts),
    ensures
        dir@ == config@ + seq!['/'] + lowercase(n@),
        sock@ == dir@ + seq!['/'] + lowercase(n@) + ".sock"@,
        conf@ == dir@ + seq!['/'] + lowercase(n@) + ".mpv.conf"@,
        list@ == dir@ + seq!['/'] + lowercase(n@) + ".m3u"@,
        shown@ == list@,
        scripts@ == dir@ + seq!['/'] + "scripts"@,
{
    reveal_strlit("/");
    reveal_strlit(".sock");
    reveal_strlit(".mpv.conf");
    reveal_strlit(".m3u");
    reveal_strlit("scripts");
    assert("/"@ =~= seq!['/']);
    let l = lowercase(n@);
    assert(dir@ =~= config@ + seq!['/'] + l);
    assert(dir@.last() == l.last());
    assert((l + ".sock"@)[0] == l[0]);
    assert((l + ".mpv.conf"@)[0] == l[0]);
    assert((l + ".m3u"@)[0] == l[0]);
    assert("scripts"@[0] == 's');
    assert(sock@ =~= dir@ + seq!['/'] + l + ".sock"@);
    assert(conf@ =~= dir@ + seq!['/'] + l + ".mpv.conf"@);
    assert(list@ =~= dir@ + seq!['/'] + l + ".m3u"@);
}

/// The configuration lies below the directory that is given for configurations on Linux,
/// and below `.config` in the home directory otherwise.
pub proof fn the_configuration_has_its_place(
    linux: bool,
    xdg: Option<&str>,
    home: &str,
    r: String,
)
    requires
        plain_dir(home@),
        xdg matches Some(x) ==> x@.len() == 0 || x@.last() != '/',
        call_ensures(config_dir, (linux, xdg, Some(home)), r),
    ensures
        linux && xdg is Some && xdg->0@.len() > 0 ==> r@ == xdg->0@ + "/panebot"@,
        !(linux && xdg is Some && xdg->0@.len() > 0) ==> r@ == home@ + "/.config/panebot"@,
{
    reveal_strlit("/");
    reveal_strlit("panebot");
    reveal_strlit("/panebot");
    reveal_strlit(".config/panebot");
    reveal_strlit("/.config/panebot");
    assert("/panebot"@ =~= "/"@ + "panebot"@);
    assert("/.config/panebot"@ =~= "/"@ + ".config/panebot"@);
    if xdg is Some {
        assert(xdg->0@ + "/"@ + "panebot"@ =~= xdg->0@ + "/panebot"@);
    }
    assert(home@ + "/"@ + ".config/panebot"@ =~= home@ + "/.config/panebot"@);
}

/// The files of the configuration have fixed names.
pub proof fn configuration_files_have_names(
    config: &str,
    layouts: String,
    panes: String,
    hosts: String,
    types: String,
    crt: String,
    key: String,
)
    requires
        plain_dir(config@),
        call_ensures(layouts_dir, (config,), layouts),
        call_ensures(panes_conf, (config,), panes),
        call_ensures(hosts_conf, (config,), hosts),
        call_ensures(types_conf, (config,), types),
        call_ensures(cert_path, (config,), crt),
        call_ensures(key_path, (config,), key),
    ensures
        layouts@ == config@ + seq!['/'] + "layouts"@,
        panes@ == config@ + seq!['/'] + "pb.panes.conf"@,
        hosts@ == config@ + seq!['/'] + "pb.daemon.conf"@,
        types@ == config@ + seq!['/'] + "pb.types.conf"@,
        crt@ == config@ + seq!['/'] + "pb.crt"@,
        key@ == config@ + seq!['/'] + "pb.key"@,
{
    reveal_strlit("/");
    assert("/"@ =~= seq!['/']);
    reveal_strlit("layouts");
    reveal_strlit("pb.panes.conf");
    reveal_strlit("pb.daemon.conf");
    reveal_strlit("pb.types.conf");
    reveal_strlit("pb.crt");
    reveal_strlit("pb.key");
}

/// A leading `~` stands for the home directory; any other path stays as it is.
pub proof fn a_tilde_is_the_home_directory(path: &str, home: &str, r: String, rest: Seq<char>)
    requires
        call_ensures(expand_tilde, (path, home), r),
    ensures
        path@ == seq!['~'] + rest ==> r@ == home@ + rest,
        path@.len() == 0 || path@[0] != '~' ==> r@ == path@,
{
    if path@ == seq!['~'] + rest {
        assert(path@.skip(1) =~= rest);
    }
}

/// The home directory is the one that is set, under the one name or else the other.
pub proof fn home_is_what_is_set(home: Option<&str>, profile: Option<&str>, r: String)
    requires
        call_ensures(home_dir, (home, profile), r),
    ensures
        home matches Some(h) ==> r@ == h@,
        home is None ==> (profile matches Some(p) ==> r@ == p@),
        home is None && profile is None ==> r@ == "."@,
{
}

// ---------------------------------------------------------------------------
// Names for people
// ---------------------------------------------------------------------------

/// A text without dots or slashes.
pub open spec fn plain_word(s: Seq<char>) -> bool {
    forall|i: int| 0 <= i < s.len() ==> #[trigger] s[i] != '.' && s[i] != '/'
}

proof fn lemma_last_slash(head: Seq<char>, tail: Seq<char>)
    requires
        forall|i: int| 0 <= i < tail.len() ==> #[trigger] tail[i] != '/',
    ensures
        after_last(head + seq!['/'] + tail, '/') == tail,
{
    let s = head + seq!['/'] + tail;
    let k = head.len() as int;
    assert(s[k] == '/');
    assert forall|j: int| k < j < s.len() implies s[j] != '/' by {
        assert(s[j] == tail[j - k - 1]);
    }
    lemma_last_index_unique(s, '/', k);
    assert(s.skip(k + 1) =~= tail);
}

proof fn lemma_last_dot(base: Seq<char>, ext: Seq<char>)
    requires
        base.len() > 0,
        plain_word(ext),
    ensures
        last_index(base + seq!['.'] + ext, '.') == base.len(),
        (base + seq!['.'] + ext).take(base.len() as int) == base,
        (base + seq!['.'] + ext).skip(base.len() as int + 1) == ext,
{
    let s = base + seq!['.'] + ext;
    let k = base.len() as int;
    assert(s[k] == '.');
    assert forall|j: int| k < j < s.len() implies s[j] != '.' by {
        assert(s[j] == ext[j - k - 1]);
    }
    lemma_last_index_unique(s, '.', k);
    assert(s.take(k) =~= base);
    assert(s.skip(k + 1) =~= ext);
}

/// An extension is what follows the last dot of a name, and goes with it.
pub proof fn extensions_are_taken_off(s: &str, base: Seq<char>, ext: Seq<char>, r: String)
    requires
        base.len() > 0,
        plain_word(ext),
        s@ == base + seq!['.'] + ext,
        call_ensures(strip_ext, (s,), r),
    ensures
        r@ == base,
{
    lemma_last_dot(base, ext);
}

/// A file is called by its name, without its directory and its extension.
pub proof fn files_are_called_by_their_name(
    raw: &str,
    dir: Seq<char>,
    base: Seq<char>,
    ext: Seq<char>,
    r: String,
)
    requires
        dir.len() == 0 || dir[0] == '/' || dir[0] == '~' || dir[0] == '.',
        base.len() > 0,
        forall|i: int| 0 <= i < base.len() ==> #[trigger] base[i] != '/',
        plain_word(ext),
        raw@ == dir + seq!['/'] + (base + seq!['.'] + ext),
        call_ensures(display_name, (raw,), r),
    ensures
        r@ == base,
{
    reveal_strlit("http://");
    reveal_strlit("https://");
    reveal_strlit("rtsp://");
    let tail = base + seq!['.'] + ext;
    assert forall|i: int| 0 <= i < tail.len() implies #[trigger] tail[i] != '/' by {
        if i > base.len() {
            assert(tail[i] == ext[i - base.len() - 1]);
        } else if i < base.len() {
            assert(tail[i] == base[i]);
        }
    }
    lemma_last_slash(dir, tail);
    lemma_last_dot(base, ext);
    if dir.len() > 0 {
        assert(raw@[0] == dir[0]);
    } else {
        assert(raw@[0] == '/');
    }
    assert("http://"@[0] == 'h' && "https://"@[0] == 'h' && "rtsp://"@[0] == 'r');
    if "http://"@.is_prefix_of(raw@) {
        assert(raw@.subrange(0, 7)[0] == raw@[0]);
    }
    if "https://"@.is_prefix_of(raw@) {
        assert(raw@.subrange(0, 8)[0] == raw@[0]);
    }
    if "rtsp://"@.is_prefix_of(raw@) {
        assert(raw@.subrange(0, 7)[0] == raw@[0]);
    }
}

/// A text that is neither an address nor a path is called as it stands.
pub proof fn other_names_stand(raw: &str, r: String)
    requires
        !"http://"@.is_prefix_of(raw@),
        !"https://"@.is_prefix_of(raw@),
        !"rtsp://"@.is_prefix_of(raw@),
        raw@.len() == 0 || (raw@[0] != '/' && raw@[0] != '~' && raw@[0] != '.'),
        call_ensures(display_name, (raw,), r),
    ensures
        r@ == raw@,
{
}

/// A web address goes by its last part, without its extension, unless that part tells
/// people nothing.
pub proof fn addresses_go_by_their_last_part(
    raw: &str,
    head: Seq<char>,
    base: Seq<char>,
    ext: Seq<char>,
    r: String,
)
    requires
        raw@ == head + seq!['/'] + (base + seq!['.'] + ext),
        "http://"@.is_prefix_of(raw@) || "https://"@.is_prefix_of(raw@) || "rtsp://"@.is_prefix_of(
            raw@,
        ),
        base.len() > 0,
        forall|i: int| 0 <= i < base.len() ==> #[trigger] base[i] != '/',
        plain_word(ext),
        vstd::utf8::is_ascii_chars(base + seq!['.'] + ext),
        !(base + seq!['.'] + ext).contains('%'),
        call_ensures(display_name, (raw,), r),
    ensures
        r@ == base,
{
    let tail = base + seq!['.'] + ext;
    assert forall|i: int| 0 <= i < tail.len() implies #[trigger] tail[i] != '/' by {
        if i > base.len() {
            assert(tail[i] == ext[i - base.len() - 1]);
        } else if i < base.len() {
            assert(tail[i] == base[i]);
        }
    }
    lemma_last_slash(head, tail);
    lemma_last_dot(base, ext);
    plain_text_decodes_to_itself(tail);
    assert(tail[base.len() as int] == '.');
    assert(!crate::names::is_hex('.'));
    assert(!crate::names::hash_like(tail));
}

/// A dot at the very front of a name begins no extension: such a name is kept whole, and
/// is no media.
pub proof fn hidden_names_have_no_extension(s: &str, word: Seq<char>, r: String, m: bool)
    requires
        plain_word(word),
        s@ == seq!['.'] + word || s@ == word,
        call_ensures(strip_ext, (s,), r),
        call_ensures(is_media, (s,), m),
    ensures
        r@ == s@,
        !m,
{
    if s@ == word {
        crate::text::lemma_last_index(word, '.');
        let k = last_index(word, '.');
        if k >= 0 {
            assert(word[k] == '.');
        }
    } else {
        assert forall|j: int| 0 < j < s@.len() implies s@[j] != '.' by {
            assert(s@[j] == word[j - 1]);
        }
        lemma_last_index_unique(s@, '.', 0);
    }
}

/// A text without slashes.
pub open spec fn flat(s: Seq<char>) -> bool {
    forall|i: int| 0 <= i < s.len() ==> #[trigger] s[i] != '/'
}

/// A web address whose last part is empty, or a long row of hexadecimal digits, goes by the
/// first label of its host.
pub proof fn addresses_without_a_name_go_by_their_host(
    raw: &str,
    scheme: Seq<char>,
    label: Seq<char>,
    domain: Seq<char>,
    path: Seq<char>,
    tail: Seq<char>,
    r: String,
)
    requires
        scheme == "http:"@ || scheme == "https:"@ || scheme == "rtsp:"@,
        plain_word(label),
        flat(domain),
        path.len() == 0 || path[0] == '/',
        tail.len() == 0 || tail.len() >= 32,
        forall|i: int|
            0 <= i < tail.len() ==> ('0' <= #[trigger] tail[i] <= '9') || ('a' <= tail[i] <= 'f')
                || ('A' <= tail[i] <= 'F'),
        raw@ == scheme + seq!['/', '/'] + (label + seq!['.'] + domain) + (path + seq!['/'] + tail),
        call_ensures(display_name, (raw,), r),
    ensures
        r@ == label,
{
    reveal_strlit("http:");
    reveal_strlit("https:");
    reveal_strlit("rtsp:");
    reveal_strlit("http://");
    reveal_strlit("https://");
    reveal_strlit("rtsp://");
    let s = raw@;
    let host = label + seq!['.'] + domain;
    let n = scheme.len() as int;
    assert(flat(scheme));
    assert forall|i: int| 0 <= i < n implies s[i] == scheme[i] by {}
    assert(s[n] == '/' && s[n + 1] == '/');
    if scheme == "http:"@ {
        assert(s.subrange(0, 7) =~= "http://"@);
    } else if scheme == "https:"@ {
        assert(s.subrange(0, 8) =~= "https://"@);
    } else {
        assert(s.subrange(0, 7) =~= "rtsp://"@);
    }
    // The last part.
    let head = scheme + seq!['/', '/'] + host + path;
    assert(s =~= head + seq!['/'] + tail);
    assert forall|i: int| 0 <= i < tail.len() implies #[trigger] tail[i] != '/' by {}
    lemma_last_slash(head, tail);
    assert(vstd::utf8::is_ascii_chars(tail));
    assert(!tail.contains('%')) by {
        if tail.contains('%') {
            let k = choose|k: int| 0 <= k < tail.len() && tail[k] == '%';
            assert(('0' <= tail[k] <= '9') || ('a' <= tail[k] <= 'f') || ('A' <= tail[k] <= 'F'));
        }
    }
    plain_text_decodes_to_itself(tail);
    if tail.len() >= 32 {
        assert forall|i: int| 0 <= i < tail.len() implies crate::names::is_hex(
            #[trigger] tail[i],
        ) by {}
        assert(crate::names::hash_like(tail));
    }
    // The host.
    let after = path + seq!['/'] + tail;
    assert(after[0] == '/');
    let rest = host + after;
    assert(s =~= scheme + seq!['/'] + (seq!['/'] + rest));
    lemma_cut(scheme, seq!['/'] + rest);
    lemma_cut(Seq::empty(), rest);
    assert(Seq::<char>::empty() + seq!['/'] + rest =~= seq!['/'] + rest);
    assert forall|i: int| 0 <= i < host.len() implies #[trigger] host[i] != '/' by {
        if i < label.len() {
            assert(host[i] == label[i]);
        } else if i > label.len() {
            assert(host[i] == domain[i - label.len() - 1]);
        }
    }
    lemma_cut(host, after.skip(1));
    assert(host + seq!['/'] + after.skip(1) =~= rest);
    let parts = crate::text::split(s, '/');
    assert(parts[2] == host);
    let k = label.len() as int;
    assert forall|j: int| 0 <= j < k implies host[j] != '.' by {
        assert(host[j] == label[j]);
    }
    assert(host[k] == '.');
    lemma_first_index_unique(host, '.', k);
    assert(host.take(k) =~= label);
}

proof fn lemma_cut(a: Seq<char>, rest: Seq<char>)
    requires
        flat(a),
    ensures
        crate::text::split(a + seq!['/'] + rest, '/') == seq![a] + crate::text::split(rest, '/'),
        crate::text::split(rest, '/').len() > 0,
{
    let t = a + seq!['/'] + rest;
    let k = a.len() as int;
    assert forall|j: int| 0 <= j < k implies t[j] != '/' by {
        assert(t[j] == a[j]);
    }
    assert(t[k] == '/');
    lemma_first_index_unique(t, '/', k);
    assert(t.take(k) =~= a);
    assert(t.skip(k + 1) =~= rest);
}

/// A web address whose last part has no extension goes by that part, even where it is a
/// short row of hexadecimal digits.
pub proof fn addresses_go_by_a_plain_last_part(
    raw: &str,
    head: Seq<char>,
    tail: Seq<char>,
    r: String,
)
    requires
        raw@ == head + seq!['/'] + tail,
        "http://"@.is_prefix_of(raw@) || "https://"@.is_prefix_of(raw@) || "rtsp://"@.is_prefix_of(
            raw@,
        ),
        0 < tail.len() < 32,
        plain_word(tail),
        vstd::utf8::is_ascii_chars(tail),
        !tail.contains('%'),
        call_ensures(display_name, (raw,), r),
    ensures
        r@ == tail,
{
    lemma_last_slash(head, tail);
    plain_text_decodes_to_itself(tail);
    crate::text::lemma_last_index(tail, '.');
    let k = last_index(tail, '.');
    if k >= 0 {
        assert(tail[k] == '.');
    }
}

/// The digit that writes a number below sixteen.
pub open spec fn hex_digit_of(n: int) -> u8 {
    if n < 10 {
        (0x30 + n) as u8
    } else {
        (0x41 + n - 10) as u8
    }
}

/// A percent sign and two digits stand for the byte that they write; what follows is
/// decoded in the same way.
pub proof fn percent_signs_stand_for_bytes(b: u8, rest: Seq<u8>)
    ensures
        decoded_bytes(
            seq![0x25u8, hex_digit_of(b as int / 16), hex_digit_of(b as int % 16)] + rest,
        ) == seq![b as char] + decoded_bytes(rest),
        b != 0x25 ==> decoded_bytes(seq![b] + rest) == seq![b as char] + decoded_bytes(rest),
{
    let s = seq![0x25u8, hex_digit_of(b as int / 16), hex_digit_of(b as int % 16)] + rest;
    assert(s[0] == 0x25 && s[1] == hex_digit_of(b as int / 16) && s[2] == hex_digit_of(
        b as int % 16,
    ));
    assert(s.skip(3) =~= rest);
    assert(hex_byte(s[1], s[2]) == Some(b));
    let t = seq![b] + rest;
    assert(t[0] == b);
    assert(t.skip(1) =~= rest);
}

/// An item goes by its title where it has one; else a web address goes by itself and a
/// file by its last part.
pub proof fn items_go_by_their_title(i: &PlaylistItem, r: &str, head: Seq<char>, tail: Seq<char>)
    requires
        call_ensures(PlaylistItem::display, (i,), r),
    ensures
        i.title matches Some(t) ==> t@.len() > 0 ==> r@ == t@,
        (i.title is None || i.title->0@.len() == 0) && "http"@.is_prefix_of(i.filename@) ==> r@
            == i.filename@,
        (i.title is None || i.title->0@.len() == 0) && !"http"@.is_prefix_of(i.filename@)
            && i.filename@ == head + seq!['/'] + tail && (forall|k: int|
            0 <= k < tail.len() ==> #[trigger] tail[k] != '/') ==> r@ == tail,
{
    if i.filename@ == head + seq!['/'] + tail && (forall|k: int|
        0 <= k < tail.len() ==> #[trigger] tail[k] != '/') {
        lemma_last_slash(head, tail);
    }
}

/// A file is media by its extension, in either case.
pub proof fn media_is_known_by_extension(name: &str, base: Seq<char>, ext: Seq<char>, r: bool)
    requires
        base.len() > 0,
        plain_word(ext),
        name@ == base + seq!['.'] + ext,
        call_ensures(is_media, (name,), r),
    ensures
        r == set![
            "mkv"@, "mp4"@, "avi"@, "mov"@, "wmv"@, "flv"@, "webm"@, "m4v"@, "ts"@, "mpg"@,
            "mpeg"@, "mp3"@, "flac"@, "ogg"@, "opus"@, "wav"@, "aac"@, "m4a"@, "wma"@, "m3u"@,
            "m3u8"@, "pls"@
        ].contains(lowercase(ext)),
{
    lemma_last_dot(base, ext);
    let e = lowercase(ext);
    let all = crate::names::media_extensions();
    if all.contains(e) {
        let k = choose|k: int| 0 <= k < all.len() && all[k] == e;
    }
    if set![
        "mkv"@, "mp4"@, "avi"@, "mov"@, "wmv"@, "flv"@, "webm"@, "m4v"@, "ts"@, "mpg"@, "mpeg"@,
        "mp3"@, "flac"@, "ogg"@, "opus"@, "wav"@, "aac"@, "m4a"@, "wma"@, "m3u"@, "m3u8"@, "pls"@
    ].contains(e) {
        assert(e == all[0] || e == all[1] || e == all[2] || e == all[3] || e == all[4] || e
            == all[5] || e == all[6] || e == all[7] || e == all[8] || e == all[9] || e == all[10]
            || e == all[11] || e == all[12] || e == all[13] || e == all[14] || e == all[15] || e
            == all[16] || e == all[17] || e == all[18] || e == all[19] || e == all[20] || e
            == all[21]);
    }
}

// ---------------------------------------------------------------------------
// Configuration lines
// ---------------------------------------------------------------------------

/// A line in brackets names a section, one with an equals sign gives a key a value, and
/// blank lines and comments say nothing.
pub proof fn lines_say_one_thing(name: Seq<char>, key: Seq<char>, value: Seq<char>)
    requires
        trimmed(key) == key && key.len() > 0 && key[0] != '#' && key[0] != '[',
        !key.contains('='),
        trimmed(value) == value && value.len() > 0,
    ensures
        line_of(seq!['['] + name + seq![']']) == LineV::Section(name),
        line_of(key + seq!['='] + value) == LineV::Pair(key, value),
        line_of(seq!['#'] + name + seq!['.']) == LineV::Nothing,
        line_of(Seq::empty()) == LineV::Nothing,
{
    let s = seq!['['] + name + seq![']'];
    lemma_trimmed_fixed(s);
    assert(s[0] == '[' && s.last() == ']');
    assert(s.subrange(1, s.len() - 1) =~= name);
    let c = seq!['#'] + name + seq!['.'];
    lemma_trimmed_fixed(c);
    assert(c[0] == '#');
    let t = key + seq!['='] + value;
    crate::text::lemma_trimmed(key);
    crate::text::lemma_trimmed(value);
    lemma_trimmed_fixed(t);
    assert(t[0] == key[0]);
    let k = key.len() as int;
    assert forall|j: int| 0 <= j < k implies t[j] != '=' by {
        assert(t[j] == key[j]);
        if key[j] == '=' {
            assert(key.contains('='));
        }
    }
    assert(t[k] == '=');
    lemma_first_index_unique(t, '=', k);
    assert(t.take(k) =~= key);
    assert(t.skip(k + 1) =~= value);
    let none = Seq::<char>::empty();
    crate::text::lemma_trimmed(none);
}

/// Of several values for one key the last counts; a key that is not given has none.
pub proof fn the_last_value_counts(pairs: Seq<(Seq<char>, Seq<char>)>, key: Seq<char>, i: int)
    requires
        0 <= i <= pairs.len(),
        i > 0 ==> pairs[i - 1].0 == key,
        forall|j: int| i <= j < pairs.len() ==> (#[trigger] pairs[j]).0 != key,
    ensures
        i > 0 ==> last_value(pairs, key) == Some(pairs[i - 1].1),
        i == 0 ==> last_value(pairs, key) is None,
    decreases pairs.len(),
{
    if i < pairs.len() {
        let front = pairs.drop_last();
        assert(pairs[pairs.len() - 1].0 != key);
        assert forall|j: int| i <= j < front.len() implies (#[trigger] front[j]).0 != key by {
            assert(front[j] == pairs[j]);
        }
        the_last_value_counts(front, key, i);
    }
}

/// A pair belongs to the section that it stands under; a section begins without pairs.
pub proof fn pairs_belong_to_their_section(ls: Seq<Seq<char>>, line: Seq<char>)
    ensures
        line_of(line) matches LineV::Section(name) ==> ini_of(ls.push(line)).sections == ini_of(
            ls,
        ).sections.push(SectionV { name, pairs: Seq::empty() }) && ini_of(ls.push(line)).all
            == ini_of(ls).all,
        line_of(line) matches LineV::Pair(k, v) ==> {
            let was = ini_of(ls);
            let now = ini_of(ls.push(line));
            &&& now.all == was.all.push((k, v))
            &&& now.sections.len() == was.sections.len()
            &&& forall|i: int|
                0 <= i < was.sections.len() - 1 ==> #[trigger] now.sections[i] == was.sections[i]
            &&& was.sections.len() > 0 ==> now.sections.last().name == was.sections.last().name
                && now.sections.last().pairs == was.sections.last().pairs.push((k, v))
        },
        line_of(line) is Nothing ==> ini_of(ls.push(line)) == ini_of(ls),
{
    assert(ls.push(line).drop_last() =~= ls);
}

// ---------------------------------------------------------------------------
// Configuration files
// ---------------------------------------------------------------------------

/// The panes file describes a pane for each of its sections, in order: the section's name
/// is the pane's own, and the one it is shown under, its type and its playlist are as
/// given, or else the same name, `video` and none.
pub proof fn sections_are_panes(content: &str, home: &str, r: Config, i: int)
    requires
        0 <= i < ini_of(lines(content@)).sections.len(),
        call_ensures(load_config, (Some(content), home), r),
    ensures
        r.panes@.len() == ini_of(lines(content@)).sections.len(),
        ({
            let s = ini_of(lines(content@)).sections[i];
            let p = r.panes@[i];
            let shown = last_value(s.pairs, "pane_name"@);
            let kind = last_value(s.pairs, "type"@);
            let list = last_value(s.pairs, "playlist"@);
            &&& p.mpv_name@ == s.name
            &&& shown is Some ==> p.pane_name@ == shown->0
            &&& shown is None ==> p.pane_name@ == s.name
            &&& kind is Some ==> p.pane_type@ == kind->0
            &&& kind is None ==> p.pane_type@ == "video"@
            &&& list is None ==> p.playlist is None
            &&& list is Some && (list->0.len() == 0 || list->0[0] != '~') ==> opt(p.playlist)
                == list
            &&& list is Some && list->0.len() > 0 && list->0[0] == '~' ==> opt(p.playlist) == Some(
                home@ + list->0.skip(1),
            )
        }),
        ({
            let layout = last_value(ini_of(lines(content@)).all, "layout"@);
            &&& layout is Some ==> r.layout@ == layout->0
            &&& layout is None ==> r.layout@ == "pb.left.stack"@
        }),
        r.home@ == home@,
{
    let v = r.view();
    assert(v.panes.len() == r.panes@.len());
    assert(v.panes[i] == r.panes@[i].view());
}

/// Without a panes file there are no panes and the usual layout.
pub proof fn no_file_is_no_panes(home: &str, r: Config)
    requires
        call_ensures(load_config, (None, home), r),
    ensures
        r.panes@.len() == 0,
        r.layout@ == "pb.left.stack"@,
{
    assert(r.view().panes.len() == r.panes@.len());
}

/// The known hosts are the sections of the daemon file that give an address, in order.
pub proof fn hosts_are_sections_with_an_address(content: &str, r: Vec<Host>)
    requires
        call_ensures(load_hosts, (Some(content),), r),
    ensures
        ({
            let with = ini_of(lines(content@)).sections.filter(
                |s: SectionV| last_value(s.pairs, "address"@) is Some,
            );
            &&& r@.len() == with.len()
            &&& forall|i: int|
                0 <= i < with.len() ==> (#[trigger] r@[i]).label@ == with[i].name && Some(
                    r@[i].address@,
                ) == last_value(with[i].pairs, "address"@)
        }),
{
    let all = ini_of(lines(content@)).sections;
    let with = all.filter(|s: SectionV| last_value(s.pairs, "address"@) is Some);
    lemma_hosts(all);
    let v = crate::config::host_views(r@);
    assert(v.len() == r@.len());
    assert forall|i: int| 0 <= i < with.len() implies (#[trigger] r@[i]).label@ == with[i].name
        && Some(r@[i].address@) == last_value(with[i].pairs, "address"@) by {
        assert(v[i] == r@[i].view());
    }
}

proof fn lemma_hosts(all: Seq<SectionV>)
    ensures
        ({
            let with = all.filter(|s: SectionV| last_value(s.pairs, "address"@) is Some);
            &&& hosts_of(all).len() == with.len()
            &&& forall|i: int|
                0 <= i < with.len() ==> (#[trigger] hosts_of(all)[i]).label == with[i].name && Some(
                    hosts_of(all)[i].address,
                ) == last_value(with[i].pairs, "address"@)
        }),
    decreases all.len(),
{
    reveal(Seq::filter);
    if all.len() > 0 {
        let front = all.drop_last();
        lemma_hosts(front);
        let before = front.filter(|s: SectionV| last_value(s.pairs, "address"@) is Some);
        let with = all.filter(|s: SectionV| last_value(s.pairs, "address"@) is Some);
        assert forall|i: int| 0 <= i < with.len() implies (#[trigger] hosts_of(all)[i]).label
            == with[i].name && Some(hosts_of(all)[i].address) == last_value(
            with[i].pairs,
            "address"@,
        ) by {
            if i < before.len() {
                assert(hosts_of(all)[i] == hosts_of(front)[i]);
                assert(with[i] == before[i]);
            }
        }
    }
}

/// A daemon in remote mode listens on every interface, any other on this machine alone;
/// one line with the mode is enough to make it remote.
pub proof fn only_remote_daemons_are_reached(
    content: &str,
    mode: &'static str,
    m: &str,
    r: &'static str,
)
    requires
        call_ensures(load_daemon_mode, (content,), mode),
        call_ensures(bind_address, (m,), r),
        m@ == mode@,
    ensures
        (exists|i: int|
            0 <= i < lines(content@).len() && pair_of(trimmed(#[trigger] lines(content@)[i]))
                == Some(("mode"@, "remote"@))) ==> r@ == "0.0.0.0:9090"@,
        (forall|i: int|
            0 <= i < lines(content@).len() ==> pair_of(trimmed(#[trigger] lines(content@)[i]))
                != Some(("mode"@, "remote"@))) ==> r@ == "127.0.0.1:9090"@,
{
    reveal_strlit("remote");
    reveal_strlit("local");
    assert("remote"@.len() == 6 && "local"@.len() == 5);
    if exists|i: int|
        0 <= i < lines(content@).len() && pair_of(trimmed(#[trigger] lines(content@)[i])) == Some(
            ("mode"@, "remote"@),
        ) {
        let i = choose|i: int|
            0 <= i < lines(content@).len() && pair_of(trimmed(#[trigger] lines(content@)[i]))
                == Some(("mode"@, "remote"@));
        assert(says_remote(lines(content@)[i]));
        assert(is_remote(content@));
    }
}

/// The player options of a type are the pairs of its section, each written with a bare
/// equals sign, in order; the list of scripts is none of them.
pub proof fn types_are_their_options(content: &str, r: Vec<(String, PaneType)>, i: int)
    requires
        0 <= i < ini_of(lines(content@)).sections.len(),
        call_ensures(load_types, (Some(content),), r),
    ensures
        r@.len() == ini_of(lines(content@)).sections.len(),
        r@[i].0@ == ini_of(lines(content@)).sections[i].name,
        strs(r@[i].1.options@) == ini_of(lines(content@)).sections[i].pairs.filter(
            |p: (Seq<char>, Seq<char>)| p.0 != "scripts"@,
        ).map_values(|p: (Seq<char>, Seq<char>)| p.0 + "="@ + p.1),
{
    let v = crate::config::type_views(r@);
    assert(v.len() == r@.len());
    assert(v[i] == (r@[i].0@, r@[i].1.view()));
    lemma_options(ini_of(lines(content@)).sections[i].pairs);
}

proof fn lemma_options(pairs: Seq<(Seq<char>, Seq<char>)>)
    ensures
        options_of(pairs) == pairs.filter(
            |p: (Seq<char>, Seq<char>)| p.0 != "scripts"@,
        ).map_values(|p: (Seq<char>, Seq<char>)| p.0 + "="@ + p.1),
    decreases pairs.len(),
{
    reveal(Seq::filter);
    let f = |p: (Seq<char>, Seq<char>)| p.0 + "="@ + p.1;
    let some = pairs.filter(|p: (Seq<char>, Seq<char>)| p.0 != "scripts"@);
    if pairs.len() > 0 {
        lemma_options(pairs.drop_last());
        let before = pairs.drop_last().filter(|p: (Seq<char>, Seq<char>)| p.0 != "scripts"@);
        if pairs.last().0 != "scripts"@ {
            assert(some.map_values(f) =~= before.map_values(f).push(f(pairs.last())));
        }
    } else {
        assert(some.map_values(f) =~= Seq::empty());
    }
}

/// A layout gives a pane the geometry that the last section of the pane's name gives.
pub proof fn layouts_place_panes_by_name(content: &str, r: Layout, i: int, g: Seq<char>)
    requires
        0 <= i < ini_of(lines(content@)).sections.len(),
        ini_of(lines(content@)).sections[i].name.len() > 0,
        last_value(ini_of(lines(content@)).sections[i].pairs, "geometry"@) == Some(g),
        forall|j: int|
            i < j < ini_of(lines(content@)).sections.len() ==> (#[trigger] ini_of(
                lines(content@),
            ).sections[j]).name != ini_of(lines(content@)).sections[i].name || last_value(
                ini_of(lines(content@)).sections[j].pairs,
                "geometry"@,
            ) is None,
        call_ensures(parse_layout, (content,), r),
    ensures
        gives(Some(r), ini_of(lines(content@)).sections[i].name, g),
        r.wf(),
{
    let all = ini_of(lines(content@)).sections;
    let name = all[i].name;
    lemma_layout_geometry(all, i, g);
    assert(r.entry(name) == layout_entry(all, name));
    let k = choose|k: int| 0 <= k < r.entries@.len() && (#[trigger] r.entries@[k]).0@ == name;
    assert(r.entries@[k].0@ == name);
    assert(opt(r.entries@[k].1.geometry) == Some(g));
}

proof fn lemma_layout_geometry(all: Seq<SectionV>, i: int, g: Seq<char>)
    requires
        0 <= i < all.len(),
        all[i].name.len() > 0,
        last_value(all[i].pairs, "geometry"@) == Some(g),
        forall|j: int|
            i < j < all.len() ==> (#[trigger] all[j]).name != all[i].name || last_value(
                all[j].pairs,
                "geometry"@,
            ) is None,
    ensures
        layout_entry(all, all[i].name) matches Some(e) && e.geometry == Some(g),
    decreases all.len(),
{
    if i < all.len() - 1 {
        let front = all.drop_last();
        assert forall|j: int| i < j < front.len() implies (#[trigger] front[j]).name
            != front[i].name || last_value(front[j].pairs, "geometry"@) is None by {
            assert(front[j] == all[j]);
        }
        lemma_layout_geometry(front, i, g);
        assert(all[all.len() - 1].name != all[i].name || last_value(
            all[all.len() - 1].pairs,
            "geometry"@,
        ) is None);
    }
}

/// A pane that no section names has no place in a layout.
pub proof fn unnamed_panes_have_no_place(content: &str, r: Layout, name: Seq<char>, g: Seq<char>)
    requires
        forall|j: int|
            0 <= j < ini_of(lines(content@)).sections.len() ==> (#[trigger] ini_of(
                lines(content@),
            ).sections[j]).name != name,
        call_ensures(parse_layout, (content,), r),
    ensures
        !gives(Some(r), name, g),
{
    let all = ini_of(lines(content@)).sections;
    lemma_no_entry(all, name);
    assert(r.entry(name) == layout_entry(all, name));
}

proof fn lemma_no_entry(all: Seq<SectionV>, name: Seq<char>)
    requires
        forall|j: int| 0 <= j < all.len() ==> (#[trigger] all[j]).name != name,
    ensures
        layout_entry(all, name) is None,
    decreases all.len(),
{
    if all.len() > 0 {
        let front = all.drop_last();
        assert forall|j: int| 0 <= j < front.len() implies (#[trigger] front[j]).name != name by {
            assert(front[j] == all[j]);
        }
        lemma_no_entry(front, name);
        assert(all[all.len() - 1].name != name);
    }
}

/// A layout gives a pane the message for the window manager that the last section of the
/// pane's name gives.
pub proof fn layouts_give_messages_by_name(content: &str, r: Layout, i: int, m: Seq<char>)
    requires
        0 <= i < ini_of(lines(content@)).sections.len(),
        ini_of(lines(content@)).sections[i].name.len() > 0,
        last_value(ini_of(lines(content@)).sections[i].pairs, "swaymsg"@) == Some(m),
        forall|j: int|
            i < j < ini_of(lines(content@)).sections.len() ==> (#[trigger] ini_of(
                lines(content@),
            ).sections[j]).name != ini_of(lines(content@)).sections[i].name || last_value(
                ini_of(lines(content@)).sections[j].pairs,
                "swaymsg"@,
            ) is None,
        call_ensures(parse_layout, (content,), r),
    ensures
        crate::typed_laws::messages(r, ini_of(lines(content@)).sections[i].name, m),
{
    let all = ini_of(lines(content@)).sections;
    let name = all[i].name;
    lemma_layout_message(all, i, m);
    assert(r.entry(name) == layout_entry(all, name));
    let k = choose|k: int| 0 <= k < r.entries@.len() && (#[trigger] r.entries@[k]).0@ == name;
    assert(r.entries@[k].0@ == name);
    assert(opt(r.entries@[k].1.swaymsg) == Some(m));
}

proof fn lemma_layout_message(all: Seq<SectionV>, i: int, m: Seq<char>)
    requires
        0 <= i < all.len(),
        all[i].name.len() > 0,
        last_value(all[i].pairs, "swaymsg"@) == Some(m),
        forall|j: int|
            i < j < all.len() ==> (#[trigger] all[j]).name != all[i].name || last_value(
                all[j].pairs,
                "swaymsg"@,
            ) is None,
    ensures
        layout_entry(all, all[i].name) matches Some(e) && e.swaymsg == Some(m),
    decreases all.len(),
{
    if i < all.len() - 1 {
        let front = all.drop_last();
        assert forall|j: int| i < j < front.len() implies (#[trigger] front[j]).name
            != front[i].name || last_value(front[j].pairs, "swaymsg"@) is None by {
            assert(front[j] == all[j]);
        }
        lemma_layout_message(front, i, m);
        assert(all[all.len() - 1].name != all[i].name || last_value(
            all[all.len() - 1].pairs,
            "swaymsg"@,
        ) is None);
    }
}

} // verus!
