//! Panes that a terminal starts and drives itself, without a daemon: what their
//! configuration says, how their players are started and asked, and what they
//! answer.
use crate::ini::{
    find_last, ini_of, last_value, or_else, read_ini, section_views, value_or, Ini, Section,
    SectionV,
};
use crate::json::{at, jsons, parsed, rendered, str_of, Json, JsonV};
use crate::names::{display_name, display_of};
use crate::paths::{expand_tilde, join, joined, tilde_expanded};
use crate::text::{
    cat, cat3, decimal, decimal_of, find_char, first_index, in_order, lemma_strs_push, lines,
    number_value, opt, parse_u32, same, sort_strings, split, split_char, split_lines, split_words,
    strs, trim, trimmed, words,
};
use vstd::prelude::*;

verus! {

/// A pane and how its player stands.
#[derive(Debug)]
pub struct DeskPane {
    pub name: String,
    pub socket: String,
    pub pane_type: String,
    pub slot: Option<String>,
    pub geometry: Option<String>,
    pub playlist: Option<String>,
    pub status: String,
    pub volume: i64,
    pub muted: bool,
    pub title: String,
}

pub struct DeskPaneV {
    pub name: Seq<char>,
    pub socket: Seq<char>,
    pub pane_type: Seq<char>,
    pub slot: Option<Seq<char>>,
    pub geometry: Option<Seq<char>>,
    pub playlist: Option<Seq<char>>,
    pub status: Seq<char>,
    pub volume: i64,
    pub muted: bool,
    pub title: Seq<char>,
}

impl DeskPane {
    pub open spec fn view(&self) -> DeskPaneV {
        DeskPaneV {
            name: self.name@,
            socket: self.socket@,
            pane_type: self.pane_type@,
            slot: opt(self.slot),
            geometry: opt(self.geometry),
            playlist: opt(self.playlist),
            status: self.status@,
            volume: self.volume,
            muted: self.muted,
            title: self.title@,
        }
    }
}

pub open spec fn desk_views(v: Seq<DeskPane>) -> Seq<DeskPaneV> {
    Seq::new(v.len(), |i: int| v[i].view())
}

/// A pane whose player has not been seen.
pub open spec fn idle_pane(
    name: Seq<char>,
    socket: Seq<char>,
    pane_type: Seq<char>,
    slot: Option<Seq<char>>,
    geometry: Option<Seq<char>>,
    playlist: Option<Seq<char>>,
) -> DeskPaneV {
    DeskPaneV {
        name,
        socket,
        pane_type,
        slot,
        geometry,
        playlist,
        status: "Offline"@,
        volume: 0,
        muted: false,
        title: "\u{2014}"@,
    }
}

/// A pane whose player has not been seen.
pub fn new_pane(
    name: &str,
    socket: &str,
    pane_type: &str,
    slot: Option<String>,
    geometry: Option<String>,
    playlist: Option<String>,
) -> (r: DeskPane)
    ensures
        r.view() == idle_pane(name@, socket@, pane_type@, opt(slot), opt(geometry), opt(playlist)),
{
    DeskPane {
        name: name.to_owned(),
        socket: socket.to_owned(),
        pane_type: pane_type.to_owned(),
        slot,
        geometry,
        playlist,
        status: "Offline".to_owned(),
        volume: 0,
        muted: false,
        title: "\u{2014}".to_owned(),
    }
}

// ---------------------------------------------------------------------------
// Files
// ---------------------------------------------------------------------------

/// The configuration directory below a home directory.
pub open spec fn desk_config(home: Seq<char>) -> Seq<char> {
    joined(home, ".config/panebot"@)
}

/// A file of a pane; names keep their case.
pub open spec fn desk_file(config: Seq<char>, name: Seq<char>, suffix: Seq<char>) -> Seq<char> {
    joined(joined(config, name), name + suffix)
}

fn file_of(config: &str, name: &str, suffix: &str) -> (r: String)
    ensures
        r@ == desk_file(config@, name@, suffix@),
{
    join(join(config, name).as_str(), cat(name, suffix).as_str())
}

/// The configuration directory below a home directory.
pub fn config_dir(home: &str) -> (r: String)
    ensures
        r@ == desk_config(home@),
{
    join(home, ".config/panebot")
}

/// The file of a layout.
pub fn layout_path(config: &str, name: &str) -> (r: String)
    ensures
        r@ == joined(joined(config@, "layouts"@), name@ + ".layout"@),
{
    join(join(config, "layouts").as_str(), cat(name, ".layout").as_str())
}

/// The socket of a pane's player.
pub fn pane_socket(config: &str, name: &str) -> (r: String)
    ensures
        r@ == desk_file(config@, name@, ".sock"@),
{
    file_of(config, name, ".sock")
}

/// The player configuration of a pane.
pub fn pane_mpv_conf(config: &str, name: &str) -> (r: String)
    ensures
        r@ == desk_file(config@, name@, ".mpv.conf"@),
{
    file_of(config, name, ".mpv.conf")
}

/// The playlist file of a pane.
pub fn pane_playlist_file(config: &str, name: &str) -> (r: String)
    ensures
        r@ == desk_file(config@, name@, ".m3u"@),
{
    file_of(config, name, ".m3u")
}

/// The player configuration that a new pane starts with.
pub fn new_mpv_conf(name: &str, pane_type: &str) -> (r: String)
    ensures
        r@ == "# \""@ + name@
            + "\" pane mpv config\n# Add per-pane mpv overrides here\n# Global type defaults: ~/.config/panebot/skels/"@
            + pane_type@ + ".conf\n"@,
{
    let mut s: String = cat3(
        "# \"",
        name,
        "\" pane mpv config\n# Add per-pane mpv overrides here\n# Global type defaults: ~/.config/panebot/skels/",
    );
    s.append(pane_type);
    s.append(".conf\n");
    s
}

/// The layout that a new desk starts with.
pub const DEFAULT_LAYOUT: &'static str = "# panebot default.layout
# Define named slots with geometry strings.
# Panes reference a slot name instead of a raw geometry value.

[left0-1:1]
geometry = 366x366+0+0

[left1-16:9]
geometry = 650x366+0+374

[left2-16:9]
geometry = 650x366+0+748

[left3-4:3]
geometry = 650x488+0+1122
";

/// The panes that a new desk starts with.
pub const DEFAULT_PANES: &'static str = "# panebot panes.conf
# [PaneName]
# socket   = ~/.config/panebot/name/name.sock
# type     = VIDEO | AUDIO | HTTP | YTDLP | RTSP
# slot     = left1-16:9        # slot names defined in ~/.config/panebot/layouts/default.layout
# geometry = 650x366+0+0       # fallback if no slot assigned
# playlist = ~/.config/panebot/name/name.m3u

[MUSIC]
socket   = ~/.config/panebot/music/music.sock
type     = VIDEO
slot     = left0-1:1
playlist = ~/.config/panebot/music/music.m3u

[MOVIES]
socket   = ~/.config/panebot/movies/movies.sock
type     = VIDEO
slot     = left1-16:9
playlist = ~/.config/panebot/movies/movies.m3u

[WEB]
socket   = ~/.config/panebot/web/web.sock
type     = HTTP
slot     = left2-16:9
playlist = ~/.config/panebot/web/web.m3u

[TV]
socket   = ~/.config/panebot/tv/tv.sock
type     = VIDEO
slot     = left3-4:3
playlist = ~/.config/panebot/tv/tv.m3u
";

/// The panes whose files are made ready, each with its type: those of the new
/// configuration, or those that the existing one describes, in lower case.
pub open spec fn panes_to_prepare(existing: Option<Seq<DeskPaneV>>) -> Seq<(Seq<char>, Seq<char>)> {
    match existing {
        Some(panes) => Seq::new(
            panes.len(),
            |i: int| (crate::text::lowercase(panes[i].name), panes[i].pane_type),
        ),
        None => seq![
            ("music"@, "VIDEO"@),
            ("movies"@, "VIDEO"@),
            ("web"@, "HTTP"@),
            ("tv"@, "VIDEO"@),
        ],
    }
}

/// The panes whose files are made ready when the desk comes up; `existing` is what
/// the configuration describes, nothing where there was none.
pub fn bootstrap_environment(existing: Option<&Vec<DeskPane>>) -> (r: Vec<(String, String)>)
    ensures
        crate::ini::text_pairs(r@) == panes_to_prepare(
            match existing {
                Some(v) => Some(desk_views(v@)),
                None => None,
            },
        ),
{
    match existing {
        Some(v) => {
            let mut out: Vec<(String, String)> = Vec::new();
            for i in 0..v.len()
                invariant
                    out.len() == i,
                    forall|k: int|
                        0 <= k < i ==> (#[trigger] out@[k]).0@ == crate::text::lowercase(v@[k].name@)
                            && out@[k].1@ == v@[k].pane_type@,
            {
                out.push((crate::text::lower(v[i].name.as_str()), v[i].pane_type.clone()));
            }
            assert(crate::ini::text_pairs(out@) =~= panes_to_prepare(Some(desk_views(v@))));
            out
        },
        None => {
            let out: Vec<(String, String)> = vec![
                ("music".to_owned(), "VIDEO".to_owned()),
                ("movies".to_owned(), "VIDEO".to_owned()),
                ("web".to_owned(), "HTTP".to_owned()),
                ("tv".to_owned(), "VIDEO".to_owned()),
            ];
            assert(crate::ini::text_pairs(out@) =~= panes_to_prepare(None));
            out
        },
    }
}

// ---------------------------------------------------------------------------
// Configuration
// ---------------------------------------------------------------------------

/// A value; a dash stands for none.
pub open spec fn dash_is_none(v: Option<Seq<char>>) -> Option<Seq<char>> {
    if v == Some("-"@) {
        None
    } else {
        v
    }
}

/// The pane that a section describes; a section without a socket describes none.
pub open spec fn desk_pane_of(s: SectionV, home: Seq<char>) -> Option<DeskPaneV> {
    match last_value(s.pairs, "socket"@) {
        Some(socket) => Some(
            idle_pane(
                s.name,
                tilde_expanded(socket, home),
                or_else(last_value(s.pairs, "type"@), "VIDEO"@),
                dash_is_none(last_value(s.pairs, "slot"@)),
                dash_is_none(last_value(s.pairs, "geometry"@)),
                match dash_is_none(last_value(s.pairs, "playlist"@)) {
                    Some(p) => Some(tilde_expanded(p, home)),
                    None => None,
                },
            ),
        ),
        None => None,
    }
}

/// The panes that sections describe, in order.
pub open spec fn desk_panes_of(sections: Seq<SectionV>, home: Seq<char>) -> Seq<DeskPaneV>
    decreases sections.len(),
{
    if sections.len() == 0 {
        Seq::empty()
    } else {
        let before = desk_panes_of(sections.drop_last(), home);
        match desk_pane_of(sections.last(), home) {
            Some(p) => before.push(p),
            None => before,
        }
    }
}

fn undash(v: Option<String>) -> (r: Option<String>)
    ensures
        opt(r) == dash_is_none(opt(v)),
{
    match v {
        Some(t) => if same(t.as_str(), "-") {
            None
        } else {
            Some(t)
        },
        None => None,
    }
}

fn section_pane(s: &Section, home: &str) -> (r: Option<DeskPane>)
    ensures
        match r {
            Some(p) => desk_pane_of(s.view(), home@) == Some(p.view()),
            None => desk_pane_of(s.view(), home@) is None,
        },
{
    let socket: String = match find_last(&s.pairs, "socket") {
        Some(t) => expand_tilde(t.as_str(), home),
        None => return None,
    };
    let ptype: String = value_or(find_last(&s.pairs, "type"), "VIDEO");
    let playlist: Option<String> = match undash(find_last(&s.pairs, "playlist")) {
        Some(p) => Some(expand_tilde(p.as_str(), home)),
        None => None,
    };
    Some(
        new_pane(
            s.name.as_str(),
            socket.as_str(),
            ptype.as_str(),
            undash(find_last(&s.pairs, "slot")),
            undash(find_last(&s.pairs, "geometry")),
            playlist,
        ),
    )
}

/// The panes that the configuration describes; nothing where it could not be read.
pub fn load_panes(content: Option<&str>, home: &str) -> (r: Vec<DeskPane>)
    ensures
        desk_views(r@) == (match content {
            Some(c) => desk_panes_of(ini_of(lines(c@)).sections, home@),
            None => Seq::empty(),
        }),
{
    let mut panes: Vec<DeskPane> = Vec::new();
    assert(desk_views(panes@) =~= Seq::empty());
    let text: &str = match content {
        Some(c) => c,
        None => return panes,
    };
    let ini: Ini = read_ini(text);
    let ghost all = ini.view().sections;
    assert(desk_panes_of(all.take(0), home@) =~= Seq::empty());
    for i in 0..ini.sections.len()
        invariant
            all == section_views(ini.sections@),
            desk_views(panes@) == desk_panes_of(all.take(i as int), home@),
    {
        proof {
            assert(all.take(i + 1).drop_last() =~= all.take(i as int));
            assert(all.take(i + 1).last() == ini.sections@[i as int].view());
        }
        if let Some(p) = section_pane(&ini.sections[i], home) {
            assert(desk_views(panes@.push(p)) =~= desk_views(panes@).push(p.view()));
            panes.push(p);
        }
    }
    assert(all.take(all.len() as int) =~= all);
    panes
}

/// A value, or a dash where there is none.
pub open spec fn or_dash(v: Option<Seq<char>>) -> Seq<char> {
    or_else(v, "-"@)
}

/// What is written to the configuration for a pane.
pub open spec fn pane_conf(p: DeskPaneV) -> Seq<char> {
    "\n["@ + p.name + "]\nsocket   = "@ + p.socket + "\ntype     = "@ + p.pane_type
        + "\nslot     = "@ + or_dash(p.slot) + "\ngeometry = "@ + or_dash(p.geometry)
        + "\nplaylist = "@ + or_dash(p.playlist) + "\n"@
}

fn append_or_dash(s: &mut String, v: &Option<String>)
    ensures
        final(s)@ == old(s)@ + or_dash(opt(*v)),
{
    match v {
        Some(t) => s.append(t.as_str()),
        None => s.append("-"),
    }
}

/// What is appended to the configuration for a pane.
pub fn write_pane_to_conf(p: &DeskPane) -> (r: String)
    ensures
        r@ == pane_conf(p.view()),
{
    let mut s: String = cat3("\n[", p.name.as_str(), "]\nsocket   = ");
    s.append(p.socket.as_str());
    s.append("\ntype     = ");
    s.append(p.pane_type.as_str());
    s.append("\nslot     = ");
    append_or_dash(&mut s, &p.slot);
    s.append("\ngeometry = ");
    append_or_dash(&mut s, &p.geometry);
    s.append("\nplaylist = ");
    append_or_dash(&mut s, &p.playlist);
    s.append("\n");
    s
}

// ---------------------------------------------------------------------------
// A plain list of panes
// ---------------------------------------------------------------------------

/// The panes of a plain list, one per line: a name and a socket. Blank lines,
/// comments and lines with fewer columns name none.
pub open spec fn listed_panes(ls: Seq<Seq<char>>) -> Seq<DeskPaneV>
    decreases ls.len(),
{
    if ls.len() == 0 {
        Seq::empty()
    } else {
        let before = listed_panes(ls.drop_last());
        let t = trimmed(ls.last());
        let cols = words(t);
        if t.len() == 0 || t[0] == '#' || cols.len() < 2 {
            before
        } else {
            before.push(
                DeskPaneV {
                    status: "Stopped"@,
                    ..idle_pane(cols[0], cols[1], "Video"@, None, None, None)
                },
            )
        }
    }
}

/// A pane of the sample desk.
pub open spec fn sample(
    name: Seq<char>,
    socket: Seq<char>,
    pane_type: Seq<char>,
    status: Seq<char>,
    volume: i64,
    muted: bool,
    title: Seq<char>,
) -> DeskPaneV {
    DeskPaneV { status, volume, muted, title, ..idle_pane(name, socket, pane_type, None, None, None) }
}

/// The panes that are shown where there is no list.
pub open spec fn sample_panes() -> Seq<DeskPaneV> {
    seq![
        sample(
            "Movies"@,
            "~/.config/panebot/movies.sock"@,
            "Video"@,
            "Playing"@,
            75,
            false,
            "The Princess Bride"@,
        ),
        sample(
            "Music"@,
            "~/.config/panebot/music.sock"@,
            "Audio"@,
            "Stopped"@,
            60,
            true,
            "Kind of Blue"@,
        ),
        sample(
            "Shows"@,
            "~/.config/panebot/shows.sock"@,
            "Video"@,
            "Playing"@,
            40,
            false,
            "Animaniacs S01E03"@,
        ),
        sample(
            "Tunes"@,
            "~/.config/panebot/tunes.sock"@,
            "Audio"@,
            "Stopped"@,
            80,
            true,
            "\u{2014}"@,
        ),
    ]
}

fn sample_pane(
    name: &str,
    socket: &str,
    pane_type: &str,
    status: &str,
    volume: i64,
    muted: bool,
    title: &str,
) -> (r: DeskPane)
    ensures
        r.view() == sample(name@, socket@, pane_type@, status@, volume, muted, title@),
{
    let mut p: DeskPane = new_pane(name, socket, pane_type, None, None, None);
    p.status = status.to_owned();
    p.volume = volume;
    p.muted = muted;
    p.title = title.to_owned();
    p
}

/// The panes that are shown where there is no list.
pub fn mock_panes() -> (r: Vec<DeskPane>)
    ensures
        desk_views(r@) == sample_panes(),
{
    let v: Vec<DeskPane> = vec![
        sample_pane(
            "Movies",
            "~/.config/panebot/movies.sock",
            "Video",
            "Playing",
            75,
            false,
            "The Princess Bride",
        ),
        sample_pane(
            "Music",
            "~/.config/panebot/music.sock",
            "Audio",
            "Stopped",
            60,
            true,
            "Kind of Blue",
        ),
        sample_pane(
            "Shows",
            "~/.config/panebot/shows.sock",
            "Video",
            "Playing",
            40,
            false,
            "Animaniacs S01E03",
        ),
        sample_pane(
            "Tunes",
            "~/.config/panebot/tunes.sock",
            "Audio",
            "Stopped",
            80,
            true,
            "\u{2014}",
        ),
    ];
    assert(desk_views(v@) =~= sample_panes());
    v
}

/// The panes of a plain list; the sample ones where it names none or could not be
/// read.
pub fn load_listed_panes(content: Option<&str>) -> (r: Vec<DeskPane>)
    ensures
        desk_views(r@) == (match content {
            Some(c) => if listed_panes(lines(c@)).len() == 0 {
                sample_panes()
            } else {
                listed_panes(lines(c@))
            },
            None => sample_panes(),
        }),
{
    let text: &str = match content {
        Some(c) => c,
        None => return mock_panes(),
    };
    let ls: Vec<String> = split_lines(text);
    let ghost all = lines(text@);
    let mut panes: Vec<DeskPane> = Vec::new();
    assert(desk_views(panes@) =~= listed_panes(all.take(0)));
    for i in 0..ls.len()
        invariant
            strs(ls@) == all,
            desk_views(panes@) == listed_panes(all.take(i as int)),
    {
        proof {
            assert(all.take(i + 1).drop_last() =~= all.take(i as int));
            assert(all.take(i + 1).last() == ls@[i as int]@);
        }
        let t: &str = trim(ls[i].as_str());
        let cols: Vec<String> = split_words(t);
        assert(strs(cols@).len() == cols@.len());
        if let Some(c) = crate::text::first_char(t) {
            if c != '#' && cols.len() >= 2 {
                assert(strs(cols@)[0] == cols@[0]@ && strs(cols@)[1] == cols@[1]@);
                let mut p: DeskPane = new_pane(
                    cols[0].as_str(),
                    cols[1].as_str(),
                    "Video",
                    None,
                    None,
                    None,
                );
                p.status = "Stopped".to_owned();
                assert(desk_views(panes@.push(p)) =~= desk_views(panes@).push(p.view()));
                panes.push(p);
            }
        }
    }
    assert(all.take(all.len() as int) =~= all);
    if panes.len() == 0 {
        mock_panes()
    } else {
        panes
    }
}

// ---------------------------------------------------------------------------
// Layout slots
// ---------------------------------------------------------------------------

/// The geometry of a slot: the one given last.
pub open spec fn slot_geometry(sections: Seq<SectionV>, slot: Seq<char>) -> Option<Seq<char>>
    decreases sections.len(),
{
    if sections.len() == 0 {
        None
    } else {
        match last_value(sections.last().pairs, "geometry"@) {
            Some(g) if sections.last().name == slot => Some(g),
            _ => slot_geometry(sections.drop_last(), slot),
        }
    }
}

/// The slots of a layout.
#[derive(Debug)]
pub struct Slots {
    sections: Vec<Section>,
}

impl Slots {
    /// The sections that the slots come from.
    pub closed spec fn sections(&self) -> Seq<SectionV> {
        section_views(self.sections@)
    }

    /// The geometry of a slot.
    pub fn get(&self, slot: &str) -> (r: Option<String>)
        ensures
            opt(r) == slot_geometry(self.sections(), slot@),
    {
        let ghost all = self.sections();
        let mut i: usize = self.sections.len();
        assert(all.take(i as int) =~= all);
        while i > 0
            invariant
                all == section_views(self.sections@),
                i <= self.sections@.len(),
                slot_geometry(all, slot@) == slot_geometry(all.take(i as int), slot@),
            decreases i,
        {
            proof {
                assert(all.take(i as int).last() == self.sections@[i - 1].view());
                assert(all.take(i as int).drop_last() =~= all.take(i - 1));
            }
            if same(self.sections[i - 1].name.as_str(), slot) {
                if let Some(g) = find_last(&self.sections[i - 1].pairs, "geometry") {
                    return Some(g);
                }
            }
            i = i - 1;
        }
        None
    }
}

/// Reads the slots of a layout; there are none where it could not be read.
pub fn load_layout(content: Option<&str>) -> (r: Slots)
    ensures
        r.sections() == (match content {
            Some(c) => ini_of(lines(c@)).sections,
            None => Seq::empty(),
        }),
{
    match content {
        Some(c) => Slots { sections: read_ini(c).sections },
        None => {
            let none: Vec<Section> = Vec::new();
            assert(section_views(none@) =~= Seq::empty());
            Slots { sections: none }
        },
    }
}

/// Where a pane's window goes: the geometry of its slot, else its own.
pub open spec fn geometry_of(p: DeskPaneV, sections: Seq<SectionV>) -> Option<Seq<char>> {
    match p.slot {
        Some(s) => match slot_geometry(sections, s) {
            Some(g) => Some(g),
            None => p.geometry,
        },
        None => p.geometry,
    }
}

/// Where a pane's window goes.
pub fn resolve_geometry(pane: &DeskPane, slots: &Slots) -> (r: Option<String>)
    ensures
        opt(r) == geometry_of(pane.view(), slots.sections()),
{
    if let Some(s) = &pane.slot {
        if let Some(g) = slots.get(s.as_str()) {
            return Some(g);
        }
    }
    match &pane.geometry {
        Some(g) => Some(g.clone()),
        None => None,
    }
}

// ---------------------------------------------------------------------------
// Starting players
// ---------------------------------------------------------------------------

/// The flags that a player is started with for the type of its pane.
pub open spec fn flags_of(t: Seq<char>) -> Seq<Seq<char>> {
    if t == "AUDIO"@ || t == "audio"@ {
        seq!["--vid=no"@, "--force-window=yes"@, "--keep-open=yes"@]
    } else if t == "YTDLP"@ || t == "ytdlp"@ {
        seq!["--force-window=yes"@, "--keep-open=yes"@, "--ytdl-format=bestvideo+bestaudio"@]
    } else if t == "RTSP"@ || t == "rtsp"@ {
        seq!["--force-window=yes"@, "--keep-open=yes"@, "--rtsp-transport=tcp"@]
    } else {
        seq!["--force-window=yes"@, "--keep-open=yes"@]
    }
}

/// The flags that a player is started with for the type of its pane.
pub fn type_flags(pane_type: &str) -> (r: Vec<String>)
    ensures
        strs(r@) == flags_of(pane_type@),
{
    let mut v: Vec<String> = Vec::new();
    if same(pane_type, "AUDIO") || same(pane_type, "audio") {
        v.push("--vid=no".to_owned());
        v.push("--force-window=yes".to_owned());
        v.push("--keep-open=yes".to_owned());
    } else {
        v.push("--force-window=yes".to_owned());
        v.push("--keep-open=yes".to_owned());
        if same(pane_type, "YTDLP") || same(pane_type, "ytdlp") {
            v.push("--ytdl-format=bestvideo+bestaudio".to_owned());
        } else if same(pane_type, "RTSP") || same(pane_type, "rtsp") {
            v.push("--rtsp-transport=tcp".to_owned());
        }
    }
    assert(strs(v@) =~= flags_of(pane_type@));
    v
}

/// The arguments that the player of a pane is started with. `conf` is the player
/// configuration of the pane, where it exists; without a playlist the player waits.
pub open spec fn desk_args(
    p: DeskPaneV,
    geometry: Option<Seq<char>>,
    conf: Option<Seq<char>>,
    playlist: Option<Seq<char>>,
) -> Seq<Seq<char>> {
    let base = seq![
        "--input-ipc-server="@ + p.socket,
        "--really-quiet"@,
        "--pause"@,
        "--mute=yes"@,
    ] + flags_of(p.pane_type);
    let with_conf = match conf {
        Some(c) => base.push("--include="@ + c),
        None => base,
    };
    let with_geometry = match geometry {
        Some(g) => with_conf.push("--geometry="@ + g),
        None => with_conf,
    };
    with_geometry.push(
        match playlist {
            Some(l) => l,
            None => "--idle=yes"@,
        },
    )
}

/// The arguments that the player of a pane is started with.
pub fn launch_pane(
    pane: &DeskPane,
    slots: &Slots,
    conf: Option<String>,
    playlist: Option<String>,
) -> (r: Vec<String>)
    ensures
        strs(r@) == desk_args(
            pane.view(),
            geometry_of(pane.view(), slots.sections()),
            opt(conf),
            opt(playlist),
        ),
{
    let mut args: Vec<String> = vec![
        cat("--input-ipc-server=", pane.socket.as_str()),
        "--really-quiet".to_owned(),
        "--pause".to_owned(),
        "--mute=yes".to_owned(),
    ];
    let ghost head = strs(args@);
    let mut flags: Vec<String> = type_flags(pane.pane_type.as_str());
    let ghost f = strs(flags@);
    args.append(&mut flags);
    assert(strs(args@) =~= head + f);
    assert(head =~= seq![
        "--input-ipc-server="@ + pane.socket@,
        "--really-quiet"@,
        "--pause"@,
        "--mute=yes"@,
    ]);
    if let Some(c) = conf {
        let a: String = cat("--include=", c.as_str());
        proof {
            lemma_strs_push(args@, a);
        }
        args.push(a);
    }
    if let Some(g) = resolve_geometry(pane, slots) {
        let a: String = cat("--geometry=", g.as_str());
        proof {
            lemma_strs_push(args@, a);
        }
        args.push(a);
    }
    let last: String = match playlist {
        Some(l) => l,
        None => "--idle=yes".to_owned(),
    };
    proof {
        lemma_strs_push(args@, last);
    }
    args.push(last);
    args
}

// ---------------------------------------------------------------------------
// Asking players
// ---------------------------------------------------------------------------

/// The line that asks a player for a property as text.
pub fn query_line(property: &str) -> (r: String)
    ensures
        r@ == "{\"command\":[\"get_property_string\","@ + rendered(JsonV::Str(property@)) + "]}\n"@,
{
    let p: Json = Json::string(property);
    cat3("{\"command\":[\"get_property_string\",", p.text().as_str(), "]}\n")
}

/// The line that gives a player a command.
pub fn cmd_line(args: &Vec<String>) -> (r: String)
    ensures
        r@ == "{\"command\":"@ + rendered(
            JsonV::Arr(Seq::new(args@.len(), |i: int| JsonV::Str(args@[i]@))),
        ) + "}\n"@,
{
    let mut v: Vec<Json> = Vec::new();
    for i in 0..args.len()
        invariant
            v.len() == i,
            forall|k: int| 0 <= k < i ==> (#[trigger] v@[k]).view() == JsonV::Str(args@[k]@),
    {
        v.push(Json::string(args[i].as_str()));
    }
    assert(jsons(v@) =~= Seq::new(args@.len(), |i: int| JsonV::Str(args@[i]@)));
    let arr: Json = Json::Arr(v);
    cat3("{\"command\":", arr.text().as_str(), "}\n")
}

/// A player's answer that the request succeeded.
pub open spec fn succeeded(m: JsonV) -> bool {
    str_of(at(m, "error"@)) == Some("success"@)
}

fn is_success(m: &Json) -> (r: bool)
    ensures
        r == succeeded(m.view()),
{
    match m.str_at("error") {
        Some(e) => same(e.as_str(), "success"),
        None => false,
    }
}

/// What the lines of a player answer to a query: the text of the first success;
/// nothing where none comes, or where a line before it is no JSON.
pub open spec fn answer_of(ls: Seq<Seq<char>>) -> Option<Seq<char>>
    decreases ls.len(),
{
    if ls.len() == 0 {
        None
    } else {
        match parsed(ls[0]) {
            Some(m) => if succeeded(m) {
                Some(
                    match str_of(at(m, "data"@)) {
                        Some(t) => t,
                        None => Seq::empty(),
                    },
                )
            } else {
                answer_of(ls.skip(1))
            },
            None => None,
        }
    }
}

/// What the lines of a player answer to a query.
pub fn query_mpv(ls: &Vec<String>) -> (r: Option<String>)
    ensures
        opt(r) == answer_of(strs(ls@)),
{
    let ghost all = strs(ls@);
    let mut i: usize = 0;
    assert(all.skip(0) =~= all);
    while i < ls.len()
        invariant
            all == strs(ls@),
            i <= ls@.len(),
            answer_of(all) == answer_of(all.skip(i as int)),
        decreases ls@.len() - i,
    {
        assert(all.skip(i as int)[0] == ls@[i as int]@);
        match Json::parse(ls[i].as_str()) {
            Some(m) => {
                if is_success(&m) {
                    return match m.str_at("data") {
                        Some(t) => Some(t),
                        None => Some(String::new()),
                    };
                }
            },
            None => {
                return None;
            },
        }
        assert(all.skip(i as int).skip(1) =~= all.skip(i + 1));
        i = i + 1;
    }
    None
}

/// The pane after its player was asked: offline where it could not be reached.
pub open spec fn refreshed(
    p: DeskPaneV,
    alive: bool,
    pause: Option<Seq<char>>,
    mute: Option<Seq<char>>,
    volume: i64,
    title: Option<Seq<char>>,
) -> DeskPaneV {
    if alive {
        DeskPaneV {
            status: if pause == Some("no"@) {
                "Playing"@
            } else {
                "Stopped"@
            },
            muted: mute == Some("yes"@),
            volume,
            title: or_else(title, "\u{2014}"@),
            ..p
        }
    } else {
        DeskPaneV { status: "Offline"@, title: "\u{2014}"@, volume: 0, muted: false, ..p }
    }
}

/// Takes in what the player of a pane answered. `volume` is its volume as a whole
/// number, zero where it gave none.
pub fn refresh_pane(
    pane: &mut DeskPane,
    alive: bool,
    pause: Option<String>,
    mute: Option<String>,
    volume: i64,
    title: Option<String>,
)
    ensures
        final(pane).view() == refreshed(
            old(pane).view(),
            alive,
            opt(pause),
            opt(mute),
            volume,
            opt(title),
        ),
{
    if !alive {
        pane.status = "Offline".to_owned();
        pane.title = "\u{2014}".to_owned();
        pane.volume = 0;
        pane.muted = false;
        return;
    }
    let playing: bool = match pause {
        Some(t) => same(t.as_str(), "no"),
        None => false,
    };
    pane.status = if playing {
        "Playing".to_owned()
    } else {
        "Stopped".to_owned()
    };
    pane.muted = match mute {
        Some(t) => same(t.as_str(), "yes"),
        None => false,
    };
    pane.volume = volume;
    pane.title = match title {
        Some(t) => t,
        None => "\u{2014}".to_owned(),
    };
}

// ---------------------------------------------------------------------------
// Playlists
// ---------------------------------------------------------------------------

/// An item of a player's playlist.
#[derive(Debug)]
pub struct DeskItem {
    pub index: usize,
    pub title: String,
}

pub struct DeskItemV {
    pub index: int,
    pub title: Seq<char>,
}

impl DeskItem {
    pub open spec fn view(&self) -> DeskItemV {
        DeskItemV { index: self.index as int, title: self.title@ }
    }
}

pub open spec fn desk_item_views(v: Seq<DeskItem>) -> Seq<DeskItemV> {
    Seq::new(v.len(), |i: int| v[i].view())
}

/// What an item goes by: its title, else its source, made readable.
pub open spec fn item_title(m: JsonV) -> Seq<char> {
    display_of(
        match str_of(at(m, "title"@)) {
            Some(t) => t,
            None => or_else(str_of(at(m, "filename"@)), "Unknown"@),
        },
    )
}

/// The playlist that the lines of a player answer: the first success that holds
/// one.
pub open spec fn playlist_of(ls: Seq<Seq<char>>) -> Seq<DeskItemV>
    decreases ls.len(),
{
    if ls.len() == 0 {
        Seq::empty()
    } else {
        match parsed(ls[0]) {
            Some(m) => match at(m, "data"@) {
                JsonV::Arr(items) => if succeeded(m) {
                    Seq::new(
                        items.len(),
                        |i: int| DeskItemV { index: i, title: item_title(items[i]) },
                    )
                } else {
                    playlist_of(ls.skip(1))
                },
                _ => playlist_of(ls.skip(1)),
            },
            None => playlist_of(ls.skip(1)),
        }
    }
}

fn items_of(a: &Vec<Json>) -> (r: Vec<DeskItem>)
    ensures
        desk_item_views(r@) == Seq::new(
            a@.len(),
            |i: int| DeskItemV { index: i, title: item_title(a@[i].view()) },
        ),
{
    let mut out: Vec<DeskItem> = Vec::new();
    for i in 0..a.len()
        invariant
            out.len() == i,
            forall|k: int|
                0 <= k < i ==> (#[trigger] out@[k]).view() == (DeskItemV {
                    index: k,
                    title: item_title(a@[k].view()),
                }),
    {
        let raw: String = match a[i].str_at("title") {
            Some(t) => t,
            None => value_or(a[i].str_at("filename"), "Unknown"),
        };
        out.push(DeskItem { index: i, title: display_name(raw.as_str()) });
    }
    assert(desk_item_views(out@) =~= Seq::new(
        a@.len(),
        |i: int| DeskItemV { index: i, title: item_title(a@[i].view()) },
    ));
    out
}

/// The playlist that the lines of a player answer.
pub fn fetch_playlist(ls: &Vec<String>) -> (r: Vec<DeskItem>)
    ensures
        desk_item_views(r@) == playlist_of(strs(ls@)),
{
    let ghost all = strs(ls@);
    let mut i: usize = 0;
    assert(all.skip(0) =~= all);
    while i < ls.len()
        invariant
            all == strs(ls@),
            i <= ls@.len(),
            playlist_of(all) == playlist_of(all.skip(i as int)),
        decreases ls@.len() - i,
    {
        assert(all.skip(i as int)[0] == ls@[i as int]@);
        if let Some(m) = Json::parse(ls[i].as_str()) {
            if is_success(&m) {
                if let Some(d) = m.get("data") {
                    if let Some(a) = d.as_array() {
                        let out: Vec<DeskItem> = items_of(a);
                        proof {
                            assert(at(m.view(), "data"@) == JsonV::Arr(jsons(a@)));
                            assert(desk_item_views(out@) =~= playlist_of(all.skip(i as int)));
                        }
                        return out;
                    }
                }
            }
        }
        assert(all.skip(i as int).skip(1) =~= all.skip(i + 1));
        i = i + 1;
    }
    let none: Vec<DeskItem> = Vec::new();
    assert(desk_item_views(none@) =~= Seq::empty());
    none
}

/// The sources of the items, each on a line of its own; items without one are left
/// out.
pub open spec fn sources_text(items: Seq<JsonV>) -> Seq<char>
    decreases items.len(),
{
    if items.len() == 0 {
        Seq::empty()
    } else {
        let before = sources_text(items.drop_last());
        match str_of(at(items.last(), "filename"@)) {
            Some(f) => before + f + "\n"@,
            None => before,
        }
    }
}

/// What the playlist file is to hold after the lines of a player: the sources of the
/// first success; nothing is written where that holds no playlist, or none comes.
pub open spec fn synced_of(ls: Seq<Seq<char>>) -> Option<Seq<char>>
    decreases ls.len(),
{
    if ls.len() == 0 {
        None
    } else {
        match parsed(ls[0]) {
            Some(m) => if succeeded(m) {
                match at(m, "data"@) {
                    JsonV::Arr(items) => Some(sources_text(items)),
                    _ => None,
                }
            } else {
                synced_of(ls.skip(1))
            },
            None => synced_of(ls.skip(1)),
        }
    }
}

fn sources(a: &Vec<Json>) -> (r: String)
    ensures
        r@ == sources_text(jsons(a@)),
{
    let ghost all = jsons(a@);
    let mut out: String = String::new();
    assert(out@ =~= sources_text(all.take(0)));
    for i in 0..a.len()
        invariant
            all == jsons(a@),
            out@ == sources_text(all.take(i as int)),
    {
        proof {
            assert(all.take(i + 1).drop_last() =~= all.take(i as int));
            assert(all.take(i + 1).last() == a@[i as int].view());
        }
        if let Some(f) = a[i].str_at("filename") {
            out.append(f.as_str());
            out.append("\n");
        }
    }
    assert(all.take(all.len() as int) =~= all);
    out
}

/// What the playlist file is to hold after the lines of a player.
pub fn sync_m3u_from_mpv(ls: &Vec<String>) -> (r: Option<String>)
    ensures
        opt(r) == synced_of(strs(ls@)),
{
    let ghost all = strs(ls@);
    let mut i: usize = 0;
    assert(all.skip(0) =~= all);
    while i < ls.len()
        invariant
            all == strs(ls@),
            i <= ls@.len(),
            synced_of(all) == synced_of(all.skip(i as int)),
        decreases ls@.len() - i,
    {
        assert(all.skip(i as int)[0] == ls@[i as int]@);
        if let Some(m) = Json::parse(ls[i].as_str()) {
            if is_success(&m) {
                if let Some(d) = m.get("data") {
                    if let Some(a) = d.as_array() {
                        return Some(sources(a));
                    }
                }
                return None;
            }
        }
        assert(all.skip(i as int).skip(1) =~= all.skip(i + 1));
        i = i + 1;
    }
    None
}

/// The files that an entry stands for: the media files of a directory in order, or
/// the path itself.
pub fn expand_input(input: &str, home: &str, media: Option<&Vec<String>>) -> (r: Vec<String>)
    ensures
        match media {
            Some(files) => in_order(strs(r@)) && strs(r@).to_multiset() == strs(
                files@,
            ).to_multiset(),
            None => strs(r@) == seq![tilde_expanded(input@, home@)],
        },
{
    match media {
        Some(files) => sort_strings(files),
        None => {
            let v: Vec<String> = vec![expand_tilde(input, home)];
            assert(strs(v@) =~= seq![tilde_expanded(input@, home@)]);
            v
        },
    }
}

/// The items that are shown where there is no player.
pub fn mock_playlist() -> (r: Vec<DeskItem>)
    ensures
        desk_item_views(r@) == seq![
            DeskItemV { index: 0, title: "The Princess Bride"@ },
            DeskItemV { index: 1, title: "Blade Runner 2049"@ },
            DeskItemV { index: 2, title: "Animaniacs S01E03"@ },
            DeskItemV { index: 3, title: "The Iron Giant"@ },
            DeskItemV { index: 4, title: "Spirited Away"@ },
        ],
{
    let v: Vec<DeskItem> = vec![
        DeskItem { index: 0, title: "The Princess Bride".to_owned() },
        DeskItem { index: 1, title: "Blade Runner 2049".to_owned() },
        DeskItem { index: 2, title: "Animaniacs S01E03".to_owned() },
        DeskItem { index: 3, title: "The Iron Giant".to_owned() },
        DeskItem { index: 4, title: "Spirited Away".to_owned() },
    ];
    assert(desk_item_views(v@) =~= seq![
        DeskItemV { index: 0, title: "The Princess Bride"@ },
        DeskItemV { index: 1, title: "Blade Runner 2049"@ },
        DeskItemV { index: 2, title: "Animaniacs S01E03"@ },
        DeskItemV { index: 3, title: "The Iron Giant"@ },
        DeskItemV { index: 4, title: "Spirited Away"@ },
    ]);
    v
}

// ---------------------------------------------------------------------------
// Tiling
// ---------------------------------------------------------------------------

/// A window: its size and where its corner is.
pub struct WindowV {
    pub w: int,
    pub h: int,
    pub x: int,
    pub y: int,
}

/// The number at `i` among texts; zero where there is none or it is no number that
/// fits.
pub open spec fn number_at(v: Seq<Seq<char>>, i: int) -> int {
    if 0 <= i < v.len() {
        match number_value(v[i]) {
            Some(n) => if n <= u32::MAX {
                n
            } else {
                0
            },
            None => 0,
        }
    } else {
        0
    }
}

/// The window that a geometry describes.
pub open spec fn window_of(g: Seq<char>) -> WindowV {
    let i = first_index(g, '+');
    let dims = split(g.take(i), 'x');
    if i < g.len() {
        let rest = split(g.skip(i + 1), '+');
        WindowV {
            w: number_at(dims, 0),
            h: number_at(dims, 1),
            x: number_at(rest, 0),
            y: number_at(rest, 1),
        }
    } else {
        WindowV { w: number_at(dims, 0), h: number_at(dims, 1), x: 0, y: 0 }
    }
}

/// A window's geometry as text; a width of zero leaves the size out.
pub open spec fn geometry_text(w: int, h: int, x: int, y: int) -> Seq<char> {
    if w > 0 {
        decimal(w) + "x"@ + decimal(h) + "+"@ + decimal(x) + "+"@ + decimal(y)
    } else {
        "+"@ + decimal(x) + "+"@ + decimal(y)
    }
}

/// The geometry of a window beside or below another.
pub open spec fn tiled(prev: Seq<char>, width: int, height: int, horizontal: bool) -> Seq<char> {
    let p = window_of(prev);
    if horizontal {
        geometry_text(width, height, p.x + p.w, p.y)
    } else {
        geometry_text(width, height, p.x, p.y + p.h)
    }
}

fn number_in(v: &Vec<String>, i: usize) -> (r: u32)
    ensures
        r == number_at(strs(v@), i as int),
{
    if i < v.len() {
        assert(strs(v@)[i as int] == v@[i as int]@);
        match parse_u32(v[i].as_str()) {
            Some(n) => n,
            None => 0,
        }
    } else {
        0
    }
}

/// A window's geometry as text.
pub fn write_geometry(w: u32, h: u32, x: u32, y: u32) -> (r: String)
    ensures
        r@ == geometry_text(w as int, h as int, x as int, y as int),
{
    let mut s: String = String::new();
    if w > 0 {
        s = cat3(decimal_of(w as usize).as_str(), "x", decimal_of(h as usize).as_str());
    }
    s.append("+");
    s.append(decimal_of(x as usize).as_str());
    s.append("+");
    s.append(decimal_of(y as usize).as_str());
    assert(s@ =~= geometry_text(w as int, h as int, x as int, y as int));
    s
}

/// The size and the corner of the window that a geometry describes.
pub fn read_window(g: &str) -> (r: (u32, u32, u32, u32))
    ensures
        (WindowV { w: r.0 as int, h: r.1 as int, x: r.2 as int, y: r.3 as int }) == window_of(g@),
{
    let n: usize = g.unicode_len();
    let i: usize = find_char(g, '+');
    let head: &str = g.substring_char(0, i);
    assert(head@ =~= g@.take(i as int));
    let dims: Vec<String> = split_char(head, 'x');
    let w: u32 = number_in(&dims, 0);
    let h: u32 = number_in(&dims, 1);
    if i < n {
        let tail: &str = g.substring_char(i + 1, n);
        assert(tail@ =~= g@.skip(i + 1));
        let rest: Vec<String> = split_char(tail, '+');
        (w, h, number_in(&rest, 0), number_in(&rest, 1))
    } else {
        (w, h, 0, 0)
    }
}

/// The geometry of a window beside or below another.
pub fn tile_geo(prev_geo: &str, width: u32, height: u32, horizontal: bool) -> (r: String)
    requires
        ({
            let p = window_of(prev_geo@);
            if horizontal {
                p.x + p.w <= u32::MAX
            } else {
                p.y + p.h <= u32::MAX
            }
        }),
    ensures
        r@ == tiled(prev_geo@, width as int, height as int, horizontal),
{
    let (w, h, x, y): (u32, u32, u32, u32) = read_window(prev_geo);
    if horizontal {
        write_geometry(width, height, x + w, y)
    } else {
        write_geometry(width, height, x, y + h)
    }
}

} // verus!
