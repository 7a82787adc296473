//! What the configuration files say: panes, hosts, pane types, layouts, and the
//! daemon's mode.
use crate::ini::{
    find_last, ini_of, last_value, or_else, pair_of, read_ini, section_views, split_pair,
    text_pairs, value_or, Ini, Section, SectionV,
};
use crate::paths::{expand_tilde, tilde_expanded};
use crate::text::{
    cat3, is_empty, lemma_strs_push, lines, opt, same, split, split_char, split_lines, strs, trim,
    trimmed,
};
use vstd::prelude::*;

verus! {

/// A pane: the stable name that its files and its player go by, the name shown to
/// people, its type, and the playlist it starts with where one is given.
#[derive(Debug)]
pub struct Pane {
    pub mpv_name: String,
    pub pane_name: String,
    pub pane_type: String,
    pub playlist: Option<String>,
}

pub struct PaneV {
    pub mpv_name: Seq<char>,
    pub pane_name: Seq<char>,
    pub pane_type: Seq<char>,
    pub playlist: Option<Seq<char>>,
}

/// The panes and the layout they stand in.
#[derive(Debug)]
pub struct Config {
    pub layout: String,
    pub panes: Vec<Pane>,
    pub home: String,
}

pub struct ConfigV {
    pub layout: Seq<char>,
    pub panes: Seq<PaneV>,
    pub home: Seq<char>,
}

/// A daemon elsewhere.
#[derive(Debug)]
pub struct Host {
    pub label: String,
    pub address: String,
}

pub struct HostV {
    pub label: Seq<char>,
    pub address: Seq<char>,
}

/// The player options and scripts that panes of one type start with.
#[derive(Debug)]
pub struct PaneType {
    pub options: Vec<String>,
    pub scripts: Vec<String>,
}

pub struct PaneTypeV {
    pub options: Seq<Seq<char>>,
    pub scripts: Seq<Seq<char>>,
}

/// Where a layout puts one pane.
#[derive(Debug)]
pub struct LayoutEntry {
    pub geometry: Option<String>,
    pub swaymsg: Option<String>,
}

pub struct LayoutEntryV {
    pub geometry: Option<Seq<char>>,
    pub swaymsg: Option<Seq<char>>,
}

impl Pane {
    pub open spec fn view(&self) -> PaneV {
        PaneV {
            mpv_name: self.mpv_name@,
            pane_name: self.pane_name@,
            pane_type: self.pane_type@,
            playlist: opt(self.playlist),
        }
    }

    /// A copy of the pane.
    pub fn copy(&self) -> (r: Pane)
        ensures
            r.view() == self.view(),
    {
        let playlist: Option<String> = match &self.playlist {
            Some(p) => Some(p.clone()),
            None => None,
        };
        Pane {
            mpv_name: self.mpv_name.clone(),
            pane_name: self.pane_name.clone(),
            pane_type: self.pane_type.clone(),
            playlist,
        }
    }
}

pub open spec fn pane_views(v: Seq<Pane>) -> Seq<PaneV> {
    Seq::new(v.len(), |i: int| v[i].view())
}

impl Config {
    pub open spec fn view(&self) -> ConfigV {
        ConfigV { layout: self.layout@, panes: pane_views(self.panes@), home: self.home@ }
    }
}

impl Host {
    pub open spec fn view(&self) -> HostV {
        HostV { label: self.label@, address: self.address@ }
    }
}

pub open spec fn host_views(v: Seq<Host>) -> Seq<HostV> {
    Seq::new(v.len(), |i: int| v[i].view())
}

impl PaneType {
    pub open spec fn view(&self) -> PaneTypeV {
        PaneTypeV { options: strs(self.options@), scripts: strs(self.scripts@) }
    }
}

pub open spec fn type_views(v: Seq<(String, PaneType)>) -> Seq<(Seq<char>, PaneTypeV)> {
    Seq::new(v.len(), |i: int| (v[i].0@, v[i].1.view()))
}

impl LayoutEntry {
    pub open spec fn view(&self) -> LayoutEntryV {
        LayoutEntryV { geometry: opt(self.geometry), swaymsg: opt(self.swaymsg) }
    }
}

// ---------------------------------------------------------------------------
// Panes
// ---------------------------------------------------------------------------

/// The pane that a section describes: shown under the section's name and of type
/// `video` unless the section says otherwise.
pub open spec fn pane_of(s: SectionV, home: Seq<char>) -> PaneV {
    PaneV {
        mpv_name: s.name,
        pane_name: or_else(last_value(s.pairs, "pane_name"@), s.name),
        pane_type: or_else(last_value(s.pairs, "type"@), "video"@),
        playlist: match last_value(s.pairs, "playlist"@) {
            Some(p) => Some(tilde_expanded(p, home)),
            None => None,
        },
    }
}

/// The configuration that a file describes: one pane for each section, in order,
/// and the layout named last, wherever it is named.
pub open spec fn config_of(content: Option<Seq<char>>, home: Seq<char>) -> ConfigV {
    match content {
        Some(c) => {
            let ini = ini_of(lines(c));
            ConfigV {
                layout: or_else(last_value(ini.all, "layout"@), "pb.left.stack"@),
                panes: Seq::new(ini.sections.len(), |i: int| pane_of(ini.sections[i], home)),
                home,
            }
        },
        None => ConfigV { layout: "pb.left.stack"@, panes: Seq::empty(), home },
    }
}

fn section_pane(s: &Section, home: &str) -> (r: Pane)
    ensures
        r.view() == pane_of(s.view(), home@),
{
    let pane_name: String = value_or(find_last(&s.pairs, "pane_name"), s.name.as_str());
    let pane_type: String = value_or(find_last(&s.pairs, "type"), "video");
    let playlist: Option<String> = match find_last(&s.pairs, "playlist") {
        Some(p) => Some(expand_tilde(p.as_str(), home)),
        None => None,
    };
    Pane { mpv_name: s.name.clone(), pane_name, pane_type, playlist }
}

/// The configuration, from what the panes file holds (nothing where it could not
/// be read) and the home directory.
pub fn load_config(content: Option<&str>, home: &str) -> (r: Config)
    ensures
        r.view() == config_of(
            match content {
                Some(c) => Some(c@),
                None => None,
            },
            home@,
        ),
{
    let text: &str = match content {
        Some(c) => c,
        None => {
            let r: Config = Config {
                layout: "pb.left.stack".to_owned(),
                panes: Vec::new(),
                home: home.to_owned(),
            };
            assert(r.view().panes =~= Seq::empty());
            return r;
        },
    };
    let ini: Ini = read_ini(text);
    let layout: String = value_or(find_last(&ini.all, "layout"), "pb.left.stack");
    let mut panes: Vec<Pane> = Vec::new();
    for i in 0..ini.sections.len()
        invariant
            panes.len() == i,
            forall|k: int|
                0 <= k < i ==> (#[trigger] panes@[k]).view() == pane_of(
                    ini.sections@[k].view(),
                    home@,
                ),
    {
        panes.push(section_pane(&ini.sections[i], home));
    }
    let r: Config = Config { layout, panes, home: home.to_owned() };
    proof {
        let v = ini_of(lines(text@));
        assert(v.sections == section_views(ini.sections@));
        assert(r.view().panes =~= config_of(Some(text@), home@).panes);
    }
    r
}

// ---------------------------------------------------------------------------
// Hosts and mode
// ---------------------------------------------------------------------------

/// The hosts among the sections: those that give an address.
pub open spec fn hosts_of(sections: Seq<SectionV>) -> Seq<HostV>
    decreases sections.len(),
{
    if sections.len() == 0 {
        Seq::empty()
    } else {
        let before = hosts_of(sections.drop_last());
        match last_value(sections.last().pairs, "address"@) {
            Some(a) => before.push(HostV { label: sections.last().name, address: a }),
            None => before,
        }
    }
}

/// The known hosts, from what the daemon file holds (nothing where it could not be
/// read).
pub fn load_hosts(content: Option<&str>) -> (r: Vec<Host>)
    ensures
        host_views(r@) == (match content {
            Some(c) => hosts_of(ini_of(lines(c@)).sections),
            None => Seq::empty(),
        }),
{
    let mut hosts: Vec<Host> = Vec::new();
    assert(host_views(hosts@) =~= Seq::empty());
    let text: &str = match content {
        Some(c) => c,
        None => return hosts,
    };
    let ini: Ini = read_ini(text);
    let ghost all = ini.view().sections;
    assert(hosts_of(all.take(0)) =~= Seq::empty());
    for i in 0..ini.sections.len()
        invariant
            all == section_views(ini.sections@),
            host_views(hosts@) == hosts_of(all.take(i as int)),
    {
        let s: &Section = &ini.sections[i];
        proof {
            assert(all.take(i + 1).drop_last() =~= all.take(i as int));
            assert(all.take(i + 1).last() == s.view());
        }
        if let Some(a) = find_last(&s.pairs, "address") {
            let h: Host = Host { label: s.name.clone(), address: a };
            proof {
                assert(host_views(hosts@.push(h)) =~= host_views(hosts@).push(h.view()));
            }
            hosts.push(h);
        }
    }
    assert(all.take(all.len() as int) =~= all);
    hosts
}

/// A line that puts the daemon in remote mode.
pub open spec fn says_remote(line: Seq<char>) -> bool {
    pair_of(trimmed(line)) == Some(("mode"@, "remote"@))
}

/// Whether the daemon file puts the daemon in remote mode: some line does.
pub open spec fn is_remote(content: Seq<char>) -> bool {
    exists|i: int| 0 <= i < lines(content).len() && says_remote(#[trigger] lines(content)[i])
}

/// The daemon's mode, `remote` or `local`; a file that cannot be read counts as
/// empty.
pub fn load_daemon_mode(content: &str) -> (r: &'static str)
    ensures
        r@ == (if is_remote(content@) {
            "remote"@
        } else {
            "local"@
        }),
{
    let ls: Vec<String> = split_lines(content);
    let ghost all = lines(content@);
    for i in 0..ls.len()
        invariant
            strs(ls@) == all,
            all == lines(content@),
            forall|k: int| 0 <= k < i ==> !says_remote(#[trigger] all[k]),
    {
        assert(all[i as int] == ls@[i as int]@);
        if let Some((k, v)) = split_pair(trim(ls[i].as_str())) {
            if same(k.as_str(), "mode") && same(v.as_str(), "remote") {
                assert(says_remote(all[i as int]));
                return "remote";
            }
        }
    }
    "local"
}

/// The address that the daemon listens on: every interface in remote mode, else
/// only this machine.
pub fn bind_address(mode: &str) -> (r: &'static str)
    ensures
        r@ == (if mode@ == "remote"@ {
            "0.0.0.0:9090"@
        } else {
            "127.0.0.1:9090"@
        }),
{
    if same(mode, "remote") {
        "0.0.0.0:9090"
    } else {
        "127.0.0.1:9090"
    }
}

// ---------------------------------------------------------------------------
// Pane types
// ---------------------------------------------------------------------------

/// The options of a type: every pair but `scripts`, written without spaces.
pub open spec fn options_of(pairs: Seq<(Seq<char>, Seq<char>)>) -> Seq<Seq<char>>
    decreases pairs.len(),
{
    if pairs.len() == 0 {
        Seq::empty()
    } else {
        let before = options_of(pairs.drop_last());
        if pairs.last().0 == "scripts"@ {
            before
        } else {
            before.push(pairs.last().0 + "="@ + pairs.last().1)
        }
    }
}

/// The names in a list with commas.
pub open spec fn comma_list(v: Seq<char>) -> Seq<Seq<char>> {
    Seq::new(split(v, ',').len(), |i: int| trimmed(split(v, ',')[i]))
}

/// The type that a section describes.
pub open spec fn type_of(s: SectionV) -> PaneTypeV {
    PaneTypeV {
        options: options_of(s.pairs),
        scripts: match last_value(s.pairs, "scripts"@) {
            Some(v) => comma_list(v),
            None => Seq::empty(),
        },
    }
}

fn section_options(pairs: &Vec<(String, String)>) -> (r: Vec<String>)
    ensures
        strs(r@) == options_of(text_pairs(pairs@)),
{
    let ghost all = text_pairs(pairs@);
    let mut out: Vec<String> = Vec::new();
    assert(strs(out@) =~= options_of(all.take(0)));
    for i in 0..pairs.len()
        invariant
            all == text_pairs(pairs@),
            strs(out@) == options_of(all.take(i as int)),
    {
        proof {
            assert(all.take(i + 1).drop_last() =~= all.take(i as int));
            assert(all.take(i + 1).last() == all[i as int]);
        }
        if !same(pairs[i].0.as_str(), "scripts") {
            let o: String = cat3(pairs[i].0.as_str(), "=", pairs[i].1.as_str());
            proof {
                lemma_strs_push(out@, o);
            }
            out.push(o);
        }
    }
    assert(all.take(all.len() as int) =~= all);
    out
}

/// The names in a list with commas.
fn names_in(v: &str) -> (r: Vec<String>)
    ensures
        strs(r@) == comma_list(v@),
{
    let parts: Vec<String> = split_char(v, ',');
    let mut out: Vec<String> = Vec::new();
    for i in 0..parts.len()
        invariant
            strs(parts@) == split(v@, ','),
            out.len() == i,
            forall|k: int| 0 <= k < i ==> (#[trigger] out@[k])@ == trimmed(split(v@, ',')[k]),
    {
        assert(strs(parts@)[i as int] == parts@[i as int]@);
        out.push(trim(parts[i].as_str()).to_owned());
    }
    assert(strs(out@) =~= comma_list(v@));
    out
}

/// The pane types by name, in the order of the file. A name that occurs again
/// stands for its last section.
pub fn load_types(content: Option<&str>) -> (r: Vec<(String, PaneType)>)
    ensures
        type_views(r@) == (match content {
            Some(c) => {
                let sections = ini_of(lines(c@)).sections;
                Seq::new(
                    sections.len(),
                    |i: int| (sections[i].name, type_of(sections[i])),
                )
            },
            None => Seq::empty(),
        }),
{
    let mut types: Vec<(String, PaneType)> = Vec::new();
    let text: &str = match content {
        Some(c) => c,
        None => {
            assert(type_views(types@) =~= Seq::empty());
            return types;
        },
    };
    let ini: Ini = read_ini(text);
    let ghost sections = ini_of(lines(text@)).sections;
    for i in 0..ini.sections.len()
        invariant
            sections == section_views(ini.sections@),
            types.len() == i,
            forall|k: int|
                0 <= k < i ==> (#[trigger] types@[k]).0@ == sections[k].name && types@[k].1.view()
                    == type_of(sections[k]),
    {
        let s: &Section = &ini.sections[i];
        assert(sections[i as int] == s.view());
        let scripts: Vec<String> = match find_last(&s.pairs, "scripts") {
            Some(v) => names_in(v.as_str()),
            None => {
                let none: Vec<String> = Vec::new();
                assert(strs(none@) =~= Seq::empty());
                none
            },
        };
        types.push((s.name.clone(), PaneType { options: section_options(&s.pairs), scripts }));
    }
    assert(type_views(types@) =~= Seq::new(
        sections.len(),
        |i: int| (sections[i].name, type_of(sections[i])),
    ));
    types
}

/// The type that a name stands for: its last section.
pub open spec fn type_named(types: Seq<(Seq<char>, PaneTypeV)>, name: Seq<char>) -> Option<PaneTypeV>
    decreases types.len(),
{
    if types.len() == 0 {
        None
    } else if types.last().0 == name {
        Some(types.last().1)
    } else {
        type_named(types.drop_last(), name)
    }
}

/// The type that a name stands for.
pub fn find_type<'a>(types: &'a Vec<(String, PaneType)>, name: &str) -> (r: Option<&'a PaneType>)
    ensures
        match r {
            Some(t) => type_named(type_views(types@), name@) == Some(t.view()),
            None => type_named(type_views(types@), name@) is None,
        },
{
    let ghost all = type_views(types@);
    let mut i: usize = types.len();
    assert(all.take(i as int) =~= all);
    while i > 0
        invariant
            all == type_views(types@),
            i <= types.len(),
            type_named(all, name@) == type_named(all.take(i as int), name@),
        decreases i,
    {
        assert(all.take(i as int).last() == all[i - 1]);
        assert(all.take(i as int).drop_last() =~= all.take(i - 1));
        if same(types[i - 1].0.as_str(), name) {
            return Some(&types[i - 1].1);
        }
        i = i - 1;
    }
    None
}

// ---------------------------------------------------------------------------
// Layouts
// ---------------------------------------------------------------------------

/// What a section adds to the entry of its pane: the keys that it gives. A section
/// without a name gives nothing.
pub open spec fn merged(before: LayoutEntryV, s: SectionV) -> LayoutEntryV {
    if s.name.len() == 0 {
        before
    } else {
        LayoutEntryV {
            geometry: match last_value(s.pairs, "geometry"@) {
                Some(g) => Some(g),
                None => before.geometry,
            },
            swaymsg: match last_value(s.pairs, "swaymsg"@) {
                Some(m) => Some(m),
                None => before.swaymsg,
            },
        }
    }
}

/// The entry of the pane `name`: what its sections give, the later over the
/// earlier. A pane without a section has none.
pub open spec fn layout_entry(sections: Seq<SectionV>, name: Seq<char>) -> Option<LayoutEntryV>
    decreases sections.len(),
{
    if sections.len() == 0 {
        None
    } else {
        let before = layout_entry(sections.drop_last(), name);
        if sections.last().name == name {
            Some(
                merged(
                    match before {
                        Some(e) => e,
                        None => LayoutEntryV { geometry: None, swaymsg: None },
                    },
                    sections.last(),
                ),
            )
        } else {
            before
        }
    }
}

/// A layout: one entry for each pane that it names.
#[derive(Debug)]
pub struct Layout {
    pub entries: Vec<(String, LayoutEntry)>,
}

impl Layout {
    /// The entry of the pane `name`.
    pub open spec fn entry(&self, name: Seq<char>) -> Option<LayoutEntryV> {
        if exists|i: int| 0 <= i < self.entries@.len() && (#[trigger] self.entries@[i]).0@ == name {
            let i = choose|i: int|
                0 <= i < self.entries@.len() && (#[trigger] self.entries@[i]).0@ == name;
            Some(self.entries@[i].1.view())
        } else {
            None
        }
    }

    /// No pane has two entries.
    pub open spec fn wf(&self) -> bool {
        forall|i: int, j: int|
            0 <= i < j < self.entries@.len() ==> (#[trigger] self.entries@[i]).0@ != (
            #[trigger] self.entries@[j]).0@
    }

    proof fn lemma_entry(&self, i: int)
        requires
            self.wf(),
            0 <= i < self.entries@.len(),
        ensures
            self.entry(self.entries@[i].0@) == Some(self.entries@[i].1.view()),
    {
        let name = self.entries@[i].0@;
        assert(self.entries@[i].0@ == name);
        let j = choose|j: int|
            0 <= j < self.entries@.len() && (#[trigger] self.entries@[j]).0@ == name;
        assert(i == j);
    }

    fn position(&self, name: &str) -> (r: Option<usize>)
        ensures
            match r {
                Some(i) => i < self.entries@.len() && self.entries@[i as int].0@ == name@,
                None => forall|i: int|
                    0 <= i < self.entries@.len() ==> (#[trigger] self.entries@[i]).0@ != name@,
            },
    {
        for i in 0..self.entries.len()
            invariant
                forall|k: int| 0 <= k < i ==> (#[trigger] self.entries@[k]).0@ != name@,
        {
            if same(self.entries[i].0.as_str(), name) {
                return Some(i);
            }
        }
        None
    }

    /// The geometry that the layout gives a pane.
    pub fn geometry_of(&self, name: &str) -> (r: Option<String>)
        requires
            self.wf(),
        ensures
            opt(r) == (match self.entry(name@) {
                Some(e) => e.geometry,
                None => None,
            }),
    {
        match self.position(name) {
            Some(i) => {
                proof {
                    self.lemma_entry(i as int);
                }
                match &self.entries[i].1.geometry {
                    Some(g) => Some(g.clone()),
                    None => None,
                }
            },
            None => None,
        }
    }

    /// The window-manager message that the layout gives a pane.
    pub fn swaymsg_of(&self, name: &str) -> (r: Option<String>)
        requires
            self.wf(),
        ensures
            opt(r) == (match self.entry(name@) {
                Some(e) => e.swaymsg,
                None => None,
            }),
    {
        match self.position(name) {
            Some(i) => {
                proof {
                    self.lemma_entry(i as int);
                }
                match &self.entries[i].1.swaymsg {
                    Some(g) => Some(g.clone()),
                    None => None,
                }
            },
            None => None,
        }
    }

    /// Adds what one section says.
    fn absorb(&mut self, s: &Section)
        requires
            old(self).wf(),
        ensures
            final(self).wf(),
            forall|n: Seq<char>|
                #[trigger] final(self).entry(n) == (if n == s.name@ {
                    Some(
                        merged(
                            match old(self).entry(n) {
                                Some(e) => e,
                                None => LayoutEntryV { geometry: None, swaymsg: None },
                            },
                            s.view(),
                        ),
                    )
                } else {
                    old(self).entry(n)
                }),
    {
        let ghost before = *self;
        let i: usize = match self.position(s.name.as_str()) {
            Some(i) => i,
            None => {
                let e: LayoutEntry = LayoutEntry { geometry: None, swaymsg: None };
                self.entries.push((s.name.clone(), e));
                self.entries.len() - 1
            },
        };
        let ghost middle = *self;
        let mut e: LayoutEntry = self.entries.remove(i).1;
        if !is_empty(s.name.as_str()) {
            if let Some(g) = find_last(&s.pairs, "geometry") {
                e.geometry = Some(g);
            }
            if let Some(m) = find_last(&s.pairs, "swaymsg") {
                e.swaymsg = Some(m);
            }
        }
        self.entries.insert(i, (s.name.clone(), e));
        proof {
            assert(middle.wf());
            assert forall|a: int, b: int| 0 <= a < b < self.entries@.len() implies (
            #[trigger] self.entries@[a]).0@ != (#[trigger] self.entries@[b]).0@ by {
                assert(middle.entries@[a].0@ != middle.entries@[b].0@);
            }
            self.lemma_entry(i as int);
            middle.lemma_entry(i as int);
            assert forall|n: Seq<char>| #[trigger] self.entry(n) == (if n == s.name@ {
                Some(
                    merged(
                        match before.entry(n) {
                            Some(e) => e,
                            None => LayoutEntryV { geometry: None, swaymsg: None },
                        },
                        s.view(),
                    ),
                )
            } else {
                before.entry(n)
            }) by {
                if n == s.name@ {
                    if before.entries@.len() == middle.entries@.len() {
                        assert(before.entries@ == middle.entries@);
                    }
                } else {
                    if let Some(x) = before.entry(n) {
                        let k = choose|k: int|
                            0 <= k < before.entries@.len() && (#[trigger] before.entries@[k]).0@
                                == n;
                        assert(self.entries@[k].0@ == n);
                        self.lemma_entry(k);
                    } else {
                        if self.entry(n) is Some {
                            let k = choose|k: int|
                                0 <= k < self.entries@.len() && (#[trigger] self.entries@[k]).0@
                                    == n;
                            assert(before.entries@[k].0@ == n);
                        }
                    }
                }
            }
        }
    }
}

/// Reads a layout file.
pub fn parse_layout(content: &str) -> (r: Layout)
    ensures
        r.wf(),
        forall|n: Seq<char>| #[trigger]
            r.entry(n) == layout_entry(ini_of(lines(content@)).sections, n),
{
    let ini: Ini = read_ini(content);
    let ghost all = ini.view().sections;
    let mut layout: Layout = Layout { entries: Vec::new() };
    for i in 0..ini.sections.len()
        invariant
            all == section_views(ini.sections@),
            layout.wf(),
            forall|n: Seq<char>| #[trigger]
                layout.entry(n) == layout_entry(all.take(i as int), n),
    {
        proof {
            assert(all.take(i + 1).drop_last() =~= all.take(i as int));
            assert(all.take(i + 1).last() == ini.sections@[i as int].view());
        }
        layout.absorb(&ini.sections[i]);
    }
    assert(all.take(all.len() as int) =~= all);
    layout
}

} // verus!
