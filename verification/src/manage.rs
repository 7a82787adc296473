//! Panes that come and go while the daemon runs, and what is written of them.
use crate::config::{config_of, pane_of, pane_views, ConfigV, Layout, Pane, PaneV};
use crate::daemon::{launch_step, launch_for, pane_index, Node, NodeV, Step, StepV};
use crate::ini::{ini_of, last_value, IniV, SectionV};
use crate::ini_laws::{
    ini_then, is_value, lemma_header_read, lemma_ini_of_then, lemma_pair_read, lemma_text_added,
    no_ini, pair_text,
};
use crate::json::{at, jsons, Json, JsonV};
use crate::m3u::{answered_sources, live_sources, m3u_text, write_m3u};
use crate::protocol::{offline_event, offline_message};
use crate::text::{cat3, lines, same};
use vstd::prelude::*;

verus! {

// ---------------------------------------------------------------------------
// The panes file
// ---------------------------------------------------------------------------

/// What the panes file says of a pane: the name it is shown under, its type unless
/// that is the usual one, and its playlist where it has one of its own.
pub open spec fn pane_text_of(p: PaneV) -> Seq<char> {
    "\n["@ + p.mpv_name + "]\npane_name = "@ + p.pane_name + "\n"@ + (if p.pane_type == "video"@ {
        Seq::empty()
    } else {
        "type = "@ + p.pane_type + "\n"@
    }) + (match p.playlist {
        Some(l) => "playlist = "@ + l + "\n"@,
        None => Seq::empty(),
    })
}

/// The panes file for these panes in this layout.
pub open spec fn panes_text_of(layout: Seq<char>, panes: Seq<PaneV>) -> Seq<char>
    decreases panes.len(),
{
    if panes.len() == 0 {
        "layout = "@ + layout + "\n"@
    } else {
        panes_text_of(layout, panes.drop_last()) + pane_text_of(panes.last())
    }
}

fn append_pane(s: &mut String, p: &Pane)
    ensures
        final(s)@ == old(s)@ + pane_text_of(p.view()),
{
    let ghost start = s@;
    s.append("\n[");
    s.append(p.mpv_name.as_str());
    s.append("]\npane_name = ");
    s.append(p.pane_name.as_str());
    s.append("\n");
    let ghost head = s@;
    if !same(p.pane_type.as_str(), "video") {
        s.append("type = ");
        s.append(p.pane_type.as_str());
        s.append("\n");
    }
    let ghost typed = s@;
    if let Some(l) = &p.playlist {
        s.append("playlist = ");
        s.append(l.as_str());
        s.append("\n");
    }
    proof {
        let q = p.view();
        let a = "\n["@ + q.mpv_name + "]\npane_name = "@ + q.pane_name + "\n"@;
        let b = if q.pane_type == "video"@ {
            Seq::empty()
        } else {
            "type = "@ + q.pane_type + "\n"@
        };
        let c = match q.playlist {
            Some(l) => "playlist = "@ + l + "\n"@,
            None => Seq::empty(),
        };
        assert(head =~= start + a);
        assert(typed =~= start + a + b);
        assert(s@ =~= start + a + b + c);
        assert(start + a + b + c =~= start + (a + b + c));
    }
}

/// The panes file for these panes in this layout.
pub fn write_panes_conf(layout: &str, panes: &Vec<Pane>) -> (r: String)
    ensures
        r@ == panes_text_of(layout@, pane_views(panes@)),
{
    let ghost all = pane_views(panes@);
    let mut s: String = cat3("layout = ", layout, "\n");
    assert(all.take(0) =~= Seq::empty());
    for i in 0..panes.len()
        invariant
            all == pane_views(panes@),
            s@ == panes_text_of(layout@, all.take(i as int)),
    {
        proof {
            assert(all.take(i + 1).drop_last() =~= all.take(i as int));
            assert(all.take(i + 1).last() == panes@[i as int].view());
        }
        append_pane(&mut s, &panes[i]);
    }
    assert(all.take(all.len() as int) =~= all);
    s
}

// ---------------------------------------------------------------------------
// Cloning and removing
// ---------------------------------------------------------------------------

/// A pane like another, under names of its own.
pub open spec fn cloned(source: PaneV, new_name: Seq<char>, shown: Seq<char>) -> PaneV {
    PaneV { mpv_name: new_name, pane_name: shown, ..source }
}

/// A pane is cloned: the new one joins the others, the panes file is written anew, its
/// player is started, and every client is told how the node stands. The source must be
/// there, and the new name must be one and must not be taken.
pub open spec fn clone_steps(
    n: NodeV,
    source: Seq<char>,
    new_name: Seq<char>,
    shown: Seq<char>,
    layout: Option<Layout>,
) -> Seq<StepV> {
    let i = pane_index(n.panes, source);
    if 0 <= i < n.panes.len() && new_name.len() > 0 && pane_index(n.panes, new_name)
        == n.panes.len() {
        let p = cloned(n.panes[i], new_name, shown);
        seq![
            StepV::AddPane { pane: p, from: source },
            StepV::WritePanes { text: panes_text_of(n.layout, n.panes.push(p)) },
            launch_step(n, p, layout),
            StepV::Snapshot,
        ]
    } else {
        Seq::empty()
    }
}

/// A pane is removed: its player is stopped, it leaves the others, the panes file is
/// written anew, and every client is told how the node stands.
pub open spec fn remove_steps(n: NodeV, name: Seq<char>) -> Seq<StepV> {
    let i = pane_index(n.panes, name);
    if 0 <= i < n.panes.len() {
        seq![
            StepV::Kill { pane: name },
            StepV::RemovePane { pane: name },
            StepV::WritePanes { text: panes_text_of(n.layout, n.panes.remove(i)) },
            StepV::Snapshot,
        ]
    } else {
        Seq::empty()
    }
}

fn copies(panes: &Vec<Pane>) -> (r: Vec<Pane>)
    ensures
        pane_views(r@) == pane_views(panes@),
{
    let mut out: Vec<Pane> = Vec::new();
    for i in 0..panes.len()
        invariant
            out.len() == i,
            forall|k: int| 0 <= k < i ==> (#[trigger] out@[k]).view() == panes@[k].view(),
    {
        out.push(panes[i].copy());
    }
    assert(pane_views(out@) =~= pane_views(panes@));
    out
}

/// The steps that clone a pane.
pub fn clone_pane(node: &Node, source: &str, new_name: &str, shown: &str, layout: &Option<Layout>) -> (r:
    Vec<Step>)
    requires
        layout matches Some(l) ==> l.wf(),
    ensures
        crate::daemon::step_views(r@) == clone_steps(
            node.view(),
            source@,
            new_name@,
            shown@,
            *layout,
        ),
{
    let i: usize = crate::daemon::find_pane(node, source);
    let j: usize = crate::daemon::find_pane(node, new_name);
    let mut out: Vec<Step> = Vec::new();
    if i < node.panes.len() && new_name.unicode_len() > 0 && j == node.panes.len() {
        let playlist: Option<String> = match &node.panes[i].playlist {
            Some(l) => Some(l.clone()),
            None => None,
        };
        let p: Pane = Pane {
            mpv_name: new_name.to_owned(),
            pane_name: shown.to_owned(),
            pane_type: node.panes[i].pane_type.clone(),
            playlist,
        };
        let ghost v = p.view();
        assert(v == cloned(node.view().panes[i as int], new_name@, shown@));
        let launch: Step = launch_for(node, &p, layout);
        let mut panes: Vec<Pane> = copies(&node.panes);
        let copy: Pane = p.copy();
        assert(pane_views(panes@.push(copy)) =~= pane_views(panes@).push(copy.view()));
        panes.push(copy);
        let text: String = write_panes_conf(node.layout.as_str(), &panes);
        out.push(Step::AddPane { pane: p, from: source.to_owned() });
        out.push(Step::WritePanes { text });
        out.push(launch);
        out.push(Step::Snapshot);
    }
    assert(crate::daemon::step_views(out@) =~= clone_steps(
        node.view(),
        source@,
        new_name@,
        shown@,
        *layout,
    ));
    out
}

/// The steps that remove a pane.
pub fn remove_pane(node: &Node, name: &str) -> (r: Vec<Step>)
    ensures
        crate::daemon::step_views(r@) == remove_steps(node.view(), name@),
{
    let i: usize = crate::daemon::find_pane(node, name);
    let mut out: Vec<Step> = Vec::new();
    if i < node.panes.len() {
        let mut panes: Vec<Pane> = copies(&node.panes);
        let ghost before = panes@;
        panes.remove(i);
        assert(pane_views(panes@) =~= pane_views(before).remove(i as int));
        let text: String = write_panes_conf(node.layout.as_str(), &panes);
        out.push(Step::Kill { pane: name.to_owned() });
        out.push(Step::RemovePane { pane: name.to_owned() });
        out.push(Step::WritePanes { text });
        out.push(Step::Snapshot);
    }
    assert(crate::daemon::step_views(out@) =~= remove_steps(node.view(), name@));
    out
}

// ---------------------------------------------------------------------------
// Players that went away
// ---------------------------------------------------------------------------

/// A message that ends the player it goes to.
pub open spec fn is_quit(m: JsonV) -> bool {
    at(m, "command"@) matches JsonV::Arr(args) && args.len() > 0 && args[0] == JsonV::Str("quit"@)
}

/// Whether a message ends the player it goes to.
pub fn ends_player(m: &Json) -> (r: bool)
    ensures
        r == is_quit(m.view()),
{
    match m.get("command") {
        Some(c) => match c.as_array() {
            Some(args) => if args.len() > 0 {
                assert(jsons(args@)[0] == args@[0].view());
                match args[0].as_str() {
                    Some(a) => same(a.as_str(), "quit"),
                    None => false,
                }
            } else {
                false
            },
            None => false,
        },
        None => false,
    }
}

/// The connection to a player ended: the clients are told, and a player that was not
/// meant to end is started again.
pub open spec fn lost_steps(n: NodeV, name: Seq<char>, meant: bool, layout: Option<Layout>) -> Seq<
    StepV,
> {
    let told = seq![StepV::Broadcast { message: offline_event(name) }];
    let i = pane_index(n.panes, name);
    if !meant && 0 <= i < n.panes.len() {
        told.push(launch_step(n, n.panes[i], layout))
    } else {
        told
    }
}

/// The steps after the connection to a player ended.
pub fn pane_lost(node: &Node, name: &str, meant: bool, layout: &Option<Layout>) -> (r: Vec<Step>)
    requires
        layout matches Some(l) ==> l.wf(),
    ensures
        crate::daemon::step_views(r@) == lost_steps(node.view(), name@, meant, *layout),
{
    let mut out: Vec<Step> = vec![Step::Broadcast { message: offline_message(name) }];
    let i: usize = crate::daemon::find_pane(node, name);
    if !meant && i < node.panes.len() {
        let s: Step = launch_for(node, &node.panes[i], layout);
        out.push(s);
    }
    assert(crate::daemon::step_views(out@) =~= lost_steps(node.view(), name@, meant, *layout));
    out
}

// ---------------------------------------------------------------------------
// Saved playlists
// ---------------------------------------------------------------------------

/// The playlist file for a player's answer; nothing where that is no playlist.
pub open spec fn saved_text(m: JsonV) -> Option<Seq<char>> {
    match answered_sources(m) {
        Some(v) => Some(m3u_text(v)),
        None => None,
    }
}

/// The playlist file for a player's answer.
pub fn saved_playlist(m: &Json) -> (r: Option<String>)
    ensures
        crate::text::opt(r) == saved_text(m.view()),
{
    match live_sources(m) {
        Some(v) => Some(write_m3u(&v)),
        None => None,
    }
}

// ---------------------------------------------------------------------------
// Laws
// ---------------------------------------------------------------------------

/// A pane that the panes file can hold: its fields are single lines without white
/// space at their ends, and its playlist does not start at the home directory's sign.
pub open spec fn can_be_kept(p: PaneV) -> bool {
    &&& !p.mpv_name.contains('\n')
    &&& is_value(p.pane_name)
    &&& is_value(p.pane_type)
    &&& p.playlist matches Some(l) ==> is_value(l) && (l.len() == 0 || l[0] != '~')
}

/// The section that is written for a pane.
pub open spec fn section_for(p: PaneV) -> SectionV {
    let named = seq![("pane_name"@, p.pane_name)];
    let typed = if p.pane_type == "video"@ {
        named
    } else {
        named.push(("type"@, p.pane_type))
    };
    SectionV {
        name: p.mpv_name,
        pairs: match p.playlist {
            Some(l) => typed.push(("playlist"@, l)),
            None => typed,
        },
    }
}

proof fn lemma_section_for(p: PaneV, home: Seq<char>)
    requires
        can_be_kept(p),
    ensures
        pane_of(section_for(p), home) == p,
        forall|k: int|
            0 <= k < section_for(p).pairs.len() ==> (#[trigger] section_for(p).pairs[k]).0
                != "layout"@,
{
    reveal_strlit("pane_name");
    reveal_strlit("type");
    reveal_strlit("playlist");
    reveal_strlit("layout");
    assert("pane_name"@.len() == 9 && "type"@.len() == 4 && "playlist"@.len() == 8 && "layout"@.len()
        == 6);
    reveal_with_fuel(last_value, 4);
    let named = seq![("pane_name"@, p.pane_name)];
    let typed = if p.pane_type == "video"@ {
        named
    } else {
        named.push(("type"@, p.pane_type))
    };
    let q = section_for(p).pairs;
    assert(named.drop_last() =~= Seq::empty());
    if p.pane_type != "video"@ {
        assert(typed.drop_last() =~= named);
    }
    if p.playlist is Some {
        assert(q.drop_last() =~= typed);
    }
    assert(last_value(named, "pane_name"@) == Some(p.pane_name));
    assert(last_value(named, "type"@) is None);
    assert(last_value(named, "playlist"@) is None);
    assert(last_value(typed, "pane_name"@) == Some(p.pane_name));
    assert(last_value(typed, "playlist"@) is None);
    assert(last_value(q, "pane_name"@) == Some(p.pane_name));
}

/// The pairs of a pane, behind its header.
pub open spec fn pairs_for(p: PaneV) -> Seq<char> {
    let one = seq![' '];
    let listed = match p.playlist {
        Some(l) => pair_text("playlist"@, one, l, Seq::empty()),
        None => Seq::empty(),
    };
    let typed = if p.pane_type == "video"@ {
        listed
    } else {
        pair_text("type"@, one, p.pane_type, listed)
    };
    pair_text("pane_name"@, one, p.pane_name, typed)
}

proof fn lemma_pane_text(p: PaneV)
    ensures
        pane_text_of(p) == "\n"@ + ((seq!['['] + p.mpv_name + seq![']']) + "\n"@ + pairs_for(p)),
{
    reveal_strlit("\n[");
    reveal_strlit("]\npane_name = ");
    reveal_strlit("type = ");
    reveal_strlit("playlist = ");
    reveal_strlit("\n");
    reveal_strlit("= ");
    reveal_strlit("pane_name");
    reveal_strlit("type");
    reveal_strlit("playlist");
    let one = seq![' '];
    assert("\n["@ =~= "\n"@ + seq!['[']);
    assert("]\npane_name = "@ =~= seq![']'] + "\n"@ + "pane_name"@ + one + "= "@);
    assert("type = "@ =~= "type"@ + one + "= "@);
    assert("playlist = "@ =~= "playlist"@ + one + "= "@);
    let listed = match p.playlist {
        Some(l) => "playlist = "@ + l + "\n"@,
        None => Seq::empty(),
    };
    let listed2 = match p.playlist {
        Some(l) => pair_text("playlist"@, one, l, Seq::empty()),
        None => Seq::empty(),
    };
    assert(listed =~= listed2);
    let typed = if p.pane_type == "video"@ {
        Seq::empty()
    } else {
        "type = "@ + p.pane_type + "\n"@
    };
    let typed2 = if p.pane_type == "video"@ {
        listed
    } else {
        pair_text("type"@, one, p.pane_type, listed)
    };
    assert(typed + listed =~= typed2);
    let feed = "\n"@;
    let key = "pane_name"@;
    let eq = "= "@;
    let open = seq!['['];
    let close = seq![']'];
    assert((feed + open) + p.mpv_name + (close + feed + key + one + eq) + p.pane_name + feed + typed
        + listed =~= feed + ((open + p.mpv_name + close) + feed + (key + one + eq + p.pane_name + feed
        + (typed + listed))));
}

/// What is written for a pane, read after the lines that were there.
proof fn lemma_pane_read(base: IniV, p: PaneV)
    requires
        can_be_kept(p),
    ensures
        ini_then(base, lines((seq!['['] + p.mpv_name + seq![']']) + "\n"@ + pairs_for(p))) == (IniV {
            all: base.all + section_for(p).pairs,
            sections: base.sections.push(section_for(p)),
        }),
{
    reveal_strlit("pane_name");
    reveal_strlit("type");
    reveal_strlit("playlist");
    let one = seq![' '];
    let none = Seq::<char>::empty();
    let listed = match p.playlist {
        Some(l) => pair_text("playlist"@, one, l, none),
        None => none,
    };
    let typed = if p.pane_type == "video"@ {
        listed
    } else {
        pair_text("type"@, one, p.pane_type, listed)
    };
    lemma_header_read(base, p.mpv_name, pairs_for(p));
    let before = base.sections;
    let s0 = SectionV { name: p.mpv_name, pairs: Seq::empty() };
    lemma_pair_read(before, s0, base.all, "pane_name"@, one, p.pane_name, typed);
    let s1 = SectionV { name: p.mpv_name, pairs: s0.pairs.push(("pane_name"@, p.pane_name)) };
    let a1 = base.all.push(("pane_name"@, p.pane_name));
    assert(s1.pairs =~= seq![("pane_name"@, p.pane_name)]);
    let (s2, a2) = if p.pane_type == "video"@ {
        (s1, a1)
    } else {
        (
            SectionV { name: p.mpv_name, pairs: s1.pairs.push(("type"@, p.pane_type)) },
            a1.push(("type"@, p.pane_type)),
        )
    };
    if p.pane_type != "video"@ {
        lemma_pair_read(before, s1, a1, "type"@, one, p.pane_type, listed);
    }
    let (s3, a3) = match p.playlist {
        Some(l) => (
            SectionV { name: p.mpv_name, pairs: s2.pairs.push(("playlist"@, l)) },
            a2.push(("playlist"@, l)),
        ),
        None => (s2, a2),
    };
    if let Some(l) = p.playlist {
        lemma_pair_read(before, s2, a2, "playlist"@, one, l, none);
    }
    assert(lines(none) =~= Seq::empty());
    assert(s3 == section_for(p));
    assert(a3 =~= base.all + s3.pairs);
}

proof fn lemma_last_value_kept(a: Seq<(Seq<char>, Seq<char>)>, b: Seq<(Seq<char>, Seq<char>)>, key: Seq<
    char,
>)
    requires
        forall|k: int| 0 <= k < b.len() ==> (#[trigger] b[k]).0 != key,
    ensures
        last_value(a + b, key) == last_value(a, key),
    decreases b.len(),
{
    if b.len() == 0 {
        assert(a + b =~= a);
    } else {
        assert((a + b).drop_last() =~= a + b.drop_last());
        assert((a + b).last() == b.last());
        assert(b[b.len() - 1].0 != key);
        lemma_last_value_kept(a, b.drop_last(), key);
    }
}

/// The panes file gives back the layout and the panes it was written for.
pub proof fn kept_panes_are_read_back(layout: Seq<char>, panes: Seq<PaneV>, home: Seq<char>)
    requires
        is_value(layout),
        forall|i: int| 0 <= i < panes.len() ==> can_be_kept(#[trigger] panes[i]),
    ensures
        config_of(Some(panes_text_of(layout, panes)), home) == (ConfigV { layout, panes, home }),
    decreases panes.len(),
{
    let text = panes_text_of(layout, panes);
    let ini = ini_of(lines(text));
    lemma_panes_read(layout, panes);
    let got = config_of(Some(text), home);
    assert forall|i: int| 0 <= i < panes.len() implies got.panes[i] == panes[i] by {
        assert(can_be_kept(panes[i]));
        lemma_section_for(panes[i], home);
    }
    assert(got.panes =~= panes);
}

proof fn lemma_panes_read(layout: Seq<char>, panes: Seq<PaneV>)
    requires
        is_value(layout),
        forall|i: int| 0 <= i < panes.len() ==> can_be_kept(#[trigger] panes[i]),
    ensures
        ({
            let ini = ini_of(lines(panes_text_of(layout, panes)));
            &&& last_value(ini.all, "layout"@) == Some(layout)
            &&& ini.sections == Seq::new(panes.len(), |i: int| section_for(panes[i]))
        }),
    decreases panes.len(),
{
    let text = panes_text_of(layout, panes);
    lemma_ini_of_then(lines(text));
    if panes.len() == 0 {
        reveal_strlit("layout = ");
        reveal_strlit("layout");
        reveal_strlit("= ");
        reveal_strlit("\n");
        let one = seq![' '];
        let none = Seq::<char>::empty();
        assert("layout = "@ =~= "layout"@ + one + "= "@);
        assert(text =~= pair_text("layout"@, one, layout, none));
        lemma_first_pair("layout"@, one, layout);
        assert(ini_of(lines(text)).sections =~= Seq::new(0, |i: int| section_for(panes[i])));
    } else {
        let front = panes.drop_last();
        let p = panes.last();
        assert forall|i: int| 0 <= i < front.len() implies can_be_kept(#[trigger] front[i]) by {
            assert(front[i] == panes[i]);
        }
        assert(can_be_kept(panes[panes.len() - 1]));
        lemma_panes_read(layout, front);
        let before = panes_text_of(layout, front);
        let base = ini_of(lines(before));
        lemma_ini_of_then(lines(before));
        lemma_pane_text(p);
        let rest = (seq!['['] + p.mpv_name + seq![']']) + "\n"@ + pairs_for(p);
        assert(text =~= before + "\n"@ + rest);
        lemma_text_added(no_ini(), before, rest);
        lemma_pane_read(base, p);
        lemma_section_for(p, Seq::empty());
        lemma_last_value_kept(base.all, section_for(p).pairs, "layout"@);
        assert(ini_of(lines(text)).sections =~= Seq::new(
            panes.len(),
            |i: int| section_for(panes[i]),
        ));
    }
}

/// The pair that a file begins with, before any section.
proof fn lemma_first_pair(key: Seq<char>, gap: Seq<char>, v: Seq<char>)
    requires
        key == "layout"@,
        gap == seq![' '],
        is_value(v),
    ensures
        ini_of(lines(pair_text(key, gap, v, Seq::empty()))) == (IniV {
            all: seq![(key, v)],
            sections: Seq::empty(),
        }),
{
    reveal_strlit("layout");
    reveal_strlit("= ");
    let line = key + gap + "= "@ + v;
    let none = Seq::<char>::empty();
    assert forall|j: int| 0 <= j < line.len() implies line[j] != '\n' by {
        if j >= 9 {
            assert(line[j] == v[j - 9]);
        }
    }
    crate::m3u::lemma_lines_first(line, none);
    assert(lines(none) =~= Seq::empty());
    let ls = lines(line + "\n"@ + none);
    assert(ls =~= seq![crate::text::without_cr(line)]);
    crate::ini_laws::lemma_line_without_cr(line);
    crate::ini_laws::lemma_pair_line(key, gap, v);
    assert(ls.drop_last() =~= Seq::empty());
    assert(ini_of(ls.drop_last()) == no_ini());
    assert(no_ini().all.push((key, v)) =~= seq![(key, v)]);
}

/// Removing a pane that was cloned leaves the panes as they were.
pub proof fn removal_undoes_cloning(panes: Seq<PaneV>, p: PaneV)
    requires
        pane_index(panes, p.mpv_name) == panes.len(),
    ensures
        pane_index(panes.push(p), p.mpv_name) == panes.len(),
        panes.push(p).remove(panes.len() as int) == panes,
    decreases panes.len(),
{
    let all = panes.push(p);
    assert(all.remove(panes.len() as int) =~= panes);
    if panes.len() == 0 {
        assert(all[0] == p);
    } else {
        assert(all[0] == panes[0]);
        assert(panes[0].mpv_name != p.mpv_name);
        assert(all.skip(1) =~= panes.skip(1).push(p));
        removal_undoes_cloning(panes.skip(1), p);
    }
}

/// A player that crashed is started again after the clients were told, and nothing is
/// done to any other pane.
pub proof fn crashed_players_come_back(n: NodeV, name: Seq<char>, layout: Option<Layout>)
    requires
        pane_index(n.panes, name) < n.panes.len(),
    ensures
        lost_steps(n, name, false, layout).len() == 2,
        lost_steps(n, name, false, layout)[0] == (StepV::Broadcast { message: offline_event(name) }),
        lost_steps(n, name, false, layout)[1] matches StepV::Launch { pane, args } && pane == name,
        lost_steps(n, name, true, layout).len() == 1,
{
    lemma_pane_index(n.panes, name);
}

proof fn lemma_pane_index(panes: Seq<PaneV>, name: Seq<char>)
    ensures
        0 <= pane_index(panes, name) <= panes.len(),
        pane_index(panes, name) < panes.len() ==> panes[pane_index(panes, name)].mpv_name == name,
    decreases panes.len(),
{
    if panes.len() > 0 && panes[0].mpv_name != name {
        lemma_pane_index(panes.skip(1), name);
    }
}

} // verus!
