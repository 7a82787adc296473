//! Panes with types: their player configurations, how they are started, and layouts
//! that keep what was set on the players.
use crate::config::{find_type, pane_views, type_named, type_views, Layout, Pane, PaneType, PaneTypeV, PaneV};
use crate::daemon::{set_property, Node, NodeV};
use crate::json::{
    arr3, at, entries, jsons, nearest_double, obj, obj1, obj2, obj3, str_of, Double, Json, JsonV, NumV,
};
use crate::node::{file_views, FileText, FileTextV, LAYOUT_LEFT_STACK, LAYOUT_RIGHT_STACK};
use crate::paths::{
    join, joined, layouts_dir, pane_dir_of, pane_file_of, pane_mpv_conf, pane_playlist, pane_scripts,
    pane_socket, panes_conf, types_conf,
};
use crate::protocol::PaneStateV;
use crate::text::{cat, cat3, copy_strs, lemma_strs_push, opt, same, strs, upper, uppercase};
use vstd::prelude::*;

verus! {

/// The panes file of a new node with typed panes.
pub const TYPED_PANES_CONF: &'static str = "# pb.panes.conf
# [panename]
# type     = video | audio | ytube | rtsp | http
# playlist = /path/to/playlist.m3u

layout = pb.left.stack

[music]
type     = video
playlist = ~/.config/panebot/music/music.m3u

[wide-top]
type     = video
playlist = ~/.config/panebot/wide-top/wide-top.m3u

[wide-bottom]
type     = video
playlist = ~/.config/panebot/wide-bottom/wide-bottom.m3u

[standard]
type     = video
playlist = ~/.config/panebot/standard/standard.m3u
";

/// The pane types of a new node.
pub const DEFAULT_TYPES_CONF: &'static str = "# pb.types.conf
# Define pane types and their default mpv options.
# Stamped into pane mpv.conf on first creation only.

[video]
really-quiet=yes
pause=yes
force-window=yes

[audio]
really-quiet=yes
pause=yes
force-window=yes
vid=no

[ytube]
really-quiet=yes
pause=yes
force-window=yes
ytdl-format=bestvideo+bestaudio

[rtsp]
really-quiet=yes
pause=yes
force-window=yes
rtsp-transport=tcp

[http]
really-quiet=yes
pause=yes
force-window=yes
";

/// The layout that has the window manager stack the panes on the left.
pub const LAYOUT_SWAY_LEFT_STACK: &'static str = "# panebot layout — pb.sway.left.stack
# Sway floating layout, left stack.
# Windows matched by mpv --title=PANENAME (uppercase).

[music]
swaymsg = [title=\"MUSIC\"] floating enable, resize set 366 366, move position 0 0

[wide-top]
swaymsg = [title=\"WIDE-TOP\"] floating enable, resize set 650 366, move position 0 374

[wide-bottom]
swaymsg = [title=\"WIDE-BOTTOM\"] floating enable, resize set 650 366, move position 0 748

[standard]
swaymsg = [title=\"STANDARD\"] floating enable, resize set 650 488, move position 0 1122
";

/// The layout that has the window manager stack the panes on the right.
pub const LAYOUT_SWAY_RIGHT_STACK: &'static str = "# panebot layout — pb.sway.right.stack
# Sway floating layout, right stack.
# Windows matched by mpv --title=PANENAME (uppercase).

[music]
swaymsg = [title=\"MUSIC\"] floating enable, resize set 366 366, move position 2574 64

[wide-top]
swaymsg = [title=\"WIDE-TOP\"] floating enable, resize set 650 366, move position 2290 432

[wide-bottom]
swaymsg = [title=\"WIDE-BOTTOM\"] floating enable, resize set 650 366, move position 2290 804

[standard]
swaymsg = [title=\"STANDARD\"] floating enable, resize set 650 488, move position 2290 1180
";

/// The files of a new node with typed panes: the panes, their types, and four layouts.
pub open spec fn typed_skeleton_of(config: Seq<char>) -> Seq<FileTextV> {
    let layouts = joined(config, "layouts"@);
    seq![
        FileTextV { path: joined(config, "pb.panes.conf"@), text: TYPED_PANES_CONF@ },
        FileTextV { path: joined(config, "pb.types.conf"@), text: DEFAULT_TYPES_CONF@ },
        FileTextV { path: joined(layouts, "pb.left.stack.layout"@), text: LAYOUT_LEFT_STACK@ },
        FileTextV { path: joined(layouts, "pb.right.stack.layout"@), text: LAYOUT_RIGHT_STACK@ },
        FileTextV {
            path: joined(layouts, "pb.sway.left.stack.layout"@),
            text: LAYOUT_SWAY_LEFT_STACK@,
        },
        FileTextV {
            path: joined(layouts, "pb.sway.right.stack.layout"@),
            text: LAYOUT_SWAY_RIGHT_STACK@,
        },
    ]
}

/// The files that a node with typed panes is given where they are missing.
pub fn typed_bootstrap(config: &str) -> (r: Vec<FileText>)
    ensures
        file_views(r@) == typed_skeleton_of(config@),
{
    let layouts: String = layouts_dir(config);
    let v: Vec<FileText> = vec![
        FileText { path: panes_conf(config), text: TYPED_PANES_CONF.to_owned() },
        FileText { path: types_conf(config), text: DEFAULT_TYPES_CONF.to_owned() },
        FileText {
            path: join(layouts.as_str(), "pb.left.stack.layout"),
            text: LAYOUT_LEFT_STACK.to_owned(),
        },
        FileText {
            path: join(layouts.as_str(), "pb.right.stack.layout"),
            text: LAYOUT_RIGHT_STACK.to_owned(),
        },
        FileText {
            path: join(layouts.as_str(), "pb.sway.left.stack.layout"),
            text: LAYOUT_SWAY_LEFT_STACK.to_owned(),
        },
        FileText {
            path: join(layouts.as_str(), "pb.sway.right.stack.layout"),
            text: LAYOUT_SWAY_RIGHT_STACK.to_owned(),
        },
    ];
    assert(file_views(v@) =~= typed_skeleton_of(config@));
    v
}

/// Each text on a line of its own.
pub open spec fn each_line(v: Seq<Seq<char>>) -> Seq<char> {
    crate::m3u::item_lines(v)
}

/// The player configuration that a pane of a type starts with: the options of the
/// type, and where its scripts are where it has any.
pub open spec fn typed_conf_of(config: Seq<char>, p: PaneV, t: Option<PaneTypeV>) -> Seq<char> {
    let head = "# panebot mpv config — "@ + p.mpv_name + " ["@ + p.pane_type
        + "]\n# Edit this file to tune mpv for this pane.\n\n"@;
    match t {
        Some(x) => {
            let with_options = head + each_line(x.options);
            if x.scripts.len() > 0 {
                with_options + "\nscripts-dir="@ + joined(
                    pane_dir_of(config, p.mpv_name),
                    "scripts"@,
                ) + "\n"@
            } else {
                with_options
            }
        },
        None => head,
    }
}

/// The player configuration that a pane starts with, and the scripts that go with it.
pub fn ensure_pane_files(config: &str, pane: &Pane, types: &Vec<(String, PaneType)>) -> (r: (
    String,
    Vec<String>,
))
    ensures
        ({
            let t = type_named(type_views(types@), pane.pane_type@);
            r.0@ == typed_conf_of(config@, pane.view(), t) && strs(r.1@) == (match t {
                Some(x) => x.scripts,
                None => Seq::empty(),
            })
        }),
{
    let mut s: String = cat3("# panebot mpv config — ", pane.mpv_name.as_str(), " [");
    s.append(pane.pane_type.as_str());
    s.append("]\n# Edit this file to tune mpv for this pane.\n\n");
    let ghost head = s@;
    match find_type(types, pane.pane_type.as_str()) {
        Some(t) => {
            let ghost all = strs(t.options@);
            assert(s@ =~= head + each_line(all.take(0)));
            for i in 0..t.options.len()
                invariant
                    all == strs(t.options@),
                    s@ == head + each_line(all.take(i as int)),
            {
                proof {
                    assert(all.take(i + 1).drop_last() =~= all.take(i as int));
                    assert(all.take(i + 1).last() == t.options@[i as int]@);
                }
                s.append(t.options[i].as_str());
                s.append("\n");
                assert(s@ =~= head + each_line(all.take(i + 1)));
            }
            assert(all.take(all.len() as int) =~= all);
            if t.scripts.len() > 0 {
                s.append("\nscripts-dir=");
                s.append(pane_scripts(config, pane.mpv_name.as_str()).as_str());
                s.append("\n");
            }
            (s, copy_strs(&t.scripts))
        },
        None => {
            let none: Vec<String> = Vec::new();
            assert(strs(none@) =~= Seq::empty());
            (s, none)
        },
    }
}

/// The arguments that the player of a typed pane is started with; one without a
/// playlist waits.
pub open spec fn typed_args_of(
    config: Seq<char>,
    p: PaneV,
    geometry: Option<Seq<char>>,
    macos: bool,
    has_playlist: bool,
) -> Seq<Seq<char>> {
    let base = seq![
        "--input-ipc-server="@ + pane_file_of(config, p.mpv_name, ".sock"@),
        "--title="@ + uppercase(p.mpv_name),
        "--include="@ + pane_file_of(config, p.mpv_name, ".mpv.conf"@),
        "--volume=100"@,
        "--mute=yes"@,
        "--pause=yes"@,
    ];
    let placed = match geometry {
        Some(g) if macos => base.push("--geometry="@ + g),
        _ => base,
    };
    placed.push(
        if has_playlist {
            pane_file_of(config, p.mpv_name, ".m3u"@)
        } else {
            "--idle=yes"@
        },
    )
}

/// The arguments that the player of a typed pane is started with.
pub fn launch_typed_pane(
    config: &str,
    pane: &Pane,
    geometry: Option<String>,
    macos: bool,
    has_playlist: bool,
) -> (r: Vec<String>)
    ensures
        strs(r@) == typed_args_of(config@, pane.view(), opt(geometry), macos, has_playlist),
{
    let n: &str = pane.mpv_name.as_str();
    let mut args: Vec<String> = vec![
        cat("--input-ipc-server=", pane_socket(config, n).as_str()),
        cat("--title=", upper(n).as_str()),
        cat("--include=", pane_mpv_conf(config, n).as_str()),
        "--volume=100".to_owned(),
        "--mute=yes".to_owned(),
        "--pause=yes".to_owned(),
    ];
    assert(strs(args@) =~= seq![
        "--input-ipc-server="@ + pane_file_of(config@, n@, ".sock"@),
        "--title="@ + uppercase(n@),
        "--include="@ + pane_file_of(config@, n@, ".mpv.conf"@),
        "--volume=100"@,
        "--mute=yes"@,
        "--pause=yes"@,
    ]);
    if macos {
        if let Some(g) = geometry {
            let a: String = cat("--geometry=", g.as_str());
            proof {
                lemma_strs_push(args@, a);
            }
            args.push(a);
        }
    }
    let last: String = if has_playlist {
        pane_playlist(config, n)
    } else {
        "--idle=yes".to_owned()
    };
    proof {
        lemma_strs_push(args@, last);
    }
    args.push(last);
    args
}

// ---------------------------------------------------------------------------
// Layouts that keep volume and mute
// ---------------------------------------------------------------------------

/// One thing to do when the layout is switched.
#[allow(inconsistent_fields)]
#[derive(Debug)]
pub enum LayoutStep {
    /// Ask the player of a pane to quit.
    Kill { pane: String },
    /// Start the player of a pane, at a geometry where one is given.
    Launch { pane: String, geometry: Option<String> },
    /// Wait.
    Sleep { ms: u64 },
    /// Hand a message to the window manager.
    Position { pane: String, message: String },
    /// Once the player answers, hand it these messages.
    Restore { pane: String, messages: Vec<Json> },
    /// Tell every client.
    Broadcast { message: Json },
}

#[allow(inconsistent_fields)]
pub enum LayoutStepV {
    Kill { pane: Seq<char> },
    Launch { pane: Seq<char>, geometry: Option<Seq<char>> },
    Sleep { ms: u64 },
    Position { pane: Seq<char>, message: Seq<char> },
    Restore { pane: Seq<char>, messages: Seq<JsonV> },
    Broadcast { message: JsonV },
}

impl LayoutStep {
    pub open spec fn view(&self) -> LayoutStepV {
        match self {
            LayoutStep::Kill { pane } => LayoutStepV::Kill { pane: pane@ },
            LayoutStep::Launch { pane, geometry } => LayoutStepV::Launch {
                pane: pane@,
                geometry: opt(*geometry),
            },
            LayoutStep::Sleep { ms } => LayoutStepV::Sleep { ms: *ms },
            LayoutStep::Position { pane, message } => LayoutStepV::Position {
                pane: pane@,
                message: message@,
            },
            LayoutStep::Restore { pane, messages } => LayoutStepV::Restore {
                pane: pane@,
                messages: jsons(messages@),
            },
            LayoutStep::Broadcast { message } => LayoutStepV::Broadcast { message: message.view() },
        }
    }
}

pub open spec fn layout_step_views(v: Seq<LayoutStep>) -> Seq<LayoutStepV> {
    Seq::new(v.len(), |i: int| v[i].view())
}

/// The state of a pane, where it is known.
pub open spec fn state_of(states: Seq<PaneStateV>, name: Seq<char>) -> Option<PaneStateV> {
    crate::board::board_get(states, name)
}

/// The volume and the mute that a pane has: full and heard where they are not known.
pub open spec fn levels_of(states: Seq<PaneStateV>, name: Seq<char>) -> (u64, bool) {
    match state_of(states, name) {
        Some(s) => (
            match s.volume {
                Some(v) => v,
                None => nearest_double(0),
            },
            s.muted == Some(true),
        ),
        None => (nearest_double(100), false),
    }
}

/// What a restarted player is told so that it is as loud as before, and paused.
pub open spec fn restore_messages(volume: u64, muted: bool) -> Seq<JsonV> {
    seq![
        set_property("volume"@, JsonV::Num(NumV::Float(volume))),
        set_property("mute"@, JsonV::Bool(muted)),
        set_property("pause"@, JsonV::Bool(true)),
    ]
}

pub open spec fn geometry_for(layout: Layout, name: Seq<char>) -> Option<Seq<char>> {
    match layout.entry(name) {
        Some(e) => e.geometry,
        None => None,
    }
}

/// The window-manager messages of a layout, for the panes that have one.
pub open spec fn positions(panes: Seq<PaneV>, layout: Layout) -> Seq<LayoutStepV>
    decreases panes.len(),
{
    if panes.len() == 0 {
        Seq::empty()
    } else {
        let before = positions(panes.drop_last(), layout);
        let name = panes.last().mpv_name;
        match layout.entry(name) {
            Some(e) => match e.swaymsg {
                Some(m) => before.push(LayoutStepV::Position { pane: name, message: m }),
                None => before,
            },
            None => before,
        }
    }
}

/// Every pane is stopped and started at its place; windows are placed where the
/// window manager does that; then every player is set as it was, and the clients are
/// told.
pub open spec fn layout_steps(n: NodeV, name: Seq<char>, layout: Layout, linux: bool) -> Seq<LayoutStepV> {
    let panes = n.panes;
    let placed = if linux {
        seq![LayoutStepV::Sleep { ms: 500 }] + positions(panes, layout)
    } else {
        Seq::empty()
    };
    Seq::new(panes.len(), |i: int| LayoutStepV::Kill { pane: panes[i].mpv_name }) + Seq::new(
        panes.len(),
        |i: int|
            LayoutStepV::Launch {
                pane: panes[i].mpv_name,
                geometry: geometry_for(layout, panes[i].mpv_name),
            },
    ) + placed + Seq::new(
        panes.len(),
        |i: int|
            {
                let l = levels_of(n.states, panes[i].mpv_name);
                LayoutStepV::Restore {
                    pane: panes[i].mpv_name,
                    messages: restore_messages(l.0, l.1),
                }
            },
    ) + seq![
        LayoutStepV::Broadcast {
            message: obj(
                seq![("event"@, JsonV::Str("node:layout"@)), ("layout"@, JsonV::Str(name))],
            ),
        },
    ]
}

proof fn lemma_push(v: Seq<LayoutStep>, s: LayoutStep)
    ensures
        layout_step_views(v.push(s)) == layout_step_views(v).push(s.view()),
{
    assert(layout_step_views(v.push(s)) =~= layout_step_views(v).push(s.view()));
}

fn restore_step(node: &Node, name: &str) -> (r: LayoutStep)
    ensures
        ({
            let l = levels_of(node.view().states, name@);
            r.view() == (LayoutStepV::Restore {
                pane: name@,
                messages: restore_messages(l.0, l.1),
            })
        }),
{
    let (volume, muted): (Double, bool) = match crate::board::get_state(&node.states, name) {
        Some(s) => (
            match &s.volume {
                Some(v) => v.copy(),
                None => Double::whole(0),
            },
            s.muted == Some(true),
        ),
        None => (Double::whole(100), false),
    };
    let messages: Vec<Json> = vec![
        obj1("command", arr3(Json::string("set_property"), Json::string("volume"), volume.to_json())),
        obj1("command", arr3(Json::string("set_property"), Json::string("mute"), Json::Bool(muted))),
        obj1("command", arr3(Json::string("set_property"), Json::string("pause"), Json::Bool(true))),
    ];
    assert(jsons(messages@) =~= restore_messages(volume.bits(), muted));
    LayoutStep::Restore { pane: name.to_owned(), messages }
}

fn push_positions(out: &mut Vec<LayoutStep>, list: &Vec<Pane>, layout: &Layout)
    requires
        layout.wf(),
    ensures
        layout_step_views(final(out)@) == layout_step_views(old(out)@) + positions(
            pane_views(list@),
            *layout,
        ),
{
    let ghost start = layout_step_views(out@);
    let ghost panes = pane_views(list@);
    assert(start + positions(panes.take(0), *layout) =~= start);
    for i in 0..list.len()
        invariant
            layout.wf(),
            panes == pane_views(list@),
            layout_step_views(out@) == start + positions(panes.take(i as int), *layout),
    {
        proof {
            assert(panes.take(i + 1).drop_last() =~= panes.take(i as int));
            assert(panes.take(i + 1).last() == list@[i as int].view());
        }
        let name: &str = list[i].mpv_name.as_str();
        if let Some(m) = layout.swaymsg_of(name) {
            let s: LayoutStep = LayoutStep::Position { pane: name.to_owned(), message: m };
            proof {
                lemma_push(out@, s);
                assert((start + positions(panes.take(i as int), *layout)).push(s.view()) =~= start
                    + positions(panes.take(i as int), *layout).push(s.view()));
            }
            out.push(s);
        }
    }
    assert(panes.take(panes.len() as int) =~= panes);
}

/// How often a player that was started is looked for before it is set as it was.
pub const RESTORE_LOOKS: u32 = 50;

/// How long is waited before each look, in milliseconds.
pub const RESTORE_WAIT_MS: u64 = 100;

/// The layout that a client's message asks to switch to.
pub open spec fn switch_of(v: JsonV) -> Option<Seq<char>> {
    if str_of(at(v, "command"@)) == Some("panebot:layout"@) {
        str_of(at(v, "layout_name"@))
    } else {
        None
    }
}

/// The layout that a client's message asks to switch to.
pub fn wanted_switch(v: &Json) -> (r: Option<String>)
    ensures
        opt(r) == switch_of(v.view()),
{
    match v.str_at("command") {
        Some(c) => if same(c.as_str(), "panebot:layout") {
            v.str_at("layout_name")
        } else {
            None
        },
        None => None,
    }
}

/// Switches the layout and keeps what was set on the players.
pub fn switch_layout(node: &Node, name: &str, layout: &Layout, linux: bool) -> (r: Vec<LayoutStep>)
    requires
        layout.wf(),
    ensures
        layout_step_views(r@) == layout_steps(node.view(), name@, *layout, linux),
{
    let ghost n = node.view();
    let ghost panes = n.panes;
    let ghost kills = Seq::new(
        panes.len(),
        |i: int| LayoutStepV::Kill { pane: panes[i].mpv_name },
    );
    let ghost launches = Seq::new(
        panes.len(),
        |i: int|
            LayoutStepV::Launch {
                pane: panes[i].mpv_name,
                geometry: geometry_for(*layout, panes[i].mpv_name),
            },
    );
    let ghost restores = Seq::new(
        panes.len(),
        |i: int|
            {
                let l = levels_of(n.states, panes[i].mpv_name);
                LayoutStepV::Restore {
                    pane: panes[i].mpv_name,
                    messages: restore_messages(l.0, l.1),
                }
            },
    );
    let mut out: Vec<LayoutStep> = Vec::new();
    assert(layout_step_views(out@) =~= kills.take(0));
    for i in 0..node.panes.len()
        invariant
            panes == pane_views(node.panes@),
            kills == Seq::new(panes.len(), |i: int| LayoutStepV::Kill { pane: panes[i].mpv_name }),
            layout_step_views(out@) == kills.take(i as int),
    {
        let s: LayoutStep = LayoutStep::Kill { pane: node.panes[i].mpv_name.clone() };
        proof {
            lemma_push(out@, s);
            assert(s.view() == kills[i as int]);
            assert(kills.take(i + 1) =~= kills.take(i as int).push(kills[i as int]));
        }
        out.push(s);
    }
    assert(layout_step_views(out@) =~= kills + launches.take(0));
    for i in 0..node.panes.len()
        invariant
            layout.wf(),
            panes == pane_views(node.panes@),
            launches == Seq::new(
                panes.len(),
                |i: int|
                    LayoutStepV::Launch {
                        pane: panes[i].mpv_name,
                        geometry: geometry_for(*layout, panes[i].mpv_name),
                    },
            ),
            layout_step_views(out@) == kills + launches.take(i as int),
    {
        let pane: &str = node.panes[i].mpv_name.as_str();
        let s: LayoutStep = LayoutStep::Launch {
            pane: pane.to_owned(),
            geometry: layout.geometry_of(pane),
        };
        proof {
            lemma_push(out@, s);
            assert(panes[i as int] == node.panes@[i as int].view());
            assert(s.view() == launches[i as int]);
            assert(kills + launches.take(i + 1) =~= (kills + launches.take(i as int)).push(
                launches[i as int],
            ));
        }
        out.push(s);
    }
    assert(launches.take(launches.len() as int) =~= launches);
    let ghost placed = if linux {
        seq![LayoutStepV::Sleep { ms: 500 }] + positions(panes, *layout)
    } else {
        Seq::empty()
    };
    if linux {
        let s: LayoutStep = LayoutStep::Sleep { ms: 500 };
        proof {
            lemma_push(out@, s);
        }
        out.push(s);
        push_positions(&mut out, &node.panes, layout);
        assert(layout_step_views(out@) =~= kills + launches + placed);
    } else {
        assert(kills + launches + placed =~= kills + launches);
    }
    let ghost middle = kills + launches + placed;
    assert(layout_step_views(out@) =~= middle + restores.take(0));
    for i in 0..node.panes.len()
        invariant
            n == node.view(),
            panes == pane_views(node.panes@),
            restores == Seq::new(
                panes.len(),
                |i: int|
                    {
                        let l = levels_of(n.states, panes[i].mpv_name);
                        LayoutStepV::Restore {
                            pane: panes[i].mpv_name,
                            messages: restore_messages(l.0, l.1),
                        }
                    },
            ),
            layout_step_views(out@) == middle + restores.take(i as int),
    {
        let s: LayoutStep = restore_step(node, node.panes[i].mpv_name.as_str());
        proof {
            lemma_push(out@, s);
            assert(panes[i as int] == node.panes@[i as int].view());
            assert(s.view() == restores[i as int]);
            assert(middle + restores.take(i + 1) =~= (middle + restores.take(i as int)).push(
                restores[i as int],
            ));
        }
        out.push(s);
    }
    assert(restores.take(restores.len() as int) =~= restores);
    let s: LayoutStep = LayoutStep::Broadcast {
        message: obj2("event", Json::string("node:layout"), "layout", Json::string(name)),
    };
    proof {
        lemma_push(out@, s);
        assert(layout_step_views(out@).push(s.view()) =~= layout_steps(n, name@, *layout, linux));
    }
    out.push(s);
    out
}

// ---------------------------------------------------------------------------
// Coming up
// ---------------------------------------------------------------------------

/// Where a pane is placed, by the layout where there is one.
pub open spec fn first_geometry(layout: Option<Layout>, name: Seq<char>) -> Option<Seq<char>> {
    match layout {
        Some(l) => geometry_for(l, name),
        None => None,
    }
}

/// The panes whose players do not run yet.
pub open spec fn resting(panes: Seq<PaneV>, alive: Seq<bool>) -> Seq<PaneV>
    decreases panes.len(),
{
    if panes.len() == 0 || alive.len() != panes.len() {
        Seq::empty()
    } else if alive.last() {
        resting(panes.drop_last(), alive.drop_last())
    } else {
        resting(panes.drop_last(), alive.drop_last()).push(panes.last())
    }
}

/// What is done when the daemon comes up: players that run are left alone, the others
/// are started at their places, and then the window manager is asked to place those
/// that were started.
pub open spec fn start_steps(
    panes: Seq<PaneV>,
    alive: Seq<bool>,
    layout: Option<Layout>,
    linux: bool,
) -> Seq<LayoutStepV> {
    let fresh = resting(panes, alive);
    let launches = Seq::new(
        fresh.len(),
        |i: int|
            LayoutStepV::Launch {
                pane: fresh[i].mpv_name,
                geometry: first_geometry(layout, fresh[i].mpv_name),
            },
    );
    match layout {
        Some(l) if linux && fresh.len() > 0 => launches + seq![LayoutStepV::Sleep { ms: 500 }]
            + positions(fresh, l),
        _ => launches,
    }
}

/// What is done when the daemon comes up.
pub fn start_panes(panes: &Vec<Pane>, alive: &Vec<bool>, layout: &Option<Layout>, linux: bool) -> (r:
    Vec<LayoutStep>)
    requires
        alive@.len() == panes@.len(),
        layout matches Some(l) ==> l.wf(),
    ensures
        layout_step_views(r@) == start_steps(pane_views(panes@), alive@, *layout, linux),
{
    let ghost all = pane_views(panes@);
    let ghost on = alive@;
    let ghost fresh = resting(all, on);
    let mut some: Vec<Pane> = Vec::new();
    assert(pane_views(some@) =~= resting(all.take(0), on.take(0)));
    for i in 0..panes.len()
        invariant
            alive@.len() == panes@.len(),
            all == pane_views(panes@),
            on == alive@,
            pane_views(some@) == resting(all.take(i as int), on.take(i as int)),
    {
        proof {
            assert(all.take(i + 1).drop_last() =~= all.take(i as int));
            assert(on.take(i + 1).drop_last() =~= on.take(i as int));
            assert(all.take(i + 1).last() == panes@[i as int].view());
        }
        if !alive[i] {
            let p: Pane = panes[i].copy();
            assert(pane_views(some@.push(p)) =~= pane_views(some@).push(p.view()));
            some.push(p);
        }
    }
    assert(all.take(all.len() as int) =~= all);
    assert(on.take(on.len() as int) =~= on);
    let ghost launches = Seq::new(
        fresh.len(),
        |i: int|
            LayoutStepV::Launch {
                pane: fresh[i].mpv_name,
                geometry: first_geometry(*layout, fresh[i].mpv_name),
            },
    );
    let mut out: Vec<LayoutStep> = Vec::new();
    assert(layout_step_views(out@) =~= launches.take(0));
    for i in 0..some.len()
        invariant
            layout matches Some(l) ==> l.wf(),
            fresh == pane_views(some@),
            launches == Seq::new(
                fresh.len(),
                |i: int|
                    LayoutStepV::Launch {
                        pane: fresh[i].mpv_name,
                        geometry: first_geometry(*layout, fresh[i].mpv_name),
                    },
            ),
            layout_step_views(out@) == launches.take(i as int),
    {
        let name: &str = some[i].mpv_name.as_str();
        let geometry: Option<String> = match layout {
            Some(l) => l.geometry_of(name),
            None => None,
        };
        let s: LayoutStep = LayoutStep::Launch { pane: name.to_owned(), geometry };
        proof {
            lemma_push(out@, s);
            assert(fresh[i as int] == some@[i as int].view());
            assert(s.view() == launches[i as int]);
            assert(launches.take(i + 1) =~= launches.take(i as int).push(launches[i as int]));
        }
        out.push(s);
    }
    assert(launches.take(launches.len() as int) =~= launches);
    if let Some(l) = layout {
        if linux && some.len() > 0 {
            let s: LayoutStep = LayoutStep::Sleep { ms: 500 };
            proof {
                lemma_push(out@, s);
                assert(launches.push(s.view()) =~= launches + seq![s.view()]);
            }
            out.push(s);
            push_positions(&mut out, &some, l);
        }
    }
    out
}

/// One pane in what a client is told first.
pub open spec fn announced_pane(p: PaneV, alive: bool) -> JsonV {
    obj(
        seq![
            ("name"@, JsonV::Str(p.mpv_name)),
            ("pane_type"@, JsonV::Str(p.pane_type)),
            (
                "status"@,
                JsonV::Str(
                    if alive {
                        "Online"@
                    } else {
                        "Offline"@
                    },
                ),
            ),
        ],
    )
}

/// What a client of a node with typed panes is told first.
pub open spec fn announcement_of(n: NodeV, alive: Seq<bool>) -> JsonV {
    obj(
        seq![
            ("event"@, JsonV::Str("bootstrap_complete"@)),
            ("hostname"@, JsonV::Str(n.hostname)),
            ("platform"@, JsonV::Str(n.platform)),
            ("layout"@, JsonV::Str(n.layout)),
            (
                "panes"@,
                JsonV::Arr(Seq::new(n.panes.len(), |i: int| announced_pane(n.panes[i], alive[i]))),
            ),
        ],
    )
}

/// What a client of a node with typed panes is told first.
pub fn bootstrap_complete(node: &Node, alive: &Vec<bool>) -> (r: Json)
    requires
        alive@.len() == node.panes@.len(),
    ensures
        r.view() == announcement_of(node.view(), alive@),
{
    let ghost n = node.view();
    let mut panes: Vec<Json> = Vec::new();
    for i in 0..node.panes.len()
        invariant
            n == node.view(),
            alive@.len() == node.panes@.len(),
            panes.len() == i,
            forall|k: int|
                0 <= k < i ==> (#[trigger] panes@[k]).view() == announced_pane(
                    n.panes[k],
                    alive@[k],
                ),
    {
        assert(n.panes[i as int] == node.panes@[i as int].view());
        let status: &str = if alive[i] {
            "Online"
        } else {
            "Offline"
        };
        panes.push(
            obj3(
                "name",
                Json::string(node.panes[i].mpv_name.as_str()),
                "pane_type",
                Json::string(node.panes[i].pane_type.as_str()),
                "status",
                Json::string(status),
            ),
        );
    }
    assert(jsons(panes@) =~= Seq::new(
        n.panes.len(),
        |i: int| announced_pane(n.panes[i], alive@[i]),
    ));
    let v: Vec<(String, Json)> = vec![
        ("event".to_owned(), Json::string("bootstrap_complete")),
        ("hostname".to_owned(), Json::string(node.hostname.as_str())),
        ("platform".to_owned(), Json::string(node.platform.as_str())),
        ("layout".to_owned(), Json::string(node.layout.as_str())),
        ("panes".to_owned(), Json::Arr(panes)),
    ];
    proof {
        assert(entries(v@) =~= seq![
            ("event"@, JsonV::Str("bootstrap_complete"@)),
            ("hostname"@, JsonV::Str(n.hostname)),
            ("platform"@, JsonV::Str(n.platform)),
            ("layout"@, JsonV::Str(n.layout)),
            ("panes"@, JsonV::Arr(jsons(panes@))),
        ]);
    }
    Json::Obj(v)
}

// ---------------------------------------------------------------------------
// Laws
// ---------------------------------------------------------------------------

/// Whatever the layout, switching to it sets every pane back to the volume and the
/// mute that it had, and leaves it paused.
pub proof fn switching_keeps_the_levels(
    n: NodeV,
    name: Seq<char>,
    layout: Layout,
    linux: bool,
    i: int,
)
    requires
        0 <= i < n.panes.len(),
    ensures
        ({
            let p = n.panes[i].mpv_name;
            let l = levels_of(n.states, p);
            layout_steps(n, name, layout, linux).contains(
                LayoutStepV::Restore { pane: p, messages: restore_messages(l.0, l.1) },
            )
        }),
{
    let steps = layout_steps(n, name, layout, linux);
    let before = 2 * n.panes.len() + (if linux {
        1 + positions(n.panes, layout).len()
    } else {
        0
    });
    let p = n.panes[i].mpv_name;
    let l = levels_of(n.states, p);
    assert(steps[before + i] == (LayoutStepV::Restore {
        pane: p,
        messages: restore_messages(l.0, l.1),
    }));
}

/// Coming up, the daemon leaves a player that runs alone.
pub proof fn running_players_are_left_alone(
    panes: Seq<PaneV>,
    alive: Seq<bool>,
    layout: Option<Layout>,
    linux: bool,
    i: int,
)
    requires
        alive.len() == panes.len(),
        0 <= i < panes.len(),
        alive[i],
        forall|j: int| 0 <= j < panes.len() && j != i ==> panes[j].mpv_name != panes[i].mpv_name,
    ensures
        forall|k: int|
            0 <= k < start_steps(panes, alive, layout, linux).len() ==> match #[trigger] start_steps(
                panes,
                alive,
                layout,
                linux,
            )[k] {
                LayoutStepV::Launch { pane, geometry } => pane != panes[i].mpv_name,
                LayoutStepV::Position { pane, message } => pane != panes[i].mpv_name,
                LayoutStepV::Sleep { ms } => true,
                _ => false,
            },
{
    let name = panes[i].mpv_name;
    let fresh = resting(panes, alive);
    lemma_resting(panes, alive, name);
    if let Some(l) = layout {
        lemma_positions(fresh, l, name);
    }
}

proof fn lemma_resting(panes: Seq<PaneV>, alive: Seq<bool>, name: Seq<char>)
    requires
        alive.len() == panes.len(),
        forall|j: int| 0 <= j < panes.len() && !alive[j] ==> (#[trigger] panes[j]).mpv_name != name,
    ensures
        forall|k: int|
            0 <= k < resting(panes, alive).len() ==> (#[trigger] resting(panes, alive)[k]).mpv_name
                != name,
    decreases panes.len(),
{
    if panes.len() > 0 {
        let p = panes.drop_last();
        let a = alive.drop_last();
        assert forall|j: int| 0 <= j < p.len() && !a[j] implies (#[trigger] p[j]).mpv_name
            != name by {
            assert(p[j] == panes[j]);
        }
        lemma_resting(p, a, name);
    }
}

proof fn lemma_positions(panes: Seq<PaneV>, layout: Layout, name: Seq<char>)
    requires
        forall|j: int| 0 <= j < panes.len() ==> (#[trigger] panes[j]).mpv_name != name,
    ensures
        forall|k: int|
            0 <= k < positions(panes, layout).len() ==> match #[trigger] positions(
                panes,
                layout,
            )[k] {
                LayoutStepV::Position { pane, message } => pane != name,
                _ => false,
            },
    decreases panes.len(),
{
    if panes.len() > 0 {
        let p = panes.drop_last();
        assert forall|j: int| 0 <= j < p.len() implies (#[trigger] p[j]).mpv_name != name by {
            assert(p[j] == panes[j]);
        }
        lemma_positions(p, layout, name);
    }
}

} // verus!
