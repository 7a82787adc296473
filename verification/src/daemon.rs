//! What the daemon does with what it is told: commands of clients become steps that
//! are carried out in order.
use crate::config::{pane_views, Layout, Pane, PaneV};
use crate::json::{
    arr1, arr2, arr3, at, double_of, entries, jsons, nearest_double, obj, obj1, obj2, obj3, parsed,
    str_of, Double, Json, JsonV, NumV,
};
use crate::manage::{clone_pane, clone_steps, remove_pane, remove_steps};
use crate::paths::{pane_file_of, pane_mpv_conf, pane_playlist, pane_socket};
use crate::protocol::{state_json, state_views, PaneState, PaneStateV};
use crate::text::{cat, has_str, lemma_strs_push, opt, same, starts_with, strs, upper, uppercase};
use vstd::prelude::*;

verus! {

/// How long the daemon waits before it tries a player again.
pub const MONITOR_RETRY_MS: u64 = 500;

/// How long a stopped pane is given before it is started again.
pub const RESTART_PANE_WAIT_MS: u64 = 3000;

/// How long all the stopped panes are given before they are started again.
pub const RESTART_ALL_WAIT_MS: u64 = 1000;

/// One thing for the daemon to do.
#[derive(Debug)]
pub enum Step {
    /// Hand a message to the player of a pane.
    Send { pane: String, message: Json },
    /// Ask the player of a pane to quit.
    Kill { pane: String },
    /// Start the player of a pane.
    Launch { pane: String, args: Vec<String> },
    /// Wait.
    Sleep { ms: u64 },
    /// Tell every client.
    Broadcast { message: Json },
    /// Take a layout as the current one.
    SetLayout { name: String },
    /// Ask the player of a pane for its playlist and write that to a file.
    Save { pane: String, path: String },
    /// Take a pane into the node, with the player configuration of another.
    AddPane { pane: Pane, from: String },
    /// Take a pane out of the node.
    RemovePane { pane: String },
    /// Write the panes file.
    WritePanes { text: String },
    /// Tell every client how the node stands.
    Snapshot,
    /// Stop the daemon.
    Shutdown,
}

pub enum StepV {
    Send { pane: Seq<char>, message: JsonV },
    Kill { pane: Seq<char> },
    Launch { pane: Seq<char>, args: Seq<Seq<char>> },
    Sleep { ms: u64 },
    Broadcast { message: JsonV },
    SetLayout { name: Seq<char> },
    Save { pane: Seq<char>, path: Seq<char> },
    AddPane { pane: PaneV, from: Seq<char> },
    RemovePane { pane: Seq<char> },
    WritePanes { text: Seq<char> },
    Snapshot,
    Shutdown,
}

impl Step {
    pub open spec fn view(&self) -> StepV {
        match self {
            Step::Send { pane, message } => StepV::Send { pane: pane@, message: message.view() },
            Step::Kill { pane } => StepV::Kill { pane: pane@ },
            Step::Launch { pane, args } => StepV::Launch { pane: pane@, args: strs(args@) },
            Step::Sleep { ms } => StepV::Sleep { ms: *ms },
            Step::Broadcast { message } => StepV::Broadcast { message: message.view() },
            Step::SetLayout { name } => StepV::SetLayout { name: name@ },
            Step::Save { pane, path } => StepV::Save { pane: pane@, path: path@ },
            Step::AddPane { pane, from } => StepV::AddPane { pane: pane.view(), from: from@ },
            Step::RemovePane { pane } => StepV::RemovePane { pane: pane@ },
            Step::WritePanes { text } => StepV::WritePanes { text: text@ },
            Step::Snapshot => StepV::Snapshot,
            Step::Shutdown => StepV::Shutdown,
        }
    }
}

pub open spec fn step_views(v: Seq<Step>) -> Seq<StepV> {
    Seq::new(v.len(), |i: int| v[i].view())
}

/// What the daemon goes by: its panes, what it knows of them, which players are
/// connected, and where it runs.
#[derive(Debug)]
pub struct Node {
    pub config: String,
    pub panes: Vec<Pane>,
    pub states: Vec<PaneState>,
    pub connected: Vec<String>,
    pub hostname: String,
    pub platform: String,
    pub layout: String,
}

pub struct NodeV {
    pub config: Seq<char>,
    pub panes: Seq<PaneV>,
    pub states: Seq<PaneStateV>,
    pub connected: Seq<Seq<char>>,
    pub hostname: Seq<char>,
    pub platform: Seq<char>,
    pub layout: Seq<char>,
}

impl Node {
    pub open spec fn view(&self) -> NodeV {
        NodeV {
            config: self.config@,
            panes: pane_views(self.panes@),
            states: state_views(self.states@),
            connected: strs(self.connected@),
            hostname: self.hostname@,
            platform: self.platform@,
            layout: self.layout@,
        }
    }
}

// ---------------------------------------------------------------------------
// Messages for players
// ---------------------------------------------------------------------------

/// A command for a player.
pub open spec fn player_command(args: Seq<JsonV>) -> JsonV {
    obj(seq![("command"@, JsonV::Arr(args))])
}

/// The command to set a property of a player.
pub open spec fn set_property(name: Seq<char>, value: JsonV) -> JsonV {
    player_command(seq![JsonV::Str("set_property"@), JsonV::Str(name), value])
}

fn property_command(name: &str, value: Json) -> (r: Json)
    ensures
        r.view() == set_property(name@, value.view()),
{
    obj1("command", arr3(Json::string("set_property"), Json::string(name), value))
}

/// The command that ends a player.
pub fn quit_command() -> (r: Json)
    ensures
        r.view() == player_command(seq![JsonV::Str("quit"@)]),
{
    obj1("command", arr1(Json::string("quit")))
}

/// The commands that clients may send to players.
pub open spec fn allowed_commands() -> Seq<Seq<char>> {
    seq![
        "set_property"@, "cycle"@, "add"@, "stop"@, "quit"@, "seek"@, "revert-seek"@,
        "playlist-next"@, "playlist-prev"@, "playlist-play-index"@, "playlist-remove"@,
        "playlist-move"@, "playlist-shuffle"@, "playlist-unshuffle"@, "playlist-clear"@,
        "loadfile"@, "loadlist"@, "keypress"@, "keydown"@, "keyup"@,
    ]
}

/// Whether clients may send this command to players.
pub fn is_allowed(cmd: &str) -> (r: bool)
    ensures
        r == allowed_commands().contains(cmd@),
{
    let names: Vec<&'static str> = vec![
        "set_property", "cycle", "add", "stop", "quit", "seek", "revert-seek", "playlist-next",
        "playlist-prev", "playlist-play-index", "playlist-remove", "playlist-move",
        "playlist-shuffle", "playlist-unshuffle", "playlist-clear", "loadfile", "loadlist",
        "keypress", "keydown", "keyup",
    ];
    let ghost all = allowed_commands();
    assert forall|k: int| 0 <= k < all.len() implies (#[trigger] names@[k])@ == all[k] by {}
    for i in 0..names.len()
        invariant
            all == allowed_commands(),
            names@.len() == all.len(),
            forall|k: int| 0 <= k < all.len() ==> (#[trigger] names@[k])@ == all[k],
            forall|k: int| 0 <= k < i ==> all[k] != cmd@,
    {
        assert(names@[i as int]@ == all[i as int]);
        if same(names[i], cmd) {
            assert(all.contains(cmd@));
            return true;
        }
    }
    false
}

// ---------------------------------------------------------------------------
// Launching
// ---------------------------------------------------------------------------

/// The arguments that the player of a pane is started with. Its window is placed by
/// a geometry only on macOS; elsewhere that is left to the window manager.
pub open spec fn launch_args_of(
    config: Seq<char>,
    p: PaneV,
    geometry: Option<Seq<char>>,
    macos: bool,
) -> Seq<Seq<char>> {
    let base = seq![
        "--input-ipc-server="@ + pane_file_of(config, p.mpv_name, ".sock"@),
        "--title="@ + uppercase(p.pane_name),
        "--include="@ + pane_file_of(config, p.mpv_name, ".mpv.conf"@),
        "--playlist="@ + (match p.playlist {
            Some(l) => l,
            None => pane_file_of(config, p.mpv_name, ".m3u"@),
        }),
    ];
    match geometry {
        Some(g) if macos => base.push("--geometry="@ + g),
        _ => base,
    }
}

/// The arguments that the player of a pane is started with.
pub fn launch_pane(config: &str, pane: &Pane, geometry: Option<String>, macos: bool) -> (r: Vec<String>)
    ensures
        strs(r@) == launch_args_of(config@, pane.view(), opt(geometry), macos),
{
    let playlist: String = match &pane.playlist {
        Some(p) => p.clone(),
        None => pane_playlist(config, pane.mpv_name.as_str()),
    };
    let mut args: Vec<String> = vec![
        cat("--input-ipc-server=", pane_socket(config, pane.mpv_name.as_str()).as_str()),
        cat("--title=", upper(pane.pane_name.as_str()).as_str()),
        cat("--include=", pane_mpv_conf(config, pane.mpv_name.as_str()).as_str()),
        cat("--playlist=", playlist.as_str()),
    ];
    assert(strs(args@) =~= launch_args_of(config@, pane.view(), None, macos));
    if macos {
        if let Some(g) = geometry {
            let a: String = cat("--geometry=", g.as_str());
            proof {
                lemma_strs_push(args@, a);
            }
            args.push(a);
        }
    }
    args
}

/// The geometry that a layout gives a pane; none where there is no layout.
pub open spec fn geometry_in(layout: Option<Layout>, name: Seq<char>) -> Option<Seq<char>> {
    match layout {
        Some(l) => match l.entry(name) {
            Some(e) => e.geometry,
            None => None,
        },
        None => None,
    }
}

/// The name of macOS among the platforms.
pub open spec fn is_macos(platform: Seq<char>) -> bool {
    platform == "macos"@
}

pub open spec fn launch_step(n: NodeV, p: PaneV, layout: Option<Layout>) -> StepV {
    StepV::Launch {
        pane: p.mpv_name,
        args: launch_args_of(n.config, p, geometry_in(layout, p.mpv_name), is_macos(n.platform)),
    }
}

/// Every pane is stopped, then, after a while, every pane is started.
pub open spec fn restart_steps(n: NodeV, layout: Option<Layout>) -> Seq<StepV> {
    Seq::new(n.panes.len(), |i: int| StepV::Kill { pane: n.panes[i].mpv_name }) + seq![
        StepV::Sleep { ms: RESTART_ALL_WAIT_MS },
    ] + Seq::new(n.panes.len(), |i: int| launch_step(n, n.panes[i], layout))
}

/// The step that starts the player of a pane, placed by the layout.
pub fn launch_for(node: &Node, p: &Pane, layout: &Option<Layout>) -> (r: Step)
    requires
        layout matches Some(l) ==> l.wf(),
    ensures
        r.view() == launch_step(node.view(), p.view(), *layout),
{
    let geometry: Option<String> = match layout {
        Some(l) => l.geometry_of(p.mpv_name.as_str()),
        None => None,
    };
    let macos: bool = same(node.platform.as_str(), "macos");
    Step::Launch {
        pane: p.mpv_name.clone(),
        args: launch_pane(node.config.as_str(), p, geometry, macos),
    }
}

proof fn lemma_steps_push(v: Seq<Step>, s: Step)
    ensures
        step_views(v.push(s)) == step_views(v).push(s.view()),
{
    assert(step_views(v.push(s)) =~= step_views(v).push(s.view()));
}

/// Adds the steps that restart every pane.
fn push_restart(out: &mut Vec<Step>, node: &Node, layout: &Option<Layout>)
    requires
        layout matches Some(l) ==> l.wf(),
    ensures
        step_views(final(out)@) == step_views(old(out)@) + restart_steps(node.view(), *layout),
{
    let ghost n = node.view();
    let ghost start = step_views(out@);
    let ghost kills = Seq::new(n.panes.len(), |i: int| StepV::Kill { pane: n.panes[i].mpv_name });
    let ghost starts = Seq::new(n.panes.len(), |i: int| launch_step(n, n.panes[i], *layout));
    assert(start + kills.take(0) =~= start);
    for i in 0..node.panes.len()
        invariant
            n == node.view(),
            kills == Seq::new(n.panes.len(), |i: int| StepV::Kill { pane: n.panes[i].mpv_name }),
            step_views(out@) == start + kills.take(i as int),
    {
        let s: Step = Step::Kill { pane: node.panes[i].mpv_name.clone() };
        proof {
            lemma_steps_push(out@, s);
            assert(s.view() == kills[i as int]);
            assert(start + kills.take(i + 1) =~= (start + kills.take(i as int)).push(
                kills[i as int],
            ));
        }
        out.push(s);
    }
    let s: Step = Step::Sleep { ms: RESTART_ALL_WAIT_MS };
    proof {
        lemma_steps_push(out@, s);
    }
    out.push(s);
    let ghost middle = start + kills + seq![s.view()];
    assert(step_views(out@) =~= middle + starts.take(0));
    for i in 0..node.panes.len()
        invariant
            n == node.view(),
            layout matches Some(l) ==> l.wf(),
            starts == Seq::new(n.panes.len(), |i: int| launch_step(n, n.panes[i], *layout)),
            step_views(out@) == middle + starts.take(i as int),
    {
        let s: Step = launch_for(node, &node.panes[i], layout);
        proof {
            lemma_steps_push(out@, s);
            assert(s.view() == starts[i as int]);
            assert(middle + starts.take(i + 1) =~= (middle + starts.take(i as int)).push(
                starts[i as int],
            ));
        }
        out.push(s);
    }
    assert(middle + starts.take(starts.len() as int) =~= start + restart_steps(n, *layout));
}

// ---------------------------------------------------------------------------
// Looking things up
// ---------------------------------------------------------------------------

/// Where the pane `name` stands in the list; past its end where it does not occur.
pub open spec fn pane_index(panes: Seq<PaneV>, name: Seq<char>) -> int
    decreases panes.len(),
{
    if panes.len() == 0 || panes[0].mpv_name == name {
        0
    } else {
        1 + pane_index(panes.skip(1), name)
    }
}

/// The volume of the pane `name`; zero where it is not known.
pub open spec fn volume_of(states: Seq<PaneStateV>, name: Seq<char>) -> u64
    decreases states.len(),
{
    if states.len() == 0 {
        nearest_double(0)
    } else if states[0].mpv_name == name {
        match states[0].volume {
            Some(v) => v,
            None => nearest_double(0),
        }
    } else {
        volume_of(states.skip(1), name)
    }
}

/// Where the pane `name` stands in the list; past its end where it does not occur.
pub fn find_pane(node: &Node, name: &str) -> (r: usize)
    ensures
        r == pane_index(node.view().panes, name@),
        r <= node.panes@.len(),
{
    let ghost all = node.view().panes;
    let mut i: usize = 0;
    assert(all.skip(0) =~= all);
    while i < node.panes.len()
        invariant
            all == pane_views(node.panes@),
            i <= node.panes@.len(),
            pane_index(all, name@) == i + pane_index(all.skip(i as int), name@),
        decreases node.panes@.len() - i,
    {
        assert(all.skip(i as int)[0] == node.panes@[i as int].view());
        if same(node.panes[i].mpv_name.as_str(), name) {
            return i;
        }
        assert(all.skip(i as int).skip(1) =~= all.skip(i + 1));
        i = i + 1;
    }
    i
}

fn find_volume(states: &Vec<PaneState>, name: &str) -> (r: Double)
    ensures
        r.bits() == volume_of(state_views(states@), name@),
{
    let ghost all = state_views(states@);
    let mut i: usize = 0;
    assert(all.skip(0) =~= all);
    while i < states.len()
        invariant
            all == state_views(states@),
            i <= states@.len(),
            volume_of(all, name@) == volume_of(all.skip(i as int), name@),
        decreases states@.len() - i,
    {
        assert(all.skip(i as int)[0] == states@[i as int].view());
        if same(states[i].mpv_name.as_str(), name) {
            return match &states[i].volume {
                Some(v) => v.copy(),
                None => Double::whole(0),
            };
        }
        assert(all.skip(i as int).skip(1) =~= all.skip(i + 1));
        i = i + 1;
    }
    Double::whole(0)
}

fn states_json(states: &Vec<PaneState>) -> (r: Json)
    ensures
        r.view() == all_states_json(state_views(states@)),
{
    let mut v: Vec<Json> = Vec::new();
    for i in 0..states.len()
        invariant
            v.len() == i,
            forall|k: int| 0 <= k < i ==> (#[trigger] v@[k]).view() == state_json(states@[k].view()),
    {
        v.push(states[i].to_json());
    }
    assert(jsons(v@) =~= Seq::new(states@.len(), |i: int| state_json(state_views(states@)[i])));
    Json::Arr(v)
}

pub open spec fn all_states_json(states: Seq<PaneStateV>) -> JsonV {
    JsonV::Arr(Seq::new(states.len(), |i: int| state_json(states[i])))
}

// ---------------------------------------------------------------------------
// Commands to several players
// ---------------------------------------------------------------------------

/// The same message to every connected player.
pub open spec fn send_to_all(connected: Seq<Seq<char>>, message: JsonV) -> Seq<StepV> {
    Seq::new(connected.len(), |i: int| StepV::Send { pane: connected[i], message })
}

/// One pane is heard and plays, every other is muted.
pub open spec fn solo_steps(connected: Seq<Seq<char>>, solo: Seq<char>) -> Seq<StepV>
    decreases connected.len(),
{
    if connected.len() == 0 {
        Seq::empty()
    } else {
        let pane = connected.last();
        let before = solo_steps(connected.drop_last(), solo);
        if pane == solo {
            before.push(
                StepV::Send { pane, message: set_property("mute"@, JsonV::Bool(false)) },
            ).push(StepV::Send { pane, message: set_property("pause"@, JsonV::Bool(false)) })
        } else {
            before.push(StepV::Send { pane, message: set_property("mute"@, JsonV::Bool(true)) })
        }
    }
}

/// Every pane but one is muted.
pub open spec fn mute_steps(connected: Seq<Seq<char>>, keep: Seq<char>) -> Seq<StepV>
    decreases connected.len(),
{
    if connected.len() == 0 {
        Seq::empty()
    } else {
        let pane = connected.last();
        let before = mute_steps(connected.drop_last(), keep);
        if pane == keep {
            before
        } else {
            before.push(StepV::Send { pane, message: set_property("mute"@, JsonV::Bool(true)) })
        }
    }
}

fn to_all(node: &Node, message: &Json) -> (r: Vec<Step>)
    ensures
        step_views(r@) == send_to_all(node.view().connected, message.view()),
{
    let mut out: Vec<Step> = Vec::new();
    for i in 0..node.connected.len()
        invariant
            out.len() == i,
            forall|k: int|
                0 <= k < i ==> (#[trigger] out@[k]).view() == (StepV::Send {
                    pane: node.connected@[k]@,
                    message: message.view(),
                }),
    {
        out.push(Step::Send { pane: node.connected[i].clone(), message: message.copy() });
    }
    assert(step_views(out@) =~= send_to_all(node.view().connected, message.view()));
    out
}

fn solo(node: &Node, name: &str) -> (r: Vec<Step>)
    ensures
        step_views(r@) == solo_steps(node.view().connected, name@),
{
    let ghost all = node.view().connected;
    let mut out: Vec<Step> = Vec::new();
    assert(step_views(out@) =~= solo_steps(all.take(0), name@));
    for i in 0..node.connected.len()
        invariant
            all == strs(node.connected@),
            step_views(out@) == solo_steps(all.take(i as int), name@),
    {
        proof {
            assert(all.take(i + 1).drop_last() =~= all.take(i as int));
            assert(all.take(i + 1).last() == node.connected@[i as int]@);
        }
        let pane: &str = node.connected[i].as_str();
        if same(pane, name) {
            let a: Step = Step::Send {
                pane: pane.to_owned(),
                message: property_command("mute", Json::Bool(false)),
            };
            proof {
                lemma_steps_push(out@, a);
            }
            out.push(a);
            let b: Step = Step::Send {
                pane: pane.to_owned(),
                message: property_command("pause", Json::Bool(false)),
            };
            proof {
                lemma_steps_push(out@, b);
            }
            out.push(b);
        } else {
            let a: Step = Step::Send {
                pane: pane.to_owned(),
                message: property_command("mute", Json::Bool(true)),
            };
            proof {
                lemma_steps_push(out@, a);
            }
            out.push(a);
        }
    }
    assert(all.take(all.len() as int) =~= all);
    out
}

fn mute_others(node: &Node, keep: &str) -> (r: Vec<Step>)
    ensures
        step_views(r@) == mute_steps(node.view().connected, keep@),
{
    let ghost all = node.view().connected;
    let mut out: Vec<Step> = Vec::new();
    assert(step_views(out@) =~= mute_steps(all.take(0), keep@));
    for i in 0..node.connected.len()
        invariant
            all == strs(node.connected@),
            step_views(out@) == mute_steps(all.take(i as int), keep@),
    {
        proof {
            assert(all.take(i + 1).drop_last() =~= all.take(i as int));
            assert(all.take(i + 1).last() == node.connected@[i as int]@);
        }
        let pane: &str = node.connected[i].as_str();
        if !same(pane, keep) {
            let a: Step = Step::Send {
                pane: pane.to_owned(),
                message: property_command("mute", Json::Bool(true)),
            };
            proof {
                lemma_steps_push(out@, a);
            }
            out.push(a);
        }
    }
    assert(all.take(all.len() as int) =~= all);
    out
}

/// The volumes of two panes change places.
pub open spec fn swap_steps(n: NodeV, a: Seq<char>, b: Seq<char>) -> Seq<StepV> {
    let to_a = StepV::Send {
        pane: a,
        message: set_property("volume"@, JsonV::Num(NumV::Float(volume_of(n.states, b)))),
    };
    let to_b = StepV::Send {
        pane: b,
        message: set_property("volume"@, JsonV::Num(NumV::Float(volume_of(n.states, a)))),
    };
    let first = if n.connected.contains(a) {
        seq![to_a]
    } else {
        Seq::empty()
    };
    if n.connected.contains(b) {
        first.push(to_b)
    } else {
        first
    }
}

fn swap_volume(node: &Node, a: &str, b: &str) -> (r: Vec<Step>)
    ensures
        step_views(r@) == swap_steps(node.view(), a@, b@),
{
    let mut out: Vec<Step> = Vec::new();
    assert(step_views(out@) =~= Seq::empty());
    if has_str(&node.connected, a) {
        let v: Double = find_volume(&node.states, b);
        let s: Step = Step::Send {
            pane: a.to_owned(),
            message: property_command("volume", v.to_json()),
        };
        proof {
            lemma_steps_push(out@, s);
            assert(Seq::<StepV>::empty().push(s.view()) =~= seq![s.view()]);
        }
        out.push(s);
    }
    if has_str(&node.connected, b) {
        let v: Double = find_volume(&node.states, a);
        let s: Step = Step::Send {
            pane: b.to_owned(),
            message: property_command("volume", v.to_json()),
        };
        proof {
            lemma_steps_push(out@, s);
        }
        out.push(s);
    }
    out
}

fn one(s: Step) -> (r: Vec<Step>)
    ensures
        step_views(r@) == seq![s.view()],
{
    let v: Vec<Step> = vec![s];
    assert(step_views(v@) =~= seq![s.view()]);
    v
}

fn nothing() -> (r: Vec<Step>)
    ensures
        step_views(r@) == Seq::<StepV>::empty(),
{
    let v: Vec<Step> = Vec::new();
    assert(step_views(v@) =~= Seq::empty());
    v
}

/// A message to one player, where that is connected.
pub open spec fn send_if_connected(n: NodeV, pane: Seq<char>, message: JsonV) -> Seq<StepV> {
    if n.connected.contains(pane) {
        seq![StepV::Send { pane, message }]
    } else {
        Seq::empty()
    }
}

fn send_one(node: &Node, pane: &str, message: Json) -> (r: Vec<Step>)
    ensures
        step_views(r@) == send_if_connected(node.view(), pane@, message.view()),
{
    if has_str(&node.connected, pane) {
        one(Step::Send { pane: pane.to_owned(), message })
    } else {
        nothing()
    }
}

// ---------------------------------------------------------------------------
// Node commands
// ---------------------------------------------------------------------------

pub open spec fn broadcast(e: Seq<(Seq<char>, JsonV)>) -> StepV {
    StepV::Broadcast { message: obj(e) }
}

/// One pane is stopped and, after a while, started again.
pub open spec fn restart_one_steps(n: NodeV, name: Seq<char>, layout: Option<Layout>) -> Seq<StepV> {
    let i = pane_index(n.panes, name);
    if 0 <= i < n.panes.len() {
        seq![
            StepV::Kill { pane: name },
            StepV::Sleep { ms: RESTART_PANE_WAIT_MS },
            launch_step(n, n.panes[i], layout),
            broadcast(
                seq![("event"@, JsonV::Str("node:restart-pane"@)), ("pane"@, JsonV::Str(name))],
            ),
        ]
    } else {
        Seq::empty()
    }
}

/// The playlist of the player is written to a file, and the clients are told.
pub open spec fn save_steps(n: NodeV, pane: Seq<char>, path: Seq<char>) -> Seq<StepV> {
    if n.connected.contains(pane) {
        seq![
            StepV::Save { pane, path },
            broadcast(
                seq![
                    ("event"@, JsonV::Str("node:playlist-saved"@)),
                    ("pane"@, JsonV::Str(pane)),
                    ("path"@, JsonV::Str(path)),
                ],
            ),
        ]
    } else {
        Seq::empty()
    }
}

/// The steps of a node command: `v` is the client's message, `layout` the layout
/// that it needs, where that could be read.
pub open spec fn node_steps(
    n: NodeV,
    cmd: Seq<char>,
    v: JsonV,
    layout: Option<Layout>,
) -> Seq<StepV> {
    let pane = str_of(at(v, "pane"@));
    if cmd == "panebot:node-info"@ {
        seq![
            broadcast(
                seq![
                    ("event"@, JsonV::Str("node:info"@)),
                    ("hostname"@, JsonV::Str(n.hostname)),
                    ("platform"@, JsonV::Str(n.platform)),
                    ("panes"@, all_states_json(n.states)),
                ],
            ),
        ]
    } else if cmd == "panebot:node-status"@ {
        seq![
            broadcast(
                seq![
                    ("event"@, JsonV::Str("node:status"@)),
                    ("panes"@, all_states_json(n.states)),
                ],
            ),
        ]
    } else if cmd == "panebot:stop-all"@ {
        send_to_all(n.connected, player_command(seq![JsonV::Str("stop"@)]))
    } else if cmd == "panebot:start-all"@ {
        send_to_all(n.connected, set_property("pause"@, JsonV::Bool(false)))
    } else if cmd == "panebot:restart-all"@ {
        restart_steps(n, layout).push(
            broadcast(seq![("event"@, JsonV::Str("node:restart-all"@))]),
        )
    } else if cmd == "panebot:restart-pane"@ {
        match pane {
            Some(p) => restart_one_steps(n, p, layout),
            None => Seq::empty(),
        }
    } else if cmd == "panebot:reload-playlist"@ {
        match pane {
            Some(p) => send_if_connected(
                n,
                p,
                player_command(
                    seq![
                        JsonV::Str("loadlist"@),
                        JsonV::Str(pane_file_of(n.config, p, ".m3u"@)),
                        JsonV::Str("replace"@),
                    ],
                ),
            ),
            None => Seq::empty(),
        }
    } else if cmd == "panebot:playlist-get"@ || cmd == "playlist-get"@ {
        match pane {
            Some(p) => send_if_connected(
                n,
                p,
                player_command(seq![JsonV::Str("get_property"@), JsonV::Str("playlist"@)]),
            ),
            None => Seq::empty(),
        }
    } else if cmd == "panebot:playlist-save"@ {
        match (pane, str_of(at(v, "path"@))) {
            (Some(p), Some(path)) => save_steps(n, p, path),
            _ => Seq::empty(),
        }
    } else if cmd == "panebot:solo"@ {
        match pane {
            Some(p) => solo_steps(n.connected, p),
            None => Seq::empty(),
        }
    } else if cmd == "panebot:mute-others"@ {
        match pane {
            Some(p) => mute_steps(n.connected, p),
            None => Seq::empty(),
        }
    } else if cmd == "panebot:swap-volume"@ {
        match (str_of(at(v, "pane_a"@)), str_of(at(v, "pane_b"@))) {
            (Some(a), Some(b)) => swap_steps(n, a, b),
            _ => Seq::empty(),
        }
    } else if cmd == "panebot:set-volume-all"@ {
        match double_of(at(v, "volume"@)) {
            Some(d) => send_to_all(
                n.connected,
                set_property("volume"@, JsonV::Num(NumV::Float(d))),
            ),
            None => Seq::empty(),
        }
    } else if cmd == "panebot:layout"@ {
        match (str_of(at(v, "layout_name"@)), layout) {
            (Some(name), Some(_)) => seq![StepV::SetLayout { name }] + restart_steps(
                n,
                layout,
            ).push(
                broadcast(
                    seq![("event"@, JsonV::Str("node:layout"@)), ("layout"@, JsonV::Str(name))],
                ),
            ),
            _ => Seq::empty(),
        }
    } else if cmd == "panebot:clone-pane"@ {
        match (pane, str_of(at(v, "new_name"@))) {
            (Some(source), Some(new_name)) => clone_steps(
                n,
                source,
                new_name,
                match str_of(at(v, "pane_name"@)) {
                    Some(shown) => shown,
                    None => new_name,
                },
                layout,
            ),
            _ => Seq::empty(),
        }
    } else if cmd == "panebot:remove-pane"@ {
        match pane {
            Some(p) => remove_steps(n, p),
            None => Seq::empty(),
        }
    } else if cmd == "panebot:reload-config"@ {
        seq![
            broadcast(
                seq![
                    ("event"@, JsonV::Str("node:reload-config"@)),
                    ("status"@, JsonV::Str("not-yet-implemented"@)),
                    ("reason"@, JsonV::Str("requires mutable shared pane list"@)),
                ],
            ),
        ]
    } else if cmd == "panebot:shutdown"@ {
        seq![
            broadcast(
                seq![("event"@, JsonV::Str("node:down"@)), ("reason"@, JsonV::Str("admin"@))],
            ),
            StepV::Sleep { ms: MONITOR_RETRY_MS },
            StepV::Shutdown,
        ]
    } else {
        Seq::empty()
    }
}

fn restart_one(node: &Node, name: &str, layout: &Option<Layout>) -> (r: Vec<Step>)
    requires
        layout matches Some(l) ==> l.wf(),
    ensures
        step_views(r@) == restart_one_steps(node.view(), name@, *layout),
{
    let i: usize = find_pane(node, name);
    if i >= node.panes.len() {
        return nothing();
    }
    let v: Vec<Step> = vec![
        Step::Kill { pane: name.to_owned() },
        Step::Sleep { ms: RESTART_PANE_WAIT_MS },
        launch_for(node, &node.panes[i], layout),
        Step::Broadcast {
            message: obj2("event", Json::string("node:restart-pane"), "pane", Json::string(name)),
        },
    ];
    assert(step_views(v@) =~= restart_one_steps(node.view(), name@, *layout));
    v
}

fn save(node: &Node, pane: &str, path: &str) -> (r: Vec<Step>)
    ensures
        step_views(r@) == save_steps(node.view(), pane@, path@),
{
    if !has_str(&node.connected, pane) {
        return nothing();
    }
    let v: Vec<Step> = vec![
        Step::Save { pane: pane.to_owned(), path: path.to_owned() },
        Step::Broadcast {
            message: obj3(
                "event",
                Json::string("node:playlist-saved"),
                "pane",
                Json::string(pane),
                "path",
                Json::string(path),
            ),
        },
    ];
    assert(step_views(v@) =~= save_steps(node.view(), pane@, path@));
    v
}

fn node_info(node: &Node) -> (r: Json)
    ensures
        r.view() == obj(
            seq![
                ("event"@, JsonV::Str("node:info"@)),
                ("hostname"@, JsonV::Str(node.hostname@)),
                ("platform"@, JsonV::Str(node.platform@)),
                ("panes"@, all_states_json(node.view().states)),
            ],
        ),
{
    let v: Vec<(String, Json)> = vec![
        ("event".to_owned(), Json::string("node:info")),
        ("hostname".to_owned(), Json::string(node.hostname.as_str())),
        ("platform".to_owned(), Json::string(node.platform.as_str())),
        ("panes".to_owned(), states_json(&node.states)),
    ];
    assert(entries(v@) =~= seq![
        ("event"@, JsonV::Str("node:info"@)),
        ("hostname"@, JsonV::Str(node.hostname@)),
        ("platform"@, JsonV::Str(node.platform@)),
        ("panes"@, all_states_json(node.view().states)),
    ]);
    Json::Obj(v)
}

/// The steps of a node command.
pub fn handle_node_command(cmd: &str, v: &Json, node: &Node, layout: &Option<Layout>) -> (r: Vec<Step>)
    requires
        layout matches Some(l) ==> l.wf(),
    ensures
        step_views(r@) == node_steps(node.view(), cmd@, v.view(), *layout),
{
    let pane: Option<String> = v.str_at("pane");
    if same(cmd, "panebot:node-info") {
        one(Step::Broadcast { message: node_info(node) })
    } else if same(cmd, "panebot:node-status") {
        one(
            Step::Broadcast {
                message: obj2(
                    "event",
                    Json::string("node:status"),
                    "panes",
                    states_json(&node.states),
                ),
            },
        )
    } else if same(cmd, "panebot:stop-all") {
        to_all(node, &obj1("command", arr1(Json::string("stop"))))
    } else if same(cmd, "panebot:start-all") {
        to_all(node, &property_command("pause", Json::Bool(false)))
    } else if same(cmd, "panebot:restart-all") {
        let mut out: Vec<Step> = nothing();
        push_restart(&mut out, node, layout);
        let s: Step = Step::Broadcast { message: obj1("event", Json::string("node:restart-all")) };
        proof {
            lemma_steps_push(out@, s);
            assert(Seq::<StepV>::empty() + restart_steps(node.view(), *layout) =~= restart_steps(
                node.view(),
                *layout,
            ));
        }
        out.push(s);
        out
    } else if same(cmd, "panebot:restart-pane") {
        match pane {
            Some(p) => restart_one(node, p.as_str(), layout),
            None => nothing(),
        }
    } else if same(cmd, "panebot:reload-playlist") {
        match pane {
            Some(p) => {
                let path: String = pane_playlist(node.config.as_str(), p.as_str());
                send_one(
                    node,
                    p.as_str(),
                    obj1(
                        "command",
                        arr3(
                            Json::string("loadlist"),
                            Json::string(path.as_str()),
                            Json::string("replace"),
                        ),
                    ),
                )
            },
            None => nothing(),
        }
    } else if same(cmd, "panebot:playlist-get") || same(cmd, "playlist-get") {
        match pane {
            Some(p) => send_one(
                node,
                p.as_str(),
                obj1("command", arr2(Json::string("get_property"), Json::string("playlist"))),
            ),
            None => nothing(),
        }
    } else if same(cmd, "panebot:playlist-save") {
        match (pane, v.str_at("path")) {
            (Some(p), Some(path)) => save(node, p.as_str(), path.as_str()),
            _ => nothing(),
        }
    } else if same(cmd, "panebot:solo") {
        match pane {
            Some(p) => solo(node, p.as_str()),
            None => nothing(),
        }
    } else if same(cmd, "panebot:mute-others") {
        match pane {
            Some(p) => mute_others(node, p.as_str()),
            None => nothing(),
        }
    } else if same(cmd, "panebot:swap-volume") {
        match (v.str_at("pane_a"), v.str_at("pane_b")) {
            (Some(a), Some(b)) => swap_volume(node, a.as_str(), b.as_str()),
            _ => nothing(),
        }
    } else if same(cmd, "panebot:set-volume-all") {
        match v.double_at("volume") {
            Some(d) => to_all(node, &property_command("volume", d.to_json())),
            None => nothing(),
        }
    } else if same(cmd, "panebot:layout") {
        match (v.str_at("layout_name"), layout) {
            (Some(name), Some(_)) => {
                let mut out: Vec<Step> = one(Step::SetLayout { name: name.clone() });
                push_restart(&mut out, node, layout);
                let s: Step = Step::Broadcast {
                    message: obj2(
                        "event",
                        Json::string("node:layout"),
                        "layout",
                        Json::string(name.as_str()),
                    ),
                };
                proof {
                    lemma_steps_push(out@, s);
                    let first = seq![StepV::SetLayout { name: name@ }];
                    assert((first + restart_steps(node.view(), *layout)).push(s.view()) =~= first
                        + restart_steps(node.view(), *layout).push(s.view()));
                }
                out.push(s);
                out
            },
            _ => nothing(),
        }
    } else if same(cmd, "panebot:clone-pane") {
        match (pane, v.str_at("new_name")) {
            (Some(source), Some(new_name)) => {
                let shown: String = match v.str_at("pane_name") {
                    Some(shown) => shown,
                    None => new_name.clone(),
                };
                clone_pane(node, source.as_str(), new_name.as_str(), shown.as_str(), layout)
            },
            _ => nothing(),
        }
    } else if same(cmd, "panebot:remove-pane") {
        match pane {
            Some(p) => remove_pane(node, p.as_str()),
            None => nothing(),
        }
    } else if same(cmd, "panebot:reload-config") {
        one(
            Step::Broadcast {
                message: obj3(
                    "event",
                    Json::string("node:reload-config"),
                    "status",
                    Json::string("not-yet-implemented"),
                    "reason",
                    Json::string("requires mutable shared pane list"),
                ),
            },
        )
    } else if same(cmd, "panebot:shutdown") {
        let out: Vec<Step> = vec![
            Step::Broadcast {
                message: obj2("event", Json::string("node:down"), "reason", Json::string("admin")),
            },
            Step::Sleep { ms: MONITOR_RETRY_MS },
            Step::Shutdown,
        ];
        assert(step_views(out@) =~= node_steps(node.view(), cmd@, v.view(), *layout));
        out
    } else {
        nothing()
    }
}

// ---------------------------------------------------------------------------
// Client commands
// ---------------------------------------------------------------------------

/// A command that the daemon itself carries out.
pub open spec fn is_node_command(cmd: Seq<char>) -> bool {
    "panebot:"@.is_prefix_of(cmd) || cmd == "playlist-get"@
}

/// The steps of a client's message. A message without a command does nothing. A
/// command for a player goes to the named pane, and only if it is allowed, names
/// its arguments, and the player is connected.
pub open spec fn command_steps(n: NodeV, v: JsonV, layout: Option<Layout>) -> Seq<StepV> {
    match str_of(at(v, "command"@)) {
        Some(cmd) => if is_node_command(cmd) {
            node_steps(n, cmd, v, layout)
        } else {
            match (str_of(at(v, "pane"@)), at(v, "args"@)) {
                (Some(pane), JsonV::Arr(args)) => if allowed_commands().contains(cmd) {
                    send_if_connected(n, pane, player_command(seq![JsonV::Str(cmd)] + args))
                } else {
                    Seq::empty()
                },
                _ => Seq::empty(),
            }
        },
        None => Seq::empty(),
    }
}

/// The layout that a client's message needs read: the one it names, or the current
/// one where it starts panes.
pub open spec fn wanted_layout_of(n: NodeV, v: JsonV) -> Option<Seq<char>> {
    match str_of(at(v, "command"@)) {
        Some(cmd) => if cmd == "panebot:layout"@ {
            str_of(at(v, "layout_name"@))
        } else if cmd == "panebot:restart-all"@ || cmd == "panebot:restart-pane"@ || cmd
            == "panebot:clone-pane"@ {
            Some(n.layout)
        } else {
            None
        },
        None => None,
    }
}

/// The layout that a client's message needs read.
pub fn wanted_layout(v: &Json, node: &Node) -> (r: Option<String>)
    ensures
        opt(r) == wanted_layout_of(node.view(), v.view()),
{
    match v.str_at("command") {
        Some(cmd) => if same(cmd.as_str(), "panebot:layout") {
            v.str_at("layout_name")
        } else if same(cmd.as_str(), "panebot:restart-all") || same(
            cmd.as_str(),
            "panebot:restart-pane",
        ) || same(cmd.as_str(), "panebot:clone-pane") {
            Some(node.layout.clone())
        } else {
            None
        },
        None => None,
    }
}

/// The command that is forwarded to a player.
fn forwarded(cmd: &str, args: &Vec<Json>) -> (r: Json)
    ensures
        r.view() == player_command(seq![JsonV::Str(cmd@)] + jsons(args@)),
{
    let mut v: Vec<Json> = vec![Json::string(cmd)];
    for i in 0..args.len()
        invariant
            v.len() == i + 1,
            v@[0].view() == JsonV::Str(cmd@),
            forall|k: int| 0 <= k < i ==> (#[trigger] v@[k + 1]).view() == args@[k].view(),
    {
        let ghost before = v@;
        v.push(args[i].copy());
        assert forall|k: int| 0 <= k < i + 1 implies (#[trigger] v@[k + 1]).view()
            == args@[k].view() by {
            if k < i {
                assert(v@[k + 1] == before[k + 1]);
            }
        }
    }
    proof {
        let want = seq![JsonV::Str(cmd@)] + jsons(args@);
        assert forall|k: int| 0 <= k < want.len() implies jsons(v@)[k] == want[k] by {
            if k > 0 {
                assert(v@[(k - 1) + 1].view() == args@[k - 1].view());
            }
        }
        assert(jsons(v@) =~= want);
    }
    obj1("command", Json::Arr(v))
}

/// The steps of a client's message.
pub fn command_message_steps(v: &Json, node: &Node, layout: &Option<Layout>) -> (r: Vec<Step>)
    requires
        layout matches Some(l) ==> l.wf(),
    ensures
        step_views(r@) == command_steps(node.view(), v.view(), *layout),
{
    let cmd: String = match v.str_at("command") {
        Some(c) => c,
        None => return nothing(),
    };
    if starts_with(cmd.as_str(), "panebot:") || same(cmd.as_str(), "playlist-get") {
        return handle_node_command(cmd.as_str(), v, node, layout);
    }
    let pane: String = match v.str_at("pane") {
        Some(p) => p,
        None => return nothing(),
    };
    let args: &Vec<Json> = match v.get("args") {
        Some(a) => match a.as_array() {
            Some(x) => x,
            None => return nothing(),
        },
        None => return nothing(),
    };
    if !is_allowed(cmd.as_str()) {
        return nothing();
    }
    send_one(node, pane.as_str(), forwarded(cmd.as_str(), args))
}

/// The steps of a client's text; one that is no JSON does nothing.
pub fn handle_command(text: &str, node: &Node, layout: &Option<Layout>) -> (r: Vec<Step>)
    requires
        layout matches Some(l) ==> l.wf(),
    ensures
        step_views(r@) == (match parsed(text@) {
            Some(v) => command_steps(node.view(), v, *layout),
            None => Seq::empty(),
        }),
{
    match Json::parse(text) {
        Some(v) => command_message_steps(&v, node, layout),
        None => nothing(),
    }
}

// ---------------------------------------------------------------------------
// Laws
// ---------------------------------------------------------------------------

/// A command that is neither the daemon's own nor allowed for players has no effect.
pub proof fn refused_commands_do_nothing(n: NodeV, v: JsonV, layout: Option<Layout>, cmd: Seq<char>)
    requires
        str_of(at(v, "command"@)) == Some(cmd),
        !is_node_command(cmd),
        !allowed_commands().contains(cmd),
    ensures
        command_steps(n, v, layout) == Seq::<StepV>::empty(),
{
}

/// A command for a player reaches the pane that it names and no other, as the
/// command's name followed by its arguments; where that player is not connected it
/// reaches nobody.
pub proof fn player_commands_reach_only_their_pane(
    n: NodeV,
    v: JsonV,
    layout: Option<Layout>,
    cmd: Seq<char>,
    pane: Seq<char>,
    args: Seq<JsonV>,
)
    requires
        str_of(at(v, "command"@)) == Some(cmd),
        str_of(at(v, "pane"@)) == Some(pane),
        at(v, "args"@) == JsonV::Arr(args),
        !is_node_command(cmd),
        allowed_commands().contains(cmd),
    ensures
        command_steps(n, v, layout) == (if n.connected.contains(pane) {
            seq![
                StepV::Send { pane, message: player_command(seq![JsonV::Str(cmd)] + args) },
            ]
        } else {
            Seq::<StepV>::empty()
        }),
{
}

/// A restart of all panes stops each before it starts any, and starts each of them
/// once, in order.
pub proof fn restart_stops_all_before_starting_any(n: NodeV, layout: Option<Layout>, i: int)
    requires
        0 <= i < n.panes.len(),
    ensures
        restart_steps(n, layout).len() == 2 * n.panes.len() + 1,
        restart_steps(n, layout)[i] == (StepV::Kill { pane: n.panes[i].mpv_name }),
        restart_steps(n, layout)[n.panes.len() as int] is Sleep,
        restart_steps(n, layout)[n.panes.len() + 1 + i] == launch_step(n, n.panes[i], layout),
{
}

/// Soloing a pane mutes every other connected pane, and the pane itself is unmuted
/// and set to play where it is connected. Nothing else is sent.
pub proof fn solo_mutes_the_others(connected: Seq<Seq<char>>, solo: Seq<char>)
    ensures
        forall|i: int|
            0 <= i < connected.len() && #[trigger] connected[i] != solo ==> solo_steps(
                connected,
                solo,
            ).contains(
                StepV::Send {
                    pane: connected[i],
                    message: set_property("mute"@, JsonV::Bool(true)),
                },
            ),
        connected.contains(solo) ==> solo_steps(connected, solo).contains(
            StepV::Send { pane: solo, message: set_property("mute"@, JsonV::Bool(false)) },
        ) && solo_steps(connected, solo).contains(
            StepV::Send { pane: solo, message: set_property("pause"@, JsonV::Bool(false)) },
        ),
        forall|k: int|
            0 <= k < solo_steps(connected, solo).len() ==> {
                let s = #[trigger] solo_steps(connected, solo)[k];
                &&& s is Send
                &&& s->Send_pane != solo ==> s->Send_message == set_property(
                    "mute"@,
                    JsonV::Bool(true),
                )
                &&& s->Send_pane == solo ==> s->Send_message == set_property(
                    "mute"@,
                    JsonV::Bool(false),
                ) || s->Send_message == set_property("pause"@, JsonV::Bool(false))
            },
    decreases connected.len(),
{
    if connected.len() > 0 {
        let pane = connected.last();
        let front = connected.drop_last();
        solo_mutes_the_others(front, solo);
        let before = solo_steps(front, solo);
        let all = solo_steps(connected, solo);
        assert forall|k: int| 0 <= k < before.len() implies all[k] == before[k] by {}
        let muted = StepV::Send { pane, message: set_property("mute"@, JsonV::Bool(true)) };
        let heard = StepV::Send { pane, message: set_property("mute"@, JsonV::Bool(false)) };
        let plays = StepV::Send { pane, message: set_property("pause"@, JsonV::Bool(false)) };
        if pane == solo {
            assert(all[before.len() as int] == heard);
            assert(all[before.len() as int + 1] == plays);
        } else {
            assert(all[before.len() as int] == muted);
        }
        assert forall|i: int|
            0 <= i < connected.len() && #[trigger] connected[i] != solo implies all.contains(
            StepV::Send { pane: connected[i], message: set_property("mute"@, JsonV::Bool(true)) },
        ) by {
            if i < front.len() {
                assert(front[i] == connected[i]);
                let s = StepV::Send {
                    pane: connected[i],
                    message: set_property("mute"@, JsonV::Bool(true)),
                };
                let k = choose|k: int| 0 <= k < before.len() && before[k] == s;
                assert(all[k] == s);
            }
        }
        if connected.contains(solo) && pane != solo {
            let i = choose|i: int| 0 <= i < connected.len() && connected[i] == solo;
            assert(front[i] == solo);
            let a = StepV::Send { pane: solo, message: set_property("mute"@, JsonV::Bool(false)) };
            let b = StepV::Send { pane: solo, message: set_property("pause"@, JsonV::Bool(false)) };
            let ka = choose|k: int| 0 <= k < before.len() && before[k] == a;
            assert(all[ka] == a);
            let kb = choose|k: int| 0 <= k < before.len() && before[k] == b;
            assert(all[kb] == b);
        }
    }
}

/// Muting the others leaves the kept pane alone and mutes every other connected
/// pane.
pub proof fn mute_others_spares_one(connected: Seq<Seq<char>>, keep: Seq<char>)
    ensures
        forall|i: int|
            0 <= i < connected.len() && #[trigger] connected[i] != keep ==> mute_steps(
                connected,
                keep,
            ).contains(
                StepV::Send {
                    pane: connected[i],
                    message: set_property("mute"@, JsonV::Bool(true)),
                },
            ),
        forall|k: int|
            0 <= k < mute_steps(connected, keep).len() ==> {
                let s = #[trigger] mute_steps(connected, keep)[k];
                &&& s is Send
                &&& s->Send_pane != keep
                &&& s->Send_message == set_property("mute"@, JsonV::Bool(true))
            },
    decreases connected.len(),
{
    if connected.len() > 0 {
        let front = connected.drop_last();
        mute_others_spares_one(front, keep);
        let before = mute_steps(front, keep);
        let all = mute_steps(connected, keep);
        assert forall|k: int| 0 <= k < before.len() implies all[k] == before[k] by {}
        assert forall|i: int|
            0 <= i < connected.len() && #[trigger] connected[i] != keep implies all.contains(
            StepV::Send { pane: connected[i], message: set_property("mute"@, JsonV::Bool(true)) },
        ) by {
            let s = StepV::Send {
                pane: connected[i],
                message: set_property("mute"@, JsonV::Bool(true)),
            };
            if i < front.len() {
                assert(front[i] == connected[i]);
                let k = choose|k: int| 0 <= k < before.len() && before[k] == s;
                assert(all[k] == s);
            } else {
                assert(all[before.len() as int] == s);
            }
        }
    }
}

/// The name that a pane is shown under is for display alone: of what its player is
/// started with it changes the window's title and nothing else.
pub proof fn shown_names_are_for_display(
    config: Seq<char>,
    p: PaneV,
    shown: Seq<char>,
    geometry: Option<Seq<char>>,
    macos: bool,
    i: int,
)
    requires
        0 <= i < launch_args_of(config, p, geometry, macos).len(),
        i != 1,
    ensures
        launch_args_of(config, PaneV { pane_name: shown, ..p }, geometry, macos).len()
            == launch_args_of(config, p, geometry, macos).len(),
        launch_args_of(config, PaneV { pane_name: shown, ..p }, geometry, macos)[i]
            == launch_args_of(config, p, geometry, macos)[i],
        launch_args_of(config, p, geometry, macos)[1] == "--title="@ + uppercase(p.pane_name),
{
}

/// Away from macOS a layout does not change what a player is started with.
pub proof fn geometry_is_for_macos(config: Seq<char>, p: PaneV, geometry: Option<Seq<char>>)
    ensures
        launch_args_of(config, p, geometry, false) == launch_args_of(config, p, None, false),
{
}

} // verus!
