//! What the daemon does for each of its commands.
use crate::config::{Layout, Pane, PaneV};
use crate::daemon::{
    all_states_json, command_message_steps, handle_command, is_node_command, launch_for,
    launch_step, mute_steps, pane_index, solo_steps, step_views, volume_of, wanted_layout, Node,
    NodeV, Step, StepV,
};
use crate::json::{at, double_of, entries_map, obj, parsed, str_of, Json, JsonV, NumV};
use crate::manage::{pane_lost, panes_text_of};
use crate::paths::pane_file_of;
use crate::protocol::{state_json, PaneStateV};
use crate::text::{opt, strs, uppercase};
use vstd::prelude::*;

verus! {

// ---------------------------------------------------------------------------
// Names
// ---------------------------------------------------------------------------

pub proof fn lemma_obj_one(a: Seq<char>, x: JsonV)
    ensures
        obj(seq![(a, x)]) == JsonV::Obj(map![a => x]),
{
    reveal_with_fuel(entries_map, 3);
    let e = seq![(a, x)];
    assert(e.drop_last() =~= Seq::empty());
    assert(entries_map(e) =~= map![a => x]);
}

pub proof fn lemma_obj_two(a: Seq<char>, x: JsonV, b: Seq<char>, y: JsonV)
    ensures
        obj(seq![(a, x), (b, y)]) == JsonV::Obj(map![a => x, b => y]),
{
    let e = seq![(a, x), (b, y)];
    lemma_obj_one(a, x);
    assert(e.drop_last() =~= seq![(a, x)]);
    assert(entries_map(e) =~= map![a => x, b => y]);
}

pub proof fn lemma_obj_three(
    a: Seq<char>,
    x: JsonV,
    b: Seq<char>,
    y: JsonV,
    c: Seq<char>,
    z: JsonV,
)
    ensures
        obj(seq![(a, x), (b, y), (c, z)]) == JsonV::Obj(map![a => x, b => y, c => z]),
{
    let e = seq![(a, x), (b, y), (c, z)];
    lemma_obj_two(a, x, b, y);
    assert(e.drop_last() =~= seq![(a, x), (b, y)]);
    assert(entries_map(e) =~= map![a => x, b => y, c => z]);
}

proof fn lemma_names_of_one_length()
    ensures
        "panebot:node-info"@.len() == 17 && "panebot:node-info"@[8] == 'n',
        "panebot:start-all"@.len() == 17 && "panebot:start-all"@[8] == 's',
        "panebot:stop-all"@.len() == 16 && "panebot:stop-all"@[9] == 't',
        "panebot:shutdown"@.len() == 16 && "panebot:shutdown"@[9] == 'h',
        "panebot:node-status"@.len() == 19 && "panebot:node-status"@[8] == 'n',
        "panebot:restart-all"@.len() == 19 && "panebot:restart-all"@[8] == 'r'
            && "panebot:restart-all"@[10] == 's',
        "panebot:mute-others"@.len() == 19 && "panebot:mute-others"@[8] == 'm',
        "panebot:swap-volume"@.len() == 19 && "panebot:swap-volume"@[8] == 's',
        "panebot:remove-pane"@.len() == 19 && "panebot:remove-pane"@[8] == 'r'
            && "panebot:remove-pane"@[10] == 'm',
        "panebot:restart-pane"@.len() == 20 && "panebot:restart-pane"@[8] == 'r',
        "panebot:playlist-get"@.len() == 20 && "panebot:playlist-get"@[8] == 'p',
        "panebot:reload-playlist"@.len() == 23,
        "playlist-get"@.len() == 12 && "playlist-get"@[1] == 'l',
        "panebot:solo"@.len() == 12 && "panebot:solo"@[1] == 'a',
        "panebot:playlist-save"@.len() == 21 && "panebot:playlist-save"@[8] == 'p',
        "panebot:reload-config"@.len() == 21 && "panebot:reload-config"@[8] == 'r',
        "panebot:set-volume-all"@.len() == 22,
        "panebot:layout"@.len() == 14,
        "panebot:clone-pane"@.len() == 18,
{
    reveal_strlit("panebot:node-info");
    reveal_strlit("panebot:start-all");
    reveal_strlit("panebot:stop-all");
    reveal_strlit("panebot:shutdown");
    reveal_strlit("panebot:node-status");
    reveal_strlit("panebot:restart-all");
    reveal_strlit("panebot:mute-others");
    reveal_strlit("panebot:swap-volume");
    reveal_strlit("panebot:remove-pane");
    reveal_strlit("panebot:restart-pane");
    reveal_strlit("panebot:playlist-get");
    reveal_strlit("panebot:reload-playlist");
    reveal_strlit("playlist-get");
    reveal_strlit("panebot:solo");
    reveal_strlit("panebot:playlist-save");
    reveal_strlit("panebot:reload-config");
    reveal_strlit("panebot:set-volume-all");
    reveal_strlit("panebot:layout");
    reveal_strlit("panebot:clone-pane");
}

proof fn lemma_names_are_the_daemons()
    ensures
        is_node_command("panebot:node-info"@),
        is_node_command("panebot:start-all"@),
        is_node_command("panebot:stop-all"@),
        is_node_command("panebot:shutdown"@),
        is_node_command("panebot:node-status"@),
        is_node_command("panebot:restart-all"@),
        is_node_command("panebot:mute-others"@),
        is_node_command("panebot:swap-volume"@),
        is_node_command("panebot:remove-pane"@),
        is_node_command("panebot:restart-pane"@),
        is_node_command("panebot:playlist-get"@),
        is_node_command("panebot:reload-playlist"@),
        is_node_command("playlist-get"@),
        is_node_command("panebot:solo"@),
        is_node_command("panebot:playlist-save"@),
        is_node_command("panebot:reload-config"@),
        is_node_command("panebot:set-volume-all"@),
        is_node_command("panebot:layout"@),
        is_node_command("panebot:clone-pane"@),
{
    reveal_strlit("panebot:");
    reveal_strlit("panebot:node-info");
    reveal_strlit("panebot:start-all");
    reveal_strlit("panebot:stop-all");
    reveal_strlit("panebot:shutdown");
    reveal_strlit("panebot:node-status");
    reveal_strlit("panebot:restart-all");
    reveal_strlit("panebot:mute-others");
    reveal_strlit("panebot:swap-volume");
    reveal_strlit("panebot:remove-pane");
    reveal_strlit("panebot:restart-pane");
    reveal_strlit("panebot:playlist-get");
    reveal_strlit("panebot:reload-playlist");
    reveal_strlit("panebot:solo");
    reveal_strlit("panebot:playlist-save");
    reveal_strlit("panebot:reload-config");
    reveal_strlit("panebot:set-volume-all");
    reveal_strlit("panebot:layout");
    reveal_strlit("panebot:clone-pane");
}

/// Whether a message of a client asks the daemon for this.
pub open spec fn asks(v: JsonV, cmd: Seq<char>) -> bool {
    at(v, "command"@) == JsonV::Str(cmd)
}

// ---------------------------------------------------------------------------
// All players at once
// ---------------------------------------------------------------------------

/// Stopping all panes sends each connected player, once and in order, the player's own
/// command to stop, and does nothing else: no player ends.
pub proof fn stop_all_stops_every_player(
    v: &Json,
    node: &Node,
    layout: &Option<Layout>,
    r: Vec<Step>,
)
    requires
        asks(v.view(), "panebot:stop-all"@),
        call_ensures(command_message_steps, (v, node, layout), r),
    ensures
        step_views(r@) == Seq::new(
            node.connected@.len(),
            |i: int|
                StepV::Send {
                    pane: node.connected@[i]@,
                    message: JsonV::Obj(
                        map!["command"@ => JsonV::Arr(seq![JsonV::Str("stop"@)])],
                    ),
                },
        ),
{
    lemma_names_of_one_length();
    lemma_names_are_the_daemons();
    lemma_obj_one("command"@, JsonV::Arr(seq![JsonV::Str("stop"@)]));
    assert(step_views(r@) =~= Seq::new(
        node.connected@.len(),
        |i: int|
            StepV::Send {
                pane: node.connected@[i]@,
                message: JsonV::Obj(map!["command"@ => JsonV::Arr(seq![JsonV::Str("stop"@)])]),
            },
    ));
}

/// The message by which a player is told to give a property a value.
pub open spec fn sets(name: Seq<char>, value: JsonV) -> JsonV {
    JsonV::Obj(
        map!["command"@ => JsonV::Arr(seq![JsonV::Str("set_property"@), JsonV::Str(name), value])],
    )
}

pub proof fn lemma_sets(name: Seq<char>, value: JsonV)
    ensures
        crate::daemon::set_property(name, value) == sets(name, value),
{
    lemma_obj_one(
        "command"@,
        JsonV::Arr(seq![JsonV::Str("set_property"@), JsonV::Str(name), value]),
    );
}

/// Starting all panes lets each connected player go on, once and in order, and does
/// nothing else.
pub proof fn start_all_unpauses_every_player(
    v: &Json,
    node: &Node,
    layout: &Option<Layout>,
    r: Vec<Step>,
)
    requires
        asks(v.view(), "panebot:start-all"@),
        call_ensures(command_message_steps, (v, node, layout), r),
    ensures
        step_views(r@) == Seq::new(
            node.connected@.len(),
            |i: int|
                StepV::Send {
                    pane: node.connected@[i]@,
                    message: sets("pause"@, JsonV::Bool(false)),
                },
        ),
{
    lemma_names_of_one_length();
    lemma_names_are_the_daemons();
    lemma_sets("pause"@, JsonV::Bool(false));
    assert(step_views(r@) =~= Seq::new(
        node.connected@.len(),
        |i: int|
            StepV::Send {
                pane: node.connected@[i]@,
                message: sets("pause"@, JsonV::Bool(false)),
            },
    ));
}

/// A volume for all panes is set on each connected player, once and in order; without a
/// number nothing is.
pub proof fn one_volume_for_every_player(
    v: &Json,
    node: &Node,
    layout: &Option<Layout>,
    r: Vec<Step>,
)
    requires
        asks(v.view(), "panebot:set-volume-all"@),
        call_ensures(command_message_steps, (v, node, layout), r),
    ensures
        match double_of(at(v.view(), "volume"@)) {
            Some(d) => step_views(r@) == Seq::new(
                node.connected@.len(),
                |i: int|
                    StepV::Send {
                        pane: node.connected@[i]@,
                        message: sets("volume"@, JsonV::Num(NumV::Float(d))),
                    },
            ),
            None => r@.len() == 0,
        },
{
    lemma_names_of_one_length();
    lemma_names_are_the_daemons();
    assert(step_views(r@).len() == r@.len());
    if let Some(d) = double_of(at(v.view(), "volume"@)) {
        lemma_sets("volume"@, JsonV::Num(NumV::Float(d)));
        assert(step_views(r@) =~= Seq::new(
            node.connected@.len(),
            |i: int|
                StepV::Send {
                    pane: node.connected@[i]@,
                    message: sets("volume"@, JsonV::Num(NumV::Float(d))),
                },
        ));
    }
}

/// What one connected player is told when the pane `solo` is to be heard alone.
pub open spec fn told_for_solo(pane: Seq<char>, solo: Seq<char>) -> Seq<StepV> {
    if pane == solo {
        seq![
            StepV::Send { pane, message: sets("mute"@, JsonV::Bool(false)) },
            StepV::Send { pane, message: sets("pause"@, JsonV::Bool(false)) },
        ]
    } else {
        seq![StepV::Send { pane, message: sets("mute"@, JsonV::Bool(true)) }]
    }
}

/// A soloed pane is unmuted and goes on, every other connected pane is muted, in the
/// order of the connected panes, and nothing else is sent.
pub proof fn solo_is_heard_alone(
    v: &Json,
    node: &Node,
    layout: &Option<Layout>,
    r: Vec<Step>,
    solo: Seq<char>,
)
    requires
        asks(v.view(), "panebot:solo"@),
        at(v.view(), "pane"@) == JsonV::Str(solo),
        call_ensures(command_message_steps, (v, node, layout), r),
    ensures
        step_views(r@) == Seq::new(
            node.connected@.len(),
            |i: int| told_for_solo(node.connected@[i]@, solo),
        ).flatten(),
{
    lemma_names_of_one_length();
    lemma_names_are_the_daemons();
    lemma_solo(node.view().connected, solo);
    assert(Seq::new(node.connected@.len(), |i: int| told_for_solo(node.connected@[i]@, solo))
        =~= Seq::new(
        node.view().connected.len(),
        |i: int| told_for_solo(node.view().connected[i], solo),
    ));
}

proof fn lemma_solo(connected: Seq<Seq<char>>, solo: Seq<char>)
    ensures
        solo_steps(connected, solo) == Seq::new(
            connected.len(),
            |i: int| told_for_solo(connected[i], solo),
        ).flatten(),
    decreases connected.len(),
{
    let parts = Seq::new(connected.len(), |i: int| told_for_solo(connected[i], solo));
    if connected.len() > 0 {
        let front = connected.drop_last();
        let before = Seq::new(front.len(), |i: int| told_for_solo(front[i], solo));
        lemma_solo(front, solo);
        lemma_sets("mute"@, JsonV::Bool(false));
        lemma_sets("mute"@, JsonV::Bool(true));
        lemma_sets("pause"@, JsonV::Bool(false));
        assert(parts =~= before.push(told_for_solo(connected.last(), solo)));
        before.lemma_flatten_push(told_for_solo(connected.last(), solo));
        assert(solo_steps(connected, solo) =~= solo_steps(front, solo) + told_for_solo(
            connected.last(),
            solo,
        ));
    } else {
        assert(parts =~= Seq::empty());
    }
}

/// Muting the others mutes each connected pane but the named one, in order, and sends
/// nothing else.
pub proof fn only_the_others_are_muted(
    v: &Json,
    node: &Node,
    layout: &Option<Layout>,
    r: Vec<Step>,
    keep: Seq<char>,
)
    requires
        asks(v.view(), "panebot:mute-others"@),
        at(v.view(), "pane"@) == JsonV::Str(keep),
        call_ensures(command_message_steps, (v, node, layout), r),
    ensures
        step_views(r@) == strs(node.connected@).filter(|p: Seq<char>| p != keep).map_values(
            |p: Seq<char>|
                StepV::Send { pane: p, message: sets("mute"@, JsonV::Bool(true)) },
        ),
{
    lemma_names_of_one_length();
    lemma_names_are_the_daemons();
    lemma_mute(node.view().connected, keep);
}

proof fn lemma_mute(connected: Seq<Seq<char>>, keep: Seq<char>)
    ensures
        mute_steps(connected, keep) == connected.filter(|p: Seq<char>| p != keep).map_values(
            |p: Seq<char>|
                StepV::Send { pane: p, message: sets("mute"@, JsonV::Bool(true)) },
        ),
    decreases connected.len(),
{
    reveal(Seq::filter);
    lemma_sets("mute"@, JsonV::Bool(true));
    let others = connected.filter(|p: Seq<char>| p != keep);
    let f = |p: Seq<char>| StepV::Send { pane: p, message: sets("mute"@, JsonV::Bool(true)) };
    if connected.len() > 0 {
        lemma_mute(connected.drop_last(), keep);
        let before = connected.drop_last().filter(|p: Seq<char>| p != keep);
        if connected.last() != keep {
            assert(others.map_values(f) =~= before.map_values(f).push(f(connected.last())));
        }
    } else {
        assert(others.map_values(f) =~= Seq::empty());
    }
}

// ---------------------------------------------------------------------------
// Volumes
// ---------------------------------------------------------------------------

/// The pane that is first known under a name counts.
proof fn lemma_volume_of(states: Seq<PaneStateV>, name: Seq<char>, i: int, d: u64)
    requires
        0 <= i < states.len(),
        states[i].mpv_name == name,
        states[i].volume == Some(d),
        forall|j: int| 0 <= j < i ==> (#[trigger] states[j]).mpv_name != name,
    ensures
        volume_of(states, name) == d,
    decreases states.len(),
{
    if i > 0 {
        assert(states[0].mpv_name != name);
        let rest = states.skip(1);
        assert(rest[i - 1] == states[i]);
        assert forall|j: int| 0 <= j < i - 1 implies (#[trigger] rest[j]).mpv_name != name by {
            assert(rest[j] == states[j + 1]);
        }
        lemma_volume_of(rest, name, i - 1, d);
    }
}

/// Swapping the volumes of two connected panes gives each the volume that the other is
/// known to have.
pub proof fn volumes_change_places(
    v: &Json,
    node: &Node,
    layout: &Option<Layout>,
    r: Vec<Step>,
    i: int,
    j: int,
    da: u64,
    db: u64,
)
    requires
        asks(v.view(), "panebot:swap-volume"@),
        0 <= i < node.states@.len(),
        0 <= j < node.states@.len(),
        at(v.view(), "pane_a"@) == JsonV::Str(node.states@[i].mpv_name@),
        at(v.view(), "pane_b"@) == JsonV::Str(node.states@[j].mpv_name@),
        node.states@[i].view().volume == Some(da),
        node.states@[j].view().volume == Some(db),
        forall|k: int, l: int|
            0 <= k < l < node.states@.len() ==> (#[trigger] node.states@[k]).mpv_name@ != (
            #[trigger] node.states@[l]).mpv_name@,
        strs(node.connected@).contains(node.states@[i].mpv_name@),
        strs(node.connected@).contains(node.states@[j].mpv_name@),
        call_ensures(command_message_steps, (v, node, layout), r),
    ensures
        step_views(r@) == seq![
            StepV::Send {
                pane: node.states@[i].mpv_name@,
                message: sets("volume"@, JsonV::Num(NumV::Float(db))),
            },
            StepV::Send {
                pane: node.states@[j].mpv_name@,
                message: sets("volume"@, JsonV::Num(NumV::Float(da))),
            },
        ],
{
    lemma_names_of_one_length();
    lemma_names_are_the_daemons();
    let states = node.view().states;
    let a = node.states@[i].mpv_name@;
    let b = node.states@[j].mpv_name@;
    assert forall|k: int| 0 <= k < i implies (#[trigger] states[k]).mpv_name != a by {
        assert(node.states@[k].mpv_name@ != node.states@[i].mpv_name@);
    }
    assert forall|k: int| 0 <= k < j implies (#[trigger] states[k]).mpv_name != b by {
        assert(node.states@[k].mpv_name@ != node.states@[j].mpv_name@);
    }
    lemma_volume_of(states, a, i, da);
    lemma_volume_of(states, b, j, db);
    lemma_sets("volume"@, JsonV::Num(NumV::Float(da)));
    lemma_sets("volume"@, JsonV::Num(NumV::Float(db)));
    assert(step_views(r@) =~= seq![
        StepV::Send { pane: a, message: sets("volume"@, JsonV::Num(NumV::Float(db))) },
        StepV::Send { pane: b, message: sets("volume"@, JsonV::Num(NumV::Float(da))) },
    ]);
}

/// Of two panes whose volumes are swapped only those that are connected are told anything,
/// each at most once.
pub proof fn only_connected_panes_swap(
    v: &Json,
    node: &Node,
    layout: &Option<Layout>,
    r: Vec<Step>,
    a: Seq<char>,
    b: Seq<char>,
    i: int,
)
    requires
        asks(v.view(), "panebot:swap-volume"@),
        at(v.view(), "pane_a"@) == JsonV::Str(a),
        at(v.view(), "pane_b"@) == JsonV::Str(b),
        call_ensures(command_message_steps, (v, node, layout), r),
    ensures
        r@.len() == (if strs(node.connected@).contains(a) {
            1int
        } else {
            0
        }) + (if strs(node.connected@).contains(b) {
            1int
        } else {
            0
        }),
        0 <= i < r@.len() ==> r@[i].view() is Send && strs(node.connected@).contains(
            r@[i].view()->Send_pane,
        ) && (r@[i].view()->Send_pane == a || r@[i].view()->Send_pane == b),
{
    lemma_names_of_one_length();
    lemma_names_are_the_daemons();
    let all = step_views(r@);
    assert(all.len() == r@.len());
    if 0 <= i < r@.len() {
        assert(all[i] == r@[i].view());
    }
}

// ---------------------------------------------------------------------------
// Playlists
// ---------------------------------------------------------------------------

/// Loading a playlist anew hands the player of the named pane, where it is connected, the
/// playlist file of that pane, in place of what it plays.
pub proof fn reload_loads_the_own_playlist(
    v: &Json,
    node: &Node,
    layout: &Option<Layout>,
    r: Vec<Step>,
    pane: Seq<char>,
)
    requires
        asks(v.view(), "panebot:reload-playlist"@),
        at(v.view(), "pane"@) == JsonV::Str(pane),
        call_ensures(command_message_steps, (v, node, layout), r),
    ensures
        step_views(r@) == (if strs(node.connected@).contains(pane) {
            seq![
                StepV::Send {
                    pane,
                    message: JsonV::Obj(
                        map!["command"@ => JsonV::Arr(
                            seq![
                                JsonV::Str("loadlist"@),
                                JsonV::Str(pane_file_of(node.config@, pane, ".m3u"@)),
                                JsonV::Str("replace"@),
                            ],
                        )],
                    ),
                },
            ]
        } else {
            Seq::empty()
        }),
{
    lemma_names_of_one_length();
    lemma_names_are_the_daemons();
    lemma_obj_one(
        "command"@,
        JsonV::Arr(
            seq![
                JsonV::Str("loadlist"@),
                JsonV::Str(pane_file_of(node.config@, pane, ".m3u"@)),
                JsonV::Str("replace"@),
            ],
        ),
    );
}

/// A playlist is asked of the player of the named pane, where it is connected, and of no
/// other; both names of the command do the same.
pub proof fn playlists_are_asked_of_the_player(
    v: &Json,
    node: &Node,
    layout: &Option<Layout>,
    r: Vec<Step>,
    pane: Seq<char>,
)
    requires
        asks(v.view(), "panebot:playlist-get"@) || asks(v.view(), "playlist-get"@),
        at(v.view(), "pane"@) == JsonV::Str(pane),
        call_ensures(command_message_steps, (v, node, layout), r),
    ensures
        step_views(r@) == (if strs(node.connected@).contains(pane) {
            seq![
                StepV::Send {
                    pane,
                    message: JsonV::Obj(
                        map!["command"@ => JsonV::Arr(
                            seq![JsonV::Str("get_property"@), JsonV::Str("playlist"@)],
                        )],
                    ),
                },
            ]
        } else {
            Seq::empty()
        }),
{
    lemma_names_of_one_length();
    lemma_names_are_the_daemons();
    lemma_obj_one(
        "command"@,
        JsonV::Arr(seq![JsonV::Str("get_property"@), JsonV::Str("playlist"@)]),
    );
}

/// A playlist is saved from the player of the named pane to the named file, and then the
/// clients are told which pane and which file; a player that is not connected saves
/// nothing.
pub proof fn playlists_are_saved_where_asked(
    v: &Json,
    node: &Node,
    layout: &Option<Layout>,
    r: Vec<Step>,
    pane: Seq<char>,
    path: Seq<char>,
)
    requires
        asks(v.view(), "panebot:playlist-save"@),
        at(v.view(), "pane"@) == JsonV::Str(pane),
        at(v.view(), "path"@) == JsonV::Str(path),
        call_ensures(command_message_steps, (v, node, layout), r),
    ensures
        step_views(r@) == (if strs(node.connected@).contains(pane) {
            seq![
                StepV::Save { pane, path },
                StepV::Broadcast {
                    message: JsonV::Obj(
                        map![
                            "event"@ => JsonV::Str("node:playlist-saved"@),
                            "pane"@ => JsonV::Str(pane),
                            "path"@ => JsonV::Str(path),
                        ],
                    ),
                },
            ]
        } else {
            Seq::empty()
        }),
{
    lemma_names_of_one_length();
    lemma_names_are_the_daemons();
    lemma_obj_three(
        "event"@,
        JsonV::Str("node:playlist-saved"@),
        "pane"@,
        JsonV::Str(pane),
        "path"@,
        JsonV::Str(path),
    );
}

/// A command about one pane that names none does nothing.
pub proof fn commands_need_their_pane(
    v: &Json,
    node: &Node,
    layout: &Option<Layout>,
    r: Vec<Step>,
)
    requires
        str_of(at(v.view(), "pane"@)) is None,
        asks(v.view(), "panebot:restart-pane"@) || asks(v.view(), "panebot:reload-playlist"@)
            || asks(v.view(), "panebot:playlist-get"@) || asks(v.view(), "playlist-get"@) || asks(
            v.view(),
            "panebot:playlist-save"@,
        ) || asks(v.view(), "panebot:solo"@) || asks(v.view(), "panebot:mute-others"@) || asks(
            v.view(),
            "panebot:clone-pane"@,
        ) || asks(v.view(), "panebot:remove-pane"@),
        call_ensures(command_message_steps, (v, node, layout), r),
    ensures
        r@.len() == 0,
{
    lemma_names_of_one_length();
    lemma_names_are_the_daemons();
    assert(step_views(r@).len() == r@.len());
}

// ---------------------------------------------------------------------------
// The node itself
// ---------------------------------------------------------------------------

/// Whoever asks for the node's information, every client is told its name, its platform
/// and how its panes stand, and nothing is done to a pane.
pub proof fn information_is_told_to_all(
    v: &Json,
    node: &Node,
    layout: &Option<Layout>,
    r: Vec<Step>,
)
    requires
        asks(v.view(), "panebot:node-info"@),
        call_ensures(command_message_steps, (v, node, layout), r),
    ensures
        step_views(r@) == seq![
            StepV::Broadcast {
                message: JsonV::Obj(
                    map![
                        "event"@ => JsonV::Str("node:info"@),
                        "hostname"@ => JsonV::Str(node.hostname@),
                        "platform"@ => JsonV::Str(node.platform@),
                        "panes"@ => JsonV::Arr(
                            Seq::new(
                                node.states@.len(),
                                |i: int| state_json(node.states@[i].view()),
                            ),
                        ),
                    ],
                ),
            },
        ],
{
    lemma_names_of_one_length();
    lemma_names_are_the_daemons();
    let panes = all_states_json(node.view().states);
    let e = seq![
        ("event"@, JsonV::Str("node:info"@)),
        ("hostname"@, JsonV::Str(node.hostname@)),
        ("platform"@, JsonV::Str(node.platform@)),
        ("panes"@, panes),
    ];
    lemma_obj_three(
        "event"@,
        JsonV::Str("node:info"@),
        "hostname"@,
        JsonV::Str(node.hostname@),
        "platform"@,
        JsonV::Str(node.platform@),
    );
    assert(e.drop_last() =~= seq![
        ("event"@, JsonV::Str("node:info"@)),
        ("hostname"@, JsonV::Str(node.hostname@)),
        ("platform"@, JsonV::Str(node.platform@)),
    ]);
    lemma_all_states(node);
}

proof fn lemma_all_states(node: &Node)
    ensures
        all_states_json(node.view().states) == JsonV::Arr(
            Seq::new(node.states@.len(), |i: int| state_json(node.states@[i].view())),
        ),
{
    assert(Seq::new(
        node.view().states.len(),
        |i: int| state_json(node.view().states[i]),
    ) =~= Seq::new(node.states@.len(), |i: int| state_json(node.states@[i].view())));
}

/// Whoever asks how the panes stand, every client is told, and nothing is done to a pane.
pub proof fn status_is_told_to_all(
    v: &Json,
    node: &Node,
    layout: &Option<Layout>,
    r: Vec<Step>,
)
    requires
        asks(v.view(), "panebot:node-status"@),
        call_ensures(command_message_steps, (v, node, layout), r),
    ensures
        step_views(r@) == seq![
            StepV::Broadcast {
                message: JsonV::Obj(
                    map![
                        "event"@ => JsonV::Str("node:status"@),
                        "panes"@ => JsonV::Arr(
                            Seq::new(
                                node.states@.len(),
                                |i: int| state_json(node.states@[i].view()),
                            ),
                        ),
                    ],
                ),
            },
        ],
{
    lemma_names_of_one_length();
    lemma_names_are_the_daemons();
    lemma_obj_two(
        "event"@,
        JsonV::Str("node:status"@),
        "panes"@,
        all_states_json(node.view().states),
    );
    lemma_all_states(node);
}

/// A shutdown is announced before the daemon stops; between the two it waits half a
/// second. No player is touched.
pub proof fn shutdown_is_announced(
    v: &Json,
    node: &Node,
    layout: &Option<Layout>,
    r: Vec<Step>,
)
    requires
        asks(v.view(), "panebot:shutdown"@),
        call_ensures(command_message_steps, (v, node, layout), r),
    ensures
        step_views(r@) == seq![
            StepV::Broadcast {
                message: JsonV::Obj(
                    map![
                        "event"@ => JsonV::Str("node:down"@),
                        "reason"@ => JsonV::Str("admin"@),
                    ],
                ),
            },
            StepV::Sleep { ms: 500 },
            StepV::Shutdown,
        ],
{
    lemma_names_of_one_length();
    lemma_names_are_the_daemons();
    lemma_obj_two("event"@, JsonV::Str("node:down"@), "reason"@, JsonV::Str("admin"@));
}

/// A request to read the configuration anew is answered, to every client, with the word
/// that this cannot be done; nothing else happens.
pub proof fn configuration_is_not_read_anew(
    v: &Json,
    node: &Node,
    layout: &Option<Layout>,
    r: Vec<Step>,
)
    requires
        asks(v.view(), "panebot:reload-config"@),
        call_ensures(command_message_steps, (v, node, layout), r),
    ensures
        step_views(r@) == seq![
            StepV::Broadcast {
                message: JsonV::Obj(
                    map![
                        "event"@ => JsonV::Str("node:reload-config"@),
                        "status"@ => JsonV::Str("not-yet-implemented"@),
                        "reason"@ => JsonV::Str("requires mutable shared pane list"@),
                    ],
                ),
            },
        ],
{
    lemma_names_of_one_length();
    lemma_names_are_the_daemons();
    lemma_obj_three(
        "event"@,
        JsonV::Str("node:reload-config"@),
        "status"@,
        JsonV::Str("not-yet-implemented"@),
        "reason"@,
        JsonV::Str("requires mutable shared pane list"@),
    );
}

/// A text that a client sends is taken as the message that it stands for; one that stands
/// for none does nothing.
pub proof fn texts_are_taken_as_messages(
    text: &str,
    node: &Node,
    layout: &Option<Layout>,
    r: Vec<Step>,
    v: &Json,
    q: Vec<Step>,
)
    requires
        call_ensures(handle_command, (text, node, layout), r),
        call_ensures(command_message_steps, (v, node, layout), q),
    ensures
        parsed(text@) == Some(v.view()) ==> step_views(r@) == step_views(q@),
        parsed(text@) is None ==> r@.len() == 0,
{
    assert(step_views(r@).len() == r@.len());
}

// ---------------------------------------------------------------------------
// Starting players
// ---------------------------------------------------------------------------

/// The layout has a section for the pane `name` that gives the geometry `g`.
pub open spec fn gives(layout: Option<Layout>, name: Seq<char>, g: Seq<char>) -> bool {
    layout matches Some(l) && exists|k: int|
        0 <= k < l.entries@.len() && (#[trigger] l.entries@[k]).0@ == name && opt(
            l.entries@[k].1.geometry,
        ) == Some(g)
}

/// The player of a pane is started: on the socket, with the configuration and with the
/// playlist of that pane, under the name that it is shown by, and with nothing more but
/// `placed`.
pub open spec fn starts(config: Seq<char>, p: PaneV, placed: Seq<Seq<char>>) -> StepV {
    StepV::Launch {
        pane: p.mpv_name,
        args: seq![
            "--input-ipc-server="@ + pane_file_of(config, p.mpv_name, ".sock"@),
            "--title="@ + uppercase(p.pane_name),
            "--include="@ + pane_file_of(config, p.mpv_name, ".mpv.conf"@),
            "--playlist="@ + (if p.playlist is Some {
                p.playlist->0
            } else {
                pane_file_of(config, p.mpv_name, ".m3u"@)
            }),
        ] + placed,
    }
}

/// How the player of a pane is started under a layout: on macOS a geometry that the
/// layout gives for the pane's own name is the last argument; elsewhere, and where it
/// gives none, nothing is added.
pub open spec fn starts_placed(n: NodeV, p: PaneV, layout: Option<Layout>, s: StepV) -> bool {
    &&& forall|g: Seq<char>|
        n.platform == "macos"@ && #[trigger] gives(layout, p.mpv_name, g) ==> s == starts(
            n.config,
            p,
            seq!["--geometry="@ + g],
        )
    &&& n.platform != "macos"@ ==> s == starts(n.config, p, Seq::empty())
    &&& (forall|g: Seq<char>| !#[trigger] gives(layout, p.mpv_name, g)) ==> s == starts(
        n.config,
        p,
        Seq::empty(),
    )
}

proof fn lemma_starts_placed(n: NodeV, p: PaneV, layout: Option<Layout>)
    requires
        layout matches Some(l) ==> l.wf(),
    ensures
        starts_placed(n, p, layout, launch_step(n, p, layout)),
{
    let s = launch_step(n, p, layout);
    let name = p.mpv_name;
    assert forall|g: Seq<char>|
        n.platform == "macos"@ && #[trigger] gives(layout, name, g) implies s == starts(
        n.config,
        p,
        seq!["--geometry="@ + g],
    ) by {
        let l = layout->0;
        let k = choose|k: int|
            0 <= k < l.entries@.len() && (#[trigger] l.entries@[k]).0@ == name && opt(
                l.entries@[k].1.geometry,
            ) == Some(g);
        let j = choose|j: int| 0 <= j < l.entries@.len() && (#[trigger] l.entries@[j]).0@ == name;
        assert(l.entries@[j].0@ == name);
        assert(j == k);
        assert(s->Launch_args =~= starts(n.config, p, seq!["--geometry="@ + g])->Launch_args);
    }
    if n.platform != "macos"@ {
        assert(s->Launch_args =~= starts(n.config, p, Seq::empty())->Launch_args);
    }
    if forall|g: Seq<char>| !#[trigger] gives(layout, name, g) {
        if let Some(l) = layout {
            if let Some(e) = l.entry(name) {
                let j = choose|j: int|
                    0 <= j < l.entries@.len() && (#[trigger] l.entries@[j]).0@ == name;
                assert(l.entries@[j].0@ == name);
                if let Some(g) = e.geometry {
                    assert(opt(l.entries@[j].1.geometry) == Some(g));
                    assert(gives(layout, name, g));
                }
            }
        }
        assert(s->Launch_args =~= starts(n.config, p, Seq::empty())->Launch_args);
    }
}

/// A player is started for its own pane, placed by the section that the layout has for
/// the pane's own name, whatever name the pane is shown under.
pub proof fn players_start_where_the_layout_says(
    node: &Node,
    p: &Pane,
    layout: &Option<Layout>,
    r: Step,
)
    requires
        *layout matches Some(l) ==> l.wf(),
        call_ensures(launch_for, (node, p, layout), r),
    ensures
        starts_placed(node.view(), p.view(), *layout, r.view()),
{
    lemma_starts_placed(node.view(), p.view(), *layout);
}

/// A layout switch takes the layout by its name, stops every pane, waits a second, starts
/// every pane again where the new layout puts it, and tells the clients.
pub proof fn a_layout_switch_places_every_pane(
    v: &Json,
    node: &Node,
    layout: &Option<Layout>,
    r: Vec<Step>,
    name: Seq<char>,
)
    requires
        asks(v.view(), "panebot:layout"@),
        at(v.view(), "layout_name"@) == JsonV::Str(name),
        *layout matches Some(l) && l.wf(),
        call_ensures(command_message_steps, (v, node, layout), r),
    ensures
        r@.len() == 2 * node.panes@.len() + 3,
        r@[0].view() == (StepV::SetLayout { name }),
        forall|i: int|
            0 <= i < node.panes@.len() ==> (#[trigger] r@[1 + i]).view() == (StepV::Kill {
                pane: node.panes@[i].mpv_name@,
            }),
        r@[1 + node.panes@.len() as int].view() == (StepV::Sleep { ms: 1000 }),
        forall|i: int|
            0 <= i < node.panes@.len() ==> starts_placed(
                node.view(),
                (#[trigger] node.panes@[i]).view(),
                *layout,
                r@[2 + node.panes@.len() + i].view(),
            ),
        r@[2 + 2 * node.panes@.len() as int].view() == (StepV::Broadcast {
            message: JsonV::Obj(
                map!["event"@ => JsonV::Str("node:layout"@), "layout"@ => JsonV::Str(name)],
            ),
        }),
{
    lemma_names_of_one_length();
    lemma_names_are_the_daemons();
    lemma_obj_two("event"@, JsonV::Str("node:layout"@), "layout"@, JsonV::Str(name));
    let n = node.view();
    let count = node.panes@.len() as int;
    let all = step_views(r@);
    assert(all.len() == r@.len());
    assert(n.panes.len() == count);
    assert(all[0] == r@[0].view());
    assert(all[1 + count] == r@[1 + count].view());
    assert(all[2 + 2 * count] == r@[2 + 2 * count].view());
    assert forall|i: int| 0 <= i < count implies (#[trigger] r@[1 + i]).view() == (StepV::Kill {
        pane: node.panes@[i].mpv_name@,
    }) by {
        assert(all[1 + i] == r@[1 + i].view());
    }
    assert forall|i: int| 0 <= i < count implies starts_placed(
        n,
        (#[trigger] node.panes@[i]).view(),
        *layout,
        r@[2 + count + i].view(),
    ) by {
        assert(all[2 + count + i] == r@[2 + count + i].view());
        lemma_starts_placed(n, n.panes[i], *layout);
    }
}

/// A switch to a layout that cannot be read, or that is not named, does nothing: no pane
/// is stopped.
pub proof fn unknown_layouts_stop_nothing(
    v: &Json,
    node: &Node,
    layout: &Option<Layout>,
    r: Vec<Step>,
)
    requires
        asks(v.view(), "panebot:layout"@),
        str_of(at(v.view(), "layout_name"@)) is None || *layout is None,
        call_ensures(command_message_steps, (v, node, layout), r),
    ensures
        r@.len() == 0,
{
    lemma_names_of_one_length();
    lemma_names_are_the_daemons();
    assert(step_views(r@).len() == r@.len());
}

/// A restart of all panes stops every pane, waits a second, starts every pane again where
/// the current layout puts it, and tells the clients.
pub proof fn a_restart_brings_every_pane_back(
    v: &Json,
    node: &Node,
    layout: &Option<Layout>,
    r: Vec<Step>,
)
    requires
        asks(v.view(), "panebot:restart-all"@),
        *layout matches Some(l) ==> l.wf(),
        call_ensures(command_message_steps, (v, node, layout), r),
    ensures
        r@.len() == 2 * node.panes@.len() + 2,
        forall|i: int|
            0 <= i < node.panes@.len() ==> (#[trigger] r@[i]).view() == (StepV::Kill {
                pane: node.panes@[i].mpv_name@,
            }),
        r@[node.panes@.len() as int].view() == (StepV::Sleep { ms: 1000 }),
        forall|i: int|
            0 <= i < node.panes@.len() ==> starts_placed(
                node.view(),
                (#[trigger] node.panes@[i]).view(),
                *layout,
                r@[1 + node.panes@.len() + i].view(),
            ),
        r@[1 + 2 * node.panes@.len() as int].view() == (StepV::Broadcast {
            message: JsonV::Obj(map!["event"@ => JsonV::Str("node:restart-all"@)]),
        }),
{
    lemma_names_of_one_length();
    lemma_names_are_the_daemons();
    lemma_obj_one("event"@, JsonV::Str("node:restart-all"@));
    let n = node.view();
    let count = node.panes@.len() as int;
    let all = step_views(r@);
    assert(all.len() == r@.len());
    assert(n.panes.len() == count);
    assert(all[count] == r@[count].view());
    assert(all[1 + 2 * count] == r@[1 + 2 * count].view());
    assert forall|i: int| 0 <= i < count implies (#[trigger] r@[i]).view() == (StepV::Kill {
        pane: node.panes@[i].mpv_name@,
    }) by {
        assert(all[i] == r@[i].view());
    }
    assert forall|i: int| 0 <= i < count implies starts_placed(
        n,
        (#[trigger] node.panes@[i]).view(),
        *layout,
        r@[1 + count + i].view(),
    ) by {
        assert(all[1 + count + i] == r@[1 + count + i].view());
        lemma_starts_placed(n, n.panes[i], *layout);
    }
}

proof fn lemma_pane_found(panes: Seq<PaneV>, name: Seq<char>, i: int)
    requires
        0 <= i < panes.len(),
        panes[i].mpv_name == name,
        forall|j: int| 0 <= j < i ==> (#[trigger] panes[j]).mpv_name != name,
    ensures
        pane_index(panes, name) == i,
    decreases panes.len(),
{
    if i > 0 {
        assert(panes[0].mpv_name != name);
        let rest = panes.skip(1);
        assert(rest[i - 1] == panes[i]);
        assert forall|j: int| 0 <= j < i - 1 implies (#[trigger] rest[j]).mpv_name != name by {
            assert(rest[j] == panes[j + 1]);
        }
        lemma_pane_found(rest, name, i - 1);
    }
}

proof fn lemma_pane_missing(panes: Seq<PaneV>, name: Seq<char>)
    requires
        forall|j: int| 0 <= j < panes.len() ==> (#[trigger] panes[j]).mpv_name != name,
    ensures
        pane_index(panes, name) == panes.len(),
    decreases panes.len(),
{
    if panes.len() > 0 {
        assert(panes[0].mpv_name != name);
        let rest = panes.skip(1);
        assert forall|j: int| 0 <= j < rest.len() implies (#[trigger] rest[j]).mpv_name != name by {
            assert(rest[j] == panes[j + 1]);
        }
        lemma_pane_missing(rest, name);
    }
}

/// The pane at `i` is the first of its name.
pub open spec fn first_of_its_name(node: &Node, i: int) -> bool {
    &&& 0 <= i < node.panes@.len()
    &&& forall|j: int|
        0 <= j < i ==> (#[trigger] node.panes@[j]).mpv_name@ != node.panes@[i].mpv_name@
}

proof fn lemma_first_found(node: &Node, i: int)
    requires
        first_of_its_name(node, i),
    ensures
        pane_index(node.view().panes, node.panes@[i].mpv_name@) == i,
        node.view().panes[i] == node.panes@[i].view(),
        node.view().panes.len() == node.panes@.len(),
{
    let all = node.view().panes;
    let name = node.panes@[i].mpv_name@;
    assert forall|j: int| 0 <= j < i implies (#[trigger] all[j]).mpv_name != name by {
        assert(node.panes@[j].mpv_name@ != name);
    }
    lemma_pane_found(all, name, i);
}

/// No pane goes by this name.
pub open spec fn nobody_is(node: &Node, name: Seq<char>) -> bool {
    forall|j: int| 0 <= j < node.panes@.len() ==> (#[trigger] node.panes@[j]).mpv_name@ != name
}

proof fn lemma_nobody(node: &Node, name: Seq<char>)
    requires
        nobody_is(node, name),
    ensures
        pane_index(node.view().panes, name) == node.panes@.len(),
        node.view().panes.len() == node.panes@.len(),
{
    let all = node.view().panes;
    assert forall|j: int| 0 <= j < all.len() implies (#[trigger] all[j]).mpv_name != name by {
        assert(node.panes@[j].mpv_name@ != name);
    }
    lemma_pane_missing(all, name);
}

/// A restart of one pane stops it, waits three seconds, starts it again where the current
/// layout puts it, and tells the clients. No other pane is touched.
pub proof fn a_pane_is_restarted_alone(
    v: &Json,
    node: &Node,
    layout: &Option<Layout>,
    r: Vec<Step>,
    i: int,
)
    requires
        asks(v.view(), "panebot:restart-pane"@),
        first_of_its_name(node, i),
        at(v.view(), "pane"@) == JsonV::Str(node.panes@[i].mpv_name@),
        *layout matches Some(l) ==> l.wf(),
        call_ensures(command_message_steps, (v, node, layout), r),
    ensures
        r@.len() == 4,
        r@[0].view() == (StepV::Kill { pane: node.panes@[i].mpv_name@ }),
        r@[1].view() == (StepV::Sleep { ms: 3000 }),
        starts_placed(node.view(), node.panes@[i].view(), *layout, r@[2].view()),
        r@[3].view() == (StepV::Broadcast {
            message: JsonV::Obj(
                map![
                    "event"@ => JsonV::Str("node:restart-pane"@),
                    "pane"@ => JsonV::Str(node.panes@[i].mpv_name@),
                ],
            ),
        }),
{
    lemma_names_of_one_length();
    lemma_names_are_the_daemons();
    let name = node.panes@[i].mpv_name@;
    lemma_obj_two("event"@, JsonV::Str("node:restart-pane"@), "pane"@, JsonV::Str(name));
    lemma_first_found(node, i);
    lemma_starts_placed(node.view(), node.panes@[i].view(), *layout);
    let all = step_views(r@);
    assert(all.len() == r@.len());
    assert(all[0] == r@[0].view() && all[1] == r@[1].view() && all[2] == r@[2].view() && all[3]
        == r@[3].view());
}

/// A pane that the node does not have is neither restarted nor removed.
pub proof fn unknown_panes_are_left_out(
    v: &Json,
    node: &Node,
    layout: &Option<Layout>,
    r: Vec<Step>,
    name: Seq<char>,
)
    requires
        asks(v.view(), "panebot:restart-pane"@) || asks(v.view(), "panebot:remove-pane"@) || asks(
            v.view(),
            "panebot:clone-pane"@,
        ),
        at(v.view(), "pane"@) == JsonV::Str(name),
        nobody_is(node, name),
        call_ensures(command_message_steps, (v, node, layout), r),
    ensures
        r@.len() == 0,
{
    lemma_names_of_one_length();
    lemma_names_are_the_daemons();
    lemma_nobody(node, name);
    assert(step_views(r@).len() == r@.len());
}

/// A layout is read for the commands that start panes: the one that is named for a
/// switch, the current one for the others.
pub proof fn panes_start_in_the_layout_that_is_meant(v: &Json, node: &Node, r: Option<String>)
    requires
        call_ensures(wanted_layout, (v, node), r),
    ensures
        asks(v.view(), "panebot:layout"@) ==> opt(r) == str_of(at(v.view(), "layout_name"@)),
        asks(v.view(), "panebot:restart-all"@) || asks(v.view(), "panebot:restart-pane"@) || asks(
            v.view(),
            "panebot:clone-pane"@,
        ) ==> opt(r) == Some(node.layout@),
        !asks(v.view(), "panebot:layout"@) && !asks(v.view(), "panebot:restart-all"@) && !asks(
            v.view(),
            "panebot:restart-pane"@,
        ) && !asks(v.view(), "panebot:clone-pane"@) ==> r is None,
{
    lemma_names_of_one_length();
    lemma_names_are_the_daemons();
}

// ---------------------------------------------------------------------------
// Panes that come and go
// ---------------------------------------------------------------------------

/// A cloned pane is like its source under the new name: it joins the others at the end,
/// the panes file is written with it, its player is started and the clients are told how
/// the node stands. It is shown under the name that is given, or else under its own.
pub proof fn a_clone_joins_the_others(
    v: &Json,
    node: &Node,
    layout: &Option<Layout>,
    r: Vec<Step>,
    i: int,
    new_name: Seq<char>,
)
    requires
        asks(v.view(), "panebot:clone-pane"@),
        first_of_its_name(node, i),
        at(v.view(), "pane"@) == JsonV::Str(node.panes@[i].mpv_name@),
        at(v.view(), "new_name"@) == JsonV::Str(new_name),
        new_name.len() > 0,
        nobody_is(node, new_name),
        *layout matches Some(l) ==> l.wf(),
        call_ensures(command_message_steps, (v, node, layout), r),
    ensures
        ({
            let p = PaneV {
                mpv_name: new_name,
                pane_name: if at(v.view(), "pane_name"@) is Str {
                    at(v.view(), "pane_name"@)->Str_0
                } else {
                    new_name
                },
                pane_type: node.panes@[i].pane_type@,
                playlist: opt(node.panes@[i].playlist),
            };
            &&& r@.len() == 4
            &&& r@[0].view() == (StepV::AddPane { pane: p, from: node.panes@[i].mpv_name@ })
            &&& r@[1].view() == (StepV::WritePanes {
                text: panes_text_of(node.layout@, node.view().panes.push(p)),
            })
            &&& starts_placed(node.view(), p, *layout, r@[2].view())
            &&& r@[3].view() == StepV::Snapshot
        }),
{
    lemma_names_of_one_length();
    lemma_names_are_the_daemons();
    lemma_first_found(node, i);
    lemma_nobody(node, new_name);
    let shown = if at(v.view(), "pane_name"@) is Str {
        at(v.view(), "pane_name"@)->Str_0
    } else {
        new_name
    };
    let p = PaneV { mpv_name: new_name, pane_name: shown, ..node.panes@[i].view() };
    lemma_starts_placed(node.view(), p, *layout);
    let all = step_views(r@);
    assert(all.len() == r@.len());
    assert(all[0] == r@[0].view() && all[1] == r@[1].view() && all[2] == r@[2].view() && all[3]
        == r@[3].view());
}

/// A name that a pane has, or that is empty, is not given to a clone.
pub proof fn clones_need_a_name_of_their_own(
    v: &Json,
    node: &Node,
    layout: &Option<Layout>,
    r: Vec<Step>,
    i: int,
)
    requires
        asks(v.view(), "panebot:clone-pane"@),
        0 <= i < node.panes@.len(),
        at(v.view(), "new_name"@) == JsonV::Str(node.panes@[i].mpv_name@) || at(
            v.view(),
            "new_name"@,
        ) == JsonV::Str(Seq::empty()) || !(at(v.view(), "new_name"@) is Str),
        call_ensures(command_message_steps, (v, node, layout), r),
    ensures
        r@.len() == 0,
{
    lemma_names_of_one_length();
    lemma_names_are_the_daemons();
    lemma_somebody(node.view().panes, i);
    assert(node.view().panes[i] == node.panes@[i].view());
    assert(step_views(r@).len() == r@.len());
}

proof fn lemma_somebody(panes: Seq<PaneV>, i: int)
    requires
        0 <= i < panes.len(),
    ensures
        pane_index(panes, panes[i].mpv_name) < panes.len(),
    decreases panes.len(),
{
    if panes[0].mpv_name != panes[i].mpv_name {
        assert(panes.skip(1)[i - 1] == panes[i]);
        lemma_somebody(panes.skip(1), i - 1);
    }
}

/// A removed pane is stopped and leaves the others, the panes file is written without it
/// and with all the others in their order, and the clients are told how the node stands.
pub proof fn a_removed_pane_leaves_the_others(
    v: &Json,
    node: &Node,
    layout: &Option<Layout>,
    r: Vec<Step>,
    i: int,
)
    requires
        asks(v.view(), "panebot:remove-pane"@),
        first_of_its_name(node, i),
        at(v.view(), "pane"@) == JsonV::Str(node.panes@[i].mpv_name@),
        call_ensures(command_message_steps, (v, node, layout), r),
    ensures
        step_views(r@) == seq![
            StepV::Kill { pane: node.panes@[i].mpv_name@ },
            StepV::RemovePane { pane: node.panes@[i].mpv_name@ },
            StepV::WritePanes {
                text: panes_text_of(
                    node.layout@,
                    node.view().panes.take(i) + node.view().panes.skip(i + 1),
                ),
            },
            StepV::Snapshot,
        ],
{
    lemma_names_of_one_length();
    lemma_names_are_the_daemons();
    lemma_first_found(node, i);
    let all = node.view().panes;
    assert(all.remove(i) =~= all.take(i) + all.skip(i + 1));
}

/// When the connection to a player ends, the clients are told that its pane is offline. A
/// player that was not meant to end is then started again, in the current layout; one
/// that was meant to is not.
pub proof fn lost_players_come_back(
    node: &Node,
    layout: &Option<Layout>,
    name: &str,
    meant: bool,
    r: Vec<Step>,
    i: int,
)
    requires
        first_of_its_name(node, i),
        node.panes@[i].mpv_name@ == name@,
        *layout matches Some(l) ==> l.wf(),
        call_ensures(pane_lost, (node, name, meant, layout), r),
    ensures
        r@.len() == (if meant {
            1int
        } else {
            2
        }),
        r@[0].view() == (StepV::Broadcast {
            message: JsonV::Obj(
                map!["pane"@ => JsonV::Str(name@), "event"@ => JsonV::Str("offline"@)],
            ),
        }),
        !meant ==> starts_placed(node.view(), node.panes@[i].view(), *layout, r@[1].view()),
{
    lemma_obj_two("event"@, JsonV::Str("offline"@), "pane"@, JsonV::Str(name@));
    lemma_obj_two("pane"@, JsonV::Str(name@), "event"@, JsonV::Str("offline"@));
    reveal_strlit("pane");
    reveal_strlit("event");
    assert("pane"@.len() == 4 && "event"@.len() == 5);
    assert(map!["pane"@ => JsonV::Str(name@), "event"@ => JsonV::Str("offline"@)] =~= map![
        "event"@ => JsonV::Str("offline"@),
        "pane"@ => JsonV::Str(name@),
    ]);
    lemma_first_found(node, i);
    lemma_starts_placed(node.view(), node.panes@[i].view(), *layout);
    let all = step_views(r@);
    assert(all.len() == r@.len());
    assert(all[0] == r@[0].view());
    if !meant {
        assert(all[1] == r@[1].view());
    }
}

// ---------------------------------------------------------------------------
// Commands for players
// ---------------------------------------------------------------------------

/// The commands that a client may send to a player.
pub open spec fn passed_on() -> Set<Seq<char>> {
    set![
        "set_property"@, "cycle"@, "add"@, "stop"@, "quit"@, "seek"@, "revert-seek"@,
        "playlist-next"@, "playlist-prev"@, "playlist-play-index"@, "playlist-remove"@,
        "playlist-move"@, "playlist-shuffle"@, "playlist-unshuffle"@, "playlist-clear"@,
        "loadfile"@, "loadlist"@, "keypress"@, "keydown"@, "keyup"@
    ]
}

pub proof fn lemma_passed_on(cmd: Seq<char>)
    ensures
        passed_on().contains(cmd) == crate::daemon::allowed_commands().contains(cmd),
{
    let all = crate::daemon::allowed_commands();
    if all.contains(cmd) {
        let k = choose|k: int| 0 <= k < all.len() && all[k] == cmd;
    }
    if passed_on().contains(cmd) {
        assert(cmd == all[0] || cmd == all[1] || cmd == all[2] || cmd == all[3] || cmd == all[4]
            || cmd == all[5] || cmd == all[6] || cmd == all[7] || cmd == all[8] || cmd == all[9]
            || cmd == all[10] || cmd == all[11] || cmd == all[12] || cmd == all[13] || cmd
            == all[14] || cmd == all[15] || cmd == all[16] || cmd == all[17] || cmd == all[18]
            || cmd == all[19]);
    }
}

/// A command for a player that clients may send goes to the player of the named pane,
/// where that is connected, as its name followed by its arguments; any other command that
/// is not the daemon's own goes nowhere.
pub proof fn player_commands_are_passed_on(
    v: &Json,
    node: &Node,
    layout: &Option<Layout>,
    r: Vec<Step>,
    cmd: Seq<char>,
    pane: Seq<char>,
    args: Seq<JsonV>,
)
    requires
        at(v.view(), "command"@) == JsonV::Str(cmd),
        at(v.view(), "pane"@) == JsonV::Str(pane),
        at(v.view(), "args"@) == JsonV::Arr(args),
        !"panebot:"@.is_prefix_of(cmd),
        cmd != "playlist-get"@,
        call_ensures(command_message_steps, (v, node, layout), r),
    ensures
        step_views(r@) == (if passed_on().contains(cmd) && strs(node.connected@).contains(pane) {
            seq![
                StepV::Send {
                    pane,
                    message: JsonV::Obj(
                        map!["command"@ => JsonV::Arr(seq![JsonV::Str(cmd)] + args)],
                    ),
                },
            ]
        } else {
            Seq::empty()
        }),
{
    lemma_passed_on(cmd);
    lemma_obj_one("command"@, JsonV::Arr(seq![JsonV::Str(cmd)] + args));
}

} // verus!
