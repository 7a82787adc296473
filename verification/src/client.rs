//! What clients send to the daemon.
use crate::daemon::{
    allowed_commands, command_steps, is_node_command, player_command,
    player_commands_reach_only_their_pane, NodeV, StepV,
};
use crate::config::Layout;
use crate::json::{
    arr1, arr2, at, entries_map, exact, jsons, lemma_exact_array, lemma_exact_object, obj, obj2, obj3, Json,
    JsonV, Num, NumV,
};
use crate::text::{same, strs};
use vstd::prelude::*;

verus! {

/// A command for the player of a pane.
pub open spec fn pane_message(cmd: Seq<char>, pane: Seq<char>, args: Seq<JsonV>) -> JsonV {
    obj(
        seq![
            ("command"@, JsonV::Str(cmd)),
            ("pane"@, JsonV::Str(pane)),
            ("args"@, JsonV::Arr(args)),
        ],
    )
}

/// A command for the daemon itself that names a pane.
pub open spec fn node_message(cmd: Seq<char>, pane: Seq<char>) -> JsonV {
    obj(seq![("pane"@, JsonV::Str(pane)), ("command"@, JsonV::Str(cmd))])
}

/// A command for a player without arguments.
pub fn send_cmd0(pane: &str, cmd: &str) -> (r: Json)
    ensures
        r.view() == pane_message(cmd@, pane@, Seq::empty()),
{
    let none: Vec<Json> = Vec::new();
    assert(jsons(none@) =~= Seq::empty());
    obj3("command", Json::string(cmd), "pane", Json::string(pane), "args", Json::Arr(none))
}

/// A command for a player with one argument.
pub fn send_cmd1(pane: &str, cmd: &str, a: Json) -> (r: Json)
    ensures
        r.view() == pane_message(cmd@, pane@, seq![a.view()]),
{
    obj3("command", Json::string(cmd), "pane", Json::string(pane), "args", arr1(a))
}

/// A command for a player with two arguments.
pub fn send_cmd2(pane: &str, cmd: &str, a: Json, b: Json) -> (r: Json)
    ensures
        r.view() == pane_message(cmd@, pane@, seq![a.view(), b.view()]),
{
    obj3("command", Json::string(cmd), "pane", Json::string(pane), "args", arr2(a, b))
}

/// A command for the daemon itself that names a pane.
pub fn send_node_cmd(cmd: &str, pane: &str) -> (r: Json)
    ensures
        r.view() == node_message(cmd@, pane@),
{
    obj2("pane", Json::string(pane), "command", Json::string(cmd))
}

/// An index as a JSON value.
pub fn index_json(n: usize) -> (r: Json)
    ensures
        r.view() == JsonV::Num(NumV::Int(n as int)),
{
    Json::Num(Num::Pos(n as u64))
}

// ---------------------------------------------------------------------------
// Several panes at once
// ---------------------------------------------------------------------------

pub open spec fn property_message(pane: Seq<char>, name: Seq<char>, value: bool) -> JsonV {
    pane_message("set_property"@, pane, seq![JsonV::Str(name), JsonV::Bool(value)])
}

/// The message that sets a property of a pane's player.
pub fn set_flag(pane: &str, name: &str, value: bool) -> (r: Json)
    ensures
        r.view() == property_message(pane@, name@, value),
{
    send_cmd2(pane, "set_property", Json::string(name), Json::Bool(value))
}

/// One pane is heard, fills the screen and plays; every other is muted.
pub open spec fn solo_messages(order: Seq<Seq<char>>, solo: Seq<char>) -> Seq<JsonV>
    decreases order.len(),
{
    if order.len() == 0 {
        Seq::empty()
    } else {
        let pane = order.last();
        let before = solo_messages(order.drop_last(), solo);
        if pane == solo {
            before + seq![
                property_message(pane, "mute"@, false),
                property_message(pane, "fullscreen"@, true),
                property_message(pane, "pause"@, false),
            ]
        } else {
            before + seq![property_message(pane, "mute"@, true)]
        }
    }
}

/// Every pane but one is muted.
pub open spec fn mute_messages(order: Seq<Seq<char>>, keep: Seq<char>) -> Seq<JsonV>
    decreases order.len(),
{
    if order.len() == 0 {
        Seq::empty()
    } else {
        let pane = order.last();
        let before = mute_messages(order.drop_last(), keep);
        if pane == keep {
            before
        } else {
            before + seq![property_message(pane, "mute"@, true)]
        }
    }
}

/// Every pane is paused where some pane plays; else every pane is muted and plays.
pub open spec fn pause_messages(order: Seq<Seq<char>>, playing: bool) -> Seq<JsonV>
    decreases order.len(),
{
    if order.len() == 0 {
        Seq::empty()
    } else {
        let pane = order.last();
        let before = pause_messages(order.drop_last(), playing);
        if playing {
            before + seq![property_message(pane, "pause"@, true)]
        } else {
            before + seq![
                property_message(pane, "mute"@, true),
                property_message(pane, "pause"@, false),
            ]
        }
    }
}

/// The same flag for every pane.
pub open spec fn flag_messages(order: Seq<Seq<char>>, name: Seq<char>, value: bool) -> Seq<JsonV> {
    Seq::new(order.len(), |i: int| property_message(order[i], name, value))
}

pub proof fn lemma_jsons_add_one(v: Seq<Json>, x: Json)
    ensures
        jsons(v.push(x)) == jsons(v) + seq![x.view()],
{
    assert(jsons(v.push(x)) =~= jsons(v) + seq![x.view()]);
}

/// One pane is heard, fills the screen and plays; every other is muted.
pub fn cmd_solo(solo: &str, order: &Vec<String>) -> (r: Vec<Json>)
    ensures
        jsons(r@) == solo_messages(strs(order@), solo@),
{
    let ghost all = strs(order@);
    let mut out: Vec<Json> = Vec::new();
    assert(jsons(out@) =~= solo_messages(all.take(0), solo@));
    for i in 0..order.len()
        invariant
            all == strs(order@),
            jsons(out@) == solo_messages(all.take(i as int), solo@),
    {
        proof {
            assert(all.take(i + 1).drop_last() =~= all.take(i as int));
            assert(all.take(i + 1).last() == order@[i as int]@);
        }
        let ghost before = jsons(out@);
        let pane: &str = order[i].as_str();
        if same(pane, solo) {
            let a: Json = set_flag(pane, "mute", false);
            let b: Json = set_flag(pane, "fullscreen", true);
            let c: Json = set_flag(pane, "pause", false);
            proof {
                lemma_jsons_add_one(out@, a);
                lemma_jsons_add_one(out@.push(a), b);
                lemma_jsons_add_one(out@.push(a).push(b), c);
            }
            out.push(a);
            out.push(b);
            out.push(c);
            assert(jsons(out@) =~= before + seq![a.view(), b.view(), c.view()]);
        } else {
            let a: Json = set_flag(pane, "mute", true);
            proof {
                lemma_jsons_add_one(out@, a);
            }
            out.push(a);
        }
    }
    assert(all.take(all.len() as int) =~= all);
    out
}

/// Every pane but one is muted.
pub fn cmd_mute_others(keep: &str, order: &Vec<String>) -> (r: Vec<Json>)
    ensures
        jsons(r@) == mute_messages(strs(order@), keep@),
{
    let ghost all = strs(order@);
    let mut out: Vec<Json> = Vec::new();
    assert(jsons(out@) =~= mute_messages(all.take(0), keep@));
    for i in 0..order.len()
        invariant
            all == strs(order@),
            jsons(out@) == mute_messages(all.take(i as int), keep@),
    {
        proof {
            assert(all.take(i + 1).drop_last() =~= all.take(i as int));
            assert(all.take(i + 1).last() == order@[i as int]@);
        }
        let pane: &str = order[i].as_str();
        if !same(pane, keep) {
            let a: Json = set_flag(pane, "mute", true);
            proof {
                lemma_jsons_add_one(out@, a);
            }
            out.push(a);
        }
    }
    assert(all.take(all.len() as int) =~= all);
    out
}

/// Pauses every pane, or starts them all muted.
pub fn cmd_pause_toggle_all(playing: bool, order: &Vec<String>) -> (r: Vec<Json>)
    ensures
        jsons(r@) == pause_messages(strs(order@), playing),
{
    let ghost all = strs(order@);
    let mut out: Vec<Json> = Vec::new();
    assert(jsons(out@) =~= pause_messages(all.take(0), playing));
    for i in 0..order.len()
        invariant
            all == strs(order@),
            jsons(out@) == pause_messages(all.take(i as int), playing),
    {
        proof {
            assert(all.take(i + 1).drop_last() =~= all.take(i as int));
            assert(all.take(i + 1).last() == order@[i as int]@);
        }
        let ghost before = jsons(out@);
        let pane: &str = order[i].as_str();
        if playing {
            let a: Json = set_flag(pane, "pause", true);
            proof {
                lemma_jsons_add_one(out@, a);
            }
            out.push(a);
        } else {
            let a: Json = set_flag(pane, "mute", true);
            let b: Json = set_flag(pane, "pause", false);
            proof {
                lemma_jsons_add_one(out@, a);
                lemma_jsons_add_one(out@.push(a), b);
            }
            out.push(a);
            out.push(b);
            assert(jsons(out@) =~= before + seq![a.view(), b.view()]);
        }
    }
    assert(all.take(all.len() as int) =~= all);
    out
}

/// The same flag for every pane.
pub fn flag_all(order: &Vec<String>, name: &str, value: bool) -> (r: Vec<Json>)
    ensures
        jsons(r@) == flag_messages(strs(order@), name@, value),
{
    let mut out: Vec<Json> = Vec::new();
    for i in 0..order.len()
        invariant
            out.len() == i,
            forall|k: int|
                0 <= k < i ==> (#[trigger] out@[k]).view() == property_message(
                    order@[k]@,
                    name@,
                    value,
                ),
    {
        out.push(set_flag(order[i].as_str(), name, value));
    }
    assert(jsons(out@) =~= flag_messages(strs(order@), name@, value));
    out
}

// ---------------------------------------------------------------------------
// Laws
// ---------------------------------------------------------------------------

pub proof fn lemma_pane_message_fields(cmd: Seq<char>, pane: Seq<char>, args: Seq<JsonV>)
    ensures
        at(pane_message(cmd, pane, args), "command"@) == JsonV::Str(cmd),
        at(pane_message(cmd, pane, args), "pane"@) == JsonV::Str(pane),
        at(pane_message(cmd, pane, args), "args"@) == JsonV::Arr(args),
{
    reveal_strlit("command");
    reveal_strlit("pane");
    reveal_strlit("args");
    assert("command"@.len() == 7 && "pane"@.len() == 4 && "args"@.len() == 4);
    assert("pane"@[0] == 'p' && "args"@[0] == 'a');
    reveal_with_fuel(entries_map, 4);
}

/// What a client asks of a player is what the daemon hands to that player, and to
/// no other: the command followed by its arguments.
pub proof fn commands_sent_are_forwarded(
    n: NodeV,
    layout: Option<Layout>,
    cmd: Seq<char>,
    pane: Seq<char>,
    args: Seq<JsonV>,
)
    requires
        allowed_commands().contains(cmd),
        !is_node_command(cmd),
        n.connected.contains(pane),
    ensures
        command_steps(n, pane_message(cmd, pane, args), layout) == seq![
            StepV::Send { pane, message: player_command(seq![JsonV::Str(cmd)] + args) },
        ],
{
    lemma_pane_message_fields(cmd, pane, args);
    player_commands_reach_only_their_pane(n, pane_message(cmd, pane, args), layout, cmd, pane, args);
}

/// Every pane gets its share when all are muted but one: the one that is kept gets
/// nothing.
pub proof fn kept_pane_is_not_muted(order: Seq<Seq<char>>, keep: Seq<char>, k: int)
    requires
        0 <= k < mute_messages(order, keep).len(),
    ensures
        exists|i: int|
            0 <= i < order.len() && order[i] != keep && mute_messages(order, keep)[k]
                == property_message(order[i], "mute"@, true),
    decreases order.len(),
{
    let front = order.drop_last();
    let before = mute_messages(front, keep);
    if k < before.len() {
        kept_pane_is_not_muted(front, keep, k);
        let i = choose|i: int|
            0 <= i < front.len() && front[i] != keep && before[k] == property_message(
                front[i],
                "mute"@,
                true,
            );
        assert(order[i] == front[i]);
    } else {
        assert(order[order.len() - 1] != keep);
    }
}

/// A command is read by the daemon as it was meant: its text stands for it, as long as
/// its arguments hold no doubles and are not nested beyond the reader's limit.
pub proof fn commands_survive_the_wire(cmd: Seq<char>, pane: Seq<char>, args: Seq<JsonV>)
    requires
        forall|i: int| 0 <= i < args.len() ==> exact(#[trigger] args[i], 125),
    ensures
        exact(pane_message(cmd, pane, args), 127),
        exact(node_message(cmd, pane), 127),
{
    lemma_exact_array(args, 125);
    let e = seq![
        ("command"@, JsonV::Str(cmd)),
        ("pane"@, JsonV::Str(pane)),
        ("args"@, JsonV::Arr(args)),
    ];
    assert forall|i: int| 0 <= i < e.len() implies exact((#[trigger] e[i]).1, 126) by {}
    lemma_exact_object(e, 126);
    let f = seq![("pane"@, JsonV::Str(pane)), ("command"@, JsonV::Str(cmd))];
    assert forall|i: int| 0 <= i < f.len() implies exact((#[trigger] f[i]).1, 126) by {}
    lemma_exact_object(f, 126);
}

} // verus!
