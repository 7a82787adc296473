//! What holds of nodes whose panes have types.
use crate::board::board_get;
use crate::config::{Layout, Pane, PaneV};
use crate::daemon::Node;
use crate::json::{at, entries_map, nearest_double, str_of, Json, JsonV, NumV};
use crate::node_laws::{gives, lemma_obj_two, sets};
use crate::paths::pane_file_of;
use crate::protocol_laws::lemma_obj_four;
use crate::text::{opt, strs, uppercase};
use crate::typed::{
    announced_pane, bootstrap_complete, launch_typed_pane, layout_step_views, levels_of, positions,
    resting, start_panes, switch_layout, wanted_switch, LayoutStep, LayoutStepV,
};
use vstd::prelude::*;

verus! {

/// The layout has a section for the pane `name` that gives the window manager's message
/// `m`.
pub open spec fn messages(layout: Layout, name: Seq<char>, m: Seq<char>) -> bool {
    exists|k: int|
        0 <= k < layout.entries@.len() && (#[trigger] layout.entries@[k]).0@ == name && opt(
            layout.entries@[k].1.swaymsg,
        ) == Some(m)
}

proof fn lemma_entry(layout: Layout, k: int)
    requires
        layout.wf(),
        0 <= k < layout.entries@.len(),
    ensures
        layout.entry(layout.entries@[k].0@) == Some(layout.entries@[k].1.view()),
{
    let name = layout.entries@[k].0@;
    assert(layout.entries@[k].0@ == name);
    let j = choose|j: int|
        0 <= j < layout.entries@.len() && (#[trigger] layout.entries@[j]).0@ == name;
    assert(j == k);
}

proof fn lemma_geometry(layout: Layout, name: Seq<char>, g: Seq<char>)
    requires
        layout.wf(),
    ensures
        gives(Some(layout), name, g) <==> crate::typed::geometry_for(layout, name) == Some(g),
{
    if gives(Some(layout), name, g) {
        let k = choose|k: int|
            0 <= k < layout.entries@.len() && (#[trigger] layout.entries@[k]).0@ == name && opt(
                layout.entries@[k].1.geometry,
            ) == Some(g);
        lemma_entry(layout, k);
    }
    if crate::typed::geometry_for(layout, name) == Some(g) {
        let j = choose|j: int|
            0 <= j < layout.entries@.len() && (#[trigger] layout.entries@[j]).0@ == name;
        assert(layout.entries@[j].0@ == name);
        lemma_entry(layout, j);
        assert(opt(layout.entries@[j].1.geometry) == Some(g));
    }
}

/// The steps that place windows: one for each pane of whose window the layout speaks, in
/// the order of the panes.
pub open spec fn places(panes: Seq<PaneV>, layout: Layout, steps: Seq<LayoutStepV>) -> bool {
    let named = panes.filter(|p: PaneV| exists|m: Seq<char>| messages(layout, p.mpv_name, m));
    &&& steps.len() == named.len()
    &&& forall|i: int|
        0 <= i < named.len() ==> {
            &&& (#[trigger] steps[i]) is Position
            &&& steps[i]->Position_pane == named[i].mpv_name
            &&& messages(layout, named[i].mpv_name, steps[i]->Position_message)
        }
}

proof fn lemma_places(panes: Seq<PaneV>, layout: Layout)
    requires
        layout.wf(),
    ensures
        places(panes, layout, positions(panes, layout)),
    decreases panes.len(),
{
    reveal(Seq::filter);
    let named = panes.filter(|p: PaneV| exists|m: Seq<char>| messages(layout, p.mpv_name, m));
    if panes.len() > 0 {
        let front = panes.drop_last();
        lemma_places(front, layout);
        let before = front.filter(
            |p: PaneV| exists|m: Seq<char>| messages(layout, p.mpv_name, m),
        );
        let name = panes.last().mpv_name;
        if exists|m: Seq<char>| messages(layout, name, m) {
            let m = choose|m: Seq<char>| messages(layout, name, m);
            let k = choose|k: int|
                0 <= k < layout.entries@.len() && (#[trigger] layout.entries@[k]).0@ == name && opt(
                    layout.entries@[k].1.swaymsg,
                ) == Some(m);
            lemma_entry(layout, k);
        }
        if let Some(e) = layout.entry(name) {
            let j = choose|j: int|
                0 <= j < layout.entries@.len() && (#[trigger] layout.entries@[j]).0@ == name;
            assert(layout.entries@[j].0@ == name);
            lemma_entry(layout, j);
            if let Some(m) = e.swaymsg {
                assert(opt(layout.entries@[j].1.swaymsg) == Some(m));
                assert(messages(layout, name, m));
            }
        }
        let all = positions(panes, layout);
        let old = positions(front, layout);
        assert forall|i: int| 0 <= i < named.len() implies (#[trigger] all[i]) is Position
            && all[i]->Position_pane == named[i].mpv_name && messages(
            layout,
            named[i].mpv_name,
            all[i]->Position_message,
        ) by {
            if i < before.len() {
                assert(all[i] == old[i]);
                assert(named[i] == before[i]);
            }
        }
    }
}

/// A switch stops every pane, starts every pane where the layout puts it, has the window
/// manager place the windows where that is done, sets every player to the volume and the
/// mute that its pane had, paused, and tells the clients the layout's name.
pub proof fn a_switch_keeps_the_players_as_they_were(
    node: &Node,
    name: &str,
    layout: &Layout,
    linux: bool,
    r: Vec<LayoutStep>,
) -> (placed: Seq<LayoutStepV>)
    requires
        layout.wf(),
        call_ensures(switch_layout, (node, name, layout, linux), r),
    ensures
        ({
            let n = node.panes@.len() as int;
            let all = layout_step_views(r@);
            let after = 2 * n + placed.len();
            &&& linux ==> placed.len() > 0 && placed[0] == (LayoutStepV::Sleep { ms: 500 })
                && places(node.view().panes, *layout, placed.skip(1))
            &&& !linux ==> placed.len() == 0
            &&& all.len() == after + n + 1
            &&& forall|i: int|
                0 <= i < n ==> #[trigger] all[i] == (LayoutStepV::Kill {
                    pane: node.panes@[i].mpv_name@,
                })
            &&& forall|i: int|
                0 <= i < n ==> {
                    &&& (#[trigger] all[n + i]) is Launch
                    &&& all[n + i]->Launch_pane == node.panes@[i].mpv_name@
                    &&& forall|g: Seq<char>|
                        #[trigger] gives(Some(*layout), node.panes@[i].mpv_name@, g) <==> all[n
                            + i]->Launch_geometry == Some(g)
                }
            &&& all.subrange(2 * n, after) == placed
            &&& forall|i: int|
                0 <= i < n ==> {
                    let name = node.panes@[i].mpv_name@;
                    let known = board_get(node.view().states, name);
                    &&& (#[trigger] all[after + i]) is Restore
                    &&& all[after + i]->Restore_pane == name
                    &&& known is Some && known->0.volume is Some ==> all[after
                        + i]->Restore_messages == seq![
                        sets("volume"@, JsonV::Num(NumV::Float(known->0.volume->0))),
                        sets("mute"@, JsonV::Bool(known->0.muted == Some(true))),
                        sets("pause"@, JsonV::Bool(true)),
                    ]
                    &&& known is Some && known->0.volume is None ==> all[after
                        + i]->Restore_messages == seq![
                        sets("volume"@, JsonV::Num(NumV::Float(nearest_double(0)))),
                        sets("mute"@, JsonV::Bool(known->0.muted == Some(true))),
                        sets("pause"@, JsonV::Bool(true)),
                    ]
                    &&& known is None ==> all[after + i]->Restore_messages == seq![
                        sets("volume"@, JsonV::Num(NumV::Float(nearest_double(100)))),
                        sets("mute"@, JsonV::Bool(false)),
                        sets("pause"@, JsonV::Bool(true)),
                    ]
                }
            &&& all[after + n] == (LayoutStepV::Broadcast {
                message: JsonV::Obj(
                    map!["event"@ => JsonV::Str("node:layout"@), "layout"@ => JsonV::Str(name@)],
                ),
            })
        }),
{
    let v = node.view();
    let n = node.panes@.len() as int;
    assert(v.panes.len() == n);
    let all = layout_step_views(r@);
    let placed = if linux {
        seq![LayoutStepV::Sleep { ms: 500 }] + positions(v.panes, *layout)
    } else {
        Seq::empty()
    };
    let after = 2 * n + placed.len();
    lemma_places(v.panes, *layout);
    if linux {
        assert(placed.skip(1) =~= positions(v.panes, *layout));
    }
    assert(all.subrange(2 * n, after) =~= placed);
    lemma_obj_two("event"@, JsonV::Str("node:layout"@), "layout"@, JsonV::Str(name@));
    assert forall|i: int| 0 <= i < n implies ({
        &&& (#[trigger] all[n + i]) is Launch
        &&& all[n + i]->Launch_pane == node.panes@[i].mpv_name@
        &&& forall|g: Seq<char>|
            #[trigger] gives(Some(*layout), node.panes@[i].mpv_name@, g) <==> all[n
                + i]->Launch_geometry == Some(g)
    }) by {
        assert(v.panes[i] == node.panes@[i].view());
        assert forall|g: Seq<char>|
            #[trigger] gives(Some(*layout), node.panes@[i].mpv_name@, g) <==> all[n
                + i]->Launch_geometry == Some(g) by {
            lemma_geometry(*layout, node.panes@[i].mpv_name@, g);
        }
    }
    assert forall|i: int| 0 <= i < n implies ({
        let name = node.panes@[i].mpv_name@;
        let known = board_get(v.states, name);
        &&& (#[trigger] all[after + i]) is Restore
        &&& all[after + i]->Restore_pane == name
        &&& known is Some && known->0.volume is Some ==> all[after + i]->Restore_messages == seq![
            sets("volume"@, JsonV::Num(NumV::Float(known->0.volume->0))),
            sets("mute"@, JsonV::Bool(known->0.muted == Some(true))),
            sets("pause"@, JsonV::Bool(true)),
        ]
        &&& known is Some && known->0.volume is None ==> all[after + i]->Restore_messages == seq![
            sets("volume"@, JsonV::Num(NumV::Float(nearest_double(0)))),
            sets("mute"@, JsonV::Bool(known->0.muted == Some(true))),
            sets("pause"@, JsonV::Bool(true)),
        ]
        &&& known is None ==> all[after + i]->Restore_messages == seq![
            sets("volume"@, JsonV::Num(NumV::Float(nearest_double(100)))),
            sets("mute"@, JsonV::Bool(false)),
            sets("pause"@, JsonV::Bool(true)),
        ]
    }) by {
        assert(v.panes[i] == node.panes@[i].view());
        let l = levels_of(v.states, node.panes@[i].mpv_name@);
        crate::node_laws::lemma_sets("volume"@, JsonV::Num(NumV::Float(l.0)));
        crate::node_laws::lemma_sets("mute"@, JsonV::Bool(l.1));
        crate::node_laws::lemma_sets("pause"@, JsonV::Bool(true));
    }
    placed
}

/// The layout that is asked for is the one that is named, and only a request for a layout
/// asks for one.
pub proof fn switches_are_asked_for(v: &Json, r: Option<String>)
    requires
        call_ensures(wanted_switch, (v,), r),
    ensures
        at(v.view(), "command"@) == JsonV::Str("panebot:layout"@) ==> opt(r) == str_of(
            at(v.view(), "layout_name"@),
        ),
        at(v.view(), "command"@) != JsonV::Str("panebot:layout"@) ==> r is None,
{
}

/// The player of a typed pane starts on its pane's socket and configuration, at full
/// volume, muted and paused, placed where a geometry is given and that is done here, and
/// with its pane's playlist or else waiting for one.
pub proof fn typed_players_start_quietly(
    config: &str,
    pane: &Pane,
    geometry: Option<String>,
    macos: bool,
    has_playlist: bool,
    r: Vec<String>,
)
    requires
        call_ensures(launch_typed_pane, (config, pane, geometry, macos, has_playlist), r),
    ensures
        ({
            let name = pane.mpv_name@;
            let base = seq![
                "--input-ipc-server="@ + pane_file_of(config@, name, ".sock"@),
                "--title="@ + uppercase(name),
                "--include="@ + pane_file_of(config@, name, ".mpv.conf"@),
                "--volume=100"@,
                "--mute=yes"@,
                "--pause=yes"@,
            ];
            let list = if has_playlist {
                pane_file_of(config@, name, ".m3u"@)
            } else {
                "--idle=yes"@
            };
            &&& macos && geometry is Some ==> strs(r@) == base + seq![
                "--geometry="@ + geometry->0@,
                list,
            ]
            &&& !macos || geometry is None ==> strs(r@) == base + seq![list]
        }),
{
    let name = pane.mpv_name@;
    let base = seq![
        "--input-ipc-server="@ + pane_file_of(config@, name, ".sock"@),
        "--title="@ + uppercase(name),
        "--include="@ + pane_file_of(config@, name, ".mpv.conf"@),
        "--volume=100"@,
        "--mute=yes"@,
        "--pause=yes"@,
    ];
    let list = if has_playlist {
        pane_file_of(config@, name, ".m3u"@)
    } else {
        "--idle=yes"@
    };
    if macos && geometry is Some {
        assert(strs(r@) =~= base + seq!["--geometry="@ + geometry->0@, list]);
    } else {
        assert(strs(r@) =~= base + seq![list]);
    }
}

/// Coming up, the daemon starts exactly the panes whose players do not run, in order, each
/// where the layout puts it.
pub proof fn resting_panes_are_started(
    panes: &Vec<Pane>,
    alive: &Vec<bool>,
    layout: &Option<Layout>,
    linux: bool,
    r: Vec<LayoutStep>,
) -> (fresh: Seq<int>)
    requires
        alive@.len() == panes@.len(),
        *layout matches Some(l) ==> l.wf(),
        call_ensures(start_panes, (panes, alive, layout, linux), r),
    ensures
        forall|i: int, j: int| 0 <= i < j < fresh.len() ==> fresh[i] < fresh[j],
        forall|x: int| #[trigger] fresh.contains(x) <==> 0 <= x < panes@.len() && !alive@[x],
        r@.len() >= fresh.len(),
        forall|i: int|
            0 <= i < fresh.len() ==> {
                let s = (#[trigger] r@[i]).view();
                &&& s is Launch
                &&& s->Launch_pane == panes@[fresh[i]].mpv_name@
                &&& forall|g: Seq<char>|
                    #[trigger] gives(*layout, panes@[fresh[i]].mpv_name@, g)
                        <==> s->Launch_geometry == Some(g)
            },
        forall|i: int|
            fresh.len() <= i < r@.len() ==> (#[trigger] r@[i]).view() is Sleep || r@[i].view()
                is Position,
        !linux || *layout is None ==> r@.len() == fresh.len(),
{
    let all = crate::config::pane_views(panes@);
    let fresh = resting_places(alive@);
    lemma_resting_places(alive@);
    lemma_resting(all, alive@);
    let some = resting(all, alive@);
    let v = layout_step_views(r@);
    assert(v.len() == r@.len());
    if let Some(l) = *layout {
        lemma_places(some, l);
    }
    assert forall|i: int| 0 <= i < fresh.len() implies ({
        let s = (#[trigger] r@[i]).view();
        &&& s is Launch
        &&& s->Launch_pane == panes@[fresh[i]].mpv_name@
        &&& forall|g: Seq<char>|
            #[trigger] gives(*layout, panes@[fresh[i]].mpv_name@, g) <==> s->Launch_geometry
                == Some(g)
    }) by {
        assert(v[i] == r@[i].view());
        assert(fresh.contains(fresh[i]));
        assert(some[i] == all[fresh[i]]);
        let name = panes@[fresh[i]].mpv_name@;
        assert forall|g: Seq<char>|
            #[trigger] gives(*layout, name, g) <==> r@[i].view()->Launch_geometry == Some(g) by {
            if let Some(l) = *layout {
                lemma_geometry(l, name, g);
            }
        }
    }
    assert forall|i: int| fresh.len() <= i < r@.len() implies (#[trigger] r@[i]).view() is Sleep
        || r@[i].view() is Position by {
        assert(v[i] == r@[i].view());
        if let Some(l) = *layout {
            if i > fresh.len() {
                assert(v[i] == positions(some, l)[i - fresh.len() - 1]);
            }
        }
    }
    fresh
}

/// The places of those that do not run.
spec fn resting_places(alive: Seq<bool>) -> Seq<int>
    decreases alive.len(),
{
    if alive.len() == 0 {
        Seq::empty()
    } else if alive.last() {
        resting_places(alive.drop_last())
    } else {
        resting_places(alive.drop_last()).push(alive.len() - 1)
    }
}

proof fn lemma_resting_places(alive: Seq<bool>)
    ensures
        forall|i: int, j: int|
            0 <= i < j < resting_places(alive).len() ==> resting_places(alive)[i]
                < resting_places(alive)[j],
        forall|x: int| #[trigger]
            resting_places(alive).contains(x) <==> 0 <= x < alive.len() && !alive[x],
        forall|i: int|
            0 <= i < resting_places(alive).len() ==> 0 <= #[trigger] resting_places(alive)[i]
                < alive.len(),
    decreases alive.len(),
{
    if alive.len() > 0 {
        let front = alive.drop_last();
        lemma_resting_places(front);
        let before = resting_places(front);
        let all = resting_places(alive);
        let n = alive.len() - 1;
        assert forall|x: int| #[trigger] all.contains(x) <==> 0 <= x < alive.len() && !alive[x] by {
            if all.contains(x) {
                let k = choose|k: int| 0 <= k < all.len() && all[k] == x;
                if k < before.len() {
                    assert(before[k] == x);
                    assert(before.contains(x));
                }
            }
            if 0 <= x < alive.len() && !alive[x] {
                if x < n {
                    assert(front[x] == alive[x]);
                    assert(before.contains(x));
                    let k = choose|k: int| 0 <= k < before.len() && before[k] == x;
                    assert(all[k] == x);
                } else {
                    assert(all[all.len() - 1] == x);
                }
            }
        }
    }
}

proof fn lemma_resting(panes: Seq<PaneV>, alive: Seq<bool>)
    requires
        alive.len() == panes.len(),
    ensures
        resting(panes, alive) == resting_places(alive).map_values(|x: int| panes[x]),
    decreases panes.len(),
{
    if panes.len() > 0 {
        let p = panes.drop_last();
        let a = alive.drop_last();
        lemma_resting(p, a);
        lemma_resting_places(a);
        let before = resting_places(a);
        assert(before.map_values(|x: int| p[x]) =~= before.map_values(|x: int| panes[x]));
    }
    assert(resting(panes, alive) =~= resting_places(alive).map_values(|x: int| panes[x]));
}

/// A client of a node with typed panes is told first who the node is, its layout, and its
/// panes in order with their types and whether they are up.
pub proof fn clients_are_told_of_typed_panes(node: &Node, alive: &Vec<bool>, r: Json, i: int)
    requires
        alive@.len() == node.panes@.len(),
        0 <= i < node.panes@.len(),
        call_ensures(bootstrap_complete, (node, alive), r),
    ensures
        at(r.view(), "event"@) == JsonV::Str("bootstrap_complete"@),
        at(r.view(), "hostname"@) == JsonV::Str(node.hostname@),
        at(r.view(), "platform"@) == JsonV::Str(node.platform@),
        at(r.view(), "layout"@) == JsonV::Str(node.layout@),
        at(r.view(), "panes"@) matches JsonV::Arr(panes) && panes.len() == node.panes@.len()
            && panes[i] == JsonV::Obj(
            map![
                "name"@ => JsonV::Str(node.panes@[i].mpv_name@),
                "pane_type"@ => JsonV::Str(node.panes@[i].pane_type@),
                "status"@ => JsonV::Str(
                    if alive@[i] {
                        "Online"@
                    } else {
                        "Offline"@
                    },
                ),
            ],
        ),
{
    let n = node.view();
    let list = JsonV::Arr(
        Seq::new(n.panes.len(), |i: int| announced_pane(n.panes[i], alive@[i])),
    );
    let four = seq![
        ("event"@, JsonV::Str("bootstrap_complete"@)),
        ("hostname"@, JsonV::Str(n.hostname)),
        ("platform"@, JsonV::Str(n.platform)),
        ("layout"@, JsonV::Str(n.layout)),
    ];
    let e = four.push(("panes"@, list));
    assert(e =~= seq![
        ("event"@, JsonV::Str("bootstrap_complete"@)),
        ("hostname"@, JsonV::Str(n.hostname)),
        ("platform"@, JsonV::Str(n.platform)),
        ("layout"@, JsonV::Str(n.layout)),
        ("panes"@, list),
    ]);
    lemma_obj_four(
        "event"@,
        JsonV::Str("bootstrap_complete"@),
        "hostname"@,
        JsonV::Str(n.hostname),
        "platform"@,
        JsonV::Str(n.platform),
        "layout"@,
        JsonV::Str(n.layout),
    );
    assert(e.drop_last() =~= four);
    assert(entries_map(e) == entries_map(four).insert("panes"@, list));
    reveal_strlit("event");
    reveal_strlit("hostname");
    reveal_strlit("platform");
    reveal_strlit("layout");
    reveal_strlit("panes");
    assert("event"@.len() == 5 && "hostname"@.len() == 8 && "platform"@.len() == 8
        && "layout"@.len() == 6 && "panes"@.len() == 5);
    assert("event"@[0] == 'e' && "panes"@[0] == 'p' && "hostname"@[0] == 'h' && "platform"@[0]
        == 'p');
    crate::node_laws::lemma_obj_three(
        "name"@,
        JsonV::Str(node.panes@[i].mpv_name@),
        "pane_type"@,
        JsonV::Str(node.panes@[i].pane_type@),
        "status"@,
        JsonV::Str(
            if alive@[i] {
                "Online"@
            } else {
                "Offline"@
            },
        ),
    );
    assert(n.panes[i] == node.panes@[i].view());
}

} // verus!
