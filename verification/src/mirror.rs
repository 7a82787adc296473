//! What a client knows of a node is what the daemon knows.
use crate::board::{
    board_get, board_put, putting_touches_one_pane, state_applied, what_was_put_is_found,
};
use crate::config::{HostV, PaneV};
use crate::daemon::NodeV;
use crate::json::{at, distinct_keys, lemma_obj_at, obj, JsonV};
use crate::node::{known_state, snapshot_host, snapshot_of, snapshot_pane};
use crate::protocol::{
    after_message, after_property, observed, offline_event, online_event, opt_bool_json,
    opt_double_json, opt_int_json, opt_str_json, playlist_event, property_event, relayed, reported,
    state_json, PaneStateV,
};
use crate::tui::{after_event, pane_given, text_at, with_panes, AppV};
use vstd::prelude::*;

verus! {

proof fn lemma_words()
    ensures
        "node:snapshot"@.len() == 13,
        "online"@.len() == 6,
        "offline"@.len() == 7,
        "property-change"@.len() == 15,
        "node:down"@.len() == 9,
        "node:layout"@.len() == 11,
        "node:playlist"@.len() == 13,
        "node:snapshot"@ != "node:playlist"@,
{
    reveal_strlit("node:snapshot");
    reveal_strlit("online");
    reveal_strlit("offline");
    reveal_strlit("property-change");
    reveal_strlit("node:down");
    reveal_strlit("node:layout");
    reveal_strlit("node:playlist");
    assert("node:snapshot"@[5] == 's' && "node:playlist"@[5] == 'p');
}

proof fn lemma_state_keys(s: PaneStateV)
    ensures
        at(state_json(s), "idle_active"@) == opt_bool_json(s.idle_active),
        at(state_json(s), "paused"@) == opt_bool_json(s.paused),
        at(state_json(s), "muted"@) == opt_bool_json(s.muted),
        at(state_json(s), "volume"@) == opt_double_json(s.volume),
        at(state_json(s), "title"@) == opt_str_json(s.title),
        at(state_json(s), "playlist_pos"@) == opt_int_json(s.playlist_pos),
{
    let e = seq![
        ("mpv_name"@, JsonV::Str(s.mpv_name)),
        ("pane_name"@, JsonV::Str(s.pane_name)),
        ("online"@, JsonV::Bool(s.online)),
        ("idle_active"@, opt_bool_json(s.idle_active)),
        ("paused"@, opt_bool_json(s.paused)),
        ("muted"@, opt_bool_json(s.muted)),
        ("volume"@, opt_double_json(s.volume)),
        ("title"@, opt_str_json(s.title)),
        ("playlist_pos"@, opt_int_json(s.playlist_pos)),
    ];
    reveal_strlit("mpv_name");
    reveal_strlit("pane_name");
    reveal_strlit("online");
    reveal_strlit("idle_active");
    reveal_strlit("paused");
    reveal_strlit("muted");
    reveal_strlit("volume");
    reveal_strlit("title");
    reveal_strlit("playlist_pos");
    assert("mpv_name"@.len() == 8 && "pane_name"@.len() == 9 && "online"@.len() == 6
        && "idle_active"@.len() == 11 && "paused"@.len() == 6 && "muted"@.len() == 5
        && "volume"@.len() == 6 && "title"@.len() == 5 && "playlist_pos"@.len() == 12);
    assert("online"@[0] == 'o' && "paused"@[0] == 'p' && "volume"@[0] == 'v');
    assert("muted"@[0] == 'm' && "title"@[0] == 't');
    assert(distinct_keys(e));
    lemma_obj_at(e, 3);
    lemma_obj_at(e, 4);
    lemma_obj_at(e, 5);
    lemma_obj_at(e, 6);
    lemma_obj_at(e, 7);
    lemma_obj_at(e, 8);
}

pub proof fn lemma_pane_keys(p: PaneV, s: PaneStateV)
    ensures
        at(snapshot_pane(p, s), "name"@) == JsonV::Str(p.mpv_name),
        at(snapshot_pane(p, s), "pane_name"@) == JsonV::Str(p.pane_name),
        at(snapshot_pane(p, s), "online"@) == JsonV::Bool(s.online),
        at(snapshot_pane(p, s), "idle_active"@) == opt_bool_json(s.idle_active),
        at(snapshot_pane(p, s), "paused"@) == opt_bool_json(s.paused),
        at(snapshot_pane(p, s), "muted"@) == opt_bool_json(s.muted),
        at(snapshot_pane(p, s), "volume"@) == opt_double_json(s.volume),
        at(snapshot_pane(p, s), "title"@) == opt_str_json(s.title),
        at(snapshot_pane(p, s), "playlist_pos"@) == opt_int_json(s.playlist_pos),
{
    let e = seq![
        ("name"@, JsonV::Str(p.mpv_name)),
        ("pane_name"@, JsonV::Str(p.pane_name)),
        ("online"@, JsonV::Bool(s.online)),
        ("paused"@, opt_bool_json(s.paused)),
        ("muted"@, opt_bool_json(s.muted)),
        ("volume"@, opt_double_json(s.volume)),
        ("title"@, opt_str_json(s.title)),
        ("playlist_pos"@, opt_int_json(s.playlist_pos)),
        ("idle_active"@, opt_bool_json(s.idle_active)),
    ];
    reveal_strlit("name");
    reveal_strlit("pane_name");
    reveal_strlit("online");
    reveal_strlit("idle_active");
    reveal_strlit("paused");
    reveal_strlit("muted");
    reveal_strlit("volume");
    reveal_strlit("title");
    reveal_strlit("playlist_pos");
    assert("name"@.len() == 4 && "pane_name"@.len() == 9 && "online"@.len() == 6
        && "idle_active"@.len() == 11 && "paused"@.len() == 6 && "muted"@.len() == 5
        && "volume"@.len() == 6 && "title"@.len() == 5 && "playlist_pos"@.len() == 12);
    assert("online"@[0] == 'o' && "paused"@[0] == 'p' && "volume"@[0] == 'v');
    assert("muted"@[0] == 'm' && "title"@[0] == 't');
    assert(distinct_keys(e));
    lemma_obj_at(e, 0);
    lemma_obj_at(e, 1);
    lemma_obj_at(e, 2);
    lemma_obj_at(e, 3);
    lemma_obj_at(e, 4);
    lemma_obj_at(e, 5);
    lemma_obj_at(e, 6);
    lemma_obj_at(e, 7);
    lemma_obj_at(e, 8);
}

/// A pane of a snapshot is read as the state it was written from.
proof fn lemma_pane_given(p: PaneV, s: PaneStateV)
    ensures
        text_at(snapshot_pane(p, s), "name"@) == p.mpv_name,
        pane_given(p.mpv_name, snapshot_pane(p, s)) == (PaneStateV {
            mpv_name: p.mpv_name,
            pane_name: p.pane_name,
            ..s
        }),
{
    lemma_pane_keys(p, s);
}

/// What a client holds of a pane when it holds what the daemon knows, under the name
/// that the panes file gives it.
pub open spec fn as_known(n: NodeV, p: PaneV) -> PaneStateV {
    PaneStateV { mpv_name: p.mpv_name, pane_name: p.pane_name, ..known_state(n.states, p) }
}

pub open spec fn given_panes(n: NodeV) -> Seq<JsonV> {
    Seq::new(n.panes.len(), |i: int| snapshot_pane(n.panes[i], known_state(n.states, n.panes[i])))
}

proof fn lemma_with_panes(s: AppV, n: NodeV, k: int)
    requires
        0 <= k <= n.panes.len(),
        forall|i: int| 0 <= i < n.panes.len() ==> (#[trigger] n.panes[i]).mpv_name.len() > 0,
        forall|i: int, j: int|
            0 <= i < j < n.panes.len() ==> (#[trigger] n.panes[i]).mpv_name != (
            #[trigger] n.panes[j]).mpv_name,
    ensures
        ({
            let t = with_panes(s, given_panes(n).take(k));
            &&& t.hostname == s.hostname && t.platform == s.platform && t.ip == s.ip && t.layout
                == s.layout && t.home == s.home
            &&& t.pane_order == s.pane_order + Seq::new(k as nat, |i: int| n.panes[i].mpv_name)
            &&& forall|i: int|
                0 <= i < k ==> board_get(t.panes, (#[trigger] n.panes[i]).mpv_name) == Some(
                    as_known(n, n.panes[i]),
                )
        }),
    decreases k,
{
    let g = given_panes(n);
    if k == 0 {
        assert(s.pane_order + Seq::new(0, |i: int| n.panes[i].mpv_name) =~= s.pane_order);
    } else {
        lemma_with_panes(s, n, k - 1);
        let before = with_panes(s, g.take(k - 1));
        let t = with_panes(s, g.take(k));
        assert(g.take(k).drop_last() =~= g.take(k - 1));
        let p = n.panes[k - 1];
        assert(g.take(k).last() == snapshot_pane(p, known_state(n.states, p)));
        lemma_pane_given(p, known_state(n.states, p));
        let q = as_known(n, p);
        assert(t.panes == board_put(before.panes, q));
        assert(t.pane_order =~= s.pane_order + Seq::new(k as nat, |i: int| n.panes[i].mpv_name));
        assert forall|i: int| 0 <= i < k implies board_get(
            t.panes,
            (#[trigger] n.panes[i]).mpv_name,
        ) == Some(as_known(n, n.panes[i])) by {
            if i < k - 1 {
                putting_touches_one_pane(before.panes, q, n.panes[i].mpv_name);
            } else {
                what_was_put_is_found(before.panes, q);
            }
        }
    }
}

/// A client that connects is synchronized by the snapshot alone: it lists the panes of
/// the node in their order and holds of each what the daemon knows. It knows the
/// node's name, platform, address and layout.
pub proof fn snapshot_synchronizes_a_client(
    s: AppV,
    n: NodeV,
    ip: Seq<char>,
    home: Seq<char>,
    hosts: Seq<HostV>,
    layouts: Seq<Seq<char>>,
)
    requires
        forall|i: int| 0 <= i < n.panes.len() ==> (#[trigger] n.panes[i]).mpv_name.len() > 0,
        forall|i: int, j: int|
            0 <= i < j < n.panes.len() ==> (#[trigger] n.panes[i]).mpv_name != (
            #[trigger] n.panes[j]).mpv_name,
    ensures
        ({
            let t = after_event(s, snapshot_of(n, ip, home, hosts), layouts);
            &&& t.hostname == n.hostname
            &&& t.platform == n.platform
            &&& t.ip == ip
            &&& t.layout == n.layout
            &&& t.home == home
            &&& t.pane_order == Seq::new(n.panes.len(), |i: int| n.panes[i].mpv_name)
            &&& forall|i: int|
                0 <= i < n.panes.len() ==> board_get(t.panes, (#[trigger] n.panes[i]).mpv_name)
                    == Some(as_known(n, n.panes[i]))
        }),
{
    let g = given_panes(n);
    let e = seq![
        ("event"@, JsonV::Str("node:snapshot"@)),
        ("hostname"@, JsonV::Str(n.hostname)),
        ("platform"@, JsonV::Str(n.platform)),
        ("ip"@, JsonV::Str(ip)),
        ("layout"@, JsonV::Str(n.layout)),
        ("home"@, JsonV::Str(home)),
        ("panes"@, JsonV::Arr(g)),
        ("known_hosts"@, JsonV::Arr(Seq::new(hosts.len(), |i: int| snapshot_host(hosts[i])))),
    ];
    let v = snapshot_of(n, ip, home, hosts);
    assert(v == obj(e));
    reveal_strlit("event");
    reveal_strlit("hostname");
    reveal_strlit("platform");
    reveal_strlit("ip");
    reveal_strlit("layout");
    reveal_strlit("home");
    reveal_strlit("panes");
    reveal_strlit("known_hosts");
    assert("event"@.len() == 5 && "hostname"@.len() == 8 && "platform"@.len() == 8 && "ip"@.len()
        == 2 && "layout"@.len() == 6 && "home"@.len() == 4 && "panes"@.len() == 5
        && "known_hosts"@.len() == 11);
    assert("event"@[0] == 'e' && "panes"@[0] == 'p');
    assert("hostname"@[0] == 'h' && "platform"@[0] == 'p');
    assert(distinct_keys(e));
    lemma_obj_at(e, 0);
    lemma_obj_at(e, 1);
    lemma_obj_at(e, 2);
    lemma_obj_at(e, 3);
    lemma_obj_at(e, 4);
    lemma_obj_at(e, 5);
    lemma_obj_at(e, 6);
    let base = AppV {
        pane_order: Seq::empty(),
        panes: Seq::empty(),
        hostname: n.hostname,
        platform: n.platform,
        ip,
        layout: n.layout,
        home,
        layouts,
        ..s
    };
    lemma_with_panes(base, n, n.panes.len() as int);
    assert(g.take(g.len() as int) =~= g);
    let names = Seq::new(n.panes.len(), |i: int| n.panes[i].mpv_name);
    assert(Seq::empty() + names =~= names);
    assert(after_event(s, v, layouts) == with_panes(base, g));
}

/// A client that holds the daemon's state of a pane still does after the daemon took
/// in a message of the player and told its clients.
pub proof fn changes_are_mirrored(s: AppV, d: PaneStateV, m: JsonV, layouts: Seq<Seq<char>>)
    requires
        board_get(s.panes, d.mpv_name) == Some(d),
    ensures
        match relayed(d.mpv_name, m) {
            Some(event) => board_get(after_event(s, event, layouts).panes, d.mpv_name) == Some(
                after_message(d, m),
            ),
            None => after_message(d, m) == d,
        },
{
    lemma_words();
    let name = d.mpv_name;
    reveal_strlit("event");
    reveal_strlit("pane");
    reveal_strlit("property");
    reveal_strlit("value");
    reveal_strlit("items");
    assert("event"@.len() == 5 && "pane"@.len() == 4 && "property"@.len() == 8 && "value"@.len() == 5
        && "items"@.len() == 5);
    assert("event"@[0] == 'e' && "value"@[0] == 'v' && "items"@[0] == 'i');
    match reported(m) {
        Some(p) => {
            if observed().contains(p) {
                let e = seq![
                    ("pane"@, JsonV::Str(name)),
                    ("event"@, JsonV::Str("property-change"@)),
                    ("property"@, JsonV::Str(p)),
                    ("value"@, at(m, "data"@)),
                ];
                assert(property_event(name, p, at(m, "data"@)) == obj(e));
                assert(distinct_keys(e));
                lemma_obj_at(e, 0);
                lemma_obj_at(e, 1);
                lemma_obj_at(e, 2);
                lemma_obj_at(e, 3);
                what_was_put_is_found(s.panes, after_property(d, p, at(m, "data"@)));
            } else {
                crate::protocol::silent_messages_change_nothing(d, m);
            }
        },
        None => {
            let e = seq![
                ("event"@, JsonV::Str("node:playlist"@)),
                ("pane"@, JsonV::Str(name)),
                ("items"@, at(m, "data"@)),
            ];
            assert(playlist_event(name, at(m, "data"@)) == obj(e));
            assert(distinct_keys(e));
            lemma_obj_at(e, 0);
        },
    }
}

/// A client that holds the daemon's state of a pane still does after it was told that
/// the player came up or went down.
pub proof fn connections_are_mirrored(s: AppV, d: PaneStateV, layouts: Seq<Seq<char>>)
    requires
        board_get(s.panes, d.mpv_name) == Some(d),
    ensures
        ({
            let up = PaneStateV { online: true, ..d };
            let down = PaneStateV { online: false, ..d };
            &&& board_get(after_event(s, online_event(up), layouts).panes, d.mpv_name) == Some(up)
            &&& board_get(after_event(s, offline_event(d.mpv_name), layouts).panes, d.mpv_name)
                == Some(down)
        }),
{
    lemma_words();
    let name = d.mpv_name;
    let up = PaneStateV { online: true, ..d };
    let down = PaneStateV { online: false, ..d };
    reveal_strlit("event");
    reveal_strlit("pane");
    reveal_strlit("state");
    assert("event"@.len() == 5 && "pane"@.len() == 4 && "state"@.len() == 5);
    assert("event"@[0] == 'e' && "state"@[0] == 's');
    let e = seq![
        ("pane"@, JsonV::Str(name)),
        ("event"@, JsonV::Str("online"@)),
        ("state"@, state_json(up)),
    ];
    assert(online_event(up) == obj(e));
    assert(distinct_keys(e));
    lemma_obj_at(e, 0);
    lemma_obj_at(e, 1);
    lemma_obj_at(e, 2);
    lemma_state_keys(up);
    assert(state_applied(up, state_json(up)) == up);
    let f = seq![("pane"@, JsonV::Str(name)), ("event"@, JsonV::Str("offline"@))];
    assert(offline_event(name) == obj(f));
    assert(distinct_keys(f));
    lemma_obj_at(f, 0);
    lemma_obj_at(f, 1);
    what_was_put_is_found(s.panes, up);
    what_was_put_is_found(s.panes, down);
}

} // verus!
