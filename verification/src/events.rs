//! The typed events of the daemon, as they are written for clients.
use crate::config::Host;
use crate::json::{entries, jsons, obj, obj1, obj2, obj3, Json, JsonV};
use crate::names::{PlaylistItem, PlaylistItemV};
use crate::node::snapshot_host;
use crate::protocol::{
    offline_event, online_event, opt_str_json, property_event, state_json, DaemonEvent, PaneInfo,
    PaneInfoV, PaneState,
};
use vstd::prelude::*;

verus! {

pub open spec fn info_json(p: PaneInfoV) -> JsonV {
    obj(seq![("name"@, JsonV::Str(p.name)), ("pane_name"@, JsonV::Str(p.pane_name))])
}

pub open spec fn item_json(i: PlaylistItemV) -> JsonV {
    obj(seq![("filename"@, JsonV::Str(i.filename)), ("title"@, opt_str_json(i.title))])
}

/// An event that carries nothing but its name.
pub open spec fn bare_event(name: Seq<char>) -> JsonV {
    obj(seq![("event"@, JsonV::Str(name))])
}

/// An event that carries one text.
pub open spec fn text_event(name: Seq<char>, key: Seq<char>, text: Seq<char>) -> JsonV {
    obj(seq![("event"@, JsonV::Str(name)), (key, JsonV::Str(text))])
}

/// An event as it is written: an object with the name of the event beside its fields.
pub open spec fn event_json(e: DaemonEvent) -> JsonV {
    match e {
        DaemonEvent::NodeSnapshot {
            hostname,
            platform,
            ip,
            layout,
            home,
            panes,
            known_hosts,
        } => obj(
            seq![
                ("event"@, JsonV::Str("node:snapshot"@)),
                ("hostname"@, JsonV::Str(hostname@)),
                ("platform"@, JsonV::Str(platform@)),
                ("ip"@, JsonV::Str(ip@)),
                ("layout"@, JsonV::Str(layout@)),
                ("home"@, JsonV::Str(home@)),
                (
                    "panes"@,
                    JsonV::Arr(Seq::new(panes@.len(), |i: int| info_json(panes@[i].view()))),
                ),
                (
                    "known_hosts"@,
                    JsonV::Arr(
                        Seq::new(known_hosts@.len(), |i: int| snapshot_host(known_hosts@[i].view())),
                    ),
                ),
            ],
        ),
        DaemonEvent::Online { pane, state } => obj(
            seq![
                ("event"@, JsonV::Str("online"@)),
                ("pane"@, JsonV::Str(pane@)),
                ("state"@, state_json(state.view())),
            ],
        ),
        DaemonEvent::Offline { pane } => text_event("offline"@, "pane"@, pane@),
        DaemonEvent::PropertyChange { pane, property, value } => obj(
            seq![
                ("event"@, JsonV::Str("property-change"@)),
                ("pane"@, JsonV::Str(pane@)),
                ("property"@, JsonV::Str(property@)),
                ("value"@, value.view()),
            ],
        ),
        DaemonEvent::NodeDown => bare_event("node:down"@),
        DaemonEvent::NodeLayout { layout } => text_event("node:layout"@, "layout"@, layout@),
        DaemonEvent::NodePlaylist { pane, items } => obj(
            seq![
                ("event"@, JsonV::Str("node:playlist"@)),
                ("pane"@, JsonV::Str(pane@)),
                (
                    "items"@,
                    JsonV::Arr(Seq::new(items@.len(), |i: int| item_json(items@[i].view()))),
                ),
            ],
        ),
        DaemonEvent::NodePlaylistSaved { pane, path } => obj(
            seq![
                ("event"@, JsonV::Str("node:playlist-saved"@)),
                ("pane"@, JsonV::Str(pane@)),
                ("path"@, JsonV::Str(path@)),
            ],
        ),
        DaemonEvent::NodeInfo { hostname, platform, panes } => obj(
            seq![
                ("event"@, JsonV::Str("node:info"@)),
                ("hostname"@, JsonV::Str(hostname@)),
                ("platform"@, JsonV::Str(platform@)),
                (
                    "panes"@,
                    JsonV::Arr(Seq::new(panes@.len(), |i: int| state_json(panes@[i].view()))),
                ),
            ],
        ),
        DaemonEvent::NodeRestartPane { pane } => text_event("node:restart-pane"@, "pane"@, pane@),
        DaemonEvent::NodeRestartAll => bare_event("node:restart-all"@),
    }
}

fn infos(v: &Vec<PaneInfo>) -> (r: Json)
    ensures
        r.view() == JsonV::Arr(Seq::new(v@.len(), |i: int| info_json(v@[i].view()))),
{
    let mut out: Vec<Json> = Vec::new();
    for i in 0..v.len()
        invariant
            out.len() == i,
            forall|k: int| 0 <= k < i ==> (#[trigger] out@[k]).view() == info_json(v@[k].view()),
    {
        out.push(
            obj2(
                "name",
                Json::string(v[i].name.as_str()),
                "pane_name",
                Json::string(v[i].pane_name.as_str()),
            ),
        );
    }
    assert(jsons(out@) =~= Seq::new(v@.len(), |i: int| info_json(v@[i].view())));
    Json::Arr(out)
}

fn host_list(v: &Vec<Host>) -> (r: Json)
    ensures
        r.view() == JsonV::Arr(Seq::new(v@.len(), |i: int| snapshot_host(v@[i].view()))),
{
    let mut out: Vec<Json> = Vec::new();
    for i in 0..v.len()
        invariant
            out.len() == i,
            forall|k: int| 0 <= k < i ==> (#[trigger] out@[k]).view() == snapshot_host(v@[k].view()),
    {
        out.push(
            obj2(
                "label",
                Json::string(v[i].label.as_str()),
                "address",
                Json::string(v[i].address.as_str()),
            ),
        );
    }
    assert(jsons(out@) =~= Seq::new(v@.len(), |i: int| snapshot_host(v@[i].view())));
    Json::Arr(out)
}

fn item_list(v: &Vec<PlaylistItem>) -> (r: Json)
    ensures
        r.view() == JsonV::Arr(Seq::new(v@.len(), |i: int| item_json(v@[i].view()))),
{
    let mut out: Vec<Json> = Vec::new();
    for i in 0..v.len()
        invariant
            out.len() == i,
            forall|k: int| 0 <= k < i ==> (#[trigger] out@[k]).view() == item_json(v@[k].view()),
    {
        let title: Json = match &v[i].title {
            Some(t) => Json::string(t.as_str()),
            None => Json::Null,
        };
        out.push(obj2("filename", Json::string(v[i].filename.as_str()), "title", title));
    }
    assert(jsons(out@) =~= Seq::new(v@.len(), |i: int| item_json(v@[i].view())));
    Json::Arr(out)
}

fn state_list(v: &Vec<PaneState>) -> (r: Json)
    ensures
        r.view() == JsonV::Arr(Seq::new(v@.len(), |i: int| state_json(v@[i].view()))),
{
    let mut out: Vec<Json> = Vec::new();
    for i in 0..v.len()
        invariant
            out.len() == i,
            forall|k: int| 0 <= k < i ==> (#[trigger] out@[k]).view() == state_json(v@[k].view()),
    {
        out.push(v[i].to_json());
    }
    assert(jsons(out@) =~= Seq::new(v@.len(), |i: int| state_json(v@[i].view())));
    Json::Arr(out)
}

fn bare(name: &str) -> (r: Json)
    ensures
        r.view() == bare_event(name@),
{
    obj1("event", Json::string(name))
}

fn with_text(name: &str, key: &str, text: &str) -> (r: Json)
    ensures
        r.view() == text_event(name@, key@, text@),
{
    obj2("event", Json::string(name), key, Json::string(text))
}

fn four(a: (&str, Json), b: (&str, Json), c: (&str, Json), d: (&str, Json)) -> (r: Json)
    ensures
        r.view() == obj(
            seq![
                (a.0@, a.1.view()),
                (b.0@, b.1.view()),
                (c.0@, c.1.view()),
                (d.0@, d.1.view()),
            ],
        ),
{
    let ghost want = seq![
        (a.0@, a.1.view()),
        (b.0@, b.1.view()),
        (c.0@, c.1.view()),
        (d.0@, d.1.view()),
    ];
    let v: Vec<(String, Json)> = vec![
        (a.0.to_owned(), a.1),
        (b.0.to_owned(), b.1),
        (c.0.to_owned(), c.1),
        (d.0.to_owned(), d.1),
    ];
    assert(entries(v@) =~= want);
    Json::Obj(v)
}

impl DaemonEvent {
    /// The event as it is written for clients.
    pub fn to_json(&self) -> (r: Json)
        ensures
            r.view() == event_json(*self),
    {
        match self {
            DaemonEvent::NodeSnapshot {
                hostname,
                platform,
                ip,
                layout,
                home,
                panes,
                known_hosts,
            } => {
                let v: Vec<(String, Json)> = vec![
                    ("event".to_owned(), Json::string("node:snapshot")),
                    ("hostname".to_owned(), Json::string(hostname.as_str())),
                    ("platform".to_owned(), Json::string(platform.as_str())),
                    ("ip".to_owned(), Json::string(ip.as_str())),
                    ("layout".to_owned(), Json::string(layout.as_str())),
                    ("home".to_owned(), Json::string(home.as_str())),
                    ("panes".to_owned(), infos(panes)),
                    ("known_hosts".to_owned(), host_list(known_hosts)),
                ];
                proof {
                    assert(entries(v@) =~= seq![
                        ("event"@, JsonV::Str("node:snapshot"@)),
                        ("hostname"@, JsonV::Str(hostname@)),
                        ("platform"@, JsonV::Str(platform@)),
                        ("ip"@, JsonV::Str(ip@)),
                        ("layout"@, JsonV::Str(layout@)),
                        ("home"@, JsonV::Str(home@)),
                        (
                            "panes"@,
                            JsonV::Arr(
                                Seq::new(panes@.len(), |i: int| info_json(panes@[i].view())),
                            ),
                        ),
                        (
                            "known_hosts"@,
                            JsonV::Arr(
                                Seq::new(
                                    known_hosts@.len(),
                                    |i: int| snapshot_host(known_hosts@[i].view()),
                                ),
                            ),
                        ),
                    ]);
                }
                Json::Obj(v)
            },
            DaemonEvent::Online { pane, state } => obj3(
                "event",
                Json::string("online"),
                "pane",
                Json::string(pane.as_str()),
                "state",
                state.to_json(),
            ),
            DaemonEvent::Offline { pane } => with_text("offline", "pane", pane.as_str()),
            DaemonEvent::PropertyChange { pane, property, value } => four(
                ("event", Json::string("property-change")),
                ("pane", Json::string(pane.as_str())),
                ("property", Json::string(property.as_str())),
                ("value", value.copy()),
            ),
            DaemonEvent::NodeDown => bare("node:down"),
            DaemonEvent::NodeLayout { layout } => with_text("node:layout", "layout", layout.as_str()),
            DaemonEvent::NodePlaylist { pane, items } => obj3(
                "event",
                Json::string("node:playlist"),
                "pane",
                Json::string(pane.as_str()),
                "items",
                item_list(items),
            ),
            DaemonEvent::NodePlaylistSaved { pane, path } => obj3(
                "event",
                Json::string("node:playlist-saved"),
                "pane",
                Json::string(pane.as_str()),
                "path",
                Json::string(path.as_str()),
            ),
            DaemonEvent::NodeInfo { hostname, platform, panes } => four(
                ("event", Json::string("node:info")),
                ("hostname", Json::string(hostname.as_str())),
                ("platform", Json::string(platform.as_str())),
                ("panes", state_list(panes)),
            ),
            DaemonEvent::NodeRestartPane { pane } => with_text(
                "node:restart-pane",
                "pane",
                pane.as_str(),
            ),
            DaemonEvent::NodeRestartAll => bare("node:restart-all"),
        }
    }
}

// ---------------------------------------------------------------------------
// Laws
// ---------------------------------------------------------------------------

/// The typed events of panes are the messages that the daemon relays: the order in
/// which the fields of an object are written does not matter.
pub proof fn typed_events_are_the_messages(pane: String, state: PaneState, property: String, value: Json)
    requires
        pane@ == state.view().mpv_name,
    ensures
        event_json(DaemonEvent::Online { pane, state }) == online_event(state.view()),
        event_json(DaemonEvent::Offline { pane }) == offline_event(pane@),
        event_json(DaemonEvent::PropertyChange { pane, property, value }) == property_event(
            pane@,
            property@,
            value.view(),
        ),
{
    let name = JsonV::Str(pane@);
    lemma_swapped(name, JsonV::Str("online"@), seq![("state"@, state_json(state.view()))]);
    lemma_swapped(name, JsonV::Str("offline"@), Seq::empty());
    lemma_swapped(
        name,
        JsonV::Str("property-change"@),
        seq![("property"@, JsonV::Str(property@)), ("value"@, value.view())],
    );
    assert(seq![("event"@, JsonV::Str("online"@)), ("pane"@, name)] + seq![
        ("state"@, state_json(state.view())),
    ] =~= seq![
        ("event"@, JsonV::Str("online"@)),
        ("pane"@, name),
        ("state"@, state_json(state.view())),
    ]);
    assert(seq![("pane"@, name), ("event"@, JsonV::Str("online"@))] + seq![
        ("state"@, state_json(state.view())),
    ] =~= seq![
        ("pane"@, name),
        ("event"@, JsonV::Str("online"@)),
        ("state"@, state_json(state.view())),
    ]);
    assert(seq![("event"@, JsonV::Str("offline"@)), ("pane"@, name)] + Seq::empty() =~= seq![
        ("event"@, JsonV::Str("offline"@)),
        ("pane"@, name),
    ]);
    assert(seq![("pane"@, name), ("event"@, JsonV::Str("offline"@))] + Seq::empty() =~= seq![
        ("pane"@, name),
        ("event"@, JsonV::Str("offline"@)),
    ]);
    let change = JsonV::Str("property-change"@);
    assert(seq![("event"@, change), ("pane"@, name)] + seq![
        ("property"@, JsonV::Str(property@)),
        ("value"@, value.view()),
    ] =~= seq![
        ("event"@, change),
        ("pane"@, name),
        ("property"@, JsonV::Str(property@)),
        ("value"@, value.view()),
    ]);
    assert(seq![("pane"@, name), ("event"@, change)] + seq![
        ("property"@, JsonV::Str(property@)),
        ("value"@, value.view()),
    ] =~= seq![
        ("pane"@, name),
        ("event"@, change),
        ("property"@, JsonV::Str(property@)),
        ("value"@, value.view()),
    ]);
}

proof fn lemma_swapped(pane: JsonV, event: JsonV, rest: Seq<(Seq<char>, JsonV)>)
    ensures
        obj(seq![("event"@, event), ("pane"@, pane)] + rest) == obj(
            seq![("pane"@, pane), ("event"@, event)] + rest,
        ),
    decreases rest.len(),
{
    let a = seq![("event"@, event), ("pane"@, pane)];
    let b = seq![("pane"@, pane), ("event"@, event)];
    if rest.len() == 0 {
        reveal_strlit("event");
        reveal_strlit("pane");
        assert("event"@.len() == 5 && "pane"@.len() == 4);
        reveal_with_fuel(crate::json::entries_map, 3);
        assert(a + rest =~= a);
        assert(b + rest =~= b);
        assert(a.drop_last() =~= seq![("event"@, event)]);
        assert(b.drop_last() =~= seq![("pane"@, pane)]);
        assert(a.drop_last().drop_last() =~= Seq::empty());
        assert(b.drop_last().drop_last() =~= Seq::empty());
        assert(crate::json::entries_map(a) =~= crate::json::entries_map(b));
    } else {
        lemma_swapped(pane, event, rest.drop_last());
        assert((a + rest).drop_last() =~= a + rest.drop_last());
        assert((b + rest).drop_last() =~= b + rest.drop_last());
        assert((a + rest).last() == rest.last());
        assert((b + rest).last() == rest.last());
    }
}

} // verus!
