//! What the daemon knows of a pane, and the messages that pass between the daemon,
//! the players and the clients.
use crate::config::Host;
use crate::json::{
    arr3, at, bool_of, double_bits, double_of, entries, i64_of, jsons, obj, obj1, obj2, obj3,
    opt_bool, parsed, str_of, Double, Json, JsonV, NumV,
};
use crate::names::PlaylistItem;
use crate::text::{opt, same, trim, trimmed};
use vstd::prelude::*;

verus! {

/// The live state of a pane. What the player has not reported is unknown.
#[derive(Debug)]
pub struct PaneState {
    pub mpv_name: String,
    pub pane_name: String,
    pub online: bool,
    pub idle_active: Option<bool>,
    pub paused: Option<bool>,
    pub muted: Option<bool>,
    pub volume: Option<Double>,
    pub title: Option<String>,
    pub playlist_pos: Option<i64>,
}

pub struct PaneStateV {
    pub mpv_name: Seq<char>,
    pub pane_name: Seq<char>,
    pub online: bool,
    pub idle_active: Option<bool>,
    pub paused: Option<bool>,
    pub muted: Option<bool>,
    pub volume: Option<u64>,
    pub title: Option<Seq<char>>,
    pub playlist_pos: Option<i64>,
}

/// A pane of which nothing has been reported.
pub open spec fn fresh_state(mpv_name: Seq<char>, pane_name: Seq<char>) -> PaneStateV {
    PaneStateV {
        mpv_name,
        pane_name,
        online: false,
        idle_active: None,
        paused: None,
        muted: None,
        volume: None,
        title: None,
        playlist_pos: None,
    }
}

impl PaneState {
    pub open spec fn view(&self) -> PaneStateV {
        PaneStateV {
            mpv_name: self.mpv_name@,
            pane_name: self.pane_name@,
            online: self.online,
            idle_active: self.idle_active,
            paused: self.paused,
            muted: self.muted,
            volume: double_bits(self.volume),
            title: opt(self.title),
            playlist_pos: self.playlist_pos,
        }
    }

    /// A pane of which nothing has been reported.
    pub fn new(mpv_name: &str, pane_name: &str) -> (r: PaneState)
        ensures
            r.view() == fresh_state(mpv_name@, pane_name@),
    {
        PaneState {
            mpv_name: mpv_name.to_owned(),
            pane_name: pane_name.to_owned(),
            online: false,
            idle_active: None,
            paused: None,
            muted: None,
            volume: None,
            title: None,
            playlist_pos: None,
        }
    }

    /// A copy of the state.
    pub fn copy(&self) -> (r: PaneState)
        ensures
            r.view() == self.view(),
    {
        let volume: Option<Double> = match &self.volume {
            Some(v) => Some(v.copy()),
            None => None,
        };
        let title: Option<String> = match &self.title {
            Some(t) => Some(t.clone()),
            None => None,
        };
        PaneState {
            mpv_name: self.mpv_name.clone(),
            pane_name: self.pane_name.clone(),
            online: self.online,
            idle_active: self.idle_active,
            paused: self.paused,
            muted: self.muted,
            volume,
            title,
            playlist_pos: self.playlist_pos,
        }
    }
}

pub open spec fn state_views(v: Seq<PaneState>) -> Seq<PaneStateV> {
    Seq::new(v.len(), |i: int| v[i].view())
}

/// The identity of a pane, as a snapshot gives it.
#[derive(Debug)]
pub struct PaneInfo {
    pub name: String,
    pub pane_name: String,
}

pub struct PaneInfoV {
    pub name: Seq<char>,
    pub pane_name: Seq<char>,
}

impl PaneInfo {
    pub open spec fn view(&self) -> PaneInfoV {
        PaneInfoV { name: self.name@, pane_name: self.pane_name@ }
    }
}

pub open spec fn info_views(v: Seq<PaneInfo>) -> Seq<PaneInfoV> {
    Seq::new(v.len(), |i: int| v[i].view())
}

/// What the daemon tells its clients.
#[allow(inconsistent_fields)]
#[derive(Debug)]
pub enum DaemonEvent {
    NodeSnapshot {
        hostname: String,
        platform: String,
        ip: String,
        layout: String,
        home: String,
        panes: Vec<PaneInfo>,
        known_hosts: Vec<Host>,
    },
    Online { pane: String, state: PaneState },
    Offline { pane: String },
    PropertyChange { pane: String, property: String, value: Json },
    NodeDown,
    NodeLayout { layout: String },
    NodePlaylist { pane: String, items: Vec<PlaylistItem> },
    NodePlaylistSaved { pane: String, path: String },
    NodeInfo { hostname: String, platform: String, panes: Vec<PaneState> },
    NodeRestartPane { pane: String },
    NodeRestartAll,
}

// ---------------------------------------------------------------------------
// State as JSON
// ---------------------------------------------------------------------------

pub open spec fn opt_bool_json(b: Option<bool>) -> JsonV {
    match b {
        Some(x) => JsonV::Bool(x),
        None => JsonV::Null,
    }
}

pub open spec fn opt_str_json(s: Option<Seq<char>>) -> JsonV {
    match s {
        Some(x) => JsonV::Str(x),
        None => JsonV::Null,
    }
}

pub open spec fn opt_double_json(d: Option<u64>) -> JsonV {
    match d {
        Some(x) => JsonV::Num(NumV::Float(x)),
        None => JsonV::Null,
    }
}

pub open spec fn opt_int_json(n: Option<i64>) -> JsonV {
    match n {
        Some(x) => JsonV::Num(NumV::Int(x as int)),
        None => JsonV::Null,
    }
}

/// A state as clients get it; what is unknown is null.
pub open spec fn state_json(s: PaneStateV) -> JsonV {
    obj(
        seq![
            ("mpv_name"@, JsonV::Str(s.mpv_name)),
            ("pane_name"@, JsonV::Str(s.pane_name)),
            ("online"@, JsonV::Bool(s.online)),
            ("idle_active"@, opt_bool_json(s.idle_active)),
            ("paused"@, opt_bool_json(s.paused)),
            ("muted"@, opt_bool_json(s.muted)),
            ("volume"@, opt_double_json(s.volume)),
            ("title"@, opt_str_json(s.title)),
            ("playlist_pos"@, opt_int_json(s.playlist_pos)),
        ],
    )
}

fn opt_str(s: &Option<String>) -> (r: Json)
    ensures
        r.view() == opt_str_json(opt(*s)),
{
    match s {
        Some(x) => Json::string(x.as_str()),
        None => Json::Null,
    }
}

fn opt_double(d: &Option<Double>) -> (r: Json)
    ensures
        r.view() == opt_double_json(double_bits(*d)),
{
    match d {
        Some(x) => x.to_json(),
        None => Json::Null,
    }
}

fn opt_int(n: Option<i64>) -> (r: Json)
    ensures
        r.view() == opt_int_json(n),
{
    match n {
        Some(x) => Json::integer(x),
        None => Json::Null,
    }
}

impl PaneState {
    /// The state as clients get it.
    pub fn to_json(&self) -> (r: Json)
        ensures
            r.view() == state_json(self.view()),
    {
        let v: Vec<(String, Json)> = vec![
            ("mpv_name".to_owned(), Json::string(self.mpv_name.as_str())),
            ("pane_name".to_owned(), Json::string(self.pane_name.as_str())),
            ("online".to_owned(), Json::Bool(self.online)),
            ("idle_active".to_owned(), opt_bool(self.idle_active)),
            ("paused".to_owned(), opt_bool(self.paused)),
            ("muted".to_owned(), opt_bool(self.muted)),
            ("volume".to_owned(), opt_double(&self.volume)),
            ("title".to_owned(), opt_str(&self.title)),
            ("playlist_pos".to_owned(), opt_int(self.playlist_pos)),
        ];
        let s: Json = Json::Obj(v);
        proof {
            let e = self.view();
            assert(entries(v@) =~= seq![
                ("mpv_name"@, JsonV::Str(e.mpv_name)),
                ("pane_name"@, JsonV::Str(e.pane_name)),
                ("online"@, JsonV::Bool(e.online)),
                ("idle_active"@, opt_bool_json(e.idle_active)),
                ("paused"@, opt_bool_json(e.paused)),
                ("muted"@, opt_bool_json(e.muted)),
                ("volume"@, opt_double_json(e.volume)),
                ("title"@, opt_str_json(e.title)),
                ("playlist_pos"@, opt_int_json(e.playlist_pos)),
            ]);
        }
        s
    }
}

// ---------------------------------------------------------------------------
// Events
// ---------------------------------------------------------------------------

pub open spec fn offline_event(pane: Seq<char>) -> JsonV {
    obj(seq![("pane"@, JsonV::Str(pane)), ("event"@, JsonV::Str("offline"@))])
}

pub open spec fn online_event(s: PaneStateV) -> JsonV {
    obj(
        seq![
            ("pane"@, JsonV::Str(s.mpv_name)),
            ("event"@, JsonV::Str("online"@)),
            ("state"@, state_json(s)),
        ],
    )
}

/// What a client that has just connected is told of a pane.
pub open spec fn greeting_event(s: PaneStateV) -> JsonV {
    obj(
        seq![
            ("pane"@, JsonV::Str(s.mpv_name)),
            (
                "event"@,
                JsonV::Str(
                    if s.online {
                        "online"@
                    } else {
                        "offline"@
                    },
                ),
            ),
            ("state"@, state_json(s)),
        ],
    )
}

pub open spec fn property_event(pane: Seq<char>, property: Seq<char>, value: JsonV) -> JsonV {
    obj(
        seq![
            ("pane"@, JsonV::Str(pane)),
            ("event"@, JsonV::Str("property-change"@)),
            ("property"@, JsonV::Str(property)),
            ("value"@, value),
        ],
    )
}

pub open spec fn playlist_event(pane: Seq<char>, items: JsonV) -> JsonV {
    obj(
        seq![
            ("event"@, JsonV::Str("node:playlist"@)),
            ("pane"@, JsonV::Str(pane)),
            ("items"@, items),
        ],
    )
}

/// The message that a pane went down.
pub fn offline_message(pane: &str) -> (r: Json)
    ensures
        r.view() == offline_event(pane@),
{
    obj2("pane", Json::string(pane), "event", Json::string("offline"))
}

/// What a client that has just connected is told of each pane.
pub fn greeting(states: &Vec<PaneState>) -> (r: Vec<Json>)
    ensures
        jsons(r@) == Seq::new(states@.len(), |i: int| greeting_event(states@[i].view())),
{
    let mut out: Vec<Json> = Vec::new();
    for i in 0..states.len()
        invariant
            out.len() == i,
            forall|k: int| 0 <= k < i ==> (#[trigger] out@[k]).view() == greeting_event(states@[k].view()),
    {
        let s: &PaneState = &states[i];
        let event: &str = if s.online {
            "online"
        } else {
            "offline"
        };
        out.push(
            obj3(
                "pane",
                Json::string(s.mpv_name.as_str()),
                "event",
                Json::string(event),
                "state",
                s.to_json(),
            ),
        );
    }
    assert(jsons(out@) =~= Seq::new(states@.len(), |i: int| greeting_event(states@[i].view())));
    out
}

// ---------------------------------------------------------------------------
// The player's side
// ---------------------------------------------------------------------------

/// The properties that the daemon asks each player to report, in the order of
/// their subscription numbers.
pub open spec fn observed() -> Seq<Seq<char>> {
    seq![
        "pause"@, "volume"@, "media-title"@, "playlist-pos"@, "mute"@, "idle-active"@,
        "playlist-count"@, "time-pos"@, "duration"@,
    ]
}

/// The request to report a property.
pub open spec fn subscription(id: int, property: Seq<char>) -> JsonV {
    obj(
        seq![
            (
                "command"@,
                JsonV::Arr(
                    seq![
                        JsonV::Str("observe_property"@),
                        JsonV::Num(NumV::Int(id)),
                        JsonV::Str(property),
                    ],
                ),
            ),
        ],
    )
}

fn observed_names() -> (r: Vec<&'static str>)
    ensures
        r@.len() == observed().len(),
        forall|i: int| 0 <= i < r@.len() ==> (#[trigger] r@[i])@ == observed()[i],
{
    let v: Vec<&'static str> = vec![
        "pause", "volume", "media-title", "playlist-pos", "mute", "idle-active", "playlist-count",
        "time-pos", "duration",
    ];
    assert forall|i: int| 0 <= i < v@.len() implies (#[trigger] v@[i])@ == observed()[i] by {}
    v
}

/// The requests that a freshly connected player is sent: every observed property,
/// numbered from one.
pub fn subscriptions() -> (r: Vec<Json>)
    ensures
        jsons(r@) == Seq::new(observed().len(), |i: int| subscription(i + 1, observed()[i])),
{
    let names: Vec<&'static str> = observed_names();
    let mut out: Vec<Json> = Vec::new();
    for i in 0..names.len()
        invariant
            names@.len() == observed().len(),
            names@.len() == 9,
            forall|k: int| 0 <= k < names@.len() ==> (#[trigger] names@[k])@ == observed()[k],
            out.len() == i,
            forall|k: int| 0 <= k < i ==> (#[trigger] out@[k]).view() == subscription(k + 1, observed()[k]),
    {
        assert(names@[i as int]@ == observed()[i as int]);
        out.push(
            obj1(
                "command",
                arr3(Json::string("observe_property"), Json::integer(i as i64 + 1), Json::string(names[i])),
            ),
        );
    }
    assert(jsons(out@) =~= Seq::new(observed().len(), |i: int| subscription(i + 1, observed()[i])));
    out
}

/// The state after the player reported `data` for a property. Only the field of
/// that property changes; a value of another kind than the property's makes it
/// unknown.
pub open spec fn after_property(s: PaneStateV, property: Seq<char>, data: JsonV) -> PaneStateV {
    if property == "pause"@ {
        PaneStateV { paused: bool_of(data), ..s }
    } else if property == "volume"@ {
        PaneStateV { volume: double_of(data), ..s }
    } else if property == "media-title"@ {
        PaneStateV { title: str_of(data), ..s }
    } else if property == "playlist-pos"@ {
        PaneStateV { playlist_pos: i64_of(data), ..s }
    } else if property == "mute"@ {
        PaneStateV { muted: bool_of(data), ..s }
    } else if property == "idle-active"@ {
        PaneStateV { idle_active: bool_of(data), ..s }
    } else {
        s
    }
}

/// The property that a player's message reports.
pub open spec fn reported(m: JsonV) -> Option<Seq<char>> {
    if str_of(at(m, "event"@)) == Some("property-change"@) {
        Some(
            match str_of(at(m, "name"@)) {
                Some(p) => p,
                None => Seq::empty(),
            },
        )
    } else {
        None
    }
}

/// A player's answer to a playlist query.
pub open spec fn is_playlist_answer(m: JsonV) -> bool {
    str_of(at(m, "error"@)) == Some("success"@) && at(m, "data"@) is Arr
}

/// The state after a player's message.
pub open spec fn after_message(s: PaneStateV, m: JsonV) -> PaneStateV {
    match reported(m) {
        Some(p) => after_property(s, p, at(m, "data"@)),
        None => s,
    }
}

/// What clients are told of a player's message: observed properties and playlists
/// are passed on, anything else is not.
pub open spec fn relayed(name: Seq<char>, m: JsonV) -> Option<JsonV> {
    match reported(m) {
        Some(p) => if observed().contains(p) {
            Some(property_event(name, p, at(m, "data"@)))
        } else {
            None
        },
        None => if is_playlist_answer(m) {
            Some(playlist_event(name, at(m, "data"@)))
        } else {
            None
        },
    }
}

pub open spec fn opt_json(j: Option<Json>) -> Option<JsonV> {
    match j {
        Some(x) => Some(x.view()),
        None => None,
    }
}

fn field_copy(m: &Json, key: &str) -> (r: Json)
    ensures
        r.view() == at(m.view(), key@),
{
    match m.get(key) {
        Some(x) => x.copy(),
        None => Json::Null,
    }
}

fn is_observed(p: &str) -> (r: bool)
    ensures
        r == observed().contains(p@),
{
    let names: Vec<&'static str> = observed_names();
    for i in 0..names.len()
        invariant
            names@.len() == observed().len(),
            forall|k: int| 0 <= k < names@.len() ==> (#[trigger] names@[k])@ == observed()[k],
            forall|k: int| 0 <= k < i ==> observed()[k] != p@,
    {
        assert(names@[i as int]@ == observed()[i as int]);
        if same(names[i], p) {
            assert(observed().contains(p@));
            return true;
        }
    }
    false
}

/// Takes in one message of a player: updates the state and says what to tell the
/// clients.
pub fn apply_player_message(ps: &mut PaneState, m: &Json) -> (r: Option<Json>)
    ensures
        final(ps).view() == after_message(old(ps).view(), m.view()),
        opt_json(r) == relayed(old(ps).mpv_name@, m.view()),
{
    let is_change: bool = match m.str_at("event") {
        Some(e) => same(e.as_str(), "property-change"),
        None => false,
    };
    if is_change {
        let prop: String = match m.str_at("name") {
            Some(p) => p,
            None => String::new(),
        };
        let p: &str = prop.as_str();
        if same(p, "pause") {
            ps.paused = m.bool_at("data");
        } else if same(p, "volume") {
            ps.volume = m.double_at("data");
        } else if same(p, "media-title") {
            ps.title = m.str_at("data");
        } else if same(p, "playlist-pos") {
            ps.playlist_pos = m.i64_at("data");
        } else if same(p, "mute") {
            ps.muted = m.bool_at("data");
        } else if same(p, "idle-active") {
            ps.idle_active = m.bool_at("data");
        }
        if !is_observed(p) {
            return None;
        }
        let v: Vec<(String, Json)> = vec![
            ("pane".to_owned(), Json::string(ps.mpv_name.as_str())),
            ("event".to_owned(), Json::string("property-change")),
            ("property".to_owned(), Json::string(p)),
            ("value".to_owned(), field_copy(m, "data")),
        ];
        proof {
            assert(entries(v@) =~= seq![
                ("pane"@, JsonV::Str(ps.mpv_name@)),
                ("event"@, JsonV::Str("property-change"@)),
                ("property"@, JsonV::Str(p@)),
                ("value"@, at(m.view(), "data"@)),
            ]);
        }
        return Some(Json::Obj(v));
    }
    let success: bool = match m.str_at("error") {
        Some(e) => same(e.as_str(), "success"),
        None => false,
    };
    if success {
        if let Some(d) = m.get("data") {
            if d.as_array().is_some() {
                return Some(
                    obj3(
                        "event",
                        Json::string("node:playlist"),
                        "pane",
                        Json::string(ps.mpv_name.as_str()),
                        "items",
                        d.copy(),
                    ),
                );
            }
        }
    }
    None
}

/// Takes in one line of a player; a line that is no JSON is passed over.
pub fn handle_player_line(ps: &mut PaneState, line: &str) -> (r: Option<Json>)
    ensures
        match parsed(trimmed(line@)) {
            Some(m) => final(ps).view() == after_message(old(ps).view(), m) && opt_json(r) == relayed(
                old(ps).mpv_name@,
                m,
            ),
            None => final(ps).view() == old(ps).view() && r is None,
        },
{
    match Json::parse(trim(line)) {
        Some(m) => apply_player_message(ps, &m),
        None => None,
    }
}

/// The player could not be reached: the clients are told only if the pane was
/// online before.
pub fn connect_failed(ps: &mut PaneState) -> (r: Option<Json>)
    ensures
        final(ps).view() == (PaneStateV { online: false, ..old(ps).view() }),
        opt_json(r) == (if old(ps).online {
            Some(offline_event(old(ps).mpv_name@))
        } else {
            None
        }),
{
    if ps.online {
        ps.online = false;
        Some(offline_message(ps.mpv_name.as_str()))
    } else {
        None
    }
}

/// The player is connected and has taken the subscriptions.
pub fn connected(ps: &mut PaneState) -> (r: Json)
    ensures
        final(ps).view() == (PaneStateV { online: true, ..old(ps).view() }),
        r.view() == online_event(PaneStateV { online: true, ..old(ps).view() }),
{
    ps.online = true;
    obj3(
        "pane",
        Json::string(ps.mpv_name.as_str()),
        "event",
        Json::string("online"),
        "state",
        ps.to_json(),
    )
}

/// The connection to the player ended.
pub fn disconnected(ps: &mut PaneState) -> (r: Json)
    ensures
        final(ps).view() == (PaneStateV { online: false, ..old(ps).view() }),
        r.view() == offline_event(old(ps).mpv_name@),
{
    ps.online = false;
    offline_message(ps.mpv_name.as_str())
}

/// A message of the player never changes whose state it is, nor whether the pane
/// is online.
pub proof fn messages_keep_identity(s: PaneStateV, m: JsonV)
    ensures
        after_message(s, m).mpv_name == s.mpv_name,
        after_message(s, m).pane_name == s.pane_name,
        after_message(s, m).online == s.online,
{
}

/// Nothing is relayed but observed properties and playlists.
pub proof fn unobserved_properties_stay_silent(name: Seq<char>, m: JsonV, p: Seq<char>)
    requires
        reported(m) == Some(p),
        !observed().contains(p),
    ensures
        relayed(name, m) is None,
{
}

/// A message that is not relayed changes nothing.
pub proof fn silent_messages_change_nothing(s: PaneStateV, m: JsonV)
    requires
        relayed(s.mpv_name, m) is None,
    ensures
        after_message(s, m) == s,
{
    if let Some(p) = reported(m) {
        let o = observed();
        assert(o[0] == "pause"@ && o[1] == "volume"@ && o[2] == "media-title"@ && o[3]
            == "playlist-pos"@ && o[4] == "mute"@ && o[5] == "idle-active"@);
        assert(p != o[0] && p != o[1] && p != o[2] && p != o[3] && p != o[4] && p != o[5]);
    }
}

/// Every change of an observed property is passed on to the clients, with the value
/// that the player gave.
pub proof fn observed_changes_are_relayed(name: Seq<char>, m: JsonV, p: Seq<char>)
    requires
        str_of(at(m, "event"@)) == Some("property-change"@),
        str_of(at(m, "name"@)) == Some(p),
        observed().contains(p),
    ensures
        relayed(name, m) == Some(property_event(name, p, at(m, "data"@))),
{
}

} // verus!
