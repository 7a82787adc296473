//! What players, the daemon and its clients tell each other.
use crate::json::{
    at, bool_of, double_of, entries_map, i64_of, jsons, obj, parsed, str_of, Json, JsonV, NumV,
};
use crate::node_laws::{lemma_obj_one, lemma_obj_three, lemma_obj_two};
use crate::protocol::{
    apply_player_message, connect_failed, connected, disconnected, greeting, handle_player_line,
    opt_json, state_json, subscriptions, PaneState, PaneStateV,
};
use crate::text::trimmed;
use vstd::prelude::*;

verus! {

/// An object of four fields.
pub proof fn lemma_obj_four(
    a: Seq<char>,
    x: JsonV,
    b: Seq<char>,
    y: JsonV,
    c: Seq<char>,
    z: JsonV,
    d: Seq<char>,
    w: JsonV,
)
    ensures
        obj(seq![(a, x), (b, y), (c, z), (d, w)]) == JsonV::Obj(
            map![a => x, b => y, c => z, d => w],
        ),
{
    let e = seq![(a, x), (b, y), (c, z), (d, w)];
    lemma_obj_three(a, x, b, y, c, z);
    assert(e.drop_last() =~= seq![(a, x), (b, y), (c, z)]);
    assert(entries_map(e) =~= map![a => x, b => y, c => z, d => w]);
}

// ---------------------------------------------------------------------------
// Players
// ---------------------------------------------------------------------------

/// The properties that are asked of a player, by the number of the request.
pub open spec fn asked_for(i: int) -> Seq<char> {
    if i == 1 {
        "pause"@
    } else if i == 2 {
        "volume"@
    } else if i == 3 {
        "media-title"@
    } else if i == 4 {
        "playlist-pos"@
    } else if i == 5 {
        "mute"@
    } else if i == 6 {
        "idle-active"@
    } else if i == 7 {
        "playlist-count"@
    } else if i == 8 {
        "time-pos"@
    } else {
        "duration"@
    }
}

/// A player that has just connected is asked to report nine properties, each under a
/// number of its own.
pub proof fn players_are_asked_to_report(r: Vec<Json>, i: int)
    requires
        1 <= i <= 9,
        call_ensures(subscriptions, (), r),
    ensures
        r@.len() == 9,
        r@[i - 1].view() == JsonV::Obj(
            map!["command"@ => JsonV::Arr(
                seq![
                    JsonV::Str("observe_property"@),
                    JsonV::Num(NumV::Int(i)),
                    JsonV::Str(asked_for(i)),
                ],
            )],
        ),
{
    assert(jsons(r@).len() == r@.len());
    assert(jsons(r@)[i - 1] == r@[i - 1].view());
    lemma_obj_one(
        "command"@,
        JsonV::Arr(
            seq![
                JsonV::Str("observe_property"@),
                JsonV::Num(NumV::Int(i)),
                JsonV::Str(asked_for(i)),
            ],
        ),
    );
}

proof fn lemma_property_names()
    ensures
        "pause"@.len() == 5,
        "volume"@.len() == 6,
        "media-title"@.len() == 11 && "media-title"@[0] == 'm',
        "playlist-pos"@.len() == 12,
        "mute"@.len() == 4,
        "idle-active"@.len() == 11 && "idle-active"@[0] == 'i',
{
    reveal_strlit("pause");
    reveal_strlit("volume");
    reveal_strlit("media-title");
    reveal_strlit("playlist-pos");
    reveal_strlit("mute");
    reveal_strlit("idle-active");
}

/// A player's report of a property changes what is known of that property, to the value
/// reported, and nothing else of the pane. Every client is told the pane, the property and
/// the value.
pub proof fn reports_are_taken_in_and_passed_on(
    ps: &mut PaneState,
    m: &Json,
    r: Option<Json>,
    p: Seq<char>,
)
    requires
        at(m.view(), "event"@) == JsonV::Str("property-change"@),
        at(m.view(), "name"@) == JsonV::Str(p),
        call_ensures(apply_player_message, (ps, m), r),
    ensures
        ({
            let was = old(ps).view();
            let now = final(ps).view();
            let data = at(m.view(), "data"@);
            &&& p == "pause"@ ==> now == (PaneStateV { paused: bool_of(data), ..was })
            &&& p == "volume"@ ==> now == (PaneStateV { volume: double_of(data), ..was })
            &&& p == "media-title"@ ==> now == (PaneStateV { title: str_of(data), ..was })
            &&& p == "playlist-pos"@ ==> now == (PaneStateV { playlist_pos: i64_of(data), ..was })
            &&& p == "mute"@ ==> now == (PaneStateV { muted: bool_of(data), ..was })
            &&& p == "idle-active"@ ==> now == (PaneStateV { idle_active: bool_of(data), ..was })
            &&& p == "playlist-count"@ || p == "time-pos"@ || p == "duration"@ ==> now == was
        }),
        (exists|i: int| 1 <= i <= 9 && p == #[trigger] asked_for(i)) ==> opt_json(r) == Some(
            JsonV::Obj(
                map![
                    "pane"@ => JsonV::Str(old(ps).mpv_name@),
                    "event"@ => JsonV::Str("property-change"@),
                    "property"@ => JsonV::Str(p),
                    "value"@ => at(m.view(), "data"@),
                ],
            ),
        ),
        (forall|i: int| 1 <= i <= 9 ==> p != #[trigger] asked_for(i)) ==> r is None
            && final(ps).view() == old(ps).view(),
{
    lemma_property_names();
    reveal_strlit("playlist-count");
    reveal_strlit("time-pos");
    reveal_strlit("duration");
    assert("playlist-count"@.len() == 14 && "time-pos"@.len() == 8 && "duration"@.len() == 8);
    lemma_obj_four(
        "pane"@,
        JsonV::Str(old(ps).mpv_name@),
        "event"@,
        JsonV::Str("property-change"@),
        "property"@,
        JsonV::Str(p),
        "value"@,
        at(m.view(), "data"@),
    );
    let all = crate::protocol::observed();
    assert forall|i: int| 1 <= i <= 9 implies all[i - 1] == #[trigger] asked_for(i) by {}
    if exists|i: int| 1 <= i <= 9 && p == #[trigger] asked_for(i) {
        let i = choose|i: int| 1 <= i <= 9 && p == #[trigger] asked_for(i);
        assert(all[i - 1] == p);
    }
    if forall|i: int| 1 <= i <= 9 ==> p != #[trigger] asked_for(i) {
        if all.contains(p) {
            let k = choose|k: int| 0 <= k < all.len() && all[k] == p;
            assert(asked_for(k + 1) == p);
        }
        assert(p != asked_for(1) && p != asked_for(2) && p != asked_for(3) && p != asked_for(4)
            && p != asked_for(5) && p != asked_for(6));
    }
}

/// A playlist that a player answers with is told to every client, with the pane it is of;
/// it changes nothing of what is known. Any other message is passed over.
pub proof fn playlists_are_passed_on(ps: &mut PaneState, m: &Json, r: Option<Json>)
    requires
        at(m.view(), "event"@) != JsonV::Str("property-change"@),
        call_ensures(apply_player_message, (ps, m), r),
    ensures
        final(ps).view() == old(ps).view(),
        at(m.view(), "error"@) == JsonV::Str("success"@) && at(m.view(), "data"@) is Arr
            ==> opt_json(r) == Some(
            JsonV::Obj(
                map![
                    "event"@ => JsonV::Str("node:playlist"@),
                    "pane"@ => JsonV::Str(old(ps).mpv_name@),
                    "items"@ => at(m.view(), "data"@),
                ],
            ),
        ),
        !(at(m.view(), "error"@) == JsonV::Str("success"@) && at(m.view(), "data"@) is Arr)
            ==> r is None,
{
    lemma_obj_three(
        "event"@,
        JsonV::Str("node:playlist"@),
        "pane"@,
        JsonV::Str(old(ps).mpv_name@),
        "items"@,
        at(m.view(), "data"@),
    );
}

/// A line of a player is taken as the message that it stands for; a line that stands for
/// none is passed over.
pub proof fn lines_are_taken_as_messages(ps: &mut PaneState, line: &str, r: Option<Json>)
    requires
        call_ensures(handle_player_line, (ps, line), r),
    ensures
        parsed(trimmed(line@)) is None ==> r is None && final(ps).view() == old(ps).view(),
        parsed(trimmed(line@)) matches Some(m) ==> final(ps).view()
            == crate::protocol::after_message(old(ps).view(), m) && opt_json(r)
            == crate::protocol::relayed(old(ps).mpv_name@, m),
{
}

/// The clients are told when a pane comes up, with all that is known of it, and when it
/// goes down; a pane that was down already is not announced again.
pub proof fn comings_and_goings_are_announced(
    up: &mut PaneState,
    a: Json,
    down: &mut PaneState,
    b: Json,
    lost: &mut PaneState,
    c: Option<Json>,
)
    requires
        call_ensures(connected, (up,), a),
        call_ensures(disconnected, (down,), b),
        call_ensures(connect_failed, (lost,), c),
    ensures
        final(up).view() == (PaneStateV { online: true, ..old(up).view() }),
        final(down).view() == (PaneStateV { online: false, ..old(down).view() }),
        final(lost).view() == (PaneStateV { online: false, ..old(lost).view() }),
        a.view() == JsonV::Obj(
            map![
                "pane"@ => JsonV::Str(old(up).mpv_name@),
                "event"@ => JsonV::Str("online"@),
                "state"@ => state_json(PaneStateV { online: true, ..old(up).view() }),
            ],
        ),
        b.view() == JsonV::Obj(
            map![
                "pane"@ => JsonV::Str(old(down).mpv_name@),
                "event"@ => JsonV::Str("offline"@),
            ],
        ),
        old(lost).online ==> opt_json(c) == Some(
            JsonV::Obj(
                map![
                    "pane"@ => JsonV::Str(old(lost).mpv_name@),
                    "event"@ => JsonV::Str("offline"@),
                ],
            ),
        ),
        !old(lost).online ==> c is None,
{
    lemma_obj_three(
        "pane"@,
        JsonV::Str(old(up).mpv_name@),
        "event"@,
        JsonV::Str("online"@),
        "state"@,
        state_json(PaneStateV { online: true, ..old(up).view() }),
    );
    lemma_obj_two(
        "pane"@,
        JsonV::Str(old(down).mpv_name@),
        "event"@,
        JsonV::Str("offline"@),
    );
    lemma_obj_two(
        "pane"@,
        JsonV::Str(old(lost).mpv_name@),
        "event"@,
        JsonV::Str("offline"@),
    );
}

// ---------------------------------------------------------------------------
// Clients
// ---------------------------------------------------------------------------

/// A client that has just connected is told of every pane, in order, whether it is online
/// and all that is known of it.
pub proof fn clients_are_greeted(states: &Vec<PaneState>, r: Vec<Json>, i: int)
    requires
        0 <= i < states@.len(),
        call_ensures(greeting, (states,), r),
    ensures
        r@.len() == states@.len(),
        r@[i].view() == JsonV::Obj(
            map![
                "pane"@ => JsonV::Str(states@[i].mpv_name@),
                "event"@ => JsonV::Str(
                    if states@[i].online {
                        "online"@
                    } else {
                        "offline"@
                    },
                ),
                "state"@ => state_json(states@[i].view()),
            ],
        ),
{
    assert(jsons(r@).len() == r@.len());
    assert(jsons(r@)[i] == r@[i].view());
    lemma_obj_three(
        "pane"@,
        JsonV::Str(states@[i].mpv_name@),
        "event"@,
        JsonV::Str(
            if states@[i].online {
                "online"@
            } else {
                "offline"@
            },
        ),
        "state"@,
        state_json(states@[i].view()),
    );
}

/// A state is told field by field; what is not known is null.
pub proof fn states_are_told_field_by_field(s: PaneStateV)
    ensures
        at(state_json(s), "mpv_name"@) == JsonV::Str(s.mpv_name),
        at(state_json(s), "pane_name"@) == JsonV::Str(s.pane_name),
        at(state_json(s), "online"@) == JsonV::Bool(s.online),
        at(state_json(s), "idle_active"@) == (if s.idle_active is Some {
            JsonV::Bool(s.idle_active->0)
        } else {
            JsonV::Null
        }),
        at(state_json(s), "paused"@) == (if s.paused is Some {
            JsonV::Bool(s.paused->0)
        } else {
            JsonV::Null
        }),
        at(state_json(s), "muted"@) == (if s.muted is Some {
            JsonV::Bool(s.muted->0)
        } else {
            JsonV::Null
        }),
        at(state_json(s), "volume"@) == (if s.volume is Some {
            JsonV::Num(NumV::Float(s.volume->0))
        } else {
            JsonV::Null
        }),
        at(state_json(s), "title"@) == (if s.title is Some {
            JsonV::Str(s.title->0)
        } else {
            JsonV::Null
        }),
        at(state_json(s), "playlist_pos"@) == (if s.playlist_pos is Some {
            JsonV::Num(NumV::Int(s.playlist_pos->0 as int))
        } else {
            JsonV::Null
        }),
{
    let e = seq![
        ("mpv_name"@, JsonV::Str(s.mpv_name)),
        ("pane_name"@, JsonV::Str(s.pane_name)),
        ("online"@, JsonV::Bool(s.online)),
        ("idle_active"@, crate::protocol::opt_bool_json(s.idle_active)),
        ("paused"@, crate::protocol::opt_bool_json(s.paused)),
        ("muted"@, crate::protocol::opt_bool_json(s.muted)),
        ("volume"@, crate::protocol::opt_double_json(s.volume)),
        ("title"@, crate::protocol::opt_str_json(s.title)),
        ("playlist_pos"@, crate::protocol::opt_int_json(s.playlist_pos)),
    ];
    reveal_strlit("mpv_name");
    reveal_strlit("pane_name");
    reveal_strlit("online");
    reveal_strlit("idle_active");
    reveal_strlit("paused");
    reveal_strlit("muted");
    reveal_strlit("volume");
    reveal_strlit("title");
    reveal_strlit("playlist_pos");
    assert("mpv_name"@.len() == 8 && "pane_name"@.len() == 9 && "online"@.len() == 6
        && "idle_active"@.len() == 11 && "paused"@.len() == 6 && "muted"@.len() == 5
        && "volume"@.len() == 6 && "title"@.len() == 5 && "playlist_pos"@.len() == 12);
    assert("online"@[0] == 'o' && "paused"@[0] == 'p' && "volume"@[0] == 'v' && "muted"@[0] == 'm'
        && "title"@[0] == 't');
    assert(crate::json::distinct_keys(e));
    crate::json::lemma_obj_at(e, 0);
    crate::json::lemma_obj_at(e, 1);
    crate::json::lemma_obj_at(e, 2);
    crate::json::lemma_obj_at(e, 3);
    crate::json::lemma_obj_at(e, 4);
    crate::json::lemma_obj_at(e, 5);
    crate::json::lemma_obj_at(e, 6);
    crate::json::lemma_obj_at(e, 7);
    crate::json::lemma_obj_at(e, 8);
}

} // verus!
