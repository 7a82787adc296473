//! What the keys of the small terminal are for, what watchers take in of a node's events,
//! and what is said of a pane.
use crate::console::as_sends;
use crate::console_laws::says;
use crate::glance::{glance_key, glance_model, glance_opened, load_playlist, typed_number};
use crate::json::{
    at, bool_of, double_of, field, i64_of, nearest_double, rounded_in_three, rounded_text, str_of, Json, JsonV,
    NumV,
};
use crate::key_laws::{lemma_to_daemon, lemma_to_player, number, to_daemon, to_player};
use crate::keys::{Key, KeyAction};
use crate::protocol::PaneState;
use crate::screen::Color;
use crate::text::{decimal, lines, strs, trimmed, uppercase};
use crate::watch::{apply_event, player_index, Player, PlayerV, Watch, WatchV};
use crate::watch_keys::{matches_model, WatchTurn, WatchWorkV};
use vstd::prelude::*;

verus! {

// ---------------------------------------------------------------------------
// Keys
// ---------------------------------------------------------------------------

/// What a key does is what `glance_model` says.
pub proof fn glance_keys_turn(app: &mut Watch, k: Key, shift: bool, r: WatchTurn)
    requires
        call_ensures(glance_key, (app, k, shift), r),
    ensures
        matches_model(final(app).view(), r, glance_model(old(app).view(), k, shift)),
{
}

/// On the dashboard down goes to the next pane and from the last to the first, up stops at
/// the first, and Enter opens the playlist file of the selected pane.
pub proof fn glance_keys_select_panes(s: WatchV, shift: bool)
    requires
        !s.show_details,
        !s.show_picker,
        !s.command_mode,
        s.selected < s.players.len() <= usize::MAX,
    ensures
        glance_model(s, Key::Down, shift).app == (WatchV {
            selected: if s.selected == s.players.len() - 1 {
                0
            } else {
                (s.selected + 1) as usize
            },
            ..s
        }),
        glance_model(s, Key::Char('j'), shift) == glance_model(s, Key::Down, shift),
        glance_model(s, Key::Up, shift).app == (WatchV {
            selected: if s.selected == 0 {
                0
            } else {
                (s.selected - 1) as usize
            },
            ..s
        }),
        glance_model(s, Key::Char('k'), shift) == glance_model(s, Key::Up, shift),
        glance_model(s, Key::Enter, shift).work == Some(
            WatchWorkV::Open { pane: s.players[s.selected as int].name },
        ),
        glance_model(s, Key::Tab, shift).app == (WatchV { command_mode: true, ..s }),
        glance_model(s, Key::Char('L'), shift).app == (WatchV { show_log: !s.show_log, ..s }),
        glance_model(s, Key::Char('q'), shift).action == KeyAction::Quit,
{
    let n = s.players.len() as int;
    if s.selected + 1 < n {
        vstd::arithmetic::div_mod::lemma_small_mod((s.selected + 1) as nat, n as nat);
    } else {
        vstd::arithmetic::div_mod::lemma_mod_self_0(n);
    }
}

/// What a key tells the selected player in command mode.
pub open spec fn told_at_a_glance(pane: Seq<char>, k: Key) -> Seq<JsonV> {
    let relative = JsonV::Str("relative"@);
    match k {
        Key::Char(' ') => seq![to_player(pane, "cycle"@, seq![JsonV::Str("pause"@)])],
        Key::Char('m') => seq![to_player(pane, "cycle"@, seq![JsonV::Str("mute"@)])],
        Key::Char('f') => seq![to_player(pane, "cycle"@, seq![JsonV::Str("fullscreen"@)])],
        Key::Char('j') => seq![to_player(pane, "seek"@, seq![number(-10), relative])],
        Key::Char('k') => seq![to_player(pane, "seek"@, seq![number(10), relative])],
        Key::Char('h') => seq![to_player(pane, "seek"@, seq![number(-60), relative])],
        Key::Char('l') => seq![to_player(pane, "seek"@, seq![number(60), relative])],
        Key::Char('=') => seq![
            to_player(pane, "add"@, seq![JsonV::Str("volume"@), number(5)]),
        ],
        Key::Char('-') => seq![
            to_player(
                pane,
                "add"@,
                seq![JsonV::Str("volume"@), JsonV::Num(NumV::Float(nearest_double(-5)))],
            ),
        ],
        Key::Char('n') => seq![to_player(pane, "playlist-next"@, Seq::empty())],
        Key::Char('N') => seq![to_player(pane, "playlist-prev"@, Seq::empty())],
        Key::Char('R') => seq![to_daemon("panebot:restart-pane"@, pane)],
        _ => Seq::empty(),
    }
}

/// In command mode the keys drive the selected player: space pauses, `m` mutes, `f` fills
/// the screen, `j` and `k` go ten seconds back and on, `h` and `l` a minute, `-` and `=`
/// make it quieter and louder, `n` and `N` go to the next and the previous item, and `R`
/// restarts the pane.
pub proof fn glance_command_mode_drives_the_player(s: WatchV, k: Key, shift: bool)
    requires
        !s.show_details,
        !s.show_picker,
        s.command_mode,
        s.selected < s.players.len(),
        k != Key::Char('q') && k != Key::Char('W') && k != Key::Enter && k != Key::Tab && k
            != Key::Char('L') && !(k == Key::Char('l') && shift),
    ensures
        glance_model(s, k, shift).out == told_at_a_glance(
            s.players[s.selected as int].name,
            k,
        ).map_values(|m: JsonV| says(m)),
        glance_model(s, k, shift).app == s,
        glance_model(s, k, shift).work is None,
{
    let pane = s.players[s.selected as int].name;
    let relative = JsonV::Str("relative"@);
    lemma_to_player(pane, "cycle"@, seq![JsonV::Str("pause"@)]);
    lemma_to_player(pane, "cycle"@, seq![JsonV::Str("mute"@)]);
    lemma_to_player(pane, "cycle"@, seq![JsonV::Str("fullscreen"@)]);
    lemma_to_player(pane, "seek"@, seq![number(-10), relative]);
    lemma_to_player(pane, "seek"@, seq![number(10), relative]);
    lemma_to_player(pane, "seek"@, seq![number(-60), relative]);
    lemma_to_player(pane, "seek"@, seq![number(60), relative]);
    lemma_to_player(pane, "add"@, seq![JsonV::Str("volume"@), number(5)]);
    lemma_to_player(
        pane,
        "add"@,
        seq![JsonV::Str("volume"@), JsonV::Num(NumV::Float(nearest_double(-5)))],
    );
    lemma_to_player(pane, "playlist-next"@, Seq::empty());
    lemma_to_player(pane, "playlist-prev"@, Seq::empty());
    lemma_to_daemon("panebot:restart-pane"@, pane);
    let t = told_at_a_glance(pane, k);
    assert(as_sends(t) =~= t.map_values(|m: JsonV| says(m)));
    assert(glance_model(s, k, shift).out =~= t.map_values(|m: JsonV| says(m)));
}

/// Over a playlist the keys go through the items and stop at the ends; in command mode
/// space plays the selected item and `r` takes it out of the player's list and out of the
/// list that is shown.
pub proof fn glance_keys_act_on_items(s: WatchV, shift: bool)
    requires
        s.show_details,
        s.jump_input.len() == 0,
        s.selected < s.players.len(),
        s.playlist_sel < s.playlist_items.len() <= usize::MAX,
    ensures
        ({
            let pane = s.players[s.selected as int].name;
            let at = seq![number(s.playlist_sel as int)];
            let n = s.playlist_items.len();
            &&& !s.command_mode ==> {
                &&& glance_model(s, Key::Down, shift).app.playlist_sel == (if s.playlist_sel == n
                    - 1 {
                    s.playlist_sel as int
                } else {
                    s.playlist_sel + 1
                })
                &&& glance_model(s, Key::Up, shift).app.playlist_sel == (if s.playlist_sel == 0 {
                    0
                } else {
                    s.playlist_sel - 1
                })
                &&& glance_model(s, Key::Char(' '), shift).out.len() == 0
            }
            &&& s.command_mode ==> {
                let r = glance_model(s, Key::Char('r'), shift);
                &&& glance_model(s, Key::Char(' '), shift).out == seq![
                    says(to_player(pane, "playlist-play-index"@, at)),
                ]
                &&& r.out == seq![says(to_player(pane, "playlist-remove"@, at))]
                &&& r.app.playlist_items == s.playlist_items.take(s.playlist_sel as int)
                    + s.playlist_items.skip(s.playlist_sel + 1)
                &&& r.app.playlist_sel == (if s.playlist_sel == n - 1 && s.playlist_sel > 0 {
                    s.playlist_sel - 1
                } else {
                    s.playlist_sel as int
                })
                &&& glance_model(s, Key::Char('n'), shift).out == seq![
                    says(to_player(pane, "playlist-next"@, Seq::empty())),
                ]
                &&& glance_model(s, Key::Char('N'), shift).out == seq![
                    says(to_player(pane, "playlist-prev"@, Seq::empty())),
                ]
                &&& glance_model(s, Key::Char('j'), shift).app.jump_input == "_"@
            }
            &&& !glance_model(s, Key::Esc, shift).app.show_details
            &&& glance_model(s, Key::Tab, shift).app.command_mode == !s.command_mode
        }),
{
    let pane = s.players[s.selected as int].name;
    let at = seq![number(s.playlist_sel as int)];
    lemma_to_player(pane, "playlist-play-index"@, at);
    lemma_to_player(pane, "playlist-remove"@, at);
    lemma_to_player(pane, "playlist-next"@, Seq::empty());
    lemma_to_player(pane, "playlist-prev"@, Seq::empty());
    let a = to_player(pane, "playlist-play-index"@, at);
    let b = to_player(pane, "playlist-remove"@, at);
    let c = to_player(pane, "playlist-next"@, Seq::empty());
    let d = to_player(pane, "playlist-prev"@, Seq::empty());
    assert(as_sends(seq![a]) =~= seq![says(a)]);
    assert(as_sends(seq![b]) =~= seq![says(b)]);
    assert(as_sends(seq![c]) =~= seq![says(c)]);
    assert(as_sends(seq![d]) =~= seq![says(d)]);
    assert(s.playlist_items.remove(s.playlist_sel as int) =~= s.playlist_items.take(
        s.playlist_sel as int,
    ) + s.playlist_items.skip(s.playlist_sel + 1));
}

/// A typed number selects that item, or the last one where there are not so many.
pub proof fn glance_jumps_to_items(s: WatchV, shift: bool, n: int)
    requires
        s.show_details,
        !s.command_mode,
        s.jump_input == decimal(n),
        0 <= n <= usize::MAX,
        0 < s.playlist_items.len() <= usize::MAX,
    ensures
        glance_model(s, Key::Enter, shift).app.playlist_sel == (if n < s.playlist_items.len() {
            n
        } else {
            s.playlist_items.len() - 1
        }),
        glance_model(s, Key::Enter, shift).app.jump_input.len() == 0,
        glance_model(s, Key::Esc, shift).app.jump_input.len() == 0,
        glance_model(s, Key::Esc, shift).app.playlist_sel == s.playlist_sel,
{
    crate::text::lemma_decimal_value(n);
    let d = decimal(n);
    assert(crate::text::is_digit(d[0]));
    assert(typed_number(d) == d);
}

/// A playlist file is shown entry by entry, without blank lines and lines that begin with
/// the sign of a comment.
pub proof fn glance_reads_entries(content: &str, r: Vec<String>)
    requires
        call_ensures(load_playlist, (Some(content),), r),
    ensures
        strs(r@) == lines(content@).filter(
            |l: Seq<char>| trimmed(l).len() > 0 && l[0] != '#',
        ).map_values(|l: Seq<char>| trimmed(l)),
{
    lemma_glanced(lines(content@));
}

proof fn lemma_glanced(ls: Seq<Seq<char>>)
    ensures
        crate::glance::glanced(ls) == ls.filter(
            |l: Seq<char>| trimmed(l).len() > 0 && l[0] != '#',
        ).map_values(|l: Seq<char>| trimmed(l)),
    decreases ls.len(),
{
    reveal(Seq::filter);
    reveal_strlit("#");
    let f = |l: Seq<char>| trimmed(l);
    let some = ls.filter(|l: Seq<char>| trimmed(l).len() > 0 && l[0] != '#');
    if ls.len() > 0 {
        lemma_glanced(ls.drop_last());
        let before = ls.drop_last().filter(|l: Seq<char>| trimmed(l).len() > 0 && l[0] != '#');
        let l = ls.last();
        if trimmed(l).len() > 0 {
            assert(l.len() > 0) by {
                crate::text::lemma_trim_start_shape(l);
                crate::text::lemma_trim_end_shape(crate::text::trim_start(l));
            }
            assert("#"@.is_prefix_of(l) <==> l[0] == '#') by {
                if l[0] == '#' {
                    assert("#"@ =~= l.subrange(0, 1));
                }
                if "#"@.is_prefix_of(l) {
                    assert(l.subrange(0, 1)[0] == l[0]);
                }
            }
            if l[0] != '#' {
                assert(some.map_values(f) =~= before.map_values(f).push(f(l)));
            }
        }
    } else {
        assert(some.map_values(f) =~= Seq::empty());
    }
}

/// A playlist that was opened is shown from the item that the player is at.
pub proof fn glance_shows_the_opened_file(app: &mut Watch, items: Vec<String>, r: ())
    requires
        old(app).selected < old(app).players@.len(),
        0 <= old(app).players@[old(app).selected as int].playlist_pos <= usize::MAX,
        call_ensures(glance_opened, (app, items), r),
    ensures
        final(app).view() == (WatchV {
            playlist_items: strs(items@),
            playlist_sel: old(app).players@[old(app).selected as int].playlist_pos as usize,
            show_details: true,
            command_mode: false,
            ..old(app).view()
        }),
{
    assert(old(app).view().players[old(app).selected as int] == old(app).players@[old(
        app,
    ).selected as int].view());
}

// ---------------------------------------------------------------------------
// Events
// ---------------------------------------------------------------------------

proof fn lemma_watch_event_names()
    ensures
        "bootstrap_complete"@.len() == 18,
        "online"@.len() == 6,
        "offline"@.len() == 7,
        "property-change"@.len() == 15,
        "node:down"@.len() == 9,
        "node:layout"@.len() == 11,
        "node:restart-pane"@.len() == 17,
        "node:restart-all"@.len() == 16,
        "pause"@.len() == 5,
        "volume"@.len() == 6,
        "media-title"@.len() == 11 && "media-title"@[0] == 'm',
        "playlist-pos"@.len() == 12,
        "mute"@.len() == 4,
        "idle-active"@.len() == 11 && "idle-active"@[0] == 'i',
{
    reveal_strlit("bootstrap_complete");
    reveal_strlit("online");
    reveal_strlit("offline");
    reveal_strlit("property-change");
    reveal_strlit("node:down");
    reveal_strlit("node:layout");
    reveal_strlit("node:restart-pane");
    reveal_strlit("node:restart-all");
    reveal_strlit("pause");
    reveal_strlit("volume");
    reveal_strlit("media-title");
    reveal_strlit("playlist-pos");
    reveal_strlit("mute");
    reveal_strlit("idle-active");
}

proof fn lemma_player_found(s: Seq<PlayerV>, name: Seq<char>, i: int)
    requires
        0 <= i < s.len(),
        s[i].name == name,
        forall|j: int| 0 <= j < i ==> (#[trigger] s[j]).name != name,
    ensures
        player_index(s, name) == i,
    decreases s.len(),
{
    if i > 0 {
        assert(s[0].name != name);
        let rest = s.skip(1);
        assert(rest[i - 1] == s[i]);
        assert forall|j: int| 0 <= j < i - 1 implies (#[trigger] rest[j]).name != name by {
            assert(rest[j] == s[j + 1]);
        }
        lemma_player_found(rest, name, i - 1);
    }
}

/// A watcher takes in what an event says of a player that it knows, and of no other: that
/// it came up, with what is told of it, that it went down, or that one of its properties
/// has a new value.
pub proof fn watchers_take_in_events_of_players(
    app: &mut Watch,
    v: &Json,
    down: bool,
    i: int,
)
    requires
        0 <= i < old(app).players@.len(),
        forall|j: int|
            0 <= j < i ==> (#[trigger] old(app).view().players[j]).name
                != old(app).view().players[i].name,
        at(v.view(), "pane"@) == JsonV::Str(old(app).view().players[i].name),
        call_ensures(apply_event, (app, v), down),
    ensures
        ({
            let e = at(v.view(), "event"@);
            let was = old(app).view().players;
            let now = final(app).view().players;
            let p = was[i];
            let st = at(v.view(), "state"@);
            let x = at(v.view(), "value"@);
            &&& e == JsonV::Str("offline"@) ==> now == was.update(
                i,
                PlayerV { online: false, ..p },
            )
            &&& e == JsonV::Str("online"@) && field(v.view(), "state"@) is None ==> now
                == was.update(i, PlayerV { online: true, ..p })
            &&& e == JsonV::Str("online"@) && field(v.view(), "state"@) is Some ==> now
                == was.update(
                i,
                PlayerV {
                    online: true,
                    paused: if at(st, "paused"@) is Bool {
                        bool_of(at(st, "paused"@))->0
                    } else {
                        p.paused
                    },
                    muted: if at(st, "muted"@) is Bool {
                        bool_of(at(st, "muted"@))->0
                    } else {
                        p.muted
                    },
                    idle_active: if at(st, "idle_active"@) is Bool {
                        bool_of(at(st, "idle_active"@))->0
                    } else {
                        p.idle_active
                    },
                    volume: if at(st, "volume"@) is Num {
                        double_of(at(st, "volume"@))->0
                    } else {
                        p.volume
                    },
                    playlist_pos: if i64_of(at(st, "playlist_pos"@)) is Some {
                        i64_of(at(st, "playlist_pos"@))->0
                    } else {
                        p.playlist_pos
                    },
                    title: if at(st, "title"@) is Str {
                        str_of(at(st, "title"@))->0
                    } else {
                        p.title
                    },
                    ..p
                },
            )
            &&& e == JsonV::Str("property-change"@) ==> {
                let q = at(v.view(), "property"@);
                &&& q == JsonV::Str("pause"@) && x is Bool ==> now == was.update(
                    i,
                    PlayerV { paused: bool_of(x)->0, ..p },
                )
                &&& q == JsonV::Str("mute"@) && x is Bool ==> now == was.update(
                    i,
                    PlayerV { muted: bool_of(x)->0, ..p },
                )
                &&& q == JsonV::Str("idle-active"@) && x is Bool ==> now == was.update(
                    i,
                    PlayerV { idle_active: bool_of(x)->0, ..p },
                )
                &&& q == JsonV::Str("volume"@) && x is Num ==> now == was.update(
                    i,
                    PlayerV { volume: double_of(x)->0, ..p },
                )
                &&& q == JsonV::Str("media-title"@) && x is Str ==> now == was.update(
                    i,
                    PlayerV { title: str_of(x)->0, ..p },
                )
                &&& q == JsonV::Str("playlist-pos"@) && i64_of(x) is Some ==> now == was.update(
                    i,
                    PlayerV { playlist_pos: i64_of(x)->0, ..p },
                )
            }
        }),
{
    lemma_watch_event_names();
    let was = old(app).view().players;
    lemma_player_found(was, was[i].name, i);
}

/// A watcher takes in a new layout, and that the node goes down, which takes every player
/// offline; an event that it does not know changes nothing.
pub proof fn watchers_take_in_events_of_the_node(app: &mut Watch, v: &Json, down: bool)
    requires
        call_ensures(apply_event, (app, v), down),
    ensures
        ({
            let e = at(v.view(), "event"@);
            &&& e == JsonV::Str("node:layout"@) ==> (at(v.view(), "layout"@) matches JsonV::Str(l)
                ==> final(app).view().layout == l)
            &&& e == JsonV::Str("node:down"@) ==> down && final(app).view().players
                == old(app).view().players.map_values(
                |p: PlayerV| PlayerV { online: false, ..p },
            )
            &&& e != JsonV::Str("node:down"@) ==> !down
            &&& e != JsonV::Str("bootstrap_complete"@) && e != JsonV::Str("online"@) && e
                != JsonV::Str("offline"@) && e != JsonV::Str("property-change"@) && e
                != JsonV::Str("node:down"@) && e != JsonV::Str("node:layout"@) && e != JsonV::Str(
                "node:restart-pane"@,
            ) && e != JsonV::Str("node:restart-all"@) ==> final(app).view() == old(app).view()
        }),
{
    lemma_watch_event_names();
    let p = old(app).view().players;
    assert(crate::watch::players_down(p) =~= p.map_values(
        |p: PlayerV| PlayerV { online: false, ..p },
    ));
}

// ---------------------------------------------------------------------------
// Labels
// ---------------------------------------------------------------------------

/// A pane is said to play only where it is known to be up, to have something loaded and
/// not to be paused.
pub proof fn panes_are_said_to_do(p: &PaneState, r: (&'static str, Color))
    requires
        call_ensures(PaneState::playback_label, (p,), r),
    ensures
        !p.online ==> r.0@ == "Offline"@ && r.1 == Color::Red,
        p.online && p.idle_active == Some(false) && p.paused == Some(false) ==> r.0@
            == "Playing"@ && r.1 == Color::Green,
        p.online && p.idle_active == Some(false) && p.paused != Some(false) ==> r.0@ == "Paused"@
            && r.1 == Color::Hint,
        p.online && p.idle_active != Some(false) ==> r.0@ == "Stopped"@ && r.1 == Color::Dim,
{
}

/// The volume of a pane is said as a whole number, unless the pane is down or muted, or
/// nothing is known of it.
pub proof fn panes_are_said_to_be_loud(p: &PaneState, r: (String, Color))
    requires
        call_ensures(PaneState::volume_label, (p,), r),
    ensures
        !p.online ==> r.0@ == "Offline"@,
        p.online && p.muted == Some(true) ==> r.0@ == "Vol:Mute"@,
        p.online && p.muted != Some(true) ==> {
            &&& p.view().volume matches Some(d) ==> r.0@ == "Vol:"@ + rounded_in_three(d)
            &&& p.view().volume is None ==> r.0@ == "Vol:  ?"@
        },
{
}

/// The same is said of a player that is watched.
pub proof fn players_are_said_to_do(
    p: &Player,
    r: (&'static str, Color),
    l: (String, Color),
)
    requires
        call_ensures(Player::playback_label, (p,), r),
        call_ensures(Player::volume_label, (p,), l),
    ensures
        !p.online ==> r.0@ == "Offline"@ && l.0@ == "Offline"@ && r.1 == Color::Red,
        p.online && p.idle_active ==> r.0@ == "Stopped"@ && r.1 == Color::Dim,
        p.online && !p.idle_active && p.paused ==> r.0@ == "Paused"@ && r.1 == Color::Hint,
        p.online && !p.idle_active && !p.paused ==> r.0@ == "Playing"@ && r.1 == Color::Green,
        p.online && p.muted ==> l.0@ == "Vol:Mute"@,
        p.online && !p.muted ==> l.0@ == "Vol:"@ + rounded_in_three(p.view().volume),
{
}

/// What is said of a change in the log: the new volume, the new title, or one word; other
/// changes are passed over. A full log gives up its oldest line.
pub proof fn changes_are_logged(app: &mut Watch, v: &Json, down: bool, pane: Seq<char>)
    requires
        old(app).wf(),
        at(v.view(), "event"@) == JsonV::Str("property-change"@),
        at(v.view(), "pane"@) == JsonV::Str(pane),
        call_ensures(apply_event, (app, v), down),
    ensures
        ({
            let q = at(v.view(), "property"@);
            let x = at(v.view(), "value"@);
            let was = old(app).view().log;
            let now = final(app).view().log;
            let line = now.last();
            let logged = q == JsonV::Str("volume"@) || q == JsonV::Str("media-title"@) || q
                == JsonV::Str("pause"@) || q == JsonV::Str("mute"@);
            &&& !logged ==> now == was
            &&& logged ==> {
                &&& was.len() < crate::watch::LOG_CAPACITY ==> now.drop_last() == was
                &&& was.len() == crate::watch::LOG_CAPACITY ==> now.drop_last() == was.skip(1)
                &&& line.len() > 4
                &&& uppercase(pane).is_prefix_of(line[2].text)
            }
            &&& q == JsonV::Str("pause"@) ==> line[4].text == (if x == JsonV::Bool(false) {
                "Playing"@
            } else {
                "Paused"@
            })
            &&& q == JsonV::Str("mute"@) ==> line[4].text == (if x == JsonV::Bool(true) {
                "Muted"@
            } else {
                "Unmuted"@
            })
            &&& q == JsonV::Str("media-title"@) ==> line.len() == 7 && line[4].text == "title"@
                && (x matches JsonV::Str(t) ==> line[6].text == t)
            &&& q == JsonV::Str("volume"@) ==> line.len() == 7 && line[4].text == "volume"@ && (x
                is Num ==> line[6].text == rounded_text(double_of(x)->0))
        }),
{
    lemma_watch_event_names();
    let was = old(app).view().log;
    let now = final(app).view().log;
    assert(was.len() == old(app).log@.len());
    if now.len() > 0 {
        if was.len() < crate::watch::LOG_CAPACITY {
            assert(now != was ==> now.drop_last() =~= was);
        } else {
            assert(now != was ==> now.drop_last() =~= was.skip(1));
        }
    }
    let name = uppercase(pane);
    let shown = crate::text::padded(name, 12);
    assert(shown.subrange(0, name.len() as int) =~= name);
}

} // verus!
