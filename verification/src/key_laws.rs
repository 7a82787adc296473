//! What the keys of the operator's terminal are for.
use crate::board::{any_playing, board_get};
use crate::client::{
    mute_messages, node_message, pane_message, pause_messages, property_message, solo_messages,
};
use crate::json::{JsonV, NumV};
use crate::keys::{mpv_key_name, Key, KeyAction};
use crate::node_laws::{lemma_obj_one, lemma_obj_three, lemma_obj_two};
use crate::paths::tilde_expanded;
use crate::picks::{lemma_toggled, rising};
use crate::protocol::PaneStateV;
use crate::text::{decimal, lowercase, number_value, trimmed};
use crate::tui::{AppV, DetailsMode};
use crate::tui_keys::{
    crop_takes_out_the_others, destination, first_hit, is_hit, key_step, others, removal_messages,
};
use vstd::prelude::*;

verus! {

// ---------------------------------------------------------------------------
// Messages
// ---------------------------------------------------------------------------

/// A command that the daemon passes on to the player of a pane.
pub open spec fn to_player(pane: Seq<char>, cmd: Seq<char>, args: Seq<JsonV>) -> JsonV {
    JsonV::Obj(
        map![
            "command"@ => JsonV::Str(cmd),
            "pane"@ => JsonV::Str(pane),
            "args"@ => JsonV::Arr(args),
        ],
    )
}

/// The command that gives a property of a pane's player a value.
pub open spec fn to_set(pane: Seq<char>, name: Seq<char>, value: bool) -> JsonV {
    to_player(pane, "set_property"@, seq![JsonV::Str(name), JsonV::Bool(value)])
}

/// A command for the daemon itself about a pane.
pub open spec fn to_daemon(cmd: Seq<char>, pane: Seq<char>) -> JsonV {
    JsonV::Obj(map!["command"@ => JsonV::Str(cmd), "pane"@ => JsonV::Str(pane)])
}

pub open spec fn number(n: int) -> JsonV {
    JsonV::Num(NumV::Int(n))
}

/// Commands for players are written as the command, the pane and the arguments.
pub proof fn lemma_to_player(pane: Seq<char>, cmd: Seq<char>, args: Seq<JsonV>)
    ensures
        pane_message(cmd, pane, args) == to_player(pane, cmd, args),
{
    lemma_obj_three(
        "command"@,
        JsonV::Str(cmd),
        "pane"@,
        JsonV::Str(pane),
        "args"@,
        JsonV::Arr(args),
    );
}

pub proof fn lemma_to_set(pane: Seq<char>, name: Seq<char>, value: bool)
    ensures
        property_message(pane, name, value) == to_set(pane, name, value),
{
    lemma_to_player(pane, "set_property"@, seq![JsonV::Str(name), JsonV::Bool(value)]);
}

/// Commands for the daemon are written as the command and the pane.
pub proof fn lemma_to_daemon(cmd: Seq<char>, pane: Seq<char>)
    ensures
        node_message(cmd, pane) == to_daemon(cmd, pane),
{
    lemma_obj_two("pane"@, JsonV::Str(pane), "command"@, JsonV::Str(cmd));
    reveal_strlit("pane");
    reveal_strlit("command");
    assert("pane"@.len() == 4 && "command"@.len() == 7);
    assert(map!["pane"@ => JsonV::Str(pane), "command"@ => JsonV::Str(cmd)] =~= map![
        "command"@ => JsonV::Str(cmd),
        "pane"@ => JsonV::Str(pane),
    ]);
}

// ---------------------------------------------------------------------------
// Several panes
// ---------------------------------------------------------------------------

/// What is sent for one pane when `solo` is to be heard alone.
pub open spec fn sent_for_solo(pane: Seq<char>, solo: Seq<char>) -> Seq<JsonV> {
    if pane == solo {
        seq![
            to_set(pane, "mute"@, false),
            to_set(pane, "fullscreen"@, true),
            to_set(pane, "pause"@, false),
        ]
    } else {
        seq![to_set(pane, "mute"@, true)]
    }
}

/// A soloed pane is unmuted, fills the screen and goes on; every other pane is muted; the
/// panes come in their order and nothing else is sent.
pub proof fn solo_silences_the_others(order: Seq<Seq<char>>, solo: Seq<char>)
    ensures
        solo_messages(order, solo) == Seq::new(
            order.len(),
            |i: int| sent_for_solo(order[i], solo),
        ).flatten(),
    decreases order.len(),
{
    let parts = Seq::new(order.len(), |i: int| sent_for_solo(order[i], solo));
    if order.len() > 0 {
        let front = order.drop_last();
        let before = Seq::new(front.len(), |i: int| sent_for_solo(front[i], solo));
        solo_silences_the_others(front, solo);
        let pane = order.last();
        lemma_to_set(pane, "mute"@, false);
        lemma_to_set(pane, "mute"@, true);
        lemma_to_set(pane, "fullscreen"@, true);
        lemma_to_set(pane, "pause"@, false);
        assert(parts =~= before.push(sent_for_solo(pane, solo)));
        before.lemma_flatten_push(sent_for_solo(pane, solo));
    } else {
        assert(parts =~= Seq::empty());
    }
}

/// Every pane but the kept one is muted, in order, and nothing else is sent.
pub proof fn the_others_are_muted(order: Seq<Seq<char>>, keep: Seq<char>)
    ensures
        mute_messages(order, keep) == order.filter(|p: Seq<char>| p != keep).map_values(
            |p: Seq<char>| to_set(p, "mute"@, true),
        ),
    decreases order.len(),
{
    reveal(Seq::filter);
    let rest = order.filter(|p: Seq<char>| p != keep);
    let f = |p: Seq<char>| to_set(p, "mute"@, true);
    if order.len() > 0 {
        the_others_are_muted(order.drop_last(), keep);
        let before = order.drop_last().filter(|p: Seq<char>| p != keep);
        lemma_to_set(order.last(), "mute"@, true);
        if order.last() != keep {
            assert(rest.map_values(f) =~= before.map_values(f).push(f(order.last())));
            assert(before.map_values(f) + seq![f(order.last())] =~= before.map_values(f).push(
                f(order.last()),
            ));
        }
    } else {
        assert(rest.map_values(f) =~= Seq::empty());
    }
}

/// Where some pane plays, every pane is paused; where none does, every pane is muted and
/// goes on.
pub proof fn all_pause_or_all_play(order: Seq<Seq<char>>)
    ensures
        pause_messages(order, true) == Seq::new(
            order.len(),
            |i: int| to_set(order[i], "pause"@, true),
        ),
        pause_messages(order, false) == Seq::new(
            order.len(),
            |i: int| seq![to_set(order[i], "mute"@, true), to_set(order[i], "pause"@, false)],
        ).flatten(),
    decreases order.len(),
{
    let paused = Seq::new(order.len(), |i: int| to_set(order[i], "pause"@, true));
    let playing = Seq::new(
        order.len(),
        |i: int| seq![to_set(order[i], "mute"@, true), to_set(order[i], "pause"@, false)],
    );
    if order.len() > 0 {
        let front = order.drop_last();
        let pane = order.last();
        all_pause_or_all_play(front);
        lemma_to_set(pane, "mute"@, true);
        lemma_to_set(pane, "pause"@, true);
        lemma_to_set(pane, "pause"@, false);
        let before = Seq::new(
            front.len(),
            |i: int| seq![to_set(front[i], "mute"@, true), to_set(front[i], "pause"@, false)],
        );
        let last = seq![to_set(pane, "mute"@, true), to_set(pane, "pause"@, false)];
        assert(playing =~= before.push(last));
        before.lemma_flatten_push(last);
        assert(pause_messages(order, true) =~= paused);
    } else {
        assert(playing =~= Seq::empty());
        assert(pause_messages(order, true) =~= paused);
    }
}

// ---------------------------------------------------------------------------
// The dashboard
// ---------------------------------------------------------------------------

/// The dashboard is shown, keys are for the terminal, and nothing is offered.
pub open spec fn on_dashboard(s: AppV) -> bool {
    !s.passthrough_mode && !s.show_log && !s.show_details && !s.show_picker && !s.command_mode
}

/// The keys of the dashboard that are about the selected pane: restart it, solo it, mute
/// the others. None changes what is shown.
pub proof fn dashboard_keys_act_on_the_selected_pane(s: AppV)
    requires
        on_dashboard(s),
        s.selected < s.pane_order.len(),
    ensures
        key_step(s, Key::Char('r')).send == seq![
            to_daemon("panebot:restart-pane"@, s.pane_order[s.selected as int]),
        ],
        key_step(s, Key::Char('S')).send == Seq::new(
            s.pane_order.len(),
            |i: int| sent_for_solo(s.pane_order[i], s.pane_order[s.selected as int]),
        ).flatten(),
        ({
            let pane = s.pane_order[s.selected as int];
            key_step(s, Key::Char('M')).send == s.pane_order.filter(
                |p: Seq<char>| p != pane,
            ).map_values(|p: Seq<char>| to_set(p, "mute"@, true))
        }),
        key_step(s, Key::Char('r')).app == s,
        key_step(s, Key::Char('S')).app == s,
        key_step(s, Key::Char('M')).app == s,
{
    let pane = s.pane_order[s.selected as int];
    lemma_to_daemon("panebot:restart-pane"@, pane);
    solo_silences_the_others(s.pane_order, pane);
    the_others_are_muted(s.pane_order, pane);
}

/// A pane that is known to play: it is online, something is loaded, and it is not paused.
pub open spec fn plays(p: PaneStateV) -> bool {
    p.online && p.idle_active == Some(false) && p.paused == Some(false)
}

/// The keys of the dashboard that are about all panes: restart them all, and pause them
/// all where one plays, else let them all go on muted.
pub proof fn dashboard_keys_act_on_all_panes(s: AppV)
    requires
        on_dashboard(s),
    ensures
        key_step(s, Key::Char('R')).send == seq![
            JsonV::Obj(map!["command"@ => JsonV::Str("panebot:restart-all"@)]),
        ],
        key_step(s, Key::Char('R')).app == s,
        key_step(s, Key::Char('P')).app == s,
        (exists|i: int| 0 <= i < s.panes.len() && plays(#[trigger] s.panes[i])) ==> key_step(
            s,
            Key::Char('P'),
        ).send == Seq::new(s.pane_order.len(), |i: int| to_set(s.pane_order[i], "pause"@, true)),
        (forall|i: int| 0 <= i < s.panes.len() ==> !plays(#[trigger] s.panes[i])) ==> key_step(
            s,
            Key::Char('P'),
        ).send == Seq::new(
            s.pane_order.len(),
            |i: int|
                seq![
                    to_set(s.pane_order[i], "mute"@, true),
                    to_set(s.pane_order[i], "pause"@, false),
                ],
        ).flatten(),
{
    lemma_obj_one("command"@, JsonV::Str("panebot:restart-all"@));
    all_pause_or_all_play(s.pane_order);
    if exists|i: int| 0 <= i < s.panes.len() && plays(#[trigger] s.panes[i]) {
        let i = choose|i: int| 0 <= i < s.panes.len() && plays(#[trigger] s.panes[i]);
        assert(crate::board::is_playing_now(s.panes[i]));
    }
    if forall|i: int| 0 <= i < s.panes.len() ==> !plays(#[trigger] s.panes[i]) {
        if any_playing(s.panes) {
            let i = choose|i: int|
                0 <= i < s.panes.len() && crate::board::is_playing_now(#[trigger] s.panes[i]);
            assert(plays(s.panes[i]));
        }
    }
}

/// Moving on the dashboard: down and up select the next and the previous pane and stop at
/// the ends, left shows the log, right opens the playlist of the selected pane and asks
/// for it, Tab turns command mode on, and `q` quits.
pub proof fn dashboard_keys_move(s: AppV)
    requires
        on_dashboard(s),
        s.selected < s.pane_order.len(),
        s.pane_order.len() <= usize::MAX,
    ensures
        forall|k: Key|
            #![trigger key_step(s, k)]
            k == Key::Down || k == Key::Char('j') ==> key_step(s, k).app == (AppV {
                selected: if s.selected == s.pane_order.len() - 1 {
                    s.selected
                } else {
                    (s.selected + 1) as usize
                },
                ..s
            }) && key_step(s, k).send.len() == 0,
        forall|k: Key|
            #![trigger key_step(s, k)]
            k == Key::Up || k == Key::Char('k') ==> key_step(s, k).app == (AppV {
                selected: if s.selected == 0 {
                    0
                } else {
                    (s.selected - 1) as usize
                },
                ..s
            }) && key_step(s, k).send.len() == 0,
        forall|k: Key|
            #![trigger key_step(s, k)]
            k == Key::Left || k == Key::Char('h') ==> key_step(s, k).app == (AppV {
                show_log: true,
                ..s
            }) && key_step(s, k).send.len() == 0,
        forall|k: Key|
            #![trigger key_step(s, k)]
            k == Key::Right || k == Key::Char('l') ==> {
                &&& key_step(s, k).app.show_details
                &&& key_step(s, k).app.playlist_items.len() == 0
                &&& key_step(s, k).app.playlist_sel == 0
                &&& key_step(s, k).app.selected_items.len() == 0
                &&& key_step(s, k).app.details_mode == DetailsMode::Normal
                &&& key_step(s, k).app.selected == s.selected
                &&& key_step(s, k).send == seq![
                    to_daemon("panebot:playlist-get"@, s.pane_order[s.selected as int]),
                ]
            },
        key_step(s, Key::Tab).app == (AppV { command_mode: true, ..s }),
        key_step(s, Key::Char('C')).action == KeyAction::Reconnect,
        key_step(s, Key::Char('q')).action == KeyAction::Quit,
{
    lemma_to_daemon("panebot:playlist-get"@, s.pane_order[s.selected as int]);
}

/// The layouts are offered from the current one on, but not of a daemon elsewhere; a
/// layout that is taken is asked for by its name.
pub proof fn layouts_are_offered(s: AppV, i: int)
    requires
        on_dashboard(s),
        0 <= i < s.layouts.len() <= usize::MAX,
        s.layouts[i] == s.layout,
        forall|j: int| 0 <= j < i ==> #[trigger] s.layouts[j] != s.layout,
    ensures
        !s.is_remote ==> key_step(s, Key::Char('W')).app == (AppV {
            show_picker: true,
            picker_sel: i as usize,
            ..s
        }),
        s.is_remote ==> key_step(s, Key::Char('W')).app == s,
        key_step(s, Key::Char('W')).send.len() == 0,
{
    lemma_name_index(s.layouts, s.layout, i);
}

pub proof fn lemma_name_index(v: Seq<Seq<char>>, name: Seq<char>, i: int)
    requires
        0 <= i < v.len(),
        v[i] == name,
        forall|j: int| 0 <= j < i ==> #[trigger] v[j] != name,
    ensures
        crate::tui::name_index(v, name) == i,
    decreases v.len(),
{
    if i > 0 {
        assert(v[0] != name);
        let rest = v.skip(1);
        assert(rest[i - 1] == v[i]);
        assert forall|j: int| 0 <= j < i - 1 implies #[trigger] rest[j] != name by {
            assert(rest[j] == v[j + 1]);
        }
        lemma_name_index(rest, name, i - 1);
    }
}

/// While layouts are offered, down and up go through them and stop at the ends, Enter asks
/// for the one that is selected and ends the offer, and Esc ends it with nothing asked.
pub proof fn an_offered_layout_is_asked_for(s: AppV)
    requires
        s.show_picker,
        !s.passthrough_mode,
        !s.show_details,
        !s.show_log,
        s.picker_sel < s.layouts.len() <= usize::MAX,
    ensures
        key_step(s, Key::Enter).send == seq![
            JsonV::Obj(
                map![
                    "command"@ => JsonV::Str("panebot:layout"@),
                    "layout_name"@ => JsonV::Str(s.layouts[s.picker_sel as int]),
                ],
            ),
        ],
        key_step(s, Key::Enter).app == (AppV { show_picker: false, ..s }),
        key_step(s, Key::Esc).app == (AppV { show_picker: false, ..s }),
        key_step(s, Key::Esc).send.len() == 0,
        key_step(s, Key::Down).app == (AppV {
            picker_sel: if s.picker_sel == s.layouts.len() - 1 {
                s.picker_sel
            } else {
                (s.picker_sel + 1) as usize
            },
            ..s
        }),
        key_step(s, Key::Up).app == (AppV {
            picker_sel: if s.picker_sel == 0 {
                0
            } else {
                (s.picker_sel - 1) as usize
            },
            ..s
        }),
        key_step(s, Key::Char('j')) == key_step(s, Key::Down),
        key_step(s, Key::Char('k')) == key_step(s, Key::Up),
{
    let name = s.layouts[s.picker_sel as int];
    lemma_layout_message(name);
}

pub proof fn lemma_layout_message(name: Seq<char>)
    ensures
        crate::tui_keys::layout_message(name) == JsonV::Obj(
            map![
                "command"@ => JsonV::Str("panebot:layout"@),
                "layout_name"@ => JsonV::Str(name),
            ],
        ),
{
    lemma_obj_two(
        "layout_name"@,
        JsonV::Str(name),
        "command"@,
        JsonV::Str("panebot:layout"@),
    );
    reveal_strlit("layout_name");
    reveal_strlit("command");
    assert("layout_name"@.len() == 11 && "command"@.len() == 7);
    assert(map![
        "layout_name"@ => JsonV::Str(name),
        "command"@ => JsonV::Str("panebot:layout"@),
    ] =~= map![
        "command"@ => JsonV::Str("panebot:layout"@),
        "layout_name"@ => JsonV::Str(name),
    ]);
}

// ---------------------------------------------------------------------------
// Keys for the player
// ---------------------------------------------------------------------------

/// What a key tells the player in command mode; nothing for the other keys.
pub open spec fn told_by(pane: Seq<char>, k: Key) -> Seq<JsonV> {
    let relative = JsonV::Str("relative"@);
    match k {
        Key::Char(' ') => seq![to_player(pane, "cycle"@, seq![JsonV::Str("pause"@)])],
        Key::Char('m') => seq![to_player(pane, "cycle"@, seq![JsonV::Str("mute"@)])],
        Key::Char('f') => seq![to_player(pane, "cycle"@, seq![JsonV::Str("fullscreen"@)])],
        Key::Enter => seq![to_player(pane, "keypress"@, seq![JsonV::Str("ENTER"@)])],
        Key::Left | Key::Char('h') => seq![to_player(pane, "seek"@, seq![number(-5), relative])],
        Key::Right | Key::Char('l') => seq![to_player(pane, "seek"@, seq![number(5), relative])],
        Key::Up | Key::Char('k') => seq![to_player(pane, "seek"@, seq![number(60), relative])],
        Key::Down | Key::Char('j') => seq![to_player(pane, "seek"@, seq![number(-60), relative])],
        Key::Char('0') => seq![
            to_player(pane, "add"@, seq![JsonV::Str("volume"@), number(5)]),
        ],
        Key::Char('9') => seq![
            to_player(pane, "add"@, seq![JsonV::Str("volume"@), number(-5)]),
        ],
        _ => Seq::empty(),
    }
}

pub proof fn lemma_told_by(pane: Seq<char>, k: Key)
    ensures
        told_by(pane, k) == (match crate::tui_keys::command_key(pane, k) {
            Some(m) => seq![m],
            None => Seq::empty(),
        }),
{
    let relative = JsonV::Str("relative"@);
    lemma_to_player(pane, "cycle"@, seq![JsonV::Str("pause"@)]);
    lemma_to_player(pane, "cycle"@, seq![JsonV::Str("mute"@)]);
    lemma_to_player(pane, "cycle"@, seq![JsonV::Str("fullscreen"@)]);
    lemma_to_player(pane, "keypress"@, seq![JsonV::Str("ENTER"@)]);
    lemma_to_player(pane, "seek"@, seq![number(-5), relative]);
    lemma_to_player(pane, "seek"@, seq![number(5), relative]);
    lemma_to_player(pane, "seek"@, seq![number(60), relative]);
    lemma_to_player(pane, "seek"@, seq![number(-60), relative]);
    lemma_to_player(pane, "add"@, seq![JsonV::Str("volume"@), number(5)]);
    lemma_to_player(pane, "add"@, seq![JsonV::Str("volume"@), number(-5)]);
}

/// In command mode the keys drive the selected player: space pauses, `m` mutes, `f` fills
/// the screen, left and right go five seconds back and on, down and up a minute, `9` and
/// `0` make it quieter and louder. This holds on the dashboard and over a playlist.
pub proof fn command_mode_drives_the_player(s: AppV, k: Key)
    requires
        s.command_mode,
        !s.passthrough_mode,
        !s.show_log,
        !s.show_picker,
        s.details_mode == DetailsMode::Normal,
        s.selected < s.pane_order.len(),
        k != Key::Char('q'),
        k != Key::Char('W'),
        k != Key::Char('C'),
        k != Key::Tab,
        k != Key::Char('v'),
    ensures
        key_step(s, k).send == told_by(s.pane_order[s.selected as int], k),
        key_step(s, k).app == s,
{
    lemma_told_by(s.pane_order[s.selected as int], k);
}

/// Tab leaves command mode, and `v` passes the keys through until it is pressed again.
pub proof fn command_mode_ends(s: AppV)
    requires
        s.command_mode,
        !s.passthrough_mode,
        !s.show_log,
        !s.show_picker,
        s.details_mode == DetailsMode::Normal,
        s.selected < s.pane_order.len(),
    ensures
        !key_step(s, Key::Tab).app.command_mode,
        key_step(s, Key::Tab).send.len() == 0,
        key_step(s, Key::Char('v')).app == (AppV { passthrough_mode: true, ..s }),
        key_step(key_step(s, Key::Char('v')).app, Key::Char('v')).app == s,
{
    lemma_told_by(s.pane_order[s.selected as int], Key::Char('v'));
    lemma_told_by(s.pane_order[s.selected as int], Key::Tab);
}

/// The player knows the keys by these names.
pub proof fn keys_have_names(k: Key, r: String)
    requires
        call_ensures(mpv_key_name, (k,), r),
    ensures
        k == Key::Char(' ') ==> r@ == "SPACE"@,
        k == Key::Enter ==> r@ == "ENTER"@,
        k == Key::Esc ==> r@ == "ESC"@,
        k == Key::Backspace ==> r@ == "BS"@,
        k == Key::Delete ==> r@ == "DEL"@,
        k == Key::Tab ==> r@ == "TAB"@,
        k == Key::Up ==> r@ == "UP"@,
        k == Key::Down ==> r@ == "DOWN"@,
        k == Key::Left ==> r@ == "LEFT"@,
        k == Key::Right ==> r@ == "RIGHT"@,
        k == Key::PageUp ==> r@ == "PGUP"@,
        k == Key::PageDown ==> r@ == "PGDWN"@,
        k == Key::Home ==> r@ == "HOME"@,
        k == Key::End ==> r@ == "END"@,
        k matches Key::F(n) ==> r@ == "F"@ + decimal(n as int),
        k matches Key::Char(c) ==> c != ' ' ==> r@ == seq![c],
        k == Key::BackTab || k == Key::Other ==> r@.len() == 0,
{
}

// ---------------------------------------------------------------------------
// The playlist screen
// ---------------------------------------------------------------------------

/// A playlist is shown, nothing is typed, and keys are for the terminal.
pub open spec fn on_list(s: AppV) -> bool {
    !s.passthrough_mode && s.show_details && s.details_mode == DetailsMode::Normal
        && !s.command_mode && !s.show_picker
}

/// Going through a playlist: one item down or up, ten on or back, to the first or the last
/// item, never past an end. Nothing is sent.
pub proof fn list_keys_move(s: AppV)
    requires
        on_list(s),
        s.playlist_sel < s.playlist_items.len() <= usize::MAX,
    ensures
        forall|k: Key|
            #![trigger key_step(s, k)]
            k == Key::Down || k == Key::Char('j') ==> key_step(s, k).app.playlist_sel == (
            if s.playlist_sel == s.playlist_items.len() - 1 {
                s.playlist_sel as int
            } else {
                s.playlist_sel + 1
            }),
        forall|k: Key|
            #![trigger key_step(s, k)]
            k == Key::Up || k == Key::Char('k') ==> key_step(s, k).app.playlist_sel == (
            if s.playlist_sel == 0 {
                0
            } else {
                s.playlist_sel - 1
            }),
        key_step(s, Key::Char('J')).app.playlist_sel == s.playlist_items.len() - 1,
        key_step(s, Key::Char('K')).app.playlist_sel == 0,
        key_step(s, Key::Char('[')).app.playlist_sel == (if s.playlist_sel < 10 {
            0
        } else {
            s.playlist_sel - 10
        }),
        key_step(s, Key::Char(']')).app.playlist_sel == (if s.playlist_sel + 10
            >= s.playlist_items.len() {
            s.playlist_items.len() - 1
        } else {
            s.playlist_sel + 10
        }),
        forall|k: Key|
            #![trigger key_step(s, k)]
            k == Key::Down || k == Key::Char('j') || k == Key::Up || k == Key::Char('k') || k
                == Key::Char('J') || k == Key::Char('K') || k == Key::Char('[') || k == Key::Char(
                ']',
            ) ==> key_step(s, k).send.len() == 0 && key_step(s, k).app.playlist_items
                == s.playlist_items && key_step(s, k).app.selected_items == s.selected_items,
{
}

/// Space marks the selected item, or unmarks it, and no other, and goes on to the next;
/// Esc takes all marks away.
pub proof fn space_marks_one_item(s: AppV)
    requires
        on_list(s),
        rising(s.selected_items),
        s.playlist_sel < s.playlist_items.len() <= usize::MAX,
    ensures
        forall|x: usize| #[trigger]
            key_step(s, Key::Char(' ')).app.selected_items.contains(x) <==> (if x
                == s.playlist_sel {
                !s.selected_items.contains(x)
            } else {
                s.selected_items.contains(x)
            }),
        key_step(s, Key::Char(' ')).app.playlist_sel == (if s.playlist_sel
            == s.playlist_items.len() - 1 {
            s.playlist_sel as int
        } else {
            s.playlist_sel + 1
        }),
        key_step(s, Key::Esc).app.selected_items.len() == 0,
        key_step(s, Key::Esc).app.playlist_sel == s.playlist_sel,
        key_step(s, Key::Esc).app.show_details,
{
    lemma_toggled(s.selected_items, s.playlist_sel);
}

/// Enter plays the selected item and lets the player go on.
pub proof fn enter_plays_the_selected_item(s: AppV)
    requires
        on_list(s),
        s.selected < s.pane_order.len(),
    ensures
        ({
            let pane = s.pane_order[s.selected as int];
            key_step(s, Key::Enter).send == seq![
                to_player(pane, "playlist-play-index"@, seq![number(s.playlist_sel as int)]),
                to_set(pane, "pause"@, false),
            ]
        }),
        key_step(s, Key::Enter).app == (AppV { status_msg: None, ..s }),
{
    let pane = s.pane_order[s.selected as int];
    lemma_to_player(pane, "playlist-play-index"@, seq![number(s.playlist_sel as int)]);
    lemma_to_set(pane, "pause"@, false);
}

/// `n` queues the selected item to come right behind the one being played, or first where
/// none is being played, and asks for the new list. An item that stands there already is
/// left where it is.
pub proof fn an_item_is_queued_next(s: AppV, p: PaneStateV)
    requires
        on_list(s),
        s.selected < s.pane_order.len(),
        board_get(s.panes, s.pane_order[s.selected as int]) == Some(p),
        s.playlist_sel < s.playlist_items.len() <= usize::MAX,
        p.playlist_pos matches Some(pos) ==> pos < s.playlist_items.len(),
    ensures
        ({
            let pane = s.pane_order[s.selected as int];
            let to = if p.playlist_pos is Some && p.playlist_pos->0 >= 0 {
                p.playlist_pos->0 + 1
            } else {
                0
            };
            &&& s.playlist_sel == to || s.playlist_sel + 1 == to ==> key_step(
                s,
                Key::Char('n'),
            ).send.len() == 0
            &&& s.playlist_sel != to && s.playlist_sel + 1 != to ==> key_step(
                s,
                Key::Char('n'),
            ).send == seq![
                to_player(
                    pane,
                    "playlist-move"@,
                    seq![number(s.playlist_sel as int), number(to as int)],
                ),
                to_daemon("panebot:playlist-get"@, pane),
            ]
        }),
{
    let pane = s.pane_order[s.selected as int];
    let to = if p.playlist_pos is Some && p.playlist_pos->0 >= 0 {
        p.playlist_pos->0 + 1
    } else {
        0
    };
    lemma_to_player(
        pane,
        "playlist-move"@,
        seq![number(s.playlist_sel as int), number(to as int)],
    );
    lemma_to_daemon("panebot:playlist-get"@, pane);
}

/// The items that a key is about: the marked ones, or the selected one where none is
/// marked.
pub open spec fn meant(s: AppV) -> Seq<usize> {
    if s.selected_items.len() > 0 {
        s.selected_items
    } else {
        seq![s.playlist_sel]
    }
}

/// The requests to take items out of a player's list one at a time, from the last to the
/// first so that no request shifts the place of the next, and then to tell what is left.
pub open spec fn taken_out(pane: Seq<char>, places: Seq<usize>) -> Seq<JsonV> {
    places.reverse().map_values(
        |x: usize| to_player(pane, "playlist-remove"@, seq![number(x as int)]),
    ).push(to_daemon("panebot:playlist-get"@, pane))
}

pub proof fn lemma_taken_out(pane: Seq<char>, places: Seq<usize>)
    ensures
        removal_messages(pane, places) == taken_out(pane, places),
{
    lemma_to_daemon("panebot:playlist-get"@, pane);
    assert forall|i: int| 0 <= i < places.len() implies removal_messages(pane, places)[i]
        == taken_out(pane, places)[i] by {
        let x = places[places.len() - 1 - i];
        lemma_to_player(pane, "playlist-remove"@, seq![number(x as int)]);
    }
    assert(removal_messages(pane, places) =~= taken_out(pane, places));
}

/// `D` takes out the items that are meant, unless the one being played is among them; the
/// marks are gone afterwards.
pub proof fn deletion_takes_out_what_is_meant(s: AppV, p: PaneStateV)
    requires
        on_list(s),
        s.selected < s.pane_order.len(),
        board_get(s.panes, s.pane_order[s.selected as int]) == Some(p),
    ensures
        ({
            let playing = p.playlist_pos is Some && p.playlist_pos->0 >= 0 && exists|i: int|
                0 <= i < meant(s).len() && #[trigger] meant(s)[i] == p.playlist_pos->0;
            let o = key_step(s, Key::Char('D'));
            &&& playing ==> o.send.len() == 0 && o.app == (AppV {
                status_msg: Some("Cannot remove playing item"@),
                ..s
            })
            &&& !playing ==> o.send == taken_out(s.pane_order[s.selected as int], meant(s))
                && o.app.selected_items.len() == 0 && o.app.status_msg is None
                && o.app.playlist_items == s.playlist_items
            &&& !playing && s.playlist_sel < s.playlist_items.len() - meant(s).len()
                ==> o.app.playlist_sel == s.playlist_sel
            &&& !playing && s.playlist_sel >= s.playlist_items.len() - meant(s).len() > 0
                && s.playlist_items.len() <= usize::MAX ==> o.app.playlist_sel
                == s.playlist_items.len() - meant(s).len() - 1
        }),
{
    lemma_taken_out(s.pane_order[s.selected as int], meant(s));
    let playing = p.playlist_pos is Some && p.playlist_pos->0 >= 0 && exists|i: int|
        0 <= i < meant(s).len() && #[trigger] meant(s)[i] == p.playlist_pos->0;
    if playing {
        let i = choose|i: int|
            0 <= i < meant(s).len() && #[trigger] meant(s)[i] == p.playlist_pos->0;
        assert(crate::tui_keys::targets_of(s)[i] == p.playlist_pos->0);
    }
}

/// `C` takes out every item but the marked ones, or every item but the one being played
/// where none is marked; where nothing is played either, it takes out nothing.
pub proof fn cropping_takes_out_the_rest(s: AppV, p: PaneStateV) -> (places: Seq<usize>)
    requires
        on_list(s),
        s.selected < s.pane_order.len(),
        board_get(s.panes, s.pane_order[s.selected as int]) == Some(p),
        s.playlist_items.len() <= usize::MAX,
        p.playlist_pos matches Some(pos) ==> pos < s.playlist_items.len(),
    ensures
        rising(places),
        s.selected_items.len() > 0 ==> forall|x: usize| #[trigger]
            places.contains(x) <==> x < s.playlist_items.len() && !s.selected_items.contains(x),
        s.selected_items.len() == 0 && p.playlist_pos is Some && p.playlist_pos->0 >= 0
            ==> forall|x: usize| #[trigger]
            places.contains(x) <==> x < s.playlist_items.len() && x != p.playlist_pos->0,
        s.selected_items.len() > 0 || (p.playlist_pos is Some && p.playlist_pos->0 >= 0)
            ==> key_step(s, Key::Char('C')).send == taken_out(
            s.pane_order[s.selected as int],
            places,
        ),
        s.selected_items.len() > 0 || (p.playlist_pos is Some && p.playlist_pos->0 >= 0)
            ==> key_step(s, Key::Char('C')).app == (AppV {
            selected_items: Seq::empty(),
            playlist_sel: 0,
            status_msg: None,
            ..s
        }),
        !(s.selected_items.len() > 0 || (p.playlist_pos is Some && p.playlist_pos->0 >= 0))
            ==> key_step(s, Key::Char('C')).send.len() == 0 && key_step(s, Key::Char('C')).app == (
        AppV { status_msg: Some("Nothing playing to crop around"@), ..s }),
{
    let keep = if s.selected_items.len() > 0 {
        s.selected_items
    } else if p.playlist_pos is Some && p.playlist_pos->0 >= 0 {
        seq![p.playlist_pos->0 as usize]
    } else {
        Seq::empty()
    };
    let n = s.playlist_items.len() as int;
    let places = others(n, keep);
    crop_takes_out_the_others(n, keep);
    lemma_taken_out(s.pane_order[s.selected as int], places);
    if s.selected_items.len() == 0 && p.playlist_pos is Some && p.playlist_pos->0 >= 0 {
        assert(keep[0] == p.playlist_pos->0);
    }
    places
}

/// `M` moves the marked items, in order: the first to the selected place, and each next
/// one to the place of the one before it, less one where that one came from further up.
/// Without marks nothing is moved.
pub proof fn marked_items_are_moved_one_by_one(s: AppV) -> (to: Seq<int>)
    requires
        on_list(s),
        s.selected < s.pane_order.len(),
    ensures
        s.selected_items.len() == 0 ==> key_step(s, Key::Char('M')).send.len() == 0,
        s.selected_items.len() > 0 ==> {
            &&& to.len() == s.selected_items.len()
            &&& to[0] == s.playlist_sel
            &&& forall|i: int|
                0 <= i < to.len() - 1 ==> #[trigger] to[i + 1] == to[i] - (if s.selected_items[i]
                    < to[i] {
                    1int
                } else {
                    0
                })
            &&& key_step(s, Key::Char('M')).send.len() == to.len() + 1
            &&& forall|i: int|
                0 <= i < to.len() ==> #[trigger] key_step(s, Key::Char('M')).send[i] == to_player(
                    s.pane_order[s.selected as int],
                    "playlist-move"@,
                    seq![number(s.selected_items[i] as int), number(to[i])],
                )
            &&& key_step(s, Key::Char('M')).send.last() == to_daemon(
                "panebot:playlist-get"@,
                s.pane_order[s.selected as int],
            )
            &&& key_step(s, Key::Char('M')).app.selected_items.len() == 0
        },
{
    let pane = s.pane_order[s.selected as int];
    let m = s.selected_items;
    let dest = s.playlist_sel as int;
    let to = Seq::new(m.len(), |i: int| destination(m.take(i), dest));
    lemma_to_daemon("panebot:playlist-get"@, pane);
    assert(m.take(0) =~= Seq::empty());
    assert forall|i: int| 0 <= i < to.len() - 1 implies #[trigger] to[i + 1] == to[i] - (if m[i]
        < to[i] {
        1int
    } else {
        0
    }) by {
        assert(m.take(i + 1).drop_last() =~= m.take(i));
        assert(m.take(i + 1).last() == m[i]);
    }
    assert forall|i: int| 0 <= i < to.len() implies #[trigger] key_step(
        s,
        Key::Char('M'),
    ).send[i] == to_player(pane, "playlist-move"@, seq![number(m[i] as int), number(to[i])]) by {
        lemma_to_player(pane, "playlist-move"@, seq![number(m[i] as int), number(to[i])]);
    }
    to
}

/// What is typed for an addition is queued behind the others, without white space around
/// it and with the home directory for `~`, and the new list is asked for; nothing typed
/// adds nothing.
pub proof fn typed_entries_are_added(s: AppV)
    requires
        s.show_details,
        !s.passthrough_mode,
        s.details_mode == DetailsMode::Add,
        s.selected < s.pane_order.len(),
    ensures
        ({
            let pane = s.pane_order[s.selected as int];
            let o = key_step(s, Key::Enter);
            &&& trimmed(s.add_input).len() > 0 ==> o.send == seq![
                to_player(
                    pane,
                    "loadfile"@,
                    seq![
                        JsonV::Str(tilde_expanded(trimmed(s.add_input), s.home)),
                        JsonV::Str("append"@),
                    ],
                ),
                to_daemon("panebot:playlist-get"@, pane),
            ]
            &&& trimmed(s.add_input).len() == 0 ==> o.send.len() == 0
            &&& o.app.details_mode == DetailsMode::Normal
            &&& o.app.add_input.len() == 0
        }),
{
    let pane = s.pane_order[s.selected as int];
    lemma_to_player(
        pane,
        "loadfile"@,
        seq![
            JsonV::Str(tilde_expanded(trimmed(s.add_input), s.home)),
            JsonV::Str("append"@),
        ],
    );
    lemma_to_daemon("panebot:playlist-get"@, pane);
}

/// A playlist is saved under the typed name, as a playlist file in the home directory.
pub proof fn playlists_are_saved_at_home(s: AppV)
    requires
        s.show_details,
        !s.passthrough_mode,
        s.details_mode == DetailsMode::Save,
        s.selected < s.pane_order.len(),
        trimmed(s.add_input).len() > 0,
    ensures
        key_step(s, Key::Enter).send == seq![
            JsonV::Obj(
                map![
                    "command"@ => JsonV::Str("panebot:playlist-save"@),
                    "pane"@ => JsonV::Str(s.pane_order[s.selected as int]),
                    "path"@ => JsonV::Str(s.home + "/"@ + trimmed(s.add_input) + ".m3u"@),
                ],
            ),
        ],
{
    let pane = s.pane_order[s.selected as int];
    let path = s.home + "/"@ + trimmed(s.add_input) + ".m3u"@;
    lemma_obj_three(
        "pane"@,
        JsonV::Str(pane),
        "path"@,
        JsonV::Str(path),
        "command"@,
        JsonV::Str("panebot:playlist-save"@),
    );
    reveal_strlit("pane");
    reveal_strlit("path");
    reveal_strlit("command");
    assert("pane"@[3] == 'e' && "path"@[3] == 'h' && "command"@.len() == 7 && "pane"@.len() == 4
        && "path"@.len() == 4);
    assert(map![
        "pane"@ => JsonV::Str(pane),
        "path"@ => JsonV::Str(path),
        "command"@ => JsonV::Str("panebot:playlist-save"@),
    ] =~= map![
        "command"@ => JsonV::Str("panebot:playlist-save"@),
        "pane"@ => JsonV::Str(pane),
        "path"@ => JsonV::Str(path),
    ]);
}

/// A search selects the next item behind the selected one whose text holds what was typed,
/// in either case, and goes on from the top where the end is reached; where no item holds
/// it, the selection stays.
pub proof fn a_search_selects_the_next_hit(s: AppV)
    requires
        s.show_details,
        !s.passthrough_mode,
        s.details_mode == DetailsMode::Search,
        s.add_input.len() > 0,
        s.playlist_sel < s.playlist_items.len() <= usize::MAX,
    ensures
        ({
            let query = lowercase(s.add_input);
            let n = s.playlist_items.len() as int;
            let o = key_step(s, Key::Enter);
            let hit = |i: int| is_hit(s.playlist_items[i], query);
            &&& (forall|i: int| 0 <= i < n ==> !#[trigger] hit(i)) ==> o.app.playlist_sel
                == s.playlist_sel && o.app.status_msg == Some("No match"@)
            &&& (exists|i: int| 0 <= i < n && #[trigger] hit(i)) ==> {
                &&& hit(o.app.playlist_sel as int)
                &&& o.app.playlist_sel < n
                &&& forall|i: int|
                    0 <= i < n && #[trigger] hit(i) ==> (if i > s.playlist_sel {
                        s.playlist_sel < o.app.playlist_sel <= i
                    } else {
                        o.app.playlist_sel <= i || o.app.playlist_sel > s.playlist_sel
                    })
            }
            &&& o.send.len() == 0
        }),
{
    let query = lowercase(s.add_input);
    let n = s.playlist_items.len() as int;
    let start = s.playlist_sel + 1;
    lemma_first_hit(s.playlist_items, query, start, n);
    lemma_first_hit(s.playlist_items, query, 0, start);
    let hit = |i: int| is_hit(s.playlist_items[i], query);
    let h = first_hit(s.playlist_items, query, start, n);
    let g = first_hit(s.playlist_items, query, 0, start);
    if h < n {
        assert(hit(h));
    }
    if g < start {
        assert(hit(g));
    }
    if exists|i: int| 0 <= i < n && #[trigger] hit(i) {
        let i = choose|i: int| 0 <= i < n && #[trigger] hit(i);
        assert(is_hit(s.playlist_items[i], query));
    }
}

proof fn lemma_first_hit(items: Seq<Seq<char>>, query: Seq<char>, a: int, b: int)
    requires
        0 <= a <= b <= items.len(),
    ensures
        a <= first_hit(items, query, a, b) <= b,
        first_hit(items, query, a, b) < b ==> is_hit(
            items[first_hit(items, query, a, b)],
            query,
        ),
        forall|i: int|
            a <= i < first_hit(items, query, a, b) ==> !is_hit(#[trigger] items[i], query),
    decreases b - a,
{
    if a < b && !is_hit(items[a], query) {
        lemma_first_hit(items, query, a + 1, b);
    }
}

/// A typed number selects that item, or the last one where there are not so many; what is
/// no number selects nothing new.
pub proof fn a_typed_number_selects_that_item(s: AppV, n: int)
    requires
        s.show_details,
        !s.passthrough_mode,
        s.details_mode == DetailsMode::Jump,
        s.playlist_items.len() <= usize::MAX,
    ensures
        s.jump_input == decimal(n) && 0 <= n < s.playlist_items.len() ==> key_step(
            s,
            Key::Enter,
        ).app.playlist_sel == n,
        s.jump_input == decimal(n) && s.playlist_items.len() <= n <= usize::MAX
            && s.playlist_items.len() > 0 ==> key_step(s, Key::Enter).app.playlist_sel
            == s.playlist_items.len() - 1,
        number_value(s.jump_input) is None ==> key_step(s, Key::Enter).app.playlist_sel
            == s.playlist_sel,
        key_step(s, Key::Enter).app.details_mode == DetailsMode::Normal,
        key_step(s, Key::Esc).app.playlist_sel == s.playlist_sel,
        key_step(s, Key::Esc).app.details_mode == DetailsMode::Normal,
{
    if s.jump_input == decimal(n) && 0 <= n {
        crate::text::lemma_decimal_value(n);
    }
}

/// The keys that begin to type, and what they are for; left goes back to the dashboard.
pub proof fn list_keys_change_the_mode(s: AppV)
    requires
        on_list(s),
    ensures
        key_step(s, Key::Char('A')).app.details_mode == DetailsMode::Add,
        key_step(s, Key::Char('S')).app.details_mode == DetailsMode::Save,
        key_step(s, Key::Char('/')).app.details_mode == DetailsMode::Search,
        key_step(s, Key::Char('G')).app.details_mode == DetailsMode::Jump,
        key_step(s, Key::Char('A')).app.add_input.len() == 0,
        key_step(s, Key::Char('S')).app.add_input.len() == 0,
        key_step(s, Key::Char('/')).app.add_input.len() == 0,
        key_step(s, Key::Char('G')).app.jump_input.len() == 0,
        key_step(s, Key::Tab).app.command_mode,
        !key_step(s, Key::Left).app.show_details,
        !key_step(s, Key::Char('h')).app.show_details,
        !key_step(s, Key::Char('q')).app.show_details,
        key_step(s, Key::Char('q')).action != KeyAction::Quit,
{
}

/// While something is typed, each character is added at the end and Backspace takes the
/// last one away; for a number only digits count.
pub proof fn typing_edits_the_end(s: AppV, c: char)
    requires
        s.show_details,
        !s.passthrough_mode,
        c != 'q',
    ensures
        s.details_mode == DetailsMode::Jump && '0' <= c <= '9' ==> key_step(
            s,
            Key::Char(c),
        ).app.jump_input == s.jump_input.push(c),
        s.details_mode == DetailsMode::Jump && !('0' <= c <= '9') ==> key_step(s, Key::Char(c)).app
            == s,
        s.details_mode != DetailsMode::Jump && s.details_mode != DetailsMode::Normal ==> key_step(
            s,
            Key::Char(c),
        ).app.add_input == s.add_input.push(c),
        s.details_mode == DetailsMode::Jump && s.jump_input.len() > 0 ==> key_step(
            s,
            Key::Backspace,
        ).app.jump_input == s.jump_input.take(s.jump_input.len() - 1),
        s.details_mode != DetailsMode::Jump && s.details_mode != DetailsMode::Normal
            && s.add_input.len() > 0 ==> key_step(s, Key::Backspace).app.add_input
            == s.add_input.take(s.add_input.len() - 1),
{
    if s.jump_input.len() > 0 {
        assert(s.jump_input.drop_last() =~= s.jump_input.take(s.jump_input.len() - 1));
    }
    if s.add_input.len() > 0 {
        assert(s.add_input.drop_last() =~= s.add_input.take(s.add_input.len() - 1));
    }
}

/// An item is a hit where what was typed stands somewhere in its text, in either case.
pub proof fn hits_hold_what_was_typed(item: Seq<char>, query: Seq<char>)
    ensures
        is_hit(item, query) <==> exists|k: int|
            0 <= k && k + query.len() <= lowercase(item).len() && #[trigger] lowercase(
                item,
            ).subrange(k, k + query.len()) == query,
{
    let s = lowercase(item);
    if let Some(i) = crate::text::first_match(s, query) {
        crate::text_laws::lemma_match(s, query, 0);
        assert(s.subrange(i, i + query.len()) == query);
    } else {
        assert forall|k: int|
            0 <= k && k + query.len() <= s.len() implies #[trigger] s.subrange(
            k,
            k + query.len(),
        ) != query by {
            crate::text_laws::lemma_match(s, query, k);
        }
    }
}

} // verus!
