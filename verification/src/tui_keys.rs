//! What each key of the operator's terminal does.
use crate::board::{any_playing, is_any_playing};
use crate::client::{
    cmd_mute_others, cmd_pause_toggle_all, cmd_solo, index_json, mute_messages, node_message,
    pane_message, pause_messages, property_message, send_cmd1, send_cmd2, send_node_cmd, set_flag,
    solo_messages,
};
use crate::json::{jsons, obj, obj1, obj2, obj3, Json, JsonV, NumV};
use crate::keys::{
    down, is_down, is_left, is_right, is_up, left, mpv_key, mpv_key_name, right, up, Key, KeyAction,
};
use crate::paths::{expand_tilde, tilde_expanded};
use crate::picks::{is_marked, rising, toggle, toggled};
use crate::text::{
    cat3, find_str, first_match, is_digit, is_empty, lower, lowercase, number_value, parse_usize,
    strs, trim, trimmed,
};
use crate::tui::{
    details_closed, details_opened, index_of_position, last_index_of, name_index, position_index,
    position_of, selected_next, selected_of, selected_prev, smaller, App, AppV, DetailsMode,
};
use vstd::prelude::*;

verus! {

/// What a key leads to: what the screen has to do, and what is sent to the daemon.
#[derive(Debug)]
pub struct Outcome {
    pub action: KeyAction,
    pub send: Vec<Json>,
}

/// The terminal after a key, with what the key leads to.
pub struct OutV {
    pub app: AppV,
    pub action: KeyAction,
    pub send: Seq<JsonV>,
}

pub open spec fn quietly(app: AppV, action: KeyAction) -> OutV {
    OutV { app, action, send: Seq::empty() }
}

pub open spec fn no_status(s: AppV) -> AppV {
    AppV { status_msg: None, ..s }
}

pub open spec fn status(s: AppV, msg: Seq<char>) -> AppV {
    AppV { status_msg: Some(msg), ..s }
}

pub open spec fn shorter(t: Seq<char>) -> Seq<char> {
    if t.len() > 0 {
        t.drop_last()
    } else {
        t
    }
}

pub open spec fn int_json(n: int) -> JsonV {
    JsonV::Num(NumV::Int(n))
}

/// The request for the playlist of a pane.
pub open spec fn get_message(pane: Seq<char>) -> JsonV {
    node_message("panebot:playlist-get"@, pane)
}

// ---------------------------------------------------------------------------
// Text entry
// ---------------------------------------------------------------------------

/// The selection after a number was typed: that item, or the last one; a text that
/// is no number selects nothing new.
pub open spec fn jumped(input: Seq<char>, sel: usize, len: int) -> usize {
    match number_value(input) {
        Some(n) => if n <= usize::MAX {
            smaller(n, last_index_of(len)) as usize
        } else {
            sel
        },
        None => sel,
    }
}

/// Typing the number of an item.
pub open spec fn jump_step(s: AppV, k: Key) -> OutV {
    match k {
        Key::Char(c) => if is_digit(c) {
            quietly(AppV { jump_input: s.jump_input.push(c), ..s }, KeyAction::RenderDetails)
        } else {
            quietly(s, KeyAction::Nothing)
        },
        Key::Backspace => quietly(
            AppV { jump_input: shorter(s.jump_input), ..s },
            KeyAction::RenderDetails,
        ),
        Key::Enter => quietly(
            AppV {
                playlist_sel: jumped(s.jump_input, s.playlist_sel, s.playlist_items.len() as int),
                jump_input: Seq::empty(),
                details_mode: DetailsMode::Normal,
                ..s
            },
            KeyAction::RenderDetails,
        ),
        Key::Esc => quietly(
            AppV { jump_input: Seq::empty(), details_mode: DetailsMode::Normal, ..s },
            KeyAction::RenderDetails,
        ),
        _ => quietly(s, KeyAction::Nothing),
    }
}

/// The request to save a playlist to a file.
pub open spec fn save_message(pane: Seq<char>, path: Seq<char>) -> JsonV {
    obj(
        seq![
            ("pane"@, JsonV::Str(pane)),
            ("path"@, JsonV::Str(path)),
            ("command"@, JsonV::Str("panebot:playlist-save"@)),
        ],
    )
}

/// An item that a search finds: its text holds the query, in either case.
pub open spec fn is_hit(item: Seq<char>, query: Seq<char>) -> bool {
    first_match(lowercase(item), query) is Some
}

/// The first hit from `a` on and before `b`; `b` where there is none.
pub open spec fn first_hit(items: Seq<Seq<char>>, query: Seq<char>, a: int, b: int) -> int
    decreases b - a,
{
    if a >= b || is_hit(items[a], query) {
        if a >= b {
            b
        } else {
            a
        }
    } else {
        first_hit(items, query, a + 1, b)
    }
}

/// The next hit behind the selection, going on from the top where the end is
/// reached.
pub open spec fn next_hit(items: Seq<Seq<char>>, query: Seq<char>, sel: int) -> Option<int> {
    let len = items.len() as int;
    let start = smaller(sel + 1, len);
    let h = first_hit(items, query, start, len);
    let g = first_hit(items, query, 0, start);
    if h < len {
        Some(h)
    } else if g < start {
        Some(g)
    } else {
        None
    }
}

/// What was typed is taken.
pub open spec fn submitted(s: AppV) -> OutV {
    let done = AppV { add_input: Seq::empty(), details_mode: DetailsMode::Normal, ..s };
    let entry = trimmed(s.add_input);
    if s.details_mode == DetailsMode::Search {
        if s.add_input.len() == 0 {
            quietly(done, KeyAction::RenderDetails)
        } else {
            match next_hit(s.playlist_items, lowercase(s.add_input), s.playlist_sel as int) {
                Some(i) => quietly(
                    AppV { playlist_sel: i as usize, status_msg: None, ..done },
                    KeyAction::RenderDetails,
                ),
                None => quietly(status(done, "No match"@), KeyAction::RenderDetails),
            }
        }
    } else {
        OutV {
            app: done,
            action: KeyAction::RenderDetails,
            send: match selected_of(s) {
                Some(pane) => if entry.len() == 0 {
                    Seq::empty()
                } else if s.details_mode == DetailsMode::Save {
                    seq![save_message(pane, s.home + "/"@ + entry + ".m3u"@)]
                } else {
                    seq![
                        pane_message(
                            "loadfile"@,
                            pane,
                            seq![
                                JsonV::Str(tilde_expanded(entry, s.home)),
                                JsonV::Str("append"@),
                            ],
                        ),
                        get_message(pane),
                    ]
                },
                None => Seq::empty(),
            },
        }
    }
}

/// Typing a path, a name or a query.
pub open spec fn input_step(s: AppV, k: Key) -> OutV {
    match k {
        Key::Char(c) => quietly(
            AppV { add_input: s.add_input.push(c), ..s },
            KeyAction::RenderDetails,
        ),
        Key::Backspace => quietly(
            AppV { add_input: shorter(s.add_input), ..s },
            KeyAction::RenderDetails,
        ),
        Key::Enter => submitted(s),
        Key::Esc => quietly(
            AppV { add_input: Seq::empty(), details_mode: DetailsMode::Normal, ..s },
            KeyAction::RenderDetails,
        ),
        _ => quietly(s, KeyAction::Nothing),
    }
}

// ---------------------------------------------------------------------------
// Command mode
// ---------------------------------------------------------------------------

pub open spec fn cycle_message(pane: Seq<char>, what: Seq<char>) -> JsonV {
    pane_message("cycle"@, pane, seq![JsonV::Str(what)])
}

pub open spec fn seek_message(pane: Seq<char>, secs: int) -> JsonV {
    pane_message("seek"@, pane, seq![int_json(secs), JsonV::Str("relative"@)])
}

pub open spec fn volume_message(pane: Seq<char>, by: int) -> JsonV {
    pane_message("add"@, pane, seq![JsonV::Str("volume"@), int_json(by)])
}

/// What a key sends to the selected player in command mode.
pub open spec fn command_key(pane: Seq<char>, k: Key) -> Option<JsonV> {
    if k == Key::Char(' ') {
        Some(cycle_message(pane, "pause"@))
    } else if k == Key::Char('m') {
        Some(cycle_message(pane, "mute"@))
    } else if k == Key::Enter {
        Some(pane_message("keypress"@, pane, seq![JsonV::Str("ENTER"@)]))
    } else if k == Key::Char('f') {
        Some(cycle_message(pane, "fullscreen"@))
    } else if is_left(k) {
        Some(seek_message(pane, -5))
    } else if is_right(k) {
        Some(seek_message(pane, 5))
    } else if is_up(k) {
        Some(seek_message(pane, 60))
    } else if is_down(k) {
        Some(seek_message(pane, -60))
    } else if k == Key::Char('0') {
        Some(volume_message(pane, 5))
    } else if k == Key::Char('9') {
        Some(volume_message(pane, -5))
    } else {
        None
    }
}

/// What a key sends to the selected player in command mode.
pub fn command_key_message(pane: &str, k: Key) -> (r: Option<Json>)
    ensures
        crate::protocol::opt_json(r) == command_key(pane@, k),
{
    if k == Key::Char(' ') {
        Some(send_cmd1(pane, "cycle", Json::string("pause")))
    } else if k == Key::Char('m') {
        Some(send_cmd1(pane, "cycle", Json::string("mute")))
    } else if k == Key::Enter {
        Some(send_cmd1(pane, "keypress", Json::string("ENTER")))
    } else if k == Key::Char('f') {
        Some(send_cmd1(pane, "cycle", Json::string("fullscreen")))
    } else if left(k) {
        Some(send_cmd2(pane, "seek", Json::integer(-5), Json::string("relative")))
    } else if right(k) {
        Some(send_cmd2(pane, "seek", Json::integer(5), Json::string("relative")))
    } else if up(k) {
        Some(send_cmd2(pane, "seek", Json::integer(60), Json::string("relative")))
    } else if down(k) {
        Some(send_cmd2(pane, "seek", Json::integer(-60), Json::string("relative")))
    } else if k == Key::Char('0') {
        Some(send_cmd2(pane, "add", Json::string("volume"), Json::integer(5)))
    } else if k == Key::Char('9') {
        Some(send_cmd2(pane, "add", Json::string("volume"), Json::integer(-5)))
    } else {
        None
    }
}

// ---------------------------------------------------------------------------
// Playlist screen
// ---------------------------------------------------------------------------

pub open spec fn played(s: AppV) -> OutV {
    OutV {
        app: no_status(s),
        action: KeyAction::RenderDetails,
        send: match selected_of(s) {
            Some(pane) => seq![
                pane_message("playlist-play-index"@, pane, seq![int_json(s.playlist_sel as int)]),
                property_message(pane, "pause"@, false),
            ],
            None => Seq::empty(),
        },
    }
}

/// The selected item is to come next: behind the one being played, or first where
/// none is. An item that is already there stays.
pub open spec fn queued(s: AppV) -> OutV {
    let pos = position_of(s);
    let to = if pos >= 0 {
        smaller(pos + 1, s.playlist_items.len() as int)
    } else {
        0
    };
    match selected_of(s) {
        Some(pane) => if s.playlist_sel != to && s.playlist_sel + 1 != to {
            OutV {
                app: status(s, "Queued next"@),
                action: KeyAction::RenderDetails,
                send: seq![
                    pane_message(
                        "playlist-move"@,
                        pane,
                        seq![int_json(s.playlist_sel as int), int_json(to)],
                    ),
                    get_message(pane),
                ],
            }
        } else {
            quietly(s, KeyAction::RenderDetails)
        },
        None => quietly(s, KeyAction::RenderDetails),
    }
}

/// The items that an operation is about: the marked ones, or else the selected one.
pub open spec fn targets_of(s: AppV) -> Seq<usize> {
    if s.selected_items.len() == 0 {
        seq![s.playlist_sel]
    } else {
        s.selected_items
    }
}

/// The requests to take out items, the last first, and then to show what is left.
pub open spec fn removal_messages(pane: Seq<char>, targets: Seq<usize>) -> Seq<JsonV> {
    Seq::new(
        targets.len(),
        |i: int|
            pane_message(
                "playlist-remove"@,
                pane,
                seq![int_json(targets[targets.len() - 1 - i] as int)],
            ),
    ).push(get_message(pane))
}

/// The one being played is among the targets.
pub open spec fn hits_playing(targets: Seq<usize>, pos: i64) -> bool {
    exists|i: int| 0 <= i < targets.len() && pos >= 0 && #[trigger] targets[i] == pos
}

/// Takes out the targets, unless the item being played is among them.
pub open spec fn deleted(s: AppV) -> OutV {
    match selected_of(s) {
        Some(pane) => {
            let targets = targets_of(s);
            if hits_playing(targets, position_of(s)) {
                quietly(status(s, "Cannot remove playing item"@), KeyAction::RenderDetails)
            } else {
                OutV {
                    app: AppV {
                        selected_items: Seq::empty(),
                        playlist_sel: smaller(
                            s.playlist_sel as int,
                            last_index_of(s.playlist_items.len() - targets.len()),
                        ) as usize,
                        status_msg: None,
                        ..s
                    },
                    action: KeyAction::RenderDetails,
                    send: removal_messages(pane, targets),
                }
            }
        },
        None => quietly(s, KeyAction::RenderDetails),
    }
}

/// Where the next of the marked items goes, after those in `done` went to `dest`.
pub open spec fn destination(done: Seq<usize>, dest: int) -> int
    decreases done.len(),
{
    if done.len() == 0 {
        dest
    } else {
        let d = destination(done.drop_last(), dest);
        if done.last() < d {
            d - 1
        } else {
            d
        }
    }
}

pub open spec fn move_messages(pane: Seq<char>, targets: Seq<usize>, dest: int) -> Seq<JsonV> {
    Seq::new(
        targets.len(),
        |i: int|
            pane_message(
                "playlist-move"@,
                pane,
                seq![int_json(targets[i] as int), int_json(destination(targets.take(i), dest))],
            ),
    ).push(get_message(pane))
}

/// Moves the marked items to the selected place.
pub open spec fn marked_moved(s: AppV) -> OutV {
    match selected_of(s) {
        Some(pane) => if s.selected_items.len() == 0 {
            quietly(status(s, "Mark items with Space first"@), KeyAction::RenderDetails)
        } else {
            OutV {
                app: AppV { selected_items: Seq::empty(), status_msg: None, ..s },
                action: KeyAction::RenderDetails,
                send: move_messages(pane, s.selected_items, s.playlist_sel as int),
            }
        },
        None => quietly(s, KeyAction::RenderDetails),
    }
}

/// The indices below `n` that are not among `keep`.
pub open spec fn others(n: int, keep: Seq<usize>) -> Seq<usize>
    decreases n,
{
    if n <= 0 {
        Seq::empty()
    } else {
        let before = others(n - 1, keep);
        if keep.contains((n - 1) as usize) {
            before
        } else {
            before.push((n - 1) as usize)
        }
    }
}

/// Takes out all but the marked items, or all but the one being played.
pub open spec fn cropped(s: AppV) -> OutV {
    match selected_of(s) {
        Some(pane) => if s.selected_items.len() == 0 && position_of(s) < 0 {
            quietly(status(s, "Nothing playing to crop around"@), KeyAction::RenderDetails)
        } else {
            let keep = if s.selected_items.len() > 0 {
                s.selected_items
            } else {
                seq![index_of_position(position_of(s)) as usize]
            };
            OutV {
                app: AppV { selected_items: Seq::empty(), playlist_sel: 0, status_msg: None, ..s },
                action: KeyAction::RenderDetails,
                send: removal_messages(pane, others(s.playlist_items.len() as int, keep)),
            }
        },
        None => quietly(s, KeyAction::RenderDetails),
    }
}

/// The selection one further down, where there is more.
pub open spec fn next_item(s: AppV) -> usize {
    if s.playlist_sel + 1 < s.playlist_items.len() {
        (s.playlist_sel + 1) as usize
    } else {
        s.playlist_sel
    }
}

/// Where a key takes the selection.
pub open spec fn navigated(s: AppV, k: Key) -> Option<usize> {
    let last = last_index_of(s.playlist_items.len() as int);
    if is_up(k) {
        Some(
            if s.playlist_sel > 0 {
                (s.playlist_sel - 1) as usize
            } else {
                0
            },
        )
    } else if is_down(k) {
        Some(next_item(s))
    } else if k == Key::Char('J') {
        Some(last as usize)
    } else if k == Key::Char('K') {
        Some(0)
    } else if k == Key::Char('[') {
        Some(
            if s.playlist_sel > 10 {
                (s.playlist_sel - 10) as usize
            } else {
                0
            },
        )
    } else if k == Key::Char(']') {
        Some(smaller(s.playlist_sel + 10, last) as usize)
    } else {
        None
    }
}

/// What a key makes of the playlist screen's mode.
pub open spec fn mode_for(k: Key) -> Option<DetailsMode> {
    if k == Key::Char('A') {
        Some(DetailsMode::Add)
    } else if k == Key::Char('S') {
        Some(DetailsMode::Save)
    } else if k == Key::Char('/') {
        Some(DetailsMode::Search)
    } else {
        None
    }
}

/// A key on the playlist screen, when nothing is being typed and the keys are not
/// for the player.
pub open spec fn browse_step(s: AppV, k: Key) -> OutV {
    let calm = no_status(s);
    let shown = KeyAction::RenderDetails;
    if is_left(k) && !s.command_mode {
        quietly(details_closed(s), KeyAction::Render)
    } else if let Some(i) = navigated(s, k) {
        quietly(AppV { playlist_sel: i, ..calm }, shown)
    } else if let Some(mode) = mode_for(k) {
        quietly(AppV { details_mode: mode, add_input: Seq::empty(), ..calm }, shown)
    } else if k == Key::Enter {
        played(s)
    } else if k == Key::Char('n') {
        queued(s)
    } else if k == Key::Tab {
        quietly(AppV { command_mode: !s.command_mode, ..calm }, shown)
    } else if k == Key::Char(' ') {
        quietly(
            AppV {
                selected_items: toggled(s.selected_items, s.playlist_sel),
                playlist_sel: next_item(s),
                ..calm
            },
            shown,
        )
    } else if k == Key::Esc {
        if s.selected_items.len() > 0 {
            quietly(AppV { selected_items: Seq::empty(), ..calm }, shown)
        } else {
            quietly(s, KeyAction::Nothing)
        }
    } else if k == Key::Char('G') {
        quietly(AppV { details_mode: DetailsMode::Jump, jump_input: Seq::empty(), ..s }, shown)
    } else if k == Key::Char('D') {
        deleted(s)
    } else if k == Key::Char('M') {
        marked_moved(s)
    } else if k == Key::Char('C') {
        cropped(s)
    } else {
        quietly(s, KeyAction::Nothing)
    }
}

/// A key on the playlist screen.
pub open spec fn details_step(s: AppV, k: Key) -> OutV {
    if s.details_mode == DetailsMode::Jump {
        jump_step(s, k)
    } else if s.details_mode != DetailsMode::Normal {
        input_step(s, k)
    } else if s.command_mode && selected_of(s) is Some {
        match command_key(selected_of(s)->0, k) {
            Some(m) => OutV { app: s, action: KeyAction::RenderDetails, send: seq![m] },
            None => if k == Key::Char('v') {
                quietly(AppV { passthrough_mode: true, ..s }, KeyAction::RenderDetails)
            } else if k == Key::Tab {
                quietly(AppV { command_mode: false, ..no_status(s) }, KeyAction::RenderDetails)
            } else {
                quietly(s, KeyAction::Nothing)
            },
        }
    } else {
        browse_step(s, k)
    }
}

// ---------------------------------------------------------------------------
// Dashboard
// ---------------------------------------------------------------------------

/// The request to switch the layout.
pub open spec fn layout_message(name: Seq<char>) -> JsonV {
    obj(
        seq![("layout_name"@, JsonV::Str(name)), ("command"@, JsonV::Str("panebot:layout"@))],
    )
}

/// The request to restart every pane.
pub open spec fn restart_all_message() -> JsonV {
    obj(seq![("command"@, JsonV::Str("panebot:restart-all"@))])
}

/// A key while the layouts are offered.
pub open spec fn picker_step(s: AppV, k: Key) -> OutV {
    if is_down(k) {
        quietly(
            AppV {
                picker_sel: if s.picker_sel + 1 < s.layouts.len() {
                    (s.picker_sel + 1) as usize
                } else {
                    s.picker_sel
                },
                ..s
            },
            KeyAction::Render,
        )
    } else if is_up(k) {
        quietly(
            AppV {
                picker_sel: if s.picker_sel > 0 {
                    (s.picker_sel - 1) as usize
                } else {
                    0
                },
                ..s
            },
            KeyAction::Render,
        )
    } else if k == Key::Enter {
        if s.picker_sel < s.layouts.len() {
            OutV {
                app: AppV { show_picker: false, ..s },
                action: KeyAction::Render,
                send: seq![layout_message(s.layouts[s.picker_sel as int])],
            }
        } else {
            quietly(s, KeyAction::Render)
        }
    } else if k == Key::Esc || k == Key::Char('W') {
        quietly(AppV { show_picker: false, ..s }, KeyAction::Render)
    } else {
        quietly(s, KeyAction::Nothing)
    }
}

/// Messages about the selected pane; none where none is selected.
pub open spec fn about_selected(s: AppV, f: spec_fn(Seq<char>) -> Seq<JsonV>) -> OutV {
    OutV {
        app: s,
        action: KeyAction::Render,
        send: match selected_of(s) {
            Some(pane) => f(pane),
            None => Seq::empty(),
        },
    }
}

/// A key on the dashboard.
pub open spec fn dashboard_step(s: AppV, k: Key) -> OutV {
    if s.show_picker {
        picker_step(s, k)
    } else if k == Key::Char('W') && !s.is_remote {
        let i = name_index(s.layouts, s.layout);
        quietly(
            AppV {
                picker_sel: if i < s.layouts.len() {
                    i as usize
                } else {
                    0
                },
                show_picker: true,
                ..s
            },
            KeyAction::Render,
        )
    } else if k == Key::Char('C') {
        quietly(s, KeyAction::Reconnect)
    } else if !s.command_mode && is_left(k) {
        quietly(AppV { show_log: true, ..s }, KeyAction::Render)
    } else if !s.command_mode && is_right(k) {
        match selected_of(s) {
            Some(pane) => OutV {
                app: details_opened(s),
                action: KeyAction::RenderDetails,
                send: seq![get_message(pane)],
            },
            None => quietly(s, KeyAction::Nothing),
        }
    } else if k == Key::Tab {
        quietly(AppV { command_mode: !s.command_mode, ..s }, KeyAction::Render)
    } else if !s.command_mode {
        if is_down(k) {
            quietly(selected_next(s), KeyAction::Render)
        } else if is_up(k) {
            quietly(selected_prev(s), KeyAction::Render)
        } else if k == Key::Char('r') {
            about_selected(s, |p: Seq<char>| seq![node_message("panebot:restart-pane"@, p)])
        } else if k == Key::Char('R') {
            OutV { app: s, action: KeyAction::Render, send: seq![restart_all_message()] }
        } else if k == Key::Char('S') {
            about_selected(s, |p: Seq<char>| solo_messages(s.pane_order, p))
        } else if k == Key::Char('M') {
            about_selected(s, |p: Seq<char>| mute_messages(s.pane_order, p))
        } else if k == Key::Char('P') {
            OutV {
                app: s,
                action: KeyAction::Render,
                send: pause_messages(s.pane_order, any_playing(s.panes)),
            }
        } else {
            quietly(s, KeyAction::Nothing)
        }
    } else {
        match selected_of(s) {
            Some(pane) => match command_key(pane, k) {
                Some(m) => OutV { app: s, action: KeyAction::Render, send: seq![m] },
                None => if k == Key::Char('v') {
                    quietly(AppV { passthrough_mode: true, ..s }, KeyAction::Render)
                } else {
                    quietly(s, KeyAction::Nothing)
                },
            },
            None => quietly(s, KeyAction::Nothing),
        }
    }
}

/// A key, wherever the terminal stands.
pub open spec fn key_step(s: AppV, k: Key) -> OutV {
    if s.passthrough_mode {
        if k == Key::Char('v') {
            quietly(AppV { passthrough_mode: false, ..s }, KeyAction::Render)
        } else {
            OutV {
                app: s,
                action: KeyAction::Nothing,
                send: match selected_of(s) {
                    Some(pane) => if mpv_key(k).len() > 0 {
                        seq![pane_message("keypress"@, pane, seq![JsonV::Str(mpv_key(k))])]
                    } else {
                        Seq::empty()
                    },
                    None => Seq::empty(),
                },
            }
        }
    } else if k == Key::Char('q') && !s.show_picker {
        if s.show_details {
            quietly(details_closed(s), KeyAction::Render)
        } else if s.show_log {
            quietly(AppV { show_log: false, ..s }, KeyAction::Render)
        } else {
            quietly(s, KeyAction::Quit)
        }
    } else if s.show_log && !s.show_details {
        if is_right(k) || is_down(k) {
            quietly(AppV { show_log: false, ..s }, KeyAction::Render)
        } else {
            quietly(s, KeyAction::Nothing)
        }
    } else if s.show_details {
        details_step(s, k)
    } else {
        dashboard_step(s, k)
    }
}

// ---------------------------------------------------------------------------
// Executable counterparts
// ---------------------------------------------------------------------------

fn quiet(action: KeyAction) -> (r: Outcome)
    ensures
        r.action == action,
        jsons(r.send@) == Seq::<JsonV>::empty(),
{
    let send: Vec<Json> = Vec::new();
    assert(jsons(send@) =~= Seq::empty());
    Outcome { action, send }
}

fn sends1(action: KeyAction, a: Json) -> (r: Outcome)
    ensures
        r.action == action,
        jsons(r.send@) == seq![a.view()],
{
    let send: Vec<Json> = vec![a];
    assert(jsons(send@) =~= seq![a.view()]);
    Outcome { action, send }
}

fn sends2(action: KeyAction, a: Json, b: Json) -> (r: Outcome)
    ensures
        r.action == action,
        jsons(r.send@) == seq![a.view(), b.view()],
{
    let send: Vec<Json> = vec![a, b];
    assert(jsons(send@) =~= seq![a.view(), b.view()]);
    Outcome { action, send }
}

/// The last index of a list; zero for an empty one.
pub fn last_of(n: usize) -> (r: usize)
    ensures
        r == last_index_of(n as int),
{
    if n > 0 {
        n - 1
    } else {
        0
    }
}

/// The selection after a number was typed.
pub fn jump_target(input: &str, sel: usize, len: usize) -> (r: usize)
    ensures
        r == jumped(input@, sel, len as int),
{
    match parse_usize(input) {
        Some(n) => {
            let last: usize = last_of(len);
            if n < last {
                n
            } else {
                last
            }
        },
        None => sel,
    }
}

fn jump_key(app: &mut App, k: Key) -> (r: Outcome)
    requires
        old(app).wf(),
    ensures
        final(app).wf(),
        (OutV { app: final(app).view(), action: r.action, send: jsons(r.send@) }) == jump_step(
            old(app).view(),
            k,
        ),
{
    match k {
        Key::Char(c) => {
            if '0' <= c && c <= '9' {
                app.jump_input.push(c);
                quiet(KeyAction::RenderDetails)
            } else {
                quiet(KeyAction::Nothing)
            }
        },
        Key::Backspace => {
            app.jump_input.pop();
            quiet(KeyAction::RenderDetails)
        },
        Key::Enter => {
            app.playlist_sel =
            jump_target(app.jump_input.as_str(), app.playlist_sel, app.playlist_items.len());
            app.jump_input = String::new();
            app.details_mode = DetailsMode::Normal;
            quiet(KeyAction::RenderDetails)
        },
        Key::Esc => {
            app.jump_input = String::new();
            app.details_mode = DetailsMode::Normal;
            quiet(KeyAction::RenderDetails)
        },
        _ => quiet(KeyAction::Nothing),
    }
}

fn find_hit(items: &Vec<String>, query: &str, a: usize, b: usize) -> (r: usize)
    requires
        a <= b <= items@.len(),
    ensures
        r == first_hit(strs(items@), query@, a as int, b as int),
        a <= r <= b,
{
    let ghost all = strs(items@);
    let mut i: usize = a;
    while i < b
        invariant
            all == strs(items@),
            a <= i <= b <= items@.len(),
            first_hit(all, query@, a as int, b as int) == first_hit(all, query@, i as int, b as int),
        decreases b - i,
    {
        let low: String = lower(items[i].as_str());
        assert(all[i as int] == items@[i as int]@);
        if find_str(low.as_str(), query).is_some() {
            return i;
        }
        i = i + 1;
    }
    i
}

/// The next item that a search finds.
pub fn search(items: &Vec<String>, query: &str, sel: usize) -> (r: Option<usize>)
    ensures
        match r {
            Some(i) => next_hit(strs(items@), query@, sel as int) == Some(i as int) && i
                < items@.len(),
            None => next_hit(strs(items@), query@, sel as int) is None,
        },
{
    let len: usize = items.len();
    let start: usize = if sel < len {
        sel + 1
    } else {
        len
    };
    let h: usize = find_hit(items, query, start, len);
    if h < len {
        return Some(h);
    }
    let g: usize = find_hit(items, query, 0, start);
    if g < start {
        Some(g)
    } else {
        None
    }
}

fn submit(app: &mut App) -> (r: Outcome)
    requires
        old(app).wf(),
    ensures
        final(app).wf(),
        (OutV { app: final(app).view(), action: r.action, send: jsons(r.send@) }) == submitted(
            old(app).view(),
        ),
{
    let input: String = app.add_input.clone();
    let mode: DetailsMode = app.details_mode;
    app.add_input = String::new();
    app.details_mode = DetailsMode::Normal;
    if mode == DetailsMode::Search {
        if !is_empty(input.as_str()) {
            let query: String = lower(input.as_str());
            match search(&app.playlist_items, query.as_str(), app.playlist_sel) {
                Some(i) => {
                    app.playlist_sel = i;
                    app.status_msg = None;
                },
                None => {
                    app.status_msg = Some("No match".to_owned());
                },
            }
        }
        return quiet(KeyAction::RenderDetails);
    }
    let entry: &str = trim(input.as_str());
    if is_empty(entry) {
        return quiet(KeyAction::RenderDetails);
    }
    match app.selected_name() {
        Some(pane) => if mode == DetailsMode::Save {
            let mut path: String = cat3(app.home.as_str(), "/", entry);
            path.append(".m3u");
            sends1(
                KeyAction::RenderDetails,
                obj3(
                    "pane",
                    Json::string(pane.as_str()),
                    "path",
                    Json::string(path.as_str()),
                    "command",
                    Json::string("panebot:playlist-save"),
                ),
            )
        } else {
            let path: String = expand_tilde(entry, app.home.as_str());
            sends2(
                KeyAction::RenderDetails,
                send_cmd2(
                    pane.as_str(),
                    "loadfile",
                    Json::string(path.as_str()),
                    Json::string("append"),
                ),
                send_node_cmd("panebot:playlist-get", pane.as_str()),
            )
        },
        None => quiet(KeyAction::RenderDetails),
    }
}

fn input_key(app: &mut App, k: Key) -> (r: Outcome)
    requires
        old(app).wf(),
    ensures
        final(app).wf(),
        (OutV { app: final(app).view(), action: r.action, send: jsons(r.send@) }) == input_step(
            old(app).view(),
            k,
        ),
{
    match k {
        Key::Char(c) => {
            app.add_input.push(c);
            quiet(KeyAction::RenderDetails)
        },
        Key::Backspace => {
            app.add_input.pop();
            quiet(KeyAction::RenderDetails)
        },
        Key::Enter => submit(app),
        Key::Esc => {
            app.add_input = String::new();
            app.details_mode = DetailsMode::Normal;
            quiet(KeyAction::RenderDetails)
        },
        _ => quiet(KeyAction::Nothing),
    }
}

fn queue(app: &mut App) -> (r: Outcome)
    requires
        old(app).wf(),
    ensures
        final(app).wf(),
        (OutV { app: final(app).view(), action: r.action, send: jsons(r.send@) }) == queued(
            old(app).view(),
        ),
{
    let pane: String = match app.selected_name() {
        Some(p) => p,
        None => return quiet(KeyAction::RenderDetails),
    };
    let pos: i64 = app.current_playlist_pos();
    let len: usize = app.playlist_items.len();
    let to: usize = if pos < 0 {
        0
    } else if pos as u64 >= len as u64 {
        len
    } else {
        pos as usize + 1
    };
    let sel: usize = app.playlist_sel;
    if sel != to && (to == 0 || sel != to - 1) {
        app.status_msg = Some("Queued next".to_owned());
        sends2(
            KeyAction::RenderDetails,
            send_cmd2(pane.as_str(), "playlist-move", index_json(sel), index_json(to)),
            send_node_cmd("panebot:playlist-get", pane.as_str()),
        )
    } else {
        quiet(KeyAction::RenderDetails)
    }
}

fn removals(pane: &str, targets: &Vec<usize>) -> (r: Outcome)
    ensures
        r.action == KeyAction::RenderDetails,
        jsons(r.send@) == removal_messages(pane@, targets@),
{
    let ghost want = removal_messages(pane@, targets@);
    let n: usize = targets.len();
    let mut send: Vec<Json> = Vec::new();
    for i in 0..n
        invariant
            n == targets@.len(),
            want == removal_messages(pane@, targets@),
            send.len() == i,
            forall|k: int| 0 <= k < i ==> (#[trigger] send@[k]).view() == want[k],
    {
        send.push(send_cmd1(pane, "playlist-remove", index_json(targets[n - 1 - i])));
    }
    send.push(send_node_cmd("panebot:playlist-get", pane));
    assert(jsons(send@) =~= want);
    Outcome { action: KeyAction::RenderDetails, send }
}

fn delete(app: &mut App) -> (r: Outcome)
    requires
        old(app).wf(),
    ensures
        final(app).wf(),
        (OutV { app: final(app).view(), action: r.action, send: jsons(r.send@) }) == deleted(
            old(app).view(),
        ),
{
    let pane: String = match app.selected_name() {
        Some(p) => p,
        None => return quiet(KeyAction::RenderDetails),
    };
    let pos: i64 = app.current_playlist_pos();
    let ghost s = app.view();
    let mut targets: Vec<usize> = Vec::new();
    if app.selected_items.len() == 0 {
        targets.push(app.playlist_sel);
    } else {
        targets = app.selected_items.clone();
    }
    assert(targets@ =~= targets_of(s));
    for i in 0..targets.len()
        invariant
            targets@ == targets_of(s),
            s == app.view(),
            pos == position_of(s),
            selected_of(s) is Some,
            app.wf(),
            s == old(app).view(),
            forall|k: int| 0 <= k < i ==> !(pos >= 0 && #[trigger] targets@[k] == pos),
    {
        if pos >= 0 && targets[i] as u64 == pos as u64 {
            proof {
                assert(targets@[i as int] == pos);
                assert(hits_playing(targets@, pos));
            }
            app.status_msg = Some("Cannot remove playing item".to_owned());
            return quiet(KeyAction::RenderDetails);
        }
    }
    assert(!hits_playing(targets@, pos));
    let len: usize = app.playlist_items.len();
    let left: usize = if targets.len() < len {
        len - targets.len()
    } else {
        0
    };
    let last: usize = last_of(left);
    app.selected_items = Vec::new();
    if last < app.playlist_sel {
        app.playlist_sel = last;
    }
    app.status_msg = None;
    removals(pane.as_str(), &targets)
}

fn move_key(app: &mut App) -> (r: Outcome)
    requires
        old(app).wf(),
    ensures
        final(app).wf(),
        (OutV { app: final(app).view(), action: r.action, send: jsons(r.send@) }) == marked_moved(
            old(app).view(),
        ),
{
    let pane: String = match app.selected_name() {
        Some(p) => p,
        None => return quiet(KeyAction::RenderDetails),
    };
    if app.selected_items.len() == 0 {
        app.status_msg = Some("Mark items with Space first".to_owned());
        return quiet(KeyAction::RenderDetails);
    }
    let ghost targets = app.selected_items@;
    let dest: usize = app.playlist_sel;
    let ghost want = move_messages(pane@, targets, dest as int);
    let mut adj: usize = dest;
    let mut send: Vec<Json> = Vec::new();
    for i in 0..app.selected_items.len()
        invariant
            app.selected_items@ == targets,
            want == move_messages(pane@, targets, dest as int),
            adj == destination(targets.take(i as int), dest as int),
            send.len() == i,
            forall|k: int| 0 <= k < i ==> (#[trigger] send@[k]).view() == want[k],
    {
        let idx: usize = app.selected_items[i];
        send.push(send_cmd2(pane.as_str(), "playlist-move", index_json(idx), index_json(adj)));
        proof {
            assert(targets.take(i + 1).drop_last() =~= targets.take(i as int));
        }
        if idx < adj {
            adj = adj - 1;
        }
    }
    send.push(send_node_cmd("panebot:playlist-get", pane.as_str()));
    assert(jsons(send@) =~= want);
    app.selected_items = Vec::new();
    app.status_msg = None;
    Outcome { action: KeyAction::RenderDetails, send }
}

fn crop(app: &mut App) -> (r: Outcome)
    requires
        old(app).wf(),
    ensures
        final(app).wf(),
        (OutV { app: final(app).view(), action: r.action, send: jsons(r.send@) }) == cropped(
            old(app).view(),
        ),
{
    let pane: String = match app.selected_name() {
        Some(p) => p,
        None => return quiet(KeyAction::RenderDetails),
    };
    let pos: i64 = app.current_playlist_pos();
    let mut keep: Vec<usize> = Vec::new();
    if app.selected_items.len() > 0 {
        keep = app.selected_items.clone();
        assert(keep@ =~= app.selected_items@);
    } else {
        if pos < 0 {
            app.status_msg = Some("Nothing playing to crop around".to_owned());
            return quiet(KeyAction::RenderDetails);
        }
        keep.push(position_index(pos));
        assert(keep@ =~= seq![index_of_position(pos) as usize]);
    }
    let n: usize = app.playlist_items.len();
    let mut out: Vec<usize> = Vec::new();
    for i in 0..n
        invariant
            out@ == others(i as int, keep@),
    {
        if !is_marked(&keep, i) {
            out.push(i);
        }
    }
    app.selected_items = Vec::new();
    app.playlist_sel = 0;
    app.status_msg = None;
    removals(pane.as_str(), &out)
}

fn next_of(app: &App) -> (r: usize)
    ensures
        r == next_item(app.view()),
{
    let len: usize = app.playlist_items.len();
    let sel: usize = app.playlist_sel;
    if sel < len && len - sel > 1 {
        sel + 1
    } else {
        sel
    }
}

fn navigate(app: &App, k: Key) -> (r: Option<usize>)
    ensures
        r == navigated(app.view(), k),
{
    let sel: usize = app.playlist_sel;
    let last: usize = last_of(app.playlist_items.len());
    if up(k) {
        Some(
            if sel > 0 {
                sel - 1
            } else {
                0
            },
        )
    } else if down(k) {
        Some(next_of(app))
    } else if k == Key::Char('J') {
        Some(last)
    } else if k == Key::Char('K') {
        Some(0)
    } else if k == Key::Char('[') {
        Some(
            if sel > 10 {
                sel - 10
            } else {
                0
            },
        )
    } else if k == Key::Char(']') {
        Some(
            if sel <= last && last - sel >= 10 {
                sel + 10
            } else {
                last
            },
        )
    } else {
        None
    }
}

fn entry_mode(k: Key) -> (r: Option<DetailsMode>)
    ensures
        r == mode_for(k),
{
    if k == Key::Char('A') {
        Some(DetailsMode::Add)
    } else if k == Key::Char('S') {
        Some(DetailsMode::Save)
    } else if k == Key::Char('/') {
        Some(DetailsMode::Search)
    } else {
        None
    }
}

fn play(app: &mut App) -> (r: Outcome)
    requires
        old(app).wf(),
    ensures
        final(app).wf(),
        (OutV { app: final(app).view(), action: r.action, send: jsons(r.send@) }) == played(
            old(app).view(),
        ),
{
    app.status_msg = None;
    match app.selected_name() {
        Some(pane) => sends2(
            KeyAction::RenderDetails,
            send_cmd1(pane.as_str(), "playlist-play-index", index_json(app.playlist_sel)),
            set_flag(pane.as_str(), "pause", false),
        ),
        None => quiet(KeyAction::RenderDetails),
    }
}

fn browse_key(app: &mut App, k: Key) -> (r: Outcome)
    requires
        old(app).wf(),
    ensures
        final(app).wf(),
        (OutV { app: final(app).view(), action: r.action, send: jsons(r.send@) }) == browse_step(
            old(app).view(),
            k,
        ),
{
    if left(k) && !app.command_mode {
        app.close_details();
        quiet(KeyAction::Render)
    } else if let Some(i) = navigate(app, k) {
        app.playlist_sel = i;
        app.status_msg = None;
        quiet(KeyAction::RenderDetails)
    } else if let Some(mode) = entry_mode(k) {
        app.details_mode = mode;
        app.add_input = String::new();
        app.status_msg = None;
        quiet(KeyAction::RenderDetails)
    } else if k == Key::Enter {
        play(app)
    } else if k == Key::Char('n') {
        queue(app)
    } else if k == Key::Tab {
        app.command_mode = !app.command_mode;
        app.status_msg = None;
        quiet(KeyAction::RenderDetails)
    } else if k == Key::Char(' ') {
        let next: usize = next_of(app);
        toggle(&mut app.selected_items, app.playlist_sel);
        app.playlist_sel = next;
        app.status_msg = None;
        quiet(KeyAction::RenderDetails)
    } else if k == Key::Esc {
        if app.selected_items.len() > 0 {
            app.selected_items = Vec::new();
            app.status_msg = None;
            quiet(KeyAction::RenderDetails)
        } else {
            quiet(KeyAction::Nothing)
        }
    } else if k == Key::Char('G') {
        app.details_mode = DetailsMode::Jump;
        app.jump_input = String::new();
        quiet(KeyAction::RenderDetails)
    } else if k == Key::Char('D') {
        delete(app)
    } else if k == Key::Char('M') {
        move_key(app)
    } else if k == Key::Char('C') {
        crop(app)
    } else {
        quiet(KeyAction::Nothing)
    }
}

/// A key on the playlist screen.
pub fn handle_details_keys(app: &mut App, k: Key) -> (r: Outcome)
    requires
        old(app).wf(),
    ensures
        final(app).wf(),
        (OutV { app: final(app).view(), action: r.action, send: jsons(r.send@) }) == details_step(
            old(app).view(),
            k,
        ),
{
    if app.details_mode == DetailsMode::Jump {
        return jump_key(app, k);
    }
    if app.details_mode != DetailsMode::Normal {
        return input_key(app, k);
    }
    if app.command_mode {
        if let Some(pane) = app.selected_name() {
            return match command_key_message(pane.as_str(), k) {
                Some(m) => sends1(KeyAction::RenderDetails, m),
                None => if k == Key::Char('v') {
                    app.passthrough_mode = true;
                    quiet(KeyAction::RenderDetails)
                } else if k == Key::Tab {
                    app.command_mode = false;
                    app.status_msg = None;
                    quiet(KeyAction::RenderDetails)
                } else {
                    quiet(KeyAction::Nothing)
                },
            };
        }
    }
    browse_key(app, k)
}

pub fn picker_key(app: &mut App, k: Key) -> (r: Outcome)
    requires
        old(app).wf(),
    ensures
        final(app).wf(),
        (OutV { app: final(app).view(), action: r.action, send: jsons(r.send@) }) == picker_step(
            old(app).view(),
            k,
        ),
{
    if down(k) {
        let n: usize = app.layouts.len();
        if app.picker_sel < n && n - app.picker_sel > 1 {
            app.picker_sel = app.picker_sel + 1;
        }
        quiet(KeyAction::Render)
    } else if up(k) {
        if app.picker_sel > 0 {
            app.picker_sel = app.picker_sel - 1;
        }
        quiet(KeyAction::Render)
    } else if k == Key::Enter {
        if app.picker_sel < app.layouts.len() {
            let name: String = app.layouts[app.picker_sel].clone();
            app.show_picker = false;
            sends1(
                KeyAction::Render,
                obj2(
                    "layout_name",
                    Json::string(name.as_str()),
                    "command",
                    Json::string("panebot:layout"),
                ),
            )
        } else {
            quiet(KeyAction::Render)
        }
    } else if k == Key::Esc || k == Key::Char('W') {
        app.show_picker = false;
        quiet(KeyAction::Render)
    } else {
        quiet(KeyAction::Nothing)
    }
}

/// A key on the dashboard.
pub fn handle_dashboard_keys(app: &mut App, k: Key) -> (r: Outcome)
    requires
        old(app).wf(),
    ensures
        final(app).wf(),
        (OutV { app: final(app).view(), action: r.action, send: jsons(r.send@) }) == dashboard_step(
            old(app).view(),
            k,
        ),
{
    if app.show_picker {
        return picker_key(app, k);
    }
    if k == Key::Char('W') && !app.is_remote {
        let i: usize = crate::tui::find_name(&app.layouts, app.layout.as_str());
        app.picker_sel = if i < app.layouts.len() {
            i
        } else {
            0
        };
        app.show_picker = true;
        return quiet(KeyAction::Render);
    }
    if k == Key::Char('C') {
        return quiet(KeyAction::Reconnect);
    }
    if !app.command_mode && left(k) {
        app.go_log();
        return quiet(KeyAction::Render);
    }
    if !app.command_mode && right(k) {
        return match app.selected_name() {
            Some(pane) => {
                app.open_details();
                sends1(
                    KeyAction::RenderDetails,
                    send_node_cmd("panebot:playlist-get", pane.as_str()),
                )
            },
            None => quiet(KeyAction::Nothing),
        };
    }
    if k == Key::Tab {
        app.command_mode = !app.command_mode;
        return quiet(KeyAction::Render);
    }
    let pane: Option<String> = app.selected_name();
    if !app.command_mode {
        if down(k) {
            app.select_next();
            quiet(KeyAction::Render)
        } else if up(k) {
            app.select_prev();
            quiet(KeyAction::Render)
        } else if k == Key::Char('r') {
            match pane {
                Some(p) => sends1(KeyAction::Render, send_node_cmd("panebot:restart-pane", p.as_str())),
                None => quiet(KeyAction::Render),
            }
        } else if k == Key::Char('R') {
            sends1(KeyAction::Render, obj1("command", Json::string("panebot:restart-all")))
        } else if k == Key::Char('S') {
            match pane {
                Some(p) => Outcome {
                    action: KeyAction::Render,
                    send: cmd_solo(p.as_str(), &app.pane_order),
                },
                None => quiet(KeyAction::Render),
            }
        } else if k == Key::Char('M') {
            match pane {
                Some(p) => Outcome {
                    action: KeyAction::Render,
                    send: cmd_mute_others(p.as_str(), &app.pane_order),
                },
                None => quiet(KeyAction::Render),
            }
        } else if k == Key::Char('P') {
            Outcome {
                action: KeyAction::Render,
                send: cmd_pause_toggle_all(is_any_playing(&app.panes), &app.pane_order),
            }
        } else {
            quiet(KeyAction::Nothing)
        }
    } else {
        match pane {
            Some(p) => match command_key_message(p.as_str(), k) {
                Some(m) => sends1(KeyAction::Render, m),
                None => if k == Key::Char('v') {
                    app.passthrough_mode = true;
                    quiet(KeyAction::Render)
                } else {
                    quiet(KeyAction::Nothing)
                },
            },
            None => quiet(KeyAction::Nothing),
        }
    }
}

/// A key, wherever the terminal stands.
pub fn handle_key(app: &mut App, k: Key) -> (r: Outcome)
    requires
        old(app).wf(),
    ensures
        final(app).wf(),
        (OutV { app: final(app).view(), action: r.action, send: jsons(r.send@) }) == key_step(
            old(app).view(),
            k,
        ),
{
    if app.passthrough_mode {
        if k == Key::Char('v') {
            app.passthrough_mode = false;
            return quiet(KeyAction::Render);
        }
        if let Some(pane) = app.selected_name() {
            let name: String = mpv_key_name(k);
            if !is_empty(name.as_str()) {
                return sends1(
                    KeyAction::Nothing,
                    send_cmd1(pane.as_str(), "keypress", Json::string(name.as_str())),
                );
            }
        }
        return quiet(KeyAction::Nothing);
    }
    if k == Key::Char('q') && !app.show_picker {
        if app.show_details {
            app.close_details();
            return quiet(KeyAction::Render);
        }
        if app.show_log {
            app.leave_log();
            return quiet(KeyAction::Render);
        }
        return quiet(KeyAction::Quit);
    }
    if app.show_log && !app.show_details {
        if right(k) || down(k) {
            app.leave_log();
            return quiet(KeyAction::Render);
        }
        return quiet(KeyAction::Nothing);
    }
    if app.show_details {
        return handle_details_keys(app, k);
    }
    handle_dashboard_keys(app, k)
}

// ---------------------------------------------------------------------------
// Laws
// ---------------------------------------------------------------------------

/// Moving through the playlist never leaves it.
pub proof fn navigation_stays_in_the_playlist(s: AppV, k: Key)
    requires
        s.playlist_sel < s.playlist_items.len(),
        s.playlist_items.len() <= usize::MAX,
    ensures
        navigated(s, k) matches Some(i) ==> i < s.playlist_items.len(),
        jumped(s.jump_input, s.playlist_sel, s.playlist_items.len() as int) < s.playlist_items.len(),
{
    if let Some(n) = number_value(s.jump_input) {
        lemma_number_not_negative(s.jump_input);
    }
}

proof fn lemma_number_not_negative(t: Seq<char>)
    ensures
        number_value(t) matches Some(n) ==> n >= 0,
{
    let d = if t.len() > 0 && t[0] == '+' {
        t.skip(1)
    } else {
        t
    };
    if crate::text::all_digits(d) {
        crate::text::lemma_digits_value_nonneg(d);
    }
}

/// Moving through the panes never leaves them.
pub proof fn selection_stays_among_the_panes(s: AppV, k: Key)
    requires
        s.selected < s.pane_order.len(),
    ensures
        key_step(s, k).app.selected < s.pane_order.len(),
        key_step(s, k).app.pane_order == s.pane_order,
{
}

/// No key changes what is known of the panes: only the daemon's events do.
pub proof fn keys_leave_the_panes_alone(s: AppV, k: Key)
    ensures
        key_step(s, k).app.panes == s.panes,
        key_step(s, k).app.pane_order == s.pane_order,
        key_step(s, k).app.hostname == s.hostname,
        key_step(s, k).app.layout == s.layout,
{
}

/// The item being played is never taken out: a deletion that would hit it sends
/// nothing and changes nothing but the message shown.
pub proof fn playing_item_is_never_deleted(s: AppV)
    requires
        hits_playing(targets_of(s), position_of(s)),
    ensures
        deleted(s).send == Seq::<JsonV>::empty(),
        deleted(s).app.playlist_items == s.playlist_items,
        deleted(s).app.selected_items == s.selected_items,
        deleted(s).app.playlist_sel == s.playlist_sel,
{
}

/// While something is typed, only Enter reaches the daemon.
pub proof fn typing_sends_nothing(s: AppV, k: Key)
    requires
        s.show_details,
        !s.passthrough_mode,
        s.details_mode != DetailsMode::Normal,
        k != Key::Enter,
    ensures
        key_step(s, k).send == Seq::<JsonV>::empty(),
{
}

/// Everything but the key that ends it goes to the selected player while keys are
/// passed through, and the terminal itself stays as it is.
pub proof fn passthrough_forwards_every_key(s: AppV, k: Key, pane: Seq<char>)
    requires
        s.passthrough_mode,
        selected_of(s) == Some(pane),
        k != Key::Char('v'),
        k != Key::BackTab,
        k != Key::Other,
    ensures
        key_step(s, k).app == s,
        key_step(s, k).send == seq![
            pane_message("keypress"@, pane, seq![JsonV::Str(mpv_key(k))]),
        ],
{
    reveal_strlit("SPACE");
    reveal_strlit("ENTER");
    reveal_strlit("ESC");
    reveal_strlit("BS");
    reveal_strlit("DEL");
    reveal_strlit("TAB");
    reveal_strlit("UP");
    reveal_strlit("DOWN");
    reveal_strlit("LEFT");
    reveal_strlit("RIGHT");
    reveal_strlit("PGUP");
    reveal_strlit("PGDWN");
    reveal_strlit("HOME");
    reveal_strlit("END");
    reveal_strlit("F");
    assert(mpv_key(k).len() > 0);
}

/// What is left out of a crop is exactly what is not kept.
pub proof fn crop_takes_out_the_others(n: int, keep: Seq<usize>)
    requires
        0 <= n <= usize::MAX,
    ensures
        rising(others(n, keep)),
        forall|i: usize| #[trigger] others(n, keep).contains(i) <==> i < n && !keep.contains(i),
    decreases n,
{
    if n > 0 {
        crop_takes_out_the_others(n - 1, keep);
        let before = others(n - 1, keep);
        let last = (n - 1) as usize;
        let all = others(n, keep);
        assert forall|a: int, b: int| 0 <= a < b < all.len() implies #[trigger] all[a] < #[trigger] all[b] by {
            if b == before.len() {
                assert(before.contains(all[a]));
            }
        }
        assert forall|i: usize| #[trigger] all.contains(i) <==> i < n && !keep.contains(i) by {
            if all.contains(i) {
                let j = choose|j: int| 0 <= j < all.len() && all[j] == i;
                if j < before.len() {
                    assert(before[j] == i);
                    assert(before.contains(i));
                }
            }
            if i < n && !keep.contains(i) {
                if i == last {
                    assert(all[before.len() as int] == i);
                } else {
                    assert(before.contains(i));
                    let j = choose|j: int| 0 <= j < before.len() && before[j] == i;
                    assert(all[j] == i);
                }
            }
        }
    } else {
        assert forall|i: usize| #[trigger] others(n, keep).contains(i) <==> i < n && !keep.contains(
            i,
        ) by {}
    }
}

} // verus!
