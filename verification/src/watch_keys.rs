//! What each key of the watching terminal does.
use crate::client::{
    index_json, node_message, pane_message, property_message, send_cmd0, send_cmd1, send_cmd2,
    send_node_cmd, set_flag,
};
use crate::console::{as_sends, out_views, reload_message, reload_playlist_cmd, Out, OutMsgV};
use crate::json::{jsons, nearest_double, obj2, Double, Json, JsonV, NumV};
use crate::keys::{down, is_down, is_left, is_right, is_up, left, right, up, Key, KeyAction};
use crate::m3u::is_playing;
use crate::paths::{expand_tilde, tilde_expanded};
use crate::text::{cat, is_digit, is_empty, lemma_strs_push, opt, same, strs, trim, trimmed};
use crate::tui::{find_name, index_of_position, last_index_of, name_index, position_index};
use crate::tui_keys::{int_json, jump_target, jumped, last_of, layout_message, shorter};
use crate::watch::{player_names, player_views, watch_position, watched, Watch, WatchMode, WatchV};
use vstd::prelude::*;

verus! {

/// Work on files that a key leads to.
#[derive(Debug)]
pub enum WatchWork {
    /// Show what the playlist file of a pane holds.
    Open { pane: String },
    /// Complete what is typed.
    Complete,
    /// Add an entry to a playlist file.
    Append { pane: String, entry: String },
    /// Add an entry to one playlist file and take it out of another.
    Transfer { target: String, source: String, entry: String, idx: usize, pos: i64 },
    /// Take an entry out of a playlist file.
    Remove { pane: String, idx: usize, pos: i64 },
    /// Keep only the entry being played.
    Crop { pane: String, pos: i64 },
}

pub enum WatchWorkV {
    Open { pane: Seq<char> },
    Complete,
    Append { pane: Seq<char>, entry: Seq<char> },
    Transfer { target: Seq<char>, source: Seq<char>, entry: Seq<char>, idx: usize, pos: i64 },
    Remove { pane: Seq<char>, idx: usize, pos: i64 },
    Crop { pane: Seq<char>, pos: i64 },
}

impl WatchWork {
    pub open spec fn view(&self) -> WatchWorkV {
        match self {
            WatchWork::Open { pane } => WatchWorkV::Open { pane: pane@ },
            WatchWork::Complete => WatchWorkV::Complete,
            WatchWork::Append { pane, entry } => WatchWorkV::Append { pane: pane@, entry: entry@ },
            WatchWork::Transfer { target, source, entry, idx, pos } => WatchWorkV::Transfer {
                target: target@,
                source: source@,
                entry: entry@,
                idx: *idx,
                pos: *pos,
            },
            WatchWork::Remove { pane, idx, pos } => WatchWorkV::Remove {
                pane: pane@,
                idx: *idx,
                pos: *pos,
            },
            WatchWork::Crop { pane, pos } => WatchWorkV::Crop { pane: pane@, pos: *pos },
        }
    }
}

/// What a key leads to.
#[derive(Debug)]
pub struct WatchTurn {
    pub action: KeyAction,
    pub out: Vec<Out>,
    pub work: Option<WatchWork>,
}

/// The terminal after a key, with what the key leads to.
pub struct WatchTurnV {
    pub app: WatchV,
    pub action: KeyAction,
    pub out: Seq<OutMsgV>,
    pub work: Option<WatchWorkV>,
}

pub open spec fn opt_watch_work(w: Option<WatchWork>) -> Option<WatchWorkV> {
    match w {
        Some(x) => Some(x.view()),
        None => None,
    }
}

/// The terminal and the turn together are what the model says.
pub open spec fn matches_model(app: WatchV, r: WatchTurn, want: WatchTurnV) -> bool {
    want == (WatchTurnV {
        app,
        action: r.action,
        out: out_views(r.out@),
        work: opt_watch_work(r.work),
    })
}

pub open spec fn shows(app: WatchV, action: KeyAction) -> WatchTurnV {
    WatchTurnV { app, action, out: Seq::empty(), work: None }
}

pub open spec fn works(app: WatchV, work: WatchWorkV) -> WatchTurnV {
    WatchTurnV { app, action: KeyAction::RenderDetails, out: Seq::empty(), work: Some(work) }
}

pub open spec fn says(app: WatchV, action: KeyAction, messages: Seq<JsonV>) -> WatchTurnV {
    WatchTurnV { app, action, out: as_sends(messages), work: None }
}

pub open spec fn hush(s: WatchV) -> WatchV {
    WatchV { status_msg: None, ..s }
}

pub open spec fn noted(s: WatchV, msg: Seq<char>) -> WatchV {
    WatchV { status_msg: Some(msg), ..s }
}

// ---------------------------------------------------------------------------
// Playlist screen
// ---------------------------------------------------------------------------

pub open spec fn jump_model(s: WatchV, k: Key) -> WatchTurnV {
    let shown = KeyAction::RenderDetails;
    match k {
        Key::Char(c) => if is_digit(c) {
            shows(WatchV { jump_input: s.jump_input.push(c), ..s }, shown)
        } else {
            shows(s, KeyAction::Nothing)
        },
        Key::Backspace => shows(WatchV { jump_input: shorter(s.jump_input), ..s }, shown),
        Key::Enter => shows(
            WatchV {
                playlist_sel: jumped(s.jump_input, s.playlist_sel, s.playlist_items.len() as int),
                jump_input: Seq::empty(),
                details_mode: WatchMode::Normal,
                ..s
            },
            shown,
        ),
        Key::Esc => shows(
            WatchV { jump_input: Seq::empty(), details_mode: WatchMode::Normal, ..s },
            shown,
        ),
        _ => shows(s, KeyAction::Nothing),
    }
}

/// Typing an entry to add, with completions.
pub open spec fn add_model(s: WatchV, k: Key, home: Seq<char>) -> WatchTurnV {
    let shown = KeyAction::RenderDetails;
    let done = WatchV {
        add_input: Seq::empty(),
        add_completions: Seq::empty(),
        details_mode: WatchMode::Normal,
        ..s
    };
    match k {
        Key::Char(c) => works(WatchV { add_input: s.add_input.push(c), ..s }, WatchWorkV::Complete),
        Key::Backspace => works(
            WatchV { add_input: shorter(s.add_input), ..s },
            WatchWorkV::Complete,
        ),
        Key::Tab => if s.add_comp_sel < s.add_completions.len() {
            works(
                WatchV { add_input: s.add_completions[s.add_comp_sel as int], ..s },
                WatchWorkV::Complete,
            )
        } else {
            shows(s, KeyAction::Nothing)
        },
        Key::Down => if s.add_comp_sel + 1 < s.add_completions.len() {
            shows(WatchV { add_comp_sel: (s.add_comp_sel + 1) as usize, ..s }, shown)
        } else {
            shows(s, KeyAction::Nothing)
        },
        Key::Up => shows(
            WatchV {
                add_comp_sel: if s.add_comp_sel > 0 {
                    (s.add_comp_sel - 1) as usize
                } else {
                    0
                },
                ..s
            },
            shown,
        ),
        Key::Enter => {
            let entry = trimmed(s.add_input);
            match watched(s) {
                Some(pane) => if entry.len() > 0 {
                    works(
                        done,
                        WatchWorkV::Append { pane, entry: tilde_expanded(entry, home) },
                    )
                } else {
                    shows(done, shown)
                },
                None => shows(done, shown),
            }
        },
        Key::Esc => shows(done, shown),
        _ => shows(s, KeyAction::Nothing),
    }
}

/// The names that differ from `name`.
pub open spec fn other_names(names: Seq<Seq<char>>, name: Option<Seq<char>>) -> Seq<Seq<char>>
    decreases names.len(),
{
    if names.len() == 0 {
        Seq::empty()
    } else {
        let before = other_names(names.drop_last(), name);
        if name == Some(names.last()) {
            before
        } else {
            before.push(names.last())
        }
    }
}

/// Picking the pane that the selected item is sent to.
pub open spec fn send_model(s: WatchV, k: Key) -> WatchTurnV {
    let shown = KeyAction::RenderDetails;
    let others = other_names(player_names(s.players), watched(s));
    let done = WatchV { details_mode: WatchMode::Normal, send_picker_sel: 0, ..s };
    if is_up(k) {
        shows(
            WatchV {
                send_picker_sel: if s.send_picker_sel > 0 {
                    (s.send_picker_sel - 1) as usize
                } else {
                    0
                },
                ..s
            },
            shown,
        )
    } else if is_down(k) {
        shows(
            WatchV {
                send_picker_sel: if s.send_picker_sel + 1 < others.len() {
                    (s.send_picker_sel + 1) as usize
                } else {
                    s.send_picker_sel
                },
                ..s
            },
            shown,
        )
    } else if k == Key::Enter {
        match watched(s) {
            Some(source) => if s.send_picker_sel >= others.len() {
                shows(done, shown)
            } else if is_playing(s.playlist_sel as int, watch_position(s)) {
                shows(
                    WatchV {
                        details_mode: WatchMode::Normal,
                        ..noted(s, "Cannot move playing item"@)
                    },
                    shown,
                )
            } else if s.playlist_sel < s.playlist_items.len() {
                works(
                    done,
                    WatchWorkV::Transfer {
                        target: others[s.send_picker_sel as int],
                        source,
                        entry: s.playlist_items[s.playlist_sel as int],
                        idx: s.playlist_sel,
                        pos: watch_position(s),
                    },
                )
            } else {
                shows(done, shown)
            },
            None => shows(done, shown),
        }
    } else if k == Key::Esc {
        shows(done, shown)
    } else {
        shows(s, KeyAction::Nothing)
    }
}

/// Plays the selected item; an idle player is given its playlist first.
pub open spec fn play_model(s: WatchV, config: Seq<char>) -> WatchTurnV {
    match watched(s) {
        Some(pane) => {
            let go = as_sends(
                seq![
                    pane_message(
                        "playlist-play-index"@,
                        pane,
                        seq![int_json(s.playlist_sel as int)],
                    ),
                    property_message(pane, "pause"@, false),
                ],
            );
            WatchTurnV {
                app: hush(s),
                action: KeyAction::RenderDetails,
                out: if s.players[s.selected as int].idle_active {
                    seq![
                        OutMsgV::Send { message: reload_message(config, pane) },
                        OutMsgV::Wait { ms: 200 },
                    ] + go
                } else {
                    go
                },
                work: None,
            }
        },
        None => shows(hush(s), KeyAction::RenderDetails),
    }
}

/// A key on the playlist screen in command mode.
pub open spec fn order_model(s: WatchV, k: Key, config: Seq<char>) -> WatchTurnV {
    let shown = KeyAction::RenderDetails;
    let playing = is_playing(s.playlist_sel as int, watch_position(s));
    if k == Key::Tab || k == Key::Esc {
        shows(WatchV { details_mode: WatchMode::Normal, ..hush(s) }, shown)
    } else if k == Key::Enter {
        play_model(s, config)
    } else if k == Key::Char('R') {
        if playing {
            shows(noted(s, "Cannot remove playing item"@), shown)
        } else {
            match watched(s) {
                Some(pane) => works(
                    s,
                    WatchWorkV::Remove { pane, idx: s.playlist_sel, pos: watch_position(s) },
                ),
                None => shows(s, KeyAction::Nothing),
            }
        }
    } else if k == Key::Char('S') {
        if playing {
            shows(noted(s, "Cannot move playing item"@), shown)
        } else if s.players.len() > 1 {
            shows(WatchV { details_mode: WatchMode::Send, send_picker_sel: 0, ..hush(s) }, shown)
        } else {
            shows(s, KeyAction::Nothing)
        }
    } else {
        shows(s, KeyAction::Nothing)
    }
}

/// A key on the playlist screen.
pub open spec fn browse_model(s: WatchV, k: Key) -> WatchTurnV {
    let shown = KeyAction::RenderDetails;
    let calm = hush(s);
    if k == Key::Esc {
        shows(
            WatchV {
                show_details: false,
                details_mode: WatchMode::Normal,
                jump_input: Seq::empty(),
                ..calm
            },
            KeyAction::Render,
        )
    } else if k == Key::Tab {
        shows(WatchV { details_mode: WatchMode::Command, ..calm }, shown)
    } else if is_up(k) {
        shows(
            WatchV {
                playlist_sel: if s.playlist_sel > 0 {
                    (s.playlist_sel - 1) as usize
                } else {
                    0
                },
                ..calm
            },
            shown,
        )
    } else if is_down(k) {
        shows(
            WatchV {
                playlist_sel: if s.playlist_sel + 1 < s.playlist_items.len() {
                    (s.playlist_sel + 1) as usize
                } else {
                    s.playlist_sel
                },
                ..calm
            },
            shown,
        )
    } else if k == Key::Char('J') {
        shows(
            WatchV { playlist_sel: last_index_of(s.playlist_items.len() as int) as usize, ..calm },
            shown,
        )
    } else if k == Key::Char('g') {
        shows(WatchV { details_mode: WatchMode::Jump, jump_input: Seq::empty(), ..s }, shown)
    } else if k == Key::Char('n') {
        shows(
            WatchV {
                details_mode: WatchMode::Add,
                add_input: Seq::empty(),
                add_completions: Seq::empty(),
                add_comp_sel: 0,
                ..calm
            },
            shown,
        )
    } else if k == Key::Char('C') {
        match watched(s) {
            Some(pane) => works(s, WatchWorkV::Crop { pane, pos: watch_position(s) }),
            None => shows(s, KeyAction::Nothing),
        }
    } else {
        shows(s, KeyAction::Nothing)
    }
}

// ---------------------------------------------------------------------------
// Dashboard
// ---------------------------------------------------------------------------

pub open spec fn layouts_model(s: WatchV, k: Key) -> WatchTurnV {
    let shown = KeyAction::Render;
    if is_down(k) {
        shows(
            WatchV {
                picker_sel: if s.picker_sel + 1 < s.layouts.len() {
                    (s.picker_sel + 1) as usize
                } else {
                    s.picker_sel
                },
                ..s
            },
            shown,
        )
    } else if is_up(k) {
        shows(
            WatchV {
                picker_sel: if s.picker_sel > 0 {
                    (s.picker_sel - 1) as usize
                } else {
                    0
                },
                ..s
            },
            shown,
        )
    } else if k == Key::Enter {
        if s.picker_sel < s.layouts.len() {
            says(
                WatchV { show_picker: false, ..s },
                shown,
                seq![layout_message(s.layouts[s.picker_sel as int])],
            )
        } else {
            shows(s, KeyAction::Nothing)
        }
    } else if k == Key::Esc || k == Key::Char('W') {
        shows(WatchV { show_picker: false, ..s }, shown)
    } else {
        shows(s, KeyAction::Nothing)
    }
}

/// What a key sends to the selected player in command mode.
pub open spec fn player_key(pane: Seq<char>, k: Key) -> Option<JsonV> {
    let cycle = |what: Seq<char>| pane_message("cycle"@, pane, seq![JsonV::Str(what)]);
    let seek = |by: int|
        pane_message("seek"@, pane, seq![int_json(by), JsonV::Str("relative"@)]);
    if k == Key::Char(' ') {
        Some(cycle("pause"@))
    } else if k == Key::Char('m') {
        Some(cycle("mute"@))
    } else if is_down(k) {
        Some(seek(-10))
    } else if is_up(k) {
        Some(seek(10))
    } else if is_left(k) {
        Some(seek(-60))
    } else if is_right(k) {
        Some(seek(60))
    } else if k == Key::Char('=') {
        Some(pane_message("add"@, pane, seq![JsonV::Str("volume"@), int_json(5)]))
    } else if k == Key::Char('-') {
        Some(
            pane_message(
                "add"@,
                pane,
                seq![JsonV::Str("volume"@), JsonV::Num(NumV::Float(nearest_double(-5)))],
            ),
        )
    } else if k == Key::Char('n') {
        Some(pane_message("playlist-next"@, pane, Seq::empty()))
    } else if k == Key::Char('N') {
        Some(pane_message("playlist-prev"@, pane, Seq::empty()))
    } else if k == Key::Char('f') {
        Some(cycle("fullscreen"@))
    } else if k == Key::Char('R') {
        Some(node_message("panebot:restart-pane"@, pane))
    } else {
        None
    }
}

/// A key on the dashboard.
pub open spec fn panes_model(s: WatchV, k: Key, shift: bool) -> WatchTurnV {
    let shown = KeyAction::Render;
    if s.show_picker {
        layouts_model(s, k)
    } else if k == Key::Char('W') {
        let i = name_index(s.layouts, s.layout);
        shows(
            WatchV {
                picker_sel: if i < s.layouts.len() {
                    i as usize
                } else {
                    0
                },
                show_picker: true,
                ..s
            },
            shown,
        )
    } else if k == Key::Enter {
        match watched(s) {
            Some(pane) => works(s, WatchWorkV::Open { pane }),
            None => shows(s, KeyAction::Nothing),
        }
    } else if k == Key::Tab {
        shows(WatchV { command_mode: !s.command_mode, ..s }, shown)
    } else if k == Key::Char('L') || (k == Key::Char('l') && shift) {
        shows(WatchV { show_log: !s.show_log, ..s }, shown)
    } else if !s.command_mode {
        if is_down(k) {
            shows(
                WatchV {
                    selected: if s.selected + 1 < s.players.len() {
                        (s.selected + 1) as usize
                    } else {
                        s.selected
                    },
                    ..s
                },
                shown,
            )
        } else if is_up(k) {
            shows(
                WatchV {
                    selected: if s.players.len() > 0 && s.selected > 0 {
                        (s.selected - 1) as usize
                    } else {
                        s.selected
                    },
                    ..s
                },
                shown,
            )
        } else {
            shows(s, KeyAction::Nothing)
        }
    } else {
        match watched(s) {
            Some(pane) => match player_key(pane, k) {
                Some(m) => says(s, KeyAction::Nothing, seq![m]),
                None => shows(s, KeyAction::Nothing),
            },
            None => shows(s, KeyAction::Nothing),
        }
    }
}

/// A key, wherever the terminal stands.
pub open spec fn watch_model(s: WatchV, k: Key, shift: bool, config: Seq<char>, home: Seq<char>) -> WatchTurnV {
    if k == Key::Char('q') && s.details_mode != WatchMode::Add {
        shows(s, KeyAction::Quit)
    } else if s.show_details {
        match s.details_mode {
            WatchMode::Jump => jump_model(s, k),
            WatchMode::Add => add_model(s, k, home),
            WatchMode::Send => send_model(s, k),
            WatchMode::Command => order_model(s, k, config),
            WatchMode::Normal => browse_model(s, k),
        }
    } else {
        panes_model(s, k, shift)
    }
}

// ---------------------------------------------------------------------------
// Executable counterparts
// ---------------------------------------------------------------------------

pub(crate) fn show(action: KeyAction) -> (r: WatchTurn)
    ensures
        r.action == action,
        out_views(r.out@) == Seq::<OutMsgV>::empty(),
        r.work is None,
{
    let out: Vec<Out> = Vec::new();
    assert(out_views(out@) =~= Seq::empty());
    WatchTurn { action, out, work: None }
}

pub(crate) fn work(w: WatchWork) -> (r: WatchTurn)
    ensures
        r.action == KeyAction::RenderDetails,
        out_views(r.out@) == Seq::<OutMsgV>::empty(),
        r.work == Some(w),
{
    let out: Vec<Out> = Vec::new();
    assert(out_views(out@) =~= Seq::empty());
    WatchTurn { action: KeyAction::RenderDetails, out, work: Some(w) }
}

pub(crate) fn say(action: KeyAction, m: Json) -> (r: WatchTurn)
    ensures
        r.action == action,
        out_views(r.out@) == as_sends(seq![m.view()]),
        r.work is None,
{
    let out: Vec<Out> = vec![Out::Send { message: m }];
    assert(out_views(out@) =~= as_sends(seq![m.view()]));
    WatchTurn { action, out, work: None }
}

fn jump_keys(app: &mut Watch, k: Key) -> (r: WatchTurn)
    requires
        old(app).wf(),
    ensures
        final(app).wf(),
        matches_model(final(app).view(), r, jump_model(old(app).view(), k)),
{
    match k {
        Key::Char(c) => {
            if '0' <= c && c <= '9' {
                app.jump_input.push(c);
                show(KeyAction::RenderDetails)
            } else {
                show(KeyAction::Nothing)
            }
        },
        Key::Backspace => {
            app.jump_input.pop();
            show(KeyAction::RenderDetails)
        },
        Key::Enter => {
            app.playlist_sel =
            jump_target(app.jump_input.as_str(), app.playlist_sel, app.playlist_items.len());
            app.jump_input = String::new();
            app.details_mode = WatchMode::Normal;
            show(KeyAction::RenderDetails)
        },
        Key::Esc => {
            app.jump_input = String::new();
            app.details_mode = WatchMode::Normal;
            show(KeyAction::RenderDetails)
        },
        _ => show(KeyAction::Nothing),
    }
}

fn leave_add(app: &mut Watch)
    requires
        old(app).wf(),
    ensures
        final(app).wf(),
        final(app).view() == (WatchV {
            add_input: Seq::empty(),
            add_completions: Seq::empty(),
            details_mode: WatchMode::Normal,
            ..old(app).view()
        }),
{
    app.add_input = String::new();
    app.add_completions = Vec::new();
    app.details_mode = WatchMode::Normal;
    assert(strs(app.add_completions@) =~= Seq::empty());
}

fn add_keys(app: &mut Watch, k: Key, home: &str) -> (r: WatchTurn)
    requires
        old(app).wf(),
    ensures
        final(app).wf(),
        matches_model(final(app).view(), r, add_model(old(app).view(), k, home@)),
{
    match k {
        Key::Char(c) => {
            app.add_input.push(c);
            work(WatchWork::Complete)
        },
        Key::Backspace => {
            app.add_input.pop();
            work(WatchWork::Complete)
        },
        Key::Tab => {
            if app.add_comp_sel < app.add_completions.len() {
                app.add_input = app.add_completions[app.add_comp_sel].clone();
                work(WatchWork::Complete)
            } else {
                show(KeyAction::Nothing)
            }
        },
        Key::Down => {
            let n: usize = app.add_completions.len();
            if app.add_comp_sel < n && n - app.add_comp_sel > 1 {
                app.add_comp_sel = app.add_comp_sel + 1;
                show(KeyAction::RenderDetails)
            } else {
                show(KeyAction::Nothing)
            }
        },
        Key::Up => {
            if app.add_comp_sel > 0 {
                app.add_comp_sel = app.add_comp_sel - 1;
            }
            show(KeyAction::RenderDetails)
        },
        Key::Enter => {
            let input: String = app.add_input.clone();
            let entry: &str = trim(input.as_str());
            let pane: Option<String> = app.selected_name();
            leave_add(app);
            match pane {
                Some(p) => if !is_empty(entry) {
                    work(WatchWork::Append { pane: p, entry: expand_tilde(entry, home) })
                } else {
                    show(KeyAction::RenderDetails)
                },
                None => show(KeyAction::RenderDetails),
            }
        },
        Key::Esc => {
            leave_add(app);
            show(KeyAction::RenderDetails)
        },
        _ => show(KeyAction::Nothing),
    }
}

/// The panes that an item can be sent to: all but the selected one.
pub fn other_panes(app: &Watch) -> (r: Vec<String>)
    ensures
        strs(r@) == other_names(player_names(app.view().players), watched(app.view())),
{
    let name: Option<String> = app.selected_name();
    let ghost all = player_names(app.view().players);
    let ghost w = watched(app.view());
    let mut out: Vec<String> = Vec::new();
    assert(strs(out@) =~= other_names(all.take(0), w));
    for i in 0..app.players.len()
        invariant
            all == player_names(player_views(app.players@)),
            w == opt(name),
            strs(out@) == other_names(all.take(i as int), w),
    {
        proof {
            assert(all.take(i + 1).drop_last() =~= all.take(i as int));
            assert(all.take(i + 1).last() == app.players@[i as int].name@);
        }
        let is_it: bool = match &name {
            Some(n) => same(n.as_str(), app.players[i].name.as_str()),
            None => false,
        };
        if !is_it {
            let s: String = app.players[i].name.clone();
            proof {
                lemma_strs_push(out@, s);
            }
            out.push(s);
        }
    }
    assert(all.take(all.len() as int) =~= all);
    out
}

fn send_keys(app: &mut Watch, k: Key) -> (r: WatchTurn)
    requires
        old(app).wf(),
    ensures
        final(app).wf(),
        matches_model(final(app).view(), r, send_model(old(app).view(), k)),
{
    let others: Vec<String> = other_panes(app);
    let n: usize = others.len();
    assert(strs(others@).len() == n);
    if up(k) {
        if app.send_picker_sel > 0 {
            app.send_picker_sel = app.send_picker_sel - 1;
        }
        return show(KeyAction::RenderDetails);
    }
    if down(k) {
        if app.send_picker_sel < n && n - app.send_picker_sel > 1 {
            app.send_picker_sel = app.send_picker_sel + 1;
        }
        return show(KeyAction::RenderDetails);
    }
    if k == Key::Enter {
        let target: usize = app.send_picker_sel;
        let source: Option<String> = app.selected_name();
        let playing: bool = app.sel_is_playing();
        let pos: i64 = app.current_playlist_pos();
        let idx: usize = app.playlist_sel;
        if let Some(src) = source {
            if target < n {
                if playing {
                    app.status_msg = Some("Cannot move playing item".to_owned());
                    app.details_mode = WatchMode::Normal;
                    return show(KeyAction::RenderDetails);
                }
                if idx < app.playlist_items.len() {
                    let entry: String = app.playlist_items[idx].clone();
                    app.details_mode = WatchMode::Normal;
                    app.send_picker_sel = 0;
                    return work(
                        WatchWork::Transfer {
                            target: others[target].clone(),
                            source: src,
                            entry,
                            idx,
                            pos,
                        },
                    );
                }
            }
        }
        app.details_mode = WatchMode::Normal;
        app.send_picker_sel = 0;
        return show(KeyAction::RenderDetails);
    }
    if k == Key::Esc {
        app.details_mode = WatchMode::Normal;
        app.send_picker_sel = 0;
        return show(KeyAction::RenderDetails);
    }
    show(KeyAction::Nothing)
}

fn play_keys(app: &mut Watch, config: &str) -> (r: WatchTurn)
    requires
        old(app).wf(),
    ensures
        final(app).wf(),
        matches_model(final(app).view(), r, play_model(old(app).view(), config@)),
{
    let name: Option<String> = app.selected_name();
    app.status_msg = None;
    let pane: String = match name {
        Some(p) => p,
        None => return show(KeyAction::RenderDetails),
    };
    let idle: bool = app.players[app.selected].idle_active;
    let a: Json = send_cmd1(pane.as_str(), "playlist-play-index", index_json(app.playlist_sel));
    let b: Json = set_flag(pane.as_str(), "pause", false);
    let ghost go = as_sends(seq![a.view(), b.view()]);
    if idle {
        let m: Json = reload_playlist_cmd(config, pane.as_str());
        let out: Vec<Out> = vec![
            Out::Send { message: m },
            Out::Wait { ms: 200 },
            Out::Send { message: a },
            Out::Send { message: b },
        ];
        assert(out_views(out@) =~= seq![
            OutMsgV::Send { message: reload_message(config@, pane@) },
            OutMsgV::Wait { ms: 200 },
        ] + go);
        WatchTurn { action: KeyAction::RenderDetails, out, work: None }
    } else {
        let out: Vec<Out> = vec![Out::Send { message: a }, Out::Send { message: b }];
        assert(out_views(out@) =~= go);
        WatchTurn { action: KeyAction::RenderDetails, out, work: None }
    }
}

fn order_keys(app: &mut Watch, k: Key, config: &str) -> (r: WatchTurn)
    requires
        old(app).wf(),
    ensures
        final(app).wf(),
        matches_model(final(app).view(), r, order_model(old(app).view(), k, config@)),
{
    if k == Key::Tab || k == Key::Esc {
        app.details_mode = WatchMode::Normal;
        app.status_msg = None;
        return show(KeyAction::RenderDetails);
    }
    if k == Key::Enter {
        return play_keys(app, config);
    }
    let playing: bool = app.sel_is_playing();
    if k == Key::Char('R') {
        if playing {
            app.status_msg = Some("Cannot remove playing item".to_owned());
            return show(KeyAction::RenderDetails);
        }
        let pos: i64 = app.current_playlist_pos();
        return match app.selected_name() {
            Some(pane) => work(WatchWork::Remove { pane, idx: app.playlist_sel, pos }),
            None => show(KeyAction::Nothing),
        };
    }
    if k == Key::Char('S') {
        if playing {
            app.status_msg = Some("Cannot move playing item".to_owned());
            return show(KeyAction::RenderDetails);
        }
        if app.players.len() > 1 {
            app.details_mode = WatchMode::Send;
            app.send_picker_sel = 0;
            app.status_msg = None;
            return show(KeyAction::RenderDetails);
        }
    }
    show(KeyAction::Nothing)
}

fn browse_keys(app: &mut Watch, k: Key) -> (r: WatchTurn)
    requires
        old(app).wf(),
    ensures
        final(app).wf(),
        matches_model(final(app).view(), r, browse_model(old(app).view(), k)),
{
    let len: usize = app.playlist_items.len();
    let sel: usize = app.playlist_sel;
    if k == Key::Esc {
        app.show_details = false;
        app.details_mode = WatchMode::Normal;
        app.status_msg = None;
        app.jump_input = String::new();
        show(KeyAction::Render)
    } else if k == Key::Tab {
        app.details_mode = WatchMode::Command;
        app.status_msg = None;
        show(KeyAction::RenderDetails)
    } else if up(k) {
        if sel > 0 {
            app.playlist_sel = sel - 1;
        }
        app.status_msg = None;
        show(KeyAction::RenderDetails)
    } else if down(k) {
        if sel < len && len - sel > 1 {
            app.playlist_sel = sel + 1;
        }
        app.status_msg = None;
        show(KeyAction::RenderDetails)
    } else if k == Key::Char('J') {
        app.playlist_sel = last_of(len);
        app.status_msg = None;
        show(KeyAction::RenderDetails)
    } else if k == Key::Char('g') {
        app.details_mode = WatchMode::Jump;
        app.jump_input = String::new();
        show(KeyAction::RenderDetails)
    } else if k == Key::Char('n') {
        app.details_mode = WatchMode::Add;
        app.add_input = String::new();
        app.add_completions = Vec::new();
        app.add_comp_sel = 0;
        app.status_msg = None;
        assert(strs(app.add_completions@) =~= Seq::empty());
        show(KeyAction::RenderDetails)
    } else if k == Key::Char('C') {
        let pos: i64 = app.current_playlist_pos();
        match app.selected_name() {
            Some(pane) => work(WatchWork::Crop { pane, pos }),
            None => show(KeyAction::Nothing),
        }
    } else {
        show(KeyAction::Nothing)
    }
}

pub(crate) fn layout_keys(app: &mut Watch, k: Key) -> (r: WatchTurn)
    requires
        old(app).wf(),
    ensures
        final(app).wf(),
        matches_model(final(app).view(), r, layouts_model(old(app).view(), k)),
{
    if down(k) {
        let n: usize = app.layouts.len();
        if app.picker_sel < n && n - app.picker_sel > 1 {
            app.picker_sel = app.picker_sel + 1;
        }
        show(KeyAction::Render)
    } else if up(k) {
        if app.picker_sel > 0 {
            app.picker_sel = app.picker_sel - 1;
        }
        show(KeyAction::Render)
    } else if k == Key::Enter {
        if app.picker_sel < app.layouts.len() {
            let name: String = app.layouts[app.picker_sel].clone();
            app.show_picker = false;
            say(
                KeyAction::Render,
                obj2(
                    "layout_name",
                    Json::string(name.as_str()),
                    "command",
                    Json::string("panebot:layout"),
                ),
            )
        } else {
            show(KeyAction::Nothing)
        }
    } else if k == Key::Esc || k == Key::Char('W') {
        app.show_picker = false;
        show(KeyAction::Render)
    } else {
        show(KeyAction::Nothing)
    }
}

fn player_message(pane: &str, k: Key) -> (r: Option<Json>)
    ensures
        crate::protocol::opt_json(r) == player_key(pane@, k),
{
    if k == Key::Char(' ') {
        Some(send_cmd1(pane, "cycle", Json::string("pause")))
    } else if k == Key::Char('m') {
        Some(send_cmd1(pane, "cycle", Json::string("mute")))
    } else if down(k) {
        Some(send_cmd2(pane, "seek", Json::integer(-10), Json::string("relative")))
    } else if up(k) {
        Some(send_cmd2(pane, "seek", Json::integer(10), Json::string("relative")))
    } else if left(k) {
        Some(send_cmd2(pane, "seek", Json::integer(-60), Json::string("relative")))
    } else if right(k) {
        Some(send_cmd2(pane, "seek", Json::integer(60), Json::string("relative")))
    } else if k == Key::Char('=') {
        Some(send_cmd2(pane, "add", Json::string("volume"), Json::integer(5)))
    } else if k == Key::Char('-') {
        let five: Json = Double::whole(-5).to_json();
        Some(send_cmd2(pane, "add", Json::string("volume"), five))
    } else if k == Key::Char('n') {
        Some(send_cmd0(pane, "playlist-next"))
    } else if k == Key::Char('N') {
        Some(send_cmd0(pane, "playlist-prev"))
    } else if k == Key::Char('f') {
        Some(send_cmd1(pane, "cycle", Json::string("fullscreen")))
    } else if k == Key::Char('R') {
        Some(send_node_cmd("panebot:restart-pane", pane))
    } else {
        None
    }
}

fn pane_keys(app: &mut Watch, k: Key, shift: bool) -> (r: WatchTurn)
    requires
        old(app).wf(),
    ensures
        final(app).wf(),
        matches_model(final(app).view(), r, panes_model(old(app).view(), k, shift)),
{
    if app.show_picker {
        return layout_keys(app, k);
    }
    if k == Key::Char('W') {
        let i: usize = find_name(&app.layouts, app.layout.as_str());
        app.picker_sel = if i < app.layouts.len() {
            i
        } else {
            0
        };
        app.show_picker = true;
        return show(KeyAction::Render);
    }
    if k == Key::Enter {
        return match app.selected_name() {
            Some(pane) => work(WatchWork::Open { pane }),
            None => show(KeyAction::Nothing),
        };
    }
    if k == Key::Tab {
        app.command_mode = !app.command_mode;
        return show(KeyAction::Render);
    }
    if k == Key::Char('L') || (k == Key::Char('l') && shift) {
        app.show_log = !app.show_log;
        return show(KeyAction::Render);
    }
    if !app.command_mode {
        let n: usize = app.players.len();
        if down(k) {
            if app.selected < n && n - app.selected > 1 {
                app.selected = app.selected + 1;
            }
            show(KeyAction::Render)
        } else if up(k) {
            if n > 0 && app.selected > 0 {
                app.selected = app.selected - 1;
            }
            show(KeyAction::Render)
        } else {
            show(KeyAction::Nothing)
        }
    } else {
        match app.selected_name() {
            Some(p) => match player_message(p.as_str(), k) {
                Some(m) => say(KeyAction::Nothing, m),
                None => show(KeyAction::Nothing),
            },
            None => show(KeyAction::Nothing),
        }
    }
}

/// A key, wherever the terminal stands.
pub fn run_key(app: &mut Watch, k: Key, shift: bool, config: &str, home: &str) -> (r: WatchTurn)
    requires
        old(app).wf(),
    ensures
        final(app).wf(),
        matches_model(
            final(app).view(),
            r,
            watch_model(old(app).view(), k, shift, config@, home@),
        ),
{
    if k == Key::Char('q') && app.details_mode != WatchMode::Add {
        return show(KeyAction::Quit);
    }
    if app.show_details {
        match app.details_mode {
            WatchMode::Jump => jump_keys(app, k),
            WatchMode::Add => add_keys(app, k, home),
            WatchMode::Send => send_keys(app, k),
            WatchMode::Command => order_keys(app, k, config),
            WatchMode::Normal => browse_keys(app, k),
        }
    } else {
        pane_keys(app, k, shift)
    }
}

// ---------------------------------------------------------------------------
// What work brings
// ---------------------------------------------------------------------------

/// The completions of what is typed were found.
pub fn complete_done(app: &mut Watch, found: Vec<String>)
    requires
        old(app).wf(),
    ensures
        final(app).wf(),
        final(app).view() == (WatchV {
            add_completions: strs(found@),
            add_comp_sel: 0,
            ..old(app).view()
        }),
{
    app.add_completions = found;
    app.add_comp_sel = 0;
}

/// The playlist file was read.
pub fn open_done(app: &mut Watch, items: Vec<String>)
    requires
        old(app).wf(),
    ensures
        final(app).wf(),
        final(app).view() == (WatchV {
            playlist_items: strs(items@),
            playlist_sel: index_of_position(watch_position(old(app).view())) as usize,
            show_details: true,
            details_mode: WatchMode::Normal,
            status_msg: None,
            ..old(app).view()
        }),
{
    app.playlist_sel = position_index(app.current_playlist_pos());
    app.playlist_items = items;
    app.show_details = true;
    app.details_mode = WatchMode::Normal;
    app.status_msg = None;
}

/// The selection after an item was taken out.
pub open spec fn pulled_up(sel: usize, len: int) -> usize {
    if sel > 0 && sel >= len {
        (sel - 1) as usize
    } else {
        sel
    }
}

fn messages1(m: Json) -> (r: Vec<Json>)
    ensures
        jsons(r@) == seq![m.view()],
{
    let v: Vec<Json> = vec![m];
    assert(jsons(v@) =~= seq![m.view()]);
    v
}

fn messages0() -> (r: Vec<Json>)
    ensures
        jsons(r@) == Seq::<JsonV>::empty(),
{
    let v: Vec<Json> = Vec::new();
    assert(jsons(v@) =~= Seq::empty());
    v
}

/// An entry was added to the playlist file, or could not be.
pub fn append_done(
    app: &mut Watch,
    pane: &str,
    config: &str,
    result: Result<Vec<String>, String>,
) -> (r: Vec<Json>)
    requires
        old(app).wf(),
    ensures
        final(app).wf(),
        match result {
            Ok(items) => final(app).view() == (WatchV {
                playlist_items: strs(items@),
                ..old(app).view()
            }) && jsons(r@) == seq![reload_message(config@, pane@)],
            Err(e) => final(app).view() == noted(old(app).view(), "Add failed: "@ + e@) && jsons(r@)
                == Seq::<JsonV>::empty(),
        },
{
    match result {
        Ok(items) => {
            app.playlist_items = items;
            messages1(reload_playlist_cmd(config, pane))
        },
        Err(e) => {
            app.status_msg = Some(cat("Add failed: ", e.as_str()));
            messages0()
        },
    }
}

/// An entry was taken out of the playlist file, was not because it is being played,
/// or could not be.
pub fn remove_done(
    app: &mut Watch,
    pane: &str,
    config: &str,
    result: Result<Option<Vec<String>>, String>,
) -> (r: Vec<Json>)
    requires
        old(app).wf(),
    ensures
        final(app).wf(),
        match result {
            Ok(Some(items)) => final(app).view() == (WatchV {
                playlist_items: strs(items@),
                playlist_sel: pulled_up(old(app).playlist_sel, items@.len() as int),
                status_msg: None,
                ..old(app).view()
            }) && jsons(r@) == seq![reload_message(config@, pane@)],
            Ok(None) => final(app).view() == noted(
                old(app).view(),
                "Cannot remove playing item"@,
            ) && jsons(r@) == Seq::<JsonV>::empty(),
            Err(e) => final(app).view() == noted(old(app).view(), "Remove failed: "@ + e@) && jsons(
                r@,
            ) == Seq::<JsonV>::empty(),
        },
{
    match result {
        Ok(Some(items)) => {
            if app.playlist_sel > 0 && app.playlist_sel >= items.len() {
                app.playlist_sel = app.playlist_sel - 1;
            }
            app.playlist_items = items;
            app.status_msg = None;
            messages1(reload_playlist_cmd(config, pane))
        },
        Ok(None) => {
            app.status_msg = Some("Cannot remove playing item".to_owned());
            messages0()
        },
        Err(e) => {
            app.status_msg = Some(cat("Remove failed: ", e.as_str()));
            messages0()
        },
    }
}

/// An entry went from one playlist file to another: both players load theirs anew.
/// Where it could not be taken out of the first, only the second does.
pub fn transfer_done(
    app: &mut Watch,
    target: &str,
    source: &str,
    config: &str,
    removed: Option<Vec<String>>,
) -> (r: Vec<Json>)
    requires
        old(app).wf(),
    ensures
        final(app).wf(),
        match removed {
            Some(items) => final(app).view() == (WatchV {
                playlist_items: strs(items@),
                playlist_sel: pulled_up(old(app).playlist_sel, items@.len() as int),
                ..old(app).view()
            }) && jsons(r@) == seq![
                reload_message(config@, target@),
                reload_message(config@, source@),
            ],
            None => final(app).view() == old(app).view() && jsons(r@) == seq![
                reload_message(config@, target@),
            ],
        },
{
    let a: Json = reload_playlist_cmd(config, target);
    match removed {
        Some(items) => {
            if app.playlist_sel > 0 && app.playlist_sel >= items.len() {
                app.playlist_sel = app.playlist_sel - 1;
            }
            app.playlist_items = items;
            let b: Json = reload_playlist_cmd(config, source);
            let v: Vec<Json> = vec![a, b];
            assert(jsons(v@) =~= seq![a.view(), b.view()]);
            v
        },
        None => messages1(a),
    }
}

/// The playlist file was cropped to the item being played, was not because none is,
/// or could not be.
pub fn crop_done(
    app: &mut Watch,
    pane: &str,
    config: &str,
    result: Result<Option<Vec<String>>, String>,
) -> (r: Vec<Json>)
    requires
        old(app).wf(),
    ensures
        final(app).wf(),
        match result {
            Ok(Some(items)) => final(app).view() == (WatchV {
                playlist_items: strs(items@),
                playlist_sel: 0,
                status_msg: None,
                ..old(app).view()
            }) && jsons(r@) == seq![reload_message(config@, pane@)],
            Ok(None) => final(app).view() == noted(
                old(app).view(),
                "Nothing playing to crop around"@,
            ) && jsons(r@) == Seq::<JsonV>::empty(),
            Err(e) => final(app).view() == noted(old(app).view(), "Crop failed: "@ + e@) && jsons(r@)
                == Seq::<JsonV>::empty(),
        },
{
    match result {
        Ok(Some(items)) => {
            app.playlist_items = items;
            app.playlist_sel = 0;
            app.status_msg = None;
            messages1(reload_playlist_cmd(config, pane))
        },
        Ok(None) => {
            app.status_msg = Some("Nothing playing to crop around".to_owned());
            messages0()
        },
        Err(e) => {
            app.status_msg = Some(cat("Crop failed: ", e.as_str()));
            messages0()
        },
    }
}

// ---------------------------------------------------------------------------
// Laws
// ---------------------------------------------------------------------------

/// The item being played is neither taken out nor sent elsewhere.
pub proof fn playing_item_stays_where_it_is(
    s: WatchV,
    k: Key,
    shift: bool,
    config: Seq<char>,
    home: Seq<char>,
)
    requires
        is_playing(s.playlist_sel as int, watch_position(s)),
    ensures
        !(watch_model(s, k, shift, config, home).work matches Some(w) && (w is Remove || w is Transfer)),
{
}

/// An item goes from one pane to a different one.
pub proof fn items_are_sent_elsewhere(s: WatchV, k: Key)
    ensures
        send_model(s, k).work matches Some(w) ==> w is Transfer && w->target != w->source && Some(
            w->source,
        ) == watched(s),
{
    let others = other_names(player_names(s.players), watched(s));
    lemma_other_names(player_names(s.players), watched(s));
    if s.send_picker_sel < others.len() {
        assert(Some(others[s.send_picker_sel as int]) != watched(s));
    }
}

proof fn lemma_other_names(names: Seq<Seq<char>>, name: Option<Seq<char>>)
    ensures
        forall|i: int|
            0 <= i < other_names(names, name).len() ==> Some(#[trigger] other_names(names, name)[i])
                != name,
    decreases names.len(),
{
    if names.len() > 0 {
        lemma_other_names(names.drop_last(), name);
        let before = other_names(names.drop_last(), name);
        assert forall|i: int| 0 <= i < other_names(names, name).len() implies Some(
            #[trigger] other_names(names, name)[i],
        ) != name by {
            if i < before.len() {
                assert(other_names(names, name)[i] == before[i]);
            }
        }
    }
}

} // verus!
