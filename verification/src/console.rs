//! A terminal that keeps the playlists of its panes in their files: keys lead to
//! messages for the daemon and to work on those files, and what the work brings is
//! taken in afterwards.
use crate::board::{board_get, get_state};
use crate::client::{
    cmd_mute_others, cmd_solo, flag_all, flag_messages, index_json, mute_messages, node_message,
    pane_message, property_message, send_cmd0, send_cmd1, send_cmd2, send_node_cmd, set_flag,
    solo_messages,
};
use crate::json::{jsons, obj1, Json, JsonV};
use crate::keys::{down, is_down, is_up, up, Key, KeyAction};
use crate::paths::{expand_tilde, pane_file_of, pane_playlist, tilde_expanded};
use crate::picks::{
    drop_marked, dropped, keep_marked, kept, landing, move_marked, moved, rising, toggle, toggled,
};
use crate::text::{cat, cat3, decimal, decimal_of, is_digit, is_empty, strs, trim, trimmed};
use crate::tui::{
    find_name, index_of_position, last_index_of, name_index, position_index, position_of,
    selected_next, selected_of, selected_prev, smaller, App, AppV, DetailsMode,
};
use crate::tui_keys::{
    command_key, command_key_message, hits_playing, int_json, jump_target, jumped, last_of,
    next_item, no_status, picker_step, restart_all_message, shorter, status, targets_of,
};
use vstd::prelude::*;

verus! {

/// Something for the connection: a message, or a wait before the next one.
#[derive(Debug)]
pub enum Out {
    Send { message: Json },
    Wait { ms: u64 },
}

pub enum OutMsgV {
    Send { message: JsonV },
    Wait { ms: u64 },
}

impl Out {
    pub open spec fn view(&self) -> OutMsgV {
        match self {
            Out::Send { message } => OutMsgV::Send { message: message.view() },
            Out::Wait { ms } => OutMsgV::Wait { ms: *ms },
        }
    }
}

pub open spec fn out_views(v: Seq<Out>) -> Seq<OutMsgV> {
    Seq::new(v.len(), |i: int| v[i].view())
}

/// What a rewritten playlist file was rewritten for.
#[derive(Clone, Copy, Debug, PartialEq, Eq, Structural)]
pub enum Edit {
    Delete,
    Move(usize),
    Crop,
}

/// Work on the playlist file of a pane.
#[derive(Debug)]
pub enum Work {
    /// Show what the file holds.
    Open { pane: String },
    /// Add an entry.
    Append { pane: String, entry: String },
    /// Write these items.
    Rewrite { pane: String, items: Vec<String>, edit: Edit },
    /// Keep only the item at this position.
    Crop { pane: String, pos: i64 },
    /// Write what the player has.
    Save { pane: String },
}

pub enum WorkV {
    Open { pane: Seq<char> },
    Append { pane: Seq<char>, entry: Seq<char> },
    Rewrite { pane: Seq<char>, items: Seq<Seq<char>>, edit: Edit },
    Crop { pane: Seq<char>, pos: i64 },
    Save { pane: Seq<char> },
}

impl Work {
    pub open spec fn view(&self) -> WorkV {
        match self {
            Work::Open { pane } => WorkV::Open { pane: pane@ },
            Work::Append { pane, entry } => WorkV::Append { pane: pane@, entry: entry@ },
            Work::Rewrite { pane, items, edit } => WorkV::Rewrite {
                pane: pane@,
                items: strs(items@),
                edit: *edit,
            },
            Work::Crop { pane, pos } => WorkV::Crop { pane: pane@, pos: *pos },
            Work::Save { pane } => WorkV::Save { pane: pane@ },
        }
    }
}

pub open spec fn opt_work(w: Option<Work>) -> Option<WorkV> {
    match w {
        Some(x) => Some(x.view()),
        None => None,
    }
}

/// What a key leads to.
#[derive(Debug)]
pub struct Turn {
    pub action: KeyAction,
    pub out: Vec<Out>,
    pub work: Option<Work>,
}

/// The terminal after a key, with what the key leads to.
pub struct TurnV {
    pub app: AppV,
    pub action: KeyAction,
    pub out: Seq<OutMsgV>,
    pub work: Option<WorkV>,
}

pub open spec fn turned(app: AppV, action: KeyAction) -> TurnV {
    TurnV { app, action, out: Seq::empty(), work: None }
}

pub open spec fn worked(app: AppV, action: KeyAction, work: WorkV) -> TurnV {
    TurnV { app, action, out: Seq::empty(), work: Some(work) }
}

pub open spec fn said(app: AppV, action: KeyAction, messages: Seq<JsonV>) -> TurnV {
    TurnV { app, action, out: as_sends(messages), work: None }
}

/// Messages one after the other.
pub open spec fn as_sends(messages: Seq<JsonV>) -> Seq<OutMsgV> {
    Seq::new(messages.len(), |i: int| OutMsgV::Send { message: messages[i] })
}

/// The request to load the playlist file of a pane anew.
pub open spec fn reload_message(config: Seq<char>, pane: Seq<char>) -> JsonV {
    pane_message(
        "loadlist"@,
        pane,
        seq![JsonV::Str(pane_file_of(config, pane, ".m3u"@)), JsonV::Str("replace"@)],
    )
}

/// The request to load the playlist file of a pane anew.
pub fn reload_playlist_cmd(config: &str, pane: &str) -> (r: Json)
    ensures
        r.view() == reload_message(config@, pane@),
{
    let path: String = pane_playlist(config, pane);
    send_cmd2(pane, "loadlist", Json::string(path.as_str()), Json::string("replace"))
}

// ---------------------------------------------------------------------------
// Keys
// ---------------------------------------------------------------------------

/// Typing the number of an item.
pub open spec fn jump_turn(s: AppV, k: Key) -> TurnV {
    match k {
        Key::Char(c) => if is_digit(c) {
            turned(AppV { jump_input: s.jump_input.push(c), ..s }, KeyAction::RenderDetails)
        } else {
            turned(s, KeyAction::Nothing)
        },
        Key::Backspace => turned(
            AppV { jump_input: shorter(s.jump_input), ..s },
            KeyAction::RenderDetails,
        ),
        Key::Enter => turned(
            AppV {
                playlist_sel: jumped(s.jump_input, s.playlist_sel, s.playlist_items.len() as int),
                jump_input: Seq::empty(),
                details_mode: DetailsMode::Normal,
                ..s
            },
            KeyAction::RenderDetails,
        ),
        Key::Esc => turned(
            AppV { jump_input: Seq::empty(), details_mode: DetailsMode::Normal, ..s },
            KeyAction::RenderDetails,
        ),
        _ => turned(s, KeyAction::Nothing),
    }
}

/// Typing an entry to add.
pub open spec fn add_turn(s: AppV, k: Key) -> TurnV {
    let done = AppV { add_input: Seq::empty(), details_mode: DetailsMode::Normal, ..s };
    match k {
        Key::Char(c) => turned(
            AppV { add_input: s.add_input.push(c), ..s },
            KeyAction::RenderDetails,
        ),
        Key::Backspace => turned(
            AppV { add_input: shorter(s.add_input), ..s },
            KeyAction::RenderDetails,
        ),
        Key::Enter => {
            let entry = trimmed(s.add_input);
            match selected_of(s) {
                Some(pane) => if entry.len() > 0 {
                    worked(
                        done,
                        KeyAction::RenderDetails,
                        WorkV::Append { pane, entry: tilde_expanded(entry, s.home) },
                    )
                } else {
                    turned(done, KeyAction::RenderDetails)
                },
                None => turned(done, KeyAction::RenderDetails),
            }
        },
        Key::Esc => turned(done, KeyAction::RenderDetails),
        _ => turned(s, KeyAction::Nothing),
    }
}

/// Whether the selected pane has nothing loaded, as far as is known.
pub open spec fn is_idle(s: AppV, pane: Seq<char>) -> bool {
    match board_get(s.panes, pane) {
        Some(p) => p.idle_active != Some(false),
        None => true,
    }
}

/// Plays the selected item; an idle player is given its playlist first.
pub open spec fn play_turn(s: AppV, config: Seq<char>) -> TurnV {
    match selected_of(s) {
        Some(pane) => {
            let go = as_sends(
                seq![
                    pane_message(
                        "playlist-play-index"@,
                        pane,
                        seq![int_json(s.playlist_sel as int)],
                    ),
                    property_message(pane, "pause"@, false),
                ],
            );
            TurnV {
                app: no_status(s),
                action: KeyAction::RenderDetails,
                out: if is_idle(s, pane) {
                    seq![
                        OutMsgV::Send { message: reload_message(config, pane) },
                        OutMsgV::Wait { ms: 200 },
                    ] + go
                } else {
                    go
                },
                work: None,
            }
        },
        None => turned(s, KeyAction::RenderDetails),
    }
}

/// Takes out the targets, unless the item being played is among them.
pub open spec fn delete_turn(s: AppV) -> TurnV {
    match selected_of(s) {
        Some(pane) => if hits_playing(targets_of(s), position_of(s)) {
            turned(status(s, "Cannot remove playing item"@), KeyAction::RenderDetails)
        } else {
            worked(
                s,
                KeyAction::RenderDetails,
                WorkV::Rewrite {
                    pane,
                    items: dropped(s.playlist_items, targets_of(s)),
                    edit: Edit::Delete,
                },
            )
        },
        None => turned(s, KeyAction::RenderDetails),
    }
}

/// Moves the marked items to the selected place.
pub open spec fn move_turn(s: AppV) -> TurnV {
    match selected_of(s) {
        Some(pane) => if s.selected_items.len() == 0 {
            turned(status(s, "Mark items with Space first"@), KeyAction::RenderDetails)
        } else {
            worked(
                s,
                KeyAction::RenderDetails,
                WorkV::Rewrite {
                    pane,
                    items: moved(s.playlist_items, s.selected_items, s.playlist_sel as int),
                    edit: Edit::Move(
                        landing(s.playlist_items, s.selected_items, s.playlist_sel as int) as usize,
                    ),
                },
            )
        },
        None => turned(s, KeyAction::RenderDetails),
    }
}

/// Keeps the marked items, or else the one being played.
pub open spec fn crop_turn(s: AppV) -> TurnV {
    match selected_of(s) {
        Some(pane) => if s.selected_items.len() == 0 {
            worked(s, KeyAction::RenderDetails, WorkV::Crop { pane, pos: position_of(s) })
        } else {
            worked(
                s,
                KeyAction::RenderDetails,
                WorkV::Rewrite {
                    pane,
                    items: kept(s.playlist_items, s.selected_items),
                    edit: Edit::Crop,
                },
            )
        },
        None => turned(s, KeyAction::RenderDetails),
    }
}

/// Where a key takes the selection.
pub open spec fn walked(s: AppV, k: Key) -> Option<usize> {
    let last = last_index_of(s.playlist_items.len() as int);
    if is_up(k) {
        Some(
            if s.playlist_sel > 0 {
                (s.playlist_sel - 1) as usize
            } else {
                0
            },
        )
    } else if is_down(k) {
        Some(next_item(s))
    } else if k == Key::Char('[') {
        Some(
            if s.playlist_sel > 10 {
                (s.playlist_sel - 10) as usize
            } else {
                0
            },
        )
    } else if k == Key::Char(']') {
        Some(smaller(s.playlist_sel + 10, last) as usize)
    } else if k == Key::Char('\\') {
        Some(last as usize)
    } else {
        None
    }
}

/// A key on the playlist screen, when nothing is being typed and the keys are not
/// for the player.
pub open spec fn list_turn(s: AppV, k: Key, shift: bool, config: Seq<char>) -> TurnV {
    let calm = no_status(s);
    let shown = KeyAction::RenderDetails;
    if k == Key::Enter && !shift {
        turned(
            AppV {
                show_details: false,
                details_mode: DetailsMode::Normal,
                jump_input: Seq::empty(),
                selected_items: Seq::empty(),
                ..calm
            },
            KeyAction::Render,
        )
    } else if k == Key::Char(' ') && shift {
        play_turn(s, config)
    } else if k == Key::Tab {
        turned(AppV { command_mode: !s.command_mode, ..calm }, shown)
    } else if let Some(i) = walked(s, k) {
        turned(AppV { playlist_sel: i, ..calm }, shown)
    } else if k == Key::Char(' ') {
        turned(
            AppV {
                selected_items: toggled(s.selected_items, s.playlist_sel),
                playlist_sel: next_item(s),
                ..calm
            },
            shown,
        )
    } else if k == Key::Esc {
        if s.selected_items.len() > 0 {
            turned(AppV { selected_items: Seq::empty(), ..calm }, shown)
        } else {
            turned(s, KeyAction::Nothing)
        }
    } else if k == Key::Char('G') {
        turned(AppV { details_mode: DetailsMode::Jump, jump_input: Seq::empty(), ..s }, shown)
    } else if k == Key::Char('A') {
        turned(AppV { details_mode: DetailsMode::Add, add_input: Seq::empty(), ..calm }, shown)
    } else if k == Key::Char('D') {
        delete_turn(s)
    } else if k == Key::Char('M') {
        move_turn(s)
    } else if k == Key::Char('C') {
        crop_turn(s)
    } else if k == Key::Char('S') {
        match selected_of(s) {
            Some(pane) => worked(s, shown, WorkV::Save { pane }),
            None => turned(s, shown),
        }
    } else {
        turned(s, KeyAction::Nothing)
    }
}

/// A key on the playlist screen.
pub open spec fn details_turn(s: AppV, k: Key, shift: bool, config: Seq<char>) -> TurnV {
    if s.details_mode == DetailsMode::Jump {
        jump_turn(s, k)
    } else if s.details_mode == DetailsMode::Add {
        add_turn(s, k)
    } else if s.command_mode && selected_of(s) is Some {
        match command_key(selected_of(s)->0, k) {
            Some(m) => said(s, KeyAction::RenderDetails, seq![m]),
            None => if k == Key::Char('v') {
                turned(s, KeyAction::RenderDetails)
            } else if k == Key::Tab {
                turned(AppV { command_mode: false, ..no_status(s) }, KeyAction::RenderDetails)
            } else {
                turned(s, KeyAction::Nothing)
            },
        }
    } else {
        list_turn(s, k, shift, config)
    }
}

/// Every pane is stopped.
pub open spec fn stop_messages(order: Seq<Seq<char>>) -> Seq<JsonV> {
    Seq::new(order.len(), |i: int| pane_message("stop"@, order[i], Seq::empty()))
}

/// What a key that concerns several panes sends; `None` for the other keys.
pub open spec fn orchestra(s: AppV, k: Key) -> Option<Seq<JsonV>> {
    let none = Seq::<JsonV>::empty();
    if k == Key::Char('r') {
        Some(
            match selected_of(s) {
                Some(p) => seq![node_message("panebot:restart-pane"@, p)],
                None => none,
            },
        )
    } else if k == Key::Char('R') {
        Some(seq![restart_all_message()])
    } else if k == Key::Char('S') {
        Some(
            match selected_of(s) {
                Some(p) => solo_messages(s.pane_order, p),
                None => none,
            },
        )
    } else if k == Key::Char('M') {
        Some(
            match selected_of(s) {
                Some(p) => mute_messages(s.pane_order, p),
                None => none,
            },
        )
    } else if k == Key::Char('X') {
        Some(stop_messages(s.pane_order))
    } else if k == Key::Char('P') {
        Some(flag_messages(s.pane_order, "pause"@, false))
    } else {
        None
    }
}

/// A key on the dashboard.
pub open spec fn home_turn(s: AppV, k: Key, shift: bool) -> TurnV {
    if s.show_picker {
        let o = picker_step(s, k);
        said(o.app, o.action, o.send)
    } else if k == Key::Char('W') {
        let i = name_index(s.layouts, s.layout);
        turned(
            AppV {
                picker_sel: if i < s.layouts.len() {
                    i as usize
                } else {
                    0
                },
                show_picker: true,
                ..s
            },
            KeyAction::Render,
        )
    } else if k == Key::Enter {
        match selected_of(s) {
            Some(pane) => worked(s, KeyAction::RenderDetails, WorkV::Open { pane }),
            None => turned(s, KeyAction::Nothing),
        }
    } else if k == Key::Tab {
        turned(AppV { command_mode: !s.command_mode, ..s }, KeyAction::Render)
    } else if k == Key::Char('L') || (k == Key::Char('l') && shift) {
        turned(AppV { show_log: !s.show_log, ..s }, KeyAction::Render)
    } else if !s.command_mode {
        if is_down(k) {
            turned(selected_next(s), KeyAction::Render)
        } else if is_up(k) {
            turned(selected_prev(s), KeyAction::Render)
        } else if let Some(m) = orchestra(s, k) {
            said(s, KeyAction::Render, m)
        } else {
            turned(s, KeyAction::Nothing)
        }
    } else {
        match selected_of(s) {
            Some(pane) => match command_key(pane, k) {
                Some(m) => said(s, KeyAction::Render, seq![m]),
                None => if k == Key::Char('v') {
                    turned(s, KeyAction::Render)
                } else {
                    turned(s, KeyAction::Nothing)
                },
            },
            None => turned(s, KeyAction::Nothing),
        }
    }
}

/// A key, wherever the terminal stands.
pub open spec fn turn(s: AppV, k: Key, shift: bool, config: Seq<char>) -> TurnV {
    if k == Key::Char('q') && s.details_mode != DetailsMode::Add {
        turned(s, KeyAction::Quit)
    } else if s.show_details {
        details_turn(s, k, shift, config)
    } else {
        home_turn(s, k, shift)
    }
}

// ---------------------------------------------------------------------------
// What work brings
// ---------------------------------------------------------------------------

/// The playlist is shown from where the player stands.
pub open spec fn opened(s: AppV, pane: Seq<char>, items: Seq<Seq<char>>) -> AppV {
    AppV {
        playlist_items: items,
        playlist_sel: match board_get(s.panes, pane) {
            Some(p) => match p.playlist_pos {
                Some(i) => index_of_position(i) as usize,
                None => 0,
            },
            None => 0,
        },
        selected_items: Seq::empty(),
        show_details: true,
        details_mode: DetailsMode::Normal,
        status_msg: None,
        ..s
    }
}

/// The selection after the items were rewritten.
pub open spec fn settled(sel: usize, edit: Edit, len: int) -> usize {
    match edit {
        Edit::Delete => smaller(sel as int, last_index_of(len)) as usize,
        Edit::Move(at) => at,
        Edit::Crop => 0,
    }
}

pub open spec fn edit_name(edit: Edit) -> Seq<char> {
    match edit {
        Edit::Delete => "Delete failed: "@,
        Edit::Move(_) => "Move failed: "@,
        Edit::Crop => "Crop failed: "@,
    }
}

// ---------------------------------------------------------------------------
// Executable counterparts
// ---------------------------------------------------------------------------

fn turn_only(action: KeyAction) -> (r: Turn)
    ensures
        r.action == action,
        out_views(r.out@) == Seq::<OutMsgV>::empty(),
        r.work is None,
{
    let out: Vec<Out> = Vec::new();
    assert(out_views(out@) =~= Seq::empty());
    Turn { action, out, work: None }
}

fn turn_work(action: KeyAction, work: Work) -> (r: Turn)
    ensures
        r.action == action,
        out_views(r.out@) == Seq::<OutMsgV>::empty(),
        r.work == Some(work),
{
    let out: Vec<Out> = Vec::new();
    assert(out_views(out@) =~= Seq::empty());
    Turn { action, out, work: Some(work) }
}

fn sends(messages: &Vec<Json>) -> (r: Vec<Out>)
    ensures
        out_views(r@) == as_sends(jsons(messages@)),
{
    let mut out: Vec<Out> = Vec::new();
    for i in 0..messages.len()
        invariant
            out.len() == i,
            forall|k: int|
                0 <= k < i ==> (#[trigger] out@[k]).view() == (OutMsgV::Send {
                    message: messages@[k].view(),
                }),
    {
        out.push(Out::Send { message: messages[i].copy() });
    }
    assert(out_views(out@) =~= as_sends(jsons(messages@)));
    out
}

fn turn_send(action: KeyAction, messages: Vec<Json>) -> (r: Turn)
    ensures
        r.action == action,
        out_views(r.out@) == as_sends(jsons(messages@)),
        r.work is None,
{
    Turn { action, out: sends(&messages), work: None }
}

fn just(m: Json) -> (r: Vec<Json>)
    ensures
        jsons(r@) == seq![m.view()],
{
    let v: Vec<Json> = vec![m];
    assert(jsons(v@) =~= seq![m.view()]);
    v
}

fn no_messages() -> (r: Vec<Json>)
    ensures
        jsons(r@) == Seq::<JsonV>::empty(),
{
    let v: Vec<Json> = Vec::new();
    assert(jsons(v@) =~= Seq::empty());
    v
}

/// The terminal and the turn together are what the model says.
pub open spec fn agrees(app: AppV, r: Turn, want: TurnV) -> bool {
    want == (TurnV { app, action: r.action, out: out_views(r.out@), work: opt_work(r.work) })
}

fn jump_keys(app: &mut App, k: Key) -> (r: Turn)
    requires
        old(app).wf(),
    ensures
        final(app).wf(),
        agrees(final(app).view(), r, jump_turn(old(app).view(), k)),
{
    match k {
        Key::Char(c) => {
            if '0' <= c && c <= '9' {
                app.jump_input.push(c);
                turn_only(KeyAction::RenderDetails)
            } else {
                turn_only(KeyAction::Nothing)
            }
        },
        Key::Backspace => {
            app.jump_input.pop();
            turn_only(KeyAction::RenderDetails)
        },
        Key::Enter => {
            app.playlist_sel =
            jump_target(app.jump_input.as_str(), app.playlist_sel, app.playlist_items.len());
            app.jump_input = String::new();
            app.details_mode = DetailsMode::Normal;
            turn_only(KeyAction::RenderDetails)
        },
        Key::Esc => {
            app.jump_input = String::new();
            app.details_mode = DetailsMode::Normal;
            turn_only(KeyAction::RenderDetails)
        },
        _ => turn_only(KeyAction::Nothing),
    }
}

fn add_keys(app: &mut App, k: Key) -> (r: Turn)
    requires
        old(app).wf(),
    ensures
        final(app).wf(),
        agrees(final(app).view(), r, add_turn(old(app).view(), k)),
{
    match k {
        Key::Char(c) => {
            app.add_input.push(c);
            turn_only(KeyAction::RenderDetails)
        },
        Key::Backspace => {
            app.add_input.pop();
            turn_only(KeyAction::RenderDetails)
        },
        Key::Enter => {
            let input: String = app.add_input.clone();
            app.add_input = String::new();
            app.details_mode = DetailsMode::Normal;
            let entry: &str = trim(input.as_str());
            match app.selected_name() {
                Some(pane) => if !is_empty(entry) {
                    turn_work(
                        KeyAction::RenderDetails,
                        Work::Append { pane, entry: expand_tilde(entry, app.home.as_str()) },
                    )
                } else {
                    turn_only(KeyAction::RenderDetails)
                },
                None => turn_only(KeyAction::RenderDetails),
            }
        },
        Key::Esc => {
            app.add_input = String::new();
            app.details_mode = DetailsMode::Normal;
            turn_only(KeyAction::RenderDetails)
        },
        _ => turn_only(KeyAction::Nothing),
    }
}

fn play_keys(app: &mut App, config: &str) -> (r: Turn)
    requires
        old(app).wf(),
    ensures
        final(app).wf(),
        agrees(final(app).view(), r, play_turn(old(app).view(), config@)),
{
    let pane: String = match app.selected_name() {
        Some(p) => p,
        None => return turn_only(KeyAction::RenderDetails),
    };
    let idle: bool = match get_state(&app.panes, pane.as_str()) {
        Some(p) => p.idle_active != Some(false),
        None => true,
    };
    let a: Json = send_cmd1(pane.as_str(), "playlist-play-index", index_json(app.playlist_sel));
    let b: Json = set_flag(pane.as_str(), "pause", false);
    let ghost go = as_sends(seq![a.view(), b.view()]);
    app.status_msg = None;
    if idle {
        let m: Json = reload_playlist_cmd(config, pane.as_str());
        let out: Vec<Out> = vec![
            Out::Send { message: m },
            Out::Wait { ms: 200 },
            Out::Send { message: a },
            Out::Send { message: b },
        ];
        assert(out_views(out@) =~= seq![
            OutMsgV::Send { message: reload_message(config@, pane@) },
            OutMsgV::Wait { ms: 200 },
        ] + go);
        Turn { action: KeyAction::RenderDetails, out, work: None }
    } else {
        let out: Vec<Out> = vec![Out::Send { message: a }, Out::Send { message: b }];
        assert(out_views(out@) =~= go);
        Turn { action: KeyAction::RenderDetails, out, work: None }
    }
}

fn delete_keys(app: &mut App) -> (r: Turn)
    requires
        old(app).wf(),
    ensures
        final(app).wf(),
        agrees(final(app).view(), r, delete_turn(old(app).view())),
{
    let pane: String = match app.selected_name() {
        Some(p) => p,
        None => return turn_only(KeyAction::RenderDetails),
    };
    let pos: i64 = app.current_playlist_pos();
    let ghost s = app.view();
    let mut targets: Vec<usize> = Vec::new();
    if app.selected_items.len() == 0 {
        targets.push(app.playlist_sel);
    } else {
        targets = app.selected_items.clone();
    }
    assert(targets@ =~= targets_of(s));
    for i in 0..targets.len()
        invariant
            targets@ == targets_of(s),
            s == app.view(),
            pos == position_of(s),
            selected_of(s) is Some,
            app.wf(),
            s == old(app).view(),
            forall|k: int| 0 <= k < i ==> !(pos >= 0 && #[trigger] targets@[k] == pos),
    {
        if pos >= 0 && targets[i] as u64 == pos as u64 {
            proof {
                assert(targets@[i as int] == pos);
                assert(hits_playing(targets@, pos));
            }
            app.status_msg = Some("Cannot remove playing item".to_owned());
            return turn_only(KeyAction::RenderDetails);
        }
    }
    assert(!hits_playing(targets@, pos));
    let items: Vec<String> = drop_marked(&app.playlist_items, &targets);
    turn_work(KeyAction::RenderDetails, Work::Rewrite { pane, items, edit: Edit::Delete })
}

fn move_keys(app: &mut App) -> (r: Turn)
    requires
        old(app).wf(),
    ensures
        final(app).wf(),
        agrees(final(app).view(), r, move_turn(old(app).view())),
{
    let pane: String = match app.selected_name() {
        Some(p) => p,
        None => return turn_only(KeyAction::RenderDetails),
    };
    if app.selected_items.len() == 0 {
        app.status_msg = Some("Mark items with Space first".to_owned());
        return turn_only(KeyAction::RenderDetails);
    }
    let (items, at): (Vec<String>, usize) = move_marked(
        &app.playlist_items,
        &app.selected_items,
        app.playlist_sel,
    );
    turn_work(KeyAction::RenderDetails, Work::Rewrite { pane, items, edit: Edit::Move(at) })
}

fn crop_keys(app: &mut App) -> (r: Turn)
    requires
        old(app).wf(),
    ensures
        final(app).wf(),
        agrees(final(app).view(), r, crop_turn(old(app).view())),
{
    let pane: String = match app.selected_name() {
        Some(p) => p,
        None => return turn_only(KeyAction::RenderDetails),
    };
    if app.selected_items.len() == 0 {
        let pos: i64 = app.current_playlist_pos();
        turn_work(KeyAction::RenderDetails, Work::Crop { pane, pos })
    } else {
        let items: Vec<String> = keep_marked(&app.playlist_items, &app.selected_items);
        turn_work(KeyAction::RenderDetails, Work::Rewrite { pane, items, edit: Edit::Crop })
    }
}

fn next_of(app: &App) -> (r: usize)
    ensures
        r == next_item(app.view()),
{
    let len: usize = app.playlist_items.len();
    let sel: usize = app.playlist_sel;
    if sel < len && len - sel > 1 {
        sel + 1
    } else {
        sel
    }
}

fn walk(app: &App, k: Key) -> (r: Option<usize>)
    ensures
        r == walked(app.view(), k),
{
    let sel: usize = app.playlist_sel;
    let last: usize = last_of(app.playlist_items.len());
    if up(k) {
        Some(
            if sel > 0 {
                sel - 1
            } else {
                0
            },
        )
    } else if down(k) {
        Some(next_of(app))
    } else if k == Key::Char('[') {
        Some(
            if sel > 10 {
                sel - 10
            } else {
                0
            },
        )
    } else if k == Key::Char(']') {
        Some(
            if sel <= last && last - sel >= 10 {
                sel + 10
            } else {
                last
            },
        )
    } else if k == Key::Char('\\') {
        Some(last)
    } else {
        None
    }
}

fn list_keys(app: &mut App, k: Key, shift: bool, config: &str) -> (r: Turn)
    requires
        old(app).wf(),
    ensures
        final(app).wf(),
        agrees(final(app).view(), r, list_turn(old(app).view(), k, shift, config@)),
{
    if k == Key::Enter && !shift {
        app.show_details = false;
        app.details_mode = DetailsMode::Normal;
        app.status_msg = None;
        app.jump_input = String::new();
        app.selected_items = Vec::new();
        turn_only(KeyAction::Render)
    } else if k == Key::Char(' ') && shift {
        play_keys(app, config)
    } else if k == Key::Tab {
        app.command_mode = !app.command_mode;
        app.status_msg = None;
        turn_only(KeyAction::RenderDetails)
    } else if let Some(i) = walk(app, k) {
        app.playlist_sel = i;
        app.status_msg = None;
        turn_only(KeyAction::RenderDetails)
    } else if k == Key::Char(' ') {
        let next: usize = next_of(app);
        toggle(&mut app.selected_items, app.playlist_sel);
        app.playlist_sel = next;
        app.status_msg = None;
        turn_only(KeyAction::RenderDetails)
    } else if k == Key::Esc {
        if app.selected_items.len() > 0 {
            app.selected_items = Vec::new();
            app.status_msg = None;
            turn_only(KeyAction::RenderDetails)
        } else {
            turn_only(KeyAction::Nothing)
        }
    } else if k == Key::Char('G') {
        app.details_mode = DetailsMode::Jump;
        app.jump_input = String::new();
        turn_only(KeyAction::RenderDetails)
    } else if k == Key::Char('A') {
        app.details_mode = DetailsMode::Add;
        app.add_input = String::new();
        app.status_msg = None;
        turn_only(KeyAction::RenderDetails)
    } else if k == Key::Char('D') {
        delete_keys(app)
    } else if k == Key::Char('M') {
        move_keys(app)
    } else if k == Key::Char('C') {
        crop_keys(app)
    } else if k == Key::Char('S') {
        match app.selected_name() {
            Some(pane) => turn_work(KeyAction::RenderDetails, Work::Save { pane }),
            None => turn_only(KeyAction::RenderDetails),
        }
    } else {
        turn_only(KeyAction::Nothing)
    }
}

fn details_keys(app: &mut App, k: Key, shift: bool, config: &str) -> (r: Turn)
    requires
        old(app).wf(),
    ensures
        final(app).wf(),
        agrees(final(app).view(), r, details_turn(old(app).view(), k, shift, config@)),
{
    if app.details_mode == DetailsMode::Jump {
        return jump_keys(app, k);
    }
    if app.details_mode == DetailsMode::Add {
        return add_keys(app, k);
    }
    if app.command_mode {
        if let Some(pane) = app.selected_name() {
            return match command_key_message(pane.as_str(), k) {
                Some(m) => turn_send(KeyAction::RenderDetails, just(m)),
                None => if k == Key::Char('v') {
                    turn_only(KeyAction::RenderDetails)
                } else if k == Key::Tab {
                    app.command_mode = false;
                    app.status_msg = None;
                    turn_only(KeyAction::RenderDetails)
                } else {
                    turn_only(KeyAction::Nothing)
                },
            };
        }
    }
    list_keys(app, k, shift, config)
}

/// Stops every pane.
pub fn cmd_stop_all(order: &Vec<String>) -> (r: Vec<Json>)
    ensures
        jsons(r@) == stop_messages(strs(order@)),
{
    let mut out: Vec<Json> = Vec::new();
    for i in 0..order.len()
        invariant
            out.len() == i,
            forall|k: int|
                0 <= k < i ==> (#[trigger] out@[k]).view() == pane_message(
                    "stop"@,
                    order@[k]@,
                    Seq::empty(),
                ),
    {
        out.push(send_cmd0(order[i].as_str(), "stop"));
    }
    assert(jsons(out@) =~= stop_messages(strs(order@)));
    out
}

/// Starts every pane.
pub fn cmd_start_all(order: &Vec<String>) -> (r: Vec<Json>)
    ensures
        jsons(r@) == flag_messages(strs(order@), "pause"@, false),
{
    flag_all(order, "pause", false)
}

fn orchestrate(app: &App, k: Key) -> (r: Option<Vec<Json>>)
    ensures
        match r {
            Some(v) => orchestra(app.view(), k) == Some(jsons(v@)),
            None => orchestra(app.view(), k) is None,
        },
{
    let pane: Option<String> = app.selected_name();
    if k == Key::Char('r') {
        Some(
            match pane {
                Some(p) => just(send_node_cmd("panebot:restart-pane", p.as_str())),
                None => no_messages(),
            },
        )
    } else if k == Key::Char('R') {
        Some(just(obj1("command", Json::string("panebot:restart-all"))))
    } else if k == Key::Char('S') {
        Some(
            match pane {
                Some(p) => cmd_solo(p.as_str(), &app.pane_order),
                None => no_messages(),
            },
        )
    } else if k == Key::Char('M') {
        Some(
            match pane {
                Some(p) => cmd_mute_others(p.as_str(), &app.pane_order),
                None => no_messages(),
            },
        )
    } else if k == Key::Char('X') {
        Some(cmd_stop_all(&app.pane_order))
    } else if k == Key::Char('P') {
        Some(cmd_start_all(&app.pane_order))
    } else {
        None
    }
}

fn home_keys(app: &mut App, k: Key, shift: bool) -> (r: Turn)
    requires
        old(app).wf(),
    ensures
        final(app).wf(),
        agrees(final(app).view(), r, home_turn(old(app).view(), k, shift)),
{
    if app.show_picker {
        let o: crate::tui_keys::Outcome = crate::tui_keys::picker_key(app, k);
        return turn_send(o.action, o.send);
    }
    if k == Key::Char('W') {
        let i: usize = find_name(&app.layouts, app.layout.as_str());
        app.picker_sel = if i < app.layouts.len() {
            i
        } else {
            0
        };
        app.show_picker = true;
        return turn_only(KeyAction::Render);
    }
    if k == Key::Enter {
        return match app.selected_name() {
            Some(pane) => turn_work(KeyAction::RenderDetails, Work::Open { pane }),
            None => turn_only(KeyAction::Nothing),
        };
    }
    if k == Key::Tab {
        app.command_mode = !app.command_mode;
        return turn_only(KeyAction::Render);
    }
    if k == Key::Char('L') || (k == Key::Char('l') && shift) {
        app.show_log = !app.show_log;
        return turn_only(KeyAction::Render);
    }
    if !app.command_mode {
        if down(k) {
            app.select_next();
            turn_only(KeyAction::Render)
        } else if up(k) {
            app.select_prev();
            turn_only(KeyAction::Render)
        } else if let Some(m) = orchestrate(app, k) {
            turn_send(KeyAction::Render, m)
        } else {
            turn_only(KeyAction::Nothing)
        }
    } else {
        match app.selected_name() {
            Some(p) => match command_key_message(p.as_str(), k) {
                Some(m) => turn_send(KeyAction::Render, just(m)),
                None => if k == Key::Char('v') {
                    turn_only(KeyAction::Render)
                } else {
                    turn_only(KeyAction::Nothing)
                },
            },
            None => turn_only(KeyAction::Nothing),
        }
    }
}

/// A key, wherever the terminal stands.
pub fn handle_key(app: &mut App, k: Key, shift: bool, config: &str) -> (r: Turn)
    requires
        old(app).wf(),
    ensures
        final(app).wf(),
        agrees(final(app).view(), r, turn(old(app).view(), k, shift, config@)),
{
    if k == Key::Char('q') && app.details_mode != DetailsMode::Add {
        return turn_only(KeyAction::Quit);
    }
    if app.show_details {
        details_keys(app, k, shift, config)
    } else {
        home_keys(app, k, shift)
    }
}

/// The playlist file was read.
pub fn open_done(app: &mut App, pane: &str, items: Vec<String>)
    ensures
        final(app).view() == opened(old(app).view(), pane@, strs(items@)),
        final(app).wf(),
{
    app.playlist_sel = match get_state(&app.panes, pane) {
        Some(p) => match p.playlist_pos {
            Some(i) => position_index(i),
            None => 0,
        },
        None => 0,
    };
    app.playlist_items = items;
    app.selected_items = Vec::new();
    app.show_details = true;
    app.details_mode = DetailsMode::Normal;
    app.status_msg = None;
}

/// An entry was added to the playlist file, or could not be: the items now, or what
/// went wrong.
pub fn append_done(
    app: &mut App,
    pane: &str,
    config: &str,
    result: Result<Vec<String>, String>,
) -> (r: Vec<Json>)
    requires
        old(app).wf(),
    ensures
        final(app).wf(),
        match result {
            Ok(items) => final(app).view() == (AppV {
                playlist_items: strs(items@),
                ..old(app).view()
            }) && jsons(r@) == seq![reload_message(config@, pane@)],
            Err(e) => final(app).view() == status(old(app).view(), "Add failed: "@ + e@) && jsons(r@)
                == Seq::<JsonV>::empty(),
        },
{
    match result {
        Ok(items) => {
            app.playlist_items = items;
            just(reload_playlist_cmd(config, pane))
        },
        Err(e) => {
            app.status_msg = Some(cat("Add failed: ", e.as_str()));
            no_messages()
        },
    }
}

/// The playlist file was rewritten, or could not be: nothing, or what went wrong.
pub fn rewrite_done(
    app: &mut App,
    pane: &str,
    config: &str,
    items: Vec<String>,
    edit: Edit,
    result: Result<(), String>,
) -> (r: Vec<Json>)
    requires
        old(app).wf(),
    ensures
        final(app).wf(),
        match result {
            Ok(_) => final(app).view() == (AppV {
                playlist_items: strs(items@),
                selected_items: Seq::empty(),
                playlist_sel: settled(old(app).playlist_sel, edit, items@.len() as int),
                status_msg: None,
                ..old(app).view()
            }) && jsons(r@) == seq![reload_message(config@, pane@)],
            Err(e) => final(app).view() == status(old(app).view(), edit_name(edit) + e@) && jsons(r@)
                == Seq::<JsonV>::empty(),
        },
{
    match result {
        Ok(_) => {
            let last: usize = last_of(items.len());
            app.playlist_items = items;
            app.selected_items = Vec::new();
            app.playlist_sel = match edit {
                Edit::Delete => if app.playlist_sel < last {
                    app.playlist_sel
                } else {
                    last
                },
                Edit::Move(at) => at,
                Edit::Crop => 0,
            };
            app.status_msg = None;
            just(reload_playlist_cmd(config, pane))
        },
        Err(e) => {
            let what: &str = match edit {
                Edit::Delete => "Delete failed: ",
                Edit::Move(_) => "Move failed: ",
                Edit::Crop => "Crop failed: ",
            };
            app.status_msg = Some(cat(what, e.as_str()));
            no_messages()
        },
    }
}

/// The playlist file was cropped to the item being played, or could not be: the
/// items now, nothing where no item was being played, or what went wrong.
pub fn crop_done(
    app: &mut App,
    pane: &str,
    config: &str,
    result: Result<Option<Vec<String>>, String>,
) -> (r: Vec<Json>)
    requires
        old(app).wf(),
    ensures
        final(app).wf(),
        match result {
            Ok(Some(items)) => final(app).view() == (AppV {
                playlist_items: strs(items@),
                playlist_sel: 0,
                status_msg: None,
                ..old(app).view()
            }) && jsons(r@) == seq![reload_message(config@, pane@)],
            Ok(None) => final(app).view() == status(
                old(app).view(),
                "Nothing playing to crop around"@,
            ) && jsons(r@) == Seq::<JsonV>::empty(),
            Err(e) => final(app).view() == status(old(app).view(), "Crop failed: "@ + e@) && jsons(r@)
                == Seq::<JsonV>::empty(),
        },
{
    match result {
        Ok(Some(items)) => {
            app.playlist_items = items;
            app.playlist_sel = 0;
            app.status_msg = None;
            just(reload_playlist_cmd(config, pane))
        },
        Ok(None) => {
            app.status_msg = Some("Nothing playing to crop around".to_owned());
            no_messages()
        },
        Err(e) => {
            app.status_msg = Some(cat("Crop failed: ", e.as_str()));
            no_messages()
        },
    }
}

/// What the player has was written to the playlist file, or could not be: how many
/// items and what the file holds now, or what went wrong.
pub fn save_done(app: &mut App, result: Result<(usize, Vec<String>), String>)
    requires
        old(app).wf(),
    ensures
        final(app).wf(),
        match result {
            Ok((n, items)) => final(app).view() == status(
                AppV { playlist_items: strs(items@), ..old(app).view() },
                "Saved "@ + decimal(n as int) + " items"@,
            ),
            Err(e) => final(app).view() == status(old(app).view(), "Save failed: "@ + e@),
        },
{
    match result {
        Ok((n, items)) => {
            app.playlist_items = items;
            app.status_msg = Some(cat3("Saved ", decimal_of(n).as_str(), " items"));
        },
        Err(e) => {
            app.status_msg = Some(cat("Save failed: ", e.as_str()));
        },
    }
}

// ---------------------------------------------------------------------------
// Laws
// ---------------------------------------------------------------------------

/// A deletion writes the items that were not to go, and no other.
pub proof fn deletion_writes_what_is_left(s: AppV, pane: Seq<char>)
    requires
        selected_of(s) == Some(pane),
        !hits_playing(targets_of(s), position_of(s)),
        s.playlist_items.len() <= usize::MAX,
        rising(s.selected_items),
    ensures
        delete_turn(s).work == Some(
            WorkV::Rewrite {
                pane,
                items: crate::picks::removed_one_by_one(s.playlist_items, targets_of(s)),
                edit: Edit::Delete,
            },
        ),
{
    crate::picks::removing_from_the_end_drops_the_marked(s.playlist_items, targets_of(s));
}

/// A move writes the same items, each as often as before.
pub proof fn move_writes_the_same_items(s: AppV)
    ensures
        move_turn(s).work matches Some(w) ==> w is Rewrite && w->items.to_multiset()
            == s.playlist_items.to_multiset(),
{
    crate::picks::moving_keeps_every_item(
        s.playlist_items,
        s.selected_items,
        s.playlist_sel as int,
    );
}

/// The item being played is never taken out.
pub proof fn playing_item_stays(s: AppV)
    requires
        hits_playing(targets_of(s), position_of(s)),
    ensures
        delete_turn(s).work is None,
        delete_turn(s).out == Seq::<OutMsgV>::empty(),
        delete_turn(s).app.playlist_items == s.playlist_items,
{
}

/// Where a rewrite leaves the selection is inside the list, whatever was done.
pub proof fn selection_settles_inside(s: AppV, edit: Edit, items: Seq<Seq<char>>)
    requires
        items.len() > 0,
        edit matches Edit::Move(at) ==> at < items.len(),
    ensures
        settled(s.playlist_sel, edit, items.len() as int) < items.len(),
{
}

} // verus!
