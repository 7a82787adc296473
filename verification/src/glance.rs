//! The smaller watching terminal: it asks the daemon for every change of a playlist
//! and edits no file.
use crate::client::{
    index_json, node_message, pane_message, send_cmd0, send_cmd1, send_cmd2, send_node_cmd,
};
use crate::json::{nearest_double, Double, Json, JsonV, NumV};
use crate::keys::{down, is_down, is_up, up, Key, KeyAction};
use crate::screen::{
    bold_span, heavy, ink, row_views, sep, span, span_views, texts, Color, Row, RowV, Span,
    SpanV,
};
use crate::text::{
    after_last, cat3, decimal, decimal_of, is_digit, lemma_strs_push, lemma_strs_remove, lines,
    pad_right, padded, split_lines, starts_with, strs, tail_after, trim, trimmed, upper, uppercase,
};
use crate::tui::{find_name, index_of_position, name_index, position_index};
use crate::tui_keys::{int_json, jump_target, jumped, shorter};
use crate::watch::{doing, loudness, watch_position, watched, Player, Watch, WatchV};
use crate::watch_keys::{
    layout_keys, layouts_model, matches_model, pulled_up, say, says, show, shows, work, WatchTurn,
    WatchTurnV, WatchWork, WatchWorkV,
};
use crate::watch_screen::{keyed, push_keyed};
use vstd::prelude::*;

verus! {

// ---------------------------------------------------------------------------
// Playlist file
// ---------------------------------------------------------------------------

/// The entries among lines, trimmed: blank lines and those that begin with `#` name
/// none.
pub open spec fn glanced(ls: Seq<Seq<char>>) -> Seq<Seq<char>>
    decreases ls.len(),
{
    if ls.len() == 0 {
        Seq::empty()
    } else {
        let before = glanced(ls.drop_last());
        let l = ls.last();
        if trimmed(l).len() == 0 || "#"@.is_prefix_of(l) {
            before
        } else {
            before.push(trimmed(l))
        }
    }
}

/// The entries of a playlist file; none where it could not be read.
pub fn load_playlist(content: Option<&str>) -> (r: Vec<String>)
    ensures
        strs(r@) == (match content {
            Some(c) => glanced(lines(c@)),
            None => Seq::empty(),
        }),
{
    let mut out: Vec<String> = Vec::new();
    assert(strs(out@) =~= Seq::empty());
    let text: &str = match content {
        Some(c) => c,
        None => return out,
    };
    let ls: Vec<String> = split_lines(text);
    let ghost all = lines(text@);
    assert(glanced(all.take(0)) =~= Seq::empty());
    for i in 0..ls.len()
        invariant
            strs(ls@) == all,
            strs(out@) == glanced(all.take(i as int)),
    {
        proof {
            assert(all.take(i + 1).drop_last() =~= all.take(i as int));
            assert(all.take(i + 1).last() == ls@[i as int]@);
        }
        let t: &str = trim(ls[i].as_str());
        if t.unicode_len() > 0 && !starts_with(ls[i].as_str(), "#") {
            let e: String = t.to_owned();
            proof {
                lemma_strs_push(out@, e);
            }
            out.push(e);
        }
    }
    assert(all.take(all.len() as int) =~= all);
    out
}

// ---------------------------------------------------------------------------
// Keys
// ---------------------------------------------------------------------------

/// What follows the underscores at the front.
pub open spec fn typed_number(s: Seq<char>) -> Seq<char>
    decreases s.len(),
{
    if s.len() > 0 && s[0] == '_' {
        typed_number(s.skip(1))
    } else {
        s
    }
}

fn number_typed(s: &str) -> (r: &str)
    ensures
        r@ == typed_number(s@),
{
    let n: usize = s.unicode_len();
    let mut i: usize = 0;
    assert(s@.skip(0) =~= s@);
    while i < n && s.get_char(i) == '_'
        invariant
            n == s@.len(),
            i <= n,
            typed_number(s@) == typed_number(s@.skip(i as int)),
        decreases n - i,
    {
        assert(s@.skip(i as int).skip(1) =~= s@.skip(i + 1));
        i = i + 1;
    }
    let r: &str = s.substring_char(i, n);
    assert(r@ =~= s@.skip(i as int));
    r
}

/// Takes the selected item out of the list that is shown.
pub open spec fn item_dropped(s: WatchV) -> WatchV {
    if s.playlist_sel < s.playlist_items.len() {
        let left = s.playlist_items.remove(s.playlist_sel as int);
        WatchV {
            playlist_items: left,
            playlist_sel: pulled_up(s.playlist_sel, left.len() as int),
            ..s
        }
    } else {
        s
    }
}

/// A key on the playlist screen that is for the player or begins a jump.
pub open spec fn list_order(s: WatchV, k: Key) -> Option<WatchTurnV> {
    let quiet = Some(shows(s, KeyAction::Nothing));
    if k == Key::Char(' ') {
        match watched(s) {
            Some(pane) => Some(
                says(
                    s,
                    KeyAction::Nothing,
                    seq![
                        pane_message(
                            "playlist-play-index"@,
                            pane,
                            seq![int_json(s.playlist_sel as int)],
                        ),
                    ],
                ),
            ),
            None => quiet,
        }
    } else if k == Key::Char('r') {
        match watched(s) {
            Some(pane) => Some(
                says(
                    item_dropped(s),
                    KeyAction::RenderDetails,
                    seq![
                        pane_message(
                            "playlist-remove"@,
                            pane,
                            seq![int_json(s.playlist_sel as int)],
                        ),
                    ],
                ),
            ),
            None => quiet,
        }
    } else if k == Key::Char('n') || k == Key::Char('N') {
        match watched(s) {
            Some(pane) => Some(
                says(
                    s,
                    KeyAction::Nothing,
                    seq![
                        pane_message(
                            if k == Key::Char('n') {
                                "playlist-next"@
                            } else {
                                "playlist-prev"@
                            },
                            pane,
                            Seq::empty(),
                        ),
                    ],
                ),
            ),
            None => quiet,
        }
    } else if k == Key::Char('j') && s.jump_input.len() == 0 {
        Some(shows(WatchV { jump_input: "_"@, ..s }, KeyAction::RenderDetails))
    } else {
        None
    }
}

/// A key while a number is typed.
pub open spec fn number_step(s: WatchV, k: Key) -> WatchTurnV {
    let shown = KeyAction::RenderDetails;
    match k {
        Key::Char(c) => if is_digit(c) {
            shows(
                WatchV {
                    jump_input: if s.jump_input == "_"@ {
                        seq![c]
                    } else {
                        s.jump_input.push(c)
                    },
                    ..s
                },
                shown,
            )
        } else {
            shows(s, KeyAction::Nothing)
        },
        Key::Backspace => shows(WatchV { jump_input: shorter(s.jump_input), ..s }, shown),
        Key::Enter => shows(
            WatchV {
                playlist_sel: jumped(
                    typed_number(s.jump_input),
                    s.playlist_sel,
                    s.playlist_items.len() as int,
                ),
                jump_input: Seq::empty(),
                ..s
            },
            shown,
        ),
        Key::Esc => shows(WatchV { jump_input: Seq::empty(), ..s }, shown),
        _ => shows(s, KeyAction::Nothing),
    }
}

/// A key on the playlist screen.
pub open spec fn glance_list(s: WatchV, k: Key) -> WatchTurnV {
    let shown = KeyAction::RenderDetails;
    if k == Key::Esc && s.jump_input.len() == 0 {
        shows(WatchV { show_details: false, command_mode: false, ..s }, KeyAction::Render)
    } else if k == Key::Tab {
        shows(WatchV { command_mode: !s.command_mode, ..s }, shown)
    } else if is_down(k) && !s.command_mode {
        shows(
            WatchV {
                playlist_sel: if s.playlist_sel + 1 < s.playlist_items.len() {
                    (s.playlist_sel + 1) as usize
                } else {
                    s.playlist_sel
                },
                ..s
            },
            shown,
        )
    } else if is_up(k) && !s.command_mode {
        shows(
            WatchV {
                playlist_sel: if s.playlist_sel > 0 {
                    (s.playlist_sel - 1) as usize
                } else {
                    0
                },
                ..s
            },
            shown,
        )
    } else if s.command_mode && list_order(s, k) is Some {
        list_order(s, k)->0
    } else if s.jump_input.len() > 0 {
        number_step(s, k)
    } else {
        shows(s, KeyAction::Nothing)
    }
}

/// What a key sends to the selected player in command mode.
pub open spec fn glance_order(pane: Seq<char>, k: Key) -> Option<JsonV> {
    let cycle = |what: Seq<char>| pane_message("cycle"@, pane, seq![JsonV::Str(what)]);
    let seek = |by: int| pane_message("seek"@, pane, seq![int_json(by), JsonV::Str("relative"@)]);
    if k == Key::Char(' ') {
        Some(cycle("pause"@))
    } else if k == Key::Char('m') {
        Some(cycle("mute"@))
    } else if k == Key::Char('j') {
        Some(seek(-10))
    } else if k == Key::Char('k') {
        Some(seek(10))
    } else if k == Key::Char('h') {
        Some(seek(-60))
    } else if k == Key::Char('l') {
        Some(seek(60))
    } else if k == Key::Char('=') {
        Some(pane_message("add"@, pane, seq![JsonV::Str("volume"@), int_json(5)]))
    } else if k == Key::Char('-') {
        Some(
            pane_message(
                "add"@,
                pane,
                seq![JsonV::Str("volume"@), JsonV::Num(NumV::Float(nearest_double(-5)))],
            ),
        )
    } else if k == Key::Char('n') {
        Some(pane_message("playlist-next"@, pane, Seq::empty()))
    } else if k == Key::Char('N') {
        Some(pane_message("playlist-prev"@, pane, Seq::empty()))
    } else if k == Key::Char('f') {
        Some(cycle("fullscreen"@))
    } else if k == Key::Char('R') {
        Some(node_message("panebot:restart-pane"@, pane))
    } else {
        None
    }
}

/// A key on the dashboard. The selection goes round at the end.
pub open spec fn glance_panes(s: WatchV, k: Key, shift: bool) -> WatchTurnV {
    let shown = KeyAction::Render;
    if s.show_picker {
        layouts_model(s, k)
    } else if k == Key::Char('W') {
        let i = name_index(s.layouts, s.layout);
        shows(
            WatchV {
                picker_sel: if i < s.layouts.len() {
                    i as usize
                } else {
                    0
                },
                show_picker: true,
                ..s
            },
            shown,
        )
    } else if k == Key::Enter {
        match watched(s) {
            Some(pane) => WatchTurnV {
                app: s,
                action: KeyAction::RenderDetails,
                out: Seq::empty(),
                work: Some(WatchWorkV::Open { pane }),
            },
            None => shows(s, KeyAction::Nothing),
        }
    } else if k == Key::Tab {
        shows(WatchV { command_mode: !s.command_mode, ..s }, shown)
    } else if k == Key::Char('L') || (k == Key::Char('l') && shift) {
        shows(WatchV { show_log: !s.show_log, ..s }, shown)
    } else if !s.command_mode {
        if is_down(k) {
            shows(
                WatchV {
                    selected: if s.players.len() == 0 {
                        s.selected
                    } else {
                        ((s.selected + 1) % s.players.len() as int) as usize
                    },
                    ..s
                },
                shown,
            )
        } else if is_up(k) {
            shows(
                WatchV {
                    selected: if s.players.len() > 0 && s.selected > 0 {
                        (s.selected - 1) as usize
                    } else {
                        s.selected
                    },
                    ..s
                },
                shown,
            )
        } else {
            shows(s, KeyAction::Nothing)
        }
    } else {
        match watched(s) {
            Some(pane) => match glance_order(pane, k) {
                Some(m) => says(s, KeyAction::Nothing, seq![m]),
                None => shows(s, KeyAction::Nothing),
            },
            None => shows(s, KeyAction::Nothing),
        }
    }
}

/// A key, wherever the terminal stands.
pub open spec fn glance_model(s: WatchV, k: Key, shift: bool) -> WatchTurnV {
    if k == Key::Char('q') {
        shows(s, KeyAction::Quit)
    } else if s.show_details {
        glance_list(s, k)
    } else {
        glance_panes(s, k, shift)
    }
}

fn drop_item(app: &mut Watch)
    requires
        old(app).wf(),
    ensures
        final(app).wf(),
        final(app).view() == item_dropped(old(app).view()),
{
    if app.playlist_sel < app.playlist_items.len() {
        proof {
            lemma_strs_remove(app.playlist_items@, app.playlist_sel as int);
        }
        app.playlist_items.remove(app.playlist_sel);
        if app.playlist_sel > 0 && app.playlist_sel >= app.playlist_items.len() {
            app.playlist_sel = app.playlist_sel - 1;
        }
    }
}

fn order_in_list(app: &mut Watch, k: Key) -> (r: Option<WatchTurn>)
    requires
        old(app).wf(),
    ensures
        final(app).wf(),
        match r {
            Some(t) => list_order(old(app).view(), k) is Some && matches_model(
                final(app).view(),
                t,
                list_order(old(app).view(), k)->0,
            ),
            None => list_order(old(app).view(), k) is None && final(app).view() == old(app).view(),
        },
{
    if k == Key::Char(' ') {
        Some(
            match app.selected_name() {
                Some(pane) => say(
                    KeyAction::Nothing,
                    send_cmd1(pane.as_str(), "playlist-play-index", index_json(app.playlist_sel)),
                ),
                None => show(KeyAction::Nothing),
            },
        )
    } else if k == Key::Char('r') {
        Some(
            match app.selected_name() {
                Some(pane) => {
                    let m: Json = send_cmd1(
                        pane.as_str(),
                        "playlist-remove",
                        index_json(app.playlist_sel),
                    );
                    drop_item(app);
                    say(KeyAction::RenderDetails, m)
                },
                None => show(KeyAction::Nothing),
            },
        )
    } else if k == Key::Char('n') || k == Key::Char('N') {
        Some(
            match app.selected_name() {
                Some(pane) => {
                    let cmd: &str = if k == Key::Char('n') {
                        "playlist-next"
                    } else {
                        "playlist-prev"
                    };
                    say(KeyAction::Nothing, send_cmd0(pane.as_str(), cmd))
                },
                None => show(KeyAction::Nothing),
            },
        )
    } else if k == Key::Char('j') && app.jump_input.as_str().unicode_len() == 0 {
        app.jump_input = "_".to_owned();
        Some(show(KeyAction::RenderDetails))
    } else {
        None
    }
}

fn type_number(app: &mut Watch, k: Key) -> (r: WatchTurn)
    requires
        old(app).wf(),
    ensures
        final(app).wf(),
        matches_model(final(app).view(), r, number_step(old(app).view(), k)),
{
    match k {
        Key::Char(c) => {
            if '0' <= c && c <= '9' {
                if crate::text::same(app.jump_input.as_str(), "_") {
                    app.jump_input = String::new();
                    app.jump_input.push(c);
                    assert(app.jump_input@ =~= seq![c]);
                } else {
                    app.jump_input.push(c);
                }
                show(KeyAction::RenderDetails)
            } else {
                show(KeyAction::Nothing)
            }
        },
        Key::Backspace => {
            app.jump_input.pop();
            show(KeyAction::RenderDetails)
        },
        Key::Enter => {
            let to: usize = jump_target(
                number_typed(app.jump_input.as_str()),
                app.playlist_sel,
                app.playlist_items.len(),
            );
            app.playlist_sel = to;
            app.jump_input = String::new();
            show(KeyAction::RenderDetails)
        },
        Key::Esc => {
            app.jump_input = String::new();
            show(KeyAction::RenderDetails)
        },
        _ => show(KeyAction::Nothing),
    }
}

fn list_keys(app: &mut Watch, k: Key) -> (r: WatchTurn)
    requires
        old(app).wf(),
    ensures
        final(app).wf(),
        matches_model(final(app).view(), r, glance_list(old(app).view(), k)),
{
    let typing: bool = app.jump_input.as_str().unicode_len() > 0;
    if k == Key::Esc && !typing {
        app.show_details = false;
        app.command_mode = false;
        return show(KeyAction::Render);
    }
    if k == Key::Tab {
        app.command_mode = !app.command_mode;
        return show(KeyAction::RenderDetails);
    }
    if down(k) && !app.command_mode {
        let n: usize = app.playlist_items.len();
        if app.playlist_sel < n && n - app.playlist_sel > 1 {
            app.playlist_sel = app.playlist_sel + 1;
        }
        return show(KeyAction::RenderDetails);
    }
    if up(k) && !app.command_mode {
        if app.playlist_sel > 0 {
            app.playlist_sel = app.playlist_sel - 1;
        }
        return show(KeyAction::RenderDetails);
    }
    if app.command_mode {
        if let Some(t) = order_in_list(app, k) {
            return t;
        }
    }
    if typing {
        type_number(app, k)
    } else {
        show(KeyAction::Nothing)
    }
}

fn order_message(pane: &str, k: Key) -> (r: Option<Json>)
    ensures
        crate::protocol::opt_json(r) == glance_order(pane@, k),
{
    if k == Key::Char(' ') {
        Some(send_cmd1(pane, "cycle", Json::string("pause")))
    } else if k == Key::Char('m') {
        Some(send_cmd1(pane, "cycle", Json::string("mute")))
    } else if k == Key::Char('j') {
        Some(send_cmd2(pane, "seek", Json::integer(-10), Json::string("relative")))
    } else if k == Key::Char('k') {
        Some(send_cmd2(pane, "seek", Json::integer(10), Json::string("relative")))
    } else if k == Key::Char('h') {
        Some(send_cmd2(pane, "seek", Json::integer(-60), Json::string("relative")))
    } else if k == Key::Char('l') {
        Some(send_cmd2(pane, "seek", Json::integer(60), Json::string("relative")))
    } else if k == Key::Char('=') {
        Some(send_cmd2(pane, "add", Json::string("volume"), Json::integer(5)))
    } else if k == Key::Char('-') {
        Some(send_cmd2(pane, "add", Json::string("volume"), Double::whole(-5).to_json()))
    } else if k == Key::Char('n') {
        Some(send_cmd0(pane, "playlist-next"))
    } else if k == Key::Char('N') {
        Some(send_cmd0(pane, "playlist-prev"))
    } else if k == Key::Char('f') {
        Some(send_cmd1(pane, "cycle", Json::string("fullscreen")))
    } else if k == Key::Char('R') {
        Some(send_node_cmd("panebot:restart-pane", pane))
    } else {
        None
    }
}

fn pane_keys(app: &mut Watch, k: Key, shift: bool) -> (r: WatchTurn)
    requires
        old(app).wf(),
    ensures
        final(app).wf(),
        matches_model(final(app).view(), r, glance_panes(old(app).view(), k, shift)),
{
    if app.show_picker {
        return layout_keys(app, k);
    }
    if k == Key::Char('W') {
        let i: usize = find_name(&app.layouts, app.layout.as_str());
        app.picker_sel = if i < app.layouts.len() {
            i
        } else {
            0
        };
        app.show_picker = true;
        return show(KeyAction::Render);
    }
    if k == Key::Enter {
        return match app.selected_name() {
            Some(pane) => work(WatchWork::Open { pane }),
            None => show(KeyAction::Nothing),
        };
    }
    if k == Key::Tab {
        app.command_mode = !app.command_mode;
        return show(KeyAction::Render);
    }
    if k == Key::Char('L') || (k == Key::Char('l') && shift) {
        app.show_log = !app.show_log;
        return show(KeyAction::Render);
    }
    if !app.command_mode {
        if down(k) {
            let n: usize = app.players.len();
            if n > 0 {
                proof {
                    if app.selected + 1 < n {
                        vstd::arithmetic::div_mod::lemma_small_mod(
                            (app.selected + 1) as nat,
                            n as nat,
                        );
                    } else if app.selected + 1 == n {
                        vstd::arithmetic::div_mod::lemma_mod_self_0(n as int);
                    }
                }
                app.selected = if app.selected < n {
                    if app.selected + 1 < n {
                        app.selected + 1
                    } else {
                        0
                    }
                } else {
                    proof {
                        lemma_next_of(app.selected as int, n as int);
                    }
                    ((app.selected % n) + 1) % n
                };
            }
            return show(KeyAction::Render);
        }
        if up(k) {
            if app.players.len() > 0 && app.selected > 0 {
                app.selected = app.selected - 1;
            }
            return show(KeyAction::Render);
        }
        return show(KeyAction::Nothing);
    }
    match app.selected_name() {
        Some(pane) => match order_message(pane.as_str(), k) {
            Some(m) => say(KeyAction::Nothing, m),
            None => show(KeyAction::Nothing),
        },
        None => show(KeyAction::Nothing),
    }
}

proof fn lemma_next_of(a: int, n: int)
    requires
        0 <= a,
        0 < n,
    ensures
        0 <= a % n < n,
        ((a % n) + 1) % n == (a + 1) % n,
{
    vstd::arithmetic::div_mod::lemma_add_mod_noop(a, 1, n);
    vstd::arithmetic::div_mod::lemma_add_mod_noop(a % n, 1, n);
    vstd::arithmetic::div_mod::lemma_mod_twice(a, n);
}

/// A key, wherever the terminal stands.
pub fn glance_key(app: &mut Watch, k: Key, shift: bool) -> (r: WatchTurn)
    requires
        old(app).wf(),
    ensures
        final(app).wf(),
        matches_model(final(app).view(), r, glance_model(old(app).view(), k, shift)),
{
    if k == Key::Char('q') {
        show(KeyAction::Quit)
    } else if app.show_details {
        list_keys(app, k)
    } else {
        pane_keys(app, k, shift)
    }
}

/// The playlist file was read: it is shown from where the player stands.
pub fn glance_opened(app: &mut Watch, items: Vec<String>)
    requires
        old(app).wf(),
    ensures
        final(app).wf(),
        final(app).view() == (WatchV {
            playlist_items: strs(items@),
            playlist_sel: index_of_position(watch_position(old(app).view())) as usize,
            show_details: true,
            command_mode: false,
            ..old(app).view()
        }),
{
    app.playlist_sel = position_index(app.current_playlist_pos());
    app.playlist_items = items;
    app.show_details = true;
    app.command_mode = false;
}

// ---------------------------------------------------------------------------
// Playlist screen
// ---------------------------------------------------------------------------

/// The first line of the playlist screen.
pub open spec fn playlist_header_of(p: crate::watch::PlayerV) -> Seq<SpanV> {
    seq![
        ink("[PaneBot]"@, Color::Orange),
        sep(Color::Dim),
        ink("\""@ + uppercase(p.name) + "\""@, Color::White),
        sep(Color::Dim),
        ink("["@ + uppercase(p.pane_type) + "]"@, Color::Dim),
        sep(Color::Dim),
        ink("["@ + doing(p).0 + "]"@, doing(p).1),
        sep(Color::Dim),
        ink("["@ + loudness(p).0 + "]"@, loudness(p).1),
    ]
}

/// The first line of the playlist screen; nothing where no player is selected.
pub fn playlist_header(app: &Watch) -> (r: Option<Vec<Span>>)
    ensures
        match r {
            Some(v) => app.selected < app.view().players.len() && span_views(v@)
                == playlist_header_of(app.view().players[app.selected as int]),
            None => app.selected >= app.view().players.len(),
        },
{
    if app.selected >= app.players.len() {
        return None;
    }
    let p: &Player = &app.players[app.selected];
    assert(app.view().players[app.selected as int] == p.view());
    let (pb, pb_color): (&'static str, Color) = p.playback_label();
    let (vol, vol_color): (String, Color) = p.volume_label();
    let v: Vec<Span> = vec![
        span("[PaneBot]", Color::Orange),
        span(" :: ", Color::Dim),
        span(cat3("\"", upper(p.name.as_str()).as_str(), "\"").as_str(), Color::White),
        span(" :: ", Color::Dim),
        span(cat3("[", upper(p.pane_type.as_str()).as_str(), "]").as_str(), Color::Dim),
        span(" :: ", Color::Dim),
        span(cat3("[", pb, "]").as_str(), pb_color),
        span(" :: ", Color::Dim),
        span(cat3("[", vol.as_str(), "]").as_str(), vol_color),
    ];
    assert(span_views(v@) =~= playlist_header_of(p.view()));
    Some(v)
}

/// The row of one playlist item.
pub open spec fn playlist_row_of(s: WatchV, i: int) -> RowV {
    let current = i == watch_position(s);
    let sel = i == s.playlist_sel;
    RowV {
        spans: seq![
            if sel {
                ink(">> "@, Color::Orange)
            } else {
                ink("   "@, Color::Plain)
            },
            ink(
                padded(decimal(i), 3),
                if current {
                    Color::Orange
                } else {
                    Color::Dim
                },
            ),
            sep(Color::Dim),
            ink(
                after_last(s.playlist_items[i], '/'),
                if current {
                    Color::Cyan
                } else {
                    Color::Hint
                },
            ),
        ],
        selected: sel,
    }
}

/// The rows of the playlist screen.
pub fn render_playlist(app: &Watch) -> (r: Vec<Row>)
    ensures
        row_views(r@) == Seq::new(
            app.view().playlist_items.len(),
            |i: int| playlist_row_of(app.view(), i),
        ),
{
    let ghost s = app.view();
    let pos: i64 = app.current_playlist_pos();
    let mut rows: Vec<Row> = Vec::new();
    for i in 0..app.playlist_items.len()
        invariant
            s == app.view(),
            pos == watch_position(s),
            rows.len() == i,
            forall|k: int| 0 <= k < i ==> (#[trigger] rows@[k]).view() == playlist_row_of(s, k),
    {
        let current: bool = pos >= 0 && i as u64 == pos as u64;
        let sel: bool = i == app.playlist_sel;
        let cursor: Span = if sel {
            span(">> ", Color::Orange)
        } else {
            span("   ", Color::Plain)
        };
        let idx_color: Color = if current {
            Color::Orange
        } else {
            Color::Dim
        };
        let txt_color: Color = if current {
            Color::Cyan
        } else {
            Color::Hint
        };
        let spans: Vec<Span> = vec![
            cursor,
            span(pad_right(decimal_of(i).as_str(), 3).as_str(), idx_color),
            span(" :: ", Color::Dim),
            span(tail_after(app.playlist_items[i].as_str(), '/'), txt_color),
        ];
        let row: Row = Row { spans, selected: sel };
        assert(row.view().spans =~= playlist_row_of(s, i as int).spans);
        rows.push(row);
    }
    assert(row_views(rows@) =~= Seq::new(
        s.playlist_items.len(),
        |i: int| playlist_row_of(s, i),
    ));
    rows
}

pub open spec fn list_orders() -> Seq<(Seq<char>, Seq<char>)> {
    seq![
        ("[Space]"@, "Play"@),
        ("[r]"@, "Remove"@),
        ("[j]"@, "Jump"@),
        ("[n/N]"@, "Skip"@),
        ("[Tab]"@, "Close"@),
    ]
}

pub open spec fn list_hints() -> Seq<(Seq<char>, Seq<char>)> {
    seq![("[up/dn]"@, "Select"@), ("[Tab]"@, "Command"@), ("[Esc]"@, "Back"@)]
}

/// The last line of the playlist screen.
pub open spec fn playlist_footer_of(s: WatchV) -> Seq<SpanV> {
    if s.command_mode {
        seq![heavy("[CMD]"@, Color::Plain, true), sep(Color::Plain)] + keyed(
            list_orders(),
            Color::Plain,
            true,
            Color::Plain,
        )
    } else if s.jump_input.len() > 0 {
        seq![
            ink("Jump to: "@, Color::Hint),
            heavy(typed_number(s.jump_input), Color::Cyan, true),
            ink("  [Enter] Go  [Esc] Cancel"@, Color::Dim),
        ]
    } else {
        keyed(list_hints(), Color::Dim, false, Color::Orange)
    }
}

/// The last line of the playlist screen.
pub fn playlist_footer(app: &Watch) -> (r: Vec<Span>)
    ensures
        span_views(r@) == playlist_footer_of(app.view()),
{
    if app.command_mode {
        let keys: Vec<(&'static str, &'static str)> = vec![
            ("[Space]", "Play"),
            ("[r]", "Remove"),
            ("[j]", "Jump"),
            ("[n/N]", "Skip"),
            ("[Tab]", "Close"),
        ];
        assert(texts(keys@) =~= list_orders());
        let mut v: Vec<Span> = vec![
            bold_span("[CMD]", Color::Plain, true),
            span(" :: ", Color::Plain),
        ];
        assert(span_views(v@) =~= seq![heavy("[CMD]"@, Color::Plain, true), sep(Color::Plain)]);
        push_keyed(&mut v, &keys, Color::Plain, true, Color::Plain);
        v
    } else if app.jump_input.as_str().unicode_len() > 0 {
        let v: Vec<Span> = vec![
            span("Jump to: ", Color::Hint),
            bold_span(number_typed(app.jump_input.as_str()), Color::Cyan, true),
            span("  [Enter] Go  [Esc] Cancel", Color::Dim),
        ];
        assert(span_views(v@) =~= playlist_footer_of(app.view()));
        v
    } else {
        let keys: Vec<(&'static str, &'static str)> = vec![
            ("[up/dn]", "Select"),
            ("[Tab]", "Command"),
            ("[Esc]", "Back"),
        ];
        assert(texts(keys@) =~= list_hints());
        let mut v: Vec<Span> = Vec::new();
        assert(span_views(v@) =~= Seq::empty());
        push_keyed(&mut v, &keys, Color::Dim, false, Color::Orange);
        assert(Seq::<SpanV>::empty() + keyed(list_hints(), Color::Dim, false, Color::Orange)
            =~= keyed(list_hints(), Color::Dim, false, Color::Orange));
        v
    }
}

// ---------------------------------------------------------------------------
// Laws
// ---------------------------------------------------------------------------

/// Going down as often as there are players comes back to the one that was selected.
pub proof fn selection_goes_round(sel: int, n: int, times: nat)
    requires
        0 <= sel < n,
    ensures
        stepped(sel, n, times) == (sel + times) % n,
        stepped(sel, n, n as nat) == sel,
    decreases times,
{
    lemma_stepped(sel, n, times);
    lemma_stepped(sel, n, n as nat);
    vstd::arithmetic::div_mod::lemma_mod_add_multiples_vanish(sel, n);
    vstd::arithmetic::div_mod::lemma_small_mod(sel as nat, n as nat);
}

/// The selection after so many steps down.
pub open spec fn stepped(sel: int, n: int, times: nat) -> int
    decreases times,
{
    if times == 0 {
        sel
    } else {
        (stepped(sel, n, (times - 1) as nat) + 1) % n
    }
}

proof fn lemma_stepped(sel: int, n: int, times: nat)
    requires
        0 <= sel < n,
    ensures
        stepped(sel, n, times) == (sel + times) % n,
    decreases times,
{
    if times == 0 {
        vstd::arithmetic::div_mod::lemma_small_mod(sel as nat, n as nat);
    } else {
        lemma_stepped(sel, n, (times - 1) as nat);
        lemma_next_of(sel + times - 1, n);
    }
}

} // verus!
