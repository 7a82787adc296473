//! What the keys of the watching terminal are for.
use crate::console::{as_sends, OutMsgV};
use crate::console_laws::{lemma_reloads, reloads, says};
use crate::json::{jsons, nearest_double, Json, JsonV, NumV};
use crate::key_laws::{
    lemma_layout_message, lemma_name_index, lemma_to_daemon, lemma_to_player, lemma_to_set, number,
    to_daemon, to_player, to_set,
};
use crate::keys::{Key, KeyAction};
use crate::paths::tilde_expanded;
use crate::text::{decimal, strs, trimmed};
use crate::watch::{player_names, Watch, WatchMode, WatchV};
use crate::watch_keys::{
    append_done, crop_done, matches_model, open_done, other_names, other_panes, remove_done,
    run_key, transfer_done, watch_model, WatchTurn, WatchWorkV,
};
use vstd::prelude::*;

verus! {

/// What a key does is what `watch_model` says.
pub proof fn watch_keys_turn(
    app: &mut Watch,
    k: Key,
    shift: bool,
    config: &str,
    home: &str,
    r: WatchTurn,
)
    requires
        call_ensures(run_key, (app, k, shift, config, home), r),
    ensures
        matches_model(final(app).view(), r, watch_model(old(app).view(), k, shift, config@, home@)),
{
}

/// The name of the selected player.
pub open spec fn seen(s: WatchV) -> Seq<char> {
    s.players[s.selected as int].name
}

// ---------------------------------------------------------------------------
// The dashboard
// ---------------------------------------------------------------------------

/// The dashboard is shown and nothing is offered.
pub open spec fn on_panes(s: WatchV) -> bool {
    !s.show_details && !s.show_picker && s.selected < s.players.len() && s.details_mode
        != WatchMode::Add
}

/// Without command mode the keys go through the panes and stop at the ends, Enter opens
/// the playlist file of the selected pane, and no player is told anything.
pub proof fn watch_keys_select_panes(s: WatchV, shift: bool, config: Seq<char>, home: Seq<char>)
    requires
        on_panes(s),
        !s.command_mode,
        s.players.len() <= usize::MAX,
    ensures
        ({
            let down = watch_model(s, Key::Down, shift, config, home);
            let up = watch_model(s, Key::Up, shift, config, home);
            &&& down.app == (WatchV {
                selected: if s.selected == s.players.len() - 1 {
                    s.selected
                } else {
                    (s.selected + 1) as usize
                },
                ..s
            })
            &&& up.app == (WatchV {
                selected: if s.selected == 0 {
                    0
                } else {
                    (s.selected - 1) as usize
                },
                ..s
            })
            &&& down.out.len() == 0 && up.out.len() == 0
            &&& watch_model(s, Key::Char('j'), shift, config, home) == down
            &&& watch_model(s, Key::Char('k'), shift, config, home) == up
            &&& watch_model(s, Key::Enter, shift, config, home).work == Some(
                WatchWorkV::Open { pane: seen(s) },
            )
            &&& watch_model(s, Key::Tab, shift, config, home).app == (WatchV {
                command_mode: true,
                ..s
            })
            &&& watch_model(s, Key::Char('L'), shift, config, home).app == (WatchV {
                show_log: !s.show_log,
                ..s
            })
            &&& watch_model(s, Key::Char('q'), shift, config, home).action == KeyAction::Quit
        }),
{
}

/// What a key tells the selected player in command mode.
pub open spec fn told_while_watching(pane: Seq<char>, k: Key) -> Seq<JsonV> {
    let relative = JsonV::Str("relative"@);
    match k {
        Key::Char(' ') => seq![to_player(pane, "cycle"@, seq![JsonV::Str("pause"@)])],
        Key::Char('m') => seq![to_player(pane, "cycle"@, seq![JsonV::Str("mute"@)])],
        Key::Char('f') => seq![to_player(pane, "cycle"@, seq![JsonV::Str("fullscreen"@)])],
        Key::Down | Key::Char('j') => seq![to_player(pane, "seek"@, seq![number(-10), relative])],
        Key::Up | Key::Char('k') => seq![to_player(pane, "seek"@, seq![number(10), relative])],
        Key::Left | Key::Char('h') => seq![to_player(pane, "seek"@, seq![number(-60), relative])],
        Key::Right | Key::Char('l') => seq![to_player(pane, "seek"@, seq![number(60), relative])],
        Key::Char('=') => seq![
            to_player(pane, "add"@, seq![JsonV::Str("volume"@), number(5)]),
        ],
        Key::Char('-') => seq![
            to_player(
                pane,
                "add"@,
                seq![JsonV::Str("volume"@), JsonV::Num(NumV::Float(nearest_double(-5)))],
            ),
        ],
        Key::Char('n') => seq![to_player(pane, "playlist-next"@, Seq::empty())],
        Key::Char('N') => seq![to_player(pane, "playlist-prev"@, Seq::empty())],
        Key::Char('R') => seq![to_daemon("panebot:restart-pane"@, pane)],
        _ => Seq::empty(),
    }
}

/// In command mode the keys drive the selected player: space pauses, `m` mutes, `f` fills
/// the screen, down and up go ten seconds back and on, left and right a minute, `-` and `=`
/// make it quieter and louder, `n` and `N` go to the next and the previous item, and `R`
/// restarts the pane.
pub proof fn watch_command_mode_drives_the_player(
    s: WatchV,
    k: Key,
    shift: bool,
    config: Seq<char>,
    home: Seq<char>,
)
    requires
        on_panes(s),
        s.command_mode,
        k != Key::Char('q') && k != Key::Char('W') && k != Key::Enter && k != Key::Tab && k
            != Key::Char('L') && !(k == Key::Char('l') && shift),
    ensures
        watch_model(s, k, shift, config, home).out == told_while_watching(seen(s), k).map_values(
            |m: JsonV| says(m),
        ),
        watch_model(s, k, shift, config, home).app == s,
        watch_model(s, k, shift, config, home).work is None,
{
    let pane = seen(s);
    let relative = JsonV::Str("relative"@);
    lemma_to_player(pane, "cycle"@, seq![JsonV::Str("pause"@)]);
    lemma_to_player(pane, "cycle"@, seq![JsonV::Str("mute"@)]);
    lemma_to_player(pane, "cycle"@, seq![JsonV::Str("fullscreen"@)]);
    lemma_to_player(pane, "seek"@, seq![number(-10), relative]);
    lemma_to_player(pane, "seek"@, seq![number(10), relative]);
    lemma_to_player(pane, "seek"@, seq![number(-60), relative]);
    lemma_to_player(pane, "seek"@, seq![number(60), relative]);
    lemma_to_player(pane, "add"@, seq![JsonV::Str("volume"@), number(5)]);
    lemma_to_player(
        pane,
        "add"@,
        seq![JsonV::Str("volume"@), JsonV::Num(NumV::Float(nearest_double(-5)))],
    );
    lemma_to_player(pane, "playlist-next"@, Seq::empty());
    lemma_to_player(pane, "playlist-prev"@, Seq::empty());
    lemma_to_daemon("panebot:restart-pane"@, pane);
    let t = told_while_watching(pane, k);
    assert(as_sends(t) =~= t.map_values(|m: JsonV| says(m)));
    assert(watch_model(s, k, shift, config, home).out =~= t.map_values(|m: JsonV| says(m)));
}

/// The layouts are offered from the current one on, and the one that is taken is asked for
/// by its name.
pub proof fn watchers_choose_layouts(
    s: WatchV,
    shift: bool,
    config: Seq<char>,
    home: Seq<char>,
    i: int,
)
    requires
        !s.show_details,
        0 <= i < s.layouts.len() <= usize::MAX,
        s.layouts[i] == s.layout,
        forall|j: int| 0 <= j < i ==> #[trigger] s.layouts[j] != s.layout,
    ensures
        !s.show_picker ==> watch_model(s, Key::Char('W'), shift, config, home).app == (WatchV {
            show_picker: true,
            picker_sel: i as usize,
            ..s
        }),
        s.show_picker && s.picker_sel < s.layouts.len() ==> watch_model(
            s,
            Key::Enter,
            shift,
            config,
            home,
        ).out == seq![
            says(
                JsonV::Obj(
                    map![
                        "command"@ => JsonV::Str("panebot:layout"@),
                        "layout_name"@ => JsonV::Str(s.layouts[s.picker_sel as int]),
                    ],
                ),
            ),
        ],
        s.show_picker ==> watch_model(s, Key::Esc, shift, config, home).out.len() == 0
            && !watch_model(s, Key::Esc, shift, config, home).app.show_picker,
{
    lemma_name_index(s.layouts, s.layout, i);
    if s.show_picker && s.picker_sel < s.layouts.len() {
        let name = s.layouts[s.picker_sel as int];
        lemma_layout_message(name);
        let m = crate::tui_keys::layout_message(name);
        assert(as_sends(seq![m]) =~= seq![says(m)]);
    }
}

// ---------------------------------------------------------------------------
// The playlist screen
// ---------------------------------------------------------------------------

/// Going through a playlist, and the keys that begin something or leave.
pub proof fn watch_keys_go_through_items(
    s: WatchV,
    shift: bool,
    config: Seq<char>,
    home: Seq<char>,
)
    requires
        s.show_details,
        s.details_mode == WatchMode::Normal,
        s.selected < s.players.len(),
        s.playlist_sel < s.playlist_items.len() <= usize::MAX,
    ensures
        ({
            let n = s.playlist_items.len();
            &&& watch_model(s, Key::Down, shift, config, home).app.playlist_sel == (
            if s.playlist_sel == n - 1 {
                s.playlist_sel as int
            } else {
                s.playlist_sel + 1
            })
            &&& watch_model(s, Key::Up, shift, config, home).app.playlist_sel == (
            if s.playlist_sel == 0 {
                0
            } else {
                s.playlist_sel - 1
            })
            &&& watch_model(s, Key::Char('J'), shift, config, home).app.playlist_sel == n - 1
            &&& !watch_model(s, Key::Esc, shift, config, home).app.show_details
            &&& watch_model(s, Key::Tab, shift, config, home).app.details_mode
                == WatchMode::Command
            &&& watch_model(s, Key::Char('g'), shift, config, home).app.details_mode
                == WatchMode::Jump
            &&& watch_model(s, Key::Char('n'), shift, config, home).app.details_mode
                == WatchMode::Add
            &&& watch_model(s, Key::Char('C'), shift, config, home).work == Some(
                WatchWorkV::Crop {
                    pane: seen(s),
                    pos: s.players[s.selected as int].playlist_pos,
                },
            )
            &&& watch_model(s, Key::Char('q'), shift, config, home).action == KeyAction::Quit
        }),
{
}

/// With the selected item: Enter plays it, `R` takes it out of the file and `S` offers the
/// other panes; the item that is being played is neither taken out nor sent.
pub proof fn watch_keys_act_on_the_item(s: WatchV, shift: bool, config: Seq<char>, home: Seq<char>)
    requires
        s.show_details,
        s.details_mode == WatchMode::Command,
        s.selected < s.players.len(),
    ensures
        ({
            let pane = seen(s);
            let p = s.players[s.selected as int];
            let go = seq![
                says(
                    to_player(pane, "playlist-play-index"@, seq![number(s.playlist_sel as int)]),
                ),
                says(to_set(pane, "pause"@, false)),
            ];
            let play = watch_model(s, Key::Enter, shift, config, home);
            let take = watch_model(s, Key::Char('R'), shift, config, home);
            let send = watch_model(s, Key::Char('S'), shift, config, home);
            &&& !p.idle_active ==> play.out == go
            &&& p.idle_active ==> play.out == seq![
                says(reloads(config, pane)),
                OutMsgV::Wait { ms: 200 },
            ] + go
            &&& p.playlist_pos == s.playlist_sel ==> take.work is None && take.app.status_msg
                == Some("Cannot remove playing item"@)
            &&& p.playlist_pos != s.playlist_sel ==> take.work == Some(
                WatchWorkV::Remove { pane, idx: s.playlist_sel, pos: p.playlist_pos },
            )
            &&& p.playlist_pos == s.playlist_sel ==> send.app.details_mode == s.details_mode
                && send.app.status_msg == Some("Cannot move playing item"@)
            &&& p.playlist_pos != s.playlist_sel && s.players.len() > 1 ==> send.app.details_mode
                == WatchMode::Send && send.app.send_picker_sel == 0
            &&& watch_model(s, Key::Tab, shift, config, home).app.details_mode
                == WatchMode::Normal
        }),
{
    let pane = seen(s);
    lemma_to_player(pane, "playlist-play-index"@, seq![number(s.playlist_sel as int)]);
    lemma_to_set(pane, "pause"@, false);
    lemma_reloads(config, pane);
    let a = to_player(pane, "playlist-play-index"@, seq![number(s.playlist_sel as int)]);
    let b = to_set(pane, "pause"@, false);
    assert(as_sends(seq![a, b]) =~= seq![says(a), says(b)]);
}

/// The panes that an item can be sent to are all but its own, in their order.
pub proof fn other_panes_are_offered(app: &Watch, r: Vec<String>)
    requires
        app.selected < app.players@.len(),
        call_ensures(other_panes, (app,), r),
    ensures
        ({
            let own = app.players@[app.selected as int].name@;
            strs(r@) == player_names(app.view().players).filter(|p: Seq<char>| p != own)
        }),
{
    let own = app.players@[app.selected as int].name@;
    assert(app.view().players[app.selected as int] == app.players@[app.selected as int].view());
    lemma_other_names(player_names(app.view().players), own);
}

proof fn lemma_other_names(names: Seq<Seq<char>>, own: Seq<char>)
    ensures
        other_names(names, Some(own)) == names.filter(|p: Seq<char>| p != own),
    decreases names.len(),
{
    reveal(Seq::filter);
    if names.len() > 0 {
        lemma_other_names(names.drop_last(), own);
    } else {
        assert(other_names(names, Some(own)) =~= names.filter(|p: Seq<char>| p != own));
    }
}

/// The selected item goes to the pane that was picked among the others: it is added there
/// and taken out here.
pub proof fn an_item_is_sent_to_the_picked_pane(
    s: WatchV,
    shift: bool,
    config: Seq<char>,
    home: Seq<char>,
)
    requires
        s.show_details,
        s.details_mode == WatchMode::Send,
        s.selected < s.players.len(),
        s.playlist_sel < s.playlist_items.len(),
        s.players[s.selected as int].playlist_pos != s.playlist_sel,
    ensures
        ({
            let own = seen(s);
            let others = player_names(s.players).filter(|p: Seq<char>| p != own);
            let t = watch_model(s, Key::Enter, shift, config, home);
            &&& s.send_picker_sel < others.len() ==> t.work == Some(
                WatchWorkV::Transfer {
                    target: others[s.send_picker_sel as int],
                    source: own,
                    entry: s.playlist_items[s.playlist_sel as int],
                    idx: s.playlist_sel,
                    pos: s.players[s.selected as int].playlist_pos,
                },
            )
            &&& s.send_picker_sel >= others.len() ==> t.work is None
            &&& t.app.details_mode == WatchMode::Normal
            &&& watch_model(s, Key::Esc, shift, config, home).work is None
            &&& watch_model(s, Key::Esc, shift, config, home).app.details_mode
                == WatchMode::Normal
        }),
{
    lemma_other_names(player_names(s.players), seen(s));
}

/// What is typed for an addition goes to the file of the selected pane, without white
/// space around it and with the home directory for `~`.
pub proof fn watchers_add_entries(s: WatchV, shift: bool, config: Seq<char>, home: Seq<char>)
    requires
        s.show_details,
        s.details_mode == WatchMode::Add,
        s.selected < s.players.len(),
    ensures
        ({
            let t = watch_model(s, Key::Enter, shift, config, home);
            let entry = trimmed(s.add_input);
            &&& entry.len() > 0 ==> t.work == Some(
                WatchWorkV::Append { pane: seen(s), entry: tilde_expanded(entry, home) },
            )
            &&& entry.len() == 0 ==> t.work is None
            &&& t.app.details_mode == WatchMode::Normal
            &&& t.app.add_input.len() == 0
            &&& watch_model(s, Key::Esc, shift, config, home).work is None
            &&& forall|c: char| #[trigger]
                watch_model(s, Key::Char(c), shift, config, home).app.add_input
                    == s.add_input.push(c)
            &&& s.add_comp_sel < s.add_completions.len() ==> watch_model(
                s,
                Key::Tab,
                shift,
                config,
                home,
            ).app.add_input == s.add_completions[s.add_comp_sel as int]
        }),
{
}

/// A typed number selects that item, or the last one where there are not so many.
pub proof fn watchers_jump_to_items(
    s: WatchV,
    shift: bool,
    config: Seq<char>,
    home: Seq<char>,
    n: int,
)
    requires
        s.show_details,
        s.details_mode == WatchMode::Jump,
        s.jump_input == decimal(n),
        0 <= n <= usize::MAX,
        0 < s.playlist_items.len() <= usize::MAX,
    ensures
        watch_model(s, Key::Enter, shift, config, home).app.playlist_sel == (if n
            < s.playlist_items.len() {
            n
        } else {
            s.playlist_items.len() - 1
        }),
        watch_model(s, Key::Enter, shift, config, home).app.details_mode == WatchMode::Normal,
{
    crate::text::lemma_decimal_value(n);
}

// ---------------------------------------------------------------------------
// After the work
// ---------------------------------------------------------------------------

/// A playlist that was opened is shown from the item that the player is at.
pub proof fn watchers_see_the_opened_file(app: &mut Watch, items: Vec<String>, r: ())
    requires
        old(app).selected < old(app).players@.len(),
        0 <= old(app).players@[old(app).selected as int].playlist_pos <= usize::MAX,
        call_ensures(open_done, (app, items), r),
    ensures
        final(app).view() == (WatchV {
            playlist_items: strs(items@),
            playlist_sel: old(app).players@[old(app).selected as int].playlist_pos as usize,
            show_details: true,
            details_mode: WatchMode::Normal,
            status_msg: None,
            ..old(app).view()
        }),
{
    assert(old(app).view().players[old(app).selected as int] == old(app).players@[old(
        app,
    ).selected as int].view());
}

/// After an addition the list is the one that the file holds, and the player is told to
/// load it; where it failed, the list stays and the player is told nothing.
pub proof fn watchers_additions_reach_the_player(
    app: &mut Watch,
    pane: &str,
    config: &str,
    result: Result<Vec<String>, String>,
    r: Vec<Json>,
)
    requires
        call_ensures(append_done, (app, pane, config, result), r),
    ensures
        result matches Ok(items) ==> final(app).view() == (WatchV {
            playlist_items: strs(items@),
            ..old(app).view()
        }) && jsons(r@) == seq![reloads(config@, pane@)],
        result matches Err(e) ==> final(app).view() == (WatchV {
            status_msg: Some("Add failed: "@ + e@),
            ..old(app).view()
        }) && r@.len() == 0,
{
    lemma_reloads(config@, pane@);
    assert(jsons(r@).len() == r@.len());
}

/// After an item was taken out the list is the one that is left, the selection stays
/// inside it, and the player is told to load the file; where it was not taken out, the
/// list stays.
pub proof fn watchers_removals_reach_the_player(
    app: &mut Watch,
    pane: &str,
    config: &str,
    result: Result<Option<Vec<String>>, String>,
    r: Vec<Json>,
)
    requires
        call_ensures(remove_done, (app, pane, config, result), r),
    ensures
        result matches Ok(Some(items)) ==> {
            &&& final(app).view().playlist_items == strs(items@)
            &&& final(app).view().status_msg is None
            &&& jsons(r@) == seq![reloads(config@, pane@)]
            &&& old(app).playlist_sel < items@.len() ==> final(app).playlist_sel == old(
                app,
            ).playlist_sel
            &&& old(app).playlist_sel == items@.len() > 0 ==> final(app).playlist_sel
                == items@.len() - 1
        },
        result matches Ok(None) ==> final(app).view() == (WatchV {
            status_msg: Some("Cannot remove playing item"@),
            ..old(app).view()
        }) && r@.len() == 0,
        result matches Err(e) ==> final(app).view() == (WatchV {
            status_msg: Some("Remove failed: "@ + e@),
            ..old(app).view()
        }) && r@.len() == 0,
{
    lemma_reloads(config@, pane@);
    assert(jsons(r@).len() == r@.len());
    assert(final(app).view().playlist_sel == final(app).playlist_sel);
}

/// After an item was sent the player that got it is told to load its file, and then the one
/// that gave it up, where it did.
pub proof fn watchers_transfers_reach_both_players(
    app: &mut Watch,
    target: &str,
    source: &str,
    config: &str,
    removed: Option<Vec<String>>,
    r: Vec<Json>,
)
    requires
        call_ensures(transfer_done, (app, target, source, config, removed), r),
    ensures
        removed matches Some(items) ==> {
            &&& final(app).view().playlist_items == strs(items@)
            &&& jsons(r@) == seq![reloads(config@, target@), reloads(config@, source@)]
        },
        removed is None ==> final(app).view() == old(app).view() && jsons(r@) == seq![
            reloads(config@, target@),
        ],
{
    lemma_reloads(config@, target@);
    lemma_reloads(config@, source@);
}

/// After a crop the item being played is the list, and the player is told to load the
/// file; where nothing was played, or writing failed, the list stays.
pub proof fn watchers_crops_reach_the_player(
    app: &mut Watch,
    pane: &str,
    config: &str,
    result: Result<Option<Vec<String>>, String>,
    r: Vec<Json>,
)
    requires
        call_ensures(crop_done, (app, pane, config, result), r),
    ensures
        result matches Ok(Some(items)) ==> final(app).view() == (WatchV {
            playlist_items: strs(items@),
            playlist_sel: 0,
            status_msg: None,
            ..old(app).view()
        }) && jsons(r@) == seq![reloads(config@, pane@)],
        result matches Ok(None) ==> final(app).view() == (WatchV {
            status_msg: Some("Nothing playing to crop around"@),
            ..old(app).view()
        }) && r@.len() == 0,
        result matches Err(e) ==> final(app).view() == (WatchV {
            status_msg: Some("Crop failed: "@ + e@),
            ..old(app).view()
        }) && r@.len() == 0,
{
    lemma_reloads(config@, pane@);
    assert(jsons(r@).len() == r@.len());
}

} // verus!
