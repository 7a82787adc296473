//! What the keys of the terminal that edits playlist files are for, and what the files
//! hold afterwards.
use crate::board::board_get;
use crate::console::{
    append_done, as_sends, cmd_start_all, cmd_stop_all, crop_done, handle_key, open_done,
    opt_work, out_views, reload_playlist_cmd, rewrite_done, save_done, turn, Edit, OutMsgV, Turn,
    TurnV, WorkV,
};
use crate::json::{jsons, Json, JsonV};
use crate::key_laws::{
    lemma_layout_message, lemma_name_index, lemma_to_daemon, lemma_to_player, lemma_to_set,
    lemma_told_by, meant, number, sent_for_solo, solo_silences_the_others, the_others_are_muted,
    to_daemon, to_player, to_set, told_by,
};
use crate::keys::{Key, KeyAction};
use crate::node_laws::lemma_obj_one;
use crate::paths::{pane_file_of, tilde_expanded};
use crate::picks::{
    dropped, kept, kept_and_dropped_go_by_the_marks, landing, lemma_toggled, moved,
    moved_items_land_at_the_cursor, part, rising,
};
use crate::protocol::PaneStateV;
use crate::text::{decimal, strs, trimmed};
use crate::tui::{App, AppV, DetailsMode};
use vstd::prelude::*;

verus! {

/// What a key does is what `turn` says.
pub proof fn keys_turn(app: &mut App, k: Key, shift: bool, config: &str, r: Turn)
    requires
        call_ensures(handle_key, (app, k, shift, config), r),
    ensures
        turn(old(app).view(), k, shift, config@) == (TurnV {
            app: final(app).view(),
            action: r.action,
            out: out_views(r.out@),
            work: opt_work(r.work),
        }),
{
}

/// One message.
pub open spec fn says(m: JsonV) -> OutMsgV {
    OutMsgV::Send { message: m }
}

/// The request to load the playlist file of a pane in place of what its player has.
pub open spec fn reloads(config: Seq<char>, pane: Seq<char>) -> JsonV {
    to_player(
        pane,
        "loadlist"@,
        seq![JsonV::Str(pane_file_of(config, pane, ".m3u"@)), JsonV::Str("replace"@)],
    )
}

/// A playlist file is loaded anew in place of what the player has.
pub proof fn files_are_loaded_anew(config: &str, pane: &str, r: Json)
    requires
        call_ensures(reload_playlist_cmd, (config, pane), r),
    ensures
        r.view() == reloads(config@, pane@),
{
    lemma_reloads(config@, pane@);
}

pub proof fn lemma_reloads(config: Seq<char>, pane: Seq<char>)
    ensures
        crate::console::reload_message(config, pane) == reloads(config, pane),
{
    lemma_to_player(
        pane,
        "loadlist"@,
        seq![JsonV::Str(pane_file_of(config, pane, ".m3u"@)), JsonV::Str("replace"@)],
    );
}

// ---------------------------------------------------------------------------
// The playlist screen
// ---------------------------------------------------------------------------

/// A playlist is shown, nothing is typed, keys are for the terminal, and a pane is
/// selected.
pub open spec fn on_file(s: AppV) -> bool {
    s.show_details && s.details_mode == DetailsMode::Normal && !s.command_mode && s.selected
        < s.pane_order.len()
}

pub open spec fn chosen(s: AppV) -> Seq<char> {
    s.pane_order[s.selected as int]
}

/// `D` writes the file without the items that are meant: the others stay in their order.
/// Where the item being played is among those that are meant, nothing is written.
pub proof fn deletion_leaves_the_others(s: AppV, shift: bool, config: Seq<char>, p: PaneStateV) -> (left:
    Seq<int>)
    requires
        on_file(s),
        board_get(s.panes, chosen(s)) == Some(p),
        s.playlist_items.len() <= usize::MAX,
    ensures
        ({
            let playing = p.playlist_pos is Some && p.playlist_pos->0 >= 0 && exists|i: int|
                0 <= i < meant(s).len() && #[trigger] meant(s)[i] == p.playlist_pos->0;
            let t = turn(s, Key::Char('D'), shift, config);
            &&& playing ==> t.work is None && t.out.len() == 0 && t.app == (AppV {
                status_msg: Some("Cannot remove playing item"@),
                ..s
            })
            &&& !playing ==> t.work == Some(
                WorkV::Rewrite {
                    pane: chosen(s),
                    items: left.map_values(|x: int| s.playlist_items[x]),
                    edit: Edit::Delete,
                },
            ) && t.out.len() == 0 && t.app == s
        }),
        forall|i: int, j: int| 0 <= i < j < left.len() ==> left[i] < left[j],
        forall|x: int| #[trigger]
            left.contains(x) <==> 0 <= x < s.playlist_items.len() && !meant(s).contains(x as usize),
{
    let playing = p.playlist_pos is Some && p.playlist_pos->0 >= 0 && exists|i: int|
        0 <= i < meant(s).len() && #[trigger] meant(s)[i] == p.playlist_pos->0;
    if playing {
        let i = choose|i: int|
            0 <= i < meant(s).len() && #[trigger] meant(s)[i] == p.playlist_pos->0;
        assert(crate::tui_keys::targets_of(s)[i] == p.playlist_pos->0);
    }
    let r = kept_and_dropped_go_by_the_marks(s.playlist_items, meant(s));
    assert(dropped(s.playlist_items, meant(s)) =~= r.1.map_values(|x: int| s.playlist_items[x]));
    r.1
}

/// `M` writes the file with the marked items together at the cursor: the unmarked items
/// that stood before it first, then the marked ones, then the other unmarked ones, each
/// part in its old order. Without marks nothing is written.
pub proof fn a_move_takes_the_marked_to_the_cursor(s: AppV, shift: bool, config: Seq<char>) -> (order:
    Seq<int>)
    requires
        on_file(s),
        rising(s.selected_items),
        s.playlist_items.len() <= usize::MAX,
    ensures
        ({
            let t = turn(s, Key::Char('M'), shift, config);
            &&& s.selected_items.len() == 0 ==> t.work is None && t.app.playlist_items
                == s.playlist_items
            &&& s.selected_items.len() > 0 ==> {
                &&& t.work matches Some(WorkV::Rewrite { pane, items, edit }) && pane == chosen(s)
                    && items == order.map_values(|x: int| s.playlist_items[x]) && (
                edit matches Edit::Move(at) && forall|k: int|
                    0 <= k < order.len() ==> (k < at <==> part(
                        #[trigger] order[k],
                        s.selected_items,
                        s.playlist_sel as int,
                    ) == 0))
            }
            &&& t.out.len() == 0
        }),
        order.len() == s.playlist_items.len(),
        forall|k: int| 0 <= k < order.len() ==> 0 <= #[trigger] order[k] < order.len(),
        forall|i: int, j: int|
            0 <= i < j < order.len() ==> ({
                let a = part(#[trigger] order[i], s.selected_items, s.playlist_sel as int);
                let b = part(#[trigger] order[j], s.selected_items, s.playlist_sel as int);
                a < b || (a == b && order[i] < order[j])
            }),
{
    let order = moved_items_land_at_the_cursor(
        s.playlist_items,
        s.selected_items,
        s.playlist_sel as int,
    );
    let m = moved(s.playlist_items, s.selected_items, s.playlist_sel as int);
    assert(m =~= order.map_values(|x: int| s.playlist_items[x]));
    let at = landing(s.playlist_items, s.selected_items, s.playlist_sel as int);
    assert(0 <= at <= s.playlist_items.len()) by {
        crate::picks::kept_and_dropped_are_all(s.playlist_items, s.selected_items);
    }
    order
}

/// `C` writes the file with the marked items only, in their order; without marks the file
/// is cropped to the item being played.
pub proof fn a_crop_keeps_the_marked(s: AppV, shift: bool, config: Seq<char>, p: PaneStateV) -> (left:
    Seq<int>)
    requires
        on_file(s),
        board_get(s.panes, chosen(s)) == Some(p),
        s.playlist_items.len() <= usize::MAX,
    ensures
        ({
            let t = turn(s, Key::Char('C'), shift, config);
            &&& s.selected_items.len() > 0 ==> t.work == Some(
                WorkV::Rewrite {
                    pane: chosen(s),
                    items: left.map_values(|x: int| s.playlist_items[x]),
                    edit: Edit::Crop,
                },
            )
            &&& s.selected_items.len() == 0 ==> t.work == Some(
                WorkV::Crop {
                    pane: chosen(s),
                    pos: if p.playlist_pos is Some {
                        p.playlist_pos->0
                    } else {
                        -1i64
                    },
                },
            )
            &&& t.out.len() == 0
            &&& t.app == s
        }),
        forall|i: int, j: int| 0 <= i < j < left.len() ==> left[i] < left[j],
        forall|x: int| #[trigger]
            left.contains(x) <==> 0 <= x < s.playlist_items.len() && s.selected_items.contains(
                x as usize,
            ),
{
    let r = kept_and_dropped_go_by_the_marks(s.playlist_items, s.selected_items);
    assert(kept(s.playlist_items, s.selected_items) =~= r.0.map_values(
        |x: int| s.playlist_items[x],
    ));
    r.0
}

/// Shift and space play the selected item and let the player go on. A player that has
/// nothing loaded, or of which that is not known, is given its playlist file first and a
/// fifth of a second to take it.
pub proof fn the_selected_item_is_played(s: AppV, config: Seq<char>)
    requires
        on_file(s),
    ensures
        ({
            let pane = chosen(s);
            let go = seq![
                says(
                    to_player(pane, "playlist-play-index"@, seq![number(s.playlist_sel as int)]),
                ),
                says(to_set(pane, "pause"@, false)),
            ];
            let loaded = board_get(s.panes, pane) is Some && board_get(
                s.panes,
                pane,
            )->0.idle_active == Some(false);
            let t = turn(s, Key::Char(' '), true, config);
            &&& loaded ==> t.out == go
            &&& !loaded ==> t.out == seq![
                says(reloads(config, pane)),
                OutMsgV::Wait { ms: 200 },
            ] + go
            &&& t.work is None
            &&& t.app == (AppV { status_msg: None, ..s })
        }),
{
    let pane = chosen(s);
    lemma_to_player(pane, "playlist-play-index"@, seq![number(s.playlist_sel as int)]);
    lemma_to_set(pane, "pause"@, false);
    lemma_reloads(config, pane);
    let a = to_player(pane, "playlist-play-index"@, seq![number(s.playlist_sel as int)]);
    let b = to_set(pane, "pause"@, false);
    assert(as_sends(seq![a, b]) =~= seq![says(a), says(b)]);
}

/// Going through the list, marking, and the keys that begin to type or leave. Only `S`
/// works on the file: it saves what the player has.
pub proof fn file_keys_move_and_mark(s: AppV, config: Seq<char>)
    requires
        on_file(s),
        rising(s.selected_items),
        s.playlist_sel < s.playlist_items.len() <= usize::MAX,
    ensures
        ({
            let down = turn(s, Key::Down, false, config);
            let up = turn(s, Key::Up, false, config);
            let mark = turn(s, Key::Char(' '), false, config);
            let n = s.playlist_items.len();
            let next = if s.playlist_sel == n - 1 {
                s.playlist_sel as int
            } else {
                s.playlist_sel + 1
            };
            &&& down.app.playlist_sel == next
            &&& turn(s, Key::Char('j'), false, config) == down
            &&& up.app.playlist_sel == (if s.playlist_sel == 0 {
                0
            } else {
                s.playlist_sel - 1
            })
            &&& turn(s, Key::Char('k'), false, config) == up
            &&& turn(s, Key::Char('['), false, config).app.playlist_sel == (if s.playlist_sel
                < 10 {
                0
            } else {
                s.playlist_sel - 10
            })
            &&& turn(s, Key::Char(']'), false, config).app.playlist_sel == (if s.playlist_sel + 10
                >= n {
                n - 1
            } else {
                s.playlist_sel + 10
            })
            &&& turn(s, Key::Char('\\'), false, config).app.playlist_sel == n - 1
            &&& mark.app.playlist_sel == next
            &&& mark.work is None && mark.out.len() == 0
            &&& forall|x: usize| #[trigger]
                mark.app.selected_items.contains(x) <==> (if x == s.playlist_sel {
                    !s.selected_items.contains(x)
                } else {
                    s.selected_items.contains(x)
                })
            &&& turn(s, Key::Esc, false, config).app.selected_items.len() == 0
            &&& !turn(s, Key::Enter, false, config).app.show_details
            &&& turn(s, Key::Tab, false, config).app.command_mode
            &&& turn(s, Key::Char('G'), false, config).app.details_mode == DetailsMode::Jump
            &&& turn(s, Key::Char('A'), false, config).app.details_mode == DetailsMode::Add
            &&& turn(s, Key::Char('S'), false, config).work == Some(
                WorkV::Save { pane: chosen(s) },
            )
            &&& turn(s, Key::Char('q'), false, config).action == KeyAction::Quit
        }),
{
    lemma_toggled(s.selected_items, s.playlist_sel);
}

/// What is typed for an addition goes to the file of the selected pane, without white
/// space around it and with the home directory for `~`; nothing typed adds nothing.
pub proof fn typed_entries_go_to_the_file(s: AppV, shift: bool, config: Seq<char>)
    requires
        s.show_details,
        s.details_mode == DetailsMode::Add,
        s.selected < s.pane_order.len(),
    ensures
        ({
            let t = turn(s, Key::Enter, shift, config);
            let entry = trimmed(s.add_input);
            &&& entry.len() > 0 ==> t.work == Some(
                WorkV::Append { pane: chosen(s), entry: tilde_expanded(entry, s.home) },
            )
            &&& entry.len() == 0 ==> t.work is None
            &&& t.out.len() == 0
            &&& t.app.details_mode == DetailsMode::Normal
            &&& t.app.add_input.len() == 0
            &&& t.app.playlist_items == s.playlist_items
        }),
        forall|c: char| #[trigger]
            turn(s, Key::Char(c), shift, config).app.add_input == s.add_input.push(c),
        turn(s, Key::Esc, shift, config).work is None,
{
}

/// A typed number selects that item, or the last one where there are not so many.
pub proof fn typed_numbers_select_items(s: AppV, shift: bool, config: Seq<char>, n: int)
    requires
        s.show_details,
        s.details_mode == DetailsMode::Jump,
        s.jump_input == decimal(n),
        0 <= n <= usize::MAX,
        0 < s.playlist_items.len() <= usize::MAX,
    ensures
        turn(s, Key::Enter, shift, config).app.playlist_sel == (if n < s.playlist_items.len() {
            n
        } else {
            s.playlist_items.len() - 1
        }),
        turn(s, Key::Enter, shift, config).app.details_mode == DetailsMode::Normal,
        turn(s, Key::Enter, shift, config).work is None,
{
    crate::text::lemma_decimal_value(n);
}

/// In command mode the keys drive the selected player, here as on the dashboard.
pub proof fn command_keys_reach_the_player(s: AppV, k: Key, shift: bool, config: Seq<char>)
    requires
        s.command_mode,
        s.details_mode == DetailsMode::Normal,
        s.selected < s.pane_order.len(),
        !s.show_picker,
        k != Key::Char('q'),
        k != Key::Tab,
        s.show_details || (k != Key::Char('W') && k != Key::Enter && k != Key::Char('L') && !(k
            == Key::Char('l') && shift)),
    ensures
        turn(s, k, shift, config).out == told_by(chosen(s), k).map_values(|m: JsonV| says(m)),
        turn(s, k, shift, config).app == s,
        turn(s, k, shift, config).work is None,
{
    lemma_told_by(chosen(s), k);
    let t = told_by(chosen(s), k);
    assert(as_sends(t) =~= t.map_values(|m: JsonV| says(m)));
    assert(turn(s, k, shift, config).out =~= t.map_values(|m: JsonV| says(m)));
}

// ---------------------------------------------------------------------------
// The dashboard
// ---------------------------------------------------------------------------

/// The keys of the dashboard: restart the selected pane or all of them, solo it, mute the
/// others, stop all, start all; Enter opens the playlist file of the selected pane.
pub proof fn home_keys_act_on_panes(s: AppV, shift: bool, config: Seq<char>)
    requires
        !s.show_details,
        !s.show_picker,
        !s.command_mode,
        s.details_mode == DetailsMode::Normal,
        s.selected < s.pane_order.len(),
    ensures
        ({
            let pane = chosen(s);
            let order = s.pane_order;
            &&& turn(s, Key::Char('r'), shift, config).out == seq![
                says(to_daemon("panebot:restart-pane"@, pane)),
            ]
            &&& turn(s, Key::Char('R'), shift, config).out == seq![
                says(JsonV::Obj(map!["command"@ => JsonV::Str("panebot:restart-all"@)])),
            ]
            &&& turn(s, Key::Char('S'), shift, config).out == Seq::new(
                order.len(),
                |i: int| sent_for_solo(order[i], pane),
            ).flatten().map_values(|m: JsonV| says(m))
            &&& turn(s, Key::Char('M'), shift, config).out == order.filter(
                |p: Seq<char>| p != pane,
            ).map_values(|p: Seq<char>| to_set(p, "mute"@, true)).map_values(|m: JsonV| says(m))
            &&& turn(s, Key::Char('X'), shift, config).out == order.map_values(
                |p: Seq<char>| says(to_player(p, "stop"@, Seq::empty())),
            )
            &&& turn(s, Key::Char('P'), shift, config).out == order.map_values(
                |p: Seq<char>| says(to_set(p, "pause"@, false)),
            )
            &&& turn(s, Key::Enter, shift, config).work == Some(WorkV::Open { pane })
            &&& turn(s, Key::Char('q'), shift, config).action == KeyAction::Quit
        }),
{
    let pane = chosen(s);
    let order = s.pane_order;
    lemma_to_daemon("panebot:restart-pane"@, pane);
    lemma_obj_one("command"@, JsonV::Str("panebot:restart-all"@));
    solo_silences_the_others(order, pane);
    the_others_are_muted(order, pane);
    let solo = crate::client::solo_messages(order, pane);
    let mute = crate::client::mute_messages(order, pane);
    assert(as_sends(solo) =~= solo.map_values(|m: JsonV| says(m)));
    assert(as_sends(mute) =~= mute.map_values(|m: JsonV| says(m)));
    let r = to_daemon("panebot:restart-pane"@, pane);
    assert(as_sends(seq![r]) =~= seq![says(r)]);
    let all = JsonV::Obj(map!["command"@ => JsonV::Str("panebot:restart-all"@)]);
    assert(as_sends(seq![all]) =~= seq![says(all)]);
    assert forall|i: int| 0 <= i < order.len() implies crate::console::stop_messages(order)[i]
        == to_player(order[i], "stop"@, Seq::empty()) && crate::client::flag_messages(
        order,
        "pause"@,
        false,
    )[i] == to_set(order[i], "pause"@, false) by {
        lemma_to_player(order[i], "stop"@, Seq::empty());
        lemma_to_set(order[i], "pause"@, false);
    }
    assert(as_sends(crate::console::stop_messages(order)) =~= order.map_values(
        |p: Seq<char>| says(to_player(p, "stop"@, Seq::empty())),
    ));
    let flags = crate::client::flag_messages(order, "pause"@, false);
    let starts = order.map_values(|p: Seq<char>| says(to_set(p, "pause"@, false)));
    assert forall|i: int| 0 <= i < order.len() implies as_sends(flags)[i] == starts[i] by {
        lemma_to_set(order[i], "pause"@, false);
    }
    assert(as_sends(flags) =~= starts);
}

/// Stopping all panes stops each, in order; starting all lets each go on.
pub proof fn all_panes_stop_and_start(order: &Vec<String>, a: Vec<Json>, b: Vec<Json>)
    requires
        call_ensures(cmd_stop_all, (order,), a),
        call_ensures(cmd_start_all, (order,), b),
    ensures
        jsons(a@) == strs(order@).map_values(
            |p: Seq<char>| to_player(p, "stop"@, Seq::empty()),
        ),
        jsons(b@) == strs(order@).map_values(|p: Seq<char>| to_set(p, "pause"@, false)),
{
    let all = strs(order@);
    assert forall|i: int| 0 <= i < all.len() implies jsons(a@)[i] == to_player(
        all[i],
        "stop"@,
        Seq::empty(),
    ) && jsons(b@)[i] == to_set(all[i], "pause"@, false) by {
        lemma_to_player(all[i], "stop"@, Seq::empty());
        lemma_to_set(all[i], "pause"@, false);
    }
    assert(jsons(a@) =~= all.map_values(|p: Seq<char>| to_player(p, "stop"@, Seq::empty())));
    assert(jsons(b@) =~= all.map_values(|p: Seq<char>| to_set(p, "pause"@, false)));
}

/// The layouts are offered from the current one on, and the one that is taken is asked for
/// by its name.
pub proof fn layouts_are_offered_here_too(s: AppV, shift: bool, config: Seq<char>, i: int)
    requires
        !s.show_details,
        s.details_mode == DetailsMode::Normal,
        0 <= i < s.layouts.len() <= usize::MAX,
        s.layouts[i] == s.layout,
        forall|j: int| 0 <= j < i ==> #[trigger] s.layouts[j] != s.layout,
    ensures
        !s.show_picker ==> turn(s, Key::Char('W'), shift, config).app == (AppV {
            show_picker: true,
            picker_sel: i as usize,
            ..s
        }),
        s.show_picker && s.picker_sel < s.layouts.len() ==> turn(s, Key::Enter, shift, config).out
            == seq![
            says(
                JsonV::Obj(
                    map![
                        "command"@ => JsonV::Str("panebot:layout"@),
                        "layout_name"@ => JsonV::Str(s.layouts[s.picker_sel as int]),
                    ],
                ),
            ),
        ],
        s.show_picker ==> turn(s, Key::Esc, shift, config).out.len() == 0 && !turn(
            s,
            Key::Esc,
            shift,
            config,
        ).app.show_picker,
{
    lemma_name_index(s.layouts, s.layout, i);
    if s.show_picker && s.picker_sel < s.layouts.len() {
        let name = s.layouts[s.picker_sel as int];
        lemma_layout_message(name);
        let m = crate::tui_keys::layout_message(name);
        assert(as_sends(seq![m]) =~= seq![says(m)]);
    }
}

// ---------------------------------------------------------------------------
// After the work
// ---------------------------------------------------------------------------

/// A playlist that was opened is shown from the item that the player is at, without marks.
pub proof fn an_opened_file_is_shown(app: &mut App, pane: &str, items: Vec<String>, r: ())
    requires
        call_ensures(open_done, (app, pane, items), r),
    ensures
        strs(final(app).playlist_items@) == strs(items@),
        final(app).show_details,
        final(app).selected_items@.len() == 0,
        board_get(old(app).view().panes, pane@) matches Some(p) ==> (p.playlist_pos matches Some(
            at,
        ) ==> 0 <= at <= usize::MAX ==> final(app).playlist_sel == at),
        board_get(old(app).view().panes, pane@) is None ==> final(app).playlist_sel == 0,
        final(app).selected == old(app).selected,
{
    assert(final(app).view().playlist_items == strs(items@));
    assert(final(app).view().selected_items.len() == 0);
    assert(final(app).view().playlist_sel == final(app).playlist_sel);
    assert(final(app).view().show_details == final(app).show_details);
    assert(final(app).view().selected == final(app).selected);
}

/// After an addition the list is the one that the file holds now, and the player is told
/// to load it; where that failed the list stays and the player is told nothing.
pub proof fn additions_reach_the_player(
    app: &mut App,
    pane: &str,
    config: &str,
    result: Result<Vec<String>, String>,
    r: Vec<Json>,
)
    requires
        call_ensures(append_done, (app, pane, config, result), r),
    ensures
        result matches Ok(items) ==> final(app).view() == (AppV {
            playlist_items: strs(items@),
            ..old(app).view()
        }) && jsons(r@) == seq![reloads(config@, pane@)],
        result matches Err(e) ==> final(app).view() == (AppV {
            status_msg: Some("Add failed: "@ + e@),
            ..old(app).view()
        }) && r@.len() == 0,
{
    lemma_reloads(config@, pane@);
    assert(jsons(r@).len() == r@.len());
}

/// After a deletion, a move or a crop the list is the one that was written, the marks are
/// gone, and the player is told to load the file. The selection stays as near as it can,
/// goes with the moved block, or goes to the only place left. Where writing failed the
/// list and the marks stay, and the player is told nothing.
pub proof fn edits_reach_the_player(
    app: &mut App,
    pane: &str,
    config: &str,
    items: Vec<String>,
    edit: Edit,
    result: Result<(), String>,
    r: Vec<Json>,
)
    requires
        call_ensures(rewrite_done, (app, pane, config, items, edit, result), r),
    ensures
        result is Ok ==> {
            &&& strs(final(app).playlist_items@) == strs(items@)
            &&& final(app).selected_items@.len() == 0
            &&& final(app).status_msg is None
            &&& jsons(r@) == seq![reloads(config@, pane@)]
            &&& edit == Edit::Crop ==> final(app).playlist_sel == 0
            &&& edit matches Edit::Move(at) ==> final(app).playlist_sel == at
            &&& edit == Edit::Delete && old(app).playlist_sel < items@.len()
                ==> final(app).playlist_sel == old(app).playlist_sel
            &&& edit == Edit::Delete && old(app).playlist_sel >= items@.len() > 0
                ==> final(app).playlist_sel == items@.len() - 1
        },
        result matches Err(e) ==> {
            &&& r@.len() == 0
            &&& final(app).view() == (AppV {
                status_msg: Some(
                    (if edit == Edit::Delete {
                        "Delete failed: "@
                    } else if edit == Edit::Crop {
                        "Crop failed: "@
                    } else {
                        "Move failed: "@
                    }) + e@,
                ),
                ..old(app).view()
            })
        },
{
    lemma_reloads(config@, pane@);
    assert(jsons(r@).len() == r@.len());
    if result is Ok {
        let v = final(app).view();
        assert(v.playlist_items == strs(final(app).playlist_items@));
        assert(v.selected_items == final(app).selected_items@);
        assert(v.playlist_sel == final(app).playlist_sel);
        assert(v.status_msg == crate::text::opt(final(app).status_msg));
    }
}

/// After a crop to the item being played that item is the list, and the player is told to
/// load the file; where nothing was played, or writing failed, the list stays.
pub proof fn crops_reach_the_player(
    app: &mut App,
    pane: &str,
    config: &str,
    result: Result<Option<Vec<String>>, String>,
    r: Vec<Json>,
)
    requires
        call_ensures(crop_done, (app, pane, config, result), r),
    ensures
        result matches Ok(Some(items)) ==> final(app).view() == (AppV {
            playlist_items: strs(items@),
            playlist_sel: 0,
            status_msg: None,
            ..old(app).view()
        }) && jsons(r@) == seq![reloads(config@, pane@)],
        result matches Ok(None) ==> final(app).view() == (AppV {
            status_msg: Some("Nothing playing to crop around"@),
            ..old(app).view()
        }) && r@.len() == 0,
        result matches Err(e) ==> final(app).view() == (AppV {
            status_msg: Some("Crop failed: "@ + e@),
            ..old(app).view()
        }) && r@.len() == 0,
{
    lemma_reloads(config@, pane@);
    assert(jsons(r@).len() == r@.len());
}

/// After a save the list is what the file holds, and the number of saved items is shown.
pub proof fn saves_are_reported(
    app: &mut App,
    result: Result<(usize, Vec<String>), String>,
    r: (),
)
    requires
        call_ensures(save_done, (app, result), r),
    ensures
        result matches Ok((n, items)) ==> final(app).view() == (AppV {
            playlist_items: strs(items@),
            status_msg: Some("Saved "@ + decimal(n as int) + " items"@),
            ..old(app).view()
        }),
        result matches Err(e) ==> final(app).view() == (AppV {
            status_msg: Some("Save failed: "@ + e@),
            ..old(app).view()
        }),
{
}

} // verus!
