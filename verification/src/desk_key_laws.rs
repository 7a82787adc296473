//! What the keys of a desk are for, and how its panes are read, placed and started.
use crate::desk::{
    desk_item_views, desk_panes_of, desk_views, expand_input, fetch_playlist, geometry_text,
    launch_pane, listed_panes, load_layout, load_listed_panes, load_panes, pane_mpv_conf,
    pane_playlist_file, pane_socket, query_mpv, refresh_pane, resolve_geometry, slot_geometry,
    sync_m3u_from_mpv, tile_geo, type_flags, DeskItem, DeskPane, DeskPaneV, Slots,
};
use crate::desk_keys::{
    add_entries, dashboard_key, is_stream, op_views, playlist_completed, playlist_key,
    playlist_step, relaunch_step, send_item, DashMove, DashboardState, DeskOp, DeskOpV,
    PlaylistState, PlaylistV, RelaunchMove,
};
use crate::ini::{ini_of, last_value, SectionV};
use crate::json::{at, parsed, JsonV};
use crate::keys::Key;
use crate::names::display_of;
use crate::text::{decimal, lines, opt, strs, trimmed, words};
use vstd::prelude::*;

verus! {

// ---------------------------------------------------------------------------
// The dashboard
// ---------------------------------------------------------------------------

/// One command for a player.
pub open spec fn orders(pane: int, args: Seq<Seq<char>>) -> Seq<DeskOpV> {
    seq![DeskOpV::Cmd { pane, args }]
}

/// Without command mode, up and down select panes and stop at the ends, Enter opens the
/// playlist, Tab turns command mode on, `q` quits, and no player is told anything.
pub proof fn desk_keys_select_panes(
    dash: &mut DashboardState,
    offline: bool,
    count: usize,
    k: Key,
    r: (DashMove, Vec<DeskOp>),
)
    requires
        !old(dash).cmd_mode,
        old(dash).cursor < count,
        call_ensures(dashboard_key, (dash, offline, count, k), r),
    ensures
        r.1@.len() == 0,
        k == Key::Down || k == Key::Char('j') ==> final(dash).cursor == (if old(dash).cursor
            == count - 1 {
            old(dash).cursor as int
        } else {
            old(dash).cursor + 1
        }) && r.0 == DashMove::Stay,
        k == Key::Up || k == Key::Char('k') ==> final(dash).cursor == (if old(dash).cursor == 0 {
            0
        } else {
            old(dash).cursor - 1
        }) && r.0 == DashMove::Stay,
        k == Key::Enter ==> r.0 == DashMove::Open && final(dash).cursor == old(dash).cursor,
        k == Key::Tab ==> final(dash).cmd_mode && final(dash).cursor == old(dash).cursor,
        k == Key::Char('q') <==> r.0 == DashMove::Quit,
{
    assert(op_views(r.1@).len() == r.1@.len());
}

/// In command mode the keys drive the selected player: space pauses, `m` mutes, `n` and
/// `N` go to the next and the previous item, `=` and `-` make it louder and quieter, right
/// and left go ten seconds on and back, up a minute on, `F` fills the screen. `R` starts
/// the player anew, and a player that does not run gets nothing else.
pub proof fn desk_keys_drive_the_player(
    dash: &mut DashboardState,
    offline: bool,
    count: usize,
    k: Key,
    r: (DashMove, Vec<DeskOp>),
)
    requires
        old(dash).cmd_mode,
        old(dash).cursor < count,
        call_ensures(dashboard_key, (dash, offline, count, k), r),
    ensures
        ({
            let p = old(dash).cursor as int;
            let ops = op_views(r.1@);
            &&& r.0 == DashMove::Stay
            &&& final(dash).cursor == old(dash).cursor
            &&& k == Key::Char('R') ==> ops == seq![DeskOpV::Relaunch { pane: p, quit: !offline }]
            &&& k == Key::Tab ==> ops.len() == 0 && !final(dash).cmd_mode
            &&& offline && k != Key::Char('R') ==> ops.len() == 0
            &&& !offline ==> {
                &&& k == Key::Char(' ') ==> ops == orders(p, seq!["cycle"@, "pause"@])
                &&& k == Key::Char('m') ==> ops == orders(p, seq!["cycle"@, "mute"@])
                &&& k == Key::Char('n') ==> ops == orders(p, seq!["playlist-next"@])
                &&& k == Key::Char('N') ==> ops == orders(p, seq!["playlist-prev"@])
                &&& k == Key::Char('=') ==> ops == orders(p, seq!["add"@, "volume"@, "5"@])
                &&& k == Key::Char('-') ==> ops == orders(p, seq!["add"@, "volume"@, "-5"@])
                &&& k == Key::Right ==> ops == orders(p, seq!["seek"@, "10"@])
                &&& k == Key::Left ==> ops == orders(p, seq!["seek"@, "-10"@])
                &&& k == Key::Up ==> ops == orders(p, seq!["seek"@, "60"@])
                &&& k == Key::Char('F') ==> ops == orders(p, seq!["cycle"@, "fullscreen"@])
            }
        }),
{
}

/// A pane that was up and went down is started anew, but not within ten seconds of the
/// last time that it was.
pub proof fn lost_panes_are_relaunched(
    dash: &mut DashboardState,
    idx: usize,
    was_active: bool,
    offline: bool,
    now: u64,
    r: bool,
)
    requires
        call_ensures(DashboardState::should_relaunch, (dash, idx, was_active, offline, now), r),
    ensures
        r ==> was_active && offline,
        was_active && offline && !old(dash).marks().contains_key(idx) ==> r,
        was_active && offline && old(dash).marks().contains_key(idx) ==> (r <==> now
            >= old(dash).marks()[idx] + 10000),
        r ==> final(dash).marks() == old(dash).marks().insert(idx, now),
        !r ==> final(dash).marks() == old(dash).marks(),
{
}

/// A player that is started anew is waited for to go, twenty times at most.
pub proof fn old_players_are_waited_for(alive: bool, waits: u32, r: RelaunchMove)
    requires
        call_ensures(relaunch_step, (alive, waits), r),
    ensures
        !alive ==> r == RelaunchMove::Start,
        alive && waits < 20 ==> r == (RelaunchMove::Wait { waits: (waits + 1) as u32 }),
        alive && waits >= 20 ==> r == RelaunchMove::Start,
{
}

// ---------------------------------------------------------------------------
// The playlist screen
// ---------------------------------------------------------------------------

/// What a key does on the playlist screen is what `playlist_step` says.
pub proof fn playlist_keys_step(
    pl: &mut PlaylistState,
    pane: usize,
    count: usize,
    stream: bool,
    k: Key,
    r: (bool, Vec<DeskOp>),
)
    requires
        call_ensures(playlist_key, (pl, pane, count, stream, k), r),
    ensures
        (final(pl).view(), r.0, op_views(r.1@)) == playlist_step(
            old(pl).view(),
            pane as int,
            count as int,
            stream,
            k,
        ),
{
}

/// Nothing is typed and nothing is picked.
pub open spec fn at_rest(s: PlaylistV) -> bool {
    !s.add_input && !s.move_input && !s.send_pane_select && !s.item_cmd
}

/// Going through the items, and the keys that begin something: Tab to do something with
/// the selected item, `n` to add, `c` to clear the list, Backspace to leave.
pub proof fn playlist_keys_go_through_items(s: PlaylistV, pane: int, count: int, stream: bool)
    requires
        at_rest(s),
        s.cursor < s.items.len() <= usize::MAX,
    ensures
        ({
            let down = playlist_step(s, pane, count, stream, Key::Down);
            let up = playlist_step(s, pane, count, stream, Key::Up);
            &&& down.0 == (PlaylistV {
                cursor: if s.cursor == s.items.len() - 1 {
                    s.cursor
                } else {
                    (s.cursor + 1) as usize
                },
                ..s
            })
            &&& up.0 == (PlaylistV {
                cursor: if s.cursor == 0 {
                    0
                } else {
                    (s.cursor - 1) as usize
                },
                ..s
            })
            &&& !down.1 && !up.1 && down.2.len() == 0 && up.2.len() == 0
            &&& playlist_step(s, pane, count, stream, Key::Char('j')) == down
            &&& playlist_step(s, pane, count, stream, Key::Char('k')) == up
            &&& playlist_step(s, pane, count, stream, Key::Tab).0.item_cmd
            &&& playlist_step(s, pane, count, stream, Key::Char('n')).0.add_input
            &&& playlist_step(s, pane, count, stream, Key::Char('n')).0.add_buf.len() == 0
            &&& playlist_step(s, pane, count, stream, Key::Char('c')).2 == orders(
                pane,
                seq!["playlist-clear"@],
            )
            &&& playlist_step(s, pane, count, stream, Key::Backspace).1
            &&& !playlist_step(s, pane, count, stream, Key::Char('c')).1
        }),
{
}

/// With the selected item: Enter plays it, `r` removes it from the player and has the file
/// written anew, `m` asks where it is to go, and `s` to which pane.
pub proof fn the_selected_item_is_acted_on(s: PlaylistV, pane: int, count: int, stream: bool)
    requires
        s.item_cmd,
        !s.add_input && !s.move_input && !s.send_pane_select,
        s.cursor < s.items.len(),
    ensures
        ({
            let at = decimal(s.items[s.cursor as int].index);
            &&& playlist_step(s, pane, count, stream, Key::Enter).2 == orders(
                pane,
                seq!["set_property"@, "playlist-pos"@, at],
            )
            &&& playlist_step(s, pane, count, stream, Key::Char('r')).2 == seq![
                DeskOpV::Cmd { pane, args: seq!["playlist-remove"@, at] },
                DeskOpV::Sync { pane },
            ]
            &&& !playlist_step(s, pane, count, stream, Key::Enter).0.item_cmd
            &&& !playlist_step(s, pane, count, stream, Key::Char('r')).0.item_cmd
            &&& playlist_step(s, pane, count, stream, Key::Char('m')).0.move_input
            &&& playlist_step(s, pane, count, stream, Key::Char('s')).0.send_pane_select
            &&& playlist_step(s, pane, count, stream, Key::Char('m')).2.len() == 0
            &&& playlist_step(s, pane, count, stream, Key::Char('s')).2.len() == 0
            &&& count >= 2 && 0 <= pane < count ==> playlist_step(
                s,
                pane,
                count,
                stream,
                Key::Char('s'),
            ).0.send_pane_cursor != pane
            &&& !playlist_step(s, pane, count, stream, Key::Tab).0.item_cmd
        }),
{
}

/// A typed number moves the selected item to that place, and the file is written anew.
pub proof fn typed_places_move_items(s: PlaylistV, pane: int, count: int, stream: bool, n: int)
    requires
        s.move_input,
        !s.add_input,
        s.cursor < s.items.len(),
        s.move_buf == decimal(n),
        0 <= n <= usize::MAX,
    ensures
        playlist_step(s, pane, count, stream, Key::Enter).2 == seq![
            DeskOpV::Cmd {
                pane,
                args: seq![
                    "playlist-move"@,
                    decimal(s.items[s.cursor as int].index),
                    decimal(n),
                ],
            },
            DeskOpV::Sync { pane },
        ],
        !playlist_step(s, pane, count, stream, Key::Enter).0.move_input,
        playlist_step(s, pane, count, stream, Key::Esc).2.len() == 0,
        forall|c: char|
            '0' <= c <= '9' ==> (#[trigger] playlist_step(
                s,
                pane,
                count,
                stream,
                Key::Char(c),
            )).0.move_buf == s.move_buf.push(c),
{
    crate::text::lemma_decimal_value(n);
}

/// The pane that an item is sent to is picked with up and down and taken with Enter; the
/// pane that it comes from is no target.
pub proof fn targets_are_picked(s: PlaylistV, pane: int, count: int, stream: bool)
    requires
        s.send_pane_select,
        !s.add_input && !s.move_input,
        s.cursor < s.items.len(),
        s.send_pane_cursor < count <= usize::MAX,
    ensures
        ({
            let take = playlist_step(s, pane, count, stream, Key::Enter);
            let down = playlist_step(s, pane, count, stream, Key::Down);
            let up = playlist_step(s, pane, count, stream, Key::Up);
            &&& s.send_pane_cursor != pane ==> take.2 == seq![
                DeskOpV::SendItem {
                    from: pane,
                    to: s.send_pane_cursor as int,
                    index: s.items[s.cursor as int].index,
                },
            ]
            &&& s.send_pane_cursor == pane ==> take.2.len() == 0
            &&& !take.0.send_pane_select
            &&& down.0.send_pane_cursor == (if s.send_pane_cursor == count - 1 {
                s.send_pane_cursor as int
            } else {
                s.send_pane_cursor + 1
            })
            &&& up.0.send_pane_cursor == (if s.send_pane_cursor == 0 {
                0
            } else {
                s.send_pane_cursor - 1
            })
            &&& playlist_step(s, pane, count, stream, Key::Esc).2.len() == 0
            &&& !playlist_step(s, pane, count, stream, Key::Esc).0.send_pane_select
        }),
{
}

/// What is typed for an addition is added without white space around it: as it is for
/// streams, and else as the files that it stands for. Nothing typed adds nothing.
pub proof fn typed_entries_are_added_to_the_pane(s: PlaylistV, pane: int, count: int, stream: bool)
    requires
        s.add_input,
    ensures
        ({
            let take = playlist_step(s, pane, count, stream, Key::Enter);
            &&& trimmed(s.add_buf).len() > 0 ==> take.2 == seq![
                DeskOpV::Add { pane, input: trimmed(s.add_buf), as_is: stream },
            ]
            &&& trimmed(s.add_buf).len() == 0 ==> take.2.len() == 0
            &&& !take.0.add_input && take.0.add_buf.len() == 0
            &&& playlist_step(s, pane, count, stream, Key::Esc).2.len() == 0
            &&& forall|c: char| #[trigger]
                playlist_step(s, pane, count, stream, Key::Char(c)).0.add_buf == s.add_buf.push(c)
        }),
{
}

/// Entries that are added go to the end of the playlist file, each on a line of its own,
/// and to the end of the player's list, in the same order.
pub proof fn added_entries_go_to_file_and_player(
    pane: usize,
    files: &Vec<String>,
    r: (String, Vec<DeskOp>),
)
    requires
        forall|i: int| 0 <= i < files@.len() ==> !(#[trigger] files@[i])@.contains('\n'),
        forall|i: int|
            0 <= i < files@.len() ==> ((#[trigger] files@[i])@.len() == 0 || files@[i]@.last()
                != '\r'),
        call_ensures(add_entries, (pane, files), r),
    ensures
        lines(r.0@) == strs(files@),
        op_views(r.1@) == strs(files@).map_values(
            |f: Seq<char>|
                DeskOpV::Cmd { pane: pane as int, args: seq!["loadfile"@, f, "append-play"@] },
        ),
{
    let all = strs(files@);
    assert forall|i: int| 0 <= i < all.len() implies !(#[trigger] all[i]).contains('\n') && (
    all[i].len() == 0 || all[i].last() != '\r') by {
        assert(!files@[i]@.contains('\n'));
    }
    crate::playlist_laws::lemma_item_lines(all);
    assert(op_views(r.1@) =~= all.map_values(
        |f: Seq<char>|
            DeskOpV::Cmd { pane: pane as int, args: seq!["loadfile"@, f, "append-play"@] },
    ));
}

/// An item that is sent goes to the end of the other player's list and leaves its own; the
/// file of the pane that it left is written anew. Where its source is not known, nothing
/// is done.
pub proof fn sent_items_change_panes(
    pl: &mut PlaylistState,
    from: usize,
    to: usize,
    index: usize,
    path: Option<String>,
    r: Vec<DeskOp>,
)
    requires
        call_ensures(send_item, (pl, from, to, index, path), r),
    ensures
        path matches Some(p) ==> op_views(r@) == seq![
            DeskOpV::Cmd { pane: to as int, args: seq!["loadfile"@, p@, "append-play"@] },
            DeskOpV::Cmd {
                pane: from as int,
                args: seq!["playlist-remove"@, decimal(index as int)],
            },
            DeskOpV::Sync { pane: from as int },
        ],
        path is None ==> r@.len() == 0 && final(pl).view() == old(pl).view(),
{
    assert(op_views(r@).len() == r@.len());
}

/// The entries of these types of panes are streams.
pub proof fn some_types_stream(pane_type: &str, r: bool)
    requires
        call_ensures(is_stream, (pane_type,), r),
    ensures
        r <==> pane_type@ == "HTTP"@ || pane_type@ == "YTDLP"@ || pane_type@ == "RTSP"@,
{
}

// ---------------------------------------------------------------------------
// Panes
// ---------------------------------------------------------------------------

/// Each section of the panes file that gives a socket is a pane, in order: of the type
/// that it gives or else a video pane, with its slot, its geometry and its playlist, where
/// a dash stands for none and `~` for the home directory.
pub proof fn sections_with_a_socket_are_panes(content: &str, home: &str, r: Vec<DeskPane>)
    requires
        call_ensures(load_panes, (Some(content), home), r),
    ensures
        ({
            let with = ini_of(lines(content@)).sections.filter(
                |s: SectionV| last_value(s.pairs, "socket"@) is Some,
            );
            &&& r@.len() == with.len()
            &&& forall|i: int|
                0 <= i < with.len() ==> described(with[i], home@, (#[trigger] r@[i]).view())
        }),
{
    let all = ini_of(lines(content@)).sections;
    lemma_described(all, home@);
    let v = desk_views(r@);
    assert(v.len() == r@.len());
    let with = all.filter(|s: SectionV| last_value(s.pairs, "socket"@) is Some);
    assert forall|i: int| 0 <= i < with.len() implies described(
        with[i],
        home@,
        (#[trigger] r@[i]).view(),
    ) by {
        assert(v[i] == r@[i].view());
    }
}

/// The value of a key, where it is given and no dash.
pub open spec fn given(s: SectionV, key: Seq<char>) -> Option<Seq<char>> {
    if last_value(s.pairs, key) == Some("-"@) {
        None
    } else {
        last_value(s.pairs, key)
    }
}

/// A path with the home directory in place of a leading `~`.
pub open spec fn at_home(path: Seq<char>, home: Seq<char>) -> Seq<char> {
    if path.len() > 0 && path[0] == '~' {
        home + path.skip(1)
    } else {
        path
    }
}

/// The pane is the one that the section describes, and its player has not been seen.
pub open spec fn described(s: SectionV, home: Seq<char>, p: DeskPaneV) -> bool {
    &&& p.name == s.name
    &&& last_value(s.pairs, "socket"@) is Some
    &&& p.socket == at_home(last_value(s.pairs, "socket"@)->0, home)
    &&& last_value(s.pairs, "type"@) matches Some(t) ==> p.pane_type == t
    &&& last_value(s.pairs, "type"@) is None ==> p.pane_type == "VIDEO"@
    &&& p.slot == given(s, "slot"@)
    &&& p.geometry == given(s, "geometry"@)
    &&& given(s, "playlist"@) matches Some(l) ==> p.playlist == Some(at_home(l, home))
    &&& given(s, "playlist"@) is None ==> p.playlist is None
    &&& p.status == "Offline"@
}

proof fn lemma_described(all: Seq<SectionV>, home: Seq<char>)
    ensures
        ({
            let with = all.filter(|s: SectionV| last_value(s.pairs, "socket"@) is Some);
            &&& desk_panes_of(all, home).len() == with.len()
            &&& forall|i: int|
                0 <= i < with.len() ==> described(
                    with[i],
                    home,
                    #[trigger] desk_panes_of(all, home)[i],
                )
        }),
    decreases all.len(),
{
    reveal(Seq::filter);
    if all.len() > 0 {
        let front = all.drop_last();
        lemma_described(front, home);
        let before = front.filter(|s: SectionV| last_value(s.pairs, "socket"@) is Some);
        let with = all.filter(|s: SectionV| last_value(s.pairs, "socket"@) is Some);
        assert forall|i: int| 0 <= i < with.len() implies described(
            with[i],
            home,
            #[trigger] desk_panes_of(all, home)[i],
        ) by {
            if i < before.len() {
                assert(desk_panes_of(all, home)[i] == desk_panes_of(front, home)[i]);
                assert(with[i] == before[i]);
            }
        }
    }
}

/// A pane's window goes where its slot is, by the last section of the layout that gives
/// that slot a geometry; where the layout has no such slot, where the pane itself says.
pub proof fn windows_go_to_their_slot(
    content: &str,
    slots: Slots,
    pane: &DeskPane,
    s: &Slots,
    r: Option<String>,
    i: int,
    g: Seq<char>,
)
    requires
        call_ensures(load_layout, (Some(content),), slots),
        *s == slots,
        call_ensures(resolve_geometry, (pane, s), r),
    ensures
        ({
            let all = ini_of(lines(content@)).sections;
            pane.slot matches Some(name) ==> {
                &&& 0 <= i < all.len() && all[i].name == name@ && last_value(
                    all[i].pairs,
                    "geometry"@,
                ) == Some(g) && (forall|j: int|
                    i < j < all.len() ==> (#[trigger] all[j]).name != name@ || last_value(
                        all[j].pairs,
                        "geometry"@,
                    ) is None) ==> opt(r) == Some(g)
                &&& (forall|j: int|
                    0 <= j < all.len() ==> (#[trigger] all[j]).name != name@) ==> opt(r) == opt(
                    pane.geometry,
                )
            }
        }),
        pane.slot is None ==> opt(r) == opt(pane.geometry),
{
    let all = ini_of(lines(content@)).sections;
    if let Some(name) = pane.slot {
        if 0 <= i < all.len() && all[i].name == name@ && last_value(all[i].pairs, "geometry"@)
            == Some(g) && (forall|j: int|
            i < j < all.len() ==> (#[trigger] all[j]).name != name@ || last_value(
                all[j].pairs,
                "geometry"@,
            ) is None) {
            lemma_slot(all, name@, i, g);
        }
        if forall|j: int| 0 <= j < all.len() ==> (#[trigger] all[j]).name != name@ {
            lemma_no_slot(all, name@);
        }
    }
}

proof fn lemma_slot(all: Seq<SectionV>, name: Seq<char>, i: int, g: Seq<char>)
    requires
        0 <= i < all.len(),
        all[i].name == name,
        last_value(all[i].pairs, "geometry"@) == Some(g),
        forall|j: int|
            i < j < all.len() ==> (#[trigger] all[j]).name != name || last_value(
                all[j].pairs,
                "geometry"@,
            ) is None,
    ensures
        slot_geometry(all, name) == Some(g),
    decreases all.len(),
{
    if i < all.len() - 1 {
        let front = all.drop_last();
        assert(all[all.len() - 1].name != name || last_value(
            all[all.len() - 1].pairs,
            "geometry"@,
        ) is None);
        assert forall|j: int| i < j < front.len() implies (#[trigger] front[j]).name != name
            || last_value(front[j].pairs, "geometry"@) is None by {
            assert(front[j] == all[j]);
        }
        lemma_slot(front, name, i, g);
    }
}

proof fn lemma_no_slot(all: Seq<SectionV>, name: Seq<char>)
    requires
        forall|j: int| 0 <= j < all.len() ==> (#[trigger] all[j]).name != name,
    ensures
        slot_geometry(all, name) is None,
    decreases all.len(),
{
    if all.len() > 0 {
        let front = all.drop_last();
        assert(all[all.len() - 1].name != name);
        assert forall|j: int| 0 <= j < front.len() implies (#[trigger] front[j]).name != name by {
            assert(front[j] == all[j]);
        }
        lemma_no_slot(front, name);
    }
}

/// A player starts on its pane's socket, paused and muted, with the flags of its pane's
/// type, its configuration where there is one, its place where it has one, and its
/// playlist or else waiting.
pub proof fn desk_players_start_quietly(
    pane: &DeskPane,
    slots: &Slots,
    conf: Option<String>,
    playlist: Option<String>,
    r: Vec<String>,
    t: &str,
    flags: Vec<String>,
    place: Option<String>,
)
    requires
        t@ == pane.pane_type@,
        call_ensures(type_flags, (t,), flags),
        call_ensures(resolve_geometry, (pane, slots), place),
        call_ensures(launch_pane, (pane, slots, conf, playlist), r),
    ensures
        strs(r@) == seq![
            "--input-ipc-server="@ + pane.socket@,
            "--really-quiet"@,
            "--pause"@,
            "--mute=yes"@,
        ] + strs(flags@) + (if conf is Some {
            seq!["--include="@ + conf->0@]
        } else {
            Seq::empty()
        }) + (if place is Some {
            seq!["--geometry="@ + place->0@]
        } else {
            Seq::empty()
        }) + seq![
            if playlist is Some {
                playlist->0@
            } else {
                "--idle=yes"@
            },
        ],
{
    let base = seq![
        "--input-ipc-server="@ + pane.socket@,
        "--really-quiet"@,
        "--pause"@,
        "--mute=yes"@,
    ] + strs(flags@);
    let a = if conf is Some {
        seq!["--include="@ + conf->0@]
    } else {
        Seq::empty()
    };
    let b = if place is Some {
        seq!["--geometry="@ + place->0@]
    } else {
        Seq::empty()
    };
    assert(opt(place) == crate::desk::geometry_of(pane.view(), slots.sections()));
    let last = seq![
        if playlist is Some {
            playlist->0@
        } else {
            "--idle=yes"@
        },
    ];
    assert(strs(r@) =~= base + a + b + last);
}

/// Each type has its flags: sound alone without a picture, streams with their format or
/// their transport.
pub proof fn types_have_flags(t: &str, r: Vec<String>)
    requires
        call_ensures(type_flags, (t,), r),
    ensures
        t@ == "AUDIO"@ ==> strs(r@) == seq![
            "--vid=no"@,
            "--force-window=yes"@,
            "--keep-open=yes"@,
        ],
        t@ == "YTDLP"@ ==> strs(r@) == seq![
            "--force-window=yes"@,
            "--keep-open=yes"@,
            "--ytdl-format=bestvideo+bestaudio"@,
        ],
        t@ == "RTSP"@ ==> strs(r@) == seq![
            "--force-window=yes"@,
            "--keep-open=yes"@,
            "--rtsp-transport=tcp"@,
        ],
        t@ == "VIDEO"@ || t@ == "HTTP"@ ==> strs(r@) == seq![
            "--force-window=yes"@,
            "--keep-open=yes"@,
        ],
{
    reveal_strlit("AUDIO");
    reveal_strlit("audio");
    reveal_strlit("YTDLP");
    reveal_strlit("ytdlp");
    reveal_strlit("RTSP");
    reveal_strlit("rtsp");
    reveal_strlit("VIDEO");
    reveal_strlit("HTTP");
    assert("AUDIO"@.len() == 5 && "audio"@.len() == 5 && "YTDLP"@.len() == 5 && "ytdlp"@.len() == 5
        && "RTSP"@.len() == 4 && "rtsp"@.len() == 4 && "VIDEO"@.len() == 5 && "HTTP"@.len() == 4);
    assert("AUDIO"@[0] == 'A' && "audio"@[0] == 'a' && "YTDLP"@[0] == 'Y' && "ytdlp"@[0] == 'y'
        && "RTSP"@[0] == 'R' && "rtsp"@[0] == 'r' && "VIDEO"@[0] == 'V' && "HTTP"@[0] == 'H');
}

/// What is known of a pane is what its player answered: it plays where it says that it is
/// not paused; a player that does not answer is offline.
pub proof fn panes_are_as_their_players_say(
    pane: &mut DeskPane,
    alive: bool,
    pause: Option<String>,
    mute: Option<String>,
    volume: i64,
    title: Option<String>,
    r: (),
)
    requires
        call_ensures(refresh_pane, (pane, alive, pause, mute, volume, title), r),
    ensures
        !alive ==> final(pane).view().status == "Offline"@,
        alive && opt(pause) == Some("no"@) ==> final(pane).view().status == "Playing"@,
        alive && opt(pause) != Some("no"@) ==> final(pane).view().status == "Stopped"@,
        alive ==> final(pane).view().muted == (opt(mute) == Some("yes"@)),
        alive ==> final(pane).view().volume == volume,
        alive && title is Some ==> final(pane).view().title == title->0@,
        final(pane).view().name == old(pane).view().name,
        final(pane).view().socket == old(pane).view().socket,
        final(pane).view().pane_type == old(pane).view().pane_type,
        final(pane).view().playlist == old(pane).view().playlist,
{
}

/// A window is tiled beside another at the other's right edge and on its height, and below
/// another at its lower edge and its left; it has the size that it is given.
pub proof fn windows_are_tiled(
    prev: &str,
    w: int,
    h: int,
    x: int,
    y: int,
    width: u32,
    height: u32,
    beside: String,
    below: String,
)
    requires
        0 < w <= u32::MAX,
        0 <= h <= u32::MAX,
        0 <= x <= u32::MAX,
        0 <= y <= u32::MAX,
        width > 0,
        prev@ == decimal(w) + "x"@ + decimal(h) + "+"@ + decimal(x) + "+"@ + decimal(y),
        call_ensures(tile_geo, (prev, width, height, true), beside),
        call_ensures(tile_geo, (prev, width, height, false), below),
    ensures
        beside@ == decimal(width as int) + "x"@ + decimal(height as int) + "+"@ + decimal(x + w)
            + "+"@ + decimal(y),
        below@ == decimal(width as int) + "x"@ + decimal(height as int) + "+"@ + decimal(x) + "+"@
            + decimal(y + h),
{
    crate::desk_laws::geometries_are_read_back(w, h, x, y);
    assert(prev@ == geometry_text(w, h, x, y));
}

// ---------------------------------------------------------------------------
// Answers of players
// ---------------------------------------------------------------------------

/// What a player answers to a question is the text of its first success; what comes before
/// that is passed over.
pub proof fn the_first_success_is_the_answer(
    ls: &Vec<String>,
    r: Option<String>,
    i: int,
    m: JsonV,
)
    requires
        0 <= i < ls@.len(),
        parsed(ls@[i]@) == Some(m),
        at(m, "error"@) == JsonV::Str("success"@),
        forall|j: int|
            0 <= j < i ==> parsed((#[trigger] ls@[j])@) is Some && at(
                parsed(ls@[j]@)->0,
                "error"@,
            ) != JsonV::Str("success"@),
        call_ensures(query_mpv, (ls,), r),
    ensures
        at(m, "data"@) matches JsonV::Str(t) ==> opt(r) == Some(t),
        !(at(m, "data"@) is Str) ==> opt(r) == Some(Seq::<char>::empty()),
{
    let all = strs(ls@);
    assert forall|j: int| 0 <= j < i implies parsed(#[trigger] all[j]) is Some && at(
        parsed(all[j])->0,
        "error"@,
    ) != JsonV::Str("success"@) by {
        assert(parsed(ls@[j]@) is Some);
    }
    lemma_answer(all, i, m);
}

proof fn lemma_answer(all: Seq<Seq<char>>, i: int, m: JsonV)
    requires
        0 <= i < all.len(),
        parsed(all[i]) == Some(m),
        at(m, "error"@) == JsonV::Str("success"@),
        forall|j: int|
            0 <= j < i ==> parsed(#[trigger] all[j]) is Some && at(parsed(all[j])->0, "error"@)
                != JsonV::Str("success"@),
    ensures
        at(m, "data"@) matches JsonV::Str(t) ==> crate::desk::answer_of(all) == Some(t),
        !(at(m, "data"@) is Str) ==> crate::desk::answer_of(all) == Some(Seq::<char>::empty()),
    decreases all.len(),
{
    if i > 0 {
        assert(parsed(all[0]) is Some);
        let rest = all.skip(1);
        assert(rest[i - 1] == all[i]);
        assert forall|j: int| 0 <= j < i - 1 implies parsed(#[trigger] rest[j]) is Some && at(
            parsed(rest[j])->0,
            "error"@,
        ) != JsonV::Str("success"@) by {
            assert(rest[j] == all[j + 1]);
        }
        lemma_answer(rest, i - 1, m);
    }
}

/// The playlist that a player answers with is shown item by item, numbered from zero, each
/// by its title or else its source, made readable.
pub proof fn answered_playlists_are_shown(
    ls: &Vec<String>,
    r: Vec<DeskItem>,
    m: JsonV,
    items: Seq<JsonV>,
    i: int,
)
    requires
        ls@.len() > 0,
        parsed(ls@[0]@) == Some(m),
        at(m, "error"@) == JsonV::Str("success"@),
        at(m, "data"@) == JsonV::Arr(items),
        0 <= i < items.len(),
        call_ensures(fetch_playlist, (ls,), r),
    ensures
        r@.len() == items.len(),
        r@[i].index == i,
        at(items[i], "title"@) matches JsonV::Str(t) ==> r@[i].title@ == display_of(t),
        !(at(items[i], "title"@) is Str) ==> (at(items[i], "filename"@) matches JsonV::Str(f)
            ==> r@[i].title@ == display_of(f)),
{
    let v = desk_item_views(r@);
    assert(strs(ls@)[0] == ls@[0]@);
    assert(v.len() == r@.len());
    assert(v[i] == r@[i].view());
}

/// A directory that is added stands for its media files, each once and in order; anything
/// else stands for itself, with the home directory for `~`.
pub proof fn inputs_stand_for_files(input: &str, home: &str, r: Vec<String>)
    requires
        call_ensures(expand_input, (input, home, None), r),
    ensures
        strs(r@) == seq![at_home(input@, home@)],
{
}

/// What the player has is written to the playlist file source by source, one a line; a
/// player that reports an error, or no list, has nothing written.
pub proof fn files_hold_what_the_player_has(
    ls: &Vec<String>,
    r: Option<String>,
    m: JsonV,
    items: Seq<JsonV>,
)
    requires
        ls@.len() > 0,
        parsed(ls@[0]@) == Some(m),
        at(m, "error"@) == JsonV::Str("success"@),
        at(m, "data"@) == JsonV::Arr(items),
        call_ensures(sync_m3u_from_mpv, (ls,), r),
    ensures
        opt(r) == Some(
            items.map_values(|j: JsonV| at(j, "filename"@)).filter(
                |f: JsonV| f is Str,
            ).map_values(|f: JsonV| f->Str_0 + "\n"@).flatten(),
        ),
{
    assert(strs(ls@)[0] == ls@[0]@);
    lemma_sources_text(items);
}

proof fn lemma_sources_text(items: Seq<JsonV>)
    ensures
        crate::desk::sources_text(items) == items.map_values(
            |j: JsonV| at(j, "filename"@),
        ).filter(|f: JsonV| f is Str).map_values(|f: JsonV| f->Str_0 + "\n"@).flatten(),
    decreases items.len(),
{
    reveal(Seq::filter);
    let g = |j: JsonV| at(j, "filename"@);
    let f = |f: JsonV| f->Str_0 + "\n"@;
    let names = items.map_values(g);
    let some = names.filter(|f: JsonV| f is Str);
    if items.len() > 0 {
        lemma_sources_text(items.drop_last());
        let front = items.drop_last().map_values(g);
        assert(names.drop_last() =~= front);
        let before = front.filter(|f: JsonV| f is Str);
        if names.last() is Str {
            assert(some.map_values(f) =~= before.map_values(f).push(f(names.last())));
            before.map_values(f).lemma_flatten_push(f(names.last()));
            assert(crate::desk::sources_text(items) =~= crate::desk::sources_text(
                items.drop_last(),
            ) + f(names.last()));
        }
    } else {
        assert(names =~= Seq::empty());
        assert(some.map_values(f) =~= Seq::empty());
    }
}

/// The files of a pane lie in a directory of its own below the configuration, both named
/// by the pane.
pub proof fn desk_files_lie_in_the_panes_directory(
    config: &str,
    name: &str,
    sock: String,
    conf: String,
    list: String,
)
    requires
        config@.len() > 0 && config@.last() != '/',
        name@.len() > 0 && name@[0] != '/' && name@.last() != '/',
        call_ensures(pane_socket, (config, name), sock),
        call_ensures(pane_mpv_conf, (config, name), conf),
        call_ensures(pane_playlist_file, (config, name), list),
    ensures
        sock@ == config@ + seq!['/'] + name@ + seq!['/'] + name@ + ".sock"@,
        conf@ == config@ + seq!['/'] + name@ + seq!['/'] + name@ + ".mpv.conf"@,
        list@ == config@ + seq!['/'] + name@ + seq!['/'] + name@ + ".m3u"@,
{
    reveal_strlit("/");
    assert("/"@ =~= seq!['/']);
    let n = name@;
    let dir = config@ + seq!['/'] + n;
    assert(dir.last() == n.last());
    assert((n + ".sock"@)[0] == n[0]);
    assert((n + ".mpv.conf"@)[0] == n[0]);
    assert((n + ".m3u"@)[0] == n[0]);
    assert(sock@ =~= dir + seq!['/'] + n + ".sock"@);
    assert(conf@ =~= dir + seq!['/'] + n + ".mpv.conf"@);
    assert(list@ =~= dir + seq!['/'] + n + ".m3u"@);
}

/// The first of the completions that were found is taken, where one was found.
pub proof fn the_first_completion_is_taken(pl: &mut PlaylistState, found: Vec<String>, r: ())
    requires
        call_ensures(playlist_completed, (pl, found), r),
    ensures
        final(pl).view() == (PlaylistV {
            completions: strs(found@),
            comp_sel: 0,
            add_buf: if found@.len() == 0 {
                old(pl).add_buf@
            } else {
                found@[0]@
            },
            ..old(pl).view()
        }),
{
}

/// The files of a directory that is added are given each once and in order.
pub proof fn directories_stand_for_their_files(
    input: &str,
    home: &str,
    files: &Vec<String>,
    r: Vec<String>,
)
    requires
        call_ensures(expand_input, (input, home, Some(files)), r),
    ensures
        strs(r@).to_multiset() == strs(files@).to_multiset(),
        crate::text::in_order(strs(r@)),
{
}

/// A plain list names a pane on each line: a name and a socket. Comments and lines without
/// both name none, and a list that names none is shown as a sample.
pub proof fn plain_lists_name_panes(content: &str, r: Vec<DeskPane>)
    requires
        call_ensures(load_listed_panes, (Some(content),), r),
    ensures
        ({
            let fit = lines(content@).map_values(|l: Seq<char>| trimmed(l)).filter(
                |t: Seq<char>| t.len() > 0 && t[0] != '#' && words(t).len() >= 2,
            );
            fit.len() > 0 ==> r@.len() == fit.len() && forall|i: int|
                0 <= i < fit.len() ==> (#[trigger] r@[i]).name@ == words(fit[i])[0]
                    && r@[i].socket@ == words(fit[i])[1] && r@[i].status@ == "Stopped"@
        }),
{
    let ls = lines(content@);
    lemma_listed(ls);
    let v = desk_views(r@);
    assert(v.len() == r@.len());
    let fit = ls.map_values(|l: Seq<char>| trimmed(l)).filter(
        |t: Seq<char>| t.len() > 0 && t[0] != '#' && words(t).len() >= 2,
    );
    if fit.len() > 0 {
        assert forall|i: int| 0 <= i < fit.len() implies (#[trigger] r@[i]).name@ == words(
            fit[i],
        )[0] && r@[i].socket@ == words(fit[i])[1] && r@[i].status@ == "Stopped"@ by {
            assert(v[i] == r@[i].view());
        }
    }
}

proof fn lemma_listed(ls: Seq<Seq<char>>)
    ensures
        ({
            let fit = ls.map_values(|l: Seq<char>| trimmed(l)).filter(
                |t: Seq<char>| t.len() > 0 && t[0] != '#' && words(t).len() >= 2,
            );
            &&& listed_panes(ls).len() == fit.len()
            &&& forall|i: int|
                0 <= i < fit.len() ==> (#[trigger] listed_panes(ls)[i]).name == words(fit[i])[0]
                    && listed_panes(ls)[i].socket == words(fit[i])[1] && listed_panes(ls)[i].status
                    == "Stopped"@
        }),
    decreases ls.len(),
{
    reveal(Seq::filter);
    let p = |t: Seq<char>| t.len() > 0 && t[0] != '#' && words(t).len() >= 2;
    let ts = ls.map_values(|l: Seq<char>| trimmed(l));
    if ls.len() > 0 {
        let front = ls.drop_last();
        lemma_listed(front);
        let us = front.map_values(|l: Seq<char>| trimmed(l));
        assert(ts.drop_last() =~= us);
        let before = us.filter(p);
        let fit = ts.filter(p);
        let all = listed_panes(ls);
        assert forall|i: int| 0 <= i < fit.len() implies (#[trigger] all[i]).name == words(
            fit[i],
        )[0] && all[i].socket == words(fit[i])[1] && all[i].status == "Stopped"@ by {
            if i < before.len() {
                assert(all[i] == listed_panes(front)[i]);
                assert(fit[i] == before[i]);
            }
        }
    } else {
        assert(ts =~= Seq::empty());
    }
}

} // verus!
