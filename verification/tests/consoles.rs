//! The terminals that edit playlist files.
use panebot::console::{
    append_done, cmd_start_all, cmd_stop_all, crop_done, handle_key, open_done, reload_playlist_cmd,
    rewrite_done, save_done, Edit, Out, Turn, Work,
};
use panebot::console_screen::{home_footer, list_footer, list_rows};
use panebot::glance::{
    glance_key, glance_opened, load_playlist, playlist_footer, playlist_header, render_playlist,
};
use panebot::keys::{Key, KeyAction};
use panebot::screen::{Row, Span};
use panebot::tui::{process_event, App, DetailsMode};
use panebot::watch::{self, Watch, WatchMode, LOG_CAPACITY};
use panebot::watch_keys::{self, other_panes, run_key, WatchWork};
use panebot::watch_screen::{
    dashboard_footer, dashboard_header, details_footer, details_header, details_rows, layout_rows,
    log_rows, pane_rows, send_rows,
};

fn owned(v: &[&str]) -> Vec<String> {
    v.iter().map(|s| s.to_string()).collect()
}

fn outs(v: &Vec<Out>) -> Vec<String> {
    v.iter()
        .map(|o| match o {
            Out::Send { message } => message.text(),
            Out::Wait { ms } => format!("wait {}", ms),
        })
        .collect()
}

fn text_of(spans: &Vec<Span>) -> String {
    spans.iter().map(|s| s.text.clone()).collect()
}

fn rows_of(rows: &Vec<Row>) -> Vec<String> {
    rows.iter().map(|r| text_of(&r.spans)).collect()
}

const SNAPSHOT: &str = "{\"event\":\"node:snapshot\",\"hostname\":\"panebot\",\"platform\":\"macos\",\
    \"layout\":\"pb.left.stack\",\"home\":\"/home/op\",\"panes\":[{\"name\":\"music\",\
    \"pane_name\":\"Music\"},{\"name\":\"wide-top\",\"pane_name\":\"Wide Top\"}]}";

fn console() -> App {
    let mut a = App::new("/home/op");
    process_event(&mut a, SNAPSHOT, &owned(&["pb.left.stack.layout", "pb.right.stack.layout"]));
    a
}

fn key(a: &mut App, c: char) -> Turn {
    handle_key(a, Key::Char(c), false, "/c")
}

fn open(items: &[&str], pos: i64) -> App {
    let mut a = console();
    let t = handle_key(&mut a, Key::Enter, false, "/c");
    assert!(matches!(t.work, Some(Work::Open { pane }) if pane == "music"));
    let event = format!(
        "{{\"event\":\"property-change\",\"pane\":\"music\",\"property\":\"playlist-pos\",\"value\":{}}}",
        pos
    );
    process_event(&mut a, &event, &vec![]);
    open_done(&mut a, "music", owned(items));
    a
}

#[test]
fn console_reloads_after_edits() {
    assert_eq!(
        reload_playlist_cmd("/c", "music").text(),
        "{\"args\":[\"/c/music/music.m3u\",\"replace\"],\"command\":\"loadlist\",\"pane\":\"music\"}"
    );
    let order = owned(&["a", "b"]);
    assert_eq!(cmd_stop_all(&order)[1].text(), "{\"args\":[],\"command\":\"stop\",\"pane\":\"b\"}");
    assert_eq!(
        cmd_start_all(&order)[0].text(),
        "{\"args\":[\"pause\",false],\"command\":\"set_property\",\"pane\":\"a\"}"
    );
}

#[test]
fn console_opens_at_the_playing_item() {
    let a = open(&["/a", "/b", "/c"], 1);
    assert!(a.show_details);
    assert_eq!(a.playlist_sel, 1);
    assert_eq!(a.playlist_items, ["/a", "/b", "/c"]);
}

#[test]
fn console_dashboard_keys() {
    let mut a = console();
    assert_eq!(outs(&key(&mut a, 'X').out).len(), 2);
    assert_eq!(outs(&key(&mut a, 'P').out).len(), 2);
    assert_eq!(
        outs(&key(&mut a, 'r').out),
        ["{\"command\":\"panebot:restart-pane\",\"pane\":\"music\"}"]
    );
    key(&mut a, 'L');
    assert!(a.show_log);
    handle_key(&mut a, Key::Char('l'), true, "/c");
    assert!(!a.show_log);
    key(&mut a, 'j');
    assert_eq!(a.selected_name().as_deref(), Some("wide-top"));
    key(&mut a, 'W');
    assert!(a.show_picker);
    key(&mut a, 'j');
    let t = handle_key(&mut a, Key::Enter, false, "/c");
    assert_eq!(outs(&t.out), ["{\"command\":\"panebot:layout\",\"layout_name\":\"pb.right.stack\"}"]);
    assert_eq!(key(&mut a, 'q').action, KeyAction::Quit);
}

#[test]
fn console_shows_last_steps() {
    let mut a = open(&["/v/a.mkv", "http://h/live//", "b", "/"], 1);
    assert_eq!(a.playlist_sel, 1);
    key(&mut a, 'k');
    key(&mut a, ' ');
    assert_eq!(
        rows_of(&list_rows(&a, 4)),
        ["   \u{2022} 0    :: a.mkv", ">> * 1    :: live", "     2    :: b", "     3    :: "]
    );
    assert_eq!(rows_of(&list_rows(&a, 1)), [">> * 1    :: live"]);
    assert!(list_rows(&a, 0).is_empty());
}

#[test]
fn console_shows_its_keys() {
    assert_eq!(
        text_of(&home_footer(false)),
        "[j/k] Nav :: [\u{21b5}] Detail :: [r/R] Restart :: [S] Solo :: [M] Mute\u{2205} :: [X/P] Stp/Ply :: \
         [W] Layout :: [L] Log :: [q] Quit"
    );
    assert_eq!(
        text_of(&home_footer(true)),
        "[CMD] :: [Space] Pause :: [m] Mute :: [\u{21b5}] Next :: [h/l] \u{b1}5s :: [j/k] \u{b1}60s :: \
         [9/0] Vol :: [f] Full :: [v] Adv :: [Tab] Close"
    );
    let mut a = open(&["/a"], -1);
    assert_eq!(
        text_of(&list_footer(&a)),
        "[j/k] Nav :: [Spc] Mark :: [D] Del :: [M] Move :: [C] Crop :: [A] Add :: [S] Save :: [G] Goto :: \
         [S-Spc] Play :: [\u{21b5}] Back"
    );
    key(&mut a, 'G');
    key(&mut a, '7');
    assert_eq!(text_of(&list_footer(&a)), "Jump to #: 7  [Enter] Go  [Esc] Cancel");
    handle_key(&mut a, Key::Esc, false, "/c");
    key(&mut a, 'A');
    key(&mut a, 'x');
    assert_eq!(text_of(&list_footer(&a)), "Add: x  [Enter] Add  [Esc] Cancel");
    handle_key(&mut a, Key::Esc, false, "/c");
    key(&mut a, 'M');
    assert_eq!(text_of(&list_footer(&a)), "Mark items with Space first");
    handle_key(&mut a, Key::Tab, false, "/c");
    assert_eq!(
        text_of(&list_footer(&a)),
        "[CMD] :: [Space] Pause :: [m] Mute :: [Enter] Next :: [h/l] \u{b1}5s :: [j/k] \u{b1}60s :: [9/0] Vol :: \
         [Tab] Close"
    );
}

#[test]
fn console_plays_the_selected_item() {
    let mut a = open(&["/a", "/b"], -1);
    key(&mut a, 'j');
    let t = handle_key(&mut a, Key::Char(' '), true, "/c");
    assert_eq!(
        outs(&t.out),
        [
            "{\"args\":[\"/c/music/music.m3u\",\"replace\"],\"command\":\"loadlist\",\"pane\":\"music\"}",
            "wait 200",
            "{\"args\":[1],\"command\":\"playlist-play-index\",\"pane\":\"music\"}",
            "{\"args\":[\"pause\",false],\"command\":\"set_property\",\"pane\":\"music\"}",
        ]
    );
}

#[test]
fn console_deletes_all_but_the_playing_item() {
    let mut a = open(&["/a", "/b", "/c"], 0);
    let t = key(&mut a, 'D');
    assert!(t.work.is_none());
    assert_eq!(a.status_msg.as_deref(), Some("Cannot remove playing item"));
    key(&mut a, 'j');
    key(&mut a, ' ');
    key(&mut a, ' ');
    let t = key(&mut a, 'D');
    match t.work {
        Some(Work::Rewrite { pane, items, edit }) => {
            assert_eq!(pane, "music");
            assert_eq!(items, ["/a"]);
            let m = rewrite_done(&mut a, &pane, "/c", items, edit, Ok(()));
            assert_eq!(m.len(), 1);
        }
        other => panic!("{:?}", other),
    }
    assert_eq!(a.playlist_items, ["/a"]);
    assert_eq!(a.playlist_sel, 0);
    assert!(a.selected_items.is_empty());
}

#[test]
fn console_moves_and_crops() {
    let mut a = open(&["/a", "/b", "/c", "/d"], -1);
    key(&mut a, 'M');
    assert_eq!(a.status_msg.as_deref(), Some("Mark items with Space first"));
    key(&mut a, ' ');
    key(&mut a, '\\');
    match key(&mut a, 'M').work {
        Some(Work::Rewrite { items, .. }) => {
            let mut sorted = items.clone();
            sorted.sort();
            assert_eq!(sorted, ["/a", "/b", "/c", "/d"]);
            assert_ne!(items[0], "/a");
        }
        other => panic!("{:?}", other),
    }
    match key(&mut a, 'C').work {
        Some(Work::Rewrite { items, edit, .. }) => {
            assert_eq!(items, ["/a"]);
            assert!(matches!(edit, Edit::Crop));
        }
        other => panic!("{:?}", other),
    }
    handle_key(&mut a, Key::Esc, false, "/c");
    assert!(matches!(key(&mut a, 'C').work, Some(Work::Crop { pos: -1, .. })));
    assert!(crop_done(&mut a, "music", "/c", Ok(None)).is_empty());
    assert_eq!(a.status_msg.as_deref(), Some("Nothing playing to crop around"));
    assert_eq!(crop_done(&mut a, "music", "/c", Ok(Some(owned(&["/b"])))).len(), 1);
    assert_eq!(a.playlist_items, ["/b"]);
    crop_done(&mut a, "music", "/c", Err("disk".to_string()));
    assert_eq!(a.status_msg.as_deref(), Some("Crop failed: disk"));
}

#[test]
fn console_adds_and_saves() {
    let mut a = open(&["/a"], -1);
    key(&mut a, 'A');
    assert_eq!(a.details_mode, DetailsMode::Add);
    for c in "~/q".chars() {
        key(&mut a, c);
    }
    match handle_key(&mut a, Key::Enter, false, "/c").work {
        Some(Work::Append { pane, entry }) => {
            assert_eq!(pane, "music");
            assert_eq!(entry, "/home/op/q");
        }
        other => panic!("{:?}", other),
    }
    assert_eq!(append_done(&mut a, "music", "/c", Ok(owned(&["/a", "/home/op/q"]))).len(), 1);
    assert_eq!(a.playlist_items.len(), 2);
    append_done(&mut a, "music", "/c", Err("disk".to_string()));
    assert_eq!(a.status_msg.as_deref(), Some("Add failed: disk"));
    assert!(matches!(key(&mut a, 'S').work, Some(Work::Save { .. })));
    save_done(&mut a, Ok((2, owned(&["/x", "/y"]))));
    assert_eq!(a.playlist_items, ["/x", "/y"]);
    save_done(&mut a, Err("no answer".to_string()));
    assert_eq!(a.status_msg.as_deref(), Some("Save failed: no answer"));
    rewrite_done(&mut a, "music", "/c", vec![], Edit::Delete, Err("disk".to_string()));
    assert_eq!(a.status_msg.as_deref(), Some("Delete failed: disk"));
}

const COMPLETE: &str = "{\"event\":\"bootstrap_complete\",\"hostname\":\"panebot\",\
    \"layout\":\"pb.left.stack\",\"panes\":[{\"name\":\"music\",\"pane_type\":\"audio\",\
    \"status\":\"Online\"},{\"name\":\"wide-top\",\"status\":\"Offline\"},{\"name\":\"music\"}]}";

fn watching() -> Watch {
    let mut w = Watch::new();
    assert!(!watch::process_event(&mut w, COMPLETE));
    w
}

fn watch_key(w: &mut Watch, c: char) -> watch_keys::WatchTurn {
    run_key(w, Key::Char(c), false, "/c", "/home/op")
}

#[test]
fn watch_lists_the_players() {
    let mut w = watching();
    assert_eq!(w.players.len(), 2);
    assert_eq!(w.players[0].pane_type, "audio");
    assert_eq!(w.players[1].pane_type, "video");
    assert_eq!(w.active_count(), 1);
    assert_eq!(w.layouts, ["pb.left.stack", "pb.right.stack", "pb.top.row", "pb.split"]);
    watch::process_event(
        &mut w,
        "{\"event\":\"online\",\"pane\":\"wide-top\",\"state\":{\"paused\":false,\"idle_active\":false,\
         \"volume\":33.4,\"title\":\"Mirror\",\"playlist_pos\":2,\"muted\":false}}",
    );
    let p = &w.players[1];
    assert!(p.online && !p.paused && !p.idle_active && !p.muted);
    assert_eq!(p.title, "Mirror");
    assert_eq!(p.playlist_pos, 2);
    assert_eq!(p.playback_label().0, "Playing");
    assert!(p.volume_label().0.contains("33"));
    assert_eq!(pane_rows(&w).len(), 2);
    assert!(text_of(&dashboard_header(&w)).contains("panebot"));
    assert_ne!(text_of(&dashboard_footer(true)), text_of(&dashboard_footer(false)));
}

#[test]
fn watch_logs_what_changes() {
    let mut w = watching();
    let before = w.log.len();
    watch::process_event(
        &mut w,
        "{\"event\":\"property-change\",\"pane\":\"music\",\"property\":\"volume\",\"value\":62.5}",
    );
    assert_eq!(w.log.len(), before + 1);
    let line = text_of(w.log.back().unwrap());
    assert_eq!(line, "[PaneBot] :: MUSIC        :: volume :: 62");
    // Known news is not logged.
    watch::process_event(&mut w, "{\"event\":\"online\",\"pane\":\"music\"}");
    assert_eq!(w.log.len(), before + 1);
    watch::process_event(
        &mut w,
        "{\"event\":\"property-change\",\"pane\":\"music\",\"property\":\"playlist-pos\",\"value\":1}",
    );
    assert_eq!(w.log.len(), before + 1);
    assert!(watch::process_event(&mut w, "{\"event\":\"node:down\",\"reason\":\"admin\"}"));
    assert_eq!(w.active_count(), 0);
    assert_eq!(log_rows(&w, 2).len(), 2);
    watch::connection_lost(&mut w);
    for _ in 0..3 * LOG_CAPACITY {
        watch::process_event(&mut w, "{\"event\":\"node:restart-all\"}");
    }
    assert_eq!(w.log.len(), LOG_CAPACITY);
}

#[test]
fn watch_drives_the_player() {
    let mut w = watching();
    run_key(&mut w, Key::Tab, false, "/c", "/home/op");
    assert!(w.command_mode);
    assert_eq!(
        outs(&watch_key(&mut w, 'j').out),
        ["{\"args\":[-10,\"relative\"],\"command\":\"seek\",\"pane\":\"music\"}"]
    );
    assert_eq!(
        outs(&watch_key(&mut w, '-').out),
        ["{\"args\":[\"volume\",-5.0],\"command\":\"add\",\"pane\":\"music\"}"]
    );
    assert_eq!(
        outs(&watch_key(&mut w, '=').out),
        ["{\"args\":[\"volume\",5],\"command\":\"add\",\"pane\":\"music\"}"]
    );
    assert_eq!(
        outs(&watch_key(&mut w, 'n').out),
        ["{\"args\":[],\"command\":\"playlist-next\",\"pane\":\"music\"}"]
    );
    assert_eq!(
        outs(&watch_key(&mut w, 'R').out),
        ["{\"command\":\"panebot:restart-pane\",\"pane\":\"music\"}"]
    );
}

#[test]
fn watch_switches_layouts() {
    let mut w = watching();
    watch_key(&mut w, 'W');
    assert!(w.show_picker);
    assert_eq!(layout_rows(&w).len(), 4);
    watch_key(&mut w, 'j');
    let t = run_key(&mut w, Key::Enter, false, "/c", "/home/op");
    assert_eq!(outs(&t.out), ["{\"command\":\"panebot:layout\",\"layout_name\":\"pb.right.stack\"}"]);
}

#[test]
fn watch_edits_playlists() {
    let mut w = watching();
    let t = run_key(&mut w, Key::Enter, false, "/c", "/home/op");
    assert!(matches!(t.work, Some(WatchWork::Open { pane }) if pane == "music"));
    watch_keys::open_done(&mut w, owned(&["/a", "/b", "/c"]));
    assert!(w.show_details);
    assert_eq!(w.playlist_sel, 0);
    assert!(details_header(&w).is_some());
    assert_eq!(details_rows(&w, 10).iter().filter(|r| r.selected).count(), 1);
    assert!(text_of(&details_footer(&w)).starts_with("[up/dn] Select :: [j] Jump :: [J] End :: [n] Add :: [C] Crop"));
    // Adding with completion.
    watch_key(&mut w, 'n');
    assert_eq!(w.details_mode, WatchMode::Add);
    assert!(matches!(watch_key(&mut w, '~').work, Some(WatchWork::Complete)));
    watch_keys::complete_done(&mut w, owned(&["/home/op/x/", "/home/op/y"]));
    run_key(&mut w, Key::Down, false, "/c", "/home/op");
    run_key(&mut w, Key::Tab, false, "/c", "/home/op");
    assert_eq!(w.add_input, "/home/op/y");
    let t = run_key(&mut w, Key::Enter, false, "/c", "/home/op");
    assert!(matches!(t.work, Some(WatchWork::Append { entry, .. }) if entry == "/home/op/y"));
    assert_eq!(watch_keys::append_done(&mut w, "music", "/c", Ok(owned(&["/a", "/b", "/c", "/d"]))).len(), 1);
    // Removing.
    watch_key(&mut w, 'J');
    run_key(&mut w, Key::Tab, false, "/c", "/home/op");
    assert_eq!(w.details_mode, WatchMode::Command);
    assert!(matches!(watch_key(&mut w, 'R').work, Some(WatchWork::Remove { idx: 3, pos: -1, .. })));
    watch_keys::remove_done(&mut w, "music", "/c", Ok(Some(owned(&["/a", "/b", "/c"]))));
    assert_eq!(w.playlist_sel, 2);
    assert!(watch_keys::remove_done(&mut w, "music", "/c", Ok(None)).is_empty());
    assert_eq!(w.status_msg.as_deref(), Some("Cannot remove playing item"));
    watch_keys::remove_done(&mut w, "music", "/c", Err("disk".to_string()));
    assert_eq!(w.status_msg.as_deref(), Some("Remove failed: disk"));
    watch_keys::append_done(&mut w, "music", "/c", Err("disk".to_string()));
    assert_eq!(w.status_msg.as_deref(), Some("Add failed: disk"));
    watch_keys::crop_done(&mut w, "music", "/c", Err("disk".to_string()));
    assert_eq!(w.status_msg.as_deref(), Some("Crop failed: disk"));
    assert!(watch_keys::crop_done(&mut w, "music", "/c", Ok(None)).is_empty());
    assert_eq!(w.status_msg.as_deref(), Some("Nothing playing to crop around"));
}

#[test]
fn watch_sends_items_to_other_panes() {
    let mut w = watching();
    watch_keys::open_done(&mut w, owned(&["/a", "/b"]));
    run_key(&mut w, Key::Tab, false, "/c", "/home/op");
    watch_key(&mut w, 'S');
    assert_eq!(w.details_mode, WatchMode::Send);
    assert_eq!(other_panes(&w), ["wide-top"]);
    assert_eq!(rows_of(&send_rows(&w)).len(), 1);
    let t = run_key(&mut w, Key::Enter, false, "/c", "/home/op");
    match t.work {
        Some(WatchWork::Transfer { target, source, entry, idx, .. }) => {
            assert_eq!((target.as_str(), source.as_str(), entry.as_str(), idx), ("wide-top", "music", "/a", 0));
        }
        other => panic!("{:?}", other),
    }
    let m = watch_keys::transfer_done(&mut w, "wide-top", "music", "/c", Some(owned(&["/b"])));
    assert_eq!(m.len(), 2);
    assert_eq!(w.playlist_items, ["/b"]);
    assert_eq!(watch_keys::transfer_done(&mut w, "wide-top", "music", "/c", None).len(), 1);
}

#[test]
fn watch_spares_the_playing_item() {
    let mut w = watching();
    watch::process_event(
        &mut w,
        "{\"event\":\"property-change\",\"pane\":\"music\",\"property\":\"playlist-pos\",\"value\":0}",
    );
    watch_keys::open_done(&mut w, owned(&["/a", "/b"]));
    assert!(w.sel_is_playing());
    run_key(&mut w, Key::Tab, false, "/c", "/home/op");
    assert!(watch_key(&mut w, 'R').work.is_none());
    assert_eq!(w.status_msg.as_deref(), Some("Cannot remove playing item"));
    watch_key(&mut w, 'S');
    assert_eq!(w.status_msg.as_deref(), Some("Cannot move playing item"));
}

fn glance(w: &mut Watch, c: char) -> watch_keys::WatchTurn {
    glance_key(w, Key::Char(c), false)
}

#[test]
fn glances_read_playlists() {
    assert_eq!(load_playlist(Some("#EXTM3U\n /a.mkv \n\n # not a comment\n/b.mkv")), ["/a.mkv", "# not a comment", "/b.mkv"]);
    assert!(load_playlist(None).is_empty());
}

#[test]
fn glances_go_round() {
    let mut w = watching();
    glance(&mut w, 'j');
    assert_eq!(w.selected, 1);
    glance(&mut w, 'j');
    assert_eq!(w.selected, 0);
    glance(&mut w, 'k');
    assert_eq!(w.selected, 0);
    assert_eq!(glance(&mut w, 'q').action, KeyAction::Quit);
    glance_key(&mut w, Key::Tab, false);
    assert_eq!(
        outs(&glance(&mut w, 'h').out),
        ["{\"args\":[-60,\"relative\"],\"command\":\"seek\",\"pane\":\"music\"}"]
    );
    assert!(glance_key(&mut w, Key::Down, false).out.is_empty());
}

#[test]
fn glances_at_a_playlist() {
    let mut w = watching();
    let t = glance_key(&mut w, Key::Enter, false);
    assert!(matches!(t.work, Some(WatchWork::Open { pane }) if pane == "music"));
    glance_opened(&mut w, owned(&["/x/a.mkv", "/x/b.mkv", "/x/c.mkv"]));
    assert!(text_of(&playlist_header(&w).unwrap()).starts_with("[PaneBot] :: \"MUSIC\" :: [AUDIO] :: ["));
    assert_eq!(rows_of(&render_playlist(&w))[0], ">> 0   :: a.mkv");
    assert_eq!(text_of(&playlist_footer(&w)), "[up/dn] Select :: [Tab] Command :: [Esc] Back");
    glance_key(&mut w, Key::Tab, false);
    glance(&mut w, 'j');
    glance(&mut w, '9');
    assert_eq!(w.jump_input, "9");
    glance_key(&mut w, Key::Enter, false);
    assert_eq!(w.playlist_sel, 2);
    let t = glance(&mut w, 'r');
    assert_eq!(outs(&t.out), ["{\"args\":[2],\"command\":\"playlist-remove\",\"pane\":\"music\"}"]);
    assert_eq!(w.playlist_items, ["/x/a.mkv", "/x/b.mkv"]);
    assert_eq!(w.playlist_sel, 1);
    assert_eq!(
        outs(&glance(&mut w, ' ').out),
        ["{\"args\":[1],\"command\":\"playlist-play-index\",\"pane\":\"music\"}"]
    );
    glance(&mut w, 'j');
    glance_key(&mut w, Key::Tab, false);
    assert_eq!(text_of(&playlist_footer(&w)), "Jump to:   [Enter] Go  [Esc] Cancel");
    glance_key(&mut w, Key::Esc, false);
    assert!(w.show_details);
    glance_key(&mut w, Key::Esc, false);
    assert!(!w.show_details);
}
