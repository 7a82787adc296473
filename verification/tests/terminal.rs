//! The operator's terminal.
use panebot::board::{count_online, find_state, get_state, is_any_playing, put_state, set_all_offline};
use panebot::config::{load_config, Host};
use panebot::connect::{
    connect_ws, host_choices, is_remote, may_spawn, resolve_daemon_addr, run, status_text, timeout_text, Attempt,
    Happening, PickMove, Then, CONNECT_RETRIES, LOCAL_ADDR,
};
use panebot::daemon::Node;
use panebot::json::{Double, Json};
use panebot::keys::{down, left, mpv_key_name, right, up, Key, KeyAction};
use panebot::node::{snapshot, DEFAULT_PANES_CONF};
use panebot::picks::{drop_marked, is_marked, keep_marked, move_marked, toggle};
use panebot::protocol::{connected, disconnected, handle_player_line, PaneState};
use panebot::screen::{
    bold_span, dashboard_footer, dashboard_header, details_footer, details_header, details_rows, host_picker_footer,
    host_picker_header, in_box, render_host_picker, render_layout_picker, render_log_body, render_pane_list,
    render_startup, rgb, Color, Row, Span,
};
use panebot::tui::{load_layouts, position_index, process_event, App, DetailsMode};
use panebot::tui_keys::{command_key_message, handle_key, jump_target, last_of, search, Outcome};

fn owned(v: &[&str]) -> Vec<String> {
    v.iter().map(|s| s.to_string()).collect()
}

fn node() -> Node {
    let c = load_config(Some(DEFAULT_PANES_CONF), "/home/op");
    let states = c.panes.iter().map(|p| PaneState::new(&p.mpv_name, &p.pane_name)).collect();
    Node {
        config: "/c".to_string(),
        panes: c.panes,
        states,
        connected: vec![],
        hostname: "panebot".to_string(),
        platform: "linux".to_string(),
        layout: c.layout,
    }
}

/// A terminal that is connected to a fresh node.
fn app() -> App {
    let mut a = App::new("/home/me");
    let text = snapshot(&node(), "10.0.0.1", "/home/op", &vec![]).text();
    assert!(!process_event(&mut a, &text, &owned(&["pb.right.stack.layout", "pb.left.stack.layout", "x.txt"])));
    a
}

/// The same with the playlist of the first pane open.
fn details(items: &[&str]) -> App {
    let mut a = app();
    handle_key(&mut a, Key::Char('l'));
    let list: Vec<String> =
        items.iter().map(|i| format!("{{\"filename\":\"{}\"}}", i)).collect();
    let text =
        format!("{{\"event\":\"node:playlist\",\"pane\":\"music\",\"items\":[{}]}}", list.join(","));
    process_event(&mut a, &text, &vec![]);
    a
}

#[test]
fn only_a_list_of_panes_takes_the_place_of_the_known_ones() {
    let mut a = app();
    let known = a.pane_order.clone();
    assert!(known.len() > 1);
    process_event(&mut a, "{\"event\":\"online\",\"pane\":\"music\"}", &vec![]);
    for text in [
        "{\"event\":\"node:snapshot\",\"hostname\":\"den\"}",
        "{\"event\":\"node:snapshot\",\"hostname\":\"den\",\"panes\":null}",
        "{\"event\":\"node:snapshot\",\"hostname\":\"den\",\"panes\":\"music\"}",
    ] {
        process_event(&mut a, text, &vec![]);
        assert_eq!(a.hostname, "den");
        assert_eq!(a.platform, "");
        assert_eq!(a.pane_order, known);
        assert_eq!(a.panes.len(), known.len());
        assert!(a.panes.iter().any(|p| p.mpv_name == "music" && p.online));
    }
    process_event(
        &mut a,
        "{\"event\":\"node:snapshot\",\"panes\":[{\"name\":\"tv\"},{\"pane_name\":\"None\"}]}",
        &vec![],
    );
    assert_eq!(a.pane_order, ["tv"]);
    assert_eq!(a.panes.len(), 1);
    assert!(!a.panes[0].online);
    process_event(&mut a, "{\"event\":\"node:snapshot\",\"panes\":[]}", &vec![]);
    assert!(a.pane_order.is_empty() && a.panes.is_empty());
}

fn sent(o: &Outcome) -> Vec<String> {
    o.send.iter().map(|m| m.text()).collect()
}

fn text_of(spans: &Vec<Span>) -> String {
    spans.iter().map(|s| s.text.clone()).collect()
}

fn rows_of(rows: &Vec<Row>) -> Vec<String> {
    rows.iter().map(|r| text_of(&r.spans)).collect()
}

#[test]
fn a_snapshot_synchronizes() {
    let mut n = node();
    n.states[2].online = true;
    n.states[2].paused = Some(false);
    n.states[2].idle_active = Some(false);
    n.states[2].volume = Some(Double::whole(80));
    n.states[2].title = Some("Stalker".to_string());
    n.states[2].playlist_pos = Some(1);
    n.states[2].muted = Some(true);
    let mut a = App::new("/home/me");
    process_event(&mut a, &snapshot(&n, "10.0.0.1", "/home/op", &vec![]).text(), &vec![]);
    assert_eq!(a.pane_order, ["music", "wide-top", "wide-bottom", "standard"]);
    assert_eq!(a.hostname, "panebot");
    assert_eq!(a.layout, "pb.left.stack");
    assert_eq!(a.home, "/home/op");
    for s in &n.states {
        let mine = get_state(&a.panes, &s.mpv_name).unwrap();
        assert_eq!(mine.to_json().text(), s.to_json().text());
    }
    assert_eq!(a.active_count(), 1);
}

#[test]
fn every_change_is_mirrored() {
    let mut daemon = PaneState::new("music", "Music");
    let mut a = app();
    process_event(&mut a, &connected(&mut daemon).text(), &vec![]);
    for line in [
        "{\"event\":\"property-change\",\"name\":\"pause\",\"data\":false}",
        "{\"event\":\"property-change\",\"name\":\"volume\",\"data\":45.5}",
        "{\"event\":\"property-change\",\"name\":\"media-title\",\"data\":\"Mirror\"}",
        "{\"event\":\"property-change\",\"name\":\"playlist-pos\",\"data\":3}",
        "{\"event\":\"property-change\",\"name\":\"mute\",\"data\":true}",
        "{\"event\":\"property-change\",\"name\":\"idle-active\",\"data\":false}",
        "{\"event\":\"property-change\",\"name\":\"duration\",\"data\":7}",
    ] {
        let event = handle_player_line(&mut daemon, line).unwrap();
        process_event(&mut a, &event.text(), &vec![]);
        let mine = get_state(&a.panes, "music").unwrap();
        assert_eq!(mine.to_json().text(), daemon.to_json().text());
    }
    process_event(&mut a, &disconnected(&mut daemon).text(), &vec![]);
    let mine = get_state(&a.panes, "music").unwrap();
    assert_eq!(mine.to_json().text(), daemon.to_json().text());
    // The other panes know nothing of it.
    assert!(get_state(&a.panes, "standard").unwrap().title.is_none());
}

#[test]
fn texts_that_say_nothing_change_nothing() {
    let mut a = app();
    let before = rows_of(&render_pane_list(&a));
    assert!(!process_event(&mut a, "no json", &vec![]));
    assert!(!process_event(&mut a, "{\"event\":\"news\"}", &vec![]));
    assert!(!process_event(&mut a, "{\"event\":\"online\",\"pane\":\"nobody\"}", &vec![]));
    assert_eq!(rows_of(&render_pane_list(&a)), before);
}

#[test]
fn a_node_that_goes_down_takes_its_panes() {
    let mut a = app();
    process_event(&mut a, "{\"event\":\"online\",\"pane\":\"music\"}", &vec![]);
    assert_eq!(a.active_count(), 1);
    assert!(process_event(&mut a, "{\"event\":\"node:down\",\"reason\":\"admin\"}", &vec![]));
    assert_eq!(a.active_count(), 0);
    assert_eq!(a.pane_order.len(), 4);
}

#[test]
fn layouts_and_saved_playlists_are_told() {
    let mut a = app();
    assert_eq!(a.layouts, ["pb.left.stack", "pb.right.stack"]);
    process_event(&mut a, "{\"event\":\"node:layout\",\"layout\":\"pb.right.stack\"}", &vec![]);
    assert_eq!(a.layout, "pb.right.stack");
    process_event(
        &mut a,
        "{\"event\":\"node:playlist-saved\",\"pane\":\"music\",\"path\":\"/tmp/x.m3u\"}",
        &vec![],
    );
    assert_eq!(a.status_msg.as_deref(), Some("Saved to /tmp/x.m3u"));
    assert_eq!(load_layouts(&owned(&["b.layout", "a.layout", "notes"])), ["a", "b"]);
}

#[test]
fn selection_stays_among_the_panes() {
    let mut a = app();
    handle_key(&mut a, Key::Char('k'));
    assert_eq!(a.selected, 0);
    for _ in 0..9 {
        handle_key(&mut a, Key::Char('j'));
    }
    assert_eq!(a.selected, 3);
    assert_eq!(a.selected_name().as_deref(), Some("standard"));
    assert_eq!(a.current_playlist_pos(), -1);
    assert!(!a.sel_is_playing());
}

#[test]
fn dashboard_keys() {
    let mut a = app();
    let o = handle_key(&mut a, Key::Char('r'));
    assert_eq!(sent(&o), ["{\"command\":\"panebot:restart-pane\",\"pane\":\"music\"}"]);
    assert_eq!(sent(&handle_key(&mut a, Key::Char('R'))), ["{\"command\":\"panebot:restart-all\"}"]);
    assert_eq!(handle_key(&mut a, Key::Char('M')).send.len(), 3);
    assert_eq!(handle_key(&mut a, Key::Char('P')).send.len(), 8);
    assert_eq!(handle_key(&mut a, Key::Char('C')).action, KeyAction::Reconnect);
    assert_eq!(handle_key(&mut a, Key::Char('q')).action, KeyAction::Quit);
    assert_eq!(handle_key(&mut a, Key::Char('x')).action, KeyAction::Nothing);
    handle_key(&mut a, Key::Char('h'));
    assert!(a.show_log);
    handle_key(&mut a, Key::Char('l'));
    assert!(!a.show_log);
    a.go_log();
    a.leave_log();
    assert!(!a.show_log);
}

#[test]
fn playing_panes_are_paused_together() {
    let mut a = app();
    process_event(
        &mut a,
        "{\"event\":\"online\",\"pane\":\"music\",\"state\":{\"paused\":false,\"idle_active\":false}}",
        &vec![],
    );
    assert!(is_any_playing(&a.panes));
    let o = handle_key(&mut a, Key::Char('P'));
    assert_eq!(o.send.len(), 4);
    assert_eq!(
        sent(&o)[0],
        "{\"args\":[\"pause\",true],\"command\":\"set_property\",\"pane\":\"music\"}"
    );
}

#[test]
fn command_mode_drives_the_player() {
    let mut a = app();
    handle_key(&mut a, Key::Tab);
    assert!(a.command_mode);
    let one = |k: Key| command_key_message("music", k).map(|m| m.get("args").unwrap().text());
    assert_eq!(one(Key::Char(' ')).as_deref(), Some("[\"pause\"]"));
    assert_eq!(one(Key::Char('m')).as_deref(), Some("[\"mute\"]"));
    assert_eq!(one(Key::Char('f')).as_deref(), Some("[\"fullscreen\"]"));
    assert_eq!(one(Key::Char('h')).as_deref(), Some("[-5,\"relative\"]"));
    assert_eq!(one(Key::Char('l')).as_deref(), Some("[5,\"relative\"]"));
    assert_eq!(one(Key::Char('k')).as_deref(), Some("[60,\"relative\"]"));
    assert_eq!(one(Key::Char('j')).as_deref(), Some("[-60,\"relative\"]"));
    assert_eq!(one(Key::Char('9')).as_deref(), Some("[\"volume\",-5]"));
    assert_eq!(one(Key::Char('0')).as_deref(), Some("[\"volume\",5]"));
    assert_eq!(one(Key::Char('x')), None);
    assert_eq!(
        sent(&handle_key(&mut a, Key::Char(' '))),
        ["{\"args\":[\"pause\"],\"command\":\"cycle\",\"pane\":\"music\"}"]
    );
    handle_key(&mut a, Key::Tab);
    assert!(!a.command_mode);
}

#[test]
fn passthrough_forwards_every_key_but_its_own() {
    let mut a = app();
    handle_key(&mut a, Key::Tab);
    handle_key(&mut a, Key::Char('v'));
    assert!(a.passthrough_mode);
    let o = handle_key(&mut a, Key::Char('q'));
    assert_eq!(sent(&o), ["{\"args\":[\"q\"],\"command\":\"keypress\",\"pane\":\"music\"}"]);
    let o = handle_key(&mut a, Key::Char(' '));
    assert_eq!(sent(&o), ["{\"args\":[\"SPACE\"],\"command\":\"keypress\",\"pane\":\"music\"}"]);
    let o = handle_key(&mut a, Key::Right);
    assert_eq!(sent(&o), ["{\"args\":[\"RIGHT\"],\"command\":\"keypress\",\"pane\":\"music\"}"]);
    handle_key(&mut a, Key::Char('v'));
    assert!(!a.passthrough_mode);
    assert_eq!(mpv_key_name(Key::Char('J')), "J");
    assert_eq!(mpv_key_name(Key::Char('#')), "#");
    assert_eq!(mpv_key_name(Key::F(5)), "F5");
    assert_eq!(mpv_key_name(Key::Other), "");
    assert!(up(Key::Char('k')) && down(Key::Down) && left(Key::Char('h')) && right(Key::Right));
}

#[test]
fn layouts_are_switched_by_picking() {
    let mut a = app();
    handle_key(&mut a, Key::Char('W'));
    assert!(a.show_picker);
    assert_eq!(a.picker_sel, 0);
    handle_key(&mut a, Key::Char('j'));
    handle_key(&mut a, Key::Char('j'));
    assert_eq!(a.picker_sel, 1);
    let rows = rows_of(&render_layout_picker(&a));
    assert!(rows.iter().any(|r| r.contains("pb.right.stack")));
    let o = handle_key(&mut a, Key::Enter);
    assert_eq!(sent(&o), ["{\"command\":\"panebot:layout\",\"layout_name\":\"pb.right.stack\"}"]);
    assert!(!a.show_picker);
    a.is_remote = true;
    handle_key(&mut a, Key::Char('W'));
    assert!(!a.show_picker);
}

#[test]
fn opening_a_playlist_asks_for_it() {
    let mut a = app();
    let o = handle_key(&mut a, Key::Char('l'));
    assert_eq!(sent(&o), ["{\"command\":\"panebot:playlist-get\",\"pane\":\"music\"}"]);
    assert!(a.show_details);
    assert_eq!(a.status_msg.as_deref(), Some("Loading playlist..."));
    process_event(
        &mut a,
        "{\"event\":\"node:playlist\",\"pane\":\"standard\",\"items\":[{\"filename\":\"/x\"}]}",
        &vec![],
    );
    assert!(a.playlist_items.is_empty());
    process_event(
        &mut a,
        "{\"event\":\"node:playlist\",\"pane\":\"music\",\"items\":[{\"filename\":\"/x\"},\
         {\"filename\":\"/y\",\"title\":\"Why\"},{\"title\":\"no source\"}]}",
        &vec![],
    );
    assert_eq!(a.playlist_items, ["/x", "Why"]);
    assert_eq!(a.status_msg, None);
    handle_key(&mut a, Key::Char('h'));
    assert!(!a.show_details);
    a.open_details();
    a.close_details();
    assert!(!a.show_details);
}

#[test]
fn playing_and_queueing() {
    let mut a = details(&["/a", "/b", "/c", "/d"]);
    handle_key(&mut a, Key::Char('J'));
    let o = handle_key(&mut a, Key::Enter);
    assert_eq!(
        sent(&o),
        [
            "{\"args\":[3],\"command\":\"playlist-play-index\",\"pane\":\"music\"}",
            "{\"args\":[\"pause\",false],\"command\":\"set_property\",\"pane\":\"music\"}",
        ]
    );
    process_event(
        &mut a,
        "{\"event\":\"property-change\",\"pane\":\"music\",\"property\":\"playlist-pos\",\"value\":0}",
        &vec![],
    );
    let o = handle_key(&mut a, Key::Char('n'));
    assert_eq!(
        sent(&o)[0],
        "{\"args\":[3,1],\"command\":\"playlist-move\",\"pane\":\"music\"}"
    );
    assert_eq!(a.status_msg.as_deref(), Some("Queued next"));
}

#[test]
fn deleting_spares_the_playing_item() {
    let mut a = details(&["/a", "/b", "/c", "/d"]);
    process_event(
        &mut a,
        "{\"event\":\"property-change\",\"pane\":\"music\",\"property\":\"playlist-pos\",\"value\":0}",
        &vec![],
    );
    let o = handle_key(&mut a, Key::Char('D'));
    assert!(o.send.is_empty());
    assert_eq!(a.status_msg.as_deref(), Some("Cannot remove playing item"));
    handle_key(&mut a, Key::Char('j'));
    handle_key(&mut a, Key::Char(' '));
    handle_key(&mut a, Key::Char(' '));
    assert_eq!(a.selected_items, [1, 2]);
    let o = handle_key(&mut a, Key::Char('D'));
    assert_eq!(
        sent(&o),
        [
            "{\"args\":[2],\"command\":\"playlist-remove\",\"pane\":\"music\"}",
            "{\"args\":[1],\"command\":\"playlist-remove\",\"pane\":\"music\"}",
            "{\"command\":\"panebot:playlist-get\",\"pane\":\"music\"}",
        ]
    );
    assert!(a.selected_items.is_empty());
}

#[test]
fn moving_and_cropping() {
    let mut a = details(&["/a", "/b", "/c", "/d"]);
    handle_key(&mut a, Key::Char('M'));
    assert_eq!(a.status_msg.as_deref(), Some("Mark items with Space first"));
    handle_key(&mut a, Key::Char('C'));
    assert_eq!(a.status_msg.as_deref(), Some("Nothing playing to crop around"));
    handle_key(&mut a, Key::Char(' '));
    handle_key(&mut a, Key::Char('J'));
    let o = handle_key(&mut a, Key::Char('M'));
    assert_eq!(sent(&o)[0], "{\"args\":[0,3],\"command\":\"playlist-move\",\"pane\":\"music\"}");
    handle_key(&mut a, Key::Char('K'));
    handle_key(&mut a, Key::Char('j'));
    handle_key(&mut a, Key::Char(' '));
    let o = handle_key(&mut a, Key::Char('C'));
    let gone: Vec<String> =
        o.send.iter().filter_map(|m| m.get("args").map(|x| x.text())).collect();
    assert_eq!(gone, ["[3]", "[2]", "[0]"]);
    handle_key(&mut a, Key::Char(' '));
    handle_key(&mut a, Key::Esc);
    assert!(a.selected_items.is_empty());
}

#[test]
fn typing_adds_saves_and_jumps() {
    let mut a = details(&["/a", "/b", "/c", "/d"]);
    handle_key(&mut a, Key::Char('A'));
    assert_eq!(a.details_mode, DetailsMode::Add);
    for c in "~/x.mkvv".chars() {
        assert!(handle_key(&mut a, Key::Char(c)).send.is_empty());
    }
    handle_key(&mut a, Key::Backspace);
    let o = handle_key(&mut a, Key::Enter);
    assert_eq!(
        sent(&o)[0],
        "{\"args\":[\"/home/op/x.mkv\",\"append\"],\"command\":\"loadfile\",\"pane\":\"music\"}"
    );
    handle_key(&mut a, Key::Char('S'));
    for c in "mix".chars() {
        handle_key(&mut a, Key::Char(c));
    }
    let o = handle_key(&mut a, Key::Enter);
    assert_eq!(
        sent(&o),
        ["{\"command\":\"panebot:playlist-save\",\"pane\":\"music\",\"path\":\"/home/op/mix.m3u\"}"]
    );
    handle_key(&mut a, Key::Char('G'));
    handle_key(&mut a, Key::Char('2'));
    handle_key(&mut a, Key::Enter);
    assert_eq!(a.playlist_sel, 2);
    assert_eq!(jump_target("99", 0, 4), 3);
    assert_eq!(jump_target("", 1, 4), 1);
    assert_eq!(last_of(0), 0);
    assert_eq!(position_index(-1), 0);
}

#[test]
fn searching_goes_round() {
    let items = owned(&["Stalker", "Mirror", "Solaris", "stalker II"]);
    assert_eq!(search(&items, "stalk", 0), Some(3));
    assert_eq!(search(&items, "stalk", 3), Some(0));
    assert_eq!(search(&items, "mirror", 1), Some(1));
    assert_eq!(search(&items, "nothing", 0), None);
    let mut a = details(&["/Stalker", "/Mirror"]);
    handle_key(&mut a, Key::Char('/'));
    for c in "MIRR".chars() {
        handle_key(&mut a, Key::Char(c));
    }
    handle_key(&mut a, Key::Enter);
    assert_eq!(a.playlist_sel, 1);
    handle_key(&mut a, Key::Char('/'));
    handle_key(&mut a, Key::Char('z'));
    handle_key(&mut a, Key::Enter);
    assert_eq!(a.status_msg.as_deref(), Some("No match"));
}

#[test]
fn marks() {
    let mut m: Vec<usize> = vec![];
    toggle(&mut m, 3);
    toggle(&mut m, 1);
    assert_eq!(m, [1, 3]);
    assert!(is_marked(&m, 3) && !is_marked(&m, 2));
    let items = owned(&["a", "b", "c", "d", "e"]);
    assert_eq!(keep_marked(&items, &m), ["b", "d"]);
    assert_eq!(drop_marked(&items, &m), ["a", "c", "e"]);
    let (moved, _) = move_marked(&items, &m, 4);
    let mut all = moved.clone();
    all.sort();
    assert_eq!(all, items);
    toggle(&mut m, 3);
    toggle(&mut m, 3);
    assert_eq!(m, [1, 3]);
}

#[test]
fn boards_find_panes_by_name() {
    let mut b: Vec<PaneState> = vec![];
    put_state(&mut b, PaneState::new("a", "A"));
    put_state(&mut b, PaneState::new("b", "B"));
    let mut a = PaneState::new("a", "A");
    a.online = true;
    put_state(&mut b, a);
    assert_eq!(b.len(), 2);
    assert_eq!(find_state(&b, "b"), 1);
    assert_eq!(find_state(&b, "z"), 2);
    assert_eq!(count_online(&b), 1);
    set_all_offline(&mut b);
    assert_eq!(count_online(&b), 0);
}

#[test]
fn the_dashboard_shows_the_panes() {
    let mut a = app();
    process_event(
        &mut a,
        "{\"event\":\"online\",\"pane\":\"music\",\"state\":{\"paused\":false,\"idle_active\":false,\
         \"muted\":false,\"volume\":80,\"title\":\"Stalker\"}}",
        &vec![],
    );
    let rows = render_pane_list(&a);
    assert_eq!(rows.len(), 4);
    assert!(rows[0].selected && !rows[1].selected);
    let text = text_of(&rows[0].spans);
    assert!(text.starts_with(":: \"MUSIC\"") && text.contains("[Playing]") && text.contains("[Vol: 80 ]") && text.ends_with("Stalker"));
    assert_eq!(
        text_of(&dashboard_header(&a)),
        "[panebot] :: 10.0.0.1 :: Panes: 1/4 :: Layout: pb.left.stack"
    );
    handle_key(&mut a, Key::Tab);
    assert!(text_of(&render_pane_list(&a)[0].spans).ends_with(" [CMD]"));
    handle_key(&mut a, Key::Char('v'));
    assert!(text_of(&render_pane_list(&a)[0].spans).ends_with(" [MPV]"));
    assert_eq!(
        text_of(&dashboard_footer(false)),
        "[j/k] Nav :: [l/Rt] Detail :: [r/R] Restart :: [S] Solo :: [M] Mute\u{2205} :: [P] Pause\u{2205} :: \
         [W] Layout :: [C] Connect :: [h/Lt] Log :: [q] Quit"
    );
    assert_eq!(
        text_of(&dashboard_footer(true)),
        "[CMD] :: [Space] Pause [m] Mute [Enter] Next [h/l] \u{b1}5s [j/k] \u{b1}60s [9/0] Vol [f] Full \
         [v] Adv [Tab] Close "
    );
    let p = get_state(&a.panes, "music").unwrap();
    assert_eq!(p.volume_label(), ("Vol: 80".to_string(), Color::Cyan));
    assert_eq!(p.playback_label(), ("Playing", Color::Green));
    let mut quiet = PaneState::new("x", "X");
    assert_eq!(quiet.playback_label(), ("Offline", Color::Red));
    assert_eq!(quiet.volume_label(), ("Offline".to_string(), Color::Red));
    quiet.online = true;
    assert_eq!(quiet.playback_label(), ("Stopped", Color::Dim));
    assert_eq!(quiet.volume_label(), ("Vol:  ?".to_string(), Color::Dim));
    quiet.idle_active = Some(false);
    quiet.muted = Some(true);
    assert_eq!(quiet.playback_label(), ("Paused", Color::Hint));
    assert_eq!(quiet.volume_label(), ("Vol:Mute".to_string(), Color::Dim));
}

#[test]
fn the_selected_item_is_always_seen() {
    let names: Vec<String> = (0..50).map(|i| format!("/item-{}", i)).collect();
    let refs: Vec<&str> = names.iter().map(|s| s.as_str()).collect();
    let mut a = details(&refs);
    for sel in [0, 7, 25, 49] {
        a.playlist_sel = sel;
        let rows = details_rows(&a, 8);
        assert_eq!(rows.iter().filter(|r| r.selected).count(), 1);
        assert!(rows.len() <= 8);
    }
    assert!(details_header(&a).is_some());
    let footer = text_of(&details_footer(&a));
    assert!(footer.starts_with("[j/k] Nav :: [Spc] Mark :: [Enter] Play :: [n] Queue :: "));
    assert!(footer.ends_with(" :: [h/Lt] Back"));
}

#[test]
fn logs_and_hosts_are_shown() {
    let rows = render_log_body("one\ntwo\nthree\n", 2);
    assert_eq!(rows_of(&rows).len(), 2);
    assert!(rows_of(&rows)[1].contains("three"));
    let hosts = vec![
        Host { label: "local".to_string(), address: LOCAL_ADDR.to_string() },
        Host { label: "den".to_string(), address: "ws://10.0.0.2:9090".to_string() },
    ];
    let rows = render_host_picker(&hosts, 1);
    assert_eq!(
        rows_of(&rows),
        ["   local :: wss://127.0.0.1:9090", ">> den :: ws://10.0.0.2:9090"]
    );
    assert_eq!(text_of(&host_picker_header()), "[PaneBot] :: Select node to connect");
    assert_eq!(text_of(&host_picker_footer()), "[j/k] Select :: [Enter] Connect :: [q] Quit");
    assert_eq!(text_of(&render_startup("Connecting...")), "[PaneBot] :: Connecting...");
    assert_eq!(in_box("ab", 4), "[ab  ]");
    assert_eq!(rgb(Color::Plain), None);
    assert!(rgb(Color::Orange).is_some());
    assert!(bold_span("x", Color::Red, true).bold);
}

#[test]
fn hosts_are_chosen() {
    assert_eq!(host_choices(&vec![]).len(), 1);
    let known = vec![Host { label: "den".to_string(), address: "ws://10.0.0.2:9090".to_string() }];
    let c = host_choices(&known);
    assert_eq!(c[0].label, "local");
    assert_eq!(c[0].address, "wss://127.0.0.1:9090");
    assert_eq!(c[1].label, "den");
    assert_eq!(resolve_daemon_addr(0, 2, Key::Char('j')), PickMove::At(1));
    assert_eq!(resolve_daemon_addr(1, 2, Key::Char('j')), PickMove::At(1));
    assert_eq!(resolve_daemon_addr(0, 2, Key::Up), PickMove::At(0));
    assert_eq!(resolve_daemon_addr(1, 2, Key::Enter), PickMove::Take(1));
    assert_eq!(resolve_daemon_addr(1, 2, Key::Char('q')), PickMove::Quit);
    assert!(!is_remote(LOCAL_ADDR));
    assert!(is_remote("ws://10.0.0.2:9090"));
    assert!(may_spawn(LOCAL_ADDR, false, true));
    assert!(may_spawn(LOCAL_ADDR, true, false));
    assert!(!may_spawn(LOCAL_ADDR, true, true));
    assert!(!may_spawn("ws://10.0.0.2:9090", false, false));
}

#[test]
fn a_new_connection_forgets_the_node_and_keeps_the_screen() {
    let mut a = details(&["/a", "/b"]);
    a.owns_daemon = true;
    handle_key(&mut a, Key::Char(' '));
    a.reset();
    assert!(a.pane_order.is_empty() && a.panes.is_empty() && a.layouts.is_empty());
    assert!(a.hostname.is_empty() && a.ip.is_empty() && !a.owns_daemon);
    assert!(a.show_details);
    assert_eq!(a.playlist_items, ["/a", "/b"]);
    assert_eq!(a.playlist_sel, 1);
    assert_eq!(a.selected_items, [0]);
    // A second snapshot takes the place of the first.
    let mut b = app();
    let text = snapshot(&node(), "10.0.0.1", "/home/op", &vec![]).text();
    process_event(&mut b, &text, &vec![]);
    assert_eq!(b.pane_order.len(), 4);
}

#[test]
fn remote_daemons_are_waited_for_half_a_minute() {
    let addr = "ws://10.0.0.2:9090";
    assert_eq!(status_text(addr, Attempt::First), "Connecting to ws://10.0.0.2:9090...");
    let mut a = connect_ws(addr, Attempt::First, false).unwrap();
    assert_eq!(status_text(addr, a), "Waiting for ws://10.0.0.2:9090 (30s)...");
    let mut n = 1;
    while let Some(next) = connect_ws(addr, a, false) {
        a = next;
        n += 1;
    }
    assert_eq!(n, CONNECT_RETRIES);
    assert_eq!(status_text(addr, a), "Waiting for ws://10.0.0.2:9090 (1s)...");
    assert_eq!(timeout_text(addr), "Could not connect to ws://10.0.0.2:9090 after 30s");
    let local = connect_ws(LOCAL_ADDR, Attempt::First, true).unwrap();
    assert_eq!(local, Attempt::Local { spawned: true });
    assert_eq!(status_text(LOCAL_ADDR, local), "Starting daemon... [q] to cancel");
    assert_eq!(connect_ws(LOCAL_ADDR, local, false), Some(local));
    assert_eq!(
        status_text(LOCAL_ADDR, Attempt::Local { spawned: false }),
        "Waiting for daemon... [q] to cancel"
    );
}

#[test]
fn sessions_end_and_begin_again() {
    assert_eq!(run(true, Happening::NodeDown), Then::Reconnect { ms: 2000 });
    assert_eq!(run(true, Happening::Closed), Then::Reconnect { ms: 1000 });
    assert_eq!(run(true, Happening::Asked(KeyAction::Quit)), Then::End { shutdown: true });
    assert_eq!(run(false, Happening::Asked(KeyAction::Quit)), Then::End { shutdown: false });
    assert_eq!(run(false, Happening::Asked(KeyAction::Reconnect)), Then::Choose);
    assert_eq!(run(false, Happening::Asked(KeyAction::RenderDetails)), Then::Draw);
    assert_eq!(run(false, Happening::Asked(KeyAction::Nothing)), Then::Stay);
    assert_eq!(run(true, Happening::KeysEnded), Then::End { shutdown: false });
}

#[test]
fn json_is_read_and_written() {
    let v = Json::parse("{\"b\":[1,-2,3.5,null,true],\"a\":\"x\\ny\"}").unwrap();
    assert_eq!(v.text(), "{\"a\":\"x\\ny\",\"b\":[1,-2,3.5,null,true]}");
    assert_eq!(v.copy().text(), v.text());
    assert!(Json::parse("{").is_none());
    let b = v.get("b").unwrap().as_array().unwrap();
    assert_eq!(b[0].as_i64(), Some(1));
    assert_eq!(b[1].as_i64(), Some(-2));
    assert_eq!(b[2].as_i64(), None);
    assert_eq!(b[2].as_double().unwrap().rounded(), "4");
    assert_eq!(b[0].as_double().unwrap().in_three_columns(), "  1");
    assert_eq!(b[4].as_bool(), Some(true));
    assert_eq!(b[3].as_bool(), None);
    assert_eq!(Json::parse("18446744073709551615").unwrap().as_i64(), None);
    assert_eq!(Json::parse("18446744073709551615").unwrap().text(), "18446744073709551615");
    assert_eq!(Double::whole(7).copy().to_json().text(), "7.0");
}
