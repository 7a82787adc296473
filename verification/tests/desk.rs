//! The desk: panes without a daemon, their set-up and their screens.
use panebot::complete::{build_completions, complete_lookup, complete_path, completion_parts, DirItem};
use panebot::desk::{
    bootstrap_environment, cmd_line, config_dir, expand_input, fetch_playlist, launch_pane,
    layout_path, load_layout, load_listed_panes, load_panes, mock_panes, mock_playlist, new_mpv_conf,
    new_pane, pane_mpv_conf, pane_playlist_file, pane_socket, query_line, query_mpv, read_window,
    refresh_pane, resolve_geometry, sync_m3u_from_mpv, tile_geo, type_flags, write_geometry,
    write_pane_to_conf, DEFAULT_LAYOUT, DEFAULT_PANES,
};
use panebot::desk_keys::{
    add_entries, dashboard_key, is_stream, playlist_completed, playlist_key, relaunch_step,
    render_dashboard_header, render_dashboard_row, render_dashboard_statusbar, render_playlist_header,
    render_playlist_row, render_playlist_statusbar, render_targets, send_item, DashMove,
    DashboardState, DeskOp, PlaylistState, RelaunchMove, RELAUNCH_COOLDOWN_MS,
};
use panebot::ini::{read_ini, read_line, split_pair, Entry};
use panebot::keys::Key;
use panebot::screen::Span;
use panebot::startup::{
    boot_lines, end_key, keep_looking, playlist_for, prompt_completed, prompt_key, prompt_options,
    prompt_typed, render_startup_screen, started, startup_header, EndMove, LaunchChoice, PromptMove, PromptState,
    StartupEntry,
};
use panebot::text::{
    comes_first, decimal_of, find_str, pad_left, pad_right, parse_u32, parse_usize, signed_of,
    sort_strings, split_lines, split_words, trim,
};
use panebot::wizard::{
    can_tile, complete_done, height_done, run_wizard, Ratio, WizardMove, WizardScreen, WizardState,
};
use panebot::wizard_screen::{
    divider, render_completions, render_wizard, wizard_footer, wizard_header,
};

fn owned(v: &[&str]) -> Vec<String> {
    v.iter().map(|s| s.to_string()).collect()
}

fn text_of(spans: &Vec<Span>) -> String {
    spans.iter().map(|s| s.text.clone()).collect()
}

#[test]
fn desk_paths() {
    let c = config_dir("/home/op");
    assert_eq!(c, "/home/op/.config/panebot");
    assert_eq!(pane_socket(&c, "music"), "/home/op/.config/panebot/music/music.sock");
    assert_eq!(pane_mpv_conf(&c, "music"), "/home/op/.config/panebot/music/music.mpv.conf");
    assert_eq!(pane_playlist_file(&c, "music"), "/home/op/.config/panebot/music/music.m3u");
    assert!(layout_path(&c, "left").ends_with("/left.layout"));
    assert!(new_mpv_conf("music", "audio").contains("\"music\" pane mpv config"));
}

#[test]
fn panes_are_read_back_from_their_file() {
    let before = "# panes\n[one]\nsocket = /tmp/one.sock\ntype = AUDIO\n";
    let p = new_pane(
        "two",
        "/tmp/two.sock",
        "video",
        None,
        Some("650x366+0+374".to_string()),
        Some("/srv/a=b.m3u".to_string()),
    );
    let text = format!("{}{}", before, write_pane_to_conf(&p));
    let panes = load_panes(Some(&text), "/home/op");
    assert_eq!(panes.len(), 2);
    assert_eq!(panes[0].name, "one");
    assert_eq!(panes[0].pane_type, "AUDIO");
    assert_eq!(panes[1].name, "two");
    assert_eq!(panes[1].socket, "/tmp/two.sock");
    assert_eq!(panes[1].pane_type, "video");
    assert_eq!(panes[1].slot, None);
    assert_eq!(panes[1].geometry.as_deref(), Some("650x366+0+374"));
    assert_eq!(panes[1].playlist.as_deref(), Some("/srv/a=b.m3u"));
    assert_eq!(panes[1].status, "Offline");
}

#[test]
fn panes_need_a_socket() {
    let panes = load_panes(Some("[a]\ntype = AUDIO\n[b]\nsocket = ~/b.sock\n"), "/home/op");
    assert_eq!(panes.len(), 1);
    assert_eq!(panes[0].socket, "/home/op/b.sock");
    assert_eq!(panes[0].pane_type, "VIDEO");
    assert!(load_panes(None, "/home/op").is_empty());
}

#[test]
fn listed_and_sample_panes() {
    let panes = load_listed_panes(Some("# name socket\nmusic /tmp/m.sock\n\nlonely\n"));
    assert_eq!(panes.len(), 1);
    assert_eq!((panes[0].name.as_str(), panes[0].socket.as_str()), ("music", "/tmp/m.sock"));
    assert_eq!(panes[0].status, "Stopped");
    let names: Vec<String> = mock_panes().into_iter().map(|p| p.name).collect();
    assert_eq!(names, ["Movies", "Music", "Shows", "Tunes"]);
    assert_eq!(mock_panes()[1].title, "Kind of Blue");
    let items = mock_playlist();
    assert_eq!(items.len(), 5);
    assert_eq!((items[4].index, items[4].title.as_str()), (4, "Spirited Away"));
}

#[test]
fn default_desk_files_make_panes() {
    let panes = load_panes(Some(DEFAULT_PANES), "/home/op");
    let slots = load_layout(Some(DEFAULT_LAYOUT));
    assert!(slots.get("no such slot").is_none());
    let placed: Vec<(String, Option<String>)> =
        panes.iter().map(|p| (p.name.clone(), resolve_geometry(p, &slots))).collect();
    assert_eq!(
        placed,
        [
            ("MUSIC".to_string(), Some("366x366+0+0".to_string())),
            ("MOVIES".to_string(), Some("650x366+0+374".to_string())),
            ("WEB".to_string(), Some("650x366+0+748".to_string())),
            ("TV".to_string(), Some("650x488+0+1122".to_string())),
        ]
    );
    assert_eq!(panes[2].pane_type, "HTTP");
    assert_eq!(panes[0].playlist.as_deref(), Some("/home/op/.config/panebot/music/music.m3u"));
    let made: Vec<(String, String)> = [("music", "VIDEO"), ("movies", "VIDEO"), ("web", "HTTP"), ("tv", "VIDEO")]
        .iter()
        .map(|(n, t)| (n.to_string(), t.to_string()))
        .collect();
    assert_eq!(bootstrap_environment(None), made);
    let own = vec![new_pane("a", "/s", "audio", None, None, None)];
    assert_eq!(bootstrap_environment(Some(&own)), [("a".to_string(), "audio".to_string())]);
}

#[test]
fn slots_give_geometries() {
    let slots = load_layout(Some("[slot-1]\ngeometry = 10x20+1+2\n"));
    assert_eq!(slots.get("slot-1").as_deref(), Some("10x20+1+2"));
    let own = new_pane("a", "/s", "video", Some("slot-1".to_string()), Some("1x1+0+0".to_string()), None);
    assert_eq!(resolve_geometry(&own, &slots).as_deref(), Some("10x20+1+2"));
    assert_eq!(resolve_geometry(&own, &load_layout(None)).as_deref(), Some("1x1+0+0"));
    let slotted = new_pane("a", "/s", "video", Some("slot-1".to_string()), None, None);
    assert_eq!(resolve_geometry(&slotted, &slots).as_deref(), Some("10x20+1+2"));
    assert_eq!(resolve_geometry(&slotted, &load_layout(None)), None);
}

#[test]
fn players_start_by_type() {
    assert_eq!(type_flags("audio"), ["--vid=no", "--force-window=yes", "--keep-open=yes"]);
    assert_eq!(type_flags("RTSP"), ["--force-window=yes", "--keep-open=yes", "--rtsp-transport=tcp"]);
    let p = new_pane("a", "/s", "video", None, Some("1x1+0+0".to_string()), None);
    let slots = load_layout(None);
    assert_eq!(
        launch_pane(&p, &slots, Some("/a.mpv.conf".to_string()), None),
        [
            "--input-ipc-server=/s",
            "--really-quiet",
            "--pause",
            "--mute=yes",
            "--force-window=yes",
            "--keep-open=yes",
            "--include=/a.mpv.conf",
            "--geometry=1x1+0+0",
            "--idle=yes",
        ]
    );
    assert_eq!(launch_pane(&p, &slots, None, Some("/a.m3u".to_string())).last().unwrap(), "/a.m3u");
}

#[test]
fn players_are_asked_and_answer() {
    assert_eq!(query_line("pause"), "{\"command\":[\"get_property_string\",\"pause\"]}\n");
    assert_eq!(cmd_line(&owned(&["seek", "10"])), "{\"command\":[\"seek\",\"10\"]}\n");
    let lines = owned(&["{\"event\":\"pause\"}", "{\"data\":\"yes\",\"error\":\"success\"}"]);
    assert_eq!(query_mpv(&lines).as_deref(), Some("yes"));
    assert_eq!(query_mpv(&owned(&["{\"event\":\"pause\"}"])), None);
    let list = owned(&[
        "{\"data\":[{\"filename\":\"/x/a.mkv\"},{\"filename\":\"/x/b.mkv\",\"title\":\"Bee\"}],\"error\":\"success\"}",
    ]);
    let items = fetch_playlist(&list);
    assert_eq!(items.len(), 2);
    assert_eq!(items[1].title, "Bee");
    assert_eq!(sync_m3u_from_mpv(&list).as_deref(), Some("/x/a.mkv\n/x/b.mkv\n"));
    assert_eq!(sync_m3u_from_mpv(&owned(&["no json"])), None);
    let mut p = new_pane("a", "/s", "video", None, None, None);
    refresh_pane(&mut p, true, Some("no".to_string()), Some("yes".to_string()), 55, Some("T".to_string()));
    assert_eq!((p.status.as_str(), p.muted, p.volume, p.title.as_str()), ("Playing", true, 55, "T"));
    refresh_pane(&mut p, true, Some("yes".to_string()), None, 55, None);
    assert_eq!((p.status.as_str(), p.muted), ("Stopped", false));
    refresh_pane(&mut p, false, None, None, 0, None);
    assert_eq!((p.status.as_str(), p.volume), ("Offline", 0));
}

#[test]
fn input_is_expanded() {
    assert_eq!(expand_input("~/a.mkv", "/home/op", None), ["/home/op/a.mkv"]);
    let media = owned(&["/d/1.mkv", "/d/2.mkv"]);
    assert_eq!(expand_input("/d", "/home/op", Some(&media)), media);
}

#[test]
fn geometries_are_read_as_written() {
    assert_eq!(write_geometry(650, 366, 0, 374), "650x366+0+374");
    assert_eq!(read_window("650x366+0+374"), (650, 366, 0, 374));
    assert_eq!(write_geometry(0, 366, 5, 6), "+5+6");
    assert_eq!(read_window("+5+6"), (0, 0, 5, 6));
    assert_eq!(read_window("nonsense"), (0, 0, 0, 0));
    assert_eq!(tile_geo("100x50+10+20", 30, 40, true), "30x40+110+20");
    assert_eq!(tile_geo("100x50+10+20", 30, 40, false), "30x40+10+70");
}

fn press(w: &mut WizardState, k: Key) -> WizardMove {
    assert!(can_tile(w, k));
    run_wizard(w, k, "/c")
}

fn kind(w: &mut WizardState, s: &str) {
    for c in s.chars() {
        press(w, Key::Char(c));
    }
}

#[test]
fn the_wizard_sets_up_as_many_panes_as_asked_for() {
    let mut w = WizardState::new();
    assert_eq!(text_of(&wizard_header(&w)), "[PaneBot]  ::  New Pane Setup  ::  [1/1] ::");
    let body: Vec<String> = render_wizard(&w, 80).iter().map(text_of).collect();
    assert_eq!(body, ["", " How many panes? _"]);
    assert_eq!(text_of(&wizard_footer()), "[q] Abort wizard");
    press(&mut w, Key::Enter);
    assert_eq!(w.error.as_deref(), Some("Enter a number greater than 0"));
    let body: Vec<String> = render_wizard(&w, 80).iter().map(text_of).collect();
    assert_eq!(body, ["", " How many panes? _", "", " ! Enter a number greater than 0"]);
    kind(&mut w, "2");
    press(&mut w, Key::Enter);
    assert_eq!(w.screen, WizardScreen::PaneName);
    press(&mut w, Key::Enter);
    assert_eq!(w.error.as_deref(), Some("Name cannot be empty"));
    kind(&mut w, "mu sic");
    press(&mut w, Key::Enter);
    assert_eq!(w.name, "music");
    press(&mut w, Key::Char('9'));
    assert_eq!(w.error.as_deref(), Some("Press 1-5"));
    press(&mut w, Key::Char('2'));
    assert_eq!(w.pane_type, "audio");
    assert_eq!(w.screen, WizardScreen::Geometry);
    press(&mut w, Key::Char('y'));
    assert_eq!(w.error.as_deref(), Some("Press 1 or 2"));
    press(&mut w, Key::Char('2'));
    assert_eq!(w.screen, WizardScreen::Width);
    kind(&mut w, "640");
    press(&mut w, Key::Enter);
    assert_eq!(w.screen, WizardScreen::AspectRatio);
    assert_eq!(press(&mut w, Key::Char('1')), WizardMove::Height(Ratio::Widescreen));
    height_done(&mut w, 360);
    assert_eq!(w.screen, WizardScreen::ScreenPosition);
    press(&mut w, Key::Char('1'));
    assert_eq!(w.geometry.as_deref(), Some("640x360+0+0"));
    press(&mut w, Key::Char('y'));
    assert_eq!(press(&mut w, Key::Char('/')), WizardMove::Complete);
    complete_done(&mut w, owned(&["/a.m3u", "/b.m3u"]), false);
    press(&mut w, Key::Tab);
    assert_eq!(w.input_buf, "/b.m3u");
    assert_eq!(render_completions(&w.completions, w.comp_sel).len(), 2);
    press(&mut w, Key::Enter);
    assert_eq!(w.playlist.as_deref(), Some("/b.m3u"));
    assert_eq!(press(&mut w, Key::Enter), WizardMove::Created);
    assert_eq!(w.panes.len(), 1);
    assert_eq!(w.panes[0].socket, "/c/music/music.sock");
    // The second pane stands beside the first.
    kind(&mut w, "wide");
    press(&mut w, Key::Enter);
    press(&mut w, Key::Char('1'));
    press(&mut w, Key::Char('2'));
    kind(&mut w, "300");
    press(&mut w, Key::Enter);
    press(&mut w, Key::Char('4'));
    height_done(&mut w, 300);
    assert_eq!(w.screen, WizardScreen::TileWith);
    press(&mut w, Key::Char('1'));
    assert_eq!(w.geometry.as_deref(), Some("300x300+640+0"));
    press(&mut w, Key::Char('n'));
    assert_eq!(press(&mut w, Key::Enter), WizardMove::Finished);
    assert_eq!(w.panes.len(), 2);
    assert_eq!(press(&mut WizardState::new(), Key::Char('q')), WizardMove::Abort);
    assert_eq!(divider(4).chars().count(), 4);
}

#[test]
fn start_up_offers_what_there_is() {
    let mut p = PromptState::new(false, false);
    assert!(matches!(prompt_key(&mut p, Key::Char('p')), PromptMove::Stay));
    assert!(matches!(prompt_key(&mut p, Key::Enter), PromptMove::Choose(LaunchChoice::Empty)));
    let mut p = PromptState::new(true, true);
    assert!(matches!(prompt_key(&mut p, Key::Enter), PromptMove::Choose(LaunchChoice::LastPlaylist)));
    assert!(matches!(prompt_key(&mut p, Key::Char('p')), PromptMove::Choose(LaunchChoice::PaneDefault)));
    assert_eq!(
        text_of(&prompt_options(&p)),
        "  [Enter] Last Playlist  ::  [n] New Playlist  ::  [e] Empty Playlist  ::  [p] Pane Default"
    );
    assert_eq!(
        text_of(&prompt_options(&PromptState::new(false, false))),
        "  [Enter] Last Playlist  ::  [n] New Playlist  ::  [e] Empty Playlist"
    );
    prompt_key(&mut p, Key::Char('n'));
    assert!(matches!(prompt_key(&mut p, Key::Char('/')), PromptMove::Complete));
    prompt_completed(&mut p, owned(&["/x.m3u"]), true);
    assert_eq!(text_of(&prompt_typed(&p).unwrap()), "  Playlist: /x.m3u_");
    assert!(prompt_typed(&PromptState::new(true, true)).is_none());
    match prompt_key(&mut p, Key::Enter) {
        PromptMove::Choose(c) => {
            let pane = new_pane("a", "/s", "video", None, None, Some("/own.m3u".to_string()));
            assert_eq!(playlist_for(&c, &pane, "/c").as_deref(), Some("/x.m3u"));
            assert_eq!(playlist_for(&LaunchChoice::PaneDefault, &pane, "/c").as_deref(), Some("/own.m3u"));
            assert_eq!(playlist_for(&LaunchChoice::LastPlaylist, &pane, "/c").as_deref(), Some("/c/a/a.m3u"));
            assert_eq!(playlist_for(&LaunchChoice::Empty, &pane, "/c"), None);
        }
        other => panic!("{:?}", other),
    }
    assert!(started(&vec![false, true]));
    assert!(!started(&vec![false, false]));
    let boot = boot_lines("default", false);
    assert_eq!(
        boot,
        [
            "[PaneBot] :: Checking Environment :: Done!",
            "[PaneBot] :: Loading Our Layout :: \"Default\"",
            "",
            "[PaneBot] :: Bringin' The Panes ::",
        ]
    );
    assert_eq!(boot_lines("default", true)[1], "[PaneBot] :: No Panes Found! :: Creating Default Layout");
    assert_eq!(end_key(Key::Enter), EndMove::Enter);
    assert_eq!(end_key(Key::Char(' ')), EndMove::Enter);
    assert_eq!(end_key(Key::Char('q')), EndMove::Quit);
    assert_eq!(end_key(Key::Char('x')), EndMove::Stay);
    assert!(keep_looking(&vec![false; 15]));
    assert!(!keep_looking(&vec![false; 16]));
    assert!(!keep_looking(&vec![false, true]));
    let entries = vec![StartupEntry { name: "music".to_string(), active: true }];
    let rows = render_startup_screen(&boot, &entries);
    assert_eq!(rows.len(), boot.len() + 1);
    assert_eq!(text_of(&rows[4].spans), "[PaneBot] :: \"music\" :: [Active]");
    assert_eq!(text_of(&startup_header(true)), "[PaneBot] :: Startup Complete :: Press [Enter]");
    assert_eq!(text_of(&startup_header(false)), "[PaneBot]  ::  Starting Up .... ::");
}

#[test]
fn relaunches_are_spaced() {
    let mut d = DashboardState::new();
    assert!(d.can_relaunch(0, 0));
    assert!(d.should_relaunch(0, true, true, 1000));
    assert!(!d.should_relaunch(0, true, true, 1000 + RELAUNCH_COOLDOWN_MS - 1));
    assert!(d.can_relaunch(1, 1000));
    assert!(d.should_relaunch(0, true, true, 1000 + RELAUNCH_COOLDOWN_MS));
    assert!(!d.should_relaunch(1, false, true, 1000));
    assert!(!d.should_relaunch(1, true, false, 1000));
    d.mark_relaunch(1, 5);
    assert!(!d.can_relaunch(1, 6));
}

fn args_of(op: &DeskOp) -> Vec<String> {
    match op {
        DeskOp::Cmd { args, .. } => args.clone(),
        other => panic!("{:?}", other),
    }
}

#[test]
fn desk_dashboard_keys() {
    let mut d = DashboardState::new();
    dashboard_key(&mut d, false, 2, Key::Char('j'));
    dashboard_key(&mut d, false, 2, Key::Char('j'));
    assert_eq!(d.cursor, 1);
    assert_eq!(dashboard_key(&mut d, false, 2, Key::Enter).0, DashMove::Open);
    assert_eq!(dashboard_key(&mut d, false, 2, Key::Char('q')).0, DashMove::Quit);
    dashboard_key(&mut d, false, 2, Key::Tab);
    assert!(d.cmd_mode);
    let (_, ops) = dashboard_key(&mut d, false, 2, Key::Char('-'));
    assert_eq!(args_of(&ops[0]), ["add", "volume", "-5"]);
    let (_, ops) = dashboard_key(&mut d, true, 2, Key::Char(' '));
    assert!(ops.is_empty());
    let (_, ops) = dashboard_key(&mut d, true, 2, Key::Char('R'));
    assert!(matches!(ops[0], DeskOp::Relaunch { pane: 1, quit: false }));
    assert!(!d.cmd_mode);
    assert_eq!(
        text_of(&render_dashboard_statusbar(false)),
        "[j/k] Select :: [Tab] Cmd Mode :: [Enter] Pane Details :: [q] Exit PaneBot"
    );
    assert_eq!(
        text_of(&render_dashboard_statusbar(true)),
        "[Space] Play :: [m] Mute :: [Left/Right] Seek 10s :: [Up/Down] Seek 1m :: [=/-] Vol :: \
         [n/N] Next/Prev :: [R] Relaunch :: [F] Full :: [Tab] Exit Cmd"
    );
    assert_eq!(text_of(&render_dashboard_header()), "[PaneBot]  ::  Active Panes ::");
    let mut p = new_pane("music", "/s", "video", None, None, None);
    let row = render_dashboard_row(&p, true, true);
    assert!(row.selected);
    assert_eq!(
        text_of(&row.spans),
        ":: \"music\"      :: [video] :: [Offline] :: [Offline]  :: \u{2014}  [CMD]"
    );
    p.status = "Playing".to_string();
    p.volume = 7;
    assert_eq!(
        text_of(&render_dashboard_row(&p, false, false).spans),
        "   \"music\"      :: [video] :: [Playing] :: [Vol:  7%] :: \u{2014}"
    );
    assert_eq!(
        text_of(&render_playlist_header(&p)),
        "[PaneBot] :: \"music\" :: [video] :: [Playing] :: [Vol:  7%] ::"
    );
    let q = new_pane("tv", "/t", "http", None, None, None);
    let r = new_pane("web", "/w", "rtsp", None, None, None);
    let rows: Vec<String> =
        render_targets(&vec![p, q, r], 0, 2).iter().map(|r| text_of(&r.spans)).collect();
    assert_eq!(rows, ["   \"tv\" [http]", ">> \"web\" [rtsp]"]);
    assert_eq!(relaunch_step(true, 0), RelaunchMove::Wait { waits: 1 });
    assert_eq!(relaunch_step(true, 20), RelaunchMove::Start);
    assert_eq!(relaunch_step(false, 3), RelaunchMove::Start);
}

#[test]
fn desk_playlist_keys() {
    let mut pl = PlaylistState::new();
    pl.items = mock_playlist();
    playlist_key(&mut pl, 0, 2, false, Key::Char('j'));
    assert_eq!(pl.cursor, 1);
    playlist_key(&mut pl, 0, 2, false, Key::Tab);
    let (left, ops) = playlist_key(&mut pl, 0, 2, false, Key::Enter);
    assert!(!left);
    assert_eq!(args_of(&ops[0]), ["set_property", "playlist-pos", "1"]);
    playlist_key(&mut pl, 0, 2, false, Key::Tab);
    playlist_key(&mut pl, 0, 2, false, Key::Char('m'));
    playlist_key(&mut pl, 0, 2, false, Key::Char('3'));
    assert_eq!(text_of(&render_playlist_statusbar(&pl)), "Move to position: 3_");
    let (_, ops) = playlist_key(&mut pl, 0, 2, false, Key::Enter);
    assert_eq!(args_of(&ops[0]), ["playlist-move", "1", "3"]);
    assert!(matches!(ops[1], DeskOp::Sync { pane: 0 }));
    pl.reset();
    playlist_key(&mut pl, 0, 2, false, Key::Tab);
    assert_eq!(
        text_of(&render_playlist_statusbar(&pl)),
        "[Enter] Play Now :: [r] Remove :: [m] Move Pos :: [s] Send To Pane :: [Tab] Exit Modify"
    );
    playlist_key(&mut pl, 0, 2, false, Key::Char('s'));
    assert_eq!(pl.send_pane_cursor, 1);
    assert_eq!(
        text_of(&render_playlist_statusbar(&pl)),
        "[j/k] Select Pane :: [Enter] Send Here :: [Esc] Cancel"
    );
    let (_, ops) = playlist_key(&mut pl, 0, 2, false, Key::Enter);
    assert!(matches!(ops[0], DeskOp::SendItem { from: 0, to: 1, .. }));
    pl.reset();
    playlist_key(&mut pl, 0, 2, false, Key::Char('n'));
    playlist_key(&mut pl, 0, 2, false, Key::Char('/'));
    assert_eq!(text_of(&render_playlist_statusbar(&pl)), "Add to playlist: /_");
    assert!(matches!(playlist_key(&mut pl, 0, 2, false, Key::Tab).1[0], DeskOp::Complete));
    playlist_completed(&mut pl, owned(&["/a", "/b"]));
    playlist_key(&mut pl, 0, 2, false, Key::Tab);
    let (_, ops) = playlist_key(&mut pl, 0, 2, false, Key::Enter);
    assert!(matches!(&ops[0], DeskOp::Add { input, as_is: false, .. } if input.starts_with('/')));
    assert_eq!(
        text_of(&render_playlist_statusbar(&pl)),
        "[j/k] Select :: [Tab] Modify :: [c] Crop :: [n] Add :: [Backspace] Return"
    );
    let row = render_playlist_row(&pl.items[0], true, true);
    assert!(row.selected);
    assert_eq!(text_of(&row.spans), ">> 0   :: The Princess Bride  [CMD]");
    assert!(playlist_key(&mut pl, 0, 2, false, Key::Backspace).0);
    assert!(is_stream("RTSP") && !is_stream("VIDEO"));
    let (text, ops) = add_entries(0, &owned(&["/a", "/b"]));
    assert_eq!(text, "/a\n/b\n");
    assert_eq!(args_of(&ops[0]), ["loadfile", "/a", "append-play"]);
    let ops = send_item(&mut pl, 0, 1, 2, Some("/a".to_string()));
    assert_eq!(args_of(&ops[0]), ["loadfile", "/a", "append-play"]);
    assert!(send_item(&mut pl, 0, 1, 2, None).is_empty());
}

#[test]
fn paths_are_completed() {
    let items = vec![
        DirItem { name: "films".to_string(), is_dir: true },
        DirItem { name: "film.mkv".to_string(), is_dir: false },
        DirItem { name: "film.txt".to_string(), is_dir: false },
        DirItem { name: "other.mkv".to_string(), is_dir: false },
    ];
    assert_eq!(completion_parts("~/fi", Some("/home/op")), ("/home/op/".to_string(), "fi".to_string()));
    assert_eq!(completion_parts("fi", None), ("./".to_string(), "fi".to_string()));
    assert_eq!(build_completions("~/fi", Some("/home/op"), &items), ["~/film.mkv", "~/films/"]);
    assert_eq!(complete_lookup("http://x", "/home/op"), None);
    assert_eq!(complete_lookup("", "/home/op"), None);
    assert_eq!(complete_lookup("/srv/fi", "/home/op"), Some(("/srv".to_string(), "fi".to_string())));
    assert_eq!(complete_lookup("/srv/", "/home/op"), Some(("/srv/".to_string(), "".to_string())));
    let found = complete_path("/srv", "fi", &items);
    assert!(found.contains(&"/srv/films/".to_string()) && found.contains(&"/srv/film.mkv".to_string()));
    assert!(!found.iter().any(|f| f.contains("other")));
}

#[test]
fn plain_files_are_read_by_line() {
    assert!(matches!(read_line("# x"), Entry::Nothing));
    assert!(matches!(read_line("  [ a ]  "), Entry::Section(s) if s == " a "));
    assert!(matches!(read_line(" k = v = w "), Entry::Pair(k, v) if k == "k" && v == "v = w"));
    assert!(matches!(read_line("word"), Entry::Nothing));
    assert_eq!(split_pair("=x"), Some(("".to_string(), "x".to_string())));
    let ini = read_ini("a = 1\n[s]\nb = 2\n");
    assert_eq!(ini.all.len(), 2);
    assert_eq!(ini.sections[0].pairs, [("b".to_string(), "2".to_string())]);
}

#[test]
fn texts() {
    assert_eq!(trim(" \u{3000}a b\r\n"), "a b");
    assert_eq!(split_lines("a\r\nb\n\nc"), ["a", "b", "", "c"]);
    assert_eq!(split_words("  a\tb  c "), ["a", "b", "c"]);
    assert_eq!(parse_u32("4294967295"), Some(u32::MAX));
    assert_eq!(parse_u32("4294967296"), None);
    assert_eq!(parse_u32("+7"), Some(7));
    assert_eq!(parse_u32("-7"), None);
    assert_eq!(parse_usize(""), None);
    assert_eq!(parse_usize("18446744073709551615"), Some(usize::MAX));
    assert_eq!(parse_usize("18446744073709551616"), None);
    assert_eq!(decimal_of(0), "0");
    assert_eq!(decimal_of(usize::MAX), "18446744073709551615");
    assert_eq!(signed_of(i64::MIN), "-9223372036854775808");
    assert_eq!(pad_right("ab", 4), "ab  ");
    assert_eq!(pad_left("ab", 4), "  ab");
    assert!(comes_first("a", "ab") && !comes_first("b", "ab"));
    assert_eq!(sort_strings(&owned(&["b", "a", "B"])), ["B", "a", "b"]);
    assert_eq!(find_str("abcabc", "ca"), Some(2));
    assert_eq!(find_str("abc", "x"), None);
}
