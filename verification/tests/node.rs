//! The daemon: players, clients, commands.
use panebot::client::{
    cmd_mute_others, cmd_pause_toggle_all, cmd_solo, flag_all, index_json, send_cmd0, send_cmd1,
    send_cmd2, send_node_cmd, set_flag,
};
use panebot::config::{load_config, load_types, parse_layout, Host, Layout, Pane};
use panebot::daemon::{
    handle_command, is_allowed, launch_pane, quit_command, wanted_layout, Node, Step,
    RESTART_ALL_WAIT_MS, RESTART_PANE_WAIT_MS,
};
use panebot::json::{Double, Json};
use panebot::names::PlaylistItem;
use panebot::manage::{ends_player, pane_lost, saved_playlist, write_panes_conf};
use panebot::node::{snapshot, DEFAULT_PANES_CONF, LAYOUT_LEFT_STACK};
use panebot::protocol::{
    connect_failed, connected, disconnected, greeting, handle_player_line, offline_message,
    subscriptions, DaemonEvent, PaneInfo, PaneState,
};
use panebot::typed::{
    bootstrap_complete, ensure_pane_files, launch_typed_pane, start_panes, switch_layout,
    typed_bootstrap, wanted_switch, LayoutStep, DEFAULT_TYPES_CONF, LAYOUT_SWAY_LEFT_STACK, TYPED_PANES_CONF,
};

fn node() -> Node {
    let c = load_config(Some(DEFAULT_PANES_CONF), "/home/op");
    let states = c.panes.iter().map(|p| PaneState::new(&p.mpv_name, &p.pane_name)).collect();
    Node {
        config: "/c".to_string(),
        panes: c.panes,
        states,
        connected: vec!["music".to_string(), "wide-top".to_string()],
        hostname: "panebot".to_string(),
        platform: "linux".to_string(),
        layout: c.layout,
    }
}

/// The steps of a command, each as one line.
fn steps(text: &str, node: &Node, layout: &Option<Layout>) -> Vec<String> {
    handle_command(text, node, layout).iter().map(line).collect()
}

fn line(s: &Step) -> String {
    match s {
        Step::Send { pane, message } => format!("{} < {}", pane, message.text()),
        Step::Kill { pane } => format!("kill {}", pane),
        Step::Launch { pane, args } => format!("launch {} {}", pane, args.join(" ")),
        Step::Sleep { ms } => format!("sleep {}", ms),
        Step::Broadcast { message } => format!("all < {}", message.text()),
        Step::SetLayout { name } => format!("layout {}", name),
        Step::Save { pane, path } => format!("save {} {}", pane, path),
        Step::AddPane { pane, from } => format!("add {} like {}", pane.mpv_name, from),
        Step::RemovePane { pane } => format!("remove {}", pane),
        Step::WritePanes { text } => format!("write {}", text),
        Step::Snapshot => "snapshot".to_string(),
        Step::Shutdown => "shutdown".to_string(),
    }
}

fn layout_line(s: &LayoutStep) -> String {
    match s {
        LayoutStep::Kill { pane } => format!("kill {}", pane),
        LayoutStep::Launch { pane, geometry } => format!("launch {} {:?}", pane, geometry),
        LayoutStep::Sleep { ms } => format!("sleep {}", ms),
        LayoutStep::Position { pane, message } => format!("position {} {}", pane, message),
        LayoutStep::Restore { pane, messages } => {
            let m: Vec<String> = messages.iter().map(|m| m.text()).collect();
            format!("restore {} {}", pane, m.join(" "))
        }
        LayoutStep::Broadcast { message } => format!("all < {}", message.text()),
    }
}

#[test]
fn every_observed_property_is_subscribed() {
    let s: Vec<String> = subscriptions().iter().map(|m| m.text()).collect();
    assert_eq!(s.len(), 9);
    assert_eq!(s[0], "{\"command\":[\"observe_property\",1,\"pause\"]}");
    assert_eq!(s[5], "{\"command\":[\"observe_property\",6,\"idle-active\"]}");
    assert_eq!(s[8], "{\"command\":[\"observe_property\",9,\"duration\"]}");
}

#[test]
fn property_changes_are_kept_and_relayed() {
    let mut s = PaneState::new("wide-top", "Wide Top");
    let m = handle_player_line(
        &mut s,
        "{\"event\":\"property-change\",\"id\":1,\"name\":\"pause\",\"data\":true}\n",
    );
    assert_eq!(s.paused, Some(true));
    assert_eq!(
        m.unwrap().text(),
        "{\"event\":\"property-change\",\"pane\":\"wide-top\",\"property\":\"pause\",\"value\":true}"
    );
    handle_player_line(&mut s, "{\"event\":\"property-change\",\"name\":\"volume\",\"data\":62.5}");
    assert_eq!(s.volume.as_ref().unwrap().to_json().text(), "62.5");
    handle_player_line(&mut s, "{\"event\":\"property-change\",\"name\":\"mute\",\"data\":true}");
    assert_eq!(s.muted, Some(true));
    handle_player_line(
        &mut s,
        "{\"event\":\"property-change\",\"name\":\"media-title\",\"data\":\"Stalker\"}",
    );
    assert_eq!(s.title.as_deref(), Some("Stalker"));
    handle_player_line(&mut s, "{\"event\":\"property-change\",\"name\":\"playlist-pos\",\"data\":2}");
    assert_eq!(s.playlist_pos, Some(2));
    handle_player_line(&mut s, "{\"event\":\"property-change\",\"name\":\"idle-active\",\"data\":false}");
    assert_eq!(s.idle_active, Some(false));
    // A player that has nothing to say of a property makes it unknown.
    handle_player_line(&mut s, "{\"event\":\"property-change\",\"name\":\"media-title\",\"data\":null}");
    assert_eq!(s.title, None);
}

#[test]
fn time_is_relayed_but_not_kept() {
    let mut s = PaneState::new("music", "Music");
    let m = handle_player_line(
        &mut s,
        "{\"event\":\"property-change\",\"name\":\"time-pos\",\"data\":1.5}",
    );
    assert_eq!(
        m.unwrap().text(),
        "{\"event\":\"property-change\",\"pane\":\"music\",\"property\":\"time-pos\",\"value\":1.5}"
    );
    assert_eq!(s.to_json().text(), PaneState::new("music", "Music").to_json().text());
}

#[test]
fn other_lines_say_nothing() {
    let mut s = PaneState::new("music", "Music");
    assert!(handle_player_line(&mut s, "no json").is_none());
    assert!(handle_player_line(&mut s, "{\"event\":\"seek\"}").is_none());
    assert!(handle_player_line(
        &mut s,
        "{\"event\":\"property-change\",\"name\":\"fullscreen\",\"data\":true}"
    )
    .is_none());
    assert!(handle_player_line(&mut s, "{\"error\":\"property unavailable\",\"data\":[]}").is_none());
}

#[test]
fn playlist_answers_are_relayed() {
    let mut s = PaneState::new("music", "Music");
    let m = handle_player_line(
        &mut s,
        "{\"data\":[{\"filename\":\"/a.mkv\",\"current\":true}],\"request_id\":0,\"error\":\"success\"}",
    );
    assert_eq!(
        m.unwrap().text(),
        "{\"event\":\"node:playlist\",\"items\":[{\"current\":true,\"filename\":\"/a.mkv\"}],\"pane\":\"music\"}"
    );
}

#[test]
fn players_come_and_go() {
    let mut s = PaneState::new("music", "Music");
    assert!(connect_failed(&mut s).is_none());
    let up = connected(&mut s);
    assert!(s.online);
    assert_eq!(up.str_at("event").as_deref(), Some("online"));
    assert_eq!(up.get("state").unwrap().bool_at("online"), Some(true));
    assert_eq!(
        connect_failed(&mut s).unwrap().text(),
        "{\"event\":\"offline\",\"pane\":\"music\"}"
    );
    assert!(!s.online);
    connected(&mut s);
    assert_eq!(disconnected(&mut s).text(), offline_message("music").text());
    assert!(!s.online);
}

#[test]
fn clients_are_greeted_with_every_state() {
    let mut n = node();
    n.states[0].online = true;
    let g = greeting(&n.states);
    assert_eq!(g.len(), 4);
    assert_eq!(g[0].str_at("event").as_deref(), Some("online"));
    assert_eq!(g[1].str_at("event").as_deref(), Some("offline"));
    assert_eq!(g[1].get("state").unwrap().str_at("mpv_name").as_deref(), Some("wide-top"));
}

#[test]
fn a_snapshot_holds_the_state_of_all_panes() {
    let mut n = node();
    n.states[1].online = true;
    n.states[1].paused = Some(false);
    n.states[1].muted = Some(false);
    n.states[1].volume = Some(Double::whole(80));
    n.states[1].title = Some("Stalker (1979)".to_string());
    n.states[1].playlist_pos = Some(2);
    n.states[1].idle_active = Some(false);
    let hosts = vec![Host {
        label: "remote-display".to_string(),
        address: "wss://192.168.1.101:9090".to_string(),
    }];
    let s = snapshot(&n, "192.168.1.100", "/home/op", &hosts);
    assert_eq!(s.str_at("event").as_deref(), Some("node:snapshot"));
    assert_eq!(s.str_at("ip").as_deref(), Some("192.168.1.100"));
    let panes = s.get("panes").unwrap().as_array().unwrap();
    assert_eq!(panes.len(), 4);
    assert_eq!(
        panes[1].text(),
        "{\"idle_active\":false,\"muted\":false,\"name\":\"wide-top\",\"online\":true,\
         \"pane_name\":\"Wide Top\",\"paused\":false,\"playlist_pos\":2,\"title\":\"Stalker (1979)\",\
         \"volume\":80.0}"
    );
    assert_eq!(
        s.get("known_hosts").unwrap().text(),
        "[{\"address\":\"wss://192.168.1.101:9090\",\"label\":\"remote-display\"}]"
    );
}

#[test]
fn commands_reach_their_player() {
    let n = node();
    let play = "{\"command\":\"loadfile\",\"pane\":\"wide-top\",\"args\":[\"https://example.com/s.m3u8\",\"replace\"]}";
    assert_eq!(
        steps(play, &n, &None),
        ["wide-top < {\"command\":[\"loadfile\",\"https://example.com/s.m3u8\",\"replace\"]}"]
    );
    let key = "{\"command\":\"keypress\",\"pane\":\"wide-top\",\"args\":[\"SPACE\"]}";
    assert_eq!(steps(key, &n, &None), ["wide-top < {\"command\":[\"keypress\",\"SPACE\"]}"]);
    let volume = "{\"command\":\"set_property\",\"pane\":\"music\",\"args\":[\"volume\",60]}";
    assert_eq!(steps(volume, &n, &None), ["music < {\"command\":[\"set_property\",\"volume\",60]}"]);
    let stop = "{\"command\":\"stop\",\"pane\":\"music\",\"args\":[]}";
    assert_eq!(steps(stop, &n, &None), ["music < {\"command\":[\"stop\"]}"]);
    let moved = "{\"command\":\"playlist-move\",\"pane\":\"music\",\"args\":[3,1]}";
    assert_eq!(steps(moved, &n, &None), ["music < {\"command\":[\"playlist-move\",3,1]}"]);
    let get = "{\"command\":\"playlist-get\",\"pane\":\"music\",\"args\":[]}";
    assert_eq!(steps(get, &n, &None), ["music < {\"command\":[\"get_property\",\"playlist\"]}"]);
}

#[test]
fn refused_messages_do_nothing() {
    let n = node();
    assert!(steps("no json", &n, &None).is_empty());
    assert!(steps("{\"pane\":\"music\",\"args\":[]}", &n, &None).is_empty());
    assert!(steps("{\"command\":\"run\",\"pane\":\"music\",\"args\":[\"sh\"]}", &n, &None).is_empty());
    assert!(steps("{\"command\":\"stop\",\"args\":[]}", &n, &None).is_empty());
    assert!(steps("{\"command\":\"stop\",\"pane\":\"music\"}", &n, &None).is_empty());
    assert!(steps("{\"command\":\"stop\",\"pane\":\"standard\",\"args\":[]}", &n, &None).is_empty());
    assert!(steps("{\"command\":\"panebot:nothing\"}", &n, &None).is_empty());
    assert!(is_allowed("keyup"));
    assert!(!is_allowed("run"));
}

#[test]
fn restarting_stops_all_panes_first() {
    let n = node();
    let layout = Some(parse_layout(LAYOUT_LEFT_STACK));
    let s = steps("{\"command\":\"panebot:restart-all\"}", &n, &layout);
    assert_eq!(s.len(), 10);
    assert_eq!(s[0], "kill music");
    assert_eq!(s[3], "kill standard");
    assert_eq!(s[4], format!("sleep {}", RESTART_ALL_WAIT_MS));
    assert_eq!(
        s[5],
        "launch music --input-ipc-server=/c/music/music.sock --title=MUSIC \
         --include=/c/music/music.mpv.conf --playlist=/c/music/music.m3u"
    );
    assert_eq!(s[9], "all < {\"event\":\"node:restart-all\"}");
}

#[test]
fn one_pane_is_restarted() {
    let n = node();
    let s = steps("{\"command\":\"panebot:restart-pane\",\"pane\":\"wide-top\"}", &n, &None);
    assert_eq!(s.len(), 4);
    assert_eq!(s[0], "kill wide-top");
    assert_eq!(s[1], format!("sleep {}", RESTART_PANE_WAIT_MS));
    assert!(s[2].starts_with("launch wide-top "));
    assert_eq!(s[3], "all < {\"event\":\"node:restart-pane\",\"pane\":\"wide-top\"}");
    assert!(steps("{\"command\":\"panebot:restart-pane\",\"pane\":\"none\"}", &n, &None).is_empty());
    assert!(steps("{\"command\":\"panebot:restart-pane\"}", &n, &None).is_empty());
}

#[test]
fn solo_and_mute_at_the_daemon() {
    let n = node();
    assert_eq!(
        steps("{\"command\":\"panebot:solo\",\"pane\":\"music\"}", &n, &None),
        [
            "music < {\"command\":[\"set_property\",\"mute\",false]}",
            "music < {\"command\":[\"set_property\",\"pause\",false]}",
            "wide-top < {\"command\":[\"set_property\",\"mute\",true]}",
        ]
    );
    assert_eq!(
        steps("{\"command\":\"panebot:mute-others\",\"pane\":\"music\"}", &n, &None),
        ["wide-top < {\"command\":[\"set_property\",\"mute\",true]}"]
    );
}

#[test]
fn volumes_for_several_panes() {
    let mut n = node();
    n.states[0].volume = Some(Double::whole(30));
    n.states[1].volume = Some(Double::whole(70));
    assert_eq!(
        steps("{\"command\":\"panebot:swap-volume\",\"pane_a\":\"music\",\"pane_b\":\"wide-top\"}", &n, &None),
        [
            "music < {\"command\":[\"set_property\",\"volume\",70.0]}",
            "wide-top < {\"command\":[\"set_property\",\"volume\",30.0]}",
        ]
    );
    assert_eq!(
        steps("{\"command\":\"panebot:set-volume-all\",\"volume\":55}", &n, &None),
        [
            "music < {\"command\":[\"set_property\",\"volume\",55.0]}",
            "wide-top < {\"command\":[\"set_property\",\"volume\",55.0]}",
        ]
    );
    assert!(steps("{\"command\":\"panebot:set-volume-all\"}", &n, &None).is_empty());
    assert_eq!(steps("{\"command\":\"panebot:stop-all\"}", &n, &None).len(), 2);
    assert_eq!(
        steps("{\"command\":\"panebot:start-all\"}", &n, &None)[0],
        "music < {\"command\":[\"set_property\",\"pause\",false]}"
    );
}

#[test]
fn news_of_the_node() {
    let n = node();
    let info = steps("{\"command\":\"panebot:node-info\"}", &n, &None);
    assert!(info[0].starts_with("all < {\"event\":\"node:info\",\"hostname\":\"panebot\",\"panes\":[{"));
    let status = steps("{\"command\":\"panebot:node-status\"}", &n, &None);
    assert!(status[0].starts_with("all < {\"event\":\"node:status\",\"panes\":[{"));
    let down = steps("{\"command\":\"panebot:shutdown\"}", &n, &None);
    assert_eq!(down[0], "all < {\"event\":\"node:down\",\"reason\":\"admin\"}");
    assert_eq!(down.last().unwrap(), "shutdown");
}

#[test]
fn playlists_at_the_daemon() {
    let n = node();
    assert_eq!(
        steps("{\"command\":\"panebot:reload-playlist\",\"pane\":\"music\"}", &n, &None),
        ["music < {\"command\":[\"loadlist\",\"/c/music/music.m3u\",\"replace\"]}"]
    );
    let saved = steps(
        "{\"command\":\"panebot:playlist-save\",\"pane\":\"music\",\"path\":\"/tmp/x.m3u\"}",
        &n,
        &None,
    );
    assert_eq!(saved[0], "save music /tmp/x.m3u");
    assert_eq!(
        saved.last().unwrap(),
        "all < {\"event\":\"node:playlist-saved\",\"pane\":\"music\",\"path\":\"/tmp/x.m3u\"}"
    );
}

#[test]
fn a_layout_is_wanted_by_name() {
    let n = node();
    let v = Json::parse("{\"command\":\"panebot:layout\",\"layout_name\":\"pb.right.stack\"}").unwrap();
    assert_eq!(wanted_layout(&v, &n).as_deref(), Some("pb.right.stack"));
    let s = steps(
        "{\"command\":\"panebot:layout\",\"layout_name\":\"pb.right.stack\"}",
        &n,
        &Some(parse_layout(LAYOUT_LEFT_STACK)),
    );
    assert!(s.contains(&"layout pb.right.stack".to_string()));
    assert_eq!(s.last().unwrap(), "all < {\"event\":\"node:layout\",\"layout\":\"pb.right.stack\"}");
}

#[test]
fn geometry_is_for_macos() {
    let n = node();
    let g = Some("366x366+0+0".to_string());
    let mac = launch_pane("/c", &n.panes[1], g.clone(), true);
    assert_eq!(mac[1], "--title=WIDE TOP");
    assert_eq!(mac[4], "--geometry=366x366+0+0");
    assert_eq!(launch_pane("/c", &n.panes[1], g, false).len(), 4);
    let own = Pane {
        mpv_name: "k".to_string(),
        pane_name: "K".to_string(),
        pane_type: "video".to_string(),
        playlist: Some("/srv/loop.m3u".to_string()),
    };
    assert_eq!(launch_pane("/c", &own, None, true)[3], "--playlist=/srv/loop.m3u");
    assert_eq!(quit_command().text(), "{\"command\":[\"quit\"]}");
}

#[test]
fn messages_of_a_client() {
    let order = vec!["music".to_string(), "wide-top".to_string()];
    assert_eq!(
        send_cmd0("music", "stop").text(),
        "{\"args\":[],\"command\":\"stop\",\"pane\":\"music\"}"
    );
    assert_eq!(
        send_cmd1("music", "playlist-play-index", index_json(2)).text(),
        "{\"args\":[2],\"command\":\"playlist-play-index\",\"pane\":\"music\"}"
    );
    assert_eq!(
        send_cmd2("music", "loadfile", Json::string("/a"), Json::string("append-play")).text(),
        "{\"args\":[\"/a\",\"append-play\"],\"command\":\"loadfile\",\"pane\":\"music\"}"
    );
    assert_eq!(
        send_node_cmd("panebot:playlist-get", "music").text(),
        "{\"command\":\"panebot:playlist-get\",\"pane\":\"music\"}"
    );
    assert_eq!(
        set_flag("music", "pause", true).text(),
        "{\"args\":[\"pause\",true],\"command\":\"set_property\",\"pane\":\"music\"}"
    );
    let muted: Vec<String> = cmd_mute_others("music", &order).iter().map(|m| m.text()).collect();
    assert_eq!(muted, ["{\"args\":[\"mute\",true],\"command\":\"set_property\",\"pane\":\"wide-top\"}"]);
    let paused: Vec<String> = cmd_pause_toggle_all(true, &order).iter().map(|m| m.text()).collect();
    assert_eq!(paused[0], "{\"args\":[\"pause\",true],\"command\":\"set_property\",\"pane\":\"music\"}");
    let resumed: Vec<String> = cmd_pause_toggle_all(false, &order).iter().map(|m| m.text()).collect();
    assert_eq!(
        resumed,
        [
            "{\"args\":[\"mute\",true],\"command\":\"set_property\",\"pane\":\"music\"}",
            "{\"args\":[\"pause\",false],\"command\":\"set_property\",\"pane\":\"music\"}",
            "{\"args\":[\"mute\",true],\"command\":\"set_property\",\"pane\":\"wide-top\"}",
            "{\"args\":[\"pause\",false],\"command\":\"set_property\",\"pane\":\"wide-top\"}",
        ]
    );
    assert_eq!(flag_all(&order, "mute", false).len(), 2);
}

#[test]
fn solo_mutes_others_goes_fullscreen_and_plays() {
    let order = vec!["music".to_string(), "wide-top".to_string()];
    let sent: Vec<String> = cmd_solo("music", &order).iter().map(|m| m.text()).collect();
    let set = |pane: &str, what: &str, value: bool| {
        format!("{{\"args\":[\"{}\",{}],\"command\":\"set_property\",\"pane\":\"{}\"}}", what, value, pane)
    };
    assert!(sent.contains(&set("wide-top", "mute", true)));
    assert!(sent.contains(&set("music", "fullscreen", true)));
    assert!(sent.contains(&set("music", "pause", false)));
    assert!(!sent.contains(&set("music", "mute", true)));
}

#[test]
fn what_clients_send_the_daemon_forwards() {
    let n = node();
    let text = send_cmd1("music", "playlist-remove", index_json(4)).text();
    assert_eq!(steps(&text, &n, &None), ["music < {\"command\":[\"playlist-remove\",4]}"]);
}

#[test]
fn typed_panes_start_from_their_type() {
    let c = load_config(Some(TYPED_PANES_CONF), "/home/op");
    let types = load_types(Some(DEFAULT_TYPES_CONF));
    assert_eq!(c.panes.len(), 4);
    assert_eq!(c.panes[0].pane_type, "video");
    let (text, scripts) = ensure_pane_files("/c", &c.panes[0], &types);
    assert_eq!(
        text,
        "# panebot mpv config — music [video]\n# Edit this file to tune mpv for this pane.\n\n\
         really-quiet=yes\npause=yes\nforce-window=yes\n"
    );
    assert!(scripts.is_empty());
    let scripted = load_types(Some("[video]\npause=yes\nscripts = a.lua\n"));
    let (text, scripts) = ensure_pane_files("/c", &c.panes[0], &scripted);
    assert!(text.ends_with("\nscripts-dir=/c/music/scripts\n"));
    assert_eq!(scripts, ["a.lua"]);
    let (text, _) = ensure_pane_files("/c", &c.panes[0], &vec![]);
    assert!(text.ends_with("for this pane.\n\n"));
    assert_eq!(
        launch_typed_pane("/c", &c.panes[0], None, false, false),
        [
            "--input-ipc-server=/c/music/music.sock",
            "--title=MUSIC",
            "--include=/c/music/music.mpv.conf",
            "--volume=100",
            "--mute=yes",
            "--pause=yes",
            "--idle=yes",
        ]
    );
    let placed = launch_typed_pane("/c", &c.panes[0], Some("1x1+0+0".to_string()), true, true);
    assert_eq!(placed[6], "--geometry=1x1+0+0");
    assert_eq!(placed[7], "/c/music/music.m3u");
    assert_eq!(typed_bootstrap("/c").len(), 6);
}

#[test]
fn switching_layouts_keeps_volume_and_mute() {
    let mut n = node();
    n.panes.truncate(2);
    n.states.truncate(1);
    n.states[0].volume = Some(Double::whole(40));
    n.states[0].muted = Some(true);
    let l = parse_layout(LAYOUT_SWAY_LEFT_STACK);
    let s: Vec<String> =
        switch_layout(&n, "pb.sway.left.stack", &l, true).iter().map(layout_line).collect();
    assert_eq!(
        s,
        [
            "kill music",
            "kill wide-top",
            "launch music None",
            "launch wide-top None",
            "sleep 500",
            "position music [title=\"MUSIC\"] floating enable, resize set 366 366, move position 0 0",
            "position wide-top [title=\"WIDE-TOP\"] floating enable, resize set 650 366, move position 0 374",
            "restore music {\"command\":[\"set_property\",\"volume\",40.0]} \
             {\"command\":[\"set_property\",\"mute\",true]} {\"command\":[\"set_property\",\"pause\",true]}",
            "restore wide-top {\"command\":[\"set_property\",\"volume\",100.0]} \
             {\"command\":[\"set_property\",\"mute\",false]} {\"command\":[\"set_property\",\"pause\",true]}",
            "all < {\"event\":\"node:layout\",\"layout\":\"pb.sway.left.stack\"}",
        ]
    );
}

#[test]
fn running_players_are_left_alone_at_the_start() {
    let n = node();
    let l = Some(parse_layout(LAYOUT_SWAY_LEFT_STACK));
    let s: Vec<String> = start_panes(&n.panes, &vec![true, true, true, false], &l, true)
        .iter()
        .map(layout_line)
        .collect();
    assert_eq!(s.len(), 3);
    assert_eq!(s[0], "launch standard None");
    assert_eq!(s[1], "sleep 500");
    assert!(s[2].starts_with("position standard [title=\"STANDARD\"]"));
    assert!(start_panes(&n.panes, &vec![true; 4], &l, true).is_empty());
    let switch = Json::parse("{\"command\":\"panebot:layout\",\"layout_name\":\"x\"}").unwrap();
    assert_eq!(wanted_switch(&switch).as_deref(), Some("x"));
    assert_eq!(wanted_switch(&Json::parse("{\"layout_name\":\"x\"}").unwrap()), None);
    let told = bootstrap_complete(&n, &vec![true, false, true, false]);
    assert_eq!(told.str_at("event").as_deref(), Some("bootstrap_complete"));
    let panes = told.get("panes").unwrap().as_array().unwrap();
    assert_eq!(panes[1].str_at("status").as_deref(), Some("Offline"));
    assert_eq!(panes[2].str_at("status").as_deref(), Some("Online"));
}

#[test]
fn typed_events_are_written_with_their_name() {
    let online = DaemonEvent::Online { pane: "music".to_string(), state: PaneState::new("music", "Music") };
    assert_eq!(
        online.to_json().text(),
        "{\"event\":\"online\",\"pane\":\"music\",\"state\":{\"idle_active\":null,\"mpv_name\":\"music\",\
         \"muted\":null,\"online\":false,\"pane_name\":\"Music\",\"paused\":null,\"playlist_pos\":null,\
         \"title\":null,\"volume\":null}}"
    );
    let offline = DaemonEvent::Offline { pane: "music".to_string() };
    assert_eq!(offline.to_json().text(), offline_message("music").text());
    assert_eq!(DaemonEvent::NodeDown.to_json().text(), "{\"event\":\"node:down\"}");
    assert_eq!(DaemonEvent::NodeRestartAll.to_json().text(), "{\"event\":\"node:restart-all\"}");
    let list = DaemonEvent::NodePlaylist {
        pane: "music".to_string(),
        items: vec![PlaylistItem { filename: "/a".to_string(), title: None }],
    };
    assert_eq!(
        list.to_json().text(),
        "{\"event\":\"node:playlist\",\"items\":[{\"filename\":\"/a\",\"title\":null}],\"pane\":\"music\"}"
    );
    let snapshot = DaemonEvent::NodeSnapshot {
        hostname: "h".to_string(),
        platform: "linux".to_string(),
        ip: "1.2.3.4".to_string(),
        layout: "l".to_string(),
        home: "/home".to_string(),
        panes: vec![PaneInfo { name: "music".to_string(), pane_name: "Music".to_string() }],
        known_hosts: vec![],
    };
    assert_eq!(
        snapshot.to_json().text(),
        "{\"event\":\"node:snapshot\",\"home\":\"/home\",\"hostname\":\"h\",\"ip\":\"1.2.3.4\",\
         \"known_hosts\":[],\"layout\":\"l\",\"panes\":[{\"name\":\"music\",\"pane_name\":\"Music\"}],\
         \"platform\":\"linux\"}"
    );
    let change = DaemonEvent::PropertyChange {
        pane: "music".to_string(),
        property: "pause".to_string(),
        value: Json::Bool(true),
    };
    assert_eq!(
        change.to_json().text(),
        "{\"event\":\"property-change\",\"pane\":\"music\",\"property\":\"pause\",\"value\":true}"
    );
}

#[test]
fn panes_are_cloned_and_removed() {
    let n = node();
    let layout = Some(parse_layout(LAYOUT_LEFT_STACK));
    let clone = "{\"command\":\"panebot:clone-pane\",\"pane\":\"wide-top\",\"new_name\":\"wide-top-2\",\
                 \"pane_name\":\"Wide Top 2\"}";
    let s = steps(clone, &n, &layout);
    assert_eq!(s.len(), 4);
    assert_eq!(s[0], "add wide-top-2 like wide-top");
    assert!(s[1].ends_with("[standard]\npane_name = Standard\n\n[wide-top-2]\npane_name = Wide Top 2\n"));
    assert!(s[2].starts_with("launch wide-top-2 --input-ipc-server=/c/wide-top-2/wide-top-2.sock "));
    assert_eq!(s[3], "snapshot");
    let taken = "{\"command\":\"panebot:clone-pane\",\"pane\":\"wide-top\",\"new_name\":\"music\"}";
    assert!(steps(taken, &n, &layout).is_empty());
    let nobody = "{\"command\":\"panebot:clone-pane\",\"pane\":\"nobody\",\"new_name\":\"x\"}";
    assert!(steps(nobody, &n, &layout).is_empty());
    let remove = "{\"command\":\"panebot:remove-pane\",\"pane\":\"wide-top\",\"args\":[]}";
    let s = steps(remove, &n, &layout);
    assert_eq!(s[0], "kill wide-top");
    assert_eq!(s[1], "remove wide-top");
    assert_eq!(
        s[2],
        "write layout = pb.left.stack\n\n[music]\npane_name = Music\n\n[wide-bottom]\n\
         pane_name = Wide Bottom\n\n[standard]\npane_name = Standard\n"
    );
    assert_eq!(s[3], "snapshot");
}

#[test]
fn the_panes_file_is_read_back() {
    let panes = vec![
        Pane {
            mpv_name: "a".to_string(),
            pane_name: "A = 1".to_string(),
            pane_type: "audio".to_string(),
            playlist: Some("/srv/a.m3u".to_string()),
        },
        Pane {
            mpv_name: "b".to_string(),
            pane_name: "".to_string(),
            pane_type: "video".to_string(),
            playlist: None,
        },
    ];
    let text = write_panes_conf("pb.split", &panes);
    let c = load_config(Some(&text), "/home/op");
    assert_eq!(c.layout, "pb.split");
    assert_eq!(c.panes.len(), 2);
    assert_eq!(c.panes[0].pane_name, "A = 1");
    assert_eq!(c.panes[0].pane_type, "audio");
    assert_eq!(c.panes[0].playlist.as_deref(), Some("/srv/a.m3u"));
    assert_eq!(c.panes[1].pane_name, "");
    assert_eq!(c.panes[1].pane_type, "video");
}

#[test]
fn crashed_players_are_started_again() {
    let n = node();
    let s: Vec<String> = pane_lost(&n, "music", false, &None).iter().map(line).collect();
    assert_eq!(s[0], "all < {\"event\":\"offline\",\"pane\":\"music\"}");
    assert!(s[1].starts_with("launch music "));
    assert_eq!(pane_lost(&n, "music", true, &None).len(), 1);
    assert_eq!(pane_lost(&n, "nobody", false, &None).len(), 1);
    assert!(ends_player(&quit_command()));
    assert!(!ends_player(&Json::parse("{\"command\":[\"stop\"]}").unwrap()));
}

#[test]
fn live_playlists_are_saved() {
    let answer = "{\"data\":[{\"filename\":\"/a \\\"b\\\".mkv\"},{\"title\":\"x\"},{\"filename\":\"/c\"}],\"error\":\"success\"}";
    let m = Json::parse(answer).unwrap();
    assert_eq!(saved_playlist(&m).as_deref(), Some("#EXTM3U\n/a \"b\".mkv\n/c\n"));
    assert!(saved_playlist(&Json::parse("{\"data\":[],\"error\":\"no\"}").unwrap()).is_none());
    assert!(saved_playlist(&Json::parse("{\"data\":1,\"error\":\"success\"}").unwrap()).is_none());
}
