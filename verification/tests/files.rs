//! Configuration files, paths, playlists and names.
use panebot::boot::{missing_files, node_dirs, pane_dirs, pane_files};
use panebot::config::{
    bind_address, find_type, load_config, load_daemon_mode, load_hosts, load_types, parse_layout,
};
use panebot::m3u::{
    playlist_entries, m3u_append, m3u_crop, m3u_remove, playlist_directories, read_m3u, save_playlist,
    write_m3u,
};
use panebot::names::{
    display_name, is_hex_hash, is_media, percent_decode, strip_ext, url_decode, PlaylistItem,
};
use panebot::node::{
    bootstrap, hostname, log_line, mpv_conf_text, platform, DEFAULT_HOSTS_CONF, DEFAULT_PANES_CONF,
    LAYOUT_LEFT_STACK, LAYOUT_RIGHT_STACK,
};
use panebot::paths::{
    cert_path, config_dir, expand_tilde, home_dir, hosts_conf, hypr_rules_path, join, key_path,
    layouts_dir, pane_dir, pane_mpv_conf, pane_playlist, pane_playlist_path, pane_scripts, pane_socket,
    panes_conf, scripts_lib, types_conf,
};
use panebot::walk::{collect_media_files, in_order, walk_dir, DirNode};

fn owned(v: &[&str]) -> Vec<String> {
    v.iter().map(|s| s.to_string()).collect()
}

#[test]
fn paths_of_a_node() {
    let c = "/home/op/.config/panebot";
    assert_eq!(config_dir(true, None, Some("/home/op")), c);
    assert_eq!(config_dir(true, Some("/xdg"), Some("/home/op")), "/xdg/panebot");
    assert_eq!(config_dir(true, Some("/xdg"), None), "/xdg/panebot");
    assert_eq!(config_dir(false, Some("/xdg"), Some("/home/op")), c);
    assert_eq!(config_dir(true, Some(""), Some("/home/op")), c);
    assert_eq!(config_dir(true, None, None), "./.config/panebot");
    assert_eq!(layouts_dir(c), "/home/op/.config/panebot/layouts");
    assert_eq!(panes_conf(c), "/home/op/.config/panebot/pb.panes.conf");
    assert_eq!(hosts_conf(c), "/home/op/.config/panebot/pb.daemon.conf");
    assert_eq!(types_conf(c), "/home/op/.config/panebot/pb.types.conf");
    assert_eq!(scripts_lib(c), "/home/op/.config/panebot/scripts");
    assert_eq!(cert_path(c), "/home/op/.config/panebot/pb.crt");
    assert_eq!(key_path(c), "/home/op/.config/panebot/pb.key");
    assert_eq!(hypr_rules_path(c), "/home/op/.config/panebot/pb.hypr.conf");
    assert_eq!(pane_dir(c, "music"), "/home/op/.config/panebot/music");
    assert_eq!(pane_scripts(c, "music"), "/home/op/.config/panebot/music/scripts");
    assert_eq!(pane_socket(c, "music"), "/home/op/.config/panebot/music/music.sock");
    assert_eq!(pane_mpv_conf(c, "music"), "/home/op/.config/panebot/music/music.mpv.conf");
    assert_eq!(pane_playlist(c, "music"), "/home/op/.config/panebot/music/music.m3u");
    assert_eq!(pane_playlist_path(c, "music"), "/home/op/.config/panebot/music/music.m3u");
}

#[test]
fn files_of_different_panes_differ() {
    assert_ne!(pane_socket("/c", "a"), pane_socket("/c", "b"));
    assert_ne!(pane_socket("/c", "a"), pane_playlist("/c", "a"));
    assert_ne!(pane_mpv_conf("/c", "a"), pane_playlist("/c", "a"));
}

#[test]
fn homes_and_tildes() {
    assert_eq!(home_dir(Some("/home/op"), None), "/home/op");
    assert_eq!(home_dir(None, Some("/users/op")), "/users/op");
    assert_eq!(expand_tilde("~/media", "/home/op"), "/home/op/media");
    assert_eq!(expand_tilde("/srv/~media", "/home/op"), "/srv/~media");
    assert_eq!(expand_tilde("plain", "/home/op"), "plain");
    assert_eq!(join("/a", "b"), "/a/b");
    assert_eq!(join("/a/", "b"), "/a/b");
    assert_eq!(join("/a", "/b"), "/b");
}

#[test]
fn default_configuration_has_four_panes() {
    let c = load_config(Some(DEFAULT_PANES_CONF), "/home/op");
    assert_eq!(c.layout, "pb.left.stack");
    let names: Vec<&str> = c.panes.iter().map(|p| p.mpv_name.as_str()).collect();
    assert_eq!(names, ["music", "wide-top", "wide-bottom", "standard"]);
    let shown: Vec<&str> = c.panes.iter().map(|p| p.pane_name.as_str()).collect();
    assert_eq!(shown, ["Music", "Wide Top", "Wide Bottom", "Standard"]);
    assert!(c.panes.iter().all(|p| p.playlist.is_none()));
}

#[test]
fn pane_without_a_shown_name_goes_by_its_own() {
    let c = load_config(Some("[kiosk]\nplaylist = ~/loop.m3u\n"), "/home/op");
    assert_eq!(c.panes.len(), 1);
    assert_eq!(c.panes[0].mpv_name, "kiosk");
    assert_eq!(c.panes[0].pane_name, "kiosk");
    assert_eq!(c.panes[0].playlist.as_deref(), Some("/home/op/loop.m3u"));
}

#[test]
fn unreadable_configuration_has_no_panes() {
    let c = load_config(None, "/home/op");
    assert!(c.panes.is_empty());
    assert_eq!(c.layout, "pb.left.stack");
}

#[test]
fn hosts_need_an_address() {
    let text = "mode = remote\n\n[linux-node]\naddress = wss://192.168.1.5:9090\n\n[empty]\n";
    let h = load_hosts(Some(text));
    assert_eq!(h.len(), 1);
    assert_eq!(h[0].label, "linux-node");
    assert_eq!(h[0].address, "wss://192.168.1.5:9090");
    assert!(load_hosts(None).is_empty());
    assert!(load_hosts(Some(DEFAULT_HOSTS_CONF)).is_empty());
}

#[test]
fn mode_decides_where_the_daemon_listens() {
    assert_eq!(load_daemon_mode("mode = remote\n"), "remote");
    assert_eq!(load_daemon_mode("mode = local\n"), "local");
    assert_eq!(load_daemon_mode("# nothing\n"), "local");
    assert_eq!(load_daemon_mode(DEFAULT_HOSTS_CONF), "local");
    assert_eq!(bind_address("local"), "127.0.0.1:9090");
    assert_eq!(bind_address("remote"), "0.0.0.0:9090");
}

#[test]
fn types_have_options_and_scripts() {
    let text = "# types\n[video]\nreally-quiet=yes\nscripts = a.lua, b.lua\n\n[audio]\nvid=no\n";
    let t = load_types(Some(text));
    let video = find_type(&t, "video").unwrap();
    assert!(video.options.contains(&"really-quiet=yes".to_string()));
    assert_eq!(video.scripts, ["a.lua", "b.lua"]);
    let audio = find_type(&t, "audio").unwrap();
    assert_eq!(audio.options, ["vid=no"]);
    assert!(audio.scripts.is_empty());
    assert!(find_type(&t, "rtsp").is_none());
    assert!(load_types(None).is_empty());
}

#[test]
fn default_layouts_place_the_default_panes() {
    let left = parse_layout(LAYOUT_LEFT_STACK);
    assert_eq!(left.entries.len(), 4);
    assert_eq!(left.geometry_of("music").as_deref(), Some("366x366+0+0"));
    assert_eq!(left.geometry_of("wide-top").as_deref(), Some("650x366+0+374"));
    assert_eq!(left.geometry_of("nothing"), None);
    let right = parse_layout(LAYOUT_RIGHT_STACK);
    assert_eq!(right.geometry_of("standard").as_deref(), Some("650x488+2290+1180"));
}

#[test]
fn layouts_for_the_window_manager() {
    let l = parse_layout("[music]\nswaymsg = [title=\"MUSIC\"] floating enable\n[bare]\n");
    assert_eq!(l.swaymsg_of("music").as_deref(), Some("[title=\"MUSIC\"] floating enable"));
    assert_eq!(l.geometry_of("music"), None);
    assert_eq!(l.entries.len(), 2);
    let twice = parse_layout("[a]\ngeometry = 1x1+0+0\n[a]\ngeometry = 2x2+0+0\n");
    assert_eq!(twice.entries.len(), 1);
    assert_eq!(twice.geometry_of("a").as_deref(), Some("2x2+0+0"));
}

#[test]
fn a_new_node_gets_its_files() {
    let f = bootstrap("/c");
    let paths: Vec<&str> = f.iter().map(|x| x.path.as_str()).collect();
    assert_eq!(
        paths,
        [
            "/c/pb.panes.conf",
            "/c/pb.daemon.conf",
            "/c/layouts/pb.left.stack.layout",
            "/c/layouts/pb.right.stack.layout",
        ]
    );
    assert_eq!(f[0].text, DEFAULT_PANES_CONF);
    let conf = mpv_conf_text("/c", "music");
    assert!(conf.starts_with("# panebot mpv config — music\n"));
    assert!(conf.contains("\nscripts-dir=/c/music/scripts\n"));
    assert!(conf.contains("\nforce-window=yes\nidle=yes\n"));
}

#[test]
fn log_lines_have_the_time_of_day() {
    assert_eq!(log_line("panebot", 3661, "up"), "[panebot] [01:01:01] up\n");
    assert_eq!(log_line("a-very-long-name", 86399, "x"), "[a-very-lon] [23:59:59] x\n");
    assert_eq!(log_line("h", 86400, "x"), "[h] [00:00:00] x\n");
}

#[test]
fn a_node_knows_its_name() {
    let c = vec![None, Some("  \n".to_string()), Some("node-1\n".to_string())];
    assert_eq!(hostname(&c), "node-1");
    assert_eq!(hostname(&vec![None]), "unknown");
    assert_eq!(platform(true, false), "macos");
    assert_eq!(platform(false, true), "linux");
    assert_eq!(platform(false, false), "unknown");
}

#[test]
fn playlists_are_read_back() {
    let items = owned(&["/a.mkv", "https://example.com/x", "b c.mp4"]);
    let text = write_m3u(&items);
    assert_eq!(text, "#EXTM3U\n/a.mkv\nhttps://example.com/x\nb c.mp4\n");
    assert_eq!(playlist_entries(&text), items);
    assert_eq!(read_m3u(Some(&text), &vec![]), (items, false));
    assert_eq!(read_m3u(None, &vec![]), (vec![], false));
}

#[test]
fn comments_and_blank_lines_name_nothing() {
    assert_eq!(playlist_entries("#EXTM3U\n\n  /a.mkv  \r\n# no\n/b.mkv"), ["/a.mkv", "/b.mkv"]);
}

#[test]
fn directories_are_expanded_in_place() {
    let text = "/a.mkv\n/films/\n/z.mkv\n";
    assert_eq!(playlist_directories(text), ["/films/"]);
    let found = vec![owned(&["/films/1.mkv", "/films/2.mkv"])];
    let (items, dirty) = read_m3u(Some(text), &found);
    assert_eq!(items, ["/a.mkv", "/films/1.mkv", "/films/2.mkv", "/z.mkv"]);
    assert!(dirty);
}

#[test]
fn appending_removing_and_cropping() {
    let items = owned(&["a", "b", "c"]);
    let more = m3u_append(items.clone(), " d ");
    assert_eq!(more, ["a", "b", "c", "d"]);
    // The item being played stays.
    assert_eq!(m3u_remove(more.clone(), 1, 1), None);
    let (left, changed) = m3u_remove(more.clone(), 3, 1).unwrap();
    assert_eq!(left, items);
    assert!(changed);
    let (same, changed) = m3u_remove(items.clone(), 9, -1).unwrap();
    assert_eq!(same, items);
    assert!(!changed);
    assert_eq!(m3u_crop(&items, 2), Some(owned(&["c"])));
    assert_eq!(m3u_crop(&items, -1), None);
    assert_eq!(m3u_crop(&items, 3), None);
}

#[test]
fn saving_takes_the_names_of_the_answer() {
    let answer = "{\"data\":[{\"filename\":\"/a.mkv\",\"current\":true},{\"filename\":\"/b.mkv\"}],\
                  \"error\":\"success\"}\n";
    assert_eq!(save_playlist(answer), Some(("#EXTM3U\n/a.mkv\n/b.mkv\n".to_string(), 2)));
    let quoted = "{\"data\":[{\"filename\":\"a\\\"b.mp4\"}],\"error\":\"success\"}";
    assert_eq!(save_playlist(quoted), Some(("#EXTM3U\na\"b.mp4\n".to_string(), 1)));
    let (text, _) = save_playlist(quoted).unwrap();
    assert_eq!(playlist_entries(&text), ["a\"b.mp4"]);
    assert_eq!(save_playlist("{\"data\":[],\"error\":\"success\"}"), None);
    assert_eq!(save_playlist("{\"data\":[{\"filename\":\"/a\"}],\"error\":\"failed\"}"), None);
    assert_eq!(save_playlist("{\"event\":\"pause\"}"), None);
    assert_eq!(save_playlist("no json"), None);
}

#[test]
fn items_show_their_title() {
    let titled = PlaylistItem { filename: "/a/b.mkv".to_string(), title: Some("B".to_string()) };
    assert_eq!(titled.display(), "B");
    let bare = PlaylistItem { filename: "/a/b.mkv".to_string(), title: None };
    assert_eq!(bare.display(), "b.mkv");
}

#[test]
fn names_are_decoded() {
    assert_eq!(percent_decode("a%20b%2Fc"), "a b/c");
    assert_eq!(percent_decode("100%"), "100%");
    assert_eq!(percent_decode("plain"), "plain");
    assert_eq!(strip_ext("film.mkv"), "film");
    assert_eq!(strip_ext("film"), "film");
    assert!(is_hex_hash("0123456789abcdef0123456789abcdef"));
    assert!(!is_hex_hash("stalker"));
    assert_eq!(percent_decode("%+fx"), "\u{f}x");
    assert_eq!(percent_decode("%zz"), "%zz");
    assert_eq!(url_decode("a%2520b"), "a b");
    assert_eq!(url_decode("a%25252520b"), "a%20b");
    assert_eq!(display_name("https://x.org/My%20Film.mkv"), "My Film");
    assert_eq!(display_name("https://cdn.x.org/0123456789abcdef0123456789abcdef"), "cdn");
    assert_eq!(display_name("https://x.org/"), "x");
    assert_eq!(display_name("Stalker.mkv"), "Stalker.mkv");
    assert_eq!(display_name("/films/Stalker (1979).mkv"), "Stalker (1979)");
}

#[test]
fn media_go_by_their_extension() {
    assert!(is_media("film.MKV"));
    assert!(is_media("list.m3u8"));
    assert!(!is_media("notes.txt"));
    assert!(!is_media("mkv"));
    assert!(!is_media(".mkv"));
}

fn file(name: &str) -> DirNode {
    DirNode { name: name.to_string(), is_dir: false, below: vec![] }
}

fn tree() -> Vec<DirNode> {
    vec![
        file("z.mkv"),
        DirNode {
            name: "m".to_string(),
            is_dir: true,
            below: vec![file("2.mp3"), file("1.mp3"), file("cover.jpg")],
        },
        file("a.txt"),
    ]
}

#[test]
fn walks_list_files_by_name() {
    assert_eq!(
        walk_dir("/films/", tree()),
        ["/films/a.txt", "/films/m/1.mp3", "/films/m/2.mp3", "/films/m/cover.jpg", "/films/z.mkv"]
    );
    assert_eq!(collect_media_files("/films", tree()), ["/films/m/1.mp3", "/films/m/2.mp3", "/films/z.mkv"]);
    let names: Vec<String> = in_order(tree()).into_iter().map(|n| n.name).collect();
    assert_eq!(names, ["a.txt", "m", "z.mkv"]);
    assert!(walk_dir("/empty/", vec![]).is_empty());
}

#[test]
fn walks_do_not_depend_on_how_a_tree_is_read() {
    let dir = |name: &str, below: Vec<DirNode>| DirNode { name: name.to_string(), is_dir: true, below };
    let one = vec![
        dir("b", vec![dir("d", vec![file("y.mp3"), file("x.mp3")]), file("c.mp3")]),
        file("a.mp3"),
        dir("e", vec![]),
    ];
    let other = vec![
        dir("e", vec![]),
        dir("b", vec![file("c.mp3"), dir("d", vec![file("x.mp3"), file("y.mp3")])]),
        file("a.mp3"),
    ];
    let files = ["/m/a.mp3", "/m/b/c.mp3", "/m/b/d/x.mp3", "/m/b/d/y.mp3"];
    assert_eq!(collect_media_files("/m", in_order(other)), files);
    assert_eq!(walk_dir("/m/", one), files);
    // Two files of one name are both listed.
    assert_eq!(walk_dir("/m", vec![file("a"), file("a")]), ["/m/a", "/m/a"]);
}

#[test]
fn starts_write_only_what_is_missing() {
    let wanted = bootstrap("/c");
    let none = missing_files(&wanted, &vec![]);
    assert_eq!(none.len(), 4);
    let kept = owned(&["/c/pb.panes.conf", "/c/layouts/pb.left.stack.layout"]);
    let left: Vec<String> = missing_files(&wanted, &kept).into_iter().map(|f| f.path).collect();
    assert_eq!(left, ["/c/pb.daemon.conf", "/c/layouts/pb.right.stack.layout"]);
    let all: Vec<String> = wanted.iter().map(|f| f.path.clone()).collect();
    assert!(missing_files(&wanted, &all).is_empty());
    let c = load_config(Some("[a]\n[A]\n"), "/home/op");
    let files = pane_files("/c", &c.panes);
    assert_eq!(files.len(), 4);
    assert_eq!(files[1].path, "/c/a/a.m3u");
    assert_eq!(files[1].text, "#EXTM3U\n");
    // Two panes that share their files get them once.
    let made: Vec<String> = missing_files(&files, &vec![]).into_iter().map(|f| f.path).collect();
    assert_eq!(made, ["/c/a/a.mpv.conf", "/c/a/a.m3u"]);
    assert_eq!(pane_dirs("/c", &c.panes)[..2], ["/c/a".to_string(), "/c/a/scripts".to_string()]);
    assert_eq!(node_dirs("/c"), ["/c", "/c/layouts"]);
}

#[test]
fn files_of_one_pane_differ() {
    let f = [
        pane_socket("/c", "Music"),
        pane_mpv_conf("/c", "Music"),
        pane_playlist("/c", "Music"),
        pane_scripts("/c", "Music"),
    ];
    for i in 0..4 {
        assert!(f[i].starts_with("/c/music/"));
        assert_eq!(f[i].rfind('/'), Some(8));
        for j in 0..i {
            assert_ne!(f[i], f[j]);
        }
    }
}
