//! Sending files from the command line.
use panebot::config::Host;
use panebot::json::Json;
use panebot::protocol::PaneInfo;
use panebot::sender::{
    all_hosts, choose_pane, connect, endpoint, is_snapshot, parse_args, pick, resolve_path, send,
    send_files, target_address, tilde, PaneChoice,
};

fn owned(v: &[&str]) -> Vec<String> {
    v.iter().map(|s| s.to_string()).collect()
}

fn info(name: &str) -> PaneInfo {
    PaneInfo { name: name.to_string(), pane_name: name.to_uppercase() }
}

#[test]
fn arguments() {
    let a = parse_args(&owned(&["@den", "--pane=music", "a.mkv", "--mode=replace", "b.mkv", "--pane=tv"]));
    assert_eq!(a.node.as_deref(), Some("den"));
    assert_eq!(a.pane, "tv");
    assert_eq!(a.mode, "replace");
    assert_eq!(a.files, ["a.mkv", "b.mkv"]);
    assert!(!a.nodes_flag);
    let b = parse_args(&owned(&["--nodes"]));
    assert!(b.nodes_flag && b.files.is_empty() && b.node.is_none());
    assert_eq!(b.mode, "append-play");
    assert_eq!(parse_args(&owned(&["--panes=x"])).files, ["--panes=x"]);
}

#[test]
fn addresses() {
    assert_eq!(connect("ws://192.168.1.5:9191").as_deref(), Some("192.168.1.5:9191"));
    assert_eq!(connect("wss://den.local").as_deref(), Some("den.local:9090"));
    assert_eq!(connect("ws://den.local:80").as_deref(), Some("den.local:9090"));
    assert_eq!(connect("data:text/plain,x").as_deref(), Some("127.0.0.1:9090"));
    assert_eq!(connect("no address"), None);
    assert_eq!(endpoint(None, Some(1)), "127.0.0.1:1");
    assert_eq!(endpoint(Some("h".to_string()), None), "h:9090");
}

#[test]
fn nodes_are_found_in_either_case() {
    let known = vec![Host { label: "Den".to_string(), address: "ws://10.0.0.2:9090".to_string() }];
    let hosts = all_hosts("wss://127.0.0.1:9090", &known);
    assert_eq!(hosts.len(), 2);
    assert_eq!(hosts[0].label, "local");
    let at = |n: Option<&str>| target_address(&n.map(|s| s.to_string()), "wss://127.0.0.1:9090", &hosts);
    assert_eq!(at(Some("dEN")).as_deref(), Some("ws://10.0.0.2:9090"));
    assert_eq!(at(Some("local")).as_deref(), Some("wss://127.0.0.1:9090"));
    assert_eq!(at(Some("attic")), None);
    assert_eq!(at(None).as_deref(), Some("wss://127.0.0.1:9090"));
}

#[test]
fn picking_counts_from_one() {
    assert_eq!(pick(" 1\n", 3), Some(0));
    assert_eq!(pick("3", 3), Some(2));
    assert_eq!(pick("0", 3), None);
    assert_eq!(pick("4", 3), None);
    assert_eq!(pick("x", 3), None);
    assert_eq!(pick("", 3), None);
}

#[test]
fn panes_are_chosen() {
    assert!(matches!(choose_pane("music", &vec![]), PaneChoice::NoPanes));
    assert!(matches!(choose_pane("", &vec![info("tv")]), PaneChoice::Chosen(p) if p == "tv"));
    assert!(matches!(choose_pane("", &vec![info("tv"), info("music")]), PaneChoice::Ask));
    assert!(matches!(choose_pane("x", &vec![info("tv"), info("music")]), PaneChoice::Chosen(p) if p == "x"));
}

#[test]
fn files_are_sent_by_full_path() {
    assert_eq!(resolve_path("a.mkv", "/srv"), "/srv/a.mkv");
    assert_eq!(resolve_path("/a.mkv", "/srv"), "/a.mkv");
    assert_eq!(resolve_path("https://x.org/a", "/srv"), "https://x.org/a");
    assert_eq!(
        send("music", "/a.mkv", "append-play").text(),
        "{\"args\":[\"/a.mkv\",\"append-play\"],\"command\":\"loadfile\",\"pane\":\"music\"}"
    );
    let a = parse_args(&owned(&["a.mkv", "/b.mkv"]));
    let m: Vec<String> = send_files(&a, "music", "/srv").iter().map(|m| m.text()).collect();
    assert_eq!(m[0], "{\"args\":[\"/srv/a.mkv\",\"append-play\"],\"command\":\"loadfile\",\"pane\":\"music\"}");
    assert_eq!(m[1], "{\"args\":[\"/b.mkv\",\"append-play\"],\"command\":\"loadfile\",\"pane\":\"music\"}");
    assert_eq!(tilde("/home/op/a.mkv", Some("/home/op")), "~/a.mkv");
    assert_eq!(tilde("/srv/a.mkv", Some("/home/op")), "/srv/a.mkv");
    assert_eq!(tilde("/srv/a.mkv", None), "/srv/a.mkv");
}

#[test]
fn snapshots_are_told_apart() {
    assert!(is_snapshot(&Json::parse("{\"event\":\"node:snapshot\"}").unwrap()));
    assert!(!is_snapshot(&Json::parse("{\"event\":\"online\"}").unwrap()));
    assert!(!is_snapshot(&Json::parse("[]").unwrap()));
}
