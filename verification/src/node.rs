//! Bringing a node up: the files it starts from, its log, and what it tells a
//! client that connects.
use crate::config::{host_views, Host, HostV, Pane, PaneV};
use crate::daemon::{Node, NodeV};
use crate::json::{entries, jsons, obj, obj2, opt_bool, Json, JsonV};
use crate::paths::{hosts_conf, join, joined, layouts_dir, panes_conf, pane_dir_of, pane_scripts};
use crate::protocol::{
    fresh_state, opt_bool_json, opt_double_json, opt_int_json, opt_str_json, state_views, PaneState,
    PaneStateV,
};
use crate::text::{cat, decimal, decimal_of, is_empty, opt, same, trim, trimmed};
use vstd::prelude::*;

verus! {

/// The panes file of a new node.
pub const DEFAULT_PANES_CONF: &'static str = "# pb.panes.conf
# [instance_name]                   — drives directory, socket, mpv.conf. set once, never change.
# pane_name = My Pane               — display name in TUI and mpv window title. change freely.
# playlist  = /path/to/file.m3u    — optional. point mpv at an external playlist, directory,
#                                     or stream URL. if omitted, panebot uses the pane's own
#                                     .m3u file in ~/.config/panebot/{instance_name}/.

layout = pb.left.stack

[music]
pane_name = Music

[wide-top]
pane_name = Wide Top

[wide-bottom]
pane_name = Wide Bottom

[standard]
pane_name = Standard
";

/// The daemon file of a new node.
pub const DEFAULT_HOSTS_CONF: &'static str = "# pb.daemon.conf
# mode = local    — bind to 127.0.0.1 only (default, safe)
# mode = remote   — bind to 0.0.0.0, accepts LAN connections
#
# Add remote panebot nodes here.
#
# [my-linux-box]
# address = ws://192.168.1.x:9090

mode = local
";

/// The layout with the panes in a stack on the left.
pub const LAYOUT_LEFT_STACK: &'static str = "# panebot layout — pb.left.stack

[music]
geometry = 366x366+0+0

[wide-top]
geometry = 650x366+0+374

[wide-bottom]
geometry = 650x366+0+748

[standard]
geometry = 650x488+0+1122
";

/// The layout with the panes in a stack on the right.
pub const LAYOUT_RIGHT_STACK: &'static str = "# panebot layout — pb.right.stack

[music]
geometry = 366x366+2574+64

[wide-top]
geometry = 650x366+2290+432

[wide-bottom]
geometry = 650x366+2290+804

[standard]
geometry = 650x488+2290+1180
";

/// A file and what it holds.
#[derive(Debug)]
pub struct FileText {
    pub path: String,
    pub text: String,
}

pub struct FileTextV {
    pub path: Seq<char>,
    pub text: Seq<char>,
}

impl FileText {
    pub open spec fn view(&self) -> FileTextV {
        FileTextV { path: self.path@, text: self.text@ }
    }
}

pub open spec fn file_views(v: Seq<FileText>) -> Seq<FileTextV> {
    Seq::new(v.len(), |i: int| v[i].view())
}

/// The files of a new node: the panes, the hosts, and two layouts.
pub open spec fn skeleton_of(config: Seq<char>) -> Seq<FileTextV> {
    let layouts = joined(config, "layouts"@);
    seq![
        FileTextV { path: joined(config, "pb.panes.conf"@), text: DEFAULT_PANES_CONF@ },
        FileTextV { path: joined(config, "pb.daemon.conf"@), text: DEFAULT_HOSTS_CONF@ },
        FileTextV { path: joined(layouts, "pb.left.stack.layout"@), text: LAYOUT_LEFT_STACK@ },
        FileTextV { path: joined(layouts, "pb.right.stack.layout"@), text: LAYOUT_RIGHT_STACK@ },
    ]
}

/// The files that a node is given where they are missing.
pub fn bootstrap(config: &str) -> (r: Vec<FileText>)
    ensures
        file_views(r@) == skeleton_of(config@),
{
    let layouts: String = layouts_dir(config);
    let v: Vec<FileText> = vec![
        FileText { path: panes_conf(config), text: DEFAULT_PANES_CONF.to_owned() },
        FileText { path: hosts_conf(config), text: DEFAULT_HOSTS_CONF.to_owned() },
        FileText {
            path: join(layouts.as_str(), "pb.left.stack.layout"),
            text: LAYOUT_LEFT_STACK.to_owned(),
        },
        FileText {
            path: join(layouts.as_str(), "pb.right.stack.layout"),
            text: LAYOUT_RIGHT_STACK.to_owned(),
        },
    ];
    assert(file_views(v@) =~= skeleton_of(config@));
    v
}

/// The player configuration that a new pane starts with.
pub open spec fn mpv_conf_of(config: Seq<char>, name: Seq<char>) -> Seq<char> {
    "# panebot mpv config — "@ + name
        + "\n# Edit this file to tune mpv for this pane.\n# Required options — panebot depends on these.\nforce-window=yes\nidle=yes\nreally-quiet=yes\npause=yes\nvolume=100\nmute=yes\ndirectory-mode=recursive\nscripts-dir="@
        + joined(pane_dir_of(config, name), "scripts"@)
        + "\n\n# Add your own mpv options below.\n"@
}

/// The player configuration that a new pane starts with.
pub fn mpv_conf_text(config: &str, name: &str) -> (r: String)
    ensures
        r@ == mpv_conf_of(config@, name@),
{
    let mut s: String = cat("# panebot mpv config — ", name);
    s.append(
        "\n# Edit this file to tune mpv for this pane.\n# Required options — panebot depends on these.\nforce-window=yes\nidle=yes\nreally-quiet=yes\npause=yes\nvolume=100\nmute=yes\ndirectory-mode=recursive\nscripts-dir=",
    );
    s.append(pane_scripts(config, name).as_str());
    s.append("\n\n# Add your own mpv options below.\n");
    s
}

// ---------------------------------------------------------------------------
// Log and identity
// ---------------------------------------------------------------------------

/// A number below one hundred in two digits.
pub open spec fn two_digits(n: int) -> Seq<char> {
    if n < 10 {
        "0"@ + decimal(n)
    } else {
        decimal(n)
    }
}

/// A line of the log: the first ten characters of the host's name, the time of day
/// of the given second since the epoch, and the message.
pub open spec fn log_line_of(host: Seq<char>, secs: u64, msg: Seq<char>) -> Seq<char> {
    let short = if host.len() > 10 {
        host.take(10)
    } else {
        host
    };
    "["@ + short + "] ["@ + two_digits((secs % 86400) as int / 3600) + ":"@ + two_digits(
        (secs % 3600) as int / 60,
    ) + ":"@ + two_digits((secs % 60) as int) + "] "@ + msg + "\n"@
}

fn in_two_digits(n: u64) -> (r: String)
    requires
        n < 100,
    ensures
        r@ == two_digits(n as int),
{
    let d: String = decimal_of(n as usize);
    if n < 10 {
        cat("0", d.as_str())
    } else {
        d
    }
}

/// A line of the log.
pub fn log_line(host: &str, secs: u64, msg: &str) -> (r: String)
    ensures
        r@ == log_line_of(host@, secs, msg@),
{
    let n: usize = host.unicode_len();
    let short: &str = if n > 10 {
        host.substring_char(0, 10)
    } else {
        host
    };
    assert(n > 10 ==> short@ =~= host@.take(10));
    let h: u64 = (secs % 86400) / 3600;
    let m: u64 = (secs % 3600) / 60;
    let s: u64 = secs % 60;
    let mut out: String = cat("[", short);
    out.append("] [");
    out.append(in_two_digits(h).as_str());
    out.append(":");
    out.append(in_two_digits(m).as_str());
    out.append(":");
    out.append(in_two_digits(s).as_str());
    out.append("] ");
    out.append(msg);
    out.append("\n");
    out
}

/// The first of the candidates that is not blank, trimmed.
pub open spec fn host_name_of(candidates: Seq<Option<Seq<char>>>) -> Seq<char>
    decreases candidates.len(),
{
    if candidates.len() == 0 {
        "unknown"@
    } else {
        match candidates[0] {
            Some(h) if trimmed(h).len() > 0 => trimmed(h),
            _ => host_name_of(candidates.skip(1)),
        }
    }
}

pub open spec fn opts(v: Seq<Option<String>>) -> Seq<Option<Seq<char>>> {
    Seq::new(v.len(), |i: int| opt(v[i]))
}

/// The name of this machine, from the places where it may be found, in order.
pub fn hostname(candidates: &Vec<Option<String>>) -> (r: String)
    ensures
        r@ == host_name_of(opts(candidates@)),
{
    let ghost all = opts(candidates@);
    let mut i: usize = 0;
    assert(all.skip(0) =~= all);
    while i < candidates.len()
        invariant
            all == opts(candidates@),
            i <= candidates@.len(),
            host_name_of(all) == host_name_of(all.skip(i as int)),
        decreases candidates@.len() - i,
    {
        assert(all.skip(i as int)[0] == opt(candidates@[i as int]));
        if let Some(h) = &candidates[i] {
            let t: &str = trim(h.as_str());
            if !is_empty(t) {
                return t.to_owned();
            }
        }
        assert(all.skip(i as int).skip(1) =~= all.skip(i + 1));
        i = i + 1;
    }
    "unknown".to_owned()
}

/// The platform that the daemon runs on.
pub fn platform(macos: bool, linux: bool) -> (r: &'static str)
    ensures
        r@ == (if macos {
            "macos"@
        } else if linux {
            "linux"@
        } else {
            "unknown"@
        }),
{
    if macos {
        "macos"
    } else if linux {
        "linux"
    } else {
        "unknown"
    }
}

// ---------------------------------------------------------------------------
// Snapshot
// ---------------------------------------------------------------------------

/// What is known of a pane: its state, or a fresh one where there is none yet.
pub open spec fn known_state(states: Seq<PaneStateV>, p: PaneV) -> PaneStateV
    decreases states.len(),
{
    if states.len() == 0 {
        fresh_state(p.mpv_name, p.pane_name)
    } else if states[0].mpv_name == p.mpv_name {
        states[0]
    } else {
        known_state(states.skip(1), p)
    }
}

/// A pane in a snapshot: who it is and how it stands.
pub open spec fn snapshot_pane(p: PaneV, s: PaneStateV) -> JsonV {
    obj(
        seq![
            ("name"@, JsonV::Str(p.mpv_name)),
            ("pane_name"@, JsonV::Str(p.pane_name)),
            ("online"@, JsonV::Bool(s.online)),
            ("paused"@, opt_bool_json(s.paused)),
            ("muted"@, opt_bool_json(s.muted)),
            ("volume"@, opt_double_json(s.volume)),
            ("title"@, opt_str_json(s.title)),
            ("playlist_pos"@, opt_int_json(s.playlist_pos)),
            ("idle_active"@, opt_bool_json(s.idle_active)),
        ],
    )
}

pub open spec fn snapshot_host(h: HostV) -> JsonV {
    obj(seq![("label"@, JsonV::Str(h.label)), ("address"@, JsonV::Str(h.address))])
}

/// What a client is told first: the node, every pane with its state, and the other
/// hosts that are known.
pub open spec fn snapshot_of(
    n: NodeV,
    ip: Seq<char>,
    home: Seq<char>,
    hosts: Seq<HostV>,
) -> JsonV {
    obj(
        seq![
            ("event"@, JsonV::Str("node:snapshot"@)),
            ("hostname"@, JsonV::Str(n.hostname)),
            ("platform"@, JsonV::Str(n.platform)),
            ("ip"@, JsonV::Str(ip)),
            ("layout"@, JsonV::Str(n.layout)),
            ("home"@, JsonV::Str(home)),
            (
                "panes"@,
                JsonV::Arr(
                    Seq::new(
                        n.panes.len(),
                        |i: int| snapshot_pane(n.panes[i], known_state(n.states, n.panes[i])),
                    ),
                ),
            ),
            (
                "known_hosts"@,
                JsonV::Arr(Seq::new(hosts.len(), |i: int| snapshot_host(hosts[i]))),
            ),
        ],
    )
}

fn state_for(states: &Vec<PaneState>, p: &Pane) -> (r: PaneState)
    ensures
        r.view() == known_state(state_views(states@), p.view()),
{
    let ghost all = state_views(states@);
    let mut i: usize = 0;
    assert(all.skip(0) =~= all);
    while i < states.len()
        invariant
            all == state_views(states@),
            i <= states@.len(),
            known_state(all, p.view()) == known_state(all.skip(i as int), p.view()),
        decreases states@.len() - i,
    {
        assert(all.skip(i as int)[0] == states@[i as int].view());
        if same(states[i].mpv_name.as_str(), p.mpv_name.as_str()) {
            return states[i].copy();
        }
        assert(all.skip(i as int).skip(1) =~= all.skip(i + 1));
        i = i + 1;
    }
    PaneState::new(p.mpv_name.as_str(), p.pane_name.as_str())
}

fn pane_json(p: &Pane, s: &PaneState) -> (r: Json)
    ensures
        r.view() == snapshot_pane(p.view(), s.view()),
{
    let volume: Json = match &s.volume {
        Some(v) => v.to_json(),
        None => Json::Null,
    };
    let title: Json = match &s.title {
        Some(t) => Json::string(t.as_str()),
        None => Json::Null,
    };
    let pos: Json = match s.playlist_pos {
        Some(n) => Json::integer(n),
        None => Json::Null,
    };
    let v: Vec<(String, Json)> = vec![
        ("name".to_owned(), Json::string(p.mpv_name.as_str())),
        ("pane_name".to_owned(), Json::string(p.pane_name.as_str())),
        ("online".to_owned(), Json::Bool(s.online)),
        ("paused".to_owned(), opt_bool(s.paused)),
        ("muted".to_owned(), opt_bool(s.muted)),
        ("volume".to_owned(), volume),
        ("title".to_owned(), title),
        ("playlist_pos".to_owned(), pos),
        ("idle_active".to_owned(), opt_bool(s.idle_active)),
    ];
    proof {
        let q = p.view();
        let t = s.view();
        assert(entries(v@) =~= seq![
            ("name"@, JsonV::Str(q.mpv_name)),
            ("pane_name"@, JsonV::Str(q.pane_name)),
            ("online"@, JsonV::Bool(t.online)),
            ("paused"@, opt_bool_json(t.paused)),
            ("muted"@, opt_bool_json(t.muted)),
            ("volume"@, opt_double_json(t.volume)),
            ("title"@, opt_str_json(t.title)),
            ("playlist_pos"@, opt_int_json(t.playlist_pos)),
            ("idle_active"@, opt_bool_json(t.idle_active)),
        ]);
    }
    Json::Obj(v)
}

/// What a client is told first.
pub fn snapshot(node: &Node, ip: &str, home: &str, hosts: &Vec<Host>) -> (r: Json)
    ensures
        r.view() == snapshot_of(node.view(), ip@, home@, host_views(hosts@)),
{
    let ghost n = node.view();
    let mut panes: Vec<Json> = Vec::new();
    for i in 0..node.panes.len()
        invariant
            n == node.view(),
            panes.len() == i,
            forall|k: int|
                0 <= k < i ==> (#[trigger] panes@[k]).view() == snapshot_pane(
                    n.panes[k],
                    known_state(n.states, n.panes[k]),
                ),
    {
        let s: PaneState = state_for(&node.states, &node.panes[i]);
        assert(n.panes[i as int] == node.panes@[i as int].view());
        panes.push(pane_json(&node.panes[i], &s));
    }
    let ghost hv = host_views(hosts@);
    let mut known: Vec<Json> = Vec::new();
    for i in 0..hosts.len()
        invariant
            hv == host_views(hosts@),
            known.len() == i,
            forall|k: int| 0 <= k < i ==> (#[trigger] known@[k]).view() == snapshot_host(hv[k]),
    {
        assert(hv[i as int] == hosts@[i as int].view());
        known.push(
            obj2(
                "label",
                Json::string(hosts[i].label.as_str()),
                "address",
                Json::string(hosts[i].address.as_str()),
            ),
        );
    }
    proof {
        assert(jsons(panes@) =~= Seq::new(
            n.panes.len(),
            |i: int| snapshot_pane(n.panes[i], known_state(n.states, n.panes[i])),
        ));
        assert(jsons(known@) =~= Seq::new(hv.len(), |i: int| snapshot_host(hv[i])));
    }
    let v: Vec<(String, Json)> = vec![
        ("event".to_owned(), Json::string("node:snapshot")),
        ("hostname".to_owned(), Json::string(node.hostname.as_str())),
        ("platform".to_owned(), Json::string(node.platform.as_str())),
        ("ip".to_owned(), Json::string(ip)),
        ("layout".to_owned(), Json::string(node.layout.as_str())),
        ("home".to_owned(), Json::string(home)),
        ("panes".to_owned(), Json::Arr(panes)),
        ("known_hosts".to_owned(), Json::Arr(known)),
    ];
    proof {
        assert(entries(v@) =~= seq![
            ("event"@, JsonV::Str("node:snapshot"@)),
            ("hostname"@, JsonV::Str(n.hostname)),
            ("platform"@, JsonV::Str(n.platform)),
            ("ip"@, JsonV::Str(ip@)),
            ("layout"@, JsonV::Str(n.layout)),
            ("home"@, JsonV::Str(home@)),
            ("panes"@, JsonV::Arr(jsons(panes@))),
            ("known_hosts"@, JsonV::Arr(jsons(known@))),
        ]);
    }
    Json::Obj(v)
}

} // verus!
