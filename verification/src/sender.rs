//! Sending files and addresses to a pane from the command line.
use crate::client::{pane_message, send_cmd2};
use crate::config::{host_views, Host, HostV};
use crate::json::{at, exact, str_of, Json, JsonV};
use crate::paths::{join, joined};
use crate::protocol::{info_views, PaneInfo, PaneInfoV};
use crate::text::{
    cat, cat3, decimal, decimal_of, first_char, is_empty, lemma_strs_push, lower, lowercase,
    number_value, opt, parse_usize, same, starts_with, strs, trim, trimmed,
};
use vstd::prelude::*;

verus! {

// ---------------------------------------------------------------------------
// Arguments
// ---------------------------------------------------------------------------

/// What the command line asks for.
#[derive(Debug)]
pub struct SendArgs {
    pub pane: String,
    pub mode: String,
    pub files: Vec<String>,
    pub node: Option<String>,
    pub nodes_flag: bool,
}

pub struct SendArgsV {
    pub pane: Seq<char>,
    pub mode: Seq<char>,
    pub files: Seq<Seq<char>>,
    pub node: Option<Seq<char>>,
    pub nodes_flag: bool,
}

impl SendArgs {
    pub open spec fn view(&self) -> SendArgsV {
        SendArgsV {
            pane: self.pane@,
            mode: self.mode@,
            files: strs(self.files@),
            node: opt(self.node),
            nodes_flag: self.nodes_flag,
        }
    }
}

/// What the arguments ask for: a flag for the node list, `@` before a node, options
/// for the pane and the mode, and files or addresses. Of repeated options the last
/// counts.
pub open spec fn args_of(args: Seq<Seq<char>>) -> SendArgsV
    decreases args.len(),
{
    if args.len() == 0 {
        SendArgsV {
            pane: Seq::empty(),
            mode: "append-play"@,
            files: Seq::empty(),
            node: None,
            nodes_flag: false,
        }
    } else {
        let s = args_of(args.drop_last());
        let a = args.last();
        if a == "--nodes"@ {
            SendArgsV { nodes_flag: true, ..s }
        } else if a.len() > 0 && a[0] == '@' {
            SendArgsV { node: Some(a.skip(1)), ..s }
        } else if "--pane="@.is_prefix_of(a) {
            SendArgsV { pane: a.skip(7), ..s }
        } else if "--mode="@.is_prefix_of(a) {
            SendArgsV { mode: a.skip(7), ..s }
        } else {
            SendArgsV { files: s.files.push(a), ..s }
        }
    }
}

fn after(s: &str, n: usize) -> (r: String)
    requires
        n <= s@.len(),
    ensures
        r@ == s@.skip(n as int),
{
    let m: usize = s.unicode_len();
    let t: &str = s.substring_char(n, m);
    assert(t@ =~= s@.skip(n as int));
    t.to_owned()
}

/// Reads the command line.
pub fn parse_args(args: &Vec<String>) -> (r: SendArgs)
    ensures
        r.view() == args_of(strs(args@)),
{
    let ghost all = strs(args@);
    let mut out: SendArgs = SendArgs {
        pane: String::new(),
        mode: "append-play".to_owned(),
        files: Vec::new(),
        node: None,
        nodes_flag: false,
    };
    assert(out.view().files =~= Seq::empty());
    assert(all.take(0) =~= Seq::empty());
    proof {
        reveal_strlit("--pane=");
        reveal_strlit("--mode=");
    }
    for i in 0..args.len()
        invariant
            all == strs(args@),
            out.view() == args_of(all.take(i as int)),
            "--pane="@.len() == 7,
            "--mode="@.len() == 7,
    {
        proof {
            assert(all.take(i + 1).drop_last() =~= all.take(i as int));
            assert(all.take(i + 1).last() == args@[i as int]@);
        }
        let a: &str = args[i].as_str();
        if same(a, "--nodes") {
            out.nodes_flag = true;
        } else if first_char(a) == Some('@') {
            out.node = Some(after(a, 1));
        } else if starts_with(a, "--pane=") {
            out.pane = after(a, 7);
        } else if starts_with(a, "--mode=") {
            out.mode = after(a, 7);
        } else {
            let f: String = a.to_owned();
            proof {
                lemma_strs_push(out.files@, f);
            }
            out.files.push(f);
        }
    }
    assert(all.take(all.len() as int) =~= all);
    out
}

// ---------------------------------------------------------------------------
// Where to connect
// ---------------------------------------------------------------------------

/// The host and the port that an address names.
pub struct UrlV {
    pub host: Option<Seq<char>>,
    pub port: Option<u16>,
}

/// What `url::Url::parse` reads a text as; nothing where it is no address.
pub uninterp spec fn parsed_url(text: Seq<char>) -> Option<UrlV>;

/// Calls `url::Url::parse` and takes the host (`Url::host_str`) and the port
/// (`Url::port`) of what it read; which texts it takes and what it reads them as
/// depends on the text alone.
#[verifier::external_body]
fn url_parts(text: &str) -> (r: Option<(Option<String>, Option<u16>)>)
    ensures
        parsed_url(text@) == (match r {
            Some((host, port)) => Some(UrlV { host: opt(host), port }),
            None => None,
        }),
{
    let url = url::Url::parse(text).ok()?;
    Some((url.host_str().map(|s| s.to_string()), url.port()))
}

/// The host and port to connect to: this machine and the daemon's port where the
/// address names none.
pub open spec fn endpoint_of(u: UrlV) -> Seq<char> {
    (match u.host {
        Some(h) => h,
        None => "127.0.0.1"@,
    }) + ":"@ + decimal(
        match u.port {
            Some(p) => p as int,
            None => 9090,
        },
    )
}

/// The host and port to connect to, from what was read of an address.
pub fn endpoint(host: Option<String>, port: Option<u16>) -> (r: String)
    ensures
        r@ == endpoint_of(UrlV { host: opt(host), port }),
{
    let h: String = match host {
        Some(h) => h,
        None => "127.0.0.1".to_owned(),
    };
    let p: usize = match port {
        Some(p) => p as usize,
        None => 9090,
    };
    cat3(h.as_str(), ":", decimal_of(p).as_str())
}

/// The host and port to connect to for an address; nothing where it is none.
pub fn connect(addr: &str) -> (r: Option<String>)
    ensures
        opt(r) == (match parsed_url(addr@) {
            Some(u) => Some(endpoint_of(u)),
            None => None,
        }),
{
    match url_parts(addr) {
        Some((host, port)) => Some(endpoint(host, port)),
        None => None,
    }
}

/// Whether a message of the daemon is its snapshot.
pub fn is_snapshot(v: &Json) -> (r: bool)
    ensures
        r == (str_of(at(v.view(), "event"@)) == Some("node:snapshot"@)),
{
    match v.str_at("event") {
        Some(e) => same(e.as_str(), "node:snapshot"),
        None => false,
    }
}

/// The hosts to choose from: this machine first, then those that it knows.
pub open spec fn hosts_known(local: Seq<char>, known: Seq<HostV>) -> Seq<HostV> {
    seq![HostV { label: "local"@, address: local }] + known
}

/// The hosts to choose from.
pub fn all_hosts(local: &str, known: &Vec<Host>) -> (r: Vec<Host>)
    ensures
        host_views(r@) == hosts_known(local@, host_views(known@)),
{
    let mut out: Vec<Host> = vec![Host { label: "local".to_owned(), address: local.to_owned() }];
    for i in 0..known.len()
        invariant
            out.len() == i + 1,
            out@[0].view() == (HostV { label: "local"@, address: local@ }),
            forall|k: int| 0 <= k < i ==> (#[trigger] out@[k + 1]).view() == known@[k].view(),
    {
        let ghost before = out@;
        out.push(Host { label: known[i].label.clone(), address: known[i].address.clone() });
        assert forall|k: int| 0 <= k < i + 1 implies (#[trigger] out@[k + 1]).view()
            == known@[k].view() by {
            if k < i {
                assert(out@[k + 1] == before[k + 1]);
            }
        }
    }
    proof {
        let want = hosts_known(local@, host_views(known@));
        assert forall|k: int| 0 <= k < want.len() implies host_views(out@)[k] == want[k] by {
            if k > 0 {
                assert(out@[(k - 1) + 1].view() == known@[k - 1].view());
            }
        }
        assert(host_views(out@) =~= want);
    }
    out
}

/// Where the host with this label, in either case, stands first; past the end where
/// there is none.
pub open spec fn host_index(hosts: Seq<HostV>, label: Seq<char>) -> int
    decreases hosts.len(),
{
    if hosts.len() == 0 || lowercase(hosts[0].label) == lowercase(label) {
        0
    } else {
        1 + host_index(hosts.skip(1), label)
    }
}

/// The address that is meant: this machine where no node is named; nothing for a
/// node that is not known.
pub open spec fn target_of(node: Option<Seq<char>>, local: Seq<char>, hosts: Seq<HostV>) -> Option<
    Seq<char>,
> {
    match node {
        Some(n) => {
            let i = host_index(hosts, n);
            if 0 <= i < hosts.len() {
                Some(hosts[i].address)
            } else {
                None
            }
        },
        None => Some(local),
    }
}

/// The address that is meant.
pub fn target_address(node: &Option<String>, local: &str, hosts: &Vec<Host>) -> (r: Option<String>)
    ensures
        opt(r) == target_of(opt(*node), local@, host_views(hosts@)),
{
    let name: &str = match node {
        Some(n) => n.as_str(),
        None => return Some(local.to_owned()),
    };
    let low: String = lower(name);
    let ghost all = host_views(hosts@);
    let mut i: usize = 0;
    assert(all.skip(0) =~= all);
    while i < hosts.len()
        invariant
            all == host_views(hosts@),
            low@ == lowercase(name@),
            opt(*node) == Some(name@),
            i <= hosts@.len(),
            host_index(all, name@) == i + host_index(all.skip(i as int), name@),
        decreases hosts@.len() - i,
    {
        assert(all.skip(i as int)[0] == hosts@[i as int].view());
        let label: String = lower(hosts[i].label.as_str());
        if same(label.as_str(), low.as_str()) {
            return Some(hosts[i].address.clone());
        }
        assert(all.skip(i as int).skip(1) =~= all.skip(i + 1));
        i = i + 1;
    }
    None
}

// ---------------------------------------------------------------------------
// Choosing
// ---------------------------------------------------------------------------

/// The place in a list that a number means, counted from one; nothing for a text that
/// is none or a number outside the list.
pub open spec fn pick_of(input: Seq<char>, count: int) -> Option<int> {
    match number_value(trimmed(input)) {
        Some(n) => if 1 <= n <= count {
            Some(n - 1)
        } else {
            None
        },
        None => None,
    }
}

/// The place in a list that was picked.
pub fn pick(input: &str, count: usize) -> (r: Option<usize>)
    ensures
        match r {
            Some(i) => pick_of(input@, count as int) == Some(i as int) && i < count,
            None => pick_of(input@, count as int) is None,
        },
{
    match parse_usize(trim(input)) {
        Some(n) => if 1 <= n && n <= count {
            Some(n - 1)
        } else {
            None
        },
        None => None,
    }
}

/// Which pane to send to: the one named, the only one there is, or the one that has
/// yet to be picked.
#[derive(Debug)]
pub enum PaneChoice {
    NoPanes,
    Chosen(String),
    Ask,
}

pub enum PaneChoiceV {
    NoPanes,
    Chosen(Seq<char>),
    Ask,
}

impl PaneChoice {
    pub open spec fn view(&self) -> PaneChoiceV {
        match self {
            PaneChoice::NoPanes => PaneChoiceV::NoPanes,
            PaneChoice::Chosen(p) => PaneChoiceV::Chosen(p@),
            PaneChoice::Ask => PaneChoiceV::Ask,
        }
    }
}

pub open spec fn pane_choice_of(arg: Seq<char>, panes: Seq<PaneInfoV>) -> PaneChoiceV {
    if panes.len() == 0 {
        PaneChoiceV::NoPanes
    } else if arg.len() > 0 {
        PaneChoiceV::Chosen(arg)
    } else if panes.len() == 1 {
        PaneChoiceV::Chosen(panes[0].name)
    } else {
        PaneChoiceV::Ask
    }
}

/// Which pane to send to.
pub fn choose_pane(arg: &str, panes: &Vec<PaneInfo>) -> (r: PaneChoice)
    ensures
        r.view() == pane_choice_of(arg@, info_views(panes@)),
{
    if panes.len() == 0 {
        PaneChoice::NoPanes
    } else if !is_empty(arg) {
        PaneChoice::Chosen(arg.to_owned())
    } else if panes.len() == 1 {
        PaneChoice::Chosen(panes[0].name.clone())
    } else {
        PaneChoice::Ask
    }
}

// ---------------------------------------------------------------------------
// Sending
// ---------------------------------------------------------------------------

/// A path with the home directory written as `~`.
pub open spec fn tilde_of(path: Seq<char>, home: Option<Seq<char>>) -> Seq<char> {
    match home {
        Some(h) => if h.is_prefix_of(path) {
            "~"@ + path.skip(h.len() as int)
        } else {
            path
        },
        None => path,
    }
}

/// A path with the home directory written as `~`.
pub fn tilde(path: &str, home: Option<&str>) -> (r: String)
    ensures
        r@ == tilde_of(
            path@,
            match home {
                Some(h) => Some(h@),
                None => None,
            },
        ),
{
    match home {
        Some(h) => if starts_with(path, h) {
            let n: usize = path.unicode_len();
            let m: usize = h.unicode_len();
            let rest: &str = path.substring_char(m, n);
            assert(rest@ =~= path@.skip(m as int));
            cat("~", rest)
        } else {
            path.to_owned()
        },
        None => path.to_owned(),
    }
}

/// What is sent for a file: web addresses and absolute paths as they are, other
/// paths from the current directory.
pub open spec fn resolved(file: Seq<char>, cwd: Seq<char>) -> Seq<char> {
    if "http"@.is_prefix_of(file) {
        file
    } else {
        joined(cwd, file)
    }
}

/// What is sent for a file.
pub fn resolve_path(file: &str, cwd: &str) -> (r: String)
    ensures
        r@ == resolved(file@, cwd@),
{
    if starts_with(file, "http") {
        file.to_owned()
    } else {
        join(cwd, file)
    }
}

/// The message that loads a file into a pane.
pub open spec fn load_message(pane: Seq<char>, path: Seq<char>, mode: Seq<char>) -> JsonV {
    pane_message("loadfile"@, pane, seq![JsonV::Str(path), JsonV::Str(mode)])
}

/// The message that loads a file into a pane.
pub fn send(pane: &str, path: &str, mode: &str) -> (r: Json)
    ensures
        r.view() == load_message(pane@, path@, mode@),
{
    send_cmd2(pane, "loadfile", Json::string(path), Json::string(mode))
}

/// The messages for all the files, in order.
pub fn send_files(args: &SendArgs, pane: &str, cwd: &str) -> (r: Vec<Json>)
    ensures
        crate::json::jsons(r@) == Seq::new(
            args.view().files.len(),
            |i: int| load_message(pane@, resolved(args.view().files[i], cwd@), args.mode@),
        ),
{
    let ghost files = args.view().files;
    let mut out: Vec<Json> = Vec::new();
    for i in 0..args.files.len()
        invariant
            files == strs(args.files@),
            out.len() == i,
            forall|k: int|
                0 <= k < i ==> (#[trigger] out@[k]).view() == load_message(
                    pane@,
                    resolved(files[k], cwd@),
                    args.mode@,
                ),
    {
        assert(files[i as int] == args.files@[i as int]@);
        let path: String = resolve_path(args.files[i].as_str(), cwd);
        out.push(send(pane, path.as_str(), args.mode.as_str()));
    }
    assert(crate::json::jsons(out@) =~= Seq::new(
        files.len(),
        |i: int| load_message(pane@, resolved(files[i], cwd@), args.mode@),
    ));
    out
}

// ---------------------------------------------------------------------------
// Laws
// ---------------------------------------------------------------------------

/// What is sent is handed by the daemon to the player of the named pane: the file or
/// address, and how to queue it.
pub proof fn sent_files_reach_the_pane(
    n: crate::daemon::NodeV,
    layout: Option<crate::config::Layout>,
    pane: Seq<char>,
    path: Seq<char>,
    mode: Seq<char>,
)
    requires
        n.connected.contains(pane),
    ensures
        crate::daemon::command_steps(n, load_message(pane, path, mode), layout) == seq![
            crate::daemon::StepV::Send {
                pane,
                message: crate::daemon::player_command(
                    seq![JsonV::Str("loadfile"@), JsonV::Str(path), JsonV::Str(mode)],
                ),
            },
        ],
{
    reveal_strlit("loadfile");
    reveal_strlit("panebot:");
    reveal_strlit("playlist-get");
    assert("loadfile"@.len() == 8 && "playlist-get"@.len() == 12);
    assert("loadfile"@[0] == 'l' && "panebot:"@[0] == 'p');
    assert(crate::daemon::allowed_commands()[15] == "loadfile"@);
    let args = seq![JsonV::Str(path), JsonV::Str(mode)];
    crate::client::commands_sent_are_forwarded(n, layout, "loadfile"@, pane, args);
    assert(seq![JsonV::Str("loadfile"@)] + args =~= seq![
        JsonV::Str("loadfile"@),
        JsonV::Str(path),
        JsonV::Str(mode),
    ]);
}

/// What is sent is read by the daemon as it was meant: the text of the message stands
/// for the message.
pub proof fn sent_files_survive_the_wire(pane: Seq<char>, path: Seq<char>, mode: Seq<char>)
    ensures
        exact(load_message(pane, path, mode), 127),
{
    let args = seq![JsonV::Str(path), JsonV::Str(mode)];
    assert forall|i: int| 0 <= i < args.len() implies exact(#[trigger] args[i], 125) by {}
    crate::client::commands_survive_the_wire("loadfile"@, pane, args);
}

/// Every argument that is neither a flag nor an option is sent, in order, and
/// nothing else is.
pub proof fn files_are_the_plain_arguments(args: Seq<Seq<char>>, a: Seq<char>)
    requires
        a != "--nodes"@,
        a.len() == 0 || a[0] != '@',
        !"--pane="@.is_prefix_of(a),
        !"--mode="@.is_prefix_of(a),
    ensures
        args_of(args.push(a)).files == args_of(args).files.push(a),
        args_of(args.push(a)).pane == args_of(args).pane,
        args_of(args.push(a)).mode == args_of(args).mode,
        args_of(args.push(a)).node == args_of(args).node,
{
    assert(args.push(a).drop_last() =~= args);
}

/// A web address is sent as it is, whatever the current directory; so is a path from the
/// root. Any other file is looked for in the current directory.
pub proof fn addresses_are_sent_as_they_are(file: &str, cwd: &str, r: String)
    requires
        call_ensures(resolve_path, (file, cwd), r),
    ensures
        "http://"@.is_prefix_of(file@) || "https://"@.is_prefix_of(file@) ==> r@ == file@,
        "http"@.is_prefix_of(file@) ==> r@ == file@,
        file@.len() > 0 && file@[0] == '/' ==> r@ == file@,
        !"http"@.is_prefix_of(file@) && (file@.len() == 0 || file@[0] != '/') && cwd@.len() > 0
            && cwd@.last() != '/' ==> r@ == cwd@ + seq!['/'] + file@,
        !"http"@.is_prefix_of(file@) && (file@.len() == 0 || file@[0] != '/') && (cwd@.len() == 0
            || cwd@.last() == '/') ==> r@ == cwd@ + file@,
{
    reveal_strlit("http");
    reveal_strlit("http://");
    reveal_strlit("https://");
    reveal_strlit("/");
    if "http://"@.is_prefix_of(file@) {
        assert("http"@ =~= file@.subrange(0, 4)) by {
            assert(file@.subrange(0, 4) =~= file@.subrange(0, 7).subrange(0, 4));
        }
    }
    if "https://"@.is_prefix_of(file@) {
        assert("http"@ =~= file@.subrange(0, 4)) by {
            assert(file@.subrange(0, 4) =~= file@.subrange(0, 8).subrange(0, 4));
        }
    }
    assert("/"@ =~= seq!['/']);
}

/// A file is sent as the player's command to load it, for the named pane, with the path
/// first and the way to queue it second.
pub proof fn files_are_sent_to_be_loaded(pane: &str, path: &str, mode: &str, r: Json)
    requires
        call_ensures(send, (pane, path, mode), r),
    ensures
        r.view() == JsonV::Obj(
            map![
                "command"@ => JsonV::Str("loadfile"@),
                "pane"@ => JsonV::Str(pane@),
                "args"@ => JsonV::Arr(seq![JsonV::Str(path@), JsonV::Str(mode@)]),
            ],
        ),
{
    crate::node_laws::lemma_obj_three(
        "command"@,
        JsonV::Str("loadfile"@),
        "pane"@,
        JsonV::Str(pane@),
        "args"@,
        JsonV::Arr(seq![JsonV::Str(path@), JsonV::Str(mode@)]),
    );
}

/// Every file of the command line is sent, in order, to the pane that was chosen and in
/// the mode that was asked for.
pub proof fn every_file_is_sent(args: &SendArgs, pane: &str, cwd: &str, r: Vec<Json>, i: int)
    requires
        0 <= i < args.files@.len(),
        call_ensures(send_files, (args, pane, cwd), r),
    ensures
        r@.len() == args.files@.len(),
        r@[i].view() == JsonV::Obj(
            map![
                "command"@ => JsonV::Str("loadfile"@),
                "pane"@ => JsonV::Str(pane@),
                "args"@ => JsonV::Arr(
                    seq![
                        JsonV::Str(resolved(args.files@[i]@, cwd@)),
                        JsonV::Str(args.mode@),
                    ],
                ),
            ],
        ),
{
    assert(crate::json::jsons(r@).len() == r@.len());
    assert(crate::json::jsons(r@)[i] == r@[i].view());
    assert(args.view().files[i] == args.files@[i]@);
    crate::node_laws::lemma_obj_three(
        "command"@,
        JsonV::Str("loadfile"@),
        "pane"@,
        JsonV::Str(pane@),
        "args"@,
        JsonV::Arr(seq![JsonV::Str(resolved(args.files@[i]@, cwd@)), JsonV::Str(args.mode@)]),
    );
}

/// Without options a file is queued behind the others and played, on this machine, and
/// the pane is yet to be chosen.
pub proof fn plain_arguments_queue_files(args: &Vec<String>, r: SendArgs)
    requires
        forall|i: int|
            0 <= i < args@.len() ==> {
                let a = (#[trigger] args@[i])@;
                &&& a != "--nodes"@
                &&& (a.len() == 0 || a[0] != '@')
                &&& !"--pane="@.is_prefix_of(a)
                &&& !"--mode="@.is_prefix_of(a)
            },
        call_ensures(parse_args, (args,), r),
    ensures
        strs(r.files@) == strs(args@),
        r.mode@ == "append-play"@,
        r.pane@.len() == 0,
        r.node is None,
        !r.nodes_flag,
{
    lemma_plain_arguments(strs(args@));
}

proof fn lemma_plain_arguments(args: Seq<Seq<char>>)
    requires
        forall|i: int|
            0 <= i < args.len() ==> {
                let a = #[trigger] args[i];
                &&& a != "--nodes"@
                &&& (a.len() == 0 || a[0] != '@')
                &&& !"--pane="@.is_prefix_of(a)
                &&& !"--mode="@.is_prefix_of(a)
            },
    ensures
        args_of(args) == (SendArgsV {
            pane: Seq::empty(),
            mode: "append-play"@,
            files: args,
            node: None,
            nodes_flag: false,
        }),
    decreases args.len(),
{
    if args.len() > 0 {
        let front = args.drop_last();
        assert forall|i: int| 0 <= i < front.len() implies ({
            let a = #[trigger] front[i];
            &&& a != "--nodes"@
            &&& (a.len() == 0 || a[0] != '@')
            &&& !"--pane="@.is_prefix_of(a)
            &&& !"--mode="@.is_prefix_of(a)
        }) by {
            assert(front[i] == args[i]);
        }
        lemma_plain_arguments(front);
        assert(front.push(args[args.len() - 1]) =~= args);
    } else {
        assert(args =~= Seq::empty());
    }
}

/// Of each option the last one counts: what stands before it on the command line does not
/// change what it says, and it changes nothing else.
pub proof fn options_say_one_thing(args: Seq<Seq<char>>, x: Seq<char>)
    ensures
        args_of(args.push("--nodes"@)) == (SendArgsV { nodes_flag: true, ..args_of(args) }),
        args_of(args.push(seq!['@'] + x)) == (SendArgsV { node: Some(x), ..args_of(args) }),
        args_of(args.push("--pane="@ + x)) == (SendArgsV { pane: x, ..args_of(args) }),
        args_of(args.push("--mode="@ + x)) == (SendArgsV { mode: x, ..args_of(args) }),
{
    reveal_strlit("--nodes");
    reveal_strlit("--pane=");
    reveal_strlit("--mode=");
    assert(args.push("--nodes"@).drop_last() =~= args);
    let a = seq!['@'] + x;
    assert(args.push(a).drop_last() =~= args);
    assert(a[0] == '@');
    assert(a.skip(1) =~= x);
    assert("--nodes"@[0] == '-');
    let p = "--pane="@ + x;
    assert(args.push(p).drop_last() =~= args);
    assert(p[2] == 'p' && "--nodes"@[2] == 'n');
    assert(p.subrange(0, 7) =~= "--pane="@);
    assert(p.skip(7) =~= x);
    let m = "--mode="@ + x;
    assert(args.push(m).drop_last() =~= args);
    assert(m[2] == 'm' && "--pane="@[2] == 'p');
    assert(m.subrange(0, 7) =~= "--mode="@);
    assert(m.subrange(0, 7)[2] == 'm');
    assert(m.skip(7) =~= x);
}

/// Without a node the local daemon is meant; a node that is named is found by its label,
/// in either case, the first of that label; a node that nobody knows is nowhere.
pub proof fn nodes_are_found_by_label(
    node: &Option<String>,
    local: &str,
    hosts: &Vec<Host>,
    r: Option<String>,
)
    requires
        call_ensures(target_address, (node, local, hosts), r),
    ensures
        *node is None ==> opt(r) == Some(local@),
        *node matches Some(n) ==> {
            &&& forall|i: int|
                0 <= i < hosts@.len() && lowercase((#[trigger] hosts@[i]).label@) == lowercase(n@)
                    && (forall|j: int|
                    0 <= j < i ==> lowercase((#[trigger] hosts@[j]).label@) != lowercase(n@))
                    ==> opt(r) == Some(hosts@[i].address@)
            &&& (forall|j: int|
                0 <= j < hosts@.len() ==> lowercase((#[trigger] hosts@[j]).label@) != lowercase(
                    n@,
                )) ==> r is None
        },
{
    if let Some(n) = node {
        let all = host_views(hosts@);
        assert forall|i: int|
            0 <= i < hosts@.len() && lowercase((#[trigger] hosts@[i]).label@) == lowercase(n@) && (
            forall|j: int|
                0 <= j < i ==> lowercase((#[trigger] hosts@[j]).label@) != lowercase(
                    n@,
                )) implies opt(r) == Some(hosts@[i].address@) by {
            assert forall|j: int| 0 <= j < i implies lowercase((#[trigger] all[j]).label)
                != lowercase(n@) by {
                assert(lowercase(hosts@[j].label@) != lowercase(n@));
            }
            lemma_host_index(all, n@, i);
        }
        if forall|j: int|
            0 <= j < hosts@.len() ==> lowercase((#[trigger] hosts@[j]).label@) != lowercase(n@) {
            assert forall|j: int| 0 <= j < all.len() implies lowercase((#[trigger] all[j]).label)
                != lowercase(n@) by {
                assert(lowercase(hosts@[j].label@) != lowercase(n@));
            }
            lemma_host_index(all, n@, all.len() as int);
        }
    }
}

proof fn lemma_host_index(hosts: Seq<HostV>, label: Seq<char>, i: int)
    requires
        0 <= i <= hosts.len(),
        i < hosts.len() ==> lowercase(hosts[i].label) == lowercase(label),
        forall|j: int| 0 <= j < i ==> lowercase((#[trigger] hosts[j]).label) != lowercase(label),
    ensures
        host_index(hosts, label) == i,
    decreases hosts.len(),
{
    if i > 0 {
        assert(lowercase(hosts[0].label) != lowercase(label));
        let rest = hosts.skip(1);
        if i < hosts.len() {
            assert(rest[i - 1] == hosts[i]);
        }
        assert forall|j: int| 0 <= j < i - 1 implies lowercase((#[trigger] rest[j]).label)
            != lowercase(label) by {
            assert(rest[j] == hosts[j + 1]);
        }
        lemma_host_index(rest, label, i - 1);
    }
}

/// The hosts to choose from are this machine, as `local`, and then the known ones in
/// their order.
pub proof fn this_machine_comes_first(local: &str, known: &Vec<Host>, r: Vec<Host>)
    requires
        call_ensures(all_hosts, (local, known), r),
    ensures
        r@.len() == known@.len() + 1,
        r@[0].label@ == "local"@,
        r@[0].address@ == local@,
        forall|i: int|
            0 <= i < known@.len() ==> (#[trigger] r@[i + 1]).label@ == known@[i].label@ && r@[i
                + 1].address@ == known@[i].address@,
{
    let all = host_views(r@);
    assert(all.len() == r@.len());
    assert(all[0] == r@[0].view());
    assert forall|i: int| 0 <= i < known@.len() implies (#[trigger] r@[i + 1]).label@
        == known@[i].label@ && r@[i + 1].address@ == known@[i].address@ by {
        assert(all[i + 1] == r@[i + 1].view());
        assert(all[i + 1] == host_views(known@)[i]);
    }
}

/// A number picks the item that the list shows beside it: the list counts from one. Any
/// other text picks nothing.
pub proof fn lists_count_from_one(input: &str, count: usize, r: Option<usize>, n: int)
    requires
        call_ensures(pick, (input, count), r),
    ensures
        trimmed(input@) == decimal(n) && 1 <= n <= count ==> r == Some((n - 1) as usize),
        trimmed(input@) == decimal(n) && (n == 0 || n > count) && n >= 0 ==> r is None,
        number_value(trimmed(input@)) is None ==> r is None,
{
    if trimmed(input@) == decimal(n) && n >= 0 {
        crate::text::lemma_decimal_value(n);
    }
}

/// A pane that is named is meant; where none is named and there is but one, that is; and
/// where there are several, somebody has to choose.
pub proof fn panes_are_chosen_when_in_doubt(arg: &str, panes: &Vec<PaneInfo>, r: PaneChoice)
    requires
        call_ensures(choose_pane, (arg, panes), r),
    ensures
        panes@.len() == 0 ==> r is NoPanes,
        panes@.len() > 0 && arg@.len() > 0 ==> (r matches PaneChoice::Chosen(p) && p@
            == arg@),
        panes@.len() == 1 && arg@.len() == 0 ==> (r matches PaneChoice::Chosen(p) && p@
            == panes@[0].name@),
        panes@.len() > 1 && arg@.len() == 0 ==> r is Ask,
{
    assert(info_views(panes@).len() == panes@.len());
    if panes@.len() > 0 {
        assert(info_views(panes@)[0] == panes@[0].view());
    }
}

/// A path below the home directory is shown with `~` in its place, and stands for the same
/// path; any other is shown as it is.
pub proof fn home_is_shown_as_a_tilde(path: &str, home: Option<&str>, r: String, rest: Seq<char>)
    requires
        call_ensures(tilde, (path, home), r),
    ensures
        home matches Some(h) && path@ == h@ + rest ==> r@ == seq!['~'] + rest,
        home matches Some(h) ==> !h@.is_prefix_of(path@) ==> r@ == path@,
        home is None ==> r@ == path@,
{
    reveal_strlit("~");
    assert("~"@ =~= seq!['~']);
    if let Some(h) = home {
        if path@ == h@ + rest {
            assert(path@.subrange(0, h@.len() as int) =~= h@);
            assert(path@.skip(h@.len() as int) =~= rest);
        }
    }
}

/// A daemon is reached at the host and port that are named, and at this machine and the
/// daemon's own port where they are not.
pub proof fn endpoints_have_defaults(host: Option<String>, port: Option<u16>, r: String)
    requires
        call_ensures(endpoint, (host, port), r),
    ensures
        r@ == (if host is Some {
            host->0@
        } else {
            "127.0.0.1"@
        }) + seq![':'] + (if port is Some {
            decimal(port->0 as int)
        } else {
            "9090"@
        }),
{
    reveal_strlit(":");
    reveal_strlit("9090");
    assert(":"@ =~= seq![':']);
    reveal_with_fuel(crate::text::decimal, 5);
    assert(decimal(9090) =~= "9090"@);
}

/// A daemon is reached at the host and the port that its address names; what is no address
/// leads nowhere.
pub proof fn addresses_lead_to_daemons(addr: &str, r: Option<String>)
    requires
        call_ensures(connect, (addr,), r),
    ensures
        parsed_url(addr@) is None ==> r is None,
        parsed_url(addr@) matches Some(u) ==> (u.host matches Some(h) ==> (u.port matches Some(p)
            ==> opt(r) == Some(h + seq![':'] + decimal(p as int)))),
{
    reveal_strlit(":");
    assert(":"@ =~= seq![':']);
}

/// The snapshot is known by its name.
pub proof fn snapshots_are_known(v: &Json, r: bool)
    requires
        call_ensures(is_snapshot, (v,), r),
    ensures
        r <==> at(v.view(), "event"@) == JsonV::Str("node:snapshot"@),
{
}

} // verus!
