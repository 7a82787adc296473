//! What holds of a session: choosing and waiting for a daemon, bringing panes up, the log,
//! and what a client takes in of a node's events.
use crate::board::{board_get, lemma_board_index, what_was_put_is_found};
use crate::config::Host;
use crate::connect::{
    connect_ws, host_choices, is_remote, may_spawn, resolve_daemon_addr, run, status_text, Attempt,
    Happening, PickMove, Then,
};
use crate::desk::DeskPane;
use crate::json::{at, bool_of, double_of, field, i64_of, str_of, Json, JsonV};
use crate::keys::{Key, KeyAction};
use crate::node::{hostname, log_line, platform};
use crate::protocol::PaneStateV;
use crate::startup::{
    end_key, keep_looking, playlist_for, prompt_key, started, EndMove, LaunchChoice, PromptMove,
    PromptState,
};
use crate::text::{decimal, opt, trimmed};
use crate::tui::{apply_event, item_name, item_names, App, AppV};
use vstd::prelude::*;

verus! {

// ---------------------------------------------------------------------------
// Daemons
// ---------------------------------------------------------------------------

/// The daemon of this machine is offered first, then the known ones in their order.
pub proof fn daemons_are_offered(known: &Vec<Host>, r: Vec<Host>)
    requires
        call_ensures(host_choices, (known,), r),
    ensures
        r@.len() == known@.len() + 1,
        r@[0].label@ == "local"@,
        r@[0].address@ == "wss://127.0.0.1:9090"@,
        forall|i: int|
            0 <= i < known@.len() ==> (#[trigger] r@[i + 1]).label@ == known@[i].label@ && r@[i
                + 1].address@ == known@[i].address@,
{
    let all = crate::config::host_views(r@);
    assert(all[0] == r@[0].view());
    assert forall|i: int| 0 <= i < known@.len() implies (#[trigger] r@[i + 1]).label@
        == known@[i].label@ && r@[i + 1].address@ == known@[i].address@ by {
        assert(all[i + 1] == r@[i + 1].view());
        assert(all[i + 1] == crate::config::host_views(known@)[i]);
    }
}

/// While a daemon is chosen, up and down go through the list and stop at its ends, Enter
/// takes the one that is selected, and `q` takes none.
pub proof fn a_daemon_is_chosen(sel: usize, count: usize, k: Key, r: PickMove)
    requires
        sel < count,
        call_ensures(resolve_daemon_addr, (sel, count, k), r),
    ensures
        k == Key::Enter ==> r == PickMove::Take(sel),
        k == Key::Char('q') ==> r == PickMove::Quit,
        (k == Key::Up || k == Key::Char('k')) && sel > 0 ==> r == PickMove::At((sel - 1) as usize),
        (k == Key::Up || k == Key::Char('k')) && sel == 0 ==> r == PickMove::At(0),
        (k == Key::Down || k == Key::Char('j')) && sel < count - 1 ==> r == PickMove::At(
            (sel + 1) as usize,
        ),
        (k == Key::Down || k == Key::Char('j')) && sel == count - 1 ==> r == PickMove::At(sel),
{
}

/// A daemon is started only on this machine, and on Linux only where it does not run as a
/// service already.
pub proof fn only_this_machines_daemon_is_started(
    addr: &str,
    linux: bool,
    service: bool,
    r: bool,
    far: bool,
)
    requires
        call_ensures(may_spawn, (addr, linux, service), r),
        call_ensures(is_remote, (addr,), far),
    ensures
        r ==> addr@ == "wss://127.0.0.1:9090"@,
        r ==> !linux || !service,
        addr@ == "wss://127.0.0.1:9090"@ && (!linux || !service) ==> r,
        far == (addr@ != "wss://127.0.0.1:9090"@),
{
}

/// This machine's daemon is waited for without end; another's sixty times at most.
pub proof fn waiting_ends_for_others(addr: &str, a: Attempt, spawned: bool, r: Option<Attempt>)
    requires
        call_ensures(connect_ws, (addr, a, spawned), r),
    ensures
        a == Attempt::First && addr@ == "wss://127.0.0.1:9090"@ ==> r == Some(
            Attempt::Local { spawned },
        ),
        a == Attempt::First && addr@ != "wss://127.0.0.1:9090"@ ==> r == Some(
            Attempt::Remote { attempt: 0 },
        ),
        a matches Attempt::Local { spawned: s } ==> r == Some(a),
        a matches Attempt::Remote { attempt } ==> {
            &&& attempt < 59 ==> r == Some(Attempt::Remote { attempt: (attempt + 1) as u64 })
            &&& attempt >= 59 ==> r is None
        },
{
}

/// What is said while waiting: for another's daemon the seconds that are left, from
/// thirty down, two attempts to a second.
pub proof fn waiting_is_told(addr: &str, a: Attempt, r: String)
    requires
        a matches Attempt::Remote { attempt } ==> attempt < 60,
        call_ensures(status_text, (addr, a), r),
    ensures
        a == Attempt::First ==> r@ == "Connecting to "@ + addr@ + "..."@,
        a == (Attempt::Local { spawned: true }) ==> r@ == "Starting daemon... [q] to cancel"@,
        a == (Attempt::Local { spawned: false }) ==> r@ == "Waiting for daemon... [q] to cancel"@,
        a matches Attempt::Remote { attempt } ==> r@ == "Waiting for "@ + addr@ + " ("@ + decimal(
            30 - attempt as int / 2,
        ) + "s)..."@,
{
    if let Attempt::Remote { attempt } = a {
        assert(attempt * 500 / 1000 == attempt as int / 2);
    }
}

/// A session goes on after the daemon went down or the connection ended, by connecting
/// again; it ends when that is asked for, and then a daemon that was started for it goes
/// down too.
pub proof fn sessions_end_when_asked(owns: bool, h: Happening, r: Then)
    requires
        call_ensures(run, (owns, h), r),
    ensures
        h == Happening::NodeDown ==> r == (Then::Reconnect { ms: 2000 }),
        h == Happening::Closed ==> r == (Then::Reconnect { ms: 1000 }),
        h == Happening::Asked(KeyAction::Quit) ==> r == (Then::End { shutdown: owns }),
        h == Happening::Asked(KeyAction::Reconnect) ==> r == Then::Choose,
        h == Happening::Asked(KeyAction::Render) || h == Happening::Asked(
            KeyAction::RenderDetails,
        ) ==> r == Then::Draw,
        h == Happening::Asked(KeyAction::Nothing) ==> r == Then::Stay,
        h == Happening::KeysEnded ==> r == (Then::End { shutdown: false }),
        r is End ==> h == Happening::Asked(KeyAction::Quit) || h == Happening::KeysEnded,
{
}

// ---------------------------------------------------------------------------
// The node
// ---------------------------------------------------------------------------

/// A line of the log begins with at most ten characters of the host and the time of day,
/// in hours, minutes and seconds of two digits.
pub proof fn log_lines_tell_host_and_time(
    host: &str,
    h: u64,
    m: u64,
    s: u64,
    day: u64,
    secs: u64,
    msg: &str,
    r: String,
)
    requires
        h < 24,
        m < 60,
        s < 60,
        secs == day * 86400 + h * 3600 + m * 60 + s,
        call_ensures(log_line, (host, secs, msg), r),
    ensures
        r@ == "["@ + (if host@.len() > 10 {
            host@.take(10)
        } else {
            host@
        }) + "] ["@ + padded_two(h as int) + ":"@ + padded_two(m as int) + ":"@ + padded_two(
            s as int,
        ) + "] "@ + msg@ + "\n"@,
{
    assert(secs % 86400 == h * 3600 + m * 60 + s && (h * 3600 + m * 60 + s) / 3600 == h && secs
        % 3600 == m * 60 + s && (m * 60 + s) / 60 == m && secs % 60 == s) by (nonlinear_arith)
        requires
            h < 24,
            m < 60,
            s < 60,
            secs == day * 86400 + h * 3600 + m * 60 + s,
    ;
}

/// A number in two digits.
pub open spec fn padded_two(n: int) -> Seq<char> {
    if n < 10 {
        "0"@ + decimal(n)
    } else {
        decimal(n)
    }
}

/// The host's name is the first candidate that is not blank, without white space around
/// it; where there is none it is unknown.
pub proof fn the_first_name_counts(candidates: &Vec<Option<String>>, r: String, i: int)
    requires
        0 <= i <= candidates@.len(),
        forall|j: int|
            0 <= j < i ==> (#[trigger] candidates@[j]) is None || trimmed(candidates@[j]->0@).len()
                == 0,
        i < candidates@.len() ==> candidates@[i] is Some && trimmed(candidates@[i]->0@).len() > 0,
        call_ensures(hostname, (candidates,), r),
    ensures
        i < candidates@.len() ==> r@ == trimmed(candidates@[i]->0@),
        i == candidates@.len() ==> r@ == "unknown"@,
{
    let all = crate::node::opts(candidates@);
    assert forall|j: int| 0 <= j < i implies (#[trigger] all[j]) is None || trimmed(
        all[j]->0,
    ).len() == 0 by {
        assert(candidates@[j] is None || trimmed(candidates@[j]->0@).len() == 0);
    }
    lemma_host_name(all, i);
}

proof fn lemma_host_name(all: Seq<Option<Seq<char>>>, i: int)
    requires
        0 <= i <= all.len(),
        forall|j: int| 0 <= j < i ==> (#[trigger] all[j]) is None || trimmed(all[j]->0).len() == 0,
        i < all.len() ==> all[i] is Some && trimmed(all[i]->0).len() > 0,
    ensures
        i < all.len() ==> crate::node::host_name_of(all) == trimmed(all[i]->0),
        i == all.len() ==> crate::node::host_name_of(all) == "unknown"@,
    decreases all.len(),
{
    if i > 0 {
        assert(all[0] is None || trimmed(all[0]->0).len() == 0);
        let rest = all.skip(1);
        assert forall|j: int| 0 <= j < i - 1 implies (#[trigger] rest[j]) is None || trimmed(
            rest[j]->0,
        ).len() == 0 by {
            assert(rest[j] == all[j + 1]);
        }
        if i < all.len() {
            assert(rest[i - 1] == all[i]);
        }
        lemma_host_name(rest, i - 1);
    }
}

/// Platforms have these names.
pub proof fn platforms_have_names(macos: bool, linux: bool, r: &'static str)
    requires
        call_ensures(platform, (macos, linux), r),
    ensures
        macos ==> r@ == "macos"@,
        !macos && linux ==> r@ == "linux"@,
        !macos && !linux ==> r@ == "unknown"@,
{
}

// ---------------------------------------------------------------------------
// Bringing panes up
// ---------------------------------------------------------------------------

/// What a player is started with is chosen by one key: Enter takes the stored playlist
/// where there is one and else none, `e` takes none, `p` the pane's own where it has one,
/// and `n` begins to type a path.
pub proof fn one_key_chooses(state: &mut PromptState, k: Key, r: PromptMove)
    requires
        !old(state).browsing,
        call_ensures(prompt_key, (state, k), r),
    ensures
        k == Key::Enter && old(state).has_stored ==> r == PromptMove::Choose(
            LaunchChoice::LastPlaylist,
        ),
        k == Key::Enter && !old(state).has_stored ==> r == PromptMove::Choose(LaunchChoice::Empty),
        k == Key::Char('e') ==> r == PromptMove::Choose(LaunchChoice::Empty),
        k == Key::Char('p') && old(state).has_default ==> r == PromptMove::Choose(
            LaunchChoice::PaneDefault,
        ),
        k == Key::Char('p') && !old(state).has_default ==> r is Stay,
        k == Key::Char('n') ==> r is Stay && final(state).browsing && final(state).browse_buf@.len()
            == 0,
        k != Key::Char('n') ==> !final(state).browsing,
{
    let v = r.view();
    let w = final(state).view();
    assert(w.browsing == final(state).browsing);
    assert(w.browse_buf == final(state).browse_buf@);
    if let PromptMove::Choose(c) = r {
        assert(v == crate::startup::PromptMoveV::Choose(c.view()));
    }
}

/// While a path is typed, characters are added at the end and taken from it, Tab goes
/// through the completions and round, Esc gives up, and Enter takes what was typed.
pub proof fn paths_are_typed(state: &mut PromptState, k: Key, r: PromptMove)
    requires
        old(state).browsing,
        old(state).wf(),
        call_ensures(prompt_key, (state, k), r),
    ensures
        k == Key::Enter ==> (r matches PromptMove::Choose(LaunchChoice::NewPlaylist(p)) && p@
            == trimmed(old(state).browse_buf@)),
        k == Key::Esc ==> r is Stay && !final(state).browsing,
        k matches Key::Char(c) ==> r is Complete && final(state).browse_buf@
            == old(state).browse_buf@.push(c),
        k == Key::Backspace && old(state).browse_buf@.len() > 0 ==> r is Complete
            && final(state).browse_buf@ == old(state).browse_buf@.take(
            old(state).browse_buf@.len() - 1,
        ),
        k == Key::Tab && old(state).completions@.len() == 0 ==> r is Complete,
        k == Key::Tab && old(state).completions@.len() > 0 ==> {
            let n = old(state).completions@.len();
            let i = if old(state).comp_sel == n - 1 {
                0
            } else {
                old(state).comp_sel + 1
            };
            &&& r is Stay
            &&& final(state).comp_sel == i
            &&& final(state).browse_buf@ == old(state).completions@[i]@
        },
{
    let v = r.view();
    let w = final(state).view();
    let o = old(state).view();
    assert(w.browsing == final(state).browsing);
    assert(w.browse_buf == final(state).browse_buf@);
    assert(w.comp_sel == final(state).comp_sel);
    assert(o.completions.len() == old(state).completions@.len());
    if o.browse_buf.len() > 0 {
        assert(o.browse_buf.drop_last() =~= o.browse_buf.take(o.browse_buf.len() - 1));
    }
    if let PromptMove::Choose(c) = r {
        assert(v == crate::startup::PromptMoveV::Choose(c.view()));
    }
    if o.completions.len() > 0 {
        let n = o.completions.len();
        let i = if o.comp_sel == n - 1 {
            0
        } else {
            o.comp_sel + 1
        };
        assert(old(state).completions.len() == n);
        assert(o.completions[i] == old(state).completions@[i]@);
    }
}

/// The playlist that was chosen is the one that the player gets.
pub proof fn choices_are_kept(
    choice: &LaunchChoice,
    pane: &DeskPane,
    config: &str,
    r: Option<String>,
)
    requires
        call_ensures(playlist_for, (choice, pane, config), r),
    ensures
        *choice is LastPlaylist ==> opt(r) == Some(
            crate::desk::desk_file(config@, pane.name@, ".m3u"@),
        ),
        *choice is PaneDefault ==> opt(r) == opt(pane.playlist),
        *choice matches LaunchChoice::NewPlaylist(t) ==> t@.len() > 0 ==> opt(r) == Some(t@),
        *choice matches LaunchChoice::NewPlaylist(t) ==> t@.len() == 0 ==> r is None,
        *choice is Empty ==> r is None,
{
}

/// A player counts as started when it answers one of the first sixteen looks, and is
/// looked for no longer than that.
pub proof fn players_get_sixteen_looks(looks: &Vec<bool>, r: bool, more: bool)
    requires
        call_ensures(started, (looks,), r),
        call_ensures(keep_looking, (looks,), more),
    ensures
        r <==> exists|i: int| 0 <= i < looks@.len() && i < 16 && #[trigger] looks@[i],
        more <==> !r && looks@.len() < 16,
{
}

/// After all panes were brought up, Enter and space go on and `q` quits.
pub proof fn the_start_ends_with_a_key(k: Key, r: EndMove)
    requires
        call_ensures(end_key, (k,), r),
    ensures
        k == Key::Enter || k == Key::Char(' ') <==> r == EndMove::Enter,
        k == Key::Char('q') <==> r == EndMove::Quit,
{
}

/// How long things are waited for: a started player some three seconds, one that is to be
/// set as it was five, one that is to go two, and another machine's daemon thirty.
pub proof fn waits_add_up()
    ensures
        crate::startup::START_ATTEMPTS * crate::startup::START_WAIT_MS == 3200,
        crate::typed::RESTORE_LOOKS * crate::typed::RESTORE_WAIT_MS == 5000,
        crate::desk_keys::RELAUNCH_WAITS * crate::desk_keys::RELAUNCH_WAIT_MS == 2000,
        crate::connect::CONNECT_RETRIES * crate::connect::CONNECT_RETRY_MS == 30000,
        crate::connect::CONNECT_TIMEOUT_S == 30,
{
}

// ---------------------------------------------------------------------------
// Events
// ---------------------------------------------------------------------------

proof fn lemma_event_names()
    ensures
        "node:snapshot"@.len() == 13 && "node:snapshot"@[5] == 's',
        "online"@.len() == 6,
        "offline"@.len() == 7,
        "property-change"@.len() == 15,
        "node:down"@.len() == 9,
        "node:layout"@.len() == 11,
        "node:playlist"@.len() == 13 && "node:playlist"@[5] == 'p',
        "node:playlist-saved"@.len() == 19,
{
    reveal_strlit("node:snapshot");
    reveal_strlit("online");
    reveal_strlit("offline");
    reveal_strlit("property-change");
    reveal_strlit("node:down");
    reveal_strlit("node:layout");
    reveal_strlit("node:playlist");
    reveal_strlit("node:playlist-saved");
}

/// The event that a message is.
pub open spec fn is_event(v: JsonV, e: Seq<char>) -> bool {
    at(v, "event"@) == JsonV::Str(e)
}

/// A client takes in what an event says of the node: its layout, the file that was saved,
/// or that it goes down, which takes every pane offline. An event that it does not know
/// changes nothing.
pub proof fn events_of_the_node_are_taken_in(
    app: &mut App,
    v: &Json,
    layouts: Vec<String>,
    down: bool,
)
    requires
        call_ensures(apply_event, (app, v, layouts), down),
    ensures
        is_event(v.view(), "node:layout"@) ==> (at(v.view(), "layout"@) matches JsonV::Str(l)
            ==> final(app).view() == (AppV { layout: l, ..old(app).view() })),
        is_event(v.view(), "node:playlist-saved"@) ==> (at(v.view(), "path"@) matches JsonV::Str(p)
            ==> final(app).view() == (AppV {
            status_msg: Some("Saved to "@ + p),
            ..old(app).view()
        })),
        is_event(v.view(), "node:down"@) ==> down && final(app).panes@.len()
            == old(app).panes@.len() && forall|i: int|
            0 <= i < final(app).panes@.len() ==> (#[trigger] final(app).panes@[i]).view() == (
            PaneStateV { online: false, ..old(app).panes@[i].view() }),
        !is_event(v.view(), "node:down"@) ==> !down,
        ({
            let e = v.view();
            !is_event(e, "node:snapshot"@) && !is_event(e, "online"@) && !is_event(e, "offline"@)
                && !is_event(e, "property-change"@) && !is_event(e, "node:down"@) && !is_event(
                e,
                "node:layout"@,
            ) && !is_event(e, "node:playlist"@) && !is_event(e, "node:playlist-saved"@)
        }) ==> final(app).view() == old(app).view(),
{
    lemma_event_names();
    let e = v.view();
    if is_event(e, "node:down"@) {
        let a = final(app).view().panes;
        let b = old(app).view().panes;
        assert(a.len() == final(app).panes@.len());
        assert(b.len() == old(app).panes@.len());
        assert forall|i: int| 0 <= i < final(app).panes@.len() implies (
        #[trigger] final(app).panes@[i]).view() == (PaneStateV {
            online: false,
            ..old(app).panes@[i].view()
        }) by {
            assert(a[i] == final(app).panes@[i].view());
            assert(b[i] == old(app).panes@[i].view());
        }
    }
}

/// A client takes in what an event says of a pane that it knows: that it came up, with
/// what is told of it; that it went down; or that one of its properties has a new value.
/// An event about a pane that it does not know changes nothing.
pub proof fn events_of_panes_are_taken_in(
    app: &mut App,
    v: &Json,
    layouts: Vec<String>,
    down: bool,
    pane: Seq<char>,
)
    requires
        at(v.view(), "pane"@) == JsonV::Str(pane),
        is_event(v.view(), "online"@) || is_event(v.view(), "offline"@) || is_event(
            v.view(),
            "property-change"@,
        ),
        call_ensures(apply_event, (app, v, layouts), down),
    ensures
        board_get(old(app).view().panes, pane) is None ==> final(app).view() == old(app).view(),
        board_get(old(app).view().panes, pane) matches Some(was) ==> {
            let e = v.view();
            let now = board_get(final(app).view().panes, pane);
            &&& is_event(e, "offline"@) ==> now == Some(PaneStateV { online: false, ..was })
            &&& is_event(e, "online"@) && field(e, "state"@) is None ==> now == Some(
                PaneStateV { online: true, ..was },
            )
            &&& is_event(e, "online"@) && field(e, "state"@) is Some ==> {
                let st = at(e, "state"@);
                now == Some(
                    PaneStateV {
                        online: true,
                        paused: if at(st, "paused"@) is Bool {
                            bool_of(at(st, "paused"@))
                        } else {
                            was.paused
                        },
                        muted: if at(st, "muted"@) is Bool {
                            bool_of(at(st, "muted"@))
                        } else {
                            was.muted
                        },
                        idle_active: if at(st, "idle_active"@) is Bool {
                            bool_of(at(st, "idle_active"@))
                        } else {
                            was.idle_active
                        },
                        volume: if at(st, "volume"@) is Num {
                            double_of(at(st, "volume"@))
                        } else {
                            was.volume
                        },
                        playlist_pos: if i64_of(at(st, "playlist_pos"@)) is Some {
                            i64_of(at(st, "playlist_pos"@))
                        } else {
                            was.playlist_pos
                        },
                        title: if at(st, "title"@) is Str {
                            str_of(at(st, "title"@))
                        } else {
                            was.title
                        },
                        ..was
                    },
                )
            }
            &&& is_event(e, "property-change"@) ==> (at(e, "property"@) matches JsonV::Str(p) ==> {
                let x = at(e, "value"@);
                &&& p == "pause"@ ==> now == Some(PaneStateV { paused: bool_of(x), ..was })
                &&& p == "volume"@ ==> now == Some(PaneStateV { volume: double_of(x), ..was })
                &&& p == "media-title"@ ==> now == Some(PaneStateV { title: str_of(x), ..was })
                &&& p == "playlist-pos"@ ==> now == Some(
                    PaneStateV { playlist_pos: i64_of(x), ..was },
                )
                &&& p == "mute"@ ==> now == Some(PaneStateV { muted: bool_of(x), ..was })
                &&& p == "idle-active"@ ==> now == Some(
                    PaneStateV { idle_active: bool_of(x), ..was },
                )
            })
        },
{
    lemma_event_names();
    reveal_strlit("pause");
    reveal_strlit("volume");
    reveal_strlit("media-title");
    reveal_strlit("playlist-pos");
    reveal_strlit("mute");
    reveal_strlit("idle-active");
    assert("pause"@.len() == 5 && "volume"@.len() == 6 && "media-title"@.len() == 11
        && "playlist-pos"@.len() == 12 && "mute"@.len() == 4 && "idle-active"@.len() == 11
        && "media-title"@[0] == 'm' && "idle-active"@[0] == 'i');
    let s = old(app).view();
    let e = v.view();
    if let Some(was) = board_get(s.panes, pane) {
        lemma_board_index(s.panes, pane);
        assert(was.mpv_name == pane);
        let up = PaneStateV { online: true, ..was };
        let on = match field(e, "state"@) {
            Some(st) => crate::board::state_applied(up, st),
            None => up,
        };
        what_was_put_is_found(s.panes, on);
        what_was_put_is_found(s.panes, PaneStateV { online: false, ..was });
        what_was_put_is_found(
            s.panes,
            crate::protocol::after_property(
                was,
                crate::tui::text_at(e, "property"@),
                at(e, "value"@),
            ),
        );
    }
}

/// A playlist is shown where its pane's list is open, and only there: each item by its
/// title, or else by its source, and from the item that the player is at.
pub proof fn playlists_are_shown_for_their_pane(
    app: &mut App,
    v: &Json,
    layouts: Vec<String>,
    down: bool,
    items: Seq<JsonV>,
    i: int,
)
    requires
        is_event(v.view(), "node:playlist"@),
        0 <= i < old(app).pane_order@.len(),
        forall|j: int|
            0 <= j < i ==> (#[trigger] old(app).pane_order@[j])@ != old(app).pane_order@[i]@,
        at(v.view(), "pane"@) == JsonV::Str(old(app).pane_order@[i]@),
        at(v.view(), "items"@) == JsonV::Arr(items),
        call_ensures(apply_event, (app, v, layouts), down),
    ensures
        i == old(app).selected && old(app).show_details ==> {
            &&& final(app).view().playlist_items == items.filter(
                |x: JsonV| at(x, "filename"@) is Str,
            ).map_values(
                |x: JsonV|
                    if at(x, "title"@) is Str && at(x, "title"@)->Str_0.len() > 0 {
                        at(x, "title"@)->Str_0
                    } else {
                        at(x, "filename"@)->Str_0
                    },
            )
            &&& final(app).view().status_msg is None
            &&& board_get(old(app).view().panes, old(app).pane_order@[i]@) matches Some(p) ==> (
            p.playlist_pos matches Some(n) ==> 0 <= n <= usize::MAX ==> final(app).playlist_sel
                == n)
        },
        i != old(app).selected || !old(app).show_details ==> final(app).view() == old(app).view(),
{
    lemma_event_names();
    let order = old(app).view().pane_order;
    assert forall|j: int| 0 <= j < i implies #[trigger] order[j] != order[i] by {
        assert(old(app).pane_order@[j]@ != old(app).pane_order@[i]@);
    }
    crate::key_laws::lemma_name_index(order, order[i], i);
    lemma_item_names(items);
    assert(final(app).view().playlist_sel == final(app).playlist_sel);
}

proof fn lemma_item_names(items: Seq<JsonV>)
    ensures
        item_names(items) == items.filter(|x: JsonV| at(x, "filename"@) is Str).map_values(
            |x: JsonV|
                if at(x, "title"@) is Str && at(x, "title"@)->Str_0.len() > 0 {
                    at(x, "title"@)->Str_0
                } else {
                    at(x, "filename"@)->Str_0
                },
        ),
    decreases items.len(),
{
    reveal(Seq::filter);
    let f = |x: JsonV|
        if at(x, "title"@) is Str && at(x, "title"@)->Str_0.len() > 0 {
            at(x, "title"@)->Str_0
        } else {
            at(x, "filename"@)->Str_0
        };
    let some = items.filter(|x: JsonV| at(x, "filename"@) is Str);
    if items.len() > 0 {
        lemma_item_names(items.drop_last());
        let before = items.drop_last().filter(|x: JsonV| at(x, "filename"@) is Str);
        if at(items.last(), "filename"@) is Str {
            assert(some.map_values(f) =~= before.map_values(f).push(f(items.last())));
            assert(item_name(items.last()) == Some(f(items.last())));
        } else {
            assert(item_name(items.last()) is None);
        }
    } else {
        assert(some.map_values(f) =~= Seq::empty());
    }
}

} // verus!
