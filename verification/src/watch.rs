//! A terminal that watches a node and keeps a log of what happens to its panes.
use crate::json::{
    at, bool_of, double_of, field, i64_of, jsons, nearest_double, parsed, rounded_in_three,
    rounded_text, str_of, Double, Json, JsonV,
};
use crate::screen::{ink, span, span_views, Color, Span, SpanV};
use crate::text::{cat, is_empty, opt, pad_right, padded, same, strs, upper, uppercase};
use crate::tui::text_at;
use std::collections::VecDeque;
use vstd::prelude::*;

verus! {

/// How many lines the log keeps.
pub const LOG_CAPACITY: usize = 500;

/// What is known of a player; what has not been reported has a value all the same.
#[derive(Debug)]
pub struct Player {
    pub name: String,
    pub pane_type: String,
    pub online: bool,
    pub idle_active: bool,
    pub paused: bool,
    pub muted: bool,
    pub volume: Double,
    pub title: String,
    pub playlist_pos: i64,
}

pub struct PlayerV {
    pub name: Seq<char>,
    pub pane_type: Seq<char>,
    pub online: bool,
    pub idle_active: bool,
    pub paused: bool,
    pub muted: bool,
    pub volume: u64,
    pub title: Seq<char>,
    pub playlist_pos: i64,
}

/// A player of which nothing has been reported.
pub open spec fn fresh_player(name: Seq<char>, pane_type: Seq<char>) -> PlayerV {
    PlayerV {
        name,
        pane_type,
        online: false,
        idle_active: true,
        paused: true,
        muted: false,
        volume: nearest_double(0),
        title: Seq::empty(),
        playlist_pos: -1i64,
    }
}

/// What a player is doing.
pub open spec fn doing(p: PlayerV) -> (Seq<char>, Color) {
    if !p.online {
        ("Offline"@, Color::Red)
    } else if p.idle_active {
        ("Stopped"@, Color::Dim)
    } else if p.paused {
        ("Paused"@, Color::Hint)
    } else {
        ("Playing"@, Color::Green)
    }
}

/// How loud a player is.
pub open spec fn loudness(p: PlayerV) -> (Seq<char>, Color) {
    if !p.online {
        ("Offline"@, Color::Red)
    } else if p.muted {
        ("Vol:Mute"@, Color::Dim)
    } else {
        ("Vol:"@ + rounded_in_three(p.volume), Color::Cyan)
    }
}

impl Player {
    pub open spec fn view(&self) -> PlayerV {
        PlayerV {
            name: self.name@,
            pane_type: self.pane_type@,
            online: self.online,
            idle_active: self.idle_active,
            paused: self.paused,
            muted: self.muted,
            volume: self.volume.bits(),
            title: self.title@,
            playlist_pos: self.playlist_pos,
        }
    }

    /// A player of which nothing has been reported.
    pub fn new(name: &str, pane_type: &str) -> (r: Player)
        ensures
            r.view() == fresh_player(name@, pane_type@),
    {
        Player {
            name: name.to_owned(),
            pane_type: pane_type.to_owned(),
            online: false,
            idle_active: true,
            paused: true,
            muted: false,
            volume: Double::whole(0),
            title: String::new(),
            playlist_pos: -1,
        }
    }

    /// A copy.
    pub fn copy(&self) -> (r: Player)
        ensures
            r.view() == self.view(),
    {
        Player {
            name: self.name.clone(),
            pane_type: self.pane_type.clone(),
            online: self.online,
            idle_active: self.idle_active,
            paused: self.paused,
            muted: self.muted,
            volume: self.volume.copy(),
            title: self.title.clone(),
            playlist_pos: self.playlist_pos,
        }
    }

    /// What the player is doing, and the colour to say it in.
    pub fn playback_label(&self) -> (r: (&'static str, Color))
        ensures
            (r.0@, r.1) == doing(self.view()),
    {
        if !self.online {
            ("Offline", Color::Red)
        } else if self.idle_active {
            ("Stopped", Color::Dim)
        } else if self.paused {
            ("Paused", Color::Hint)
        } else {
            ("Playing", Color::Green)
        }
    }

    /// How loud the player is, and the colour to say it in.
    pub fn volume_label(&self) -> (r: (String, Color))
        ensures
            (r.0@, r.1) == loudness(self.view()),
    {
        if !self.online {
            ("Offline".to_owned(), Color::Red)
        } else if self.muted {
            ("Vol:Mute".to_owned(), Color::Dim)
        } else {
            (cat("Vol:", self.volume.in_three_columns().as_str()), Color::Cyan)
        }
    }
}

pub open spec fn player_views(v: Seq<Player>) -> Seq<PlayerV> {
    Seq::new(v.len(), |i: int| v[i].view())
}

/// The names of the players, in order.
pub open spec fn player_names(v: Seq<PlayerV>) -> Seq<Seq<char>> {
    Seq::new(v.len(), |i: int| v[i].name)
}

/// What the playlist screen is being used for.
#[derive(Clone, Copy, Debug, PartialEq, Eq, Structural)]
pub enum WatchMode {
    Normal,
    Command,
    Jump,
    Add,
    Send,
}

/// What the terminal knows and shows.
#[derive(Debug)]
pub struct Watch {
    pub players: Vec<Player>,
    pub selected: usize,
    pub hostname: String,
    pub layout: String,
    pub log: VecDeque<Vec<Span>>,
    pub show_log: bool,
    pub command_mode: bool,
    pub show_picker: bool,
    pub picker_sel: usize,
    pub layouts: Vec<String>,
    pub show_details: bool,
    pub details_mode: WatchMode,
    pub playlist_sel: usize,
    pub playlist_items: Vec<String>,
    pub status_msg: Option<String>,
    pub jump_input: String,
    pub add_input: String,
    pub add_completions: Vec<String>,
    pub add_comp_sel: usize,
    pub send_picker_sel: usize,
}

pub struct WatchV {
    pub players: Seq<PlayerV>,
    pub selected: usize,
    pub hostname: Seq<char>,
    pub layout: Seq<char>,
    pub log: Seq<Seq<SpanV>>,
    pub show_log: bool,
    pub command_mode: bool,
    pub show_picker: bool,
    pub picker_sel: usize,
    pub layouts: Seq<Seq<char>>,
    pub show_details: bool,
    pub details_mode: WatchMode,
    pub playlist_sel: usize,
    pub playlist_items: Seq<Seq<char>>,
    pub status_msg: Option<Seq<char>>,
    pub jump_input: Seq<char>,
    pub add_input: Seq<char>,
    pub add_completions: Seq<Seq<char>>,
    pub add_comp_sel: usize,
    pub send_picker_sel: usize,
}

pub open spec fn log_views(v: Seq<Vec<Span>>) -> Seq<Seq<SpanV>> {
    Seq::new(v.len(), |i: int| span_views(v[i]@))
}

/// A terminal that knows nothing yet.
pub open spec fn fresh_watch() -> WatchV {
    WatchV {
        players: Seq::empty(),
        selected: 0,
        hostname: Seq::empty(),
        layout: Seq::empty(),
        log: Seq::empty(),
        show_log: false,
        command_mode: false,
        show_picker: false,
        picker_sel: 0,
        layouts: Seq::empty(),
        show_details: false,
        details_mode: WatchMode::Normal,
        playlist_sel: 0,
        playlist_items: Seq::empty(),
        status_msg: None,
        jump_input: Seq::empty(),
        add_input: Seq::empty(),
        add_completions: Seq::empty(),
        add_comp_sel: 0,
        send_picker_sel: 0,
    }
}

/// The log with one more line; the oldest goes where it is full.
pub open spec fn logged(log: Seq<Seq<SpanV>>, line: Seq<SpanV>) -> Seq<Seq<SpanV>> {
    if log.len() >= LOG_CAPACITY {
        log.skip(1).push(line)
    } else {
        log.push(line)
    }
}

/// A line of the log about a pane.
pub open spec fn pane_line(pane: Seq<char>, spans: Seq<SpanV>) -> Seq<SpanV> {
    seq![
        ink("[PaneBot]"@, Color::Orange),
        ink(" :: "@, Color::Dim),
        ink(padded(uppercase(pane), 12), Color::White),
        ink(" :: "@, Color::Dim),
    ] + spans
}

/// A line of the log about the node.
pub open spec fn node_line(spans: Seq<SpanV>) -> Seq<SpanV> {
    seq![
        ink("[PaneBot]"@, Color::Orange),
        ink(" :: "@, Color::Dim),
        ink("node"@, Color::Dim),
        ink(" :: "@, Color::Dim),
    ] + spans
}

pub open spec fn with_log(s: WatchV, line: Seq<SpanV>) -> WatchV {
    WatchV { log: logged(s.log, line), ..s }
}

/// The selected player's name.
pub open spec fn watched(s: WatchV) -> Option<Seq<char>> {
    if s.selected < s.players.len() {
        Some(s.players[s.selected as int].name)
    } else {
        None
    }
}

/// The playlist position of the selected player; -1 where none is selected.
pub open spec fn watch_position(s: WatchV) -> i64 {
    if s.selected < s.players.len() {
        s.players[s.selected as int].playlist_pos
    } else {
        -1i64
    }
}

impl Watch {
    pub open spec fn view(&self) -> WatchV {
        WatchV {
            players: player_views(self.players@),
            selected: self.selected,
            hostname: self.hostname@,
            layout: self.layout@,
            log: log_views(self.log@),
            show_log: self.show_log,
            command_mode: self.command_mode,
            show_picker: self.show_picker,
            picker_sel: self.picker_sel,
            layouts: strs(self.layouts@),
            show_details: self.show_details,
            details_mode: self.details_mode,
            playlist_sel: self.playlist_sel,
            playlist_items: strs(self.playlist_items@),
            status_msg: opt(self.status_msg),
            jump_input: self.jump_input@,
            add_input: self.add_input@,
            add_completions: strs(self.add_completions@),
            add_comp_sel: self.add_comp_sel,
            send_picker_sel: self.send_picker_sel,
        }
    }

    /// The log fits, the chosen completion is one of them, and no two players have
    /// one name.
    pub open spec fn wf(&self) -> bool {
        &&& self.log@.len() <= LOG_CAPACITY
        &&& self.add_completions@.len() == 0 || self.add_comp_sel < self.add_completions@.len()
        &&& player_names(self.view().players).no_duplicates()
    }

    /// A terminal that knows nothing yet.
    pub fn new() -> (r: Watch)
        ensures
            r.view() == fresh_watch(),
            r.wf(),
    {
        let r: Watch = Watch {
            players: Vec::new(),
            selected: 0,
            hostname: String::new(),
            layout: String::new(),
            log: VecDeque::new(),
            show_log: false,
            command_mode: false,
            show_picker: false,
            picker_sel: 0,
            layouts: Vec::new(),
            show_details: false,
            details_mode: WatchMode::Normal,
            playlist_sel: 0,
            playlist_items: Vec::new(),
            status_msg: None,
            jump_input: String::new(),
            add_input: String::new(),
            add_completions: Vec::new(),
            add_comp_sel: 0,
            send_picker_sel: 0,
        };
        proof {
            assert(player_views(r.players@) =~= Seq::empty());
            assert(log_views(r.log@) =~= Seq::empty());
            assert(strs(r.layouts@) =~= Seq::empty());
            assert(strs(r.playlist_items@) =~= Seq::empty());
            assert(strs(r.add_completions@) =~= Seq::empty());
        }
        r
    }

    /// Adds a line to the log.
    pub fn push_log(&mut self, spans: Vec<Span>)
        requires
            old(self).wf(),
        ensures
            final(self).view() == with_log(old(self).view(), span_views(spans@)),
            final(self).wf(),
    {
        let ghost before = self.log@;
        if self.log.len() >= LOG_CAPACITY {
            self.log.pop_front();
            assert(self.log@ =~= before.skip(1));
        }
        self.log.push_back(spans);
        proof {
            if before.len() >= LOG_CAPACITY {
                assert(log_views(self.log@) =~= log_views(before).skip(1).push(span_views(spans@)));
            } else {
                assert(log_views(self.log@) =~= log_views(before).push(span_views(spans@)));
            }
        }
    }

    /// How many players are online.
    pub fn active_count(&self) -> (r: usize)
        ensures
            r == players_online(self.view().players),
    {
        let ghost all = self.view().players;
        let mut c: usize = 0;
        for i in 0..self.players.len()
            invariant
                all == player_views(self.players@),
                c <= i,
                c == players_online(all.take(i as int)),
        {
            proof {
                assert(all.take(i + 1).drop_last() =~= all.take(i as int));
                assert(all.take(i + 1).last() == self.players@[i as int].view());
            }
            if self.players[i].online {
                c = c + 1;
            }
        }
        assert(all.take(all.len() as int) =~= all);
        c
    }

    /// The selected player's name.
    pub fn selected_name(&self) -> (r: Option<String>)
        ensures
            opt(r) == watched(self.view()),
    {
        if self.selected < self.players.len() {
            Some(self.players[self.selected].name.clone())
        } else {
            None
        }
    }

    /// The playlist position of the selected player.
    pub fn current_playlist_pos(&self) -> (r: i64)
        ensures
            r == watch_position(self.view()),
    {
        if self.selected < self.players.len() {
            self.players[self.selected].playlist_pos
        } else {
            -1
        }
    }

    /// Whether the selected item is the one being played.
    pub fn sel_is_playing(&self) -> (r: bool)
        ensures
            r == crate::m3u::is_playing(self.playlist_sel as int, watch_position(self.view())),
    {
        let pos: i64 = self.current_playlist_pos();
        pos >= 0 && pos as u64 == self.playlist_sel as u64
    }
}

/// How many players are online.
pub open spec fn players_online(s: Seq<PlayerV>) -> int
    decreases s.len(),
{
    if s.len() == 0 {
        0
    } else {
        players_online(s.drop_last()) + if s.last().online {
            1int
        } else {
            0
        }
    }
}

// ---------------------------------------------------------------------------
// Log lines
// ---------------------------------------------------------------------------

fn framed(who: Span, spans: Vec<Span>) -> (r: Vec<Span>)
    ensures
        span_views(r@) == seq![
            ink("[PaneBot]"@, Color::Orange),
            ink(" :: "@, Color::Dim),
            who.view(),
            ink(" :: "@, Color::Dim),
        ] + span_views(spans@),
{
    let ghost head = seq![
        ink("[PaneBot]"@, Color::Orange),
        ink(" :: "@, Color::Dim),
        who.view(),
        ink(" :: "@, Color::Dim),
    ];
    let mut line: Vec<Span> = vec![
        span("[PaneBot]", Color::Orange),
        span(" :: ", Color::Dim),
        who,
        span(" :: ", Color::Dim),
    ];
    let ghost tail = spans@;
    assert(span_views(line@) =~= head);
    let mut more: Vec<Span> = spans;
    line.append(&mut more);
    assert(span_views(line@) =~= head + span_views(tail));
    line
}

/// Logs something about a pane.
pub fn log_event(app: &mut Watch, pane: &str, spans: Vec<Span>)
    requires
        old(app).wf(),
    ensures
        final(app).view() == with_log(old(app).view(), pane_line(pane@, span_views(spans@))),
        final(app).wf(),
{
    let who: Span = span(pad_right(upper(pane).as_str(), 12).as_str(), Color::White);
    app.push_log(framed(who, spans));
}

/// Logs something about the node.
pub fn log_node(app: &mut Watch, spans: Vec<Span>)
    requires
        old(app).wf(),
    ensures
        final(app).view() == with_log(old(app).view(), node_line(span_views(spans@))),
        final(app).wf(),
{
    app.push_log(framed(span("node", Color::Dim), spans));
}

fn one_span(text: &str, color: Color) -> (r: Vec<Span>)
    ensures
        span_views(r@) == seq![ink(text@, color)],
{
    let v: Vec<Span> = vec![span(text, color)];
    assert(span_views(v@) =~= seq![ink(text@, color)]);
    v
}

/// What happened and to what it came.
pub open spec fn told(what: Seq<char>, color: Color, value: Seq<char>, shade: Color) -> Seq<SpanV> {
    seq![ink(what, color), ink(" :: "@, Color::Dim), ink(value, shade)]
}

fn telling(what: &str, color: Color, value: &str, shade: Color) -> (r: Vec<Span>)
    ensures
        span_views(r@) == told(what@, color, value@, shade),
{
    let v: Vec<Span> = vec![span(what, color), span(" :: ", Color::Dim), span(value, shade)];
    assert(span_views(v@) =~= told(what@, color, value@, shade));
    v
}

// ---------------------------------------------------------------------------
// Events
// ---------------------------------------------------------------------------

/// Where the player `name` stands; past the end where it does not occur.
pub open spec fn player_index(s: Seq<PlayerV>, name: Seq<char>) -> int
    decreases s.len(),
{
    if s.len() == 0 || s[0].name == name {
        0
    } else {
        1 + player_index(s.skip(1), name)
    }
}

/// The online word and its colour.
pub open spec fn online_word(online: bool) -> SpanV {
    if online {
        ink("Online"@, Color::Green)
    } else {
        ink("Offline"@, Color::Red)
    }
}

/// The players that the daemon names, added in order; one without a name or with a
/// name that is known is left out.
pub open spec fn with_players(s: WatchV, panes: Seq<JsonV>) -> WatchV
    decreases panes.len(),
{
    if panes.len() == 0 {
        s
    } else {
        let before = with_players(s, panes.drop_last());
        let p = panes.last();
        let name = text_at(p, "name"@);
        let online = str_of(at(p, "status"@)) == Some("Online"@);
        if name.len() == 0 || player_names(before.players).contains(name) {
            before
        } else {
            with_log(
                WatchV {
                    players: before.players.push(
                        PlayerV {
                            online,
                            ..fresh_player(
                                name,
                                match str_of(at(p, "pane_type"@)) {
                                    Some(t) => t,
                                    None => "video"@,
                                },
                            )
                        },
                    ),
                    ..before
                },
                pane_line(name, seq![online_word(online)]),
            )
        }
    }
}

/// The layouts that are offered.
pub open spec fn known_layouts() -> Seq<Seq<char>> {
    seq!["pb.left.stack"@, "pb.right.stack"@, "pb.top.row"@, "pb.split"@]
}

pub open spec fn after_bootstrap(s: WatchV, v: JsonV) -> WatchV {
    let base = WatchV {
        hostname: text_at(v, "hostname"@),
        layout: text_at(v, "layout"@),
        layouts: known_layouts(),
        ..s
    };
    match at(v, "panes"@) {
        JsonV::Arr(panes) => with_players(base, panes),
        _ => base,
    }
}

/// The player with what `st` gives.
pub open spec fn player_applied(p: PlayerV, st: JsonV) -> PlayerV {
    PlayerV {
        paused: match bool_of(at(st, "paused"@)) {
            Some(b) => b,
            None => p.paused,
        },
        muted: match bool_of(at(st, "muted"@)) {
            Some(b) => b,
            None => p.muted,
        },
        idle_active: match bool_of(at(st, "idle_active"@)) {
            Some(b) => b,
            None => p.idle_active,
        },
        volume: match double_of(at(st, "volume"@)) {
            Some(d) => d,
            None => p.volume,
        },
        playlist_pos: match i64_of(at(st, "playlist_pos"@)) {
            Some(n) => n,
            None => p.playlist_pos,
        },
        title: match str_of(at(st, "title"@)) {
            Some(t) => t,
            None => p.title,
        },
        ..p
    }
}

/// The player after the daemon reported `value` for a property; a value of another
/// kind counts as the one that is assumed when nothing is known.
pub open spec fn player_changed(p: PlayerV, property: Seq<char>, value: JsonV) -> PlayerV {
    if property == "pause"@ {
        PlayerV {
            paused: match bool_of(value) {
                Some(b) => b,
                None => true,
            },
            ..p
        }
    } else if property == "volume"@ {
        PlayerV {
            volume: match double_of(value) {
                Some(d) => d,
                None => nearest_double(0),
            },
            ..p
        }
    } else if property == "media-title"@ {
        PlayerV {
            title: match str_of(value) {
                Some(t) => t,
                None => Seq::empty(),
            },
            ..p
        }
    } else if property == "playlist-pos"@ {
        PlayerV {
            playlist_pos: match i64_of(value) {
                Some(n) => n,
                None => -1i64,
            },
            ..p
        }
    } else if property == "mute"@ {
        PlayerV {
            muted: match bool_of(value) {
                Some(b) => b,
                None => false,
            },
            ..p
        }
    } else if property == "idle-active"@ {
        PlayerV {
            idle_active: match bool_of(value) {
                Some(b) => b,
                None => true,
            },
            ..p
        }
    } else {
        p
    }
}

/// What the log says of a change; nothing for the properties it passes over.
pub open spec fn change_line(property: Seq<char>, value: JsonV) -> Option<Seq<SpanV>> {
    if property == "volume"@ {
        Some(
            told(
                "volume"@,
                Color::Dim,
                rounded_text(
                    match double_of(value) {
                        Some(d) => d,
                        None => nearest_double(0),
                    },
                ),
                Color::Cyan,
            ),
        )
    } else if property == "media-title"@ {
        Some(
            told(
                "title"@,
                Color::Dim,
                match str_of(value) {
                    Some(t) => t,
                    None => "-"@,
                },
                Color::Cyan,
            ),
        )
    } else if property == "pause"@ {
        Some(
            seq![
                if bool_of(value) == Some(false) {
                    ink("Playing"@, Color::Green)
                } else {
                    ink("Paused"@, Color::Hint)
                },
            ],
        )
    } else if property == "mute"@ {
        Some(
            seq![
                if bool_of(value) == Some(true) {
                    ink("Muted"@, Color::Dim)
                } else {
                    ink("Unmuted"@, Color::Dim)
                },
            ],
        )
    } else {
        None
    }
}

pub open spec fn after_change(s: WatchV, v: JsonV) -> WatchV {
    let pane = text_at(v, "pane"@);
    let property = text_at(v, "property"@);
    let value = at(v, "value"@);
    let i = player_index(s.players, pane);
    let changed = if 0 <= i < s.players.len() {
        WatchV {
            players: s.players.update(i, player_changed(s.players[i], property, value)),
            ..s
        }
    } else {
        s
    };
    match change_line(property, value) {
        Some(spans) => with_log(changed, pane_line(pane, spans)),
        None => changed,
    }
}

pub open spec fn after_online(s: WatchV, v: JsonV) -> WatchV {
    let pane = text_at(v, "pane"@);
    let i = player_index(s.players, pane);
    if 0 <= i < s.players.len() {
        let p = s.players[i];
        let up = PlayerV { online: true, ..p };
        let next = WatchV {
            players: s.players.update(
                i,
                match field(v, "state"@) {
                    Some(st) => player_applied(up, st),
                    None => up,
                },
            ),
            ..s
        };
        if p.online {
            next
        } else {
            with_log(next, pane_line(pane, seq![online_word(true)]))
        }
    } else {
        s
    }
}

pub open spec fn after_offline(s: WatchV, v: JsonV) -> WatchV {
    let pane = text_at(v, "pane"@);
    let i = player_index(s.players, pane);
    if 0 <= i < s.players.len() {
        let p = s.players[i];
        let next = WatchV {
            players: s.players.update(i, PlayerV { online: false, ..p }),
            ..s
        };
        if p.online {
            with_log(next, pane_line(pane, seq![online_word(false)]))
        } else {
            next
        }
    } else {
        s
    }
}

pub open spec fn players_down(s: Seq<PlayerV>) -> Seq<PlayerV> {
    Seq::new(s.len(), |i: int| PlayerV { online: false, ..s[i] })
}

/// The text of a field, `unknown` where it is missing or no text.
pub open spec fn text_or_unknown(v: JsonV, key: Seq<char>) -> Seq<char> {
    match str_of(at(v, key)) {
        Some(t) => t,
        None => "unknown"@,
    }
}

/// The terminal after an event of the daemon.
pub open spec fn after_event(s: WatchV, v: JsonV) -> WatchV {
    let event = text_at(v, "event"@);
    if event == "bootstrap_complete"@ {
        after_bootstrap(s, v)
    } else if event == "online"@ {
        after_online(s, v)
    } else if event == "offline"@ {
        after_offline(s, v)
    } else if event == "property-change"@ {
        after_change(s, v)
    } else if event == "node:down"@ {
        let t = with_log(
            s,
            node_line(told("node:down"@, Color::Red, text_or_unknown(v, "reason"@), Color::Orange)),
        );
        WatchV { players: players_down(t.players), ..t }
    } else if event == "node:layout"@ {
        let layout = text_or_unknown(v, "layout"@);
        with_log(
            WatchV { layout, ..s },
            node_line(told("layout"@, Color::Dim, layout, Color::Cyan)),
        )
    } else if event == "node:restart-pane"@ {
        with_log(
            s,
            pane_line(text_or_unknown(v, "pane"@), seq![ink("restarting"@, Color::Orange)]),
        )
    } else if event == "node:restart-all"@ {
        with_log(s, node_line(seq![ink("restart-all"@, Color::Orange)]))
    } else {
        s
    }
}

fn text_field(v: &Json, key: &str) -> (r: String)
    ensures
        r@ == text_at(v.view(), key@),
{
    match v.str_at(key) {
        Some(t) => t,
        None => String::new(),
    }
}

fn field_or_unknown(v: &Json, key: &str) -> (r: String)
    ensures
        r@ == text_or_unknown(v.view(), key@),
{
    match v.str_at(key) {
        Some(t) => t,
        None => "unknown".to_owned(),
    }
}

proof fn lemma_player_index(s: Seq<PlayerV>, name: Seq<char>)
    ensures
        0 <= player_index(s, name) <= s.len(),
        player_index(s, name) < s.len() ==> s[player_index(s, name)].name == name,
        player_index(s, name) == s.len() ==> !player_names(s).contains(name),
        player_names(s).contains(name) ==> player_index(s, name) < s.len(),
    decreases s.len(),
{
    let rest = s.skip(1);
    if s.len() > 0 && s[0].name != name {
        lemma_player_index(rest, name);
        if player_names(s).contains(name) {
            let i = choose|i: int| 0 <= i < s.len() && player_names(s)[i] == name;
            assert(player_names(rest)[i - 1] == name);
        }
    }
}

fn find_player(app: &Watch, name: &str) -> (r: usize)
    ensures
        r == player_index(app.view().players, name@),
        r <= app.players@.len(),
        (r < app.players@.len()) == player_names(app.view().players).contains(name@),
{
    let ghost all = app.view().players;
    let mut i: usize = 0;
    assert(all.skip(0) =~= all);
    proof {
        lemma_player_index(all, name@);
        if player_index(all, name@) < all.len() {
            assert(player_names(all)[player_index(all, name@)] == name@);
        }
    }
    while i < app.players.len()
        invariant
            all == player_views(app.players@),
            i <= app.players@.len(),
            player_index(all, name@) == i + player_index(all.skip(i as int), name@),
            player_index(all, name@) <= all.len(),
            (player_index(all, name@) < all.len()) == player_names(all).contains(name@),
        decreases app.players@.len() - i,
    {
        assert(all.skip(i as int)[0] == app.players@[i as int].view());
        if same(app.players[i].name.as_str(), name) {
            return i;
        }
        assert(all.skip(i as int).skip(1) =~= all.skip(i + 1));
        i = i + 1;
    }
    i
}

fn put_player(app: &mut Watch, i: usize, p: Player)
    requires
        old(app).wf(),
        i < old(app).players@.len(),
        p.name@ == old(app).players@[i as int].name@,
    ensures
        final(app).view() == (WatchV {
            players: old(app).view().players.update(i as int, p.view()),
            ..old(app).view()
        }),
        final(app).wf(),
{
    let ghost before = app.players@;
    app.players.set(i, p);
    proof {
        assert(player_views(app.players@) =~= player_views(before).update(i as int, p.view()));
        assert(player_names(player_views(app.players@)) =~= player_names(player_views(before)));
    }
}

fn add_players(app: &mut Watch, panes: &Vec<Json>)
    requires
        old(app).wf(),
    ensures
        final(app).view() == with_players(old(app).view(), jsons(panes@)),
        final(app).wf(),
{
    let ghost s = app.view();
    let ghost all = jsons(panes@);
    assert(all.take(0) =~= Seq::empty());
    for i in 0..panes.len()
        invariant
            all == jsons(panes@),
            app.wf(),
            app.view() == with_players(s, all.take(i as int)),
    {
        proof {
            assert(all.take(i + 1).drop_last() =~= all.take(i as int));
            assert(all.take(i + 1).last() == panes@[i as int].view());
        }
        let p: &Json = &panes[i];
        let name: String = text_field(p, "name");
        let ptype: String = match p.str_at("pane_type") {
            Some(t) => t,
            None => "video".to_owned(),
        };
        let online: bool = match p.str_at("status") {
            Some(t) => same(t.as_str(), "Online"),
            None => false,
        };
        let at: usize = find_player(app, name.as_str());
        if !is_empty(name.as_str()) && at >= app.players.len() {
            let mut player: Player = Player::new(name.as_str(), ptype.as_str());
            player.online = online;
            let ghost before = app.view();
            app.players.push(player);
            proof {
                let names = player_names(before.players);
                assert(app.view().players =~= before.players.push(player.view()));
                assert(player_names(app.view().players) =~= names.push(name@));
                assert(!names.contains(name@));
                assert(names.push(name@).no_duplicates());
            }
            let spans: Vec<Span> = if online {
                one_span("Online", Color::Green)
            } else {
                one_span("Offline", Color::Red)
            };
            log_event(app, name.as_str(), spans);
        }
    }
    assert(all.take(all.len() as int) =~= all);
}

fn on_bootstrap(app: &mut Watch, v: &Json)
    requires
        old(app).wf(),
    ensures
        final(app).view() == after_bootstrap(old(app).view(), v.view()),
        final(app).wf(),
{
    app.hostname = text_field(v, "hostname");
    app.layout = text_field(v, "layout");
    let layouts: Vec<String> = vec![
        "pb.left.stack".to_owned(),
        "pb.right.stack".to_owned(),
        "pb.top.row".to_owned(),
        "pb.split".to_owned(),
    ];
    assert(strs(layouts@) =~= known_layouts());
    app.layouts = layouts;
    if let Some(p) = v.get("panes") {
        if let Some(a) = p.as_array() {
            add_players(app, a);
        }
    }
}

/// Takes in what `st` gives.
fn apply_player_state(p: &mut Player, st: &Json)
    ensures
        final(p).view() == player_applied(old(p).view(), st.view()),
{
    if let Some(b) = st.bool_at("paused") {
        p.paused = b;
    }
    if let Some(b) = st.bool_at("muted") {
        p.muted = b;
    }
    if let Some(b) = st.bool_at("idle_active") {
        p.idle_active = b;
    }
    if let Some(d) = st.double_at("volume") {
        p.volume = d;
    }
    if let Some(n) = st.i64_at("playlist_pos") {
        p.playlist_pos = n;
    }
    if let Some(t) = st.str_at("title") {
        p.title = t;
    }
}

fn change_player(p: &mut Player, property: &str, v: &Json)
    ensures
        final(p).view() == player_changed(old(p).view(), property@, at(v.view(), "value"@)),
{
    if same(property, "pause") {
        p.paused = match v.bool_at("value") {
            Some(b) => b,
            None => true,
        };
    } else if same(property, "volume") {
        p.volume = match v.double_at("value") {
            Some(d) => d,
            None => Double::whole(0),
        };
    } else if same(property, "media-title") {
        p.title = match v.str_at("value") {
            Some(t) => t,
            None => String::new(),
        };
    } else if same(property, "playlist-pos") {
        p.playlist_pos = match v.i64_at("value") {
            Some(n) => n,
            None => -1,
        };
    } else if same(property, "mute") {
        p.muted = match v.bool_at("value") {
            Some(b) => b,
            None => false,
        };
    } else if same(property, "idle-active") {
        p.idle_active = match v.bool_at("value") {
            Some(b) => b,
            None => true,
        };
    }
}

fn change_spans(property: &str, v: &Json) -> (r: Option<Vec<Span>>)
    ensures
        match r {
            Some(s) => change_line(property@, at(v.view(), "value"@)) == Some(span_views(s@)),
            None => change_line(property@, at(v.view(), "value"@)) is None,
        },
{
    if same(property, "volume") {
        let d: Double = match v.double_at("value") {
            Some(d) => d,
            None => Double::whole(0),
        };
        Some(telling("volume", Color::Dim, d.rounded().as_str(), Color::Cyan))
    } else if same(property, "media-title") {
        let t: String = match v.str_at("value") {
            Some(t) => t,
            None => "-".to_owned(),
        };
        Some(telling("title", Color::Dim, t.as_str(), Color::Cyan))
    } else if same(property, "pause") {
        Some(
            if v.bool_at("value") == Some(false) {
                one_span("Playing", Color::Green)
            } else {
                one_span("Paused", Color::Hint)
            },
        )
    } else if same(property, "mute") {
        Some(
            if v.bool_at("value") == Some(true) {
                one_span("Muted", Color::Dim)
            } else {
                one_span("Unmuted", Color::Dim)
            },
        )
    } else {
        None
    }
}

fn on_change(app: &mut Watch, v: &Json)
    requires
        old(app).wf(),
    ensures
        final(app).view() == after_change(old(app).view(), v.view()),
        final(app).wf(),
{
    let pane: String = text_field(v, "pane");
    let property: String = text_field(v, "property");
    let i: usize = find_player(app, pane.as_str());
    if i < app.players.len() {
        let mut p: Player = app.players[i].copy();
        change_player(&mut p, property.as_str(), v);
        put_player(app, i, p);
    }
    if let Some(spans) = change_spans(property.as_str(), v) {
        log_event(app, pane.as_str(), spans);
    }
}

fn on_online(app: &mut Watch, v: &Json)
    requires
        old(app).wf(),
    ensures
        final(app).view() == after_online(old(app).view(), v.view()),
        final(app).wf(),
{
    let pane: String = text_field(v, "pane");
    let i: usize = find_player(app, pane.as_str());
    if i < app.players.len() {
        let was: bool = app.players[i].online;
        let mut p: Player = app.players[i].copy();
        p.online = true;
        if let Some(st) = v.get("state") {
            apply_player_state(&mut p, st);
        }
        put_player(app, i, p);
        if !was {
            log_event(app, pane.as_str(), one_span("Online", Color::Green));
        }
    }
}

fn on_offline(app: &mut Watch, v: &Json)
    requires
        old(app).wf(),
    ensures
        final(app).view() == after_offline(old(app).view(), v.view()),
        final(app).wf(),
{
    let pane: String = text_field(v, "pane");
    let i: usize = find_player(app, pane.as_str());
    if i < app.players.len() {
        let was: bool = app.players[i].online;
        let mut p: Player = app.players[i].copy();
        p.online = false;
        put_player(app, i, p);
        if was {
            log_event(app, pane.as_str(), one_span("Offline", Color::Red));
        }
    }
}

fn take_down(app: &mut Watch)
    requires
        old(app).wf(),
    ensures
        final(app).view() == (WatchV {
            players: players_down(old(app).view().players),
            ..old(app).view()
        }),
        final(app).wf(),
{
    let ghost before = app.players@;
    let ghost s = app.view();
    let n: usize = app.players.len();
    for i in 0..n
        invariant
            n == app.players@.len(),
            app.players@.len() == before.len(),
            app.view() == (WatchV { players: player_views(app.players@), ..s }),
            app.log@.len() <= LOG_CAPACITY,
            app.add_completions@.len() == 0 || app.add_comp_sel < app.add_completions@.len(),
            forall|k: int|
                0 <= k < i ==> (#[trigger] app.players@[k]).view() == (PlayerV {
                    online: false,
                    ..before[k].view()
                }),
            forall|k: int| i <= k < app.players@.len() ==> app.players@[k] == before[k],
    {
        let mut p: Player = app.players[i].copy();
        p.online = false;
        app.players.set(i, p);
    }
    proof {
        assert(player_views(app.players@) =~= players_down(player_views(before)));
        assert(player_names(player_views(app.players@)) =~= player_names(player_views(before)));
    }
}

/// Takes in an event of the daemon; says whether the node is going down.
pub fn apply_event(app: &mut Watch, v: &Json) -> (down: bool)
    requires
        old(app).wf(),
    ensures
        final(app).view() == after_event(old(app).view(), v.view()),
        final(app).wf(),
        down == (text_at(v.view(), "event"@) == "node:down"@),
{
    let event: String = text_field(v, "event");
    let e: &str = event.as_str();
    proof {
        reveal_strlit("bootstrap_complete");
        reveal_strlit("online");
        reveal_strlit("offline");
        reveal_strlit("property-change");
        reveal_strlit("node:down");
        assert("bootstrap_complete"@.len() == 18 && "online"@.len() == 6 && "offline"@.len() == 7
            && "property-change"@.len() == 15 && "node:down"@.len() == 9);
    }
    if same(e, "bootstrap_complete") {
        on_bootstrap(app, v);
        false
    } else if same(e, "online") {
        on_online(app, v);
        false
    } else if same(e, "offline") {
        on_offline(app, v);
        false
    } else if same(e, "property-change") {
        on_change(app, v);
        false
    } else if same(e, "node:down") {
        let reason: String = field_or_unknown(v, "reason");
        log_node(app, telling("node:down", Color::Red, reason.as_str(), Color::Orange));
        take_down(app);
        true
    } else if same(e, "node:layout") {
        let layout: String = field_or_unknown(v, "layout");
        let spans: Vec<Span> = telling("layout", Color::Dim, layout.as_str(), Color::Cyan);
        app.layout = layout;
        log_node(app, spans);
        false
    } else if same(e, "node:restart-pane") {
        let pane: String = field_or_unknown(v, "pane");
        log_event(app, pane.as_str(), one_span("restarting", Color::Orange));
        false
    } else if same(e, "node:restart-all") {
        log_node(app, one_span("restart-all", Color::Orange));
        false
    } else {
        false
    }
}

/// Takes in a text of the daemon; says whether the node is going down. A text that
/// is no JSON changes nothing.
pub fn process_event(app: &mut Watch, text: &str) -> (down: bool)
    requires
        old(app).wf(),
    ensures
        final(app).wf(),
        match parsed(text@) {
            Some(v) => final(app).view() == after_event(old(app).view(), v) && down == (text_at(
                v,
                "event"@,
            ) == "node:down"@),
            None => !down && final(app).view() == old(app).view(),
        },
{
    match Json::parse(text) {
        Some(v) => apply_event(app, &v),
        None => false,
    }
}

/// The connection to the daemon is gone.
pub fn connection_lost(app: &mut Watch)
    requires
        old(app).wf(),
    ensures
        final(app).view() == with_log(
            old(app).view(),
            node_line(seq![ink("connection lost"@, Color::Red)]),
        ),
        final(app).wf(),
{
    log_node(app, one_span("connection lost", Color::Red));
}

// ---------------------------------------------------------------------------
// Laws
// ---------------------------------------------------------------------------

/// The log never grows past its capacity, and what was logged last is its last
/// line.
pub proof fn log_is_bounded(log: Seq<Seq<SpanV>>, line: Seq<SpanV>)
    requires
        log.len() <= LOG_CAPACITY,
    ensures
        logged(log, line).len() <= LOG_CAPACITY,
        logged(log, line).last() == line,
        log.len() < LOG_CAPACITY ==> logged(log, line).take(log.len() as int) == log,
{
    if log.len() < LOG_CAPACITY {
        assert(log.push(line).take(log.len() as int) =~= log);
    }
}

/// A repeated word that a pane is online is not logged again.
pub proof fn known_news_is_not_logged(s: WatchV, v: JsonV)
    requires
        ({
            let i = player_index(s.players, text_at(v, "pane"@));
            0 <= i < s.players.len() && s.players[i].online
        }),
    ensures
        after_online(s, v).log == s.log,
{
}

} // verus!
