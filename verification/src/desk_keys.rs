//! Driving the panes of a desk: what each key does, and what the screens say.
use crate::desk::{desk_item_views, desk_views, DeskItem, DeskItemV, DeskPane, DeskPaneV};
use crate::keys::{down, is_down, is_up, up, Key};
use crate::screen::{
    boxed, in_box, ink, row_views, sep, span, span_views, Color, Row, RowV, Span, SpanV,
};
use crate::text::{
    cat3, decimal, decimal_of, is_digit, is_empty, number_value, pad_left, pad_right, padded,
    padded_left, parse_usize, same, signed, signed_of, strs, trim, trimmed,
};
use crate::tui_keys::shorter;
use vstd::prelude::*;

verus! {

/// How long after a relaunch a pane is left alone, in milliseconds.
pub const RELAUNCH_COOLDOWN_MS: u64 = 10000;

/// How often a player that is being relaunched is waited for to go.
pub const RELAUNCH_WAITS: u32 = 20;

/// How long each time, in milliseconds.
pub const RELAUNCH_WAIT_MS: u64 = 100;

/// What follows a look at a player that is being relaunched.
#[derive(Clone, Copy, Debug, PartialEq, Eq, Structural)]
pub enum RelaunchMove {
    /// Wait and look again; so many waits will then have passed.
    Wait { waits: u32 },
    /// Start the player.
    Start,
}

/// The player is waited for as long as it answers and waits are left.
pub open spec fn relaunch_of(alive: bool, waits: u32) -> RelaunchMove {
    if alive && waits < RELAUNCH_WAITS {
        RelaunchMove::Wait { waits: (waits + 1) as u32 }
    } else {
        RelaunchMove::Start
    }
}

/// What follows a look at a player that is being relaunched, after so many waits.
pub fn relaunch_step(alive: bool, waits: u32) -> (r: RelaunchMove)
    ensures
        r == relaunch_of(alive, waits),
{
    if alive && waits < RELAUNCH_WAITS {
        RelaunchMove::Wait { waits: waits + 1 }
    } else {
        RelaunchMove::Start
    }
}

/// The dashboard: which pane is selected, whether keys go to its player, and when
/// panes were relaunched.
#[derive(Debug)]
pub struct DashboardState {
    pub cursor: usize,
    pub cmd_mode: bool,
    pub last_relaunch: Vec<(usize, u64)>,
}

/// When each pane was relaunched last.
pub open spec fn marks_of(v: Seq<(usize, u64)>) -> Map<usize, u64>
    decreases v.len(),
{
    if v.len() == 0 {
        Map::empty()
    } else {
        marks_of(v.drop_last()).insert(v.last().0, v.last().1)
    }
}

impl DashboardState {
    /// When each pane was relaunched last.
    pub open spec fn marks(&self) -> Map<usize, u64> {
        marks_of(self.last_relaunch@)
    }

    /// The first pane is selected, and nothing was relaunched.
    pub fn new() -> (r: DashboardState)
        ensures
            r.cursor == 0,
            !r.cmd_mode,
            r.marks() == Map::<usize, u64>::empty(),
    {
        DashboardState { cursor: 0, cmd_mode: false, last_relaunch: Vec::new() }
    }

    /// Whether a pane may be relaunched at this moment: it was not, or not lately.
    pub fn can_relaunch(&self, idx: usize, now: u64) -> (r: bool)
        ensures
            r == may_relaunch(self.marks(), idx, now),
    {
        let ghost all = self.last_relaunch@;
        let mut i: usize = self.last_relaunch.len();
        assert(all.take(i as int) =~= all);
        while i > 0
            invariant
                all == self.last_relaunch@,
                i <= all.len(),
                marks_of(all).contains_key(idx) == marks_of(all.take(i as int)).contains_key(idx),
                marks_of(all).contains_key(idx) ==> marks_of(all)[idx] == marks_of(
                    all.take(i as int),
                )[idx],
            decreases i,
        {
            proof {
                assert(all.take(i as int).last() == all[i - 1]);
                assert(all.take(i as int).drop_last() =~= all.take(i - 1));
            }
            if self.last_relaunch[i - 1].0 == idx {
                let t: u64 = self.last_relaunch[i - 1].1;
                return now >= t && now - t >= RELAUNCH_COOLDOWN_MS;
            }
            i = i - 1;
        }
        true
    }

    /// Notes that a pane was relaunched.
    pub fn mark_relaunch(&mut self, idx: usize, now: u64)
        ensures
            final(self).marks() == old(self).marks().insert(idx, now),
            final(self).cursor == old(self).cursor,
            final(self).cmd_mode == old(self).cmd_mode,
    {
        let ghost before = self.last_relaunch@;
        self.last_relaunch.push((idx, now));
        assert(self.last_relaunch@.drop_last() =~= before);
    }

    /// A pane that was up and is down now is relaunched, unless it was lately.
    pub fn should_relaunch(&mut self, idx: usize, was_active: bool, offline: bool, now: u64) -> (r: bool)
        ensures
            r == (was_active && offline && may_relaunch(old(self).marks(), idx, now)),
            final(self).marks() == (if r {
                old(self).marks().insert(idx, now)
            } else {
                old(self).marks()
            }),
            final(self).cursor == old(self).cursor,
            final(self).cmd_mode == old(self).cmd_mode,
    {
        if was_active && offline && self.can_relaunch(idx, now) {
            self.mark_relaunch(idx, now);
            true
        } else {
            false
        }
    }
}

/// A pane may be relaunched: it was not, or not lately.
pub open spec fn may_relaunch(marks: Map<usize, u64>, idx: usize, now: u64) -> bool {
    marks.contains_key(idx) ==> now - marks[idx] >= RELAUNCH_COOLDOWN_MS
}

/// The playlist screen.
#[derive(Debug)]
pub struct PlaylistState {
    pub items: Vec<DeskItem>,
    pub cursor: usize,
    pub item_cmd: bool,
    pub move_input: bool,
    pub move_buf: String,
    pub add_input: bool,
    pub add_buf: String,
    pub completions: Vec<String>,
    pub comp_sel: usize,
    pub send_pane_select: bool,
    pub send_pane_cursor: usize,
}

pub struct PlaylistV {
    pub items: Seq<DeskItemV>,
    pub cursor: usize,
    pub item_cmd: bool,
    pub move_input: bool,
    pub move_buf: Seq<char>,
    pub add_input: bool,
    pub add_buf: Seq<char>,
    pub completions: Seq<Seq<char>>,
    pub comp_sel: usize,
    pub send_pane_select: bool,
    pub send_pane_cursor: usize,
}

/// The screen as it is opened, with these items.
pub open spec fn fresh_playlist(items: Seq<DeskItemV>) -> PlaylistV {
    PlaylistV {
        items,
        cursor: 0,
        item_cmd: false,
        move_input: false,
        move_buf: Seq::empty(),
        add_input: false,
        add_buf: Seq::empty(),
        completions: Seq::empty(),
        comp_sel: 0,
        send_pane_select: false,
        send_pane_cursor: 0,
    }
}

impl PlaylistState {
    pub open spec fn view(&self) -> PlaylistV {
        PlaylistV {
            items: desk_item_views(self.items@),
            cursor: self.cursor,
            item_cmd: self.item_cmd,
            move_input: self.move_input,
            move_buf: self.move_buf@,
            add_input: self.add_input,
            add_buf: self.add_buf@,
            completions: strs(self.completions@),
            comp_sel: self.comp_sel,
            send_pane_select: self.send_pane_select,
            send_pane_cursor: self.send_pane_cursor,
        }
    }

    /// The chosen completion is one of them.
    pub open spec fn wf(&self) -> bool {
        self.completions@.len() == 0 || self.comp_sel < self.completions@.len()
    }

    /// The screen with nothing on it.
    pub fn new() -> (r: PlaylistState)
        ensures
            r.view() == fresh_playlist(Seq::empty()),
            r.wf(),
    {
        let r: PlaylistState = PlaylistState {
            items: Vec::new(),
            cursor: 0,
            item_cmd: false,
            move_input: false,
            move_buf: String::new(),
            add_input: false,
            add_buf: String::new(),
            completions: Vec::new(),
            comp_sel: 0,
            send_pane_select: false,
            send_pane_cursor: 0,
        };
        proof {
            assert(desk_item_views(r.items@) =~= Seq::empty());
            assert(strs(r.completions@) =~= Seq::empty());
        }
        r
    }

    /// Everything but the items as it is when the screen is opened.
    pub fn reset(&mut self)
        ensures
            final(self).view() == fresh_playlist(old(self).view().items),
            final(self).wf(),
    {
        self.cursor = 0;
        self.item_cmd = false;
        self.move_input = false;
        self.move_buf = String::new();
        self.add_input = false;
        self.add_buf = String::new();
        self.completions = Vec::new();
        self.comp_sel = 0;
        self.send_pane_select = false;
        self.send_pane_cursor = 0;
        assert(strs(self.completions@) =~= Seq::empty());
    }
}

/// Something for the desk to do.
#[derive(Debug)]
pub enum DeskOp {
    /// Give the player of a pane a command.
    Cmd { pane: usize, args: Vec<String> },
    /// Write what the player of a pane has to its playlist file.
    Sync { pane: usize },
    /// Start the player of a pane anew, after asking a running one to quit.
    Relaunch { pane: usize, quit: bool },
    /// Add what was typed to a pane: as it is, or as the files that it stands for.
    Add { pane: usize, input: String, as_is: bool },
    /// Send the item at this index of one pane to another.
    SendItem { from: usize, to: usize, index: usize },
    /// Complete what is typed.
    Complete,
}

pub enum DeskOpV {
    Cmd { pane: int, args: Seq<Seq<char>> },
    Sync { pane: int },
    Relaunch { pane: int, quit: bool },
    Add { pane: int, input: Seq<char>, as_is: bool },
    SendItem { from: int, to: int, index: int },
    Complete,
}

impl DeskOp {
    pub open spec fn view(&self) -> DeskOpV {
        match self {
            DeskOp::Cmd { pane, args } => DeskOpV::Cmd { pane: *pane as int, args: strs(args@) },
            DeskOp::Sync { pane } => DeskOpV::Sync { pane: *pane as int },
            DeskOp::Relaunch { pane, quit } => DeskOpV::Relaunch { pane: *pane as int, quit: *quit },
            DeskOp::Add { pane, input, as_is } => DeskOpV::Add {
                pane: *pane as int,
                input: input@,
                as_is: *as_is,
            },
            DeskOp::SendItem { from, to, index } => DeskOpV::SendItem {
                from: *from as int,
                to: *to as int,
                index: *index as int,
            },
            DeskOp::Complete => DeskOpV::Complete,
        }
    }
}

pub open spec fn op_views(v: Seq<DeskOp>) -> Seq<DeskOpV> {
    Seq::new(v.len(), |i: int| v[i].view())
}

pub open spec fn cmd1(pane: int, a: Seq<char>) -> DeskOpV {
    DeskOpV::Cmd { pane, args: seq![a] }
}

pub open spec fn cmd2(pane: int, a: Seq<char>, b: Seq<char>) -> DeskOpV {
    DeskOpV::Cmd { pane, args: seq![a, b] }
}

pub open spec fn cmd3(pane: int, a: Seq<char>, b: Seq<char>, c: Seq<char>) -> DeskOpV {
    DeskOpV::Cmd { pane, args: seq![a, b, c] }
}

fn order1(pane: usize, a: &str) -> (r: DeskOp)
    ensures
        r.view() == cmd1(pane as int, a@),
{
    let args: Vec<String> = vec![a.to_owned()];
    assert(strs(args@) =~= seq![a@]);
    DeskOp::Cmd { pane, args }
}

fn order2(pane: usize, a: &str, b: &str) -> (r: DeskOp)
    ensures
        r.view() == cmd2(pane as int, a@, b@),
{
    let args: Vec<String> = vec![a.to_owned(), b.to_owned()];
    assert(strs(args@) =~= seq![a@, b@]);
    DeskOp::Cmd { pane, args }
}

fn order3(pane: usize, a: &str, b: &str, c: &str) -> (r: DeskOp)
    ensures
        r.view() == cmd3(pane as int, a@, b@, c@),
{
    let args: Vec<String> = vec![a.to_owned(), b.to_owned(), c.to_owned()];
    assert(strs(args@) =~= seq![a@, b@, c@]);
    DeskOp::Cmd { pane, args }
}

fn no_ops() -> (r: Vec<DeskOp>)
    ensures
        op_views(r@) == Seq::<DeskOpV>::empty(),
{
    let v: Vec<DeskOp> = Vec::new();
    assert(op_views(v@) =~= Seq::empty());
    v
}

fn one_op(a: DeskOp) -> (r: Vec<DeskOp>)
    ensures
        op_views(r@) == seq![a.view()],
{
    let v: Vec<DeskOp> = vec![a];
    assert(op_views(v@) =~= seq![a.view()]);
    v
}

fn two_ops(a: DeskOp, b: DeskOp) -> (r: Vec<DeskOp>)
    ensures
        op_views(r@) == seq![a.view(), b.view()],
{
    let v: Vec<DeskOp> = vec![a, b];
    assert(op_views(v@) =~= seq![a.view(), b.view()]);
    v
}

// ---------------------------------------------------------------------------
// Dashboard
// ---------------------------------------------------------------------------

/// What follows a key on the dashboard.
#[derive(Clone, Copy, Debug, PartialEq, Eq, Structural)]
pub enum DashMove {
    Stay,
    Quit,
    Open,
}

/// What a key sends to the selected player.
pub open spec fn dash_cmd(pane: int, k: Key) -> Seq<DeskOpV> {
    if k == Key::Char(' ') {
        seq![cmd2(pane, "cycle"@, "pause"@)]
    } else if k == Key::Char('m') {
        seq![cmd2(pane, "cycle"@, "mute"@)]
    } else if k == Key::Char('n') {
        seq![cmd1(pane, "playlist-next"@)]
    } else if k == Key::Char('N') {
        seq![cmd1(pane, "playlist-prev"@)]
    } else if k == Key::Char('=') {
        seq![cmd3(pane, "add"@, "volume"@, "5"@)]
    } else if k == Key::Char('-') {
        seq![cmd3(pane, "add"@, "volume"@, "-5"@)]
    } else if k == Key::Right {
        seq![cmd2(pane, "seek"@, "10"@)]
    } else if k == Key::Left {
        seq![cmd2(pane, "seek"@, "-10"@)]
    } else if k == Key::Up {
        seq![cmd2(pane, "seek"@, "60"@)]
    } else if k == Key::Char('F') {
        seq![cmd2(pane, "cycle"@, "fullscreen"@)]
    } else {
        Seq::empty()
    }
}

fn dash_orders(pane: usize, k: Key) -> (r: Vec<DeskOp>)
    ensures
        op_views(r@) == dash_cmd(pane as int, k),
{
    if k == Key::Char(' ') {
        one_op(order2(pane, "cycle", "pause"))
    } else if k == Key::Char('m') {
        one_op(order2(pane, "cycle", "mute"))
    } else if k == Key::Char('n') {
        one_op(order1(pane, "playlist-next"))
    } else if k == Key::Char('N') {
        one_op(order1(pane, "playlist-prev"))
    } else if k == Key::Char('=') {
        one_op(order3(pane, "add", "volume", "5"))
    } else if k == Key::Char('-') {
        one_op(order3(pane, "add", "volume", "-5"))
    } else if k == Key::Right {
        one_op(order2(pane, "seek", "10"))
    } else if k == Key::Left {
        one_op(order2(pane, "seek", "-10"))
    } else if k == Key::Up {
        one_op(order2(pane, "seek", "60"))
    } else if k == Key::Char('F') {
        one_op(order2(pane, "cycle", "fullscreen"))
    } else {
        no_ops()
    }
}

/// The cursor, the mode, what follows and what is to be done after a key on the
/// dashboard.
pub open spec fn dash_step(
    cursor: usize,
    cmd_mode: bool,
    offline: bool,
    count: int,
    k: Key,
) -> (usize, bool, DashMove, Seq<DeskOpV>) {
    let none = Seq::<DeskOpV>::empty();
    if cmd_mode {
        if k == Key::Char('R') {
            (
                cursor,
                false,
                DashMove::Stay,
                seq![DeskOpV::Relaunch { pane: cursor as int, quit: !offline }],
            )
        } else if k == Key::Tab {
            (cursor, false, DashMove::Stay, none)
        } else if offline {
            (cursor, true, DashMove::Stay, none)
        } else {
            (cursor, true, DashMove::Stay, dash_cmd(cursor as int, k))
        }
    } else if k == Key::Char('q') {
        (cursor, false, DashMove::Quit, none)
    } else if is_up(k) {
        (
            if cursor > 0 {
                (cursor - 1) as usize
            } else {
                cursor
            },
            false,
            DashMove::Stay,
            none,
        )
    } else if is_down(k) {
        (
            if cursor < count - 1 {
                (cursor + 1) as usize
            } else {
                cursor
            },
            false,
            DashMove::Stay,
            none,
        )
    } else if k == Key::Tab {
        (cursor, true, DashMove::Stay, none)
    } else if k == Key::Enter {
        (cursor, false, DashMove::Open, none)
    } else {
        (cursor, false, DashMove::Stay, none)
    }
}

/// Takes a key on the dashboard; says what follows and what is to be done.
/// `offline` says whether the selected pane is.
pub fn dashboard_key(dash: &mut DashboardState, offline: bool, count: usize, k: Key) -> (r: (
    DashMove,
    Vec<DeskOp>,
))
    requires
        old(dash).cursor < count,
    ensures
        (final(dash).cursor, final(dash).cmd_mode, r.0, op_views(r.1@)) == dash_step(
            old(dash).cursor,
            old(dash).cmd_mode,
            offline,
            count as int,
            k,
        ),
        final(dash).marks() == old(dash).marks(),
        final(dash).cursor < count,
{
    if dash.cmd_mode {
        if k == Key::Char('R') {
            let pane: usize = dash.cursor;
            dash.cmd_mode = false;
            (DashMove::Stay, one_op(DeskOp::Relaunch { pane, quit: !offline }))
        } else if k == Key::Tab {
            dash.cmd_mode = false;
            (DashMove::Stay, no_ops())
        } else if offline {
            (DashMove::Stay, no_ops())
        } else {
            (DashMove::Stay, dash_orders(dash.cursor, k))
        }
    } else if k == Key::Char('q') {
        (DashMove::Quit, no_ops())
    } else if up(k) {
        if dash.cursor > 0 {
            dash.cursor = dash.cursor - 1;
        }
        (DashMove::Stay, no_ops())
    } else if down(k) {
        if dash.cursor < count - 1 {
            dash.cursor = dash.cursor + 1;
        }
        (DashMove::Stay, no_ops())
    } else if k == Key::Tab {
        dash.cmd_mode = true;
        (DashMove::Stay, no_ops())
    } else if k == Key::Enter {
        (DashMove::Open, no_ops())
    } else {
        (DashMove::Stay, no_ops())
    }
}

// ---------------------------------------------------------------------------
// Playlist screen
// ---------------------------------------------------------------------------

/// A pane whose entries are streams and not files.
pub open spec fn streams(pane_type: Seq<char>) -> bool {
    pane_type == "HTTP"@ || pane_type == "YTDLP"@ || pane_type == "RTSP"@
}

/// Whether the entries of a pane are streams and not files.
pub fn is_stream(pane_type: &str) -> (r: bool)
    ensures
        r == streams(pane_type@),
{
    same(pane_type, "HTTP") || same(pane_type, "YTDLP") || same(pane_type, "RTSP")
}

/// The selected item.
pub open spec fn picked(s: PlaylistV) -> Option<DeskItemV> {
    if s.cursor < s.items.len() {
        Some(s.items[s.cursor as int])
    } else {
        None
    }
}

pub open spec fn calmly(s: PlaylistV) -> (PlaylistV, bool, Seq<DeskOpV>) {
    (s, false, Seq::empty())
}

pub open spec fn doing_ops(s: PlaylistV, ops: Seq<DeskOpV>) -> (PlaylistV, bool, Seq<DeskOpV>) {
    (s, false, ops)
}

/// Typing an entry to add.
pub open spec fn add_step(s: PlaylistV, pane: int, stream: bool, k: Key) -> (
    PlaylistV,
    bool,
    Seq<DeskOpV>,
) {
    let done = PlaylistV {
        add_input: false,
        add_buf: Seq::empty(),
        completions: Seq::empty(),
        ..s
    };
    let n = s.completions.len() as int;
    match k {
        Key::Esc => calmly(done),
        Key::Enter => if trimmed(s.add_buf).len() > 0 {
            doing_ops(
                done,
                seq![DeskOpV::Add { pane, input: trimmed(s.add_buf), as_is: stream }],
            )
        } else {
            calmly(done)
        },
        Key::Tab => if stream {
            calmly(s)
        } else if n == 0 {
            doing_ops(s, seq![DeskOpV::Complete])
        } else {
            let i = if s.comp_sel + 1 < n {
                s.comp_sel + 1
            } else {
                0
            };
            calmly(PlaylistV { comp_sel: i as usize, add_buf: s.completions[i], ..s })
        },
        Key::BackTab => if stream || n == 0 {
            calmly(s)
        } else {
            let i = if s.comp_sel == 0 {
                n - 1
            } else {
                s.comp_sel - 1
            };
            calmly(PlaylistV { comp_sel: i as usize, add_buf: s.completions[i], ..s })
        },
        Key::Backspace => calmly(
            PlaylistV {
                add_buf: shorter(s.add_buf),
                completions: Seq::empty(),
                comp_sel: 0,
                ..s
            },
        ),
        Key::Char(c) => calmly(
            PlaylistV {
                add_buf: s.add_buf.push(c),
                completions: Seq::empty(),
                comp_sel: 0,
                ..s
            },
        ),
        _ => calmly(s),
    }
}

/// Typing where an item goes.
pub open spec fn move_step(s: PlaylistV, pane: int, k: Key) -> (PlaylistV, bool, Seq<DeskOpV>) {
    let done = PlaylistV { move_input: false, move_buf: Seq::empty(), ..s };
    match k {
        Key::Char(c) => if is_digit(c) {
            calmly(PlaylistV { move_buf: s.move_buf.push(c), ..s })
        } else {
            calmly(s)
        },
        Key::Backspace => calmly(PlaylistV { move_buf: shorter(s.move_buf), ..s }),
        Key::Enter => match (number_value(s.move_buf), picked(s)) {
            (Some(dest), Some(item)) => if dest <= usize::MAX {
                doing_ops(
                    done,
                    seq![
                        cmd3(pane, "playlist-move"@, decimal(item.index), decimal(dest)),
                        DeskOpV::Sync { pane },
                    ],
                )
            } else {
                calmly(done)
            },
            _ => calmly(done),
        },
        Key::Esc => calmly(done),
        _ => calmly(s),
    }
}

/// Picking the pane that an item is sent to.
pub open spec fn target_step(s: PlaylistV, pane: int, count: int, k: Key) -> (
    PlaylistV,
    bool,
    Seq<DeskOpV>,
) {
    let done = PlaylistV { send_pane_select: false, item_cmd: false, ..s };
    if k == Key::Esc {
        calmly(PlaylistV { send_pane_select: false, ..s })
    } else if is_up(k) {
        calmly(
            PlaylistV {
                send_pane_cursor: if s.send_pane_cursor > 0 {
                    (s.send_pane_cursor - 1) as usize
                } else {
                    0
                },
                ..s
            },
        )
    } else if is_down(k) {
        calmly(
            PlaylistV {
                send_pane_cursor: if s.send_pane_cursor < count - 1 {
                    (s.send_pane_cursor + 1) as usize
                } else {
                    s.send_pane_cursor
                },
                ..s
            },
        )
    } else if k == Key::Enter {
        match picked(s) {
            Some(item) => if s.send_pane_cursor != pane {
                doing_ops(
                    done,
                    seq![
                        DeskOpV::SendItem {
                            from: pane,
                            to: s.send_pane_cursor as int,
                            index: item.index,
                        },
                    ],
                )
            } else {
                calmly(done)
            },
            None => calmly(done),
        }
    } else {
        calmly(s)
    }
}

pub open spec fn pulled(cursor: usize) -> usize {
    if cursor > 0 {
        (cursor - 1) as usize
    } else {
        0
    }
}

/// Doing something with the selected item.
pub open spec fn item_step(s: PlaylistV, pane: int, count: int, k: Key) -> (
    PlaylistV,
    bool,
    Seq<DeskOpV>,
) {
    let done = PlaylistV { item_cmd: false, ..s };
    if k == Key::Tab {
        calmly(done)
    } else if k == Key::Enter {
        match picked(s) {
            Some(item) => doing_ops(
                done,
                seq![cmd3(pane, "set_property"@, "playlist-pos"@, decimal(item.index))],
            ),
            None => calmly(done),
        }
    } else if k == Key::Char('r') {
        match picked(s) {
            Some(item) => doing_ops(
                PlaylistV { cursor: pulled(s.cursor), ..done },
                seq![
                    cmd2(pane, "playlist-remove"@, decimal(item.index)),
                    DeskOpV::Sync { pane },
                ],
            ),
            None => calmly(done),
        }
    } else if k == Key::Char('m') {
        calmly(PlaylistV { move_input: true, move_buf: Seq::empty(), ..s })
    } else if k == Key::Char('s') {
        calmly(
            PlaylistV {
                send_pane_select: true,
                send_pane_cursor: if pane > 0 || count < 2 {
                    0
                } else {
                    1
                },
                ..s
            },
        )
    } else {
        calmly(s)
    }
}

/// Moving through the playlist. The second part says whether the screen is left.
pub open spec fn list_step(s: PlaylistV, pane: int, k: Key) -> (PlaylistV, bool, Seq<DeskOpV>) {
    if is_up(k) {
        calmly(PlaylistV { cursor: pulled(s.cursor), ..s })
    } else if is_down(k) {
        calmly(
            PlaylistV {
                cursor: if s.cursor + 1 < s.items.len() {
                    (s.cursor + 1) as usize
                } else {
                    s.cursor
                },
                ..s
            },
        )
    } else if k == Key::Tab {
        calmly(PlaylistV { item_cmd: true, ..s })
    } else if k == Key::Char('c') {
        doing_ops(s, seq![cmd1(pane, "playlist-clear"@)])
    } else if k == Key::Char('n') {
        calmly(
            PlaylistV {
                add_input: true,
                add_buf: Seq::empty(),
                completions: Seq::empty(),
                ..s
            },
        )
    } else if k == Key::Backspace {
        (fresh_playlist(s.items), true, Seq::empty())
    } else {
        calmly(s)
    }
}

/// A key on the playlist screen of the pane at `pane`.
pub open spec fn playlist_step(s: PlaylistV, pane: int, count: int, stream: bool, k: Key) -> (
    PlaylistV,
    bool,
    Seq<DeskOpV>,
) {
    if s.add_input {
        add_step(s, pane, stream, k)
    } else if s.move_input {
        move_step(s, pane, k)
    } else if s.send_pane_select {
        target_step(s, pane, count, k)
    } else if s.item_cmd {
        item_step(s, pane, count, k)
    } else {
        list_step(s, pane, k)
    }
}

fn leave_add(pl: &mut PlaylistState)
    ensures
        final(pl).wf(),
        final(pl).view() == (PlaylistV {
            add_input: false,
            add_buf: Seq::empty(),
            completions: Seq::empty(),
            ..old(pl).view()
        }),
{
    pl.add_input = false;
    pl.add_buf = String::new();
    pl.completions = Vec::new();
    assert(strs(pl.completions@) =~= Seq::empty());
}

fn add_key(pl: &mut PlaylistState, pane: usize, stream: bool, k: Key) -> (r: Vec<DeskOp>)
    requires
        old(pl).wf(),
    ensures
        final(pl).wf(),
        (final(pl).view(), false, op_views(r@)) == add_step(
            old(pl).view(),
            pane as int,
            stream,
            k,
        ),
{
    let n: usize = pl.completions.len();
    match k {
        Key::Esc => {
            leave_add(pl);
            no_ops()
        },
        Key::Enter => {
            let input: String = trim(pl.add_buf.as_str()).to_owned();
            leave_add(pl);
            if is_empty(input.as_str()) {
                no_ops()
            } else {
                one_op(DeskOp::Add { pane, input, as_is: stream })
            }
        },
        Key::Tab => {
            if stream {
                no_ops()
            } else if n == 0 {
                one_op(DeskOp::Complete)
            } else {
                let i: usize = if n - pl.comp_sel > 1 {
                    pl.comp_sel + 1
                } else {
                    0
                };
                pl.comp_sel = i;
                pl.add_buf = pl.completions[i].clone();
                no_ops()
            }
        },
        Key::BackTab => {
            if !stream && n > 0 {
                let i: usize = if pl.comp_sel == 0 {
                    n - 1
                } else {
                    pl.comp_sel - 1
                };
                pl.comp_sel = i;
                pl.add_buf = pl.completions[i].clone();
            }
            no_ops()
        },
        Key::Backspace => {
            pl.add_buf.pop();
            pl.completions = Vec::new();
            pl.comp_sel = 0;
            assert(strs(pl.completions@) =~= Seq::empty());
            no_ops()
        },
        Key::Char(c) => {
            pl.add_buf.push(c);
            pl.completions = Vec::new();
            pl.comp_sel = 0;
            assert(strs(pl.completions@) =~= Seq::empty());
            no_ops()
        },
        _ => no_ops(),
    }
}

fn picked_index(pl: &PlaylistState) -> (r: Option<usize>)
    ensures
        match r {
            Some(i) => picked(pl.view()) matches Some(item) && item.index == i,
            None => picked(pl.view()) is None,
        },
{
    if pl.cursor < pl.items.len() {
        Some(pl.items[pl.cursor].index)
    } else {
        None
    }
}

fn move_key(pl: &mut PlaylistState, pane: usize, k: Key) -> (r: Vec<DeskOp>)
    requires
        old(pl).wf(),
    ensures
        final(pl).wf(),
        (final(pl).view(), false, op_views(r@)) == move_step(old(pl).view(), pane as int, k),
{
    match k {
        Key::Char(c) => {
            if '0' <= c && c <= '9' {
                pl.move_buf.push(c);
            }
            no_ops()
        },
        Key::Backspace => {
            pl.move_buf.pop();
            no_ops()
        },
        Key::Enter => {
            let dest: Option<usize> = parse_usize(pl.move_buf.as_str());
            let item: Option<usize> = picked_index(pl);
            pl.move_input = false;
            pl.move_buf = String::new();
            match (dest, item) {
                (Some(d), Some(i)) => two_ops(
                    order3(
                        pane,
                        "playlist-move",
                        decimal_of(i).as_str(),
                        decimal_of(d).as_str(),
                    ),
                    DeskOp::Sync { pane },
                ),
                _ => no_ops(),
            }
        },
        Key::Esc => {
            pl.move_input = false;
            pl.move_buf = String::new();
            no_ops()
        },
        _ => no_ops(),
    }
}

fn target_key(pl: &mut PlaylistState, pane: usize, count: usize, k: Key) -> (r: Vec<DeskOp>)
    requires
        old(pl).wf(),
        count > 0,
    ensures
        final(pl).wf(),
        (final(pl).view(), false, op_views(r@)) == target_step(
            old(pl).view(),
            pane as int,
            count as int,
            k,
        ),
{
    if k == Key::Esc {
        pl.send_pane_select = false;
        no_ops()
    } else if up(k) {
        if pl.send_pane_cursor > 0 {
            pl.send_pane_cursor = pl.send_pane_cursor - 1;
        }
        no_ops()
    } else if down(k) {
        if pl.send_pane_cursor < count - 1 {
            pl.send_pane_cursor = pl.send_pane_cursor + 1;
        }
        no_ops()
    } else if k == Key::Enter {
        let to: usize = pl.send_pane_cursor;
        let item: Option<usize> = picked_index(pl);
        pl.send_pane_select = false;
        pl.item_cmd = false;
        match item {
            Some(index) => if to != pane {
                one_op(DeskOp::SendItem { from: pane, to, index })
            } else {
                no_ops()
            },
            None => no_ops(),
        }
    } else {
        no_ops()
    }
}

fn item_key(pl: &mut PlaylistState, pane: usize, count: usize, k: Key) -> (r: Vec<DeskOp>)
    requires
        old(pl).wf(),
    ensures
        final(pl).wf(),
        (final(pl).view(), false, op_views(r@)) == item_step(
            old(pl).view(),
            pane as int,
            count as int,
            k,
        ),
{
    let item: Option<usize> = picked_index(pl);
    if k == Key::Tab {
        pl.item_cmd = false;
        no_ops()
    } else if k == Key::Enter {
        pl.item_cmd = false;
        match item {
            Some(i) => one_op(
                order3(pane, "set_property", "playlist-pos", decimal_of(i).as_str()),
            ),
            None => no_ops(),
        }
    } else if k == Key::Char('r') {
        pl.item_cmd = false;
        match item {
            Some(i) => {
                if pl.cursor > 0 {
                    pl.cursor = pl.cursor - 1;
                }
                two_ops(
                    order2(pane, "playlist-remove", decimal_of(i).as_str()),
                    DeskOp::Sync { pane },
                )
            },
            None => no_ops(),
        }
    } else if k == Key::Char('m') {
        pl.move_input = true;
        pl.move_buf = String::new();
        no_ops()
    } else if k == Key::Char('s') {
        pl.send_pane_select = true;
        pl.send_pane_cursor = if pane > 0 || count < 2 {
            0
        } else {
            1
        };
        no_ops()
    } else {
        no_ops()
    }
}

/// Takes a key on the playlist screen of the pane at `pane`; says whether the screen
/// is left, and what is to be done.
pub fn playlist_key(pl: &mut PlaylistState, pane: usize, count: usize, stream: bool, k: Key) -> (r: (
    bool,
    Vec<DeskOp>,
))
    requires
        old(pl).wf(),
        pane < count,
    ensures
        final(pl).wf(),
        (final(pl).view(), r.0, op_views(r.1@)) == playlist_step(
            old(pl).view(),
            pane as int,
            count as int,
            stream,
            k,
        ),
{
    if pl.add_input {
        return (false, add_key(pl, pane, stream, k));
    }
    if pl.move_input {
        return (false, move_key(pl, pane, k));
    }
    if pl.send_pane_select {
        return (false, target_key(pl, pane, count, k));
    }
    if pl.item_cmd {
        return (false, item_key(pl, pane, count, k));
    }
    if up(k) {
        if pl.cursor > 0 {
            pl.cursor = pl.cursor - 1;
        }
        (false, no_ops())
    } else if down(k) {
        let n: usize = pl.items.len();
        if pl.cursor < n && n - pl.cursor > 1 {
            pl.cursor = pl.cursor + 1;
        }
        (false, no_ops())
    } else if k == Key::Tab {
        pl.item_cmd = true;
        (false, no_ops())
    } else if k == Key::Char('c') {
        (false, one_op(order1(pane, "playlist-clear")))
    } else if k == Key::Char('n') {
        pl.add_input = true;
        pl.add_buf = String::new();
        pl.completions = Vec::new();
        assert(strs(pl.completions@) =~= Seq::empty());
        (false, no_ops())
    } else if k == Key::Backspace {
        pl.reset();
        (true, no_ops())
    } else {
        (false, no_ops())
    }
}

/// The completions of what is typed were found; the first is taken.
pub fn playlist_completed(pl: &mut PlaylistState, found: Vec<String>)
    requires
        old(pl).wf(),
    ensures
        final(pl).wf(),
        final(pl).view() == (PlaylistV {
            completions: strs(found@),
            comp_sel: 0,
            add_buf: if found@.len() > 0 {
                found@[0]@
            } else {
                old(pl).add_buf@
            },
            ..old(pl).view()
        }),
{
    if found.len() > 0 {
        pl.add_buf = found[0].clone();
    }
    pl.completions = found;
    pl.comp_sel = 0;
}

/// What is appended to a playlist file for entries: each on a line of its own.
pub open spec fn entry_lines(files: Seq<Seq<char>>) -> Seq<char> {
    crate::m3u::item_lines(files)
}

/// What is appended to the playlist file for entries, and what their player is told.
pub fn add_entries(pane: usize, files: &Vec<String>) -> (r: (String, Vec<DeskOp>))
    ensures
        r.0@ == entry_lines(strs(files@)),
        op_views(r.1@) == Seq::new(
            files@.len(),
            |i: int| cmd3(pane as int, "loadfile"@, files@[i]@, "append-play"@),
        ),
{
    let ghost all = strs(files@);
    let mut text: String = String::new();
    let mut ops: Vec<DeskOp> = Vec::new();
    assert(text@ =~= entry_lines(all.take(0)));
    for i in 0..files.len()
        invariant
            all == strs(files@),
            text@ == entry_lines(all.take(i as int)),
            ops.len() == i,
            forall|k: int|
                0 <= k < i ==> (#[trigger] ops@[k]).view() == cmd3(
                    pane as int,
                    "loadfile"@,
                    files@[k]@,
                    "append-play"@,
                ),
    {
        proof {
            assert(all.take(i + 1).drop_last() =~= all.take(i as int));
            assert(all.take(i + 1).last() == files@[i as int]@);
        }
        text.append(files[i].as_str());
        text.append("\n");
        ops.push(order3(pane, "loadfile", files[i].as_str(), "append-play"));
    }
    assert(all.take(all.len() as int) =~= all);
    assert(op_views(ops@) =~= Seq::new(
        files@.len(),
        |i: int| cmd3(pane as int, "loadfile"@, files@[i]@, "append-play"@),
    ));
    (text, ops)
}

/// An item is sent from one pane to another once its source is known: the other
/// player gets it, and the first gives it up. Where the source is not known nothing
/// happens.
pub fn send_item(pl: &mut PlaylistState, from: usize, to: usize, index: usize, path: Option<String>) -> (r: Vec<
    DeskOp,
>)
    requires
        old(pl).wf(),
    ensures
        final(pl).wf(),
        match path {
            Some(p) => final(pl).view() == (PlaylistV {
                cursor: pulled(old(pl).cursor),
                ..old(pl).view()
            }) && op_views(r@) == seq![
                cmd3(to as int, "loadfile"@, p@, "append-play"@),
                cmd2(from as int, "playlist-remove"@, decimal(index as int)),
                DeskOpV::Sync { pane: from as int },
            ],
            None => final(pl).view() == old(pl).view() && op_views(r@) == Seq::<DeskOpV>::empty(),
        },
{
    match path {
        Some(p) => {
            if pl.cursor > 0 {
                pl.cursor = pl.cursor - 1;
            }
            let v: Vec<DeskOp> = vec![
                order3(to, "loadfile", p.as_str(), "append-play"),
                order2(from, "playlist-remove", decimal_of(index).as_str()),
                DeskOp::Sync { pane: from },
            ];
            assert(op_views(v@) =~= seq![
                cmd3(to as int, "loadfile"@, p@, "append-play"@),
                cmd2(from as int, "playlist-remove"@, decimal(index as int)),
                DeskOpV::Sync { pane: from as int },
            ]);
            v
        },
        None => no_ops(),
    }
}

// ---------------------------------------------------------------------------
// Screens
// ---------------------------------------------------------------------------

/// How loud a pane is.
pub open spec fn volume_text(p: DeskPaneV) -> Seq<char> {
    if p.muted {
        "[Vol:Mute]"@
    } else {
        "[Vol:"@ + padded_left(signed(p.volume as int), 3) + "%]"@
    }
}

fn volume_label(p: &DeskPane) -> (r: String)
    ensures
        r@ == volume_text(p.view()),
{
    if p.muted {
        "[Vol:Mute]".to_owned()
    } else {
        cat3("[Vol:", pad_left(signed_of(p.volume).as_str(), 3).as_str(), "%]")
    }
}

/// The row of a pane on the dashboard.
pub open spec fn dash_row(p: DeskPaneV, selected: bool, cmd_mode: bool) -> RowV {
    let offline = p.status == "Offline"@;
    RowV {
        spans: seq![
            ink(
                if selected {
                    ":: "@
                } else {
                    "   "@
                },
                Color::Orange,
            ),
            ink(
                padded("\""@ + p.name + "\""@, 12),
                if selected {
                    Color::Bright
                } else {
                    Color::Orange
                },
            ),
            sep(Color::Dim),
            ink(boxed(p.pane_type, 5), Color::Cyan),
            sep(Color::Dim),
            ink(
                boxed(p.status, 7),
                if p.status == "Playing"@ {
                    Color::Orange
                } else if offline {
                    Color::Red
                } else {
                    Color::Dim
                },
            ),
            sep(Color::Dim),
            ink(
                padded(
                    if offline {
                        "[Offline]"@
                    } else {
                        volume_text(p)
                    },
                    10,
                ),
                if offline {
                    Color::Red
                } else if p.muted {
                    Color::Dim
                } else {
                    Color::Pink
                },
            ),
            sep(Color::Dim),
            ink(
                p.title,
                if offline {
                    Color::Dim
                } else if selected {
                    Color::Bright
                } else {
                    Color::Cyan
                },
            ),
            if cmd_mode && selected {
                ink("  [CMD]"@, Color::CmdKey)
            } else {
                ink(""@, Color::Plain)
            },
        ],
        selected,
    }
}

/// The row of a pane on the dashboard.
pub fn render_dashboard_row(p: &DeskPane, selected: bool, cmd_mode: bool) -> (r: Row)
    ensures
        r.view() == dash_row(p.view(), selected, cmd_mode),
{
    let offline: bool = same(p.status.as_str(), "Offline");
    let playing: bool = same(p.status.as_str(), "Playing");
    let arrow: &str = if selected {
        ":: "
    } else {
        "   "
    };
    let name_color: Color = if selected {
        Color::Bright
    } else {
        Color::Orange
    };
    let status_color: Color = if playing {
        Color::Orange
    } else if offline {
        Color::Red
    } else {
        Color::Dim
    };
    let vol: String = if offline {
        "[Offline]".to_owned()
    } else {
        volume_label(p)
    };
    let vol_color: Color = if offline {
        Color::Red
    } else if p.muted {
        Color::Dim
    } else {
        Color::Pink
    };
    let title_color: Color = if offline {
        Color::Dim
    } else if selected {
        Color::Bright
    } else {
        Color::Cyan
    };
    let badge: Span = if cmd_mode && selected {
        span("  [CMD]", Color::CmdKey)
    } else {
        span("", Color::Plain)
    };
    let name: String = cat3("\"", p.name.as_str(), "\"");
    let spans: Vec<Span> = vec![
        span(arrow, Color::Orange),
        span(pad_right(name.as_str(), 12).as_str(), name_color),
        span(" :: ", Color::Dim),
        span(in_box(p.pane_type.as_str(), 5).as_str(), Color::Cyan),
        span(" :: ", Color::Dim),
        span(in_box(p.status.as_str(), 7).as_str(), status_color),
        span(" :: ", Color::Dim),
        span(pad_right(vol.as_str(), 10).as_str(), vol_color),
        span(" :: ", Color::Dim),
        span(p.title.as_str(), title_color),
        badge,
    ];
    let row: Row = Row { spans, selected };
    assert(row.view().spans =~= dash_row(p.view(), selected, cmd_mode).spans);
    row
}

/// The first line of the playlist screen.
pub open spec fn playlist_header_of(p: DeskPaneV) -> Seq<SpanV> {
    seq![
        ink("[PaneBot]"@, Color::Orange),
        sep(Color::Dim),
        ink("\""@ + p.name + "\""@, Color::Bright),
        sep(Color::Dim),
        ink("["@ + p.pane_type + "]"@, Color::Cyan),
        sep(Color::Dim),
        ink(
            "["@ + p.status + "]"@,
            if p.status == "Playing"@ {
                Color::Orange
            } else {
                Color::Dim
            },
        ),
        sep(Color::Dim),
        ink(volume_text(p), Color::Pink),
        ink(" ::"@, Color::Dim),
    ]
}

/// The first line of the playlist screen.
pub fn render_playlist_header(p: &DeskPane) -> (r: Vec<Span>)
    ensures
        span_views(r@) == playlist_header_of(p.view()),
{
    let color: Color = if same(p.status.as_str(), "Playing") {
        Color::Orange
    } else {
        Color::Dim
    };
    let v: Vec<Span> = vec![
        span("[PaneBot]", Color::Orange),
        span(" :: ", Color::Dim),
        span(cat3("\"", p.name.as_str(), "\"").as_str(), Color::Bright),
        span(" :: ", Color::Dim),
        span(cat3("[", p.pane_type.as_str(), "]").as_str(), Color::Cyan),
        span(" :: ", Color::Dim),
        span(cat3("[", p.status.as_str(), "]").as_str(), color),
        span(" :: ", Color::Dim),
        span(volume_label(p).as_str(), Color::Pink),
        span(" ::", Color::Dim),
    ];
    assert(span_views(v@) =~= playlist_header_of(p.view()));
    v
}

/// The row of an item on the playlist screen.
pub open spec fn playlist_row_of(item: DeskItemV, selected: bool, item_cmd: bool) -> RowV {
    RowV {
        spans: seq![
            ink(
                if selected {
                    ">> "@
                } else {
                    "   "@
                },
                Color::Orange,
            ),
            ink(padded(decimal(item.index), 3), Color::Pink),
            sep(Color::Dim),
            ink(
                item.title,
                if selected {
                    Color::Bright
                } else {
                    Color::Cyan
                },
            ),
            if item_cmd && selected {
                ink("  [CMD]"@, Color::CmdKey)
            } else {
                ink(""@, Color::Plain)
            },
        ],
        selected,
    }
}

/// The row of an item on the playlist screen.
pub fn render_playlist_row(item: &DeskItem, selected: bool, item_cmd: bool) -> (r: Row)
    ensures
        r.view() == playlist_row_of(item.view(), selected, item_cmd),
{
    let cursor: &str = if selected {
        ">> "
    } else {
        "   "
    };
    let color: Color = if selected {
        Color::Bright
    } else {
        Color::Cyan
    };
    let badge: Span = if item_cmd && selected {
        span("  [CMD]", Color::CmdKey)
    } else {
        span("", Color::Plain)
    };
    let spans: Vec<Span> = vec![
        span(cursor, Color::Orange),
        span(pad_right(decimal_of(item.index).as_str(), 3).as_str(), Color::Pink),
        span(" :: ", Color::Dim),
        span(item.title.as_str(), color),
        badge,
    ];
    let row: Row = Row { spans, selected };
    assert(row.view().spans =~= playlist_row_of(item.view(), selected, item_cmd).spans);
    row
}

/// Keys in one colour, each followed by what it does in another.
pub open spec fn bar(v: Seq<(Seq<char>, Seq<char>)>, key: Color, text: Color) -> Seq<SpanV> {
    Seq::new(
        2 * v.len(),
        |i: int|
            if i % 2 == 0 {
                ink(v[i / 2].0, key)
            } else {
                ink(v[i / 2].1, text)
            },
    )
}

fn bar_spans(v: &Vec<(&'static str, &'static str)>, key: Color, text: Color) -> (r: Vec<Span>)
    ensures
        span_views(r@) == bar(Seq::new(v@.len(), |i: int| (v@[i].0@, v@[i].1@)), key, text),
{
    let ghost all = Seq::new(v@.len(), |i: int| (v@[i].0@, v@[i].1@));
    let mut out: Vec<Span> = Vec::new();
    for i in 0..v.len()
        invariant
            all == Seq::new(v@.len(), |i: int| (v@[i].0@, v@[i].1@)),
            out.len() == 2 * i,
            forall|k: int| 0 <= k < 2 * i ==> (#[trigger] out@[k]).view() == bar(all, key, text)[k],
    {
        out.push(span(v[i].0, key));
        out.push(span(v[i].1, text));
    }
    assert(span_views(out@) =~= bar(all, key, text));
    out
}

/// The last line of the dashboard.
pub open spec fn dash_bar_of(cmd_mode: bool) -> Seq<SpanV> {
    if cmd_mode {
        bar(
            seq![
                ("[Space]"@, " Play :: "@),
                ("[m]"@, " Mute :: "@),
                ("[Left/Right]"@, " Seek 10s :: "@),
                ("[Up/Down]"@, " Seek 1m :: "@),
                ("[=/-]"@, " Vol :: "@),
                ("[n/N]"@, " Next/Prev :: "@),
                ("[R]"@, " Relaunch :: "@),
                ("[F]"@, " Full :: "@),
                ("[Tab]"@, " Exit Cmd"@),
            ],
            Color::CmdKey,
            Color::CmdHint,
        )
    } else {
        bar(
            seq![
                ("[j/k]"@, " Select :: "@),
                ("[Tab]"@, " Cmd Mode :: "@),
                ("[Enter]"@, " Pane Details :: "@),
                ("[q]"@, " Exit PaneBot"@),
            ],
            Color::Cyan,
            Color::Hint,
        )
    }
}

/// The last line of the dashboard.
pub fn render_dashboard_statusbar(cmd_mode: bool) -> (r: Vec<Span>)
    ensures
        span_views(r@) == dash_bar_of(cmd_mode),
{
    if cmd_mode {
        let v: Vec<(&'static str, &'static str)> = vec![
            ("[Space]", " Play :: "),
            ("[m]", " Mute :: "),
            ("[Left/Right]", " Seek 10s :: "),
            ("[Up/Down]", " Seek 1m :: "),
            ("[=/-]", " Vol :: "),
            ("[n/N]", " Next/Prev :: "),
            ("[R]", " Relaunch :: "),
            ("[F]", " Full :: "),
            ("[Tab]", " Exit Cmd"),
        ];
        assert(Seq::new(v@.len(), |i: int| (v@[i].0@, v@[i].1@)) =~= seq![
            ("[Space]"@, " Play :: "@),
            ("[m]"@, " Mute :: "@),
            ("[Left/Right]"@, " Seek 10s :: "@),
            ("[Up/Down]"@, " Seek 1m :: "@),
            ("[=/-]"@, " Vol :: "@),
            ("[n/N]"@, " Next/Prev :: "@),
            ("[R]"@, " Relaunch :: "@),
            ("[F]"@, " Full :: "@),
            ("[Tab]"@, " Exit Cmd"@),
        ]);
        bar_spans(&v, Color::CmdKey, Color::CmdHint)
    } else {
        let v: Vec<(&'static str, &'static str)> = vec![
            ("[j/k]", " Select :: "),
            ("[Tab]", " Cmd Mode :: "),
            ("[Enter]", " Pane Details :: "),
            ("[q]", " Exit PaneBot"),
        ];
        assert(Seq::new(v@.len(), |i: int| (v@[i].0@, v@[i].1@)) =~= seq![
            ("[j/k]"@, " Select :: "@),
            ("[Tab]"@, " Cmd Mode :: "@),
            ("[Enter]"@, " Pane Details :: "@),
            ("[q]"@, " Exit PaneBot"@),
        ]);
        bar_spans(&v, Color::Cyan, Color::Hint)
    }
}

/// The last line of the playlist screen.
pub open spec fn playlist_bar_of(s: PlaylistV) -> Seq<SpanV> {
    if s.send_pane_select {
        seq![
            ink("[j/k]"@, Color::Hint),
            ink(" Select Pane :: "@, Color::Dim),
            ink("[Enter]"@, Color::CmdKey),
            ink(" Send Here :: "@, Color::CmdHint),
            ink("[Esc]"@, Color::CmdKey),
            ink(" Cancel"@, Color::CmdHint),
        ]
    } else if s.move_input {
        seq![
            ink("Move to position: "@, Color::Hint),
            ink(s.move_buf, Color::Bright),
            ink("_"@, Color::Orange),
        ]
    } else if s.add_input {
        seq![
            ink("Add to playlist: "@, Color::Hint),
            ink(s.add_buf, Color::Bright),
            ink("_"@, Color::Orange),
        ]
    } else if s.item_cmd {
        bar(
            seq![
                ("[Enter]"@, " Play Now :: "@),
                ("[r]"@, " Remove :: "@),
                ("[m]"@, " Move Pos :: "@),
                ("[s]"@, " Send To Pane :: "@),
                ("[Tab]"@, " Exit Modify"@),
            ],
            Color::CmdKey,
            Color::CmdHint,
        )
    } else {
        bar(
            seq![
                ("[j/k]"@, " Select :: "@),
                ("[Tab]"@, " Modify :: "@),
                ("[c]"@, " Crop :: "@),
                ("[n]"@, " Add :: "@),
                ("[Backspace]"@, " Return"@),
            ],
            Color::Cyan,
            Color::Hint,
        )
    }
}

/// The last line of the playlist screen.
pub fn render_playlist_statusbar(pl: &PlaylistState) -> (r: Vec<Span>)
    ensures
        span_views(r@) == playlist_bar_of(pl.view()),
{
    let ghost want = playlist_bar_of(pl.view());
    if pl.send_pane_select {
        let v: Vec<Span> = vec![
            span("[j/k]", Color::Hint),
            span(" Select Pane :: ", Color::Dim),
            span("[Enter]", Color::CmdKey),
            span(" Send Here :: ", Color::CmdHint),
            span("[Esc]", Color::CmdKey),
            span(" Cancel", Color::CmdHint),
        ];
        assert(span_views(v@) =~= want);
        v
    } else if pl.move_input {
        let v: Vec<Span> = vec![
            span("Move to position: ", Color::Hint),
            span(pl.move_buf.as_str(), Color::Bright),
            span("_", Color::Orange),
        ];
        assert(span_views(v@) =~= want);
        v
    } else if pl.add_input {
        let v: Vec<Span> = vec![
            span("Add to playlist: ", Color::Hint),
            span(pl.add_buf.as_str(), Color::Bright),
            span("_", Color::Orange),
        ];
        assert(span_views(v@) =~= want);
        v
    } else if pl.item_cmd {
        let v: Vec<(&'static str, &'static str)> = vec![
            ("[Enter]", " Play Now :: "),
            ("[r]", " Remove :: "),
            ("[m]", " Move Pos :: "),
            ("[s]", " Send To Pane :: "),
            ("[Tab]", " Exit Modify"),
        ];
        assert(Seq::new(v@.len(), |i: int| (v@[i].0@, v@[i].1@)) =~= seq![
            ("[Enter]"@, " Play Now :: "@),
            ("[r]"@, " Remove :: "@),
            ("[m]"@, " Move Pos :: "@),
            ("[s]"@, " Send To Pane :: "@),
            ("[Tab]"@, " Exit Modify"@),
        ]);
        bar_spans(&v, Color::CmdKey, Color::CmdHint)
    } else {
        let v: Vec<(&'static str, &'static str)> = vec![
            ("[j/k]", " Select :: "),
            ("[Tab]", " Modify :: "),
            ("[c]", " Crop :: "),
            ("[n]", " Add :: "),
            ("[Backspace]", " Return"),
        ];
        assert(Seq::new(v@.len(), |i: int| (v@[i].0@, v@[i].1@)) =~= seq![
            ("[j/k]"@, " Select :: "@),
            ("[Tab]"@, " Modify :: "@),
            ("[c]"@, " Crop :: "@),
            ("[n]"@, " Add :: "@),
            ("[Backspace]"@, " Return"@),
        ]);
        bar_spans(&v, Color::Cyan, Color::Hint)
    }
}

/// The first line of the dashboard.
pub fn render_dashboard_header() -> (r: Vec<Span>)
    ensures
        span_views(r@) == seq![
            ink("[PaneBot]"@, Color::Orange),
            ink("  ::  Active Panes ::"@, Color::Dim),
        ],
{
    let v: Vec<Span> = vec![
        span("[PaneBot]", Color::Orange),
        span("  ::  Active Panes ::", Color::Dim),
    ];
    assert(span_views(v@) =~= seq![
        ink("[PaneBot]"@, Color::Orange),
        ink("  ::  Active Panes ::"@, Color::Dim),
    ]);
    v
}

/// A pane that an item can be sent to.
pub open spec fn target_row(p: DeskPaneV, selected: bool) -> RowV {
    RowV {
        spans: seq![
            ink(
                if selected {
                    ">> "@
                } else {
                    "   "@
                },
                Color::Orange,
            ),
            ink(
                "\""@ + p.name + "\""@,
                if selected {
                    Color::Bright
                } else {
                    Color::Cyan
                },
            ),
            ink(" ["@ + p.pane_type + "]"@, Color::Dim),
        ],
        selected,
    }
}

/// The panes that an item of the pane at `from` can be sent to: all but that one.
pub open spec fn target_rows(panes: Seq<DeskPaneV>, from: int, cursor: int) -> Seq<RowV>
    decreases panes.len(),
{
    if panes.len() == 0 {
        Seq::empty()
    } else {
        let i = panes.len() - 1;
        let before = target_rows(panes.drop_last(), from, cursor);
        if i == from {
            before
        } else {
            before.push(target_row(panes.last(), i == cursor))
        }
    }
}

/// The panes that an item can be sent to.
pub fn render_targets(panes: &Vec<DeskPane>, from: usize, cursor: usize) -> (r: Vec<Row>)
    ensures
        row_views(r@) == target_rows(desk_views(panes@), from as int, cursor as int),
{
    let ghost all = desk_views(panes@);
    let mut rows: Vec<Row> = Vec::new();
    assert(row_views(rows@) =~= target_rows(all.take(0), from as int, cursor as int));
    for i in 0..panes.len()
        invariant
            all == desk_views(panes@),
            row_views(rows@) == target_rows(all.take(i as int), from as int, cursor as int),
    {
        proof {
            assert(all.take(i + 1).drop_last() =~= all.take(i as int));
            assert(all.take(i + 1).last() == panes@[i as int].view());
        }
        if i != from {
            let sel: bool = i == cursor;
            let spans: Vec<Span> = vec![
                span(
                    if sel {
                        ">> "
                    } else {
                        "   "
                    },
                    Color::Orange,
                ),
                span(
                    cat3("\"", panes[i].name.as_str(), "\"").as_str(),
                    if sel {
                        Color::Bright
                    } else {
                        Color::Cyan
                    },
                ),
                span(cat3(" [", panes[i].pane_type.as_str(), "]").as_str(), Color::Dim),
            ];
            let row: Row = Row { spans, selected: sel };
            assert(row.view().spans =~= target_row(panes@[i as int].view(), sel).spans);
            assert(row_views(rows@.push(row)) =~= row_views(rows@).push(row.view()));
            rows.push(row);
        }
    }
    assert(all.take(all.len() as int) =~= all);
    rows
}

// ---------------------------------------------------------------------------
// Laws
// ---------------------------------------------------------------------------

/// A pane that was just relaunched is not relaunched again until the cooldown is
/// over; other panes are not held up by it.
pub proof fn relaunches_are_spaced(marks: Map<usize, u64>, idx: usize, other: usize, at: u64, now: u64)
    requires
        other != idx,
        at <= now < at + RELAUNCH_COOLDOWN_MS,
    ensures
        !may_relaunch(marks.insert(idx, at), idx, now),
        may_relaunch(marks.insert(idx, at), other, now) == may_relaunch(marks, other, now),
{
}

/// Nothing is sent to the player of an offline pane, except to start it anew.
pub proof fn offline_panes_get_no_commands(cursor: usize, cmd_mode: bool, count: int, k: Key)
    ensures
        forall|i: int|
            0 <= i < dash_step(cursor, cmd_mode, true, count, k).3.len() ==> (
            #[trigger] dash_step(cursor, cmd_mode, true, count, k).3[i]) is Relaunch,
{
}

/// A pane is never offered as the place to send its own items to, and all others are.
pub proof fn all_other_panes_are_offered(panes: Seq<DeskPaneV>, from: int, cursor: int)
    ensures
        target_rows(panes, from, cursor).len() == panes.len() - if 0 <= from < panes.len() {
            1int
        } else {
            0
        },
    decreases panes.len(),
{
    if panes.len() > 0 {
        all_other_panes_are_offered(panes.drop_last(), from, cursor);
    }
}

} // verus!
