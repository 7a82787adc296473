//! What the screens say: lines of coloured text, to be drawn as they are.
use crate::board::{board_get, get_state, online_count};
use crate::config::{Host, HostV};
use crate::json::rounded_in_three;
use crate::protocol::{state_views, PaneState, PaneStateV};
use crate::text::{
    cat, cat3, decimal, decimal_of, find_char, find_str, first_char, first_index, first_match,
    is_empty, lines, pad_right, padded, same, split_lines, strs, upper, uppercase,
};
use crate::tui::{position_of, selected_of, smaller, App, AppV, DetailsMode};
use vstd::prelude::*;
use vstd::utf8::encode_utf8;

verus! {

/// A colour of the palette; `Plain` is the terminal's own, `Bright` its white.
#[derive(Clone, Copy, Debug, PartialEq, Eq, Structural)]
pub enum Color {
    Plain,
    Orange,
    Cyan,
    Dim,
    Hint,
    Divider,
    Red,
    Green,
    White,
    Bright,
    Pink,
    CmdKey,
    CmdHint,
    Mpv,
}

/// The red, green and blue of a colour.
pub fn rgb(c: Color) -> (r: Option<(u8, u8, u8)>)
    ensures
        r == (match c {
            Color::Plain => None::<(u8, u8, u8)>,
            Color::Orange => Some((224u8, 128u8, 48u8)),
            Color::Cyan => Some((60u8, 160u8, 160u8)),
            Color::Dim => Some((100u8, 120u8, 120u8)),
            Color::Hint => Some((140u8, 160u8, 160u8)),
            Color::Divider => Some((40u8, 58u8, 58u8)),
            Color::Red => Some((200u8, 60u8, 60u8)),
            Color::Green => Some((60u8, 180u8, 100u8)),
            Color::White => Some((220u8, 220u8, 220u8)),
            Color::Bright => None::<(u8, u8, u8)>,
            Color::Pink => Some((208u8, 64u8, 112u8)),
            Color::CmdKey => Some((255u8, 180u8, 60u8)),
            Color::CmdHint => Some((180u8, 130u8, 60u8)),
            Color::Mpv => Some((80u8, 120u8, 180u8)),
        }),
{
    match c {
        Color::Plain => None,
        Color::Orange => Some((224, 128, 48)),
        Color::Cyan => Some((60, 160, 160)),
        Color::Dim => Some((100, 120, 120)),
        Color::Hint => Some((140, 160, 160)),
        Color::Divider => Some((40, 58, 58)),
        Color::Red => Some((200, 60, 60)),
        Color::Green => Some((60, 180, 100)),
        Color::White => Some((220, 220, 220)),
        Color::Bright => None,
        Color::Pink => Some((208, 64, 112)),
        Color::CmdKey => Some((255, 180, 60)),
        Color::CmdHint => Some((180, 130, 60)),
        Color::Mpv => Some((80, 120, 180)),
    }
}

/// A stretch of text in one style.
#[derive(Debug)]
pub struct Span {
    pub text: String,
    pub color: Color,
    pub bold: bool,
}

pub struct SpanV {
    pub text: Seq<char>,
    pub color: Color,
    pub bold: bool,
}

impl Span {
    pub open spec fn view(&self) -> SpanV {
        SpanV { text: self.text@, color: self.color, bold: self.bold }
    }
}

pub open spec fn span_views(v: Seq<Span>) -> Seq<SpanV> {
    Seq::new(v.len(), |i: int| v[i].view())
}

/// A line of a list; the selected one is highlighted.
#[derive(Debug)]
pub struct Row {
    pub spans: Vec<Span>,
    pub selected: bool,
}

pub struct RowV {
    pub spans: Seq<SpanV>,
    pub selected: bool,
}

impl Row {
    pub open spec fn view(&self) -> RowV {
        RowV { spans: span_views(self.spans@), selected: self.selected }
    }
}

pub open spec fn row_views(v: Seq<Row>) -> Seq<RowV> {
    Seq::new(v.len(), |i: int| v[i].view())
}

/// Text in a colour.
pub open spec fn ink(text: Seq<char>, color: Color) -> SpanV {
    SpanV { text, color, bold: false }
}

/// Text in a colour, bold where `bold` says so.
pub open spec fn heavy(text: Seq<char>, color: Color, bold: bool) -> SpanV {
    SpanV { text, color, bold }
}

/// The mark between two parts of a line.
pub open spec fn sep(color: Color) -> SpanV {
    ink(" :: "@, color)
}

/// Text in a colour.
pub fn span(text: &str, color: Color) -> (r: Span)
    ensures
        r.view() == ink(text@, color),
{
    Span { text: text.to_owned(), color, bold: false }
}

/// Text in a colour, bold where `bold` says so.
pub fn bold_span(text: &str, color: Color, bold: bool) -> (r: Span)
    ensures
        r.view() == heavy(text@, color, bold),
{
    Span { text: text.to_owned(), color, bold }
}

pub proof fn lemma_spans_push(v: Seq<Span>, s: Span)
    ensures
        span_views(v.push(s)) == span_views(v).push(s.view()),
{
    assert(span_views(v.push(s)) =~= span_views(v).push(s.view()));
}

// ---------------------------------------------------------------------------
// Labels
// ---------------------------------------------------------------------------

/// What a pane is doing. What the player has not reported counts as not playing.
pub open spec fn playback_of(p: PaneStateV) -> (Seq<char>, Color) {
    if !p.online {
        ("Offline"@, Color::Red)
    } else if p.idle_active != Some(false) {
        ("Stopped"@, Color::Dim)
    } else if p.paused != Some(false) {
        ("Paused"@, Color::Hint)
    } else {
        ("Playing"@, Color::Green)
    }
}

/// How loud a pane is.
pub open spec fn volume_of(p: PaneStateV) -> (Seq<char>, Color) {
    if !p.online {
        ("Offline"@, Color::Red)
    } else if p.muted == Some(true) {
        ("Vol:Mute"@, Color::Dim)
    } else {
        match p.volume {
            Some(v) => ("Vol:"@ + rounded_in_three(v), Color::Cyan),
            None => ("Vol:  ?"@, Color::Dim),
        }
    }
}

pub open spec fn playback_or_offline(p: Option<PaneStateV>) -> (Seq<char>, Color) {
    match p {
        Some(x) => playback_of(x),
        None => ("Offline"@, Color::Red),
    }
}

pub open spec fn volume_or_offline(p: Option<PaneStateV>) -> (Seq<char>, Color) {
    match p {
        Some(x) => volume_of(x),
        None => ("Offline"@, Color::Red),
    }
}

/// The title that is shown; a dash where there is none.
pub open spec fn title_of(p: Option<PaneStateV>) -> Seq<char> {
    match p {
        Some(x) => match x.title {
            Some(t) if t.len() > 0 => t,
            _ => "-"@,
        },
        None => "-"@,
    }
}

impl PaneState {
    /// What the pane is doing, and the colour to say it in.
    pub fn playback_label(&self) -> (r: (&'static str, Color))
        ensures
            (r.0@, r.1) == playback_of(self.view()),
    {
        if !self.online {
            ("Offline", Color::Red)
        } else if self.idle_active != Some(false) {
            ("Stopped", Color::Dim)
        } else if self.paused != Some(false) {
            ("Paused", Color::Hint)
        } else {
            ("Playing", Color::Green)
        }
    }

    /// How loud the pane is, and the colour to say it in.
    pub fn volume_label(&self) -> (r: (String, Color))
        ensures
            (r.0@, r.1) == volume_of(self.view()),
    {
        if !self.online {
            ("Offline".to_owned(), Color::Red)
        } else if self.muted == Some(true) {
            ("Vol:Mute".to_owned(), Color::Dim)
        } else {
            match &self.volume {
                Some(v) => (cat("Vol:", v.in_three_columns().as_str()), Color::Cyan),
                None => ("Vol:  ?".to_owned(), Color::Dim),
            }
        }
    }
}

pub open spec fn opt_state(p: Option<&PaneState>) -> Option<PaneStateV> {
    match p {
        Some(x) => Some(x.view()),
        None => None,
    }
}

fn playback(p: Option<&PaneState>) -> (r: (&'static str, Color))
    ensures
        (r.0@, r.1) == playback_or_offline(opt_state(p)),
{
    match p {
        Some(x) => x.playback_label(),
        None => ("Offline", Color::Red),
    }
}

fn volume(p: Option<&PaneState>) -> (r: (String, Color))
    ensures
        (r.0@, r.1) == volume_or_offline(opt_state(p)),
{
    match p {
        Some(x) => x.volume_label(),
        None => ("Offline".to_owned(), Color::Red),
    }
}

fn title(p: Option<&PaneState>) -> (r: String)
    ensures
        r@ == title_of(opt_state(p)),
{
    match p {
        Some(x) => match &x.title {
            Some(t) => if is_empty(t.as_str()) {
                "-".to_owned()
            } else {
                t.clone()
            },
            None => "-".to_owned(),
        },
        None => "-".to_owned(),
    }
}

/// A label in square brackets, set left in `width` columns.
pub open spec fn boxed(label: Seq<char>, width: nat) -> Seq<char> {
    "["@ + padded(label, width) + "]"@
}

pub fn in_box(label: &str, width: usize) -> (r: String)
    ensures
        r@ == boxed(label@, width as nat),
{
    cat3("[", pad_right(label, width).as_str(), "]")
}

/// The name of a pane as it is shown.
pub open spec fn shown_name(p: Option<PaneStateV>, name: Seq<char>) -> Seq<char> {
    "\""@ + uppercase(
        match p {
            Some(x) => x.pane_name,
            None => name,
        },
    ) + "\""@
}

fn name_label(p: Option<&PaneState>, name: &str) -> (r: String)
    ensures
        r@ == shown_name(opt_state(p), name@),
{
    let n: String = match p {
        Some(x) => upper(x.pane_name.as_str()),
        None => upper(name),
    };
    cat3("\"", n.as_str(), "\"")
}

// ---------------------------------------------------------------------------
// Dashboard
// ---------------------------------------------------------------------------

/// The first line of the dashboard: the node, its address, how many of its panes are
/// online, and its layout.
pub open spec fn header_of(s: AppV) -> Seq<SpanV> {
    seq![
        ink("["@ + s.hostname + "]"@, Color::Orange),
        sep(Color::Dim),
        ink(s.ip, Color::Dim),
        sep(Color::Dim),
        ink(
            "Panes: "@ + decimal(online_count(s.panes)) + "/"@ + decimal(
                s.pane_order.len() as int,
            ),
            Color::Hint,
        ),
        sep(Color::Dim),
        ink("Layout: "@ + s.layout, Color::Cyan),
    ]
}

/// The first line of the dashboard.
pub fn dashboard_header(app: &App) -> (r: Vec<Span>)
    ensures
        span_views(r@) == header_of(app.view()),
{
    let mut active: String = cat("Panes: ", decimal_of(app.active_count()).as_str());
    active.append("/");
    active.append(decimal_of(app.pane_order.len()).as_str());
    let host: String = cat3("[", app.hostname.as_str(), "]");
    let layout: String = cat("Layout: ", app.layout.as_str());
    let v: Vec<Span> = vec![
        span(host.as_str(), Color::Orange),
        span(" :: ", Color::Dim),
        span(app.ip.as_str(), Color::Dim),
        span(" :: ", Color::Dim),
        span(active.as_str(), Color::Hint),
        span(" :: ", Color::Dim),
        span(layout.as_str(), Color::Cyan),
    ];
    assert(span_views(v@) =~= header_of(app.view()));
    v
}

/// How wide the column of names is: as the longest name with its quotation marks,
/// counted in bytes; eight where there is no pane.
pub open spec fn name_width(panes: Seq<PaneStateV>) -> int
    decreases panes.len(),
{
    if panes.len() == 0 {
        8
    } else {
        let w = smaller(encode_utf8(panes.last().pane_name).len() as int + 2, usize::MAX as int);
        if panes.len() == 1 || name_width(panes.drop_last()) < w {
            w
        } else {
            name_width(panes.drop_last())
        }
    }
}

fn name_columns(panes: &Vec<PaneState>) -> (r: usize)
    ensures
        r == name_width(state_views(panes@)),
{
    let ghost all = state_views(panes@);
    let mut w: usize = 8;
    for i in 0..panes.len()
        invariant
            all == state_views(panes@),
            w == name_width(all.take(i as int)),
    {
        proof {
            assert(all.take(i + 1).drop_last() =~= all.take(i as int));
            assert(all.take(i + 1).last() == panes@[i as int].view());
        }
        let n: usize = panes[i].pane_name.as_str().as_bytes().len();
        let one: usize = if n < usize::MAX - 2 {
            n + 2
        } else {
            usize::MAX
        };
        if i == 0 || w < one {
            w = one;
        }
    }
    assert(all.take(all.len() as int) =~= all);
    w
}

/// The row of one pane.
pub open spec fn pane_row(s: AppV, i: int) -> RowV {
    let name = s.pane_order[i];
    let p = board_get(s.panes, name);
    let sel = i == s.selected;
    let pb = playback_or_offline(p);
    let vol = volume_or_offline(p);
    RowV {
        spans: seq![
            if sel {
                ink(":: "@, Color::Orange)
            } else {
                ink("   "@, Color::Plain)
            },
            heavy(padded(shown_name(p, name), name_width(s.panes) as nat), Color::White, sel),
            sep(Color::Dim),
            ink(boxed(pb.0, 7), pb.1),
            sep(Color::Dim),
            ink(boxed(vol.0, 8), vol.1),
            sep(Color::Dim),
            ink(title_of(p), Color::Cyan),
            if sel && s.passthrough_mode {
                ink(" [MPV]"@, Color::Mpv)
            } else if sel && s.command_mode {
                ink(" [CMD]"@, Color::Orange)
            } else {
                ink(""@, Color::Plain)
            },
        ],
        selected: sel,
    }
}

/// The rows of the dashboard: one for each pane, in order.
pub fn render_pane_list(app: &App) -> (r: Vec<Row>)
    ensures
        row_views(r@) == Seq::new(app.view().pane_order.len(), |i: int| pane_row(app.view(), i)),
{
    let ghost s = app.view();
    let width: usize = name_columns(&app.panes);
    let mut rows: Vec<Row> = Vec::new();
    for i in 0..app.pane_order.len()
        invariant
            s == app.view(),
            width == name_width(s.panes),
            rows.len() == i,
            forall|k: int| 0 <= k < i ==> (#[trigger] rows@[k]).view() == pane_row(s, k),
    {
        let name: &str = app.pane_order[i].as_str();
        assert(s.pane_order[i as int] == name@);
        let p: Option<&PaneState> = get_state(&app.panes, name);
        assert(opt_state(p) == board_get(s.panes, name@));
        let sel: bool = i == app.selected;
        let (pb, pb_color): (&'static str, Color) = playback(p);
        let (vol, vol_color): (String, Color) = volume(p);
        let label: String = name_label(p, name);
        let cursor: Span = if sel {
            span(":: ", Color::Orange)
        } else {
            span("   ", Color::Plain)
        };
        let badge: Span = if sel && app.passthrough_mode {
            span(" [MPV]", Color::Mpv)
        } else if sel && app.command_mode {
            span(" [CMD]", Color::Orange)
        } else {
            span("", Color::Plain)
        };
        let spans: Vec<Span> = vec![
            cursor,
            bold_span(pad_right(label.as_str(), width).as_str(), Color::White, sel),
            span(" :: ", Color::Dim),
            span(in_box(pb, 7).as_str(), pb_color),
            span(" :: ", Color::Dim),
            span(in_box(vol.as_str(), 8).as_str(), vol_color),
            span(" :: ", Color::Dim),
            span(title(p).as_str(), Color::Cyan),
            badge,
        ];
        let row: Row = Row { spans, selected: sel };
        assert(row.view().spans =~= pane_row(s, i as int).spans);
        rows.push(row);
    }
    assert(row_views(rows@) =~= Seq::new(s.pane_order.len(), |i: int| pane_row(s, i)));
    rows
}

/// The row of one layout that is offered; the current one has a star.
pub open spec fn layout_row(s: AppV, i: int) -> RowV {
    let name = s.layouts[i];
    let sel = i == s.picker_sel;
    RowV {
        spans: seq![
            ink(
                if sel {
                    ">> "@
                } else {
                    "   "@
                },
                Color::Plain,
            ),
            heavy(
                name,
                if sel {
                    Color::Cyan
                } else {
                    Color::Hint
                },
                sel,
            ),
            if name == s.layout {
                ink(" *"@, Color::Orange)
            } else {
                ink(""@, Color::Plain)
            },
        ],
        selected: sel,
    }
}

/// The layouts that are offered.
pub fn render_layout_picker(app: &App) -> (r: Vec<Row>)
    ensures
        row_views(r@) == Seq::new(app.view().layouts.len(), |i: int| layout_row(app.view(), i)),
{
    let ghost s = app.view();
    let mut rows: Vec<Row> = Vec::new();
    for i in 0..app.layouts.len()
        invariant
            s == app.view(),
            rows.len() == i,
            forall|k: int| 0 <= k < i ==> (#[trigger] rows@[k]).view() == layout_row(s, k),
    {
        let name: &str = app.layouts[i].as_str();
        assert(s.layouts[i as int] == name@);
        let sel: bool = i == app.picker_sel;
        let cursor: &str = if sel {
            ">> "
        } else {
            "   "
        };
        let color: Color = if sel {
            Color::Cyan
        } else {
            Color::Hint
        };
        let star: Span = if same(name, app.layout.as_str()) {
            span(" *", Color::Orange)
        } else {
            span("", Color::Plain)
        };
        let spans: Vec<Span> = vec![span(cursor, Color::Plain), bold_span(name, color, sel), star];
        let row: Row = Row { spans, selected: sel };
        assert(row.view().spans =~= layout_row(s, i as int).spans);
        rows.push(row);
    }
    assert(row_views(rows@) =~= Seq::new(s.layouts.len(), |i: int| layout_row(s, i)));
    rows
}

// ---------------------------------------------------------------------------
// Footers
// ---------------------------------------------------------------------------

/// Pairs of a key and what it does.
pub open spec fn texts(v: Seq<(&'static str, &'static str)>) -> Seq<(Seq<char>, Seq<char>)> {
    Seq::new(v.len(), |i: int| (v[i].0@, v[i].1@))
}

/// Dim hints, each behind a separator.
pub open spec fn hints(v: Seq<(Seq<char>, Seq<char>)>) -> Seq<SpanV>
    decreases v.len(),
{
    if v.len() == 0 {
        Seq::empty()
    } else {
        hints(v.drop_last()) + seq![
            sep(Color::Orange),
            ink(v.last().0, Color::Dim),
            ink(" "@ + v.last().1, Color::Dim),
        ]
    }
}

/// Bold keys, each followed by what it does.
pub open spec fn commands(v: Seq<(Seq<char>, Seq<char>)>) -> Seq<SpanV>
    decreases v.len(),
{
    if v.len() == 0 {
        Seq::empty()
    } else {
        commands(v.drop_last()) + seq![
            heavy(v.last().0, Color::Plain, true),
            ink(" "@ + v.last().1 + " "@, Color::Plain),
        ]
    }
}

fn push_hints(out: &mut Vec<Span>, v: &Vec<(&'static str, &'static str)>)
    ensures
        span_views(final(out)@) == span_views(old(out)@) + hints(texts(v@)),
{
    let ghost start = span_views(out@);
    let ghost all = texts(v@);
    assert(start + hints(all.take(0)) =~= start);
    for i in 0..v.len()
        invariant
            all == texts(v@),
            span_views(out@) == start + hints(all.take(i as int)),
    {
        proof {
            assert(all.take(i + 1).drop_last() =~= all.take(i as int));
            assert(all.take(i + 1).last() == all[i as int]);
        }
        let a: Span = span(" :: ", Color::Orange);
        let b: Span = span(v[i].0, Color::Dim);
        let c: Span = span(cat(" ", v[i].1).as_str(), Color::Dim);
        let ghost before = span_views(out@);
        proof {
            lemma_spans_push(out@, a);
            lemma_spans_push(out@.push(a), b);
            lemma_spans_push(out@.push(a).push(b), c);
        }
        out.push(a);
        out.push(b);
        out.push(c);
        assert(span_views(out@) =~= start + hints(all.take(i + 1)));
    }
    assert(all.take(all.len() as int) =~= all);
}

fn push_commands(out: &mut Vec<Span>, v: &Vec<(&'static str, &'static str)>)
    ensures
        span_views(final(out)@) == span_views(old(out)@) + commands(texts(v@)),
{
    let ghost start = span_views(out@);
    let ghost all = texts(v@);
    assert(start + commands(all.take(0)) =~= start);
    for i in 0..v.len()
        invariant
            all == texts(v@),
            span_views(out@) == start + commands(all.take(i as int)),
    {
        proof {
            assert(all.take(i + 1).drop_last() =~= all.take(i as int));
            assert(all.take(i + 1).last() == all[i as int]);
        }
        let a: Span = bold_span(v[i].0, Color::Plain, true);
        let b: Span = span(cat3(" ", v[i].1, " ").as_str(), Color::Plain);
        proof {
            lemma_spans_push(out@, a);
            lemma_spans_push(out@.push(a), b);
        }
        out.push(a);
        out.push(b);
        assert(span_views(out@) =~= start + commands(all.take(i + 1)));
    }
    assert(all.take(all.len() as int) =~= all);
}

/// The last line of the dashboard.
pub open spec fn dashboard_footer_of(command_mode: bool) -> Seq<SpanV> {
    if command_mode {
        seq![heavy("[CMD]"@, Color::Plain, true), sep(Color::Dim)] + commands(
            seq![
                ("[Space]"@, "Pause"@),
                ("[m]"@, "Mute"@),
                ("[Enter]"@, "Next"@),
                ("[h/l]"@, "\u{b1}5s"@),
                ("[j/k]"@, "\u{b1}60s"@),
                ("[9/0]"@, "Vol"@),
                ("[f]"@, "Full"@),
                ("[v]"@, "Adv"@),
                ("[Tab]"@, "Close"@),
            ],
        )
    } else {
        seq![ink("[j/k]"@, Color::Dim), ink(" Nav"@, Color::Dim)] + hints(
            seq![
                ("[l/Rt]"@, "Detail"@),
                ("[r/R]"@, "Restart"@),
                ("[S]"@, "Solo"@),
                ("[M]"@, "Mute\u{2205}"@),
                ("[P]"@, "Pause\u{2205}"@),
                ("[W]"@, "Layout"@),
                ("[C]"@, "Connect"@),
                ("[h/Lt]"@, "Log"@),
                ("[q]"@, "Quit"@),
            ],
        )
    }
}

/// The last line of the dashboard.
pub fn dashboard_footer(command_mode: bool) -> (r: Vec<Span>)
    ensures
        span_views(r@) == dashboard_footer_of(command_mode),
{
    if command_mode {
        let keys: Vec<(&'static str, &'static str)> = vec![
            ("[Space]", "Pause"),
            ("[m]", "Mute"),
            ("[Enter]", "Next"),
            ("[h/l]", "\u{b1}5s"),
            ("[j/k]", "\u{b1}60s"),
            ("[9/0]", "Vol"),
            ("[f]", "Full"),
            ("[v]", "Adv"),
            ("[Tab]", "Close"),
        ];
        let mut v: Vec<Span> = vec![
            bold_span("[CMD]", Color::Plain, true),
            span(" :: ", Color::Dim),
        ];
        proof {
            assert(span_views(v@) =~= seq![heavy("[CMD]"@, Color::Plain, true), sep(Color::Dim)]);
            assert(texts(keys@) =~= seq![
                ("[Space]"@, "Pause"@),
                ("[m]"@, "Mute"@),
                ("[Enter]"@, "Next"@),
                ("[h/l]"@, "\u{b1}5s"@),
                ("[j/k]"@, "\u{b1}60s"@),
                ("[9/0]"@, "Vol"@),
                ("[f]"@, "Full"@),
                ("[v]"@, "Adv"@),
                ("[Tab]"@, "Close"@),
            ]);
        }
        push_commands(&mut v, &keys);
        v
    } else {
        let keys: Vec<(&'static str, &'static str)> = vec![
            ("[l/Rt]", "Detail"),
            ("[r/R]", "Restart"),
            ("[S]", "Solo"),
            ("[M]", "Mute\u{2205}"),
            ("[P]", "Pause\u{2205}"),
            ("[W]", "Layout"),
            ("[C]", "Connect"),
            ("[h/Lt]", "Log"),
            ("[q]", "Quit"),
        ];
        let mut v: Vec<Span> = vec![span("[j/k]", Color::Dim), span(" Nav", Color::Dim)];
        proof {
            assert(span_views(v@) =~= seq![ink("[j/k]"@, Color::Dim), ink(" Nav"@, Color::Dim)]);
            assert(texts(keys@) =~= seq![
                ("[l/Rt]"@, "Detail"@),
                ("[r/R]"@, "Restart"@),
                ("[S]"@, "Solo"@),
                ("[M]"@, "Mute\u{2205}"@),
                ("[P]"@, "Pause\u{2205}"@),
                ("[W]"@, "Layout"@),
                ("[C]"@, "Connect"@),
                ("[h/Lt]"@, "Log"@),
                ("[q]"@, "Quit"@),
            ]);
        }
        push_hints(&mut v, &keys);
        v
    }
}

// ---------------------------------------------------------------------------
// Playlist screen
// ---------------------------------------------------------------------------

/// The first line of the playlist screen; nothing where no pane is selected.
pub open spec fn details_header_of(s: AppV) -> Option<Seq<SpanV>> {
    match selected_of(s) {
        Some(name) => {
            let p = board_get(s.panes, name);
            let pb = playback_or_offline(p);
            let vol = volume_or_offline(p);
            Some(
                seq![
                    ink("[PaneBot]"@, Color::Orange),
                    sep(Color::Dim),
                    heavy(shown_name(p, name), Color::White, true),
                    sep(Color::Dim),
                    ink(boxed(pb.0, 7), pb.1),
                    sep(Color::Dim),
                    ink(boxed(vol.0, 8), vol.1),
                    sep(Color::Dim),
                    ink(decimal(s.playlist_items.len() as int) + " items"@, Color::Dim),
                ],
            )
        },
        None => None,
    }
}

/// The first line of the playlist screen.
pub fn details_header(app: &App) -> (r: Option<Vec<Span>>)
    ensures
        match r {
            Some(v) => details_header_of(app.view()) == Some(span_views(v@)),
            None => details_header_of(app.view()) is None,
        },
{
    let name: String = match app.selected_name() {
        Some(n) => n,
        None => return None,
    };
    let p: Option<&PaneState> = get_state(&app.panes, name.as_str());
    assert(opt_state(p) == board_get(app.view().panes, name@));
    let (pb, pb_color): (&'static str, Color) = playback(p);
    let (vol, vol_color): (String, Color) = volume(p);
    let count: String = cat(decimal_of(app.playlist_items.len()).as_str(), " items");
    let v: Vec<Span> = vec![
        span("[PaneBot]", Color::Orange),
        span(" :: ", Color::Dim),
        bold_span(name_label(p, name.as_str()).as_str(), Color::White, true),
        span(" :: ", Color::Dim),
        span(in_box(pb, 7).as_str(), pb_color),
        span(" :: ", Color::Dim),
        span(in_box(vol.as_str(), 8).as_str(), vol_color),
        span(" :: ", Color::Dim),
        span(count.as_str(), Color::Dim),
    ];
    assert(span_views(v@) =~= details_header_of(app.view())->0);
    Some(v)
}

/// How many items are scrolled out at the top so that the selected one is seen.
pub open spec fn scroll_of(sel: int, height: int) -> int {
    if sel >= height {
        sel + 1 - height
    } else {
        0
    }
}

/// The row of one playlist item, which is shown as `text`.
pub open spec fn item_row_as(s: AppV, i: int, text: Seq<char>) -> RowV {
    let current = i == position_of(s);
    let sel = i == s.playlist_sel;
    let marked = s.selected_items.contains(i as usize);
    RowV {
        spans: seq![
            if sel {
                ink(">> "@, Color::Orange)
            } else {
                ink("   "@, Color::Plain)
            },
            if current {
                ink("* "@, Color::Green)
            } else if marked {
                ink("\u{2022} "@, Color::Orange)
            } else {
                ink("  "@, Color::Plain)
            },
            ink(
                padded(decimal(i), 4),
                if current || marked {
                    Color::Orange
                } else {
                    Color::Dim
                },
            ),
            sep(Color::Dim),
            ink(
                text,
                if current {
                    Color::Cyan
                } else if marked {
                    Color::White
                } else {
                    Color::Hint
                },
            ),
        ],
        selected: sel,
    }
}

/// The row of one playlist item.
pub open spec fn item_row(s: AppV, i: int) -> RowV {
    item_row_as(s, i, s.playlist_items[i])
}

/// The items that are seen in a list of this height.
pub open spec fn visible_count(len: int, sel: int, height: int) -> int {
    let off = scroll_of(sel, height);
    if off >= len {
        0
    } else {
        smaller(len - off, height)
    }
}

/// The first item that is seen, and how many are.
pub(crate) fn seen_items(len: usize, sel: usize, height: usize) -> (r: (usize, usize))
    ensures
        r.1 == visible_count(len as int, sel as int, height as int),
        r.1 > 0 ==> r.0 == scroll_of(sel as int, height as int) && r.0 + r.1 <= len,
{
    if height == 0 || sel > len && sel - len >= height {
        return (0, 0);
    }
    let off: usize = if sel >= height {
        sel - (height - 1)
    } else {
        0
    };
    let n: usize = if off >= len {
        0
    } else if len - off < height {
        len - off
    } else {
        height
    };
    (off, n)
}

/// The row of item `i`, which is shown as `text`.
pub(crate) fn item_line(app: &App, pos: i64, i: usize, text: &str) -> (r: Row)
    requires
        pos == position_of(app.view()),
    ensures
        r.view() == item_row_as(app.view(), i as int, text@),
{
    let current: bool = pos >= 0 && i as u64 == pos as u64;
    let is_sel: bool = i == app.playlist_sel;
    let marked: bool = crate::picks::is_marked(&app.selected_items, i);
    let cursor: Span = if is_sel {
        span(">> ", Color::Orange)
    } else {
        span("   ", Color::Plain)
    };
    let marker: Span = if current {
        span("* ", Color::Green)
    } else if marked {
        span("\u{2022} ", Color::Orange)
    } else {
        span("  ", Color::Plain)
    };
    let idx_color: Color = if current || marked {
        Color::Orange
    } else {
        Color::Dim
    };
    let txt_color: Color = if current {
        Color::Cyan
    } else if marked {
        Color::White
    } else {
        Color::Hint
    };
    let spans: Vec<Span> = vec![
        cursor,
        marker,
        span(pad_right(decimal_of(i).as_str(), 4).as_str(), idx_color),
        span(" :: ", Color::Dim),
        span(text, txt_color),
    ];
    let row: Row = Row { spans, selected: is_sel };
    assert(row.view().spans =~= item_row_as(app.view(), i as int, text@).spans);
    row
}

/// The rows of the playlist that are seen: as many as fit, with the selected one
/// among them.
pub fn details_rows(app: &App, height: usize) -> (r: Vec<Row>)
    ensures
        row_views(r@) == Seq::new(
            visible_count(
                app.view().playlist_items.len() as int,
                app.playlist_sel as int,
                height as int,
            ) as nat,
            |k: int|
                item_row(app.view(), scroll_of(app.playlist_sel as int, height as int) + k),
        ),
{
    let ghost s = app.view();
    let ghost top = scroll_of(app.playlist_sel as int, height as int);
    let pos: i64 = app.current_playlist_pos();
    let len: usize = app.playlist_items.len();
    let (off, n): (usize, usize) = seen_items(len, app.playlist_sel, height);
    let mut rows: Vec<Row> = Vec::new();
    for k in 0..n
        invariant
            s == app.view(),
            pos == position_of(s),
            len == app.playlist_items@.len(),
            n > 0 ==> off == top && off + n <= len,
            rows.len() == k,
            forall|j: int| 0 <= j < k ==> (#[trigger] rows@[j]).view() == item_row(s, top + j),
    {
        let i: usize = off + k;
        rows.push(item_line(app, pos, i, app.playlist_items[i].as_str()));
    }
    assert(row_views(rows@) =~= Seq::new(n as nat, |k: int| item_row(s, top + k)));
    rows
}

/// A prompt: what is asked for, what was typed, and how to go on.
pub open spec fn prompt(
    ask: Seq<char>,
    typed: Seq<char>,
    color: Color,
    rest: Seq<char>,
) -> Seq<SpanV> {
    seq![ink(ask, Color::Hint), heavy(typed, color, true), ink(rest, Color::Dim)]
}

/// Dim keys with what they do, separators between them.
pub open spec fn listed(v: Seq<(Seq<char>, Seq<char>)>) -> Seq<SpanV> {
    commands_dim(v).drop_last()
}

pub open spec fn commands_dim(v: Seq<(Seq<char>, Seq<char>)>) -> Seq<SpanV>
    decreases v.len(),
{
    if v.len() == 0 {
        Seq::empty()
    } else {
        commands_dim(v.drop_last()) + seq![
            ink(v.last().0, Color::Dim),
            ink(" "@ + v.last().1, Color::Dim),
            sep(Color::Orange),
        ]
    }
}

/// The keys of the playlist screen.
pub open spec fn browse_hints() -> Seq<(Seq<char>, Seq<char>)> {
    seq![
        ("[Spc]"@, "Mark"@),
        ("[Enter]"@, "Play"@),
        ("[n]"@, "Queue"@),
        ("[D]"@, "Del"@),
        ("[M]"@, "Move"@),
        ("[C]"@, "Crop"@),
        ("[A]"@, "Add"@),
        ("[S]"@, "Save"@),
        ("[G]"@, "Goto"@),
        ("[h/Lt]"@, "Back"@),
    ]
}

/// The keys of the player on the playlist screen.
pub open spec fn player_hints() -> Seq<(Seq<char>, Seq<char>)> {
    seq![
        ("[Space]"@, "Pause"@),
        ("[m]"@, "Mute"@),
        ("[Enter]"@, "Next"@),
        ("[h/l]"@, "\u{b1}5s"@),
        ("[j/k]"@, "\u{b1}60s"@),
        ("[9/0]"@, "Vol"@),
        ("[Tab]"@, "Close"@),
    ]
}

/// The last line of the playlist screen: what is being typed, else the message
/// there is, else the keys.
pub open spec fn details_footer_of(s: AppV) -> Seq<SpanV> {
    match s.details_mode {
        DetailsMode::Jump => prompt(
            "Jump to #: "@,
            s.jump_input,
            Color::Cyan,
            "  [Enter] Go  [Esc] Cancel"@,
        ),
        DetailsMode::Add => prompt(
            "Add: "@,
            s.add_input,
            Color::White,
            "  [Enter] Add  [Esc] Cancel"@,
        ),
        DetailsMode::Save => prompt(
            "Save as: "@,
            s.add_input,
            Color::White,
            ".m3u  [Enter] Save  [Esc] Cancel"@,
        ),
        DetailsMode::Search => prompt(
            "Search: "@,
            s.add_input,
            Color::White,
            "  [Enter] Find  [Esc] Cancel"@,
        ),
        DetailsMode::Normal => match s.status_msg {
            Some(m) => seq![heavy(m, Color::Red, true)],
            None => if s.command_mode {
                seq![heavy("[CMD]"@, Color::Orange, true), sep(Color::Orange)] + listed(
                    player_hints(),
                )
            } else {
                seq![ink("[j/k]"@, Color::Dim), ink(" Nav"@, Color::Dim)] + hints(browse_hints())
            },
        },
    }
}

fn ask(what: &str, typed: &str, color: Color, rest: &str) -> (r: Vec<Span>)
    ensures
        span_views(r@) == prompt(what@, typed@, color, rest@),
{
    let v: Vec<Span> = vec![
        span(what, Color::Hint),
        bold_span(typed, color, true),
        span(rest, Color::Dim),
    ];
    assert(span_views(v@) =~= prompt(what@, typed@, color, rest@));
    v
}

fn player_keys() -> (r: Vec<Span>)
    ensures
        span_views(r@) == seq![heavy("[CMD]"@, Color::Orange, true), sep(Color::Orange)] + listed(
            player_hints(),
        ),
{
    let keys: Vec<(&'static str, &'static str)> = vec![
        ("[Space]", "Pause"),
        ("[m]", "Mute"),
        ("[Enter]", "Next"),
        ("[h/l]", "\u{b1}5s"),
        ("[j/k]", "\u{b1}60s"),
        ("[9/0]", "Vol"),
        ("[Tab]", "Close"),
    ];
    let ghost all = player_hints();
    assert(texts(keys@) =~= all);
    let mut out: Vec<Span> = vec![
        bold_span("[CMD]", Color::Orange, true),
        span(" :: ", Color::Orange),
    ];
    let ghost start = span_views(out@);
    assert(start =~= seq![heavy("[CMD]"@, Color::Orange, true), sep(Color::Orange)]);
    assert(start + commands_dim(all.take(0)) =~= start);
    for i in 0..keys.len()
        invariant
            all == texts(keys@),
            span_views(out@) == start + commands_dim(all.take(i as int)),
    {
        proof {
            assert(all.take(i + 1).drop_last() =~= all.take(i as int));
            assert(all.take(i + 1).last() == all[i as int]);
        }
        let a: Span = span(keys[i].0, Color::Dim);
        let b: Span = span(cat(" ", keys[i].1).as_str(), Color::Dim);
        let c: Span = span(" :: ", Color::Orange);
        proof {
            lemma_spans_push(out@, a);
            lemma_spans_push(out@.push(a), b);
            lemma_spans_push(out@.push(a).push(b), c);
        }
        out.push(a);
        out.push(b);
        out.push(c);
        assert(span_views(out@) =~= start + commands_dim(all.take(i + 1)));
    }
    assert(all.take(all.len() as int) =~= all);
    let ghost full = out@;
    out.pop();
    proof {
        assert(commands_dim(all).len() > 0);
        assert(span_views(out@) =~= span_views(full).drop_last());
        assert(span_views(out@) =~= start + commands_dim(all).drop_last());
    }
    out
}

/// The last line of the playlist screen.
pub fn details_footer(app: &App) -> (r: Vec<Span>)
    ensures
        span_views(r@) == details_footer_of(app.view()),
{
    match app.details_mode {
        DetailsMode::Jump => ask(
            "Jump to #: ",
            app.jump_input.as_str(),
            Color::Cyan,
            "  [Enter] Go  [Esc] Cancel",
        ),
        DetailsMode::Add => ask(
            "Add: ",
            app.add_input.as_str(),
            Color::White,
            "  [Enter] Add  [Esc] Cancel",
        ),
        DetailsMode::Save => ask(
            "Save as: ",
            app.add_input.as_str(),
            Color::White,
            ".m3u  [Enter] Save  [Esc] Cancel",
        ),
        DetailsMode::Search => ask(
            "Search: ",
            app.add_input.as_str(),
            Color::White,
            "  [Enter] Find  [Esc] Cancel",
        ),
        DetailsMode::Normal => match &app.status_msg {
            Some(m) => {
                let v: Vec<Span> = vec![bold_span(m.as_str(), Color::Red, true)];
                assert(span_views(v@) =~= seq![heavy(m@, Color::Red, true)]);
                v
            },
            None => if app.command_mode {
                player_keys()
            } else {
                let keys: Vec<(&'static str, &'static str)> = vec![
                    ("[Spc]", "Mark"),
                    ("[Enter]", "Play"),
                    ("[n]", "Queue"),
                    ("[D]", "Del"),
                    ("[M]", "Move"),
                    ("[C]", "Crop"),
                    ("[A]", "Add"),
                    ("[S]", "Save"),
                    ("[G]", "Goto"),
                    ("[h/Lt]", "Back"),
                ];
                let mut v: Vec<Span> = vec![span("[j/k]", Color::Dim), span(" Nav", Color::Dim)];
                proof {
                    assert(span_views(v@) =~= seq![
                        ink("[j/k]"@, Color::Dim),
                        ink(" Nav"@, Color::Dim),
                    ]);
                    assert(texts(keys@) =~= browse_hints());
                }
                push_hints(&mut v, &keys);
                v
            },
        },
    }
}

// ---------------------------------------------------------------------------
// Log and hosts
// ---------------------------------------------------------------------------

/// A line of the log: the host and the time stand out where the line begins with
/// both in brackets.
pub open spec fn log_row(line: Seq<char>) -> Seq<SpanV> {
    let plain = seq![ink(line, Color::Dim)];
    if line.len() > 0 && line[0] == '[' {
        let rest = line.skip(1);
        match first_match(rest, "] ["@) {
            Some(mid) => {
                let tail = rest.skip(mid + 3);
                let end = first_index(tail, ']');
                if end < tail.len() {
                    seq![
                        ink("["@ + rest.take(mid) + "] "@, Color::Dim),
                        ink("["@ + tail.take(end) + "]"@, Color::Hint),
                        ink(tail.skip(end + 1), Color::Dim),
                    ]
                } else {
                    plain
                }
            },
            None => plain,
        }
    } else {
        plain
    }
}

fn log_spans(line: &str) -> (r: Vec<Span>)
    ensures
        span_views(r@) == log_row(line@),
{
    let n: usize = line.unicode_len();
    if first_char(line) == Some('[') {
        let rest: &str = line.substring_char(1, n);
        assert(rest@ =~= line@.skip(1));
        proof {
            reveal_strlit("] [");
            assert("] ["@.len() == 3);
        }
        if let Some(mid) = find_str(rest, "] [") {
            let tail: &str = rest.substring_char(mid + 3, n - 1);
            assert(tail@ =~= rest@.skip(mid + 3));
            let end: usize = find_char(tail, ']');
            let m: usize = tail.unicode_len();
            if end < m {
                let host: &str = rest.substring_char(0, mid);
                let time: &str = tail.substring_char(0, end);
                let msg: &str = tail.substring_char(end + 1, m);
                assert(host@ =~= rest@.take(mid as int));
                assert(time@ =~= tail@.take(end as int));
                assert(msg@ =~= tail@.skip(end + 1));
                let v: Vec<Span> = vec![
                    span(cat3("[", host, "] ").as_str(), Color::Dim),
                    span(cat3("[", time, "]").as_str(), Color::Hint),
                    span(msg, Color::Dim),
                ];
                assert(span_views(v@) =~= log_row(line@));
                return v;
            }
        }
    }
    let v: Vec<Span> = vec![span(line, Color::Dim)];
    assert(span_views(v@) =~= seq![ink(line@, Color::Dim)]);
    v
}

/// The end of a log that fits the screen.
pub open spec fn last_lines(log: Seq<char>, height: int) -> Seq<Seq<char>> {
    let all = lines(log);
    if all.len() <= height {
        all
    } else {
        all.skip(all.len() - height)
    }
}

/// The end of the log that fits the screen, the newest line last.
pub fn render_log_body(log: &str, height: usize) -> (r: Vec<Row>)
    ensures
        row_views(r@) == Seq::new(
            last_lines(log@, height as int).len(),
            |i: int|
                RowV { spans: log_row(last_lines(log@, height as int)[i]), selected: false },
        ),
{
    let ls: Vec<String> = split_lines(log);
    let ghost all = lines(log@);
    let ghost seen = last_lines(log@, height as int);
    let from: usize = if ls.len() <= height {
        0
    } else {
        ls.len() - height
    };
    assert(strs(ls@) == all);
    assert(all.len() == ls@.len());
    let mut rows: Vec<Row> = Vec::new();
    for i in from..ls.len()
        invariant
            strs(ls@) == all,
            all.len() == ls@.len(),
            from <= i,
            seen.len() == all.len() - from,
            forall|k: int| 0 <= k < seen.len() ==> seen[k] == all[k + from],
            rows.len() == i - from,
            forall|k: int|
                0 <= k < i - from ==> (#[trigger] rows@[k]).view() == (RowV {
                    spans: log_row(seen[k]),
                    selected: false,
                }),
    {
        assert(seen[i - from] == all[i as int]);
        assert(all[i as int] == ls@[i as int]@);
        rows.push(Row { spans: log_spans(ls[i].as_str()), selected: false });
    }
    assert(row_views(rows@) =~= Seq::new(
        seen.len(),
        |i: int| RowV { spans: log_row(seen[i]), selected: false },
    ));
    rows
}

/// The row of a host to connect to.
pub open spec fn host_row(h: HostV, sel: bool) -> RowV {
    RowV {
        spans: seq![
            if sel {
                ink(">> "@, Color::Orange)
            } else {
                ink("   "@, Color::Plain)
            },
            heavy(
                h.label,
                if sel {
                    Color::White
                } else {
                    Color::Hint
                },
                sel,
            ),
            sep(Color::Dim),
            ink(h.address, Color::Dim),
        ],
        selected: sel,
    }
}

/// The hosts to connect to.
pub fn render_host_picker(hosts: &Vec<Host>, sel: usize) -> (r: Vec<Row>)
    ensures
        row_views(r@) == Seq::new(
            hosts@.len(),
            |i: int| host_row(hosts@[i].view(), i == sel),
        ),
{
    let mut rows: Vec<Row> = Vec::new();
    for i in 0..hosts.len()
        invariant
            rows.len() == i,
            forall|k: int|
                0 <= k < i ==> (#[trigger] rows@[k]).view() == host_row(hosts@[k].view(), k == sel),
    {
        let on: bool = i == sel;
        let cursor: Span = if on {
            span(">> ", Color::Orange)
        } else {
            span("   ", Color::Plain)
        };
        let color: Color = if on {
            Color::White
        } else {
            Color::Hint
        };
        let spans: Vec<Span> = vec![
            cursor,
            bold_span(hosts[i].label.as_str(), color, on),
            span(" :: ", Color::Dim),
            span(hosts[i].address.as_str(), Color::Dim),
        ];
        let row: Row = Row { spans, selected: on };
        assert(row.view().spans =~= host_row(hosts@[i as int].view(), on).spans);
        rows.push(row);
    }
    assert(row_views(rows@) =~= Seq::new(
        hosts@.len(),
        |i: int| host_row(hosts@[i].view(), i == sel),
    ));
    rows
}

/// The selected item is always among those that are seen.
pub proof fn selected_item_is_seen(s: AppV, height: int)
    requires
        0 < height,
        s.playlist_sel < s.playlist_items.len(),
    ensures
        0 <= s.playlist_sel - scroll_of(s.playlist_sel as int, height) < visible_count(
            s.playlist_items.len() as int,
            s.playlist_sel as int,
            height,
        ),
{
}
/// The first line while a daemon is chosen.
pub fn host_picker_header() -> (r: Vec<Span>)
    ensures
        span_views(r@) == seq![
            ink("[PaneBot]"@, Color::Orange),
            sep(Color::Dim),
            ink("Select node to connect"@, Color::Hint),
        ],
{
    let v: Vec<Span> = vec![
        span("[PaneBot]", Color::Orange),
        span(" :: ", Color::Dim),
        span("Select node to connect", Color::Hint),
    ];
    assert(span_views(v@) =~= seq![
        ink("[PaneBot]"@, Color::Orange),
        sep(Color::Dim),
        ink("Select node to connect"@, Color::Hint),
    ]);
    v
}

/// The last line while a daemon is chosen.
pub fn host_picker_footer() -> (r: Vec<Span>)
    ensures
        span_views(r@) == seq![
            ink("[j/k] Select"@, Color::Dim),
            sep(Color::Orange),
            ink("[Enter] Connect"@, Color::Dim),
            sep(Color::Orange),
            ink("[q] Quit"@, Color::Dim),
        ],
{
    let v: Vec<Span> = vec![
        span("[j/k] Select", Color::Dim),
        span(" :: ", Color::Orange),
        span("[Enter] Connect", Color::Dim),
        span(" :: ", Color::Orange),
        span("[q] Quit", Color::Dim),
    ];
    assert(span_views(v@) =~= seq![
        ink("[j/k] Select"@, Color::Dim),
        sep(Color::Orange),
        ink("[Enter] Connect"@, Color::Dim),
        sep(Color::Orange),
        ink("[q] Quit"@, Color::Dim),
    ]);
    v
}

/// The line that is shown before a daemon is connected.
pub fn render_startup(status: &str) -> (r: Vec<Span>)
    ensures
        span_views(r@) == seq![
            ink("[PaneBot]"@, Color::Orange),
            sep(Color::Dim),
            ink(status@, Color::Hint),
        ],
{
    let v: Vec<Span> = vec![
        span("[PaneBot]", Color::Orange),
        span(" :: ", Color::Dim),
        span(status, Color::Hint),
    ];
    assert(span_views(v@) =~= seq![
        ink("[PaneBot]"@, Color::Orange),
        sep(Color::Dim),
        ink(status@, Color::Hint),
    ]);
    v
}


} // verus!
