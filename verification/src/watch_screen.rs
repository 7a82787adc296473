//! What the screens of the watching terminal say.
use crate::screen::{
    boxed, bold_span, heavy, in_box, ink, lemma_spans_push, row_views, scroll_of, sep, span,
    span_views, texts, visible_count, Color, Row, RowV, Span, SpanV,
};
use crate::text::{
    after_last, cat, cat3, decimal, decimal_of, is_empty, pad_right, padded, same, strs, tail_after,
    trim_end_char, upper, uppercase, without_trailing,
};
use crate::tui::smaller;
use crate::watch::{
    doing, loudness, player_names, player_views, players_online, watch_position, watched, Player,
    PlayerV, Watch, WatchMode, WatchV,
};
use crate::watch_keys::{other_names, other_panes};
use vstd::prelude::*;
use vstd::utf8::encode_utf8;

verus! {

/// The first line of the dashboard.
pub open spec fn header_of(s: WatchV) -> Seq<SpanV> {
    seq![
        ink("[PaneBot]"@, Color::Orange),
        sep(Color::Dim),
        ink(
            "Active Panes: "@ + decimal(players_online(s.players)) + "/"@ + decimal(
                s.players.len() as int,
            ),
            Color::Hint,
        ),
        sep(Color::Dim),
        ink("Layout: "@ + s.layout, Color::Cyan),
        sep(Color::Dim),
        ink(s.hostname, Color::Dim),
    ]
}

/// The first line of the dashboard.
pub fn dashboard_header(app: &Watch) -> (r: Vec<Span>)
    ensures
        span_views(r@) == header_of(app.view()),
{
    let mut active: String = cat("Active Panes: ", decimal_of(app.active_count()).as_str());
    active.append("/");
    active.append(decimal_of(app.players.len()).as_str());
    let v: Vec<Span> = vec![
        span("[PaneBot]", Color::Orange),
        span(" :: ", Color::Dim),
        span(active.as_str(), Color::Hint),
        span(" :: ", Color::Dim),
        span(cat("Layout: ", app.layout.as_str()).as_str(), Color::Cyan),
        span(" :: ", Color::Dim),
        span(app.hostname.as_str(), Color::Dim),
    ];
    assert(span_views(v@) =~= header_of(app.view()));
    v
}

/// The lines of the log that fit the screen, the newest last.
pub open spec fn log_tail(log: Seq<Seq<SpanV>>, height: int) -> Seq<Seq<SpanV>> {
    if log.len() <= height {
        log
    } else {
        log.skip(log.len() - height)
    }
}

fn copy_spans(v: &Vec<Span>) -> (r: Vec<Span>)
    ensures
        span_views(r@) == span_views(v@),
{
    let mut out: Vec<Span> = Vec::new();
    for i in 0..v.len()
        invariant
            out.len() == i,
            forall|k: int| 0 <= k < i ==> (#[trigger] out@[k]).view() == v@[k].view(),
    {
        out.push(bold_span(v[i].text.as_str(), v[i].color, v[i].bold));
    }
    assert(span_views(out@) =~= span_views(v@));
    out
}

/// The lines of the log that fit the screen.
pub fn log_rows(app: &Watch, height: usize) -> (r: Vec<Row>)
    ensures
        row_views(r@) == Seq::new(
            log_tail(app.view().log, height as int).len(),
            |i: int| RowV { spans: log_tail(app.view().log, height as int)[i], selected: false },
        ),
{
    let ghost seen = log_tail(app.view().log, height as int);
    let n: usize = app.log.len();
    let from: usize = if n <= height {
        0
    } else {
        n - height
    };
    let mut rows: Vec<Row> = Vec::new();
    for i in from..n
        invariant
            n == app.log@.len(),
            from <= i,
            seen.len() == n - from,
            forall|k: int| 0 <= k < seen.len() ==> #[trigger] seen[k] == span_views(app.log@[k + from]@),
            rows.len() == i - from,
            forall|k: int|
                0 <= k < i - from ==> (#[trigger] rows@[k]).view() == (RowV {
                    spans: seen[k],
                    selected: false,
                }),
    {
        assert(seen[i - from] == span_views(app.log@[(i - from) + from]@));
        rows.push(Row { spans: copy_spans(&app.log[i]), selected: false });
    }
    assert(row_views(rows@) =~= Seq::new(
        seen.len(),
        |i: int| RowV { spans: seen[i], selected: false },
    ));
    rows
}

/// The widest of the texts, counted in bytes with `extra` added to each; `none`
/// where there are none.
pub open spec fn widest(v: Seq<Seq<char>>, extra: int, none: int) -> int
    decreases v.len(),
{
    if v.len() == 0 {
        none
    } else {
        let w = smaller(encode_utf8(v.last()).len() as int + extra, usize::MAX as int);
        if v.len() == 1 || widest(v.drop_last(), extra, none) < w {
            w
        } else {
            widest(v.drop_last(), extra, none)
        }
    }
}

/// The types of the players, in order.
pub open spec fn player_types(v: Seq<PlayerV>) -> Seq<Seq<char>> {
    Seq::new(v.len(), |i: int| v[i].pane_type)
}

fn columns(app: &Watch) -> (r: (usize, usize))
    ensures
        r.0 == widest(player_names(app.view().players), 2, 8),
        r.1 == widest(player_types(app.view().players), 0, 5),
{
    let ghost names = player_names(app.view().players);
    let ghost types = player_types(app.view().players);
    let mut a: usize = 8;
    let mut b: usize = 5;
    for i in 0..app.players.len()
        invariant
            names == player_names(player_views(app.players@)),
            types == player_types(player_views(app.players@)),
            a == widest(names.take(i as int), 2, 8),
            b == widest(types.take(i as int), 0, 5),
    {
        proof {
            assert(names.take(i + 1).drop_last() =~= names.take(i as int));
            assert(names.take(i + 1).last() == app.players@[i as int].name@);
            assert(types.take(i + 1).drop_last() =~= types.take(i as int));
            assert(types.take(i + 1).last() == app.players@[i as int].pane_type@);
        }
        let n: usize = app.players[i].name.as_str().as_bytes().len();
        let w: usize = if n < usize::MAX - 2 {
            n + 2
        } else {
            usize::MAX
        };
        if i == 0 || a < w {
            a = w;
        }
        let t: usize = app.players[i].pane_type.as_str().as_bytes().len();
        if i == 0 || b < t {
            b = t;
        }
    }
    proof {
        assert(names.take(names.len() as int) =~= names);
        assert(types.take(types.len() as int) =~= types);
    }
    (a, b)
}

/// The row of one pane.
pub open spec fn pane_row(s: WatchV, i: int) -> RowV {
    let p = s.players[i];
    let sel = i == s.selected;
    RowV {
        spans: seq![
            if sel {
                ink(":: "@, Color::Orange)
            } else {
                ink("   "@, Color::Plain)
            },
            heavy(
                padded(
                    "\""@ + uppercase(p.name) + "\""@,
                    widest(player_names(s.players), 2, 8) as nat,
                ),
                Color::White,
                sel,
            ),
            sep(Color::Dim),
            ink(
                boxed(uppercase(p.pane_type), widest(player_types(s.players), 0, 5) as nat),
                Color::Dim,
            ),
            sep(Color::Dim),
            ink(boxed(doing(p).0, 7), doing(p).1),
            sep(Color::Dim),
            ink(boxed(loudness(p).0, 8), loudness(p).1),
            sep(Color::Dim),
            ink(
                if p.title.len() == 0 {
                    "-"@
                } else {
                    p.title
                },
                Color::Cyan,
            ),
            if sel && s.command_mode {
                ink(" [CMD]"@, Color::Orange)
            } else {
                ink(""@, Color::Plain)
            },
        ],
        selected: sel,
    }
}

/// The rows of the dashboard: one for each pane, in order.
pub fn pane_rows(app: &Watch) -> (r: Vec<Row>)
    ensures
        row_views(r@) == Seq::new(app.view().players.len(), |i: int| pane_row(app.view(), i)),
{
    let ghost s = app.view();
    let (names, types): (usize, usize) = columns(app);
    let mut rows: Vec<Row> = Vec::new();
    for i in 0..app.players.len()
        invariant
            s == app.view(),
            names == widest(player_names(s.players), 2, 8),
            types == widest(player_types(s.players), 0, 5),
            rows.len() == i,
            forall|k: int| 0 <= k < i ==> (#[trigger] rows@[k]).view() == pane_row(s, k),
    {
        let p: &Player = &app.players[i];
        assert(s.players[i as int] == p.view());
        let sel: bool = i == app.selected;
        let (pb, pb_color): (&'static str, Color) = p.playback_label();
        let (vol, vol_color): (String, Color) = p.volume_label();
        let label: String = cat3("\"", upper(p.name.as_str()).as_str(), "\"");
        let title: &str = if is_empty(p.title.as_str()) {
            "-"
        } else {
            p.title.as_str()
        };
        let cursor: Span = if sel {
            span(":: ", Color::Orange)
        } else {
            span("   ", Color::Plain)
        };
        let badge: Span = if sel && app.command_mode {
            span(" [CMD]", Color::Orange)
        } else {
            span("", Color::Plain)
        };
        let spans: Vec<Span> = vec![
            cursor,
            bold_span(pad_right(label.as_str(), names).as_str(), Color::White, sel),
            span(" :: ", Color::Dim),
            span(in_box(upper(p.pane_type.as_str()).as_str(), types).as_str(), Color::Dim),
            span(" :: ", Color::Dim),
            span(in_box(pb, 7).as_str(), pb_color),
            span(" :: ", Color::Dim),
            span(in_box(vol.as_str(), 8).as_str(), vol_color),
            span(" :: ", Color::Dim),
            span(title, Color::Cyan),
            badge,
        ];
        let row: Row = Row { spans, selected: sel };
        assert(row.view().spans =~= pane_row(s, i as int).spans);
        rows.push(row);
    }
    assert(row_views(rows@) =~= Seq::new(s.players.len(), |i: int| pane_row(s, i)));
    rows
}

/// A row of a list to pick from.
pub open spec fn choice_row(text: Seq<char>, sel: bool, tail: Seq<SpanV>) -> RowV {
    RowV {
        spans: seq![
            ink(
                if sel {
                    ">> "@
                } else {
                    "   "@
                },
                Color::Plain,
            ),
            heavy(
                text,
                if sel {
                    Color::Cyan
                } else {
                    Color::Hint
                },
                sel,
            ),
        ] + tail,
        selected: sel,
    }
}

/// The row of one layout that is offered; the current one has a star.
pub open spec fn layout_row(s: WatchV, i: int) -> RowV {
    choice_row(
        s.layouts[i],
        i == s.picker_sel,
        seq![
            if s.layouts[i] == s.layout {
                ink(" *"@, Color::Orange)
            } else {
                ink(""@, Color::Plain)
            },
        ],
    )
}

/// The layouts that are offered.
pub fn layout_rows(app: &Watch) -> (r: Vec<Row>)
    ensures
        row_views(r@) == Seq::new(app.view().layouts.len(), |i: int| layout_row(app.view(), i)),
{
    let ghost s = app.view();
    let mut rows: Vec<Row> = Vec::new();
    for i in 0..app.layouts.len()
        invariant
            s == app.view(),
            rows.len() == i,
            forall|k: int| 0 <= k < i ==> (#[trigger] rows@[k]).view() == layout_row(s, k),
    {
        let name: &str = app.layouts[i].as_str();
        assert(s.layouts[i as int] == name@);
        let sel: bool = i == app.picker_sel;
        let cursor: &str = if sel {
            ">> "
        } else {
            "   "
        };
        let color: Color = if sel {
            Color::Cyan
        } else {
            Color::Hint
        };
        let star: Span = if same(name, app.layout.as_str()) {
            span(" *", Color::Orange)
        } else {
            span("", Color::Plain)
        };
        let spans: Vec<Span> = vec![span(cursor, Color::Plain), bold_span(name, color, sel), star];
        let row: Row = Row { spans, selected: sel };
        assert(row.view().spans =~= layout_row(s, i as int).spans);
        rows.push(row);
    }
    assert(row_views(rows@) =~= Seq::new(s.layouts.len(), |i: int| layout_row(s, i)));
    rows
}

/// The panes that an item can be sent to.
pub fn send_rows(app: &Watch) -> (r: Vec<Row>)
    ensures
        row_views(r@) == ({
            let names = other_names(player_names(app.view().players), watched(app.view()));
            Seq::new(
                names.len(),
                |i: int|
                    choice_row(uppercase(names[i]), i == app.send_picker_sel, Seq::empty()),
            )
        }),
{
    let others: Vec<String> = other_panes(app);
    let ghost names = strs(others@);
    let mut rows: Vec<Row> = Vec::new();
    for i in 0..others.len()
        invariant
            names == strs(others@),
            rows.len() == i,
            forall|k: int|
                0 <= k < i ==> (#[trigger] rows@[k]).view() == choice_row(
                    uppercase(names[k]),
                    k == app.send_picker_sel,
                    Seq::empty(),
                ),
    {
        assert(names[i as int] == others@[i as int]@);
        let sel: bool = i == app.send_picker_sel;
        let cursor: &str = if sel {
            ">> "
        } else {
            "   "
        };
        let color: Color = if sel {
            Color::Cyan
        } else {
            Color::Hint
        };
        let spans: Vec<Span> = vec![
            span(cursor, Color::Plain),
            bold_span(upper(others[i].as_str()).as_str(), color, sel),
        ];
        let row: Row = Row { spans, selected: sel };
        assert(row.view().spans =~= choice_row(
            uppercase(names[i as int]),
            sel,
            Seq::empty(),
        ).spans);
        rows.push(row);
    }
    assert(row_views(rows@) =~= Seq::new(
        names.len(),
        |i: int| choice_row(uppercase(names[i]), i == app.send_picker_sel, Seq::empty()),
    ));
    rows
}

// ---------------------------------------------------------------------------
// Footers
// ---------------------------------------------------------------------------

/// Keys with what they do, in one style, separators in another between them.
pub open spec fn keyed(
    v: Seq<(Seq<char>, Seq<char>)>,
    color: Color,
    bold: bool,
    between: Color,
) -> Seq<SpanV>
    decreases v.len(),
{
    if v.len() == 0 {
        Seq::empty()
    } else {
        let one = seq![heavy(v.last().0, color, bold), ink(" "@ + v.last().1, color)];
        if v.len() == 1 {
            one
        } else {
            keyed(v.drop_last(), color, bold, between) + seq![sep(between)] + one
        }
    }
}

pub(crate) fn push_keyed(
    out: &mut Vec<Span>,
    v: &Vec<(&'static str, &'static str)>,
    color: Color,
    bold: bool,
    between: Color,
)
    ensures
        span_views(final(out)@) == span_views(old(out)@) + keyed(texts(v@), color, bold, between),
{
    let ghost start = span_views(out@);
    let ghost all = texts(v@);
    assert(start + keyed(all.take(0), color, bold, between) =~= start);
    for i in 0..v.len()
        invariant
            all == texts(v@),
            span_views(out@) == start + keyed(all.take(i as int), color, bold, between),
    {
        proof {
            assert(all.take(i + 1).drop_last() =~= all.take(i as int));
            assert(all.take(i + 1).last() == all[i as int]);
        }
        let ghost before = out@;
        if i > 0 {
            let s: Span = span(" :: ", between);
            proof {
                lemma_spans_push(out@, s);
            }
            out.push(s);
        }
        let a: Span = bold_span(v[i].0, color, bold);
        let b: Span = span(cat(" ", v[i].1).as_str(), color);
        proof {
            lemma_spans_push(out@, a);
            lemma_spans_push(out@.push(a), b);
        }
        out.push(a);
        out.push(b);
        assert(span_views(out@) =~= start + keyed(all.take(i + 1), color, bold, between));
    }
    assert(all.take(all.len() as int) =~= all);
}

pub open spec fn command_hints() -> Seq<(Seq<char>, Seq<char>)> {
    seq![
        ("[Space]"@, "Play"@),
        ("[m]"@, "Mute"@),
        ("[up/dn]"@, "10s"@),
        ("[lt/rt]"@, "1m"@),
        ("[=/\u{2013}]"@, "Vol"@),
        ("[n/N]"@, "Skip"@),
        ("[f]"@, "Full"@),
        ("[R]"@, "Relaunch"@),
        ("[Tab]"@, "Close"@),
    ]
}

pub open spec fn dashboard_hints() -> Seq<(Seq<char>, Seq<char>)> {
    seq![
        ("[up/dn]"@, "Select"@),
        ("[Tab]"@, "Command"@),
        ("[L]"@, "Log"@),
        ("[W]"@, "Layout"@),
        ("[q]"@, "Quit"@),
    ]
}

/// The last line of the dashboard.
pub open spec fn dashboard_footer_of(command_mode: bool) -> Seq<SpanV> {
    if command_mode {
        seq![heavy("[CMD]"@, Color::Plain, true), sep(Color::Plain)] + keyed(
            command_hints(),
            Color::Plain,
            true,
            Color::Plain,
        )
    } else {
        keyed(dashboard_hints(), Color::Dim, false, Color::Orange)
    }
}

/// The last line of the dashboard.
pub fn dashboard_footer(command_mode: bool) -> (r: Vec<Span>)
    ensures
        span_views(r@) == dashboard_footer_of(command_mode),
{
    if command_mode {
        let keys: Vec<(&'static str, &'static str)> = vec![
            ("[Space]", "Play"),
            ("[m]", "Mute"),
            ("[up/dn]", "10s"),
            ("[lt/rt]", "1m"),
            ("[=/\u{2013}]", "Vol"),
            ("[n/N]", "Skip"),
            ("[f]", "Full"),
            ("[R]", "Relaunch"),
            ("[Tab]", "Close"),
        ];
        assert(texts(keys@) =~= command_hints());
        let mut v: Vec<Span> = vec![
            bold_span("[CMD]", Color::Plain, true),
            span(" :: ", Color::Plain),
        ];
        assert(span_views(v@) =~= seq![heavy("[CMD]"@, Color::Plain, true), sep(Color::Plain)]);
        push_keyed(&mut v, &keys, Color::Plain, true, Color::Plain);
        v
    } else {
        let keys: Vec<(&'static str, &'static str)> = vec![
            ("[up/dn]", "Select"),
            ("[Tab]", "Command"),
            ("[L]", "Log"),
            ("[W]", "Layout"),
            ("[q]", "Quit"),
        ];
        assert(texts(keys@) =~= dashboard_hints());
        let mut v: Vec<Span> = Vec::new();
        assert(span_views(v@) =~= Seq::empty());
        push_keyed(&mut v, &keys, Color::Dim, false, Color::Orange);
        assert(Seq::<SpanV>::empty() + keyed(dashboard_hints(), Color::Dim, false, Color::Orange)
            =~= keyed(dashboard_hints(), Color::Dim, false, Color::Orange));
        v
    }
}

pub open spec fn order_hints() -> Seq<(Seq<char>, Seq<char>)> {
    seq![
        ("[Enter]"@, "Play"@),
        ("[R]"@, "Remove"@),
        ("[S]"@, "Send"@),
        ("[Tab]"@, "Normal"@),
    ]
}

pub open spec fn browse_hints() -> Seq<(Seq<char>, Seq<char>)> {
    seq![
        ("[up/dn]"@, "Select"@),
        ("[j]"@, "Jump"@),
        ("[J]"@, "End"@),
        ("[n]"@, "Add"@),
        ("[C]"@, "Crop"@),
        ("[Tab]"@, "Cmd"@),
        ("[Esc]"@, "Back"@),
    ]
}

/// How many completions there are, in brackets; nothing where there is none.
pub open spec fn match_hint(n: int) -> Seq<char> {
    if n == 0 {
        ""@
    } else {
        " ["@ + decimal(n) + (if n == 1 {
            " match]"@
        } else {
            " matches]"@
        })
    }
}

/// The last line of the playlist screen.
pub open spec fn details_footer_of(s: WatchV) -> Seq<SpanV> {
    match s.details_mode {
        WatchMode::Jump => seq![
            ink("Jump to #: "@, Color::Hint),
            heavy(s.jump_input, Color::Cyan, true),
            ink("  [Enter] Go  [Esc] Cancel"@, Color::Dim),
        ],
        WatchMode::Add => seq![
            ink("Add: "@, Color::Hint),
            heavy(s.add_input, Color::White, true),
            ink(match_hint(s.add_completions.len() as int), Color::Dim),
        ],
        WatchMode::Send => seq![
            ink("[up/dn] Select pane"@, Color::Dim),
            sep(Color::Orange),
            ink("[Enter] Send"@, Color::Dim),
            sep(Color::Orange),
            ink("[Esc] Cancel"@, Color::Dim),
        ],
        WatchMode::Command => match s.status_msg {
            Some(m) => seq![heavy(m, Color::Red, true)],
            None => seq![heavy("[CMD]"@, Color::Orange, true), sep(Color::Dim)] + keyed(
                order_hints(),
                Color::Dim,
                false,
                Color::Orange,
            ),
        },
        WatchMode::Normal => match s.status_msg {
            Some(m) => seq![heavy(m, Color::Red, true)],
            None => keyed(browse_hints(), Color::Dim, false, Color::Orange),
        },
    }
}

fn order_keys_line() -> (r: Vec<Span>)
    ensures
        span_views(r@) == seq![heavy("[CMD]"@, Color::Orange, true), sep(Color::Dim)] + keyed(
            order_hints(),
            Color::Dim,
            false,
            Color::Orange,
        ),
{
    let keys: Vec<(&'static str, &'static str)> = vec![
        ("[Enter]", "Play"),
        ("[R]", "Remove"),
        ("[S]", "Send"),
        ("[Tab]", "Normal"),
    ];
    assert(texts(keys@) =~= order_hints());
    let mut v: Vec<Span> = vec![
        bold_span("[CMD]", Color::Orange, true),
        span(" :: ", Color::Dim),
    ];
    assert(span_views(v@) =~= seq![heavy("[CMD]"@, Color::Orange, true), sep(Color::Dim)]);
    push_keyed(&mut v, &keys, Color::Dim, false, Color::Orange);
    v
}

fn browse_keys_line() -> (r: Vec<Span>)
    ensures
        span_views(r@) == keyed(browse_hints(), Color::Dim, false, Color::Orange),
{
    let keys: Vec<(&'static str, &'static str)> = vec![
        ("[up/dn]", "Select"),
        ("[j]", "Jump"),
        ("[J]", "End"),
        ("[n]", "Add"),
        ("[C]", "Crop"),
        ("[Tab]", "Cmd"),
        ("[Esc]", "Back"),
    ];
    assert(texts(keys@) =~= browse_hints());
    let mut v: Vec<Span> = Vec::new();
    assert(span_views(v@) =~= Seq::empty());
    push_keyed(&mut v, &keys, Color::Dim, false, Color::Orange);
    assert(Seq::<SpanV>::empty() + keyed(browse_hints(), Color::Dim, false, Color::Orange) =~= keyed(
        browse_hints(),
        Color::Dim,
        false,
        Color::Orange,
    ));
    v
}

/// The last line of the playlist screen.
pub fn details_footer(app: &Watch) -> (r: Vec<Span>)
    ensures
        span_views(r@) == details_footer_of(app.view()),
{
    let ghost want = details_footer_of(app.view());
    match app.details_mode {
        WatchMode::Jump => {
            let v: Vec<Span> = vec![
                span("Jump to #: ", Color::Hint),
                bold_span(app.jump_input.as_str(), Color::Cyan, true),
                span("  [Enter] Go  [Esc] Cancel", Color::Dim),
            ];
            assert(span_views(v@) =~= want);
            v
        },
        WatchMode::Add => {
            let n: usize = app.add_completions.len();
            let hint: String = if n == 0 {
                "".to_owned()
            } else {
                let tail: &str = if n == 1 {
                    " match]"
                } else {
                    " matches]"
                };
                cat3(" [", decimal_of(n).as_str(), tail)
            };
            let v: Vec<Span> = vec![
                span("Add: ", Color::Hint),
                bold_span(app.add_input.as_str(), Color::White, true),
                span(hint.as_str(), Color::Dim),
            ];
            assert(span_views(v@) =~= want);
            v
        },
        WatchMode::Send => {
            let v: Vec<Span> = vec![
                span("[up/dn] Select pane", Color::Dim),
                span(" :: ", Color::Orange),
                span("[Enter] Send", Color::Dim),
                span(" :: ", Color::Orange),
                span("[Esc] Cancel", Color::Dim),
            ];
            assert(span_views(v@) =~= want);
            v
        },
        WatchMode::Command => match &app.status_msg {
            Some(m) => {
                let v: Vec<Span> = vec![bold_span(m.as_str(), Color::Red, true)];
                assert(span_views(v@) =~= want);
                v
            },
            None => order_keys_line(),
        },
        WatchMode::Normal => match &app.status_msg {
            Some(m) => {
                let v: Vec<Span> = vec![bold_span(m.as_str(), Color::Red, true)];
                assert(span_views(v@) =~= want);
                v
            },
            None => browse_keys_line(),
        },
    }
}

// ---------------------------------------------------------------------------
// Playlist screen
// ---------------------------------------------------------------------------

/// The first line of the playlist screen; nothing where no pane is selected.
pub open spec fn details_header_of(s: WatchV) -> Option<Seq<SpanV>> {
    if s.selected < s.players.len() {
        let p = s.players[s.selected as int];
        Some(
            seq![
                ink("[PaneBot]"@, Color::Orange),
                sep(Color::Dim),
                heavy("\""@ + uppercase(p.name) + "\""@, Color::White, true),
                sep(Color::Dim),
                ink("["@ + uppercase(p.pane_type) + "]"@, Color::Dim),
                sep(Color::Dim),
                ink(boxed(doing(p).0, 7), doing(p).1),
                sep(Color::Dim),
                ink(boxed(loudness(p).0, 8), loudness(p).1),
                sep(Color::Dim),
                ink(decimal(s.playlist_items.len() as int) + " items"@, Color::Dim),
            ],
        )
    } else {
        None
    }
}

/// The first line of the playlist screen.
pub fn details_header(app: &Watch) -> (r: Option<Vec<Span>>)
    ensures
        match r {
            Some(v) => details_header_of(app.view()) == Some(span_views(v@)),
            None => details_header_of(app.view()) is None,
        },
{
    if app.selected >= app.players.len() {
        return None;
    }
    let p: &Player = &app.players[app.selected];
    assert(app.view().players[app.selected as int] == p.view());
    let (pb, pb_color): (&'static str, Color) = p.playback_label();
    let (vol, vol_color): (String, Color) = p.volume_label();
    let name: String = cat3("\"", upper(p.name.as_str()).as_str(), "\"");
    let ptype: String = cat3("[", upper(p.pane_type.as_str()).as_str(), "]");
    let count: String = cat(decimal_of(app.playlist_items.len()).as_str(), " items");
    let v: Vec<Span> = vec![
        span("[PaneBot]", Color::Orange),
        span(" :: ", Color::Dim),
        bold_span(name.as_str(), Color::White, true),
        span(" :: ", Color::Dim),
        span(ptype.as_str(), Color::Dim),
        span(" :: ", Color::Dim),
        span(in_box(pb, 7).as_str(), pb_color),
        span(" :: ", Color::Dim),
        span(in_box(vol.as_str(), 8).as_str(), vol_color),
        span(" :: ", Color::Dim),
        span(count.as_str(), Color::Dim),
    ];
    assert(span_views(v@) =~= details_header_of(app.view())->0);
    Some(v)
}

/// What an entry goes by: its last segment, slashes at its end aside.
pub open spec fn entry_name(entry: Seq<char>) -> Seq<char> {
    after_last(without_trailing(entry, '/'), '/')
}

/// The row of one playlist item.
pub open spec fn item_row(s: WatchV, i: int) -> RowV {
    let current = i == watch_position(s);
    let sel = i == s.playlist_sel;
    RowV {
        spans: seq![
            if sel {
                ink(">> "@, Color::Orange)
            } else {
                ink("   "@, Color::Plain)
            },
            if current {
                ink("* "@, Color::Green)
            } else {
                ink("  "@, Color::Plain)
            },
            ink(
                padded(decimal(i), 4),
                if current {
                    Color::Orange
                } else {
                    Color::Dim
                },
            ),
            sep(Color::Dim),
            ink(
                entry_name(s.playlist_items[i]),
                if current {
                    Color::Cyan
                } else {
                    Color::Hint
                },
            ),
        ],
        selected: sel,
    }
}

/// The rows of the playlist that are seen.
pub fn details_rows(app: &Watch, height: usize) -> (r: Vec<Row>)
    ensures
        row_views(r@) == Seq::new(
            visible_count(
                app.view().playlist_items.len() as int,
                app.playlist_sel as int,
                height as int,
            ) as nat,
            |k: int|
                item_row(app.view(), scroll_of(app.playlist_sel as int, height as int) + k),
        ),
{
    let ghost s = app.view();
    let len: usize = app.playlist_items.len();
    let sel: usize = app.playlist_sel;
    let pos: i64 = app.current_playlist_pos();
    let mut rows: Vec<Row> = Vec::new();
    if height == 0 || sel > len && sel - len >= height {
        assert(visible_count(len as int, sel as int, height as int) == 0);
        assert(row_views(rows@) =~= Seq::new(
            0,
            |k: int| item_row(s, scroll_of(sel as int, height as int) + k),
        ));
        return rows;
    }
    let off: usize = if sel >= height {
        sel - (height - 1)
    } else {
        0
    };
    let n: usize = if off >= len {
        0
    } else if len - off < height {
        len - off
    } else {
        height
    };
    for k in 0..n
        invariant
            s == app.view(),
            len == app.playlist_items@.len(),
            sel == app.playlist_sel,
            pos == watch_position(s),
            off == scroll_of(sel as int, height as int),
            off + n <= len,
            rows.len() == k,
            forall|j: int| 0 <= j < k ==> (#[trigger] rows@[j]).view() == item_row(s, off + j),
    {
        let i: usize = off + k;
        let current: bool = pos >= 0 && i as u64 == pos as u64;
        let is_sel: bool = i == sel;
        let cursor: Span = if is_sel {
            span(">> ", Color::Orange)
        } else {
            span("   ", Color::Plain)
        };
        let marker: Span = if current {
            span("* ", Color::Green)
        } else {
            span("  ", Color::Plain)
        };
        let idx_color: Color = if current {
            Color::Orange
        } else {
            Color::Dim
        };
        let txt_color: Color = if current {
            Color::Cyan
        } else {
            Color::Hint
        };
        let entry: &str = tail_after(trim_end_char(app.playlist_items[i].as_str(), '/'), '/');
        let spans: Vec<Span> = vec![
            cursor,
            marker,
            span(pad_right(decimal_of(i).as_str(), 4).as_str(), idx_color),
            span(" :: ", Color::Dim),
            span(entry, txt_color),
        ];
        let row: Row = Row { spans, selected: is_sel };
        assert(row.view().spans =~= item_row(s, i as int).spans);
        rows.push(row);
    }
    assert(row_views(rows@) =~= Seq::new(
        visible_count(len as int, sel as int, height as int) as nat,
        |k: int| item_row(s, scroll_of(sel as int, height as int) + k),
    ));
    rows
}

} // verus!
