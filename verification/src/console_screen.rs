//! The playlist rows and the last lines of the terminal that edits playlist files.
use crate::screen::{
    bold_span, heavy, item_line, item_row_as, prompt, row_views, scroll_of, seen_items, sep, span,
    span_views, texts, visible_count, Color, Row, RowV, Span, SpanV,
};
use crate::text::{tail_after, trim_end_char};
use crate::tui::{position_of, App, AppV, DetailsMode};
use crate::watch_screen::{keyed, push_keyed, entry_name};
use vstd::prelude::*;

verus! {

/// The keys that go to the player on the dashboard.
pub open spec fn player_hints() -> Seq<(Seq<char>, Seq<char>)> {
    seq![
        ("[Space]"@, "Pause"@),
        ("[m]"@, "Mute"@),
        ("[\u{21b5}]"@, "Next"@),
        ("[h/l]"@, "\u{b1}5s"@),
        ("[j/k]"@, "\u{b1}60s"@),
        ("[9/0]"@, "Vol"@),
        ("[f]"@, "Full"@),
        ("[v]"@, "Adv"@),
        ("[Tab]"@, "Close"@),
    ]
}

/// The keys of the dashboard.
pub open spec fn home_hints() -> Seq<(Seq<char>, Seq<char>)> {
    seq![
        ("[j/k]"@, "Nav"@),
        ("[\u{21b5}]"@, "Detail"@),
        ("[r/R]"@, "Restart"@),
        ("[S]"@, "Solo"@),
        ("[M]"@, "Mute\u{2205}"@),
        ("[X/P]"@, "Stp/Ply"@),
        ("[W]"@, "Layout"@),
        ("[L]"@, "Log"@),
        ("[q]"@, "Quit"@),
    ]
}

/// The keys that go to the player on the playlist screen.
pub open spec fn list_player_hints() -> Seq<(Seq<char>, Seq<char>)> {
    seq![
        ("[Space]"@, "Pause"@),
        ("[m]"@, "Mute"@),
        ("[Enter]"@, "Next"@),
        ("[h/l]"@, "\u{b1}5s"@),
        ("[j/k]"@, "\u{b1}60s"@),
        ("[9/0]"@, "Vol"@),
        ("[Tab]"@, "Close"@),
    ]
}

/// The keys of the playlist screen.
pub open spec fn list_hints() -> Seq<(Seq<char>, Seq<char>)> {
    seq![
        ("[j/k]"@, "Nav"@),
        ("[Spc]"@, "Mark"@),
        ("[D]"@, "Del"@),
        ("[M]"@, "Move"@),
        ("[C]"@, "Crop"@),
        ("[A]"@, "Add"@),
        ("[S]"@, "Save"@),
        ("[G]"@, "Goto"@),
        ("[S-Spc]"@, "Play"@),
        ("[\u{21b5}]"@, "Back"@),
    ]
}

/// The last line of the dashboard.
pub open spec fn home_footer_of(command_mode: bool) -> Seq<SpanV> {
    if command_mode {
        seq![heavy("[CMD]"@, Color::Plain, true), sep(Color::Plain)] + keyed(
            player_hints(),
            Color::Plain,
            true,
            Color::Plain,
        )
    } else {
        keyed(home_hints(), Color::Dim, false, Color::Orange)
    }
}

/// The last line of the playlist screen.
pub open spec fn list_footer_of(s: AppV) -> Seq<SpanV> {
    if s.details_mode == DetailsMode::Jump {
        prompt("Jump to #: "@, s.jump_input, Color::Cyan, "  [Enter] Go  [Esc] Cancel"@)
    } else if s.details_mode == DetailsMode::Add {
        prompt("Add: "@, s.add_input, Color::White, "  [Enter] Add  [Esc] Cancel"@)
    } else {
        match s.status_msg {
            Some(m) => seq![heavy(m, Color::Red, true)],
            None => if s.command_mode {
                seq![heavy("[CMD]"@, Color::Orange, true), sep(Color::Dim)] + keyed(
                    list_player_hints(),
                    Color::Dim,
                    false,
                    Color::Orange,
                )
            } else {
                keyed(list_hints(), Color::Dim, false, Color::Orange)
            },
        }
    }
}

/// The row of one item of the playlist.
pub open spec fn list_row(s: AppV, i: int) -> RowV {
    item_row_as(s, i, entry_name(s.playlist_items[i]))
}

/// The rows of the playlist that are seen: as many as fit, with the selected one
/// among them.
pub fn list_rows(app: &App, height: usize) -> (r: Vec<Row>)
    ensures
        row_views(r@) == Seq::new(
            visible_count(
                app.view().playlist_items.len() as int,
                app.playlist_sel as int,
                height as int,
            ) as nat,
            |k: int|
                list_row(app.view(), scroll_of(app.playlist_sel as int, height as int) + k),
        ),
{
    let ghost s = app.view();
    let ghost top = scroll_of(app.playlist_sel as int, height as int);
    let pos: i64 = app.current_playlist_pos();
    let len: usize = app.playlist_items.len();
    let (off, n): (usize, usize) = seen_items(len, app.playlist_sel, height);
    let mut rows: Vec<Row> = Vec::new();
    for k in 0..n
        invariant
            s == app.view(),
            pos == position_of(s),
            len == app.playlist_items@.len(),
            n > 0 ==> off == top && off + n <= len,
            rows.len() == k,
            forall|j: int| 0 <= j < k ==> (#[trigger] rows@[j]).view() == list_row(s, top + j),
    {
        let i: usize = off + k;
        let shown: &str = tail_after(trim_end_char(app.playlist_items[i].as_str(), '/'), '/');
        rows.push(item_line(app, pos, i, shown));
    }
    assert(row_views(rows@) =~= Seq::new(n as nat, |k: int| list_row(s, top + k)));
    rows
}

fn dim_keys(keys: &Vec<(&'static str, &'static str)>) -> (r: Vec<Span>)
    ensures
        span_views(r@) == keyed(texts(keys@), Color::Dim, false, Color::Orange),
{
    let mut v: Vec<Span> = Vec::new();
    assert(span_views(v@) =~= Seq::empty());
    push_keyed(&mut v, keys, Color::Dim, false, Color::Orange);
    assert(Seq::<SpanV>::empty() + keyed(texts(keys@), Color::Dim, false, Color::Orange) =~= keyed(
        texts(keys@),
        Color::Dim,
        false,
        Color::Orange,
    ));
    v
}

/// The last line of the dashboard.
pub fn home_footer(command_mode: bool) -> (r: Vec<Span>)
    ensures
        span_views(r@) == home_footer_of(command_mode),
{
    if command_mode {
        let keys: Vec<(&'static str, &'static str)> = vec![
            ("[Space]", "Pause"),
            ("[m]", "Mute"),
            ("[\u{21b5}]", "Next"),
            ("[h/l]", "\u{b1}5s"),
            ("[j/k]", "\u{b1}60s"),
            ("[9/0]", "Vol"),
            ("[f]", "Full"),
            ("[v]", "Adv"),
            ("[Tab]", "Close"),
        ];
        assert(texts(keys@) =~= player_hints());
        let mut v: Vec<Span> = vec![
            bold_span("[CMD]", Color::Plain, true),
            span(" :: ", Color::Plain),
        ];
        assert(span_views(v@) =~= seq![heavy("[CMD]"@, Color::Plain, true), sep(Color::Plain)]);
        push_keyed(&mut v, &keys, Color::Plain, true, Color::Plain);
        v
    } else {
        let keys: Vec<(&'static str, &'static str)> = vec![
            ("[j/k]", "Nav"),
            ("[\u{21b5}]", "Detail"),
            ("[r/R]", "Restart"),
            ("[S]", "Solo"),
            ("[M]", "Mute\u{2205}"),
            ("[X/P]", "Stp/Ply"),
            ("[W]", "Layout"),
            ("[L]", "Log"),
            ("[q]", "Quit"),
        ];
        assert(texts(keys@) =~= home_hints());
        dim_keys(&keys)
    }
}

fn asked(what: &str, typed: &str, color: Color, rest: &str) -> (r: Vec<Span>)
    ensures
        span_views(r@) == prompt(what@, typed@, color, rest@),
{
    let v: Vec<Span> = vec![
        span(what, Color::Hint),
        bold_span(typed, color, true),
        span(rest, Color::Dim),
    ];
    assert(span_views(v@) =~= prompt(what@, typed@, color, rest@));
    v
}

/// The last line of the playlist screen.
pub fn list_footer(app: &App) -> (r: Vec<Span>)
    ensures
        span_views(r@) == list_footer_of(app.view()),
{
    if app.details_mode == DetailsMode::Jump {
        return asked(
            "Jump to #: ",
            app.jump_input.as_str(),
            Color::Cyan,
            "  [Enter] Go  [Esc] Cancel",
        );
    }
    if app.details_mode == DetailsMode::Add {
        return asked("Add: ", app.add_input.as_str(), Color::White, "  [Enter] Add  [Esc] Cancel");
    }
    match &app.status_msg {
        Some(m) => {
            let v: Vec<Span> = vec![bold_span(m.as_str(), Color::Red, true)];
            assert(span_views(v@) =~= seq![heavy(m@, Color::Red, true)]);
            v
        },
        None => if app.command_mode {
            let keys: Vec<(&'static str, &'static str)> = vec![
                ("[Space]", "Pause"),
                ("[m]", "Mute"),
                ("[Enter]", "Next"),
                ("[h/l]", "\u{b1}5s"),
                ("[j/k]", "\u{b1}60s"),
                ("[9/0]", "Vol"),
                ("[Tab]", "Close"),
            ];
            assert(texts(keys@) =~= list_player_hints());
            let mut v: Vec<Span> = vec![
                bold_span("[CMD]", Color::Orange, true),
                span(" :: ", Color::Dim),
            ];
            assert(span_views(v@) =~= seq![heavy("[CMD]"@, Color::Orange, true), sep(Color::Dim)]);
            push_keyed(&mut v, &keys, Color::Dim, false, Color::Orange);
            v
        } else {
            let keys: Vec<(&'static str, &'static str)> = vec![
                ("[j/k]", "Nav"),
                ("[Spc]", "Mark"),
                ("[D]", "Del"),
                ("[M]", "Move"),
                ("[C]", "Crop"),
                ("[A]", "Add"),
                ("[S]", "Save"),
                ("[G]", "Goto"),
                ("[S-Spc]", "Play"),
                ("[\u{21b5}]", "Back"),
            ];
            assert(texts(keys@) =~= list_hints());
            dim_keys(&keys)
        },
    }
}

} // verus!
