//! Bringing the panes of a desk up: what to start each with, and how it went.
use crate::desk::{desk_file, pane_playlist_file, DeskPane, DeskPaneV};
use crate::keys::Key;
use crate::screen::{ink, row_views, sep, span, span_views, Color, Row, RowV, Span, SpanV};
use crate::text::{
    cat, cat3, find_str, first_match, is_empty, opt, pad_right, padded, strs, trim, trimmed, upper,
    uppercase,
};
use crate::tui::smaller;
use crate::tui_keys::shorter;
use vstd::prelude::*;
use vstd::utf8::encode_utf8;

verus! {

/// How often a started player is looked for before it counts as not started.
pub const START_ATTEMPTS: u32 = 16;

/// How long is waited between two looks.
pub const START_WAIT_MS: u64 = 200;

/// How a pane came up.
#[derive(Debug)]
pub struct StartupEntry {
    pub name: String,
    pub active: bool,
}

pub struct StartupEntryV {
    pub name: Seq<char>,
    pub active: bool,
}

impl StartupEntry {
    pub open spec fn view(&self) -> StartupEntryV {
        StartupEntryV { name: self.name@, active: self.active }
    }
}

pub open spec fn entry_views(v: Seq<StartupEntry>) -> Seq<StartupEntryV> {
    Seq::new(v.len(), |i: int| v[i].view())
}

/// What a player is started with.
#[derive(Debug)]
pub enum LaunchChoice {
    LastPlaylist,
    NewPlaylist(String),
    PaneDefault,
    Empty,
}

pub enum LaunchChoiceV {
    LastPlaylist,
    NewPlaylist(Seq<char>),
    PaneDefault,
    Empty,
}

impl LaunchChoice {
    pub open spec fn view(&self) -> LaunchChoiceV {
        match self {
            LaunchChoice::LastPlaylist => LaunchChoiceV::LastPlaylist,
            LaunchChoice::NewPlaylist(p) => LaunchChoiceV::NewPlaylist(p@),
            LaunchChoice::PaneDefault => LaunchChoiceV::PaneDefault,
            LaunchChoice::Empty => LaunchChoiceV::Empty,
        }
    }
}

/// The question what to start a player with.
#[derive(Debug)]
pub struct PromptState {
    pub has_stored: bool,
    pub has_default: bool,
    pub browsing: bool,
    pub browse_buf: String,
    pub completions: Vec<String>,
    pub comp_sel: usize,
}

pub struct PromptV {
    pub has_stored: bool,
    pub has_default: bool,
    pub browsing: bool,
    pub browse_buf: Seq<char>,
    pub completions: Seq<Seq<char>>,
    pub comp_sel: usize,
}

impl PromptState {
    pub open spec fn view(&self) -> PromptV {
        PromptV {
            has_stored: self.has_stored,
            has_default: self.has_default,
            browsing: self.browsing,
            browse_buf: self.browse_buf@,
            completions: strs(self.completions@),
            comp_sel: self.comp_sel,
        }
    }

    /// The chosen completion is one of them.
    pub open spec fn wf(&self) -> bool {
        self.completions@.len() == 0 || self.comp_sel < self.completions@.len()
    }

    /// The question for a pane: whether it has a stored playlist, and one of its own.
    pub fn new(has_stored: bool, has_default: bool) -> (r: PromptState)
        ensures
            r.wf(),
            r.view() == (PromptV {
                has_stored,
                has_default,
                browsing: false,
                browse_buf: Seq::empty(),
                completions: Seq::empty(),
                comp_sel: 0,
            }),
    {
        let r: PromptState = PromptState {
            has_stored,
            has_default,
            browsing: false,
            browse_buf: String::new(),
            completions: Vec::new(),
            comp_sel: 0,
        };
        assert(strs(r.completions@) =~= Seq::empty());
        r
    }
}

/// What follows a key.
#[derive(Debug)]
pub enum PromptMove {
    /// Go on asking.
    Stay,
    /// The completions of what is typed are wanted.
    Complete,
    /// The answer.
    Choose(LaunchChoice),
}

pub enum PromptMoveV {
    Stay,
    Complete,
    Choose(LaunchChoiceV),
}

impl PromptMove {
    pub open spec fn view(&self) -> PromptMoveV {
        match self {
            PromptMove::Stay => PromptMoveV::Stay,
            PromptMove::Complete => PromptMoveV::Complete,
            PromptMove::Choose(c) => PromptMoveV::Choose(c.view()),
        }
    }
}

/// The question after a key, and what follows.
pub open spec fn prompt_step(s: PromptV, k: Key) -> (PromptV, PromptMoveV) {
    let n = s.completions.len() as int;
    if s.browsing {
        match k {
            Key::Enter => (s, PromptMoveV::Choose(LaunchChoiceV::NewPlaylist(trimmed(s.browse_buf)))),
            Key::Esc => (
                PromptV { browsing: false, browse_buf: Seq::empty(), ..s },
                PromptMoveV::Stay,
            ),
            Key::Tab => if n == 0 {
                (s, PromptMoveV::Complete)
            } else {
                let i = if s.comp_sel + 1 < n {
                    s.comp_sel + 1
                } else {
                    0
                };
                (
                    PromptV { comp_sel: i as usize, browse_buf: s.completions[i], ..s },
                    PromptMoveV::Stay,
                )
            },
            Key::Backspace => (
                PromptV { browse_buf: shorter(s.browse_buf), ..s },
                PromptMoveV::Complete,
            ),
            Key::Char(c) => (
                PromptV { browse_buf: s.browse_buf.push(c), ..s },
                PromptMoveV::Complete,
            ),
            _ => (s, PromptMoveV::Stay),
        }
    } else if k == Key::Enter {
        (
            s,
            PromptMoveV::Choose(
                if s.has_stored {
                    LaunchChoiceV::LastPlaylist
                } else {
                    LaunchChoiceV::Empty
                },
            ),
        )
    } else if k == Key::Char('n') {
        (PromptV { browsing: true, browse_buf: Seq::empty(), ..s }, PromptMoveV::Stay)
    } else if k == Key::Char('e') {
        (s, PromptMoveV::Choose(LaunchChoiceV::Empty))
    } else if k == Key::Char('p') && s.has_default {
        (s, PromptMoveV::Choose(LaunchChoiceV::PaneDefault))
    } else {
        (s, PromptMoveV::Stay)
    }
}

/// Takes a key; says what follows.
pub fn prompt_key(state: &mut PromptState, k: Key) -> (r: PromptMove)
    requires
        old(state).wf(),
    ensures
        final(state).wf(),
        (final(state).view(), r.view()) == prompt_step(old(state).view(), k),
{
    let n: usize = state.completions.len();
    if state.browsing {
        return match k {
            Key::Enter => {
                let p: String = trim(state.browse_buf.as_str()).to_owned();
                PromptMove::Choose(LaunchChoice::NewPlaylist(p))
            },
            Key::Esc => {
                state.browsing = false;
                state.browse_buf = String::new();
                PromptMove::Stay
            },
            Key::Tab => {
                if n == 0 {
                    PromptMove::Complete
                } else {
                    let i: usize = if n - state.comp_sel > 1 {
                        state.comp_sel + 1
                    } else {
                        0
                    };
                    state.comp_sel = i;
                    state.browse_buf = state.completions[i].clone();
                    PromptMove::Stay
                }
            },
            Key::Backspace => {
                state.browse_buf.pop();
                PromptMove::Complete
            },
            Key::Char(c) => {
                state.browse_buf.push(c);
                PromptMove::Complete
            },
            _ => PromptMove::Stay,
        };
    }
    if k == Key::Enter {
        if state.has_stored {
            PromptMove::Choose(LaunchChoice::LastPlaylist)
        } else {
            PromptMove::Choose(LaunchChoice::Empty)
        }
    } else if k == Key::Char('n') {
        state.browsing = true;
        state.browse_buf = String::new();
        PromptMove::Stay
    } else if k == Key::Char('e') {
        PromptMove::Choose(LaunchChoice::Empty)
    } else if k == Key::Char('p') && state.has_default {
        PromptMove::Choose(LaunchChoice::PaneDefault)
    } else {
        PromptMove::Stay
    }
}

/// The completions of what is typed were found. After Tab the first is taken.
pub fn prompt_completed(state: &mut PromptState, found: Vec<String>, take: bool)
    requires
        old(state).wf(),
    ensures
        final(state).wf(),
        final(state).view() == (PromptV {
            completions: strs(found@),
            comp_sel: 0,
            browse_buf: if take && found@.len() > 0 {
                found@[0]@
            } else {
                old(state).browse_buf@
            },
            ..old(state).view()
        }),
{
    if take && found.len() > 0 {
        state.browse_buf = found[0].clone();
    }
    state.completions = found;
    state.comp_sel = 0;
}

/// The playlist that a choice means: the stored file, the typed path unless empty,
/// the pane's own, or none.
pub open spec fn chosen_playlist(c: LaunchChoiceV, p: DeskPaneV, stored: Seq<char>) -> Option<Seq<char>> {
    match c {
        LaunchChoiceV::LastPlaylist => Some(stored),
        LaunchChoiceV::PaneDefault => p.playlist,
        LaunchChoiceV::NewPlaylist(t) => if t.len() == 0 {
            None
        } else {
            Some(t)
        },
        LaunchChoiceV::Empty => None,
    }
}

/// The playlist that a choice means for a pane.
pub fn playlist_for(choice: &LaunchChoice, pane: &DeskPane, config: &str) -> (r: Option<String>)
    ensures
        opt(r) == chosen_playlist(
            choice.view(),
            pane.view(),
            desk_file(config@, pane.name@, ".m3u"@),
        ),
{
    match choice {
        LaunchChoice::LastPlaylist => Some(pane_playlist_file(config, pane.name.as_str())),
        LaunchChoice::PaneDefault => match &pane.playlist {
            Some(p) => Some(p.clone()),
            None => None,
        },
        LaunchChoice::NewPlaylist(t) => if is_empty(t.as_str()) {
            None
        } else {
            Some(t.clone())
        },
        LaunchChoice::Empty => None,
    }
}

/// Whether a player was seen within the attempts that it is given.
pub open spec fn came_up(looks: Seq<bool>) -> bool {
    exists|i: int| 0 <= i < looks.len() && i < START_ATTEMPTS && #[trigger] looks[i]
}

/// Whether a player was seen within the attempts that it is given; `looks` says of
/// each look in turn whether the player answered.
pub fn started(looks: &Vec<bool>) -> (r: bool)
    ensures
        r == came_up(looks@),
{
    let mut i: usize = 0;
    while i < looks.len() && i < START_ATTEMPTS as usize
        invariant
            i <= looks@.len(),
            i <= START_ATTEMPTS,
            forall|k: int| 0 <= k < i ==> !#[trigger] looks@[k],
        decreases looks@.len() - i,
    {
        if looks[i] {
            return true;
        }
        i = i + 1;
    }
    false
}

/// Whether a started player is looked for once more: it was not seen, and looks are
/// left.
pub fn keep_looking(looks: &Vec<bool>) -> (r: bool)
    ensures
        r == (!came_up(looks@) && looks@.len() < START_ATTEMPTS),
{
    !started(looks) && looks.len() < START_ATTEMPTS as usize
}

/// What follows a key once all panes were brought up.
#[derive(Clone, Copy, Debug, PartialEq, Eq, Structural)]
pub enum EndMove {
    Stay,
    /// Go on to the dashboard.
    Enter,
    Quit,
}

/// What follows a key once all panes were brought up.
pub open spec fn end_of(k: Key) -> EndMove {
    if k == Key::Enter || k == Key::Char(' ') {
        EndMove::Enter
    } else if k == Key::Char('q') {
        EndMove::Quit
    } else {
        EndMove::Stay
    }
}

/// What follows a key once all panes were brought up.
pub fn end_key(k: Key) -> (r: EndMove)
    ensures
        r == end_of(k),
{
    if k == Key::Enter || k == Key::Char(' ') {
        EndMove::Enter
    } else if k == Key::Char('q') {
        EndMove::Quit
    } else {
        EndMove::Stay
    }
}

// ---------------------------------------------------------------------------
// Screen
// ---------------------------------------------------------------------------

/// A name with its first letter in upper case.
pub open spec fn capital(name: Seq<char>) -> Seq<char> {
    if name.len() == 0 {
        " "@
    } else {
        uppercase(name.take(1)) + name.skip(1)
    }
}

/// What is said before the panes come up.
pub open spec fn boot_lines_of(layout: Seq<char>, conf_was_missing: bool) -> Seq<Seq<char>> {
    let first = seq!["[PaneBot] :: Checking Environment :: Done!"@];
    let news = if conf_was_missing {
        first.push("[PaneBot] :: No Panes Found! :: Creating Default Layout"@)
    } else {
        first
    };
    news + seq![
        "[PaneBot] :: Loading Our Layout :: \""@ + capital(layout) + "\""@,
        Seq::empty(),
        "[PaneBot] :: Bringin' The Panes ::"@,
    ]
}

/// What is said before the panes come up. The layout has a name.
pub fn boot_lines(layout: &str, conf_was_missing: bool) -> (r: Vec<String>)
    requires
        layout@.len() > 0,
    ensures
        strs(r@) == boot_lines_of(layout@, conf_was_missing),
{
    let n: usize = layout.unicode_len();
    let head: &str = layout.substring_char(0, 1);
    let tail: &str = layout.substring_char(1, n);
    assert(head@ =~= layout@.take(1));
    assert(tail@ =~= layout@.skip(1));
    let name: String = cat(upper(head).as_str(), tail);
    let loading: String = cat3("[PaneBot] :: Loading Our Layout :: \"", name.as_str(), "\"");
    let mut v: Vec<String> = vec!["[PaneBot] :: Checking Environment :: Done!".to_owned()];
    if conf_was_missing {
        v.push("[PaneBot] :: No Panes Found! :: Creating Default Layout".to_owned());
    }
    v.push(loading);
    v.push(String::new());
    v.push("[PaneBot] :: Bringin' The Panes ::".to_owned());
    assert(strs(v@) =~= boot_lines_of(layout@, conf_was_missing));
    v
}

/// The first line.
pub open spec fn header_of(complete: bool) -> Seq<SpanV> {
    if complete {
        seq![
            ink("[PaneBot]"@, Color::Orange),
            ink(" :: Startup Complete :: Press "@, Color::Hint),
            ink("[Enter]"@, Color::Cyan),
        ]
    } else {
        seq![
            ink("[PaneBot]"@, Color::Orange),
            ink("  ::  Starting Up .... ::"@, Color::Dim),
            ink(""@, Color::Plain),
        ]
    }
}

/// The first line.
pub fn startup_header(complete: bool) -> (r: Vec<Span>)
    ensures
        span_views(r@) == header_of(complete),
{
    let v: Vec<Span> = if complete {
        vec![
            span("[PaneBot]", Color::Orange),
            span(" :: Startup Complete :: Press ", Color::Hint),
            span("[Enter]", Color::Cyan),
        ]
    } else {
        vec![
            span("[PaneBot]", Color::Orange),
            span("  ::  Starting Up .... ::", Color::Dim),
            span("", Color::Plain),
        ]
    };
    assert(span_views(v@) =~= header_of(complete));
    v
}

/// A line cut in at most three parts at ` :: `.
pub open spec fn three_parts(line: Seq<char>) -> Seq<Seq<char>> {
    match first_match(line, " :: "@) {
        Some(i) => {
            let rest = line.skip(i + 4);
            match first_match(rest, " :: "@) {
                Some(j) => seq![line.take(i), rest.take(j), rest.skip(j + 4)],
                None => seq![line.take(i), rest],
            }
        },
        None => seq![line],
    }
}

/// A line that is said before the panes come up.
pub open spec fn boot_row(line: Seq<char>) -> Seq<SpanV> {
    let parts = three_parts(line);
    if line.len() == 0 {
        seq![ink(""@, Color::Plain)]
    } else if first_match(line, "Bringin' The Panes"@) is Some {
        seq![
            ink(":: "@, Color::Orange),
            ink("Bringin' The Panes "@, Color::Dim),
            ink("::"@, Color::Orange),
        ]
    } else {
        let two = seq![
            ink(parts[0], Color::Orange),
            sep(Color::Dim),
            ink(
                if parts.len() > 1 {
                    parts[1]
                } else {
                    Seq::empty()
                },
                Color::Hint,
            ),
        ];
        if parts.len() > 2 {
            two + seq![sep(Color::Dim), ink(parts[2], Color::Cyan)]
        } else {
            two
        }
    }
}

fn boot_spans(line: &str) -> (r: Vec<Span>)
    ensures
        span_views(r@) == boot_row(line@),
{
    let ghost want = boot_row(line@);
    if is_empty(line) {
        let v: Vec<Span> = vec![span("", Color::Plain)];
        assert(span_views(v@) =~= want);
        return v;
    }
    if find_str(line, "Bringin' The Panes").is_some() {
        let v: Vec<Span> = vec![
            span(":: ", Color::Orange),
            span("Bringin' The Panes ", Color::Dim),
            span("::", Color::Orange),
        ];
        assert(span_views(v@) =~= want);
        return v;
    }
    proof {
        reveal_strlit(" :: ");
        assert(" :: "@.len() == 4);
    }
    let n: usize = line.unicode_len();
    match find_str(line, " :: ") {
        Some(i) => {
            let first: &str = line.substring_char(0, i);
            let rest: &str = line.substring_char(i + 4, n);
            assert(first@ =~= line@.take(i as int));
            assert(rest@ =~= line@.skip(i + 4));
            let m: usize = rest.unicode_len();
            match find_str(rest, " :: ") {
                Some(j) => {
                    let second: &str = rest.substring_char(0, j);
                    let third: &str = rest.substring_char(j + 4, m);
                    assert(second@ =~= rest@.take(j as int));
                    assert(third@ =~= rest@.skip(j + 4));
                    let v: Vec<Span> = vec![
                        span(first, Color::Orange),
                        span(" :: ", Color::Dim),
                        span(second, Color::Hint),
                        span(" :: ", Color::Dim),
                        span(third, Color::Cyan),
                    ];
                    assert(span_views(v@) =~= want);
                    v
                },
                None => {
                    let v: Vec<Span> = vec![
                        span(first, Color::Orange),
                        span(" :: ", Color::Dim),
                        span(rest, Color::Hint),
                    ];
                    assert(span_views(v@) =~= want);
                    v
                },
            }
        },
        None => {
            let v: Vec<Span> = vec![
                span(line, Color::Orange),
                span(" :: ", Color::Dim),
                span("", Color::Hint),
            ];
            proof {
                reveal_strlit("");
                assert(""@ =~= Seq::<char>::empty());
            }
            assert(span_views(v@) =~= want);
            v
        },
    }
}

/// How wide the column of names is.
pub open spec fn name_width(entries: Seq<StartupEntryV>) -> int
    decreases entries.len(),
{
    if entries.len() == 0 {
        8
    } else {
        let w = smaller(encode_utf8(entries.last().name).len() as int + 2, usize::MAX as int);
        if entries.len() == 1 || name_width(entries.drop_last()) < w {
            w
        } else {
            name_width(entries.drop_last())
        }
    }
}

fn name_columns(entries: &Vec<StartupEntry>) -> (r: usize)
    ensures
        r == name_width(entry_views(entries@)),
{
    let ghost all = entry_views(entries@);
    let mut w: usize = 8;
    for i in 0..entries.len()
        invariant
            all == entry_views(entries@),
            w == name_width(all.take(i as int)),
    {
        proof {
            assert(all.take(i + 1).drop_last() =~= all.take(i as int));
            assert(all.take(i + 1).last() == entries@[i as int].view());
        }
        let n: usize = entries[i].name.as_str().as_bytes().len();
        let one: usize = if n < usize::MAX - 2 {
            n + 2
        } else {
            usize::MAX
        };
        if i == 0 || w < one {
            w = one;
        }
    }
    assert(all.take(all.len() as int) =~= all);
    w
}

/// The row of a pane that came up, or did not.
pub open spec fn entry_row(e: StartupEntryV, width: int) -> Seq<SpanV> {
    seq![
        ink("[PaneBot]"@, Color::Orange),
        sep(Color::Dim),
        ink(padded("\""@ + e.name + "\""@, width as nat), Color::Bright),
        sep(Color::Dim),
        if e.active {
            ink("[Active]"@, Color::Green)
        } else {
            ink("[Offline]"@, Color::Red)
        },
    ]
}

/// The rows of the screen: what was said first, then the panes.
pub open spec fn rows_of(boot: Seq<Seq<char>>, entries: Seq<StartupEntryV>) -> Seq<RowV> {
    Seq::new(boot.len(), |i: int| RowV { spans: boot_row(boot[i]), selected: false }) + Seq::new(
        entries.len(),
        |i: int| RowV { spans: entry_row(entries[i], name_width(entries)), selected: false },
    )
}

/// The rows of the screen.
pub fn render_startup_screen(boot: &Vec<String>, entries: &Vec<StartupEntry>) -> (r: Vec<Row>)
    ensures
        row_views(r@) == rows_of(strs(boot@), entry_views(entries@)),
{
    let ghost b = strs(boot@);
    let ghost e = entry_views(entries@);
    let width: usize = name_columns(entries);
    let mut rows: Vec<Row> = Vec::new();
    for i in 0..boot.len()
        invariant
            b == strs(boot@),
            rows.len() == i,
            forall|k: int|
                0 <= k < i ==> (#[trigger] rows@[k]).view() == (RowV {
                    spans: boot_row(b[k]),
                    selected: false,
                }),
    {
        assert(b[i as int] == boot@[i as int]@);
        rows.push(Row { spans: boot_spans(boot[i].as_str()), selected: false });
    }
    for i in 0..entries.len()
        invariant
            b == strs(boot@),
            e == entry_views(entries@),
            width == name_width(e),
            rows.len() == boot@.len() + i,
            forall|k: int|
                0 <= k < boot@.len() ==> (#[trigger] rows@[k]).view() == (RowV {
                    spans: boot_row(b[k]),
                    selected: false,
                }),
            forall|k: int|
                boot@.len() <= k < boot@.len() + i ==> (#[trigger] rows@[k]).view() == (RowV {
                    spans: entry_row(e[k - boot@.len()], name_width(e)),
                    selected: false,
                }),
    {
        let x: &StartupEntry = &entries[i];
        assert(e[i as int] == x.view());
        let name: String = cat3("\"", x.name.as_str(), "\"");
        let mark: Span = if x.active {
            span("[Active]", Color::Green)
        } else {
            span("[Offline]", Color::Red)
        };
        let spans: Vec<Span> = vec![
            span("[PaneBot]", Color::Orange),
            span(" :: ", Color::Dim),
            span(pad_right(name.as_str(), width).as_str(), Color::Bright),
            span(" :: ", Color::Dim),
            mark,
        ];
        assert(span_views(spans@) =~= entry_row(e[i as int], name_width(e)));
        rows.push(Row { spans, selected: false });
    }
    assert(row_views(rows@) =~= rows_of(b, e));
    rows
}

/// The line with the answers that can be given.
pub open spec fn options_of(s: PromptV) -> Seq<SpanV> {
    let base = seq![
        ink("  "@, Color::Plain),
        ink("[Enter]"@, Color::CmdKey),
        ink(
            " Last Playlist"@,
            if s.has_stored {
                Color::CmdHint
            } else {
                Color::Dim
            },
        ),
        ink("  ::  "@, Color::Dim),
        ink("[n]"@, Color::CmdKey),
        ink(" New Playlist"@, Color::CmdHint),
        ink("  ::  "@, Color::Dim),
        ink("[e]"@, Color::CmdKey),
        ink(" Empty Playlist"@, Color::CmdHint),
    ];
    if s.has_default {
        base + seq![
            ink("  ::  "@, Color::Dim),
            ink("[p]"@, Color::CmdKey),
            ink(" Pane Default"@, Color::CmdHint),
        ]
    } else {
        base
    }
}

/// The line with the path that is typed; none while none is.
pub open spec fn typed_of(s: PromptV) -> Option<Seq<SpanV>> {
    if s.browsing {
        Some(
            seq![
                ink("  Playlist: "@, Color::Hint),
                ink(s.browse_buf, Color::Bright),
                ink("_"@, Color::Orange),
            ],
        )
    } else {
        None
    }
}

/// The line with the path that is typed.
pub fn prompt_typed(state: &PromptState) -> (r: Option<Vec<Span>>)
    ensures
        match r {
            Some(v) => typed_of(state.view()) == Some(span_views(v@)),
            None => typed_of(state.view()) is None,
        },
{
    if !state.browsing {
        return None;
    }
    let v: Vec<Span> = vec![
        span("  Playlist: ", Color::Hint),
        span(state.browse_buf.as_str(), Color::Bright),
        span("_", Color::Orange),
    ];
    assert(span_views(v@) =~= typed_of(state.view())->0);
    Some(v)
}

/// The line with the answers that can be given.
pub fn prompt_options(state: &PromptState) -> (r: Vec<Span>)
    ensures
        span_views(r@) == options_of(state.view()),
{
    let last: Color = if state.has_stored {
        Color::CmdHint
    } else {
        Color::Dim
    };
    let mut v: Vec<Span> = vec![
        span("  ", Color::Plain),
        span("[Enter]", Color::CmdKey),
        span(" Last Playlist", last),
        span("  ::  ", Color::Dim),
        span("[n]", Color::CmdKey),
        span(" New Playlist", Color::CmdHint),
        span("  ::  ", Color::Dim),
        span("[e]", Color::CmdKey),
        span(" Empty Playlist", Color::CmdHint),
    ];
    if state.has_default {
        v.push(span("  ::  ", Color::Dim));
        v.push(span("[p]", Color::CmdKey));
        v.push(span(" Pane Default", Color::CmdHint));
    }
    assert(span_views(v@) =~= options_of(state.view()));
    v
}

// ---------------------------------------------------------------------------
// Laws
// ---------------------------------------------------------------------------

/// A pane is started with its own playlist only if it has one, and with the stored
/// one only if there is one.
pub proof fn offers_are_honest(s: PromptV, k: Key)
    ensures
        prompt_step(s, k).1 == PromptMoveV::Choose(LaunchChoiceV::PaneDefault) ==> s.has_default,
        prompt_step(s, k).1 == PromptMoveV::Choose(LaunchChoiceV::LastPlaylist) ==> s.has_stored,
{
}

} // verus!
