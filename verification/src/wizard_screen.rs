//! What the screens of the setup say.
use crate::ini::or_else;
use crate::screen::{ink, row_views, sep, span, span_views, Color, Row, RowV, Span, SpanV};
use crate::text::{after_last, cat, cat3, decimal, decimal_of, last_char, tail_after};
use crate::wizard::{WizardScreen, WizardState, WizardV};
use vstd::prelude::*;

verus! {

pub open spec fn line_views(v: Seq<Vec<Span>>) -> Seq<Seq<SpanV>> {
    Seq::new(v.len(), |i: int| span_views(v[i]@))
}

/// A line of dashes.
pub open spec fn dashes(n: int) -> Seq<char> {
    Seq::new(
        if n > 0 {
            n as nat
        } else {
            0
        },
        |i: int| '-',
    )
}

/// A line of dashes.
pub fn divider(width: usize) -> (r: String)
    ensures
        r@ == dashes(width as int),
{
    let mut s: String = String::new();
    let mut i: usize = 0;
    assert(s@ =~= dashes(0));
    while i < width
        invariant
            i <= width,
            s@ == dashes(i as int),
        decreases width - i,
    {
        s.push('-');
        i = i + 1;
        assert(s@ =~= dashes(i as int));
    }
    s
}

fn line1(a: Span) -> (r: Vec<Span>)
    ensures
        span_views(r@) == seq![a.view()],
{
    let v: Vec<Span> = vec![a];
    assert(span_views(v@) =~= seq![a.view()]);
    v
}

fn line2(a: Span, b: Span) -> (r: Vec<Span>)
    ensures
        span_views(r@) == seq![a.view(), b.view()],
{
    let v: Vec<Span> = vec![a, b];
    assert(span_views(v@) =~= seq![a.view(), b.view()]);
    v
}

fn line3(a: Span, b: Span, c: Span) -> (r: Vec<Span>)
    ensures
        span_views(r@) == seq![a.view(), b.view(), c.view()],
{
    let v: Vec<Span> = vec![a, b, c];
    assert(span_views(v@) =~= seq![a.view(), b.view(), c.view()]);
    v
}

/// An empty line.
pub open spec fn blank() -> Seq<SpanV> {
    seq![ink(""@, Color::Plain)]
}

/// A line with a rule across the screen.
pub open spec fn rule(width: int) -> Seq<SpanV> {
    seq![ink(dashes(width), Color::Divider)]
}

/// A question with what was typed.
pub open spec fn question(ask: Seq<char>, typed: Seq<char>) -> Seq<SpanV> {
    seq![ink(ask, Color::Hint), ink(typed, Color::Bright), ink("_"@, Color::Orange)]
}

/// A choice: its key, and what it means.
pub open spec fn choice(key: Seq<char>, meaning: Seq<char>) -> Seq<SpanV> {
    seq![ink(key, Color::CmdKey), ink(meaning, Color::Cyan)]
}

/// Which pane is being set up.
pub open spec fn pane_number(s: WizardV) -> Seq<char> {
    " [Pane #"@ + decimal(s.current as int) + "]"@
}

pub open spec fn named(s: WizardV) -> Seq<char> {
    pane_number(s) + " :: \""@ + s.name + "\""@
}

/// The size that was chosen.
pub open spec fn size_text(s: WizardV) -> Seq<char> {
    if s.width > 0 {
        decimal(s.width as int) + "x"@ + decimal(s.height as int)
    } else {
        "Dynamic"@
    }
}

/// The first line.
pub open spec fn header_of(s: WizardV) -> Seq<SpanV> {
    seq![
        ink("[PaneBot]"@, Color::Orange),
        ink(
            "  ::  New Pane Setup  ::  ["@ + decimal(s.current as int) + "/"@ + decimal(
                if s.total > 1 {
                    s.total as int
                } else {
                    1
                },
            ) + "] ::"@,
            Color::Dim,
        ),
    ]
}

pub open spec fn type_choices() -> Seq<Seq<SpanV>> {
    seq![
        choice("  [1]"@, " :: [Video]  - Playback from local/network filesystem"@),
        choice("  [2]"@, " :: [Audio]  - Music, podcasts, audio-only"@),
        choice("  [3]"@, " :: [HTTP]   - Hosted video / cloud / debrid streams"@),
        choice("  [4]"@, " :: [YTDLP]  - YouTube specific instance"@),
        choice("  [5]"@, " :: [RTSP]   - Live feeds, camera feeds"@),
    ]
}

pub open spec fn ratio_choices() -> Seq<Seq<SpanV>> {
    seq![
        choice("  [ 1]"@, " :: 16:9   (1.77:1)  - Standard Widescreen"@),
        choice("  [ 2]"@, " :: 9:16   (0.56:1)  - Vertical Video"@),
        choice("  [ 3]"@, " :: 4:3    (1.33:1)  - Classic Television"@),
        choice("  [ 4]"@, " :: 1:1    (1.0:1)   - Square"@),
        choice("  [ 5]"@, " :: 2.39:1 (2.4:1)   - Cinematic Widescreen"@),
        choice("  [ 6]"@, " :: 2:1    (2.0:1)   - Panoramic"@),
        choice("  [ 7]"@, " :: 4:5    (0.8:1)   - Portrait"@),
        choice("  [ 8]"@, " :: 3:2    (1.5:1)   - DSLR / Older Laptops"@),
        choice("  [ 9]"@, " :: 21:9   (2.33:1)  - Ultrawide"@),
        choice("  [ 0]"@, " :: 1.85:1            - Widescreen Motion Picture"@),
        choice("  [F1]"@, " :: 16:10  (1.6:1)   - Computer Monitors"@),
    ]
}

/// A title in orange, a rule, an empty line, and a heading.
pub open spec fn section(title: Seq<char>, heading: Seq<char>, width: int) -> Seq<Seq<SpanV>> {
    seq![
        blank(),
        seq![ink(title, Color::Orange)],
        rule(width),
        blank(),
        seq![ink(heading, Color::Hint)],
    ]
}

/// A title in orange, a rule, and an empty line.
pub open spec fn opening(title: Seq<char>, width: int) -> Seq<Seq<SpanV>> {
    seq![blank(), seq![ink(title, Color::Orange)], rule(width), blank()]
}

/// The pane that was described, in one line.
pub open spec fn summary(s: WizardV) -> Seq<SpanV> {
    seq![
        ink(" \""@ + s.name + "\""@, Color::Orange),
        sep(Color::Dim),
        ink("["@ + s.pane_type + "]"@, Color::Cyan),
        sep(Color::Dim),
        ink(size_text(s), Color::Pink),
        sep(Color::Dim),
        ink(or_else(s.geometry, "+0+0"@), Color::Hint),
        sep(Color::Dim),
        ink(or_else(s.playlist, "-"@), Color::Dim),
    ]
}

pub open spec fn confirm_keys() -> Seq<SpanV> {
    seq![
        ink(" [Enter]"@, Color::CmdKey),
        ink(" Confirm  ::  "@, Color::CmdHint),
        ink("[r]"@, Color::CmdKey),
        ink(" Redo  ::  "@, Color::CmdHint),
        ink("[q]"@, Color::CmdKey),
        ink(" Abort"@, Color::CmdHint),
    ]
}

/// The lines of the screen, before any error.
pub open spec fn body_of(s: WizardV, width: int) -> Seq<Seq<SpanV>> {
    match s.screen {
        WizardScreen::HowMany => seq![blank(), question(" How many panes? "@, s.input_buf)],
        WizardScreen::PaneName => seq![
            blank(),
            seq![ink(pane_number(s), Color::Orange)],
            rule(width),
            question(" Name?: "@, s.input_buf),
        ],
        WizardScreen::ContentType => section(named(s), " Content Type:"@, width) + type_choices(),
        WizardScreen::Geometry => section(
            named(s) + " :: ["@ + s.pane_type + "]"@,
            " Geometry:"@,
            width,
        ) + seq![
            choice("  [1]"@, " :: Dynamic  - Resizes with window"@),
            choice("  [2]"@, " :: Static   - Locked dimensions"@),
        ],
        WizardScreen::Width => opening(
            named(s) + " :: ["@ + s.pane_type + "] :: Static"@,
            width,
        ) + seq![question(" Width? (pixels): "@, s.input_buf)],
        WizardScreen::AspectRatio => section(
            named(s) + " :: "@ + decimal(s.width as int) + "px wide"@,
            " Aspect Ratio:"@,
            width,
        ) + ratio_choices(),
        WizardScreen::ScreenPosition => section(
            named(s) + " :: "@ + size_text(s),
            " Screen Position:"@,
            width,
        ) + seq![
            choice("  [1]"@, " :: Top Left"@),
            choice("  [2]"@, " :: Custom Value  (see dox)"@),
        ],
        WizardScreen::TileWith => section(
            named(s) + " :: "@ + size_text(s),
            " Tile With Previous Pane?:"@,
            width,
        ) + seq![
            choice("  [1]"@, " :: Horizontally"@),
            choice("  [2]"@, " :: Vertically"@),
            choice("  [3]"@, " :: Custom Position"@),
        ],
        WizardScreen::DefaultPlaylist => opening(
            named(s) + " :: "@ + size_text(s) + " :: "@ + or_else(s.geometry, "+0+0"@),
            width,
        ) + seq![
            seq![
                ink(" Configure Default Playlist?: "@, Color::Hint),
                ink("[y/n]"@, Color::CmdKey),
                ink("_"@, Color::Orange),
            ],
        ],
        WizardScreen::BrowsePlaylist => opening(named(s) + " :: Default Playlist"@, width) + seq![
            question(" Browse: "@, s.input_buf),
            seq![
                ink("  [Tab] complete  ::  [Enter] confirm  ::  [Esc] skip"@, Color::Dim),
            ],
        ],
        WizardScreen::Confirm => seq![
            blank(),
            seq![ink(" Create This Pane?"@, Color::Hint)],
            blank(),
            summary(s),
            blank(),
            confirm_keys(),
        ],
    }
}

/// The lines of the screen; an error comes last, behind an empty line.
pub open spec fn lines_of(s: WizardV, width: int) -> Seq<Seq<SpanV>> {
    match s.error {
        Some(e) => body_of(s, width) + seq![blank(), seq![ink(" ! "@ + e, Color::Red)]],
        None => body_of(s, width),
    }
}

// ---------------------------------------------------------------------------
// Executable counterparts
// ---------------------------------------------------------------------------

/// The first line.
pub fn wizard_header(state: &WizardState) -> (r: Vec<Span>)
    ensures
        span_views(r@) == header_of(state.view()),
{
    let total: usize = if state.total > 1 {
        state.total
    } else {
        1
    };
    let mut t: String = cat3(
        "  ::  New Pane Setup  ::  [",
        decimal_of(state.current).as_str(),
        "/",
    );
    t.append(decimal_of(total).as_str());
    t.append("] ::");
    line2(span("[PaneBot]", Color::Orange), span(t.as_str(), Color::Dim))
}

/// The last line.
pub fn wizard_footer() -> (r: Vec<Span>)
    ensures
        span_views(r@) == seq![ink("[q]"@, Color::Cyan), ink(" Abort wizard"@, Color::Hint)],
{
    line2(span("[q]", Color::Cyan), span(" Abort wizard", Color::Hint))
}

fn blank_line() -> (r: Vec<Span>)
    ensures
        span_views(r@) == blank(),
{
    line1(span("", Color::Plain))
}

fn ask_line(ask: &str, typed: &str) -> (r: Vec<Span>)
    ensures
        span_views(r@) == question(ask@, typed@),
{
    line3(span(ask, Color::Hint), span(typed, Color::Bright), span("_", Color::Orange))
}

fn choice_line(key: &str, meaning: &str) -> (r: Vec<Span>)
    ensures
        span_views(r@) == choice(key@, meaning@),
{
    line2(span(key, Color::CmdKey), span(meaning, Color::Cyan))
}

fn named_text(state: &WizardState) -> (r: String)
    ensures
        r@ == named(state.view()),
{
    let mut t: String = number_text(state);
    t.append(" :: \"");
    t.append(state.name.as_str());
    t.append("\"");
    t
}

fn number_text(state: &WizardState) -> (r: String)
    ensures
        r@ == pane_number(state.view()),
{
    cat3(" [Pane #", decimal_of(state.current).as_str(), "]")
}

fn size_of_pane(state: &WizardState) -> (r: String)
    ensures
        r@ == size_text(state.view()),
{
    if state.width > 0 {
        cat3(
            decimal_of(state.width as usize).as_str(),
            "x",
            decimal_of(state.height as usize).as_str(),
        )
    } else {
        "Dynamic".to_owned()
    }
}

fn open_lines(title: &str, width: usize) -> (r: Vec<Vec<Span>>)
    ensures
        line_views(r@) == opening(title@, width as int),
{
    let v: Vec<Vec<Span>> = vec![
        blank_line(),
        line1(span(title, Color::Orange)),
        line1(span(divider(width).as_str(), Color::Divider)),
        blank_line(),
    ];
    assert(line_views(v@) =~= opening(title@, width as int));
    v
}

fn section_lines(title: &str, heading: &str, width: usize) -> (r: Vec<Vec<Span>>)
    ensures
        line_views(r@) == section(title@, heading@, width as int),
{
    let v: Vec<Vec<Span>> = vec![
        blank_line(),
        line1(span(title, Color::Orange)),
        line1(span(divider(width).as_str(), Color::Divider)),
        blank_line(),
        line1(span(heading, Color::Hint)),
    ];
    assert(line_views(v@) =~= section(title@, heading@, width as int));
    v
}

proof fn lemma_lines_add(a: Seq<Vec<Span>>, b: Seq<Vec<Span>>)
    ensures
        line_views(a + b) == line_views(a) + line_views(b),
{
    assert(line_views(a + b) =~= line_views(a) + line_views(b));
}

fn joined_lines(a: Vec<Vec<Span>>, b: Vec<Vec<Span>>) -> (r: Vec<Vec<Span>>)
    ensures
        line_views(r@) == line_views(a@) + line_views(b@),
{
    let mut out: Vec<Vec<Span>> = a;
    let mut more: Vec<Vec<Span>> = b;
    proof {
        lemma_lines_add(out@, more@);
    }
    out.append(&mut more);
    out
}

fn type_lines() -> (r: Vec<Vec<Span>>)
    ensures
        line_views(r@) == type_choices(),
{
    let v: Vec<Vec<Span>> = vec![
        choice_line("  [1]", " :: [Video]  - Playback from local/network filesystem"),
        choice_line("  [2]", " :: [Audio]  - Music, podcasts, audio-only"),
        choice_line("  [3]", " :: [HTTP]   - Hosted video / cloud / debrid streams"),
        choice_line("  [4]", " :: [YTDLP]  - YouTube specific instance"),
        choice_line("  [5]", " :: [RTSP]   - Live feeds, camera feeds"),
    ];
    assert(line_views(v@) =~= type_choices());
    v
}

fn ratio_lines() -> (r: Vec<Vec<Span>>)
    ensures
        line_views(r@) == ratio_choices(),
{
    let v: Vec<Vec<Span>> = vec![
        choice_line("  [ 1]", " :: 16:9   (1.77:1)  - Standard Widescreen"),
        choice_line("  [ 2]", " :: 9:16   (0.56:1)  - Vertical Video"),
        choice_line("  [ 3]", " :: 4:3    (1.33:1)  - Classic Television"),
        choice_line("  [ 4]", " :: 1:1    (1.0:1)   - Square"),
        choice_line("  [ 5]", " :: 2.39:1 (2.4:1)   - Cinematic Widescreen"),
        choice_line("  [ 6]", " :: 2:1    (2.0:1)   - Panoramic"),
        choice_line("  [ 7]", " :: 4:5    (0.8:1)   - Portrait"),
        choice_line("  [ 8]", " :: 3:2    (1.5:1)   - DSLR / Older Laptops"),
        choice_line("  [ 9]", " :: 21:9   (2.33:1)  - Ultrawide"),
        choice_line("  [ 0]", " :: 1.85:1            - Widescreen Motion Picture"),
        choice_line("  [F1]", " :: 16:10  (1.6:1)   - Computer Monitors"),
    ];
    assert(line_views(v@) =~= ratio_choices());
    v
}

fn geometry_text_of(state: &WizardState) -> (r: String)
    ensures
        r@ == or_else(state.view().geometry, "+0+0"@),
{
    match &state.geometry {
        Some(g) => g.clone(),
        None => "+0+0".to_owned(),
    }
}

fn confirm_lines(state: &WizardState) -> (r: Vec<Vec<Span>>)
    ensures
        line_views(r@) == seq![
            blank(),
            seq![ink(" Create This Pane?"@, Color::Hint)],
            blank(),
            summary(state.view()),
            blank(),
            confirm_keys(),
        ],
{
    let playlist: String = match &state.playlist {
        Some(p) => p.clone(),
        None => "-".to_owned(),
    };
    let about: Vec<Span> = vec![
        span(cat3(" \"", state.name.as_str(), "\"").as_str(), Color::Orange),
        span(" :: ", Color::Dim),
        span(cat3("[", state.pane_type.as_str(), "]").as_str(), Color::Cyan),
        span(" :: ", Color::Dim),
        span(size_of_pane(state).as_str(), Color::Pink),
        span(" :: ", Color::Dim),
        span(geometry_text_of(state).as_str(), Color::Hint),
        span(" :: ", Color::Dim),
        span(playlist.as_str(), Color::Dim),
    ];
    assert(span_views(about@) =~= summary(state.view()));
    let keys: Vec<Span> = vec![
        span(" [Enter]", Color::CmdKey),
        span(" Confirm  ::  ", Color::CmdHint),
        span("[r]", Color::CmdKey),
        span(" Redo  ::  ", Color::CmdHint),
        span("[q]", Color::CmdKey),
        span(" Abort", Color::CmdHint),
    ];
    assert(span_views(keys@) =~= confirm_keys());
    let v: Vec<Vec<Span>> = vec![
        blank_line(),
        line1(span(" Create This Pane?", Color::Hint)),
        blank_line(),
        about,
        blank_line(),
        keys,
    ];
    assert(line_views(v@) =~= seq![
        blank(),
        seq![ink(" Create This Pane?"@, Color::Hint)],
        blank(),
        summary(state.view()),
        blank(),
        confirm_keys(),
    ]);
    v
}

fn body_lines(state: &WizardState, width: usize) -> (r: Vec<Vec<Span>>)
    ensures
        line_views(r@) == body_of(state.view(), width as int),
{
    let ghost want = body_of(state.view(), width as int);
    let mut title: String = named_text(state);
    match state.screen {
        WizardScreen::HowMany => {
            let v: Vec<Vec<Span>> = vec![
                blank_line(),
                ask_line(" How many panes? ", state.input_buf.as_str()),
            ];
            assert(line_views(v@) =~= want);
            v
        },
        WizardScreen::PaneName => {
            let v: Vec<Vec<Span>> = vec![
                blank_line(),
                line1(span(number_text(state).as_str(), Color::Orange)),
                line1(span(divider(width).as_str(), Color::Divider)),
                ask_line(" Name?: ", state.input_buf.as_str()),
            ];
            assert(line_views(v@) =~= want);
            v
        },
        WizardScreen::ContentType => joined_lines(
            section_lines(title.as_str(), " Content Type:", width),
            type_lines(),
        ),
        WizardScreen::Geometry => {
            title.append(" :: [");
            title.append(state.pane_type.as_str());
            title.append("]");
            let v: Vec<Vec<Span>> = vec![
                choice_line("  [1]", " :: Dynamic  - Resizes with window"),
                choice_line("  [2]", " :: Static   - Locked dimensions"),
            ];
            assert(line_views(v@) =~= seq![
                choice("  [1]"@, " :: Dynamic  - Resizes with window"@),
                choice("  [2]"@, " :: Static   - Locked dimensions"@),
            ]);
            joined_lines(section_lines(title.as_str(), " Geometry:", width), v)
        },
        WizardScreen::Width => {
            title.append(" :: [");
            title.append(state.pane_type.as_str());
            title.append("] :: Static");
            let v: Vec<Vec<Span>> = vec![
                ask_line(" Width? (pixels): ", state.input_buf.as_str()),
            ];
            assert(line_views(v@) =~= seq![question(" Width? (pixels): "@, state.input_buf@)]);
            joined_lines(open_lines(title.as_str(), width), v)
        },
        WizardScreen::AspectRatio => {
            title.append(" :: ");
            title.append(decimal_of(state.width as usize).as_str());
            title.append("px wide");
            joined_lines(section_lines(title.as_str(), " Aspect Ratio:", width), ratio_lines())
        },
        WizardScreen::ScreenPosition => {
            title.append(" :: ");
            title.append(size_of_pane(state).as_str());
            let v: Vec<Vec<Span>> = vec![
                choice_line("  [1]", " :: Top Left"),
                choice_line("  [2]", " :: Custom Value  (see dox)"),
            ];
            assert(line_views(v@) =~= seq![
                choice("  [1]"@, " :: Top Left"@),
                choice("  [2]"@, " :: Custom Value  (see dox)"@),
            ]);
            joined_lines(section_lines(title.as_str(), " Screen Position:", width), v)
        },
        WizardScreen::TileWith => {
            title.append(" :: ");
            title.append(size_of_pane(state).as_str());
            let v: Vec<Vec<Span>> = vec![
                choice_line("  [1]", " :: Horizontally"),
                choice_line("  [2]", " :: Vertically"),
                choice_line("  [3]", " :: Custom Position"),
            ];
            assert(line_views(v@) =~= seq![
                choice("  [1]"@, " :: Horizontally"@),
                choice("  [2]"@, " :: Vertically"@),
                choice("  [3]"@, " :: Custom Position"@),
            ]);
            joined_lines(section_lines(title.as_str(), " Tile With Previous Pane?:", width), v)
        },
        WizardScreen::DefaultPlaylist => {
            title.append(" :: ");
            title.append(size_of_pane(state).as_str());
            title.append(" :: ");
            title.append(geometry_text_of(state).as_str());
            let v: Vec<Vec<Span>> = vec![
                line3(
                    span(" Configure Default Playlist?: ", Color::Hint),
                    span("[y/n]", Color::CmdKey),
                    span("_", Color::Orange),
                ),
            ];
            assert(line_views(v@) =~= seq![
                seq![
                    ink(" Configure Default Playlist?: "@, Color::Hint),
                    ink("[y/n]"@, Color::CmdKey),
                    ink("_"@, Color::Orange),
                ],
            ]);
            joined_lines(open_lines(title.as_str(), width), v)
        },
        WizardScreen::BrowsePlaylist => {
            title.append(" :: Default Playlist");
            let v: Vec<Vec<Span>> = vec![
                ask_line(" Browse: ", state.input_buf.as_str()),
                line1(
                    span("  [Tab] complete  ::  [Enter] confirm  ::  [Esc] skip", Color::Dim),
                ),
            ];
            assert(line_views(v@) =~= seq![
                question(" Browse: "@, state.input_buf@),
                seq![
                    ink("  [Tab] complete  ::  [Enter] confirm  ::  [Esc] skip"@, Color::Dim),
                ],
            ]);
            joined_lines(open_lines(title.as_str(), width), v)
        },
        WizardScreen::Confirm => confirm_lines(state),
    }
}

/// The lines of the screen.
pub fn render_wizard(state: &WizardState, width: usize) -> (r: Vec<Vec<Span>>)
    ensures
        line_views(r@) == lines_of(state.view(), width as int),
{
    let body: Vec<Vec<Span>> = body_lines(state, width);
    match &state.error {
        Some(e) => {
            let v: Vec<Vec<Span>> = vec![
                blank_line(),
                line1(span(cat(" ! ", e.as_str()).as_str(), Color::Red)),
            ];
            assert(line_views(v@) =~= seq![blank(), seq![ink(" ! "@ + e@, Color::Red)]]);
            joined_lines(body, v)
        },
        None => body,
    }
}

/// The row of a completion: its last segment, directories in another colour.
pub open spec fn completion_row(c: Seq<char>, sel: bool) -> RowV {
    RowV {
        spans: seq![
            ink(
                " "@ + after_last(c, '/') + " "@,
                if sel {
                    Color::Bright
                } else if c.len() > 0 && c.last() == '/' {
                    Color::Orange
                } else {
                    Color::Cyan
                },
            ),
        ],
        selected: sel,
    }
}

/// The completions that are offered.
pub fn render_completions(completions: &Vec<String>, selected: usize) -> (r: Vec<Row>)
    ensures
        row_views(r@) == Seq::new(
            completions@.len(),
            |i: int| completion_row(completions@[i]@, i == selected),
        ),
{
    let mut rows: Vec<Row> = Vec::new();
    for i in 0..completions.len()
        invariant
            rows.len() == i,
            forall|k: int|
                0 <= k < i ==> (#[trigger] rows@[k]).view() == completion_row(
                    completions@[k]@,
                    k == selected,
                ),
    {
        let c: &str = completions[i].as_str();
        let sel: bool = i == selected;
        let color: Color = if sel {
            Color::Bright
        } else if last_char(c) == Some('/') {
            Color::Orange
        } else {
            Color::Cyan
        };
        let row: Row = Row {
            spans: line1(span(cat3(" ", tail_after(c, '/'), " ").as_str(), color)),
            selected: sel,
        };
        assert(row.view().spans =~= completion_row(c@, sel).spans);
        rows.push(row);
    }
    assert(row_views(rows@) =~= Seq::new(
        completions@.len(),
        |i: int| completion_row(completions@[i]@, i == selected),
    ));
    rows
}

} // verus!
