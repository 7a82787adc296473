//! Setting up panes step by step.
use crate::desk::{
    desk_views, geometry_text, idle_pane, new_pane, pane_socket, tile_geo, tiled, window_of,
    DeskPane, DeskPaneV,
};
use crate::keys::Key;
use crate::text::{
    is_digit, is_empty, is_space, is_space_char, number_value, opt, parse_u32, parse_usize, strs,
    trim, trimmed,
};
use crate::tui_keys::shorter;
use vstd::prelude::*;

verus! {

/// What is being asked.
#[derive(Clone, Copy, Debug, PartialEq, Eq, Structural)]
pub enum WizardScreen {
    HowMany,
    PaneName,
    ContentType,
    Geometry,
    Width,
    AspectRatio,
    ScreenPosition,
    TileWith,
    DefaultPlaylist,
    BrowsePlaylist,
    Confirm,
}

/// What has been answered so far.
#[derive(Debug)]
pub struct WizardState {
    pub screen: WizardScreen,
    pub total: usize,
    pub current: usize,
    pub panes: Vec<DeskPane>,
    pub name: String,
    pub pane_type: String,
    pub width: u32,
    pub height: u32,
    pub geometry: Option<String>,
    pub playlist: Option<String>,
    pub input_buf: String,
    pub completions: Vec<String>,
    pub comp_sel: usize,
    pub error: Option<String>,
}

pub struct WizardV {
    pub screen: WizardScreen,
    pub total: usize,
    pub current: usize,
    pub panes: Seq<DeskPaneV>,
    pub name: Seq<char>,
    pub pane_type: Seq<char>,
    pub width: u32,
    pub height: u32,
    pub geometry: Option<Seq<char>>,
    pub playlist: Option<Seq<char>>,
    pub input_buf: Seq<char>,
    pub completions: Seq<Seq<char>>,
    pub comp_sel: usize,
    pub error: Option<Seq<char>>,
}

/// What follows a key.
#[derive(Clone, Copy, Debug, PartialEq, Eq, Structural)]
pub enum WizardMove {
    /// Go on asking.
    Stay,
    /// The completions of what is typed are wanted.
    Complete,
    /// The height for this aspect ratio is wanted.
    Height(Ratio),
    /// The last pane was confirmed; its files are to be made.
    Created,
    /// The last pane was confirmed, and it was the last to be set up.
    Finished,
    /// The operator gave up.
    Abort,
}

/// The aspect ratios that are offered.
#[derive(Clone, Copy, Debug, PartialEq, Eq, Structural)]
pub enum Ratio {
    Widescreen,
    Vertical,
    Television,
    Square,
    Cinematic,
    Panoramic,
    Portrait,
    Camera,
    Ultrawide,
    MotionPicture,
    Monitor,
}

/// Nothing answered yet.
pub open spec fn fresh_wizard() -> WizardV {
    WizardV {
        screen: WizardScreen::HowMany,
        total: 0,
        current: 1,
        panes: Seq::empty(),
        name: Seq::empty(),
        pane_type: Seq::empty(),
        width: 0,
        height: 0,
        geometry: None,
        playlist: None,
        input_buf: Seq::empty(),
        completions: Seq::empty(),
        comp_sel: 0,
        error: None,
    }
}

/// Nothing answered for the pane at hand.
pub open spec fn pane_reset(s: WizardV) -> WizardV {
    WizardV {
        name: Seq::empty(),
        pane_type: Seq::empty(),
        width: 0,
        height: 0,
        geometry: None,
        playlist: None,
        input_buf: Seq::empty(),
        completions: Seq::empty(),
        comp_sel: 0,
        error: None,
        ..s
    }
}

impl WizardState {
    pub open spec fn view(&self) -> WizardV {
        WizardV {
            screen: self.screen,
            total: self.total,
            current: self.current,
            panes: desk_views(self.panes@),
            name: self.name@,
            pane_type: self.pane_type@,
            width: self.width,
            height: self.height,
            geometry: opt(self.geometry),
            playlist: opt(self.playlist),
            input_buf: self.input_buf@,
            completions: strs(self.completions@),
            comp_sel: self.comp_sel,
            error: opt(self.error),
        }
    }

    /// The chosen completion is one of them.
    pub open spec fn wf(&self) -> bool {
        self.completions@.len() == 0 || self.comp_sel < self.completions@.len()
    }

    /// Nothing answered yet.
    pub fn new() -> (r: WizardState)
        ensures
            r.view() == fresh_wizard(),
            r.wf(),
    {
        let r: WizardState = WizardState {
            screen: WizardScreen::HowMany,
            total: 0,
            current: 1,
            panes: Vec::new(),
            name: String::new(),
            pane_type: String::new(),
            width: 0,
            height: 0,
            geometry: None,
            playlist: None,
            input_buf: String::new(),
            completions: Vec::new(),
            comp_sel: 0,
            error: None,
        };
        proof {
            assert(desk_views(r.panes@) =~= Seq::empty());
            assert(strs(r.completions@) =~= Seq::empty());
        }
        r
    }

    /// Forgets the answers for the pane at hand.
    pub fn reset_pane(&mut self)
        ensures
            final(self).view() == pane_reset(old(self).view()),
            final(self).wf(),
    {
        self.name = String::new();
        self.pane_type = String::new();
        self.width = 0;
        self.height = 0;
        self.geometry = None;
        self.playlist = None;
        self.input_buf = String::new();
        self.completions = Vec::new();
        self.comp_sel = 0;
        self.error = None;
        assert(strs(self.completions@) =~= Seq::empty());
    }
}

// ---------------------------------------------------------------------------
// Keys
// ---------------------------------------------------------------------------

pub open spec fn stays(s: WizardV) -> (WizardV, WizardMove) {
    (s, WizardMove::Stay)
}

pub open spec fn wrong(s: WizardV, msg: Seq<char>) -> (WizardV, WizardMove) {
    (WizardV { error: Some(msg), ..s }, WizardMove::Stay)
}

pub open spec fn goes(s: WizardV, screen: WizardScreen) -> (WizardV, WizardMove) {
    (WizardV { screen, error: None, ..s }, WizardMove::Stay)
}

pub open spec fn how_many(s: WizardV, k: Key) -> (WizardV, WizardMove) {
    match k {
        Key::Char(c) => if is_digit(c) {
            stays(WizardV { input_buf: s.input_buf.push(c), ..s })
        } else if c == 'q' {
            (s, WizardMove::Abort)
        } else {
            stays(s)
        },
        Key::Backspace => stays(WizardV { input_buf: shorter(s.input_buf), ..s }),
        Key::Enter => match number_value(trimmed(s.input_buf)) {
            Some(n) if 0 < n <= usize::MAX => goes(
                WizardV { total: n as usize, input_buf: Seq::empty(), ..s },
                WizardScreen::PaneName,
            ),
            _ => wrong(s, "Enter a number greater than 0"@),
        },
        _ => stays(s),
    }
}

pub open spec fn pane_name(s: WizardV, k: Key) -> (WizardV, WizardMove) {
    match k {
        Key::Char(c) => if is_space(c) {
            stays(s)
        } else {
            stays(WizardV { input_buf: s.input_buf.push(c), ..s })
        },
        Key::Backspace => stays(WizardV { input_buf: shorter(s.input_buf), ..s }),
        Key::Enter => if trimmed(s.input_buf).len() == 0 {
            wrong(s, "Name cannot be empty"@)
        } else {
            goes(
                WizardV { name: trimmed(s.input_buf), input_buf: Seq::empty(), ..s },
                WizardScreen::ContentType,
            )
        },
        _ => stays(s),
    }
}

/// The type that a key stands for.
pub open spec fn type_for(k: Key) -> Option<Seq<char>> {
    if k == Key::Char('1') {
        Some("video"@)
    } else if k == Key::Char('2') {
        Some("audio"@)
    } else if k == Key::Char('3') {
        Some("http"@)
    } else if k == Key::Char('4') {
        Some("ytdlp"@)
    } else if k == Key::Char('5') {
        Some("rtsp"@)
    } else {
        None
    }
}

pub open spec fn content_type(s: WizardV, k: Key) -> (WizardV, WizardMove) {
    match type_for(k) {
        Some(t) => goes(WizardV { pane_type: t, ..s }, WizardScreen::Geometry),
        None => if k == Key::Char('q') {
            (s, WizardMove::Abort)
        } else {
            wrong(s, "Press 1-5"@)
        },
    }
}

/// The first pane is placed on the screen, the others beside the one before.
pub open spec fn place_screen(s: WizardV) -> WizardScreen {
    if s.current == 1 {
        WizardScreen::ScreenPosition
    } else {
        WizardScreen::TileWith
    }
}

pub open spec fn geometry(s: WizardV, k: Key) -> (WizardV, WizardMove) {
    if k == Key::Char('1') {
        goes(WizardV { geometry: None, ..s }, place_screen(s))
    } else if k == Key::Char('2') {
        goes(s, WizardScreen::Width)
    } else if k == Key::Char('q') {
        (s, WizardMove::Abort)
    } else {
        wrong(s, "Press 1 or 2"@)
    }
}

pub open spec fn width(s: WizardV, k: Key) -> (WizardV, WizardMove) {
    match k {
        Key::Char(c) => if is_digit(c) {
            stays(WizardV { input_buf: s.input_buf.push(c), ..s })
        } else if c == 'q' {
            (s, WizardMove::Abort)
        } else {
            stays(s)
        },
        Key::Backspace => stays(WizardV { input_buf: shorter(s.input_buf), ..s }),
        Key::Enter => match number_value(trimmed(s.input_buf)) {
            Some(n) if 0 < n <= u32::MAX => goes(
                WizardV { width: n as u32, input_buf: Seq::empty(), ..s },
                WizardScreen::AspectRatio,
            ),
            _ => wrong(s, "Enter a valid pixel width"@),
        },
        _ => stays(s),
    }
}

/// The aspect ratio that a key stands for.
pub open spec fn ratio_for(k: Key) -> Option<Ratio> {
    if k == Key::Char('1') {
        Some(Ratio::Widescreen)
    } else if k == Key::Char('2') {
        Some(Ratio::Vertical)
    } else if k == Key::Char('3') {
        Some(Ratio::Television)
    } else if k == Key::Char('4') {
        Some(Ratio::Square)
    } else if k == Key::Char('5') {
        Some(Ratio::Cinematic)
    } else if k == Key::Char('6') {
        Some(Ratio::Panoramic)
    } else if k == Key::Char('7') {
        Some(Ratio::Portrait)
    } else if k == Key::Char('8') {
        Some(Ratio::Camera)
    } else if k == Key::Char('9') {
        Some(Ratio::Ultrawide)
    } else if k == Key::Char('0') {
        Some(Ratio::MotionPicture)
    } else if k == Key::F(1) {
        Some(Ratio::Monitor)
    } else {
        None
    }
}

pub open spec fn aspect_ratio(s: WizardV, k: Key) -> (WizardV, WizardMove) {
    match ratio_for(k) {
        Some(r) => (s, WizardMove::Height(r)),
        None => if k == Key::Char('q') {
            (s, WizardMove::Abort)
        } else {
            wrong(s, "Press 1-9, 0=1.85:1, F1=16:10"@)
        },
    }
}

/// The geometry at the top left.
pub open spec fn corner(s: WizardV) -> Seq<char> {
    geometry_text(s.width as int, s.height as int, 0, 0)
}

pub open spec fn screen_position(s: WizardV, k: Key) -> (WizardV, WizardMove) {
    if k == Key::Char('1') {
        goes(WizardV { geometry: Some(corner(s)), ..s }, WizardScreen::DefaultPlaylist)
    } else if k == Key::Char('2') {
        goes(
            WizardV { geometry: Some(corner(s)), input_buf: Seq::empty(), ..s },
            WizardScreen::DefaultPlaylist,
        )
    } else if k == Key::Char('q') {
        (s, WizardMove::Abort)
    } else {
        wrong(s, "Press 1 or 2"@)
    }
}

/// The geometry of the pane before.
pub open spec fn previous_geometry(s: WizardV) -> Option<Seq<char>> {
    if s.panes.len() > 0 {
        s.panes.last().geometry
    } else {
        None
    }
}

pub open spec fn tile_with(s: WizardV, k: Key) -> (WizardV, WizardMove) {
    if k == Key::Char('1') || k == Key::Char('2') {
        let g = match previous_geometry(s) {
            Some(p) => tiled(p, s.width as int, s.height as int, k == Key::Char('1')),
            None => corner(s),
        };
        goes(WizardV { geometry: Some(g), ..s }, WizardScreen::DefaultPlaylist)
    } else if k == Key::Char('3') {
        goes(s, WizardScreen::ScreenPosition)
    } else if k == Key::Char('q') {
        (s, WizardMove::Abort)
    } else {
        wrong(s, "Press 1, 2, or 3"@)
    }
}

pub open spec fn default_playlist(s: WizardV, k: Key) -> (WizardV, WizardMove) {
    if k == Key::Char('y') || k == Key::Char('Y') {
        goes(
            WizardV { input_buf: Seq::empty(), completions: Seq::empty(), ..s },
            WizardScreen::BrowsePlaylist,
        )
    } else if k == Key::Char('n') || k == Key::Char('N') {
        goes(WizardV { playlist: None, ..s }, WizardScreen::Confirm)
    } else if k == Key::Char('q') {
        (s, WizardMove::Abort)
    } else {
        wrong(s, "Press y or n"@)
    }
}

pub open spec fn browse_playlist(s: WizardV, k: Key) -> (WizardV, WizardMove) {
    let n = s.completions.len() as int;
    match k {
        Key::Enter => goes(
            WizardV {
                playlist: if trimmed(s.input_buf).len() == 0 {
                    None
                } else {
                    Some(trimmed(s.input_buf))
                },
                input_buf: Seq::empty(),
                completions: Seq::empty(),
                ..s
            },
            WizardScreen::Confirm,
        ),
        Key::Esc => stays(
            WizardV {
                playlist: None,
                input_buf: Seq::empty(),
                completions: Seq::empty(),
                screen: WizardScreen::Confirm,
                ..s
            },
        ),
        Key::Tab => if n == 0 {
            (s, WizardMove::Complete)
        } else {
            let i = (s.comp_sel + 1) % n;
            stays(WizardV { comp_sel: i as usize, input_buf: s.completions[i], ..s })
        },
        Key::BackTab => if n == 0 {
            stays(s)
        } else {
            let i = if s.comp_sel == 0 {
                n - 1
            } else {
                s.comp_sel - 1
            };
            stays(WizardV { comp_sel: i as usize, input_buf: s.completions[i], ..s })
        },
        Key::Backspace => (
            WizardV { input_buf: shorter(s.input_buf), ..s },
            WizardMove::Complete,
        ),
        Key::Char(c) => (WizardV { input_buf: s.input_buf.push(c), ..s }, WizardMove::Complete),
        _ => stays(s),
    }
}

/// The pane that was described.
pub open spec fn described_pane(s: WizardV, config: Seq<char>) -> DeskPaneV {
    idle_pane(
        s.name,
        crate::desk::desk_file(config, s.name, ".sock"@),
        s.pane_type,
        None,
        s.geometry,
        s.playlist,
    )
}

pub open spec fn confirm(s: WizardV, k: Key, config: Seq<char>) -> (WizardV, WizardMove) {
    if k == Key::Enter {
        let t = WizardV { panes: s.panes.push(described_pane(s, config)), ..s };
        if s.current >= s.total {
            (t, WizardMove::Finished)
        } else {
            (
                WizardV {
                    current: (s.current + 1) as usize,
                    screen: WizardScreen::PaneName,
                    ..pane_reset(t)
                },
                WizardMove::Created,
            )
        }
    } else if k == Key::Char('r') {
        stays(WizardV { screen: WizardScreen::PaneName, ..pane_reset(s) })
    } else if k == Key::Char('q') {
        (s, WizardMove::Abort)
    } else {
        stays(s)
    }
}

/// The wizard after a key, and what follows.
pub open spec fn wizard_step(s: WizardV, k: Key, config: Seq<char>) -> (WizardV, WizardMove) {
    match s.screen {
        WizardScreen::HowMany => how_many(s, k),
        WizardScreen::PaneName => pane_name(s, k),
        WizardScreen::ContentType => content_type(s, k),
        WizardScreen::Geometry => geometry(s, k),
        WizardScreen::Width => width(s, k),
        WizardScreen::AspectRatio => aspect_ratio(s, k),
        WizardScreen::ScreenPosition => screen_position(s, k),
        WizardScreen::TileWith => tile_with(s, k),
        WizardScreen::DefaultPlaylist => default_playlist(s, k),
        WizardScreen::BrowsePlaylist => browse_playlist(s, k),
        WizardScreen::Confirm => confirm(s, k, config),
    }
}

/// The corner of a window beside or below the previous pane is a number that fits.
pub open spec fn tile_fits(s: WizardV, k: Key) -> bool {
    s.screen == WizardScreen::TileWith ==> match previous_geometry(s) {
        Some(g) => {
            let p = window_of(g);
            (k == Key::Char('1') ==> p.x + p.w <= u32::MAX) && (k == Key::Char('2') ==> p.y + p.h
                <= u32::MAX)
        },
        None => true,
    }
}

/// Whether a window beside or below the previous pane has a corner that fits.
pub fn can_tile(state: &WizardState, k: Key) -> (r: bool)
    ensures
        r == tile_fits(state.view(), k),
{
    if state.screen != WizardScreen::TileWith {
        return true;
    }
    let n: usize = state.panes.len();
    if n == 0 {
        return true;
    }
    assert(state.view().panes.last() == state.panes@[n - 1].view());
    match &state.panes[n - 1].geometry {
        Some(g) => {
            let (w, h, x, y): (u32, u32, u32, u32) = crate::desk::read_window(g.as_str());
            if k == Key::Char('1') {
                x <= u32::MAX - w
            } else if k == Key::Char('2') {
                y <= u32::MAX - h
            } else {
                true
            }
        },
        None => true,
    }
}

fn type_key(k: Key) -> (r: Option<&'static str>)
    ensures
        match r {
            Some(t) => type_for(k) == Some(t@),
            None => type_for(k) is None,
        },
{
    if k == Key::Char('1') {
        Some("video")
    } else if k == Key::Char('2') {
        Some("audio")
    } else if k == Key::Char('3') {
        Some("http")
    } else if k == Key::Char('4') {
        Some("ytdlp")
    } else if k == Key::Char('5') {
        Some("rtsp")
    } else {
        None
    }
}

fn ratio_key(k: Key) -> (r: Option<Ratio>)
    ensures
        r == ratio_for(k),
{
    if k == Key::Char('1') {
        Some(Ratio::Widescreen)
    } else if k == Key::Char('2') {
        Some(Ratio::Vertical)
    } else if k == Key::Char('3') {
        Some(Ratio::Television)
    } else if k == Key::Char('4') {
        Some(Ratio::Square)
    } else if k == Key::Char('5') {
        Some(Ratio::Cinematic)
    } else if k == Key::Char('6') {
        Some(Ratio::Panoramic)
    } else if k == Key::Char('7') {
        Some(Ratio::Portrait)
    } else if k == Key::Char('8') {
        Some(Ratio::Camera)
    } else if k == Key::Char('9') {
        Some(Ratio::Ultrawide)
    } else if k == Key::Char('0') {
        Some(Ratio::MotionPicture)
    } else if k == Key::F(1) {
        Some(Ratio::Monitor)
    } else {
        None
    }
}

fn fail(state: &mut WizardState, msg: &str) -> (r: WizardMove)
    requires
        old(state).wf(),
    ensures
        final(state).wf(),
        (final(state).view(), r) == wrong(old(state).view(), msg@),
{
    state.error = Some(msg.to_owned());
    WizardMove::Stay
}

fn go(state: &mut WizardState, screen: WizardScreen) -> (r: WizardMove)
    requires
        old(state).wf(),
    ensures
        final(state).wf(),
        (final(state).view(), r) == goes(old(state).view(), screen),
{
    state.screen = screen;
    state.error = None;
    WizardMove::Stay
}

fn place(state: &WizardState) -> (r: WizardScreen)
    ensures
        r == place_screen(state.view()),
{
    if state.current == 1 {
        WizardScreen::ScreenPosition
    } else {
        WizardScreen::TileWith
    }
}

fn corner_of(state: &WizardState) -> (r: String)
    ensures
        r@ == corner(state.view()),
{
    crate::desk::write_geometry(state.width, state.height, 0, 0)
}

fn on_number(state: &mut WizardState, k: Key) -> (r: WizardMove)
    requires
        old(state).wf(),
        old(state).screen == WizardScreen::HowMany || old(state).screen == WizardScreen::Width,
    ensures
        final(state).wf(),
        (final(state).view(), r) == (if old(state).screen == WizardScreen::HowMany {
            how_many(old(state).view(), k)
        } else {
            width(old(state).view(), k)
        }),
{
    match k {
        Key::Char(c) => {
            if '0' <= c && c <= '9' {
                state.input_buf.push(c);
                WizardMove::Stay
            } else if c == 'q' {
                WizardMove::Abort
            } else {
                WizardMove::Stay
            }
        },
        Key::Backspace => {
            state.input_buf.pop();
            WizardMove::Stay
        },
        Key::Enter => {
            if state.screen == WizardScreen::HowMany {
                match parse_usize(trim(state.input_buf.as_str())) {
                    Some(n) => if n > 0 {
                        state.total = n;
                        state.input_buf = String::new();
                        go(state, WizardScreen::PaneName)
                    } else {
                        fail(state, "Enter a number greater than 0")
                    },
                    None => fail(state, "Enter a number greater than 0"),
                }
            } else {
                match parse_u32(trim(state.input_buf.as_str())) {
                    Some(n) => if n > 0 {
                        state.width = n;
                        state.input_buf = String::new();
                        go(state, WizardScreen::AspectRatio)
                    } else {
                        fail(state, "Enter a valid pixel width")
                    },
                    None => fail(state, "Enter a valid pixel width"),
                }
            }
        },
        _ => WizardMove::Stay,
    }
}

fn on_name(state: &mut WizardState, k: Key) -> (r: WizardMove)
    requires
        old(state).wf(),
    ensures
        final(state).wf(),
        (final(state).view(), r) == pane_name(old(state).view(), k),
{
    match k {
        Key::Char(c) => {
            if !is_space_char(c) {
                state.input_buf.push(c);
            }
            WizardMove::Stay
        },
        Key::Backspace => {
            state.input_buf.pop();
            WizardMove::Stay
        },
        Key::Enter => {
            let name: String = trim(state.input_buf.as_str()).to_owned();
            if is_empty(name.as_str()) {
                fail(state, "Name cannot be empty")
            } else {
                state.name = name;
                state.input_buf = String::new();
                go(state, WizardScreen::ContentType)
            }
        },
        _ => WizardMove::Stay,
    }
}

fn on_choice(state: &mut WizardState, k: Key) -> (r: WizardMove)
    requires
        old(state).wf(),
    ensures
        final(state).wf(),
        match old(state).screen {
            WizardScreen::ContentType => (final(state).view(), r) == content_type(
                old(state).view(),
                k,
            ),
            WizardScreen::Geometry => (final(state).view(), r) == geometry(old(state).view(), k),
            WizardScreen::AspectRatio => (final(state).view(), r) == aspect_ratio(
                old(state).view(),
                k,
            ),
            WizardScreen::ScreenPosition => (final(state).view(), r) == screen_position(
                old(state).view(),
                k,
            ),
            WizardScreen::DefaultPlaylist => (final(state).view(), r) == default_playlist(
                old(state).view(),
                k,
            ),
            _ => true,
        },
{
    match state.screen {
        WizardScreen::ContentType => match type_key(k) {
            Some(t) => {
                state.pane_type = t.to_owned();
                go(state, WizardScreen::Geometry)
            },
            None => if k == Key::Char('q') {
                WizardMove::Abort
            } else {
                fail(state, "Press 1-5")
            },
        },
        WizardScreen::Geometry => if k == Key::Char('1') {
            state.geometry = None;
            let next: WizardScreen = place(state);
            go(state, next)
        } else if k == Key::Char('2') {
            go(state, WizardScreen::Width)
        } else if k == Key::Char('q') {
            WizardMove::Abort
        } else {
            fail(state, "Press 1 or 2")
        },
        WizardScreen::AspectRatio => match ratio_key(k) {
            Some(r) => WizardMove::Height(r),
            None => if k == Key::Char('q') {
                WizardMove::Abort
            } else {
                fail(state, "Press 1-9, 0=1.85:1, F1=16:10")
            },
        },
        WizardScreen::ScreenPosition => if k == Key::Char('1') || k == Key::Char('2') {
            if k == Key::Char('2') {
                state.input_buf = String::new();
            }
            state.geometry = Some(corner_of(state));
            go(state, WizardScreen::DefaultPlaylist)
        } else if k == Key::Char('q') {
            WizardMove::Abort
        } else {
            fail(state, "Press 1 or 2")
        },
        WizardScreen::DefaultPlaylist => if k == Key::Char('y') || k == Key::Char('Y') {
            state.input_buf = String::new();
            state.completions = Vec::new();
            assert(strs(state.completions@) =~= Seq::empty());
            go(state, WizardScreen::BrowsePlaylist)
        } else if k == Key::Char('n') || k == Key::Char('N') {
            state.playlist = None;
            go(state, WizardScreen::Confirm)
        } else if k == Key::Char('q') {
            WizardMove::Abort
        } else {
            fail(state, "Press y or n")
        },
        _ => WizardMove::Stay,
    }
}

fn on_tile(state: &mut WizardState, k: Key) -> (r: WizardMove)
    requires
        old(state).wf(),
        old(state).screen == WizardScreen::TileWith,
        tile_fits(old(state).view(), k),
    ensures
        final(state).wf(),
        (final(state).view(), r) == tile_with(old(state).view(), k),
{
    if k == Key::Char('1') || k == Key::Char('2') {
        let n: usize = state.panes.len();
        let g: String = if n == 0 {
            corner_of(state)
        } else {
            assert(state.view().panes.last() == state.panes@[n - 1].view());
            match &state.panes[n - 1].geometry {
                Some(p) => tile_geo(p.as_str(), state.width, state.height, k == Key::Char('1')),
                None => corner_of(state),
            }
        };
        state.geometry = Some(g);
        go(state, WizardScreen::DefaultPlaylist)
    } else if k == Key::Char('3') {
        go(state, WizardScreen::ScreenPosition)
    } else if k == Key::Char('q') {
        WizardMove::Abort
    } else {
        fail(state, "Press 1, 2, or 3")
    }
}

fn on_browse(state: &mut WizardState, k: Key) -> (r: WizardMove)
    requires
        old(state).wf(),
    ensures
        final(state).wf(),
        (final(state).view(), r) == browse_playlist(old(state).view(), k),
{
    let n: usize = state.completions.len();
    match k {
        Key::Enter => {
            let p: String = trim(state.input_buf.as_str()).to_owned();
            state.playlist = if is_empty(p.as_str()) {
                None
            } else {
                Some(p)
            };
            state.input_buf = String::new();
            state.completions = Vec::new();
            assert(strs(state.completions@) =~= Seq::empty());
            go(state, WizardScreen::Confirm)
        },
        Key::Esc => {
            state.playlist = None;
            state.input_buf = String::new();
            state.completions = Vec::new();
            assert(strs(state.completions@) =~= Seq::empty());
            state.screen = WizardScreen::Confirm;
            WizardMove::Stay
        },
        Key::Tab => {
            if n == 0 {
                WizardMove::Complete
            } else {
                let i: usize = if n - state.comp_sel > 1 {
                    state.comp_sel + 1
                } else {
                    0
                };
                proof {
                    let c = state.comp_sel as int;
                    if c + 1 < n {
                        assert((c + 1) % (n as int) == c + 1) by (nonlinear_arith)
                            requires
                                0 <= c,
                                c + 1 < n,
                        ;
                    } else {
                        assert(c + 1 == n);
                        assert((n as int) % (n as int) == 0) by (nonlinear_arith)
                            requires
                                n > 0,
                        ;
                    }
                }
                state.comp_sel = i;
                state.input_buf = state.completions[i].clone();
                WizardMove::Stay
            }
        },
        Key::BackTab => {
            if n > 0 {
                let i: usize = if state.comp_sel == 0 {
                    n - 1
                } else {
                    state.comp_sel - 1
                };
                state.comp_sel = i;
                state.input_buf = state.completions[i].clone();
            }
            WizardMove::Stay
        },
        Key::Backspace => {
            state.input_buf.pop();
            WizardMove::Complete
        },
        Key::Char(c) => {
            state.input_buf.push(c);
            WizardMove::Complete
        },
        _ => WizardMove::Stay,
    }
}

fn on_confirm(state: &mut WizardState, k: Key, config: &str) -> (r: WizardMove)
    requires
        old(state).wf(),
    ensures
        final(state).wf(),
        (final(state).view(), r) == confirm(old(state).view(), k, config@),
{
    if k == Key::Enter {
        let socket: String = pane_socket(config, state.name.as_str());
        let geometry: Option<String> = match &state.geometry {
            Some(g) => Some(g.clone()),
            None => None,
        };
        let playlist: Option<String> = match &state.playlist {
            Some(p) => Some(p.clone()),
            None => None,
        };
        let pane: DeskPane = new_pane(
            state.name.as_str(),
            socket.as_str(),
            state.pane_type.as_str(),
            None,
            geometry,
            playlist,
        );
        assert(desk_views(state.panes@.push(pane)) =~= desk_views(state.panes@).push(pane.view()));
        state.panes.push(pane);
        if state.current >= state.total {
            WizardMove::Finished
        } else {
            state.current = state.current + 1;
            state.reset_pane();
            state.screen = WizardScreen::PaneName;
            WizardMove::Created
        }
    } else if k == Key::Char('r') {
        state.reset_pane();
        state.screen = WizardScreen::PaneName;
        WizardMove::Stay
    } else if k == Key::Char('q') {
        WizardMove::Abort
    } else {
        WizardMove::Stay
    }
}

/// Takes a key; says what follows.
pub fn run_wizard(state: &mut WizardState, k: Key, config: &str) -> (r: WizardMove)
    requires
        old(state).wf(),
        tile_fits(old(state).view(), k),
    ensures
        final(state).wf(),
        (final(state).view(), r) == wizard_step(old(state).view(), k, config@),
{
    match state.screen {
        WizardScreen::HowMany => on_number(state, k),
        WizardScreen::Width => on_number(state, k),
        WizardScreen::PaneName => on_name(state, k),
        WizardScreen::TileWith => on_tile(state, k),
        WizardScreen::BrowsePlaylist => on_browse(state, k),
        WizardScreen::Confirm => on_confirm(state, k, config),
        _ => on_choice(state, k),
    }
}

/// The height for the chosen aspect ratio was computed.
pub fn height_done(state: &mut WizardState, height: u32)
    requires
        old(state).wf(),
    ensures
        final(state).wf(),
        final(state).view() == (WizardV {
            height,
            error: None,
            screen: place_screen(old(state).view()),
            ..old(state).view()
        }),
{
    state.height = height;
    state.error = None;
    state.screen = place(state);
}

/// The completions of what is typed were found. After Tab the first is taken.
pub fn complete_done(state: &mut WizardState, found: Vec<String>, take: bool)
    requires
        old(state).wf(),
    ensures
        final(state).wf(),
        final(state).view() == (WizardV {
            completions: strs(found@),
            comp_sel: 0,
            input_buf: if take && found@.len() > 0 {
                found@[0]@
            } else {
                old(state).input_buf@
            },
            ..old(state).view()
        }),
{
    if take && found.len() > 0 {
        state.input_buf = found[0].clone();
    }
    state.completions = found;
    state.comp_sel = 0;
}

// ---------------------------------------------------------------------------
// Laws
// ---------------------------------------------------------------------------

/// A pane is added only by confirming it; giving up keeps the panes confirmed so
/// far.
pub proof fn panes_come_from_confirmation(s: WizardV, k: Key, config: Seq<char>)
    ensures
        wizard_step(s, k, config).0.panes == (if s.screen == WizardScreen::Confirm && k == Key::Enter {
            s.panes.push(described_pane(s, config))
        } else {
            s.panes
        }),
{
}

/// The wizard sets up as many panes as were asked for, and no more.
pub proof fn as_many_panes_as_asked_for(s: WizardV, k: Key, config: Seq<char>)
    requires
        s.panes.len() + 1 == s.current,
        s.screen != WizardScreen::HowMany ==> s.current <= s.total,
    ensures
        ({
            let (t, m) = wizard_step(s, k, config);
            &&& m == WizardMove::Finished ==> t.panes.len() == t.total
            &&& m != WizardMove::Finished && s.screen != WizardScreen::HowMany ==> t.panes.len() + 1
                == t.current && t.current <= t.total
        }),
{
}

} // verus!
