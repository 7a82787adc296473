//! What the questions of the wizard are for.
use crate::keys::Key;
use crate::text::{decimal, lemma_decimal_value, number_value, trimmed};
use crate::wizard::{
    height_done, run_wizard, wizard_step, Ratio, WizardMove, WizardScreen, WizardState, WizardV,
};
use vstd::prelude::*;

verus! {

/// What a key does is what `wizard_step` says.
pub proof fn wizard_keys_step(state: &mut WizardState, k: Key, config: &str, r: WizardMove)
    requires
        call_ensures(run_wizard, (state, k, config), r),
    ensures
        (final(state).view(), r) == wizard_step(old(state).view(), k, config@),
{
}

/// White space around a number does not count; the digits of a number are none.
proof fn lemma_trimmed_decimal(n: int)
    requires
        0 <= n,
    ensures
        trimmed(decimal(n)) == decimal(n),
        number_value(decimal(n)) == Some(n),
{
    lemma_decimal_value(n);
    let d = decimal(n);
    assert(crate::text::is_digit(d[0]) && crate::text::is_digit(d[d.len() - 1]));
    crate::text::lemma_trimmed_fixed(d);
}

/// The number of panes is asked first; a number above zero leads on to the name of the
/// first pane, anything else is refused.
pub proof fn the_number_of_panes_is_asked(s: WizardV, config: Seq<char>, n: int)
    requires
        s.screen == WizardScreen::HowMany,
    ensures
        ({
            let t = wizard_step(s, Key::Enter, config);
            &&& s.input_buf == decimal(n) && 0 < n <= usize::MAX ==> t.0.total == n && t.0.screen
                == WizardScreen::PaneName && t.0.error is None && t.0.input_buf.len() == 0
            &&& s.input_buf == decimal(0) || number_value(trimmed(s.input_buf)) is None ==> t.0
                == (WizardV { error: Some("Enter a number greater than 0"@), ..s })
            &&& t.1 == WizardMove::Stay
            &&& wizard_step(s, Key::Char('q'), config).1 == WizardMove::Abort
            &&& forall|c: char|
                '0' <= c <= '9' ==> (#[trigger] wizard_step(s, Key::Char(c), config)).0.input_buf
                    == s.input_buf.push(c)
        }),
{
    if n >= 0 {
        lemma_trimmed_decimal(n);
    }
    lemma_trimmed_decimal(0);
}

/// A pane needs a name; it leads on to what the pane is for. White space is not typed.
pub proof fn a_name_is_asked(s: WizardV, config: Seq<char>)
    requires
        s.screen == WizardScreen::PaneName,
    ensures
        ({
            let t = wizard_step(s, Key::Enter, config);
            &&& trimmed(s.input_buf).len() > 0 ==> t.0.name == trimmed(s.input_buf) && t.0.screen
                == WizardScreen::ContentType && t.0.input_buf.len() == 0
            &&& trimmed(s.input_buf).len() == 0 ==> t.0 == (WizardV {
                error: Some("Name cannot be empty"@),
                ..s
            })
            &&& wizard_step(s, Key::Char(' '), config).0 == s
            &&& wizard_step(s, Key::Char('q'), config).0.input_buf == s.input_buf.push('q')
        }),
{
    assert(!crate::text::is_space('q'));
    assert(crate::text::is_space(' '));
}

/// The types that are offered, by their digits.
pub proof fn types_are_offered(s: WizardV, config: Seq<char>)
    requires
        s.screen == WizardScreen::ContentType,
    ensures
        wizard_step(s, Key::Char('1'), config).0.pane_type == "video"@,
        wizard_step(s, Key::Char('2'), config).0.pane_type == "audio"@,
        wizard_step(s, Key::Char('3'), config).0.pane_type == "http"@,
        wizard_step(s, Key::Char('4'), config).0.pane_type == "ytdlp"@,
        wizard_step(s, Key::Char('5'), config).0.pane_type == "rtsp"@,
        forall|c: char|
            '1' <= c <= '5' ==> (#[trigger] wizard_step(s, Key::Char(c), config)).0.screen
                == WizardScreen::Geometry,
        wizard_step(s, Key::Char('6'), config).0 == (WizardV { error: Some("Press 1-5"@), ..s }),
        wizard_step(s, Key::Char('q'), config).1 == WizardMove::Abort,
{
}

/// Where a pane is placed is asked of the first pane for the screen and of the others for
/// the pane before; a size of its own is asked as a width and a ratio first.
pub proof fn the_place_is_asked(s: WizardV, config: Seq<char>)
    requires
        s.screen == WizardScreen::Geometry,
    ensures
        wizard_step(s, Key::Char('1'), config).0.screen == (if s.current == 1 {
            WizardScreen::ScreenPosition
        } else {
            WizardScreen::TileWith
        }),
        wizard_step(s, Key::Char('1'), config).0.geometry is None,
        wizard_step(s, Key::Char('2'), config).0.screen == WizardScreen::Width,
        wizard_step(s, Key::Char('q'), config).1 == WizardMove::Abort,
{
}

/// A width is a number of pixels above zero and leads on to the ratio.
pub proof fn a_width_is_asked(s: WizardV, config: Seq<char>, n: int)
    requires
        s.screen == WizardScreen::Width,
    ensures
        s.input_buf == decimal(n) && 0 < n <= u32::MAX ==> wizard_step(
            s,
            Key::Enter,
            config,
        ).0.width == n && wizard_step(s, Key::Enter, config).0.screen == WizardScreen::AspectRatio,
        s.input_buf == decimal(0) || number_value(trimmed(s.input_buf)) is None ==> wizard_step(
            s,
            Key::Enter,
            config,
        ).0 == (WizardV { error: Some("Enter a valid pixel width"@), ..s }),
{
    if n >= 0 {
        lemma_trimmed_decimal(n);
    }
    lemma_trimmed_decimal(0);
}

/// The ratios that are offered, by their keys.
pub proof fn ratios_are_offered(s: WizardV, config: Seq<char>)
    requires
        s.screen == WizardScreen::AspectRatio,
    ensures
        wizard_step(s, Key::Char('1'), config).1 == WizardMove::Height(Ratio::Widescreen),
        wizard_step(s, Key::Char('2'), config).1 == WizardMove::Height(Ratio::Vertical),
        wizard_step(s, Key::Char('3'), config).1 == WizardMove::Height(Ratio::Television),
        wizard_step(s, Key::Char('4'), config).1 == WizardMove::Height(Ratio::Square),
        wizard_step(s, Key::Char('5'), config).1 == WizardMove::Height(Ratio::Cinematic),
        wizard_step(s, Key::Char('6'), config).1 == WizardMove::Height(Ratio::Panoramic),
        wizard_step(s, Key::Char('7'), config).1 == WizardMove::Height(Ratio::Portrait),
        wizard_step(s, Key::Char('8'), config).1 == WizardMove::Height(Ratio::Camera),
        wizard_step(s, Key::Char('9'), config).1 == WizardMove::Height(Ratio::Ultrawide),
        wizard_step(s, Key::Char('0'), config).1 == WizardMove::Height(Ratio::MotionPicture),
        wizard_step(s, Key::F(1), config).1 == WizardMove::Height(Ratio::Monitor),
        wizard_step(s, Key::Char('q'), config).1 == WizardMove::Abort,
{
}

/// The height that was computed is taken, and the place is asked next.
pub proof fn the_height_is_taken(state: &mut WizardState, height: u32, r: ())
    requires
        call_ensures(height_done, (state, height), r),
    ensures
        final(state).view() == (WizardV {
            height,
            error: None,
            screen: if old(state).current == 1 {
                WizardScreen::ScreenPosition
            } else {
                WizardScreen::TileWith
            },
            ..old(state).view()
        }),
{
}

/// The first pane goes to the top left of the screen, in its size.
pub proof fn the_first_pane_is_at_the_corner(s: WizardV, config: Seq<char>)
    requires
        s.screen == WizardScreen::ScreenPosition,
        s.width > 0,
    ensures
        wizard_step(s, Key::Char('1'), config).0.geometry == Some(
            decimal(s.width as int) + "x"@ + decimal(s.height as int) + "+"@ + decimal(0) + "+"@
                + decimal(0),
        ),
        wizard_step(s, Key::Char('1'), config).0.screen == WizardScreen::DefaultPlaylist,
        wizard_step(s, Key::Char('2'), config).0.screen == WizardScreen::DefaultPlaylist,
        wizard_step(s, Key::Char('2'), config).0.geometry == wizard_step(
            s,
            Key::Char('1'),
            config,
        ).0.geometry,
{
}

/// Another pane goes beside the one before, or below it, in its own size; or its place is
/// asked as for the first.
pub proof fn other_panes_are_tiled(s: WizardV, config: Seq<char>, w: int, h: int, x: int, y: int)
    requires
        s.screen == WizardScreen::TileWith,
        s.width > 0,
        s.panes.len() > 0,
        0 < w <= u32::MAX,
        0 <= h <= u32::MAX,
        0 <= x <= u32::MAX,
        0 <= y <= u32::MAX,
        s.panes.last().geometry == Some(
            decimal(w) + "x"@ + decimal(h) + "+"@ + decimal(x) + "+"@ + decimal(y),
        ),
    ensures
        ({
            let size = decimal(s.width as int) + "x"@ + decimal(s.height as int);
            &&& wizard_step(s, Key::Char('1'), config).0.geometry == Some(
                size + "+"@ + decimal(x + w) + "+"@ + decimal(y),
            )
            &&& wizard_step(s, Key::Char('2'), config).0.geometry == Some(
                size + "+"@ + decimal(x) + "+"@ + decimal(y + h),
            )
            &&& wizard_step(s, Key::Char('1'), config).0.screen == WizardScreen::DefaultPlaylist
            &&& wizard_step(s, Key::Char('2'), config).0.screen == WizardScreen::DefaultPlaylist
            &&& wizard_step(s, Key::Char('3'), config).0.screen == WizardScreen::ScreenPosition
        }),
{
    crate::desk_laws::geometries_are_read_back(w, h, x, y);
    assert(s.panes.last().geometry == Some(crate::desk::geometry_text(w, h, x, y)));
}

/// A playlist is typed or left out, and then everything is shown to be confirmed.
pub proof fn a_playlist_is_asked(s: WizardV, config: Seq<char>)
    ensures
        s.screen == WizardScreen::DefaultPlaylist ==> {
            &&& wizard_step(s, Key::Char('y'), config).0.screen == WizardScreen::BrowsePlaylist
            &&& wizard_step(s, Key::Char('n'), config).0.screen == WizardScreen::Confirm
            &&& wizard_step(s, Key::Char('n'), config).0.playlist is None
            &&& wizard_step(s, Key::Char('Y'), config) == wizard_step(s, Key::Char('y'), config)
            &&& wizard_step(s, Key::Char('N'), config) == wizard_step(s, Key::Char('n'), config)
        },
        s.screen == WizardScreen::BrowsePlaylist ==> {
            &&& wizard_step(s, Key::Enter, config).0.screen == WizardScreen::Confirm
            &&& trimmed(s.input_buf).len() > 0 ==> wizard_step(s, Key::Enter, config).0.playlist
                == Some(trimmed(s.input_buf))
            &&& trimmed(s.input_buf).len() == 0 ==> wizard_step(s, Key::Enter, config).0.playlist
                is None
            &&& wizard_step(s, Key::Esc, config).0.playlist is None
            &&& wizard_step(s, Key::Esc, config).0.screen == WizardScreen::Confirm
            &&& forall|c: char| #[trigger]
                wizard_step(s, Key::Char(c), config) == (
                    WizardV { input_buf: s.input_buf.push(c), ..s },
                    WizardMove::Complete,
                )
        },
{
}

/// A confirmed pane is the one that was described, with its socket in its own directory.
/// After the last one the wizard is done; before that it goes on to the next name, with
/// nothing left of this pane. Where the pane is not right it is described again.
pub proof fn a_confirmed_pane_is_the_described_one(s: WizardV, config: Seq<char>)
    requires
        s.screen == WizardScreen::Confirm,
    ensures
        ({
            let t = wizard_step(s, Key::Enter, config);
            let p = t.0.panes.last();
            &&& t.0.panes.len() == s.panes.len() + 1
            &&& t.0.panes.drop_last() == s.panes
            &&& p.name == s.name
            &&& p.pane_type == s.pane_type
            &&& p.geometry == s.geometry
            &&& p.playlist == s.playlist
            &&& p.slot is None
            &&& p.status == "Offline"@
            &&& p.socket == crate::desk::desk_file(config, s.name, ".sock"@)
            &&& s.current >= s.total ==> t.1 == WizardMove::Finished
            &&& s.current < s.total ==> t.1 == WizardMove::Created && t.0.current == s.current + 1
                && t.0.screen == WizardScreen::PaneName && t.0.name.len() == 0
                && t.0.pane_type.len() == 0 && t.0.geometry is None && t.0.playlist is None
                && t.0.width == 0 && t.0.height == 0
        }),
        ({
            let t = wizard_step(s, Key::Char('r'), config);
            &&& t.1 == WizardMove::Stay
            &&& t.0.screen == WizardScreen::PaneName
            &&& t.0.panes == s.panes
            &&& t.0.current == s.current
            &&& t.0.name.len() == 0 && t.0.geometry is None && t.0.playlist is None
        }),
        wizard_step(s, Key::Char('q'), config).1 == WizardMove::Abort,
{
    assert(wizard_step(s, Key::Enter, config).0.panes.drop_last() =~= s.panes);
}

} // verus!
