//! Picture-in-picture: what is saved of the main window when it enters the
//! mode, where the small window goes, and what is restored when it leaves.
use vstd::prelude::*;

verus! {

/// The main window as it was before picture-in-picture.
#[derive(Clone, Copy, Debug, PartialEq, Eq, Structural)]
pub struct WindowState {
    pub width: u32,
    pub height: u32,
    pub x: i32,
    pub y: i32,
    pub decorations_enabled: bool,
    pub resizable: bool,
    pub pip_active: bool,
}

/// Size and margin of the picture-in-picture window.
#[derive(Clone, Copy, Debug, PartialEq, Eq, Structural)]
pub struct PipWindowConfig {
    pub width: u32,
    pub height: u32,
    pub padding: i32,
}

/// Why leaving picture-in-picture was refused.
#[derive(Clone, Copy, Debug, PartialEq, Eq, Structural)]
pub enum PipError {
    /// Nothing was saved when entering.
    NoSavedState,
    /// The saved state does not say the mode is on.
    NotActive,
}

impl PipError {
    /// The message shown for this refusal.
    pub fn message(&self) -> (r: String)
        ensures
            *self == PipError::NoSavedState ==> r@
                == "Cannot exit PiP mode: no saved window state found"@,
            *self == PipError::NotActive ==> r@
                == "Cannot exit PiP mode: PiP mode is not currently active"@,
    {
        match self {
            PipError::NoSavedState => String::from_str(
                "Cannot exit PiP mode: no saved window state found",
            ),
            PipError::NotActive => String::from_str(
                "Cannot exit PiP mode: PiP mode is not currently active",
            ),
        }
    }
}

/// The saved window state, shared by the commands that enter and leave
/// picture-in-picture.
pub struct PipState {
    saved: Option<WindowState>,
}

/// Entering saves the window as it was, marked as in picture-in-picture.
pub open spec fn saved_on_entry(current: WindowState) -> WindowState {
    WindowState { pip_active: true, ..current }
}

/// The saved state is empty, or says that picture-in-picture is on.
pub open spec fn empty_or_active(saved: Option<WindowState>) -> bool {
    saved is None || saved.unwrap().pip_active
}

/// A call that changes the saved picture-in-picture state: entering (with
/// the window as it then is) or leaving. An entry that fails before the
/// window is saved changes nothing and is no call here.
pub enum PipCall {
    Enter(WindowState),
    Leave,
}

/// The saved state after one call: entering is skipped while the mode is on
/// and otherwise saves the window; leaving clears the state.
pub open spec fn after_call(saved: Option<WindowState>, call: PipCall) -> Option<WindowState> {
    match call {
        PipCall::Enter(w) => if saved matches Some(s) && s.pip_active {
            saved
        } else {
            Some(saved_on_entry(w))
        },
        PipCall::Leave => None,
    }
}

/// The saved state after a sequence of calls, starting from `saved`.
pub open spec fn after_calls(saved: Option<WindowState>, calls: Seq<PipCall>) -> Option<WindowState>
    decreases calls.len(),
{
    if calls.len() == 0 {
        saved
    } else {
        after_call(after_calls(saved, calls.drop_last()), calls.last())
    }
}

/// What leaving picture-in-picture gives for a saved state.
pub open spec fn exit_outcome(saved: Option<WindowState>) -> Result<WindowState, PipError> {
    match saved {
        None => Err(PipError::NoSavedState),
        Some(s) => if s.pip_active {
            Ok(s)
        } else {
            Err(PipError::NotActive)
        },
    }
}

impl PipState {
    /// The saved window state, if any.
    pub closed spec fn saved(&self) -> Option<WindowState> {
        self.saved
    }

    /// Whether the saved state says that picture-in-picture is on.
    pub open spec fn active(&self) -> bool {
        self.saved() matches Some(s) && s.pip_active
    }

    /// Nothing saved.
    pub fn new() -> (r: PipState)
        ensures
            r.saved() is None,
            empty_or_active(r.saved()),
    {
        PipState { saved: None }
    }

    /// Whether entering picture-in-picture is to be skipped because the mode
    /// is already on.
    pub fn is_pip_active(&self) -> (r: bool)
        ensures
            r == self.active(),
    {
        match self.saved {
            Some(s) => s.pip_active,
            None => false,
        }
    }

    /// Saves the window as it was before entering picture-in-picture.
    pub fn save_for_pip(&mut self, current: WindowState)
        ensures
            final(self).saved() == Some(saved_on_entry(current)),
            empty_or_active(final(self).saved()),
    {
        self.saved = Some(WindowState { pip_active: true, ..current });
    }

    /// Leaving picture-in-picture: the saved state is taken out in every case;
    /// it is handed back to be restored when it says the mode is on.
    pub fn exit_pip(&mut self) -> (r: Result<WindowState, PipError>)
        ensures
            final(self).saved() is None,
            empty_or_active(final(self).saved()),
            r == exit_outcome(old(self).saved()),
            empty_or_active(old(self).saved()) ==> r != Err::<WindowState, PipError>(
                PipError::NotActive,
            ),
    {
        let taken = self.saved.take();
        match taken {
            None => Err(PipError::NoSavedState),
            Some(s) => if s.pip_active {
                Ok(s)
            } else {
                Err(PipError::NotActive)
            },
        }
    }
}

/// The screen size to place the window on: the monitor's size, read as
/// signed numbers, or 1920 by 1080 when no monitor was found.
pub open spec fn spec_screen_size(monitor: Option<(u32, u32)>) -> (i32, i32) {
    match monitor {
        Some((w, h)) => (w as i32, h as i32),
        None => (1920i32, 1080i32),
    }
}

/// The screen size used to place the picture-in-picture window.
pub fn screen_size(monitor: Option<(u32, u32)>) -> (r: (i32, i32))
    ensures
        r == spec_screen_size(monitor),
{
    match monitor {
        Some((w, h)) => (w as i32, h as i32),
        None => (1920i32, 1080i32),
    }
}

/// The bottom-right placement, as unbounded integers: the window's size and
/// the padding are taken off the screen's size.
pub open spec fn pip_corner(config: PipWindowConfig, screen: (i32, i32)) -> (int, int) {
    (
        screen.0 - (config.width as i32) - config.padding,
        screen.1 - (config.height as i32) - config.padding,
    )
}

/// The placement fits in the window system's signed coordinates.
pub open spec fn pip_corner_fits(config: PipWindowConfig, screen: (i32, i32)) -> bool {
    let (x, y) = pip_corner(config, screen);
    &&& i32::MIN <= screen.0 - (config.width as i32) <= i32::MAX
    &&& i32::MIN <= screen.1 - (config.height as i32) <= i32::MAX
    &&& i32::MIN <= x <= i32::MAX
    &&& i32::MIN <= y <= i32::MAX
}

/// Where the picture-in-picture window goes: the bottom-right corner of the
/// screen, `padding` pixels in from both edges.
pub fn pip_position(config: PipWindowConfig, screen: (i32, i32)) -> (r: (i32, i32))
    requires
        pip_corner_fits(config, screen),
    ensures
        r.0 == pip_corner(config, screen).0,
        r.1 == pip_corner(config, screen).1,
{
    let x = screen.0 - (config.width as i32) - config.padding;
    let y = screen.1 - (config.height as i32) - config.padding;
    (x, y)
}

/// The picture-in-picture window sits in the bottom-right corner of every
/// screen: its right and bottom edges are `padding` pixels in from the
/// screen's right and bottom edges.
pub proof fn law_pip_window_at_bottom_right(config: PipWindowConfig, screen: (i32, i32))
    ensures
        pip_corner(config, screen).0 + (config.width as i32) + config.padding == screen.0,
        pip_corner(config, screen).1 + (config.height as i32) + config.padding == screen.1,
{
}

/// Entering and then leaving picture-in-picture hands back the window's
/// size, position, decorations and resizability exactly as they were.
pub proof fn law_exit_restores_entry(current: WindowState)
    ensures
        exit_outcome(Some(saved_on_entry(current))) matches Ok(s) && s.width == current.width
            && s.height == current.height && s.x == current.x && s.y == current.y
            && s.decorations_enabled == current.decorations_enabled && s.resizable
            == current.resizable,
{
}

/// Once entered, picture-in-picture counts as on, so entering again is
/// skipped and the first saved state is kept.
pub proof fn law_entry_is_idempotent(current: WindowState, later: WindowState)
    ensures
        saved_on_entry(current).pip_active,
        after_call(Some(saved_on_entry(current)), PipCall::Enter(later)) == Some(
            saved_on_entry(current),
        ),
{
}

/// From nothing saved, after any sequence of entering and leaving, the saved
/// state is empty or says that the mode is on; so leaving is never refused
/// as not active.
pub proof fn law_state_is_empty_or_active(calls: Seq<PipCall>)
    ensures
        empty_or_active(after_calls(None, calls)),
        exit_outcome(after_calls(None, calls)) != Err::<WindowState, PipError>(
            PipError::NotActive,
        ),
    decreases calls.len(),
{
    if calls.len() > 0 {
        law_state_is_empty_or_active(calls.drop_last());
    }
}

/// Leaving takes the saved state out, so leaving a second time is refused
/// for want of a saved state.
pub proof fn law_second_exit_refused()
    ensures
        exit_outcome(None) == Err::<WindowState, PipError>(PipError::NoSavedState),
{
}

} // verus!
