//! The desktop app's lifecycle and hotkey decisions: it keeps living in
//! the tray until the user asks to quit, closing the main window only hides
//! it, and each global hotkey maps to one action.

use vstd::prelude::*;

verus! {

/// What the event loop does with an event.
#[derive(Debug, Clone, Copy, PartialEq, Eq, Structural)]
pub enum AppAction {
    /// Let the process exit.
    AllowExit,
    /// Veto the exit and keep running in the tray.
    PreventExit,
    /// Hide the window and veto its closing.
    HideAndPreventClose,
    Nothing,
}

/// An event of the desktop event loop.
#[derive(Debug, Clone)]
pub enum AppEvent {
    ExitRequested,
    /// A window, by its label, asks to close.
    CloseRequested(String),
}

/// Whether the user asked to quit (tray menu, hotkey or the UI's quit command).
pub struct Lifecycle {
    quitting: bool,
}

impl Lifecycle {
    pub closed spec fn is_quitting(&self) -> bool {
        self.quitting
    }

    pub fn new() -> (l: Self)
        ensures
            !l.is_quitting(),
    {
        Lifecycle { quitting: false }
    }

    /// Record an explicit quit request.
    pub fn request_quit(&mut self)
        ensures
            final(self).is_quitting(),
    {
        self.quitting = true;
    }

    pub fn quitting(&self) -> (b: bool)
        ensures
            b == self.is_quitting(),
    {
        self.quitting
    }

    /// The action for an event: an exit goes through only after a quit
    /// request, and closing the main window hides it instead.
    pub fn on_event(&self, e: &AppEvent) -> (a: AppAction)
        ensures
            e is ExitRequested ==> a == (if self.is_quitting() {
                AppAction::AllowExit
            } else {
                AppAction::PreventExit
            }),
            e matches AppEvent::CloseRequested(l) ==> a == (if l@ == "main"@ {
                AppAction::HideAndPreventClose
            } else {
                AppAction::Nothing
            }),
    {
        match e {
            AppEvent::ExitRequested => {
                if self.quitting {
                    AppAction::AllowExit
                } else {
                    AppAction::PreventExit
                }
            },
            AppEvent::CloseRequested(label) => {
                if crate::text::chars_eq(crate::text::chars_of(label.as_str()).as_slice(), "main") {
                    AppAction::HideAndPreventClose
                } else {
                    AppAction::Nothing
                }
            },
        }
    }
}

/// The configurable global hotkeys.
#[derive(Debug, Clone, Copy, PartialEq, Eq, Structural)]
pub enum HotkeyKind {
    BrightnessUp,
    BrightnessDown,
    ToggleNight,
    ToggleWindow,
    Blackout,
}

/// What a hotkey event asks for.
#[derive(Debug, Clone, Copy, PartialEq, Eq, Structural)]
pub enum HotkeyAction {
    /// Step every monitor up by the configured step.
    StepUp,
    /// Step every monitor down by the configured step.
    StepDown,
    /// Set every monitor to 0%.
    Blackout,
    /// Set night mode to `on`; every monitor then goes to the night
    /// brightness when on, to 80% when off.
    Night { on: bool },
    /// Hide the main window.
    Hide,
    /// Show the main window and focus it.
    ShowAndFocus,
    Nothing,
}

/// The action for a hotkey event: `pressed` tells a press from a release,
/// `night_on` is the current night mode, and `window_visible` is whether the
/// main window is visible (`None` when there is no main window).
pub fn hotkey_action(kind: HotkeyKind, pressed: bool, night_on: bool, window_visible: Option<bool>) -> (a:
    HotkeyAction)
    ensures
        !pressed ==> a == HotkeyAction::Nothing,
        pressed ==> a == match kind {
            HotkeyKind::BrightnessUp => HotkeyAction::StepUp,
            HotkeyKind::BrightnessDown => HotkeyAction::StepDown,
            HotkeyKind::Blackout => HotkeyAction::Blackout,
            HotkeyKind::ToggleNight => HotkeyAction::Night { on: !night_on },
            HotkeyKind::ToggleWindow => match window_visible {
                Some(true) => HotkeyAction::Hide,
                Some(false) => HotkeyAction::ShowAndFocus,
                None => HotkeyAction::Nothing,
            },
        },
{
    if !pressed {
        return HotkeyAction::Nothing;
    }
    match kind {
        HotkeyKind::BrightnessUp => HotkeyAction::StepUp,
        HotkeyKind::BrightnessDown => HotkeyAction::StepDown,
        HotkeyKind::Blackout => HotkeyAction::Blackout,
        HotkeyKind::ToggleNight => HotkeyAction::Night { on: !night_on },
        HotkeyKind::ToggleWindow => match window_visible {
            Some(true) => HotkeyAction::Hide,
            Some(false) => HotkeyAction::ShowAndFocus,
            None => HotkeyAction::Nothing,
        },
    }
}

} // verus!
