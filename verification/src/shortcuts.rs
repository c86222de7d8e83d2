//! Key bindings: what a key chord triggers.

use crate::entities::Command;
use crate::entities::Direction;
use crate::entities::VerticalDirection;
use crate::entities::WorkspacePosition;
use crate::state::State;
use crate::state::WindowManager;
use vstd::prelude::*;

verus! {

/// The keysym that stands for no key.
pub const KEY_NO_SYMBOL: u32 = 0x0000;

pub const KEY_BACKSPACE: u32 = 0xff08;

pub const KEY_HOME: u32 = 0xff50;

pub const KEY_LEFT: u32 = 0xff51;

pub const KEY_UP: u32 = 0xff52;

pub const KEY_RIGHT: u32 = 0xff53;

pub const KEY_DOWN: u32 = 0xff54;

pub const KEY_END: u32 = 0xff57;

pub const KEY_SPACE: u32 = 0x0020;

pub const KEY_C: u32 = 0x0063;

pub const KEY_F: u32 = 0x0066;

pub const KEY_R: u32 = 0x0072;

/// A key chord: a keysym and the modifiers held with it.
#[derive(Debug, PartialEq, Eq, Structural, PartialOrd, Ord, Clone, Copy)]
pub struct Keybinding {
    pub alt: bool,
    pub ctrl: bool,
    pub logo: bool,
    pub shift: bool,
    pub key: u32,
}

/// An action of the window manager.
#[allow(inconsistent_fields)]
#[derive(Debug, PartialEq, Clone)]
pub enum ActionShortcut {
    NavigateToFirst,
    NavigateToLast,
    Navigate { direction: Direction },
    NavigateWorkspace { direction: VerticalDirection },
    NavigateMonitor { direction: Direction },
    MoveWindow { direction: Direction },
    MoveWindowWorkspace { direction: VerticalDirection },
    MoveWindowMonitor { direction: Direction },
    /// The widths to step through, each a share of the monitor in units of
    /// `STEP_SCALE`.
    ResizeWindow { steps: Vec<u32> },
    CenterWindow,
    CloseWindow,
    SwitchKeyboardLayout,
    DebugPrintWindows,
}

/// An external command.
#[derive(Debug, PartialEq, Clone)]
pub struct CommandShortcut {
    pub cmd: String,
    pub args: Vec<String>,
}

/// What a key chord triggers.
#[derive(Debug, PartialEq, Clone)]
pub enum KeyboardShortcut {
    Action(ActionShortcut),
    Command(CommandShortcut),
}

/// A key chord with what it triggers.
#[derive(Debug, PartialEq, Clone)]
pub struct Binding {
    pub chord: Keybinding,
    pub shortcut: KeyboardShortcut,
}

/// The first index from `from` on of a binding of the chord `chord`.
pub open spec fn binding_index(bindings: Seq<Binding>, chord: Keybinding, from: int) -> Option<int>
    decreases bindings.len() - from,
{
    if from < 0 || from >= bindings.len() {
        None
    } else if bindings[from].chord == chord {
        Some(from)
    } else {
        binding_index(bindings, chord, from + 1)
    }
}

/// The chord of a key held with the logo key and the given other modifiers.
pub open spec fn logo_chord(key: u32, alt: bool, ctrl: bool) -> Keybinding {
    Keybinding { alt, ctrl, logo: true, shift: false, key }
}

/// Whether `shortcut` steps through the widths `steps`.
pub open spec fn resizes_along(shortcut: KeyboardShortcut, steps: Seq<u32>) -> bool {
    match shortcut {
        KeyboardShortcut::Action(ActionShortcut::ResizeWindow { steps: own }) => own@ == steps,
        _ => false,
    }
}

/// Whether `binding` is the default binding number `i`. All default chords
/// hold the logo key: Home and End go to the first and the last window, the
/// arrows navigate, with Alt between monitors; with Ctrl they move the
/// window; `r` steps through a third, a half and two thirds of the monitor,
/// `f` takes its full width, `c` centres, BackSpace closes and space
/// switches the keyboard layout.
pub open spec fn is_default_binding(i: int, binding: Binding) -> bool {
    let chord = binding.chord;
    let shortcut = binding.shortcut;
    if i == 0 {
        chord == logo_chord(KEY_HOME, false, false) && shortcut == KeyboardShortcut::Action(
            ActionShortcut::NavigateToFirst,
        )
    } else if i == 1 {
        chord == logo_chord(KEY_END, false, false) && shortcut == KeyboardShortcut::Action(
            ActionShortcut::NavigateToLast,
        )
    } else if i == 2 {
        chord == logo_chord(KEY_LEFT, false, false) && shortcut == KeyboardShortcut::Action(
            ActionShortcut::Navigate { direction: Direction::Left },
        )
    } else if i == 3 {
        chord == logo_chord(KEY_RIGHT, false, false) && shortcut == KeyboardShortcut::Action(
            ActionShortcut::Navigate { direction: Direction::Right },
        )
    } else if i == 4 {
        chord == logo_chord(KEY_UP, false, false) && shortcut == KeyboardShortcut::Action(
            ActionShortcut::NavigateWorkspace { direction: VerticalDirection::Up },
        )
    } else if i == 5 {
        chord == logo_chord(KEY_DOWN, false, false) && shortcut == KeyboardShortcut::Action(
            ActionShortcut::NavigateWorkspace { direction: VerticalDirection::Down },
        )
    } else if i == 6 {
        chord == logo_chord(KEY_LEFT, true, false) && shortcut == KeyboardShortcut::Action(
            ActionShortcut::NavigateMonitor { direction: Direction::Left },
        )
    } else if i == 7 {
        chord == logo_chord(KEY_RIGHT, true, false) && shortcut == KeyboardShortcut::Action(
            ActionShortcut::NavigateMonitor { direction: Direction::Right },
        )
    } else if i == 8 {
        chord == logo_chord(KEY_LEFT, false, true) && shortcut == KeyboardShortcut::Action(
            ActionShortcut::MoveWindow { direction: Direction::Left },
        )
    } else if i == 9 {
        chord == logo_chord(KEY_RIGHT, false, true) && shortcut == KeyboardShortcut::Action(
            ActionShortcut::MoveWindow { direction: Direction::Right },
        )
    } else if i == 10 {
        chord == logo_chord(KEY_UP, false, true) && shortcut == KeyboardShortcut::Action(
            ActionShortcut::MoveWindowWorkspace { direction: VerticalDirection::Up },
        )
    } else if i == 11 {
        chord == logo_chord(KEY_DOWN, false, true) && shortcut == KeyboardShortcut::Action(
            ActionShortcut::MoveWindowWorkspace { direction: VerticalDirection::Down },
        )
    } else if i == 12 {
        chord == logo_chord(KEY_LEFT, true, true) && shortcut == KeyboardShortcut::Action(
            ActionShortcut::MoveWindowMonitor { direction: Direction::Left },
        )
    } else if i == 13 {
        chord == logo_chord(KEY_RIGHT, true, true) && shortcut == KeyboardShortcut::Action(
            ActionShortcut::MoveWindowMonitor { direction: Direction::Right },
        )
    } else if i == 14 {
        chord == logo_chord(KEY_R, false, false) && resizes_along(
            shortcut,
            seq![330_000u32, 500_000u32, 660_000u32],
        )
    } else if i == 15 {
        chord == logo_chord(KEY_F, false, false) && resizes_along(shortcut, seq![1_000_000u32])
    } else if i == 16 {
        chord == logo_chord(KEY_C, false, false) && shortcut == KeyboardShortcut::Action(
            ActionShortcut::CenterWindow,
        )
    } else if i == 17 {
        chord == logo_chord(KEY_BACKSPACE, false, false) && shortcut == KeyboardShortcut::Action(
            ActionShortcut::CloseWindow,
        )
    } else if i == 18 {
        chord == logo_chord(KEY_SPACE, false, false) && shortcut == KeyboardShortcut::Action(
            ActionShortcut::SwitchKeyboardLayout,
        )
    } else {
        false
    }
}

/// The bindings of key chords, in the order in which they were made. No
/// chord is bound twice.
#[derive(Debug, PartialEq)]
pub struct KeyboardShortcutsConfig {
    bindings: Vec<Binding>,
}

impl View for KeyboardShortcutsConfig {
    type V = Seq<Binding>;

    closed spec fn view(&self) -> Seq<Binding> {
        self.bindings@
    }
}

/// Whether no chord is bound twice in `bindings`.
pub open spec fn distinct_chords(bindings: Seq<Binding>) -> bool {
    forall|i: int, j: int|
        0 <= i < bindings.len() && 0 <= j < bindings.len() && i != j ==> (
        #[trigger] bindings[i]).chord != (#[trigger] bindings[j]).chord
}

/// Where `binding_index` finds nothing, the chord is not bound; what it
/// finds is a binding of the chord.
pub proof fn lemma_binding_index(bindings: Seq<Binding>, chord: Keybinding, from: int)
    requires
        0 <= from <= bindings.len(),
    ensures
        match binding_index(bindings, chord, from) {
            Some(i) => from <= i < bindings.len() && bindings[i].chord == chord,
            None => forall|k: int| from <= k < bindings.len() ==> (#[trigger] bindings[k]).chord
                != chord,
        },
    decreases bindings.len() - from,
{
    if from < bindings.len() && bindings[from].chord != chord {
        lemma_binding_index(bindings, chord, from + 1);
    }
}

/// The binding of a key held with the logo key.
fn logo_binding(key: u32, alt: bool, ctrl: bool, action: ActionShortcut) -> (binding: Binding)
    ensures
        binding == (Binding {
            chord: logo_chord(key, alt, ctrl),
            shortcut: KeyboardShortcut::Action(action),
        }),
{
    Binding {
        chord: Keybinding { alt, ctrl, logo: true, shift: false, key },
        shortcut: KeyboardShortcut::Action(action),
    }
}

impl KeyboardShortcutsConfig {
    #[verifier::type_invariant]
    spec fn one_binding_each(self) -> bool {
        distinct_chords(self.bindings@)
    }

    /// No bindings.
    pub fn new() -> (config: KeyboardShortcutsConfig)
        ensures
            config@ == Seq::<Binding>::empty(),
    {
        KeyboardShortcutsConfig { bindings: Vec::new() }
    }

    /// No chord is bound twice. This holds of every set of bindings.
    pub fn distinct(&self)
        ensures
            distinct_chords(self@),
    {
        proof {
            use_type_invariant(self);
        }
    }

    /// The bindings, in the order in which they were made.
    pub fn bindings(&self) -> (bindings: &Vec<Binding>)
        ensures
            bindings@ == self@,
            distinct_chords(bindings@),
    {
        proof {
            use_type_invariant(self);
        }
        &self.bindings
    }

    /// The position of the binding of `chord`.
    pub fn position(&self, chord: &Keybinding) -> (found: Option<usize>)
        ensures
            match found {
                Some(i) => i < self@.len() && binding_index(self@, *chord, 0) == Some(i as int),
                None => binding_index(self@, *chord, 0).is_none(),
            },
    {
        let n: usize = self.bindings.len();
        let mut k: usize = 0;
        while k < n
            invariant
                n == self@.len(),
                k <= n,
                binding_index(self@, *chord, 0) == binding_index(self@, *chord, k as int),
            decreases n - k,
        {
            if self.bindings[k].chord == *chord {
                return Some(k);
            }
            k = k + 1;
        }
        None
    }

    /// What `chord` triggers.
    pub fn get(&self, chord: &Keybinding) -> (shortcut: Option<&KeyboardShortcut>)
        ensures
            match shortcut {
                Some(s) => binding_index(self@, *chord, 0).is_some() && *s == self@[binding_index(
                    self@,
                    *chord,
                    0,
                ).unwrap()].shortcut,
                None => binding_index(self@, *chord, 0).is_none(),
            },
    {
        match self.position(chord) {
            Some(i) => Some(&self.bindings[i].shortcut),
            None => None,
        }
    }

    /// Binds `chord` to `shortcut`, in place of what it was bound to before.
    pub fn insert(&mut self, chord: Keybinding, shortcut: KeyboardShortcut)
        ensures
            final(self)@ == match binding_index(old(self)@, chord, 0) {
                Some(i) => old(self)@.update(i, Binding { chord, shortcut }),
                None => old(self)@.push(Binding { chord, shortcut }),
            },
            distinct_chords(final(self)@),
    {
        proof {
            use_type_invariant(&*self);
            lemma_binding_index(self@, chord, 0);
        }
        let found = self.position(&chord);
        let mut taken = KeyboardShortcutsConfig { bindings: Vec::new() };
        core::mem::swap(self, &mut taken);
        let KeyboardShortcutsConfig { bindings } = taken;
        let mut bindings = bindings;
        match found {
            Some(i) => {
                bindings.set(i, Binding { chord, shortcut });
            },
            None => {
                bindings.push(Binding { chord, shortcut });
            },
        }
        *self = KeyboardShortcutsConfig { bindings };
    }

    /// The default bindings.
    pub fn default_bindings() -> (config: KeyboardShortcutsConfig)
        ensures
            config@.len() == 19,
            forall|i: int| 0 <= i < 19 ==> is_default_binding(i, #[trigger] config@[i]),
            distinct_chords(config@),
    {
        let left = Direction::Left;
        let right = Direction::Right;
        let up = VerticalDirection::Up;
        let down = VerticalDirection::Down;
        let mut bindings: Vec<Binding> = Vec::new();
        bindings.push(logo_binding(KEY_HOME, false, false, ActionShortcut::NavigateToFirst));
        bindings.push(logo_binding(KEY_END, false, false, ActionShortcut::NavigateToLast));
        bindings.push(
            logo_binding(KEY_LEFT, false, false, ActionShortcut::Navigate { direction: left }),
        );
        bindings.push(
            logo_binding(KEY_RIGHT, false, false, ActionShortcut::Navigate { direction: right }),
        );
        bindings.push(
            logo_binding(
                KEY_UP,
                false,
                false,
                ActionShortcut::NavigateWorkspace { direction: up },
            ),
        );
        bindings.push(
            logo_binding(
                KEY_DOWN,
                false,
                false,
                ActionShortcut::NavigateWorkspace { direction: down },
            ),
        );
        bindings.push(
            logo_binding(
                KEY_LEFT,
                true,
                false,
                ActionShortcut::NavigateMonitor { direction: left },
            ),
        );
        bindings.push(
            logo_binding(
                KEY_RIGHT,
                true,
                false,
                ActionShortcut::NavigateMonitor { direction: right },
            ),
        );
        bindings.push(
            logo_binding(KEY_LEFT, false, true, ActionShortcut::MoveWindow { direction: left }),
        );
        bindings.push(
            logo_binding(KEY_RIGHT, false, true, ActionShortcut::MoveWindow { direction: right }),
        );
        bindings.push(
            logo_binding(
                KEY_UP,
                false,
                true,
                ActionShortcut::MoveWindowWorkspace { direction: up },
            ),
        );
        bindings.push(
            logo_binding(
                KEY_DOWN,
                false,
                true,
                ActionShortcut::MoveWindowWorkspace { direction: down },
            ),
        );
        bindings.push(
            logo_binding(
                KEY_LEFT,
                true,
                true,
                ActionShortcut::MoveWindowMonitor { direction: left },
            ),
        );
        bindings.push(
            logo_binding(
                KEY_RIGHT,
                true,
                true,
                ActionShortcut::MoveWindowMonitor { direction: right },
            ),
        );
        let mut thirds: Vec<u32> = Vec::new();
        thirds.push(330_000);
        thirds.push(500_000);
        thirds.push(660_000);
        assert(thirds@ =~= seq![330_000u32, 500_000u32, 660_000u32]);
        bindings.push(
            logo_binding(KEY_R, false, false, ActionShortcut::ResizeWindow { steps: thirds }),
        );
        let mut full: Vec<u32> = Vec::new();
        full.push(1_000_000);
        assert(full@ =~= seq![1_000_000u32]);
        bindings.push(
            logo_binding(KEY_F, false, false, ActionShortcut::ResizeWindow { steps: full }),
        );
        bindings.push(logo_binding(KEY_C, false, false, ActionShortcut::CenterWindow));
        bindings.push(logo_binding(KEY_BACKSPACE, false, false, ActionShortcut::CloseWindow));
        bindings.push(
            logo_binding(KEY_SPACE, false, false, ActionShortcut::SwitchKeyboardLayout),
        );
        proof {
            assert forall|i: int, j: int|
                0 <= i < bindings@.len() && 0 <= j < bindings@.len() && i != j implies (
            #[trigger] bindings@[i]).chord != (#[trigger] bindings@[j]).chord by {
                assert(is_default_binding(i, bindings@[i]));
                assert(is_default_binding(j, bindings@[j]));
            }
        }
        KeyboardShortcutsConfig { bindings }
    }
}

impl Default for KeyboardShortcutsConfig {
    fn default() -> (config: KeyboardShortcutsConfig)
        ensures
            config@.len() == 19,
            forall|i: int| 0 <= i < 19 ==> is_default_binding(i, #[trigger] config@[i]),
            distinct_chords(config@),
    {
        KeyboardShortcutsConfig::default_bindings()
    }
}

impl State {
    /// The state after the action `action` was triggered.
    pub open spec fn action_triggered(self, action: ActionShortcut) -> State {
        match action {
            ActionShortcut::NavigateToFirst => self.navigated_first(),
            ActionShortcut::NavigateToLast => self.navigated_last(),
            ActionShortcut::Navigate { direction } => self.navigated(direction),
            ActionShortcut::NavigateWorkspace { direction } => self.workspace_switched(direction),
            ActionShortcut::NavigateMonitor { direction } => self.navigated_monitor(
                direction,
                WorkspacePosition::ActiveWindow,
            ),
            ActionShortcut::MoveWindow { direction } => self.window_moved(direction),
            ActionShortcut::MoveWindowWorkspace { direction } => self.window_moved_vertically(
                direction,
            ),
            ActionShortcut::MoveWindowMonitor { direction } => self.window_moved_to_monitor(
                direction,
                WorkspacePosition::ActiveWindow,
            ),
            ActionShortcut::ResizeWindow { steps } => self.window_resized(steps@),
            ActionShortcut::CenterWindow => self.window_centered(),
            ActionShortcut::CloseWindow => self.close_requested(),
            ActionShortcut::SwitchKeyboardLayout => self.keyboard_layout_switched(),
            ActionShortcut::DebugPrintWindows => self,
        }
    }

    /// The state after the shortcut `shortcut`, binding number `index`, was
    /// triggered: an action is carried out, an external command is handed on
    /// to be run.
    pub open spec fn shortcut_triggered(self, shortcut: KeyboardShortcut, index: int) -> State {
        match shortcut {
            KeyboardShortcut::Action(action) => self.action_triggered(action),
            KeyboardShortcut::Command(_) => self.with_command(
                Command::Spawn { shortcut: index as usize },
            ),
        }
    }

    /// The state after the key of `chord` went down or up: a key that goes
    /// down triggers what the chord is bound to.
    pub open spec fn key_handled(self, bindings: Seq<Binding>, chord: Keybinding, pressed: bool)
        -> State {
        match binding_index(bindings, chord, 0) {
            Some(i) => if pressed {
                self.shortcut_triggered(bindings[i].shortcut, i)
            } else {
                self
            },
            None => self,
        }
    }
}

impl ActionShortcut {
    /// Carries the action out.
    pub fn triggered(&self, wm: &mut WindowManager)
        ensures
            final(wm)@ == old(wm)@.action_triggered(*self),
    {
        match self {
            ActionShortcut::NavigateToFirst => wm.naviate_first(),
            ActionShortcut::NavigateToLast => wm.naviate_last(),
            ActionShortcut::Navigate { direction } => wm.naviate(*direction),
            ActionShortcut::NavigateWorkspace { direction } => wm.switch_workspace(*direction),
            ActionShortcut::NavigateMonitor { direction } => wm.navigate_monitor(
                *direction,
                WorkspacePosition::ActiveWindow,
            ),
            ActionShortcut::MoveWindow { direction } => wm.move_window(*direction),
            ActionShortcut::MoveWindowWorkspace { direction } => wm.move_window_vertically(
                *direction,
            ),
            ActionShortcut::MoveWindowMonitor { direction } => wm.move_window_to_monitor(
                *direction,
                WorkspacePosition::ActiveWindow,
            ),
            ActionShortcut::ResizeWindow { steps } => wm.resize_window(steps),
            ActionShortcut::CenterWindow => wm.center_window(),
            ActionShortcut::CloseWindow => wm.close_window(),
            ActionShortcut::SwitchKeyboardLayout => wm.switch_keyboard_layout(),
            ActionShortcut::DebugPrintWindows => {},
        }
    }
}

impl KeyboardShortcut {
    /// Triggers the shortcut, binding number `index`.
    pub fn triggered(&self, wm: &mut WindowManager, index: usize)
        ensures
            final(wm)@ == old(wm)@.shortcut_triggered(*self, index as int),
    {
        match self {
            KeyboardShortcut::Action(action) => action.triggered(wm),
            KeyboardShortcut::Command(_) => wm.emit(Command::Spawn { shortcut: index }),
        }
    }
}

impl WindowManager {
    /// Handles a key that went down or up with the modifiers of `chord`
    /// held. Returns whether the key triggered a shortcut and goes no
    /// further.
    pub fn handle_key_press(
        &mut self,
        config: &KeyboardShortcutsConfig,
        chord: &Keybinding,
        pressed: bool,
    ) -> (consumed: bool)
        ensures
            consumed == (pressed && binding_index(config@, *chord, 0).is_some()),
            final(self)@ == old(self)@.key_handled(config@, *chord, pressed),
    {
        if !pressed {
            return false;
        }
        match config.position(chord) {
            Some(i) => {
                config.bindings[i].shortcut.triggered(self, i);
                true
            },
            None => false,
        }
    }
}

} // verus!
