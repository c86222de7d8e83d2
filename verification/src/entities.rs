//! The entities of the window manager: identifiers, windows, monitors and
//! pointer gestures.

use crate::geometry::Displacement;
use crate::geometry::Point;
use crate::geometry::Rectangle;
use crate::geometry::Size;
use crate::geometry::clamp_i32;
use crate::geometry::sat_sub;
use vstd::prelude::*;

verus! {

/// The stable identity of a window, a workspace or a monitor.
pub type Id = u64;

/// Hands out identifiers, starting at 1, each one once.
#[derive(Debug)]
pub struct IdGenerator {
    next_id: Id,
}

impl IdGenerator {
    /// The identifier that the next call of `next_id` returns.
    pub closed spec fn upcoming(&self) -> Id {
        self.next_id
    }

    pub fn new() -> (generator: IdGenerator)
        ensures
            generator.upcoming() == 1,
    {
        IdGenerator { next_id: 1 }
    }

    /// Whether every identifier has been handed out.
    pub fn is_exhausted(&self) -> (exhausted: bool)
        ensures
            exhausted == (self.upcoming() == u64::MAX),
    {
        self.next_id == u64::MAX
    }

    /// A new identifier.
    pub fn next_id(&mut self) -> (id: Id)
        requires
            old(self).upcoming() < u64::MAX,
        ensures
            id == old(self).upcoming(),
            final(self).upcoming() == id + 1,
    {
        let id = self.next_id;
        self.next_id = id + 1;
        id
    }
}

/// Whether a window stands still or is on its way to a target position.
#[derive(Debug, PartialEq, Eq, Structural, Clone, Copy)]
pub enum AnimationStatus {
    Still,
    IsAnimating(Point),
}

/// A horizontal direction.
#[derive(Debug, PartialEq, Eq, Structural, Clone, Copy)]
pub enum Direction {
    Left,
    Right,
}

/// A vertical direction.
#[derive(Debug, PartialEq, Eq, Structural, Clone, Copy)]
pub enum VerticalDirection {
    Up,
    Down,
}

/// A place in the window sequence of a workspace.
#[derive(Debug, PartialEq, Eq, Structural, Clone, Copy)]
pub enum WorkspacePosition {
    /// At the window used most recently; a new window goes right after it.
    ActiveWindow,
    /// At the leftmost window.
    Start,
    /// At the rightmost window.
    End,
    /// At the window under a point.
    Coordinate(Point),
}

/// How a monitor is entered.
#[derive(Debug, PartialEq, Eq, Structural, Clone, Copy)]
pub enum Activation {
    /// At the window that was active there last.
    LastActive,
    /// At the edge that faces the direction one comes from.
    FromDirection,
}

impl Activation {
    /// The place at which a workspace is entered when moving in `direction`.
    pub open spec fn spec_position(self, direction: Direction) -> WorkspacePosition {
        match (self, direction) {
            (Activation::LastActive, _) => WorkspacePosition::ActiveWindow,
            (Activation::FromDirection, Direction::Left) => WorkspacePosition::End,
            (Activation::FromDirection, Direction::Right) => WorkspacePosition::Start,
        }
    }

    /// The place at which a workspace is entered when moving in
    /// `direction`.
    pub fn position(self, direction: Direction) -> (position: WorkspacePosition)
        ensures
            position == self.spec_position(direction),
    {
        match self {
            Activation::LastActive => WorkspacePosition::ActiveWindow,
            Activation::FromDirection => match direction {
                Direction::Left => WorkspacePosition::End,
                Direction::Right => WorkspacePosition::Start,
            },
        }
    }
}

/// What the compositor reports of a surface.
#[derive(Debug, PartialEq, Eq, Structural, Clone, Copy)]
pub struct WindowInfo {
    /// The surface accepts keyboard focus.
    pub can_receive_focus: bool,
    pub maximized: bool,
    pub fullscreen: bool,
    /// An interactive resize of the surface is in progress.
    pub resizing: bool,
    /// The surface is a transient child of another one.
    pub has_parent: bool,
    /// The title of the surface is on the blocklist, see [`is_blocked_title`].
    pub blocked_title: bool,
    /// The extents that the surface has on screen.
    pub extents: Rectangle,
    /// The largest width the client accepts; `i32::MAX` if it sets no limit.
    pub max_width: i32,
    /// The largest height the client accepts; `i32::MAX` if it sets no limit.
    pub max_height: i32,
}

/// The title of the launcher popup that never takes part in the tiling.
pub open spec fn blocked_title() -> Seq<char> {
    "Ulauncher window title"@
}

/// Whether a surface with this title is kept out of the tiling.
pub fn is_blocked_title(title: &str) -> (blocked: bool)
    ensures
        blocked == (title@ == blocked_title()),
{
    let blocked = "Ulauncher window title";
    let n: usize = title.unicode_len();
    if n != blocked.unicode_len() {
        return false;
    }
    let mut i: usize = 0;
    while i < n
        invariant
            n == title@.len(),
            n == blocked@.len(),
            blocked@ == blocked_title(),
            i <= n,
            forall|k: int| 0 <= k < i ==> title@[k] == blocked@[k],
        decreases n - i,
    {
        if title.get_char(i) != blocked.get_char(i) {
            return false;
        }
        i = i + 1;
    }
    assert(title@ =~= blocked@);
    true
}

/// A handle onto a surface that the compositor manages.
#[derive(Debug, PartialEq, Eq, Structural, Clone, Copy)]
pub struct Window {
    pub id: Id,
    /// The workspace that lists the window, if any.
    pub on_workspace: Option<Id>,
    /// The pending position: where the layout wants the window, in
    /// workspace-local coordinates.
    pub x: i32,
    pub y: i32,
    pub size: Size,
    /// The current position: the rectangle committed last, on screen.
    pub rendered: Rectangle,
    /// The window follows the pointer in a move gesture.
    pub is_dragged: bool,
    pub info: WindowInfo,
}

impl Window {
    /// Whether the window takes part in the tiling: it accepts focus, is not
    /// fullscreen, is no transient child and its title is not blocked.
    pub open spec fn spec_is_tiled(self) -> bool {
        &&& self.info.can_receive_focus
        &&& !self.info.fullscreen
        &&& !self.info.has_parent
        &&& !self.info.blocked_title
    }

    /// The pending position as a rectangle in workspace-local coordinates.
    pub open spec fn pending(self) -> Rectangle {
        Rectangle { top_left: Point { x: self.x, y: self.y }, size: self.size }
    }

    /// The pending position as seen through a viewport scrolled by
    /// `scroll_left`.
    pub open spec fn spec_screen_extents(self, scroll_left: i32) -> Rectangle {
        Rectangle {
            top_left: Point { x: clamp_i32(self.x - scroll_left), y: self.y },
            size: self.size,
        }
    }

    /// A window for a surface that just became ready: it is on no workspace
    /// and both its positions are the extents that the compositor reports.
    pub fn new(id_generator: &mut IdGenerator, info: WindowInfo) -> (window: Window)
        requires
            old(id_generator).upcoming() < u64::MAX,
        ensures
            final(id_generator).upcoming() == old(id_generator).upcoming() + 1,
            window == (Window {
                id: old(id_generator).upcoming(),
                on_workspace: None,
                x: info.extents.top_left.x,
                y: info.extents.top_left.y,
                size: info.extents.size,
                rendered: info.extents,
                is_dragged: false,
                info,
            }),
    {
        Window {
            id: id_generator.next_id(),
            on_workspace: None,
            x: info.extents.top_left.x,
            y: info.extents.top_left.y,
            size: info.extents.size,
            rendered: info.extents,
            is_dragged: false,
            info,
        }
    }

    /// The x coordinate at which the window is or will be on screen, given
    /// its animation status.
    pub fn x(&self, status: AnimationStatus) -> (x: i32)
        ensures
            x == match status {
                AnimationStatus::IsAnimating(to) => to.x,
                AnimationStatus::Still => self.rendered.top_left.x,
            },
    {
        match status {
            AnimationStatus::IsAnimating(to) => to.x,
            AnimationStatus::Still => self.rendered.top_left.x,
        }
    }

    /// The y coordinate at which the window is or will be on screen, given
    /// its animation status.
    pub fn y(&self, status: AnimationStatus) -> (y: i32)
        ensures
            y == match status {
                AnimationStatus::IsAnimating(to) => to.y,
                AnimationStatus::Still => self.rendered.top_left.y,
            },
    {
        match status {
            AnimationStatus::IsAnimating(to) => to.y,
            AnimationStatus::Still => self.rendered.top_left.y,
        }
    }

    /// The committed width.
    pub fn width(&self) -> (w: i32)
        ensures
            w == self.rendered.size.width,
    {
        self.rendered.size.width
    }

    /// The committed height.
    pub fn height(&self) -> (h: i32)
        ensures
            h == self.rendered.size.height,
    {
        self.rendered.size.height
    }

    /// The rectangle committed last.
    pub fn rendered_pos(&self) -> (r: Rectangle)
        ensures
            r == self.rendered,
    {
        self.rendered
    }

    pub fn rendered_top_left(&self) -> (p: Point)
        ensures
            p == self.rendered.top_left,
    {
        self.rendered.top_left
    }

    pub fn rendered_size(&self) -> (s: Size)
        ensures
            s == self.rendered.size,
    {
        self.rendered.size
    }

    pub fn max_width(&self) -> (w: i32)
        ensures
            w == self.info.max_width,
    {
        self.info.max_width
    }

    pub fn max_height(&self) -> (h: i32)
        ensures
            h == self.info.max_height,
    {
        self.info.max_height
    }

    pub fn has_parent(&self) -> (b: bool)
        ensures
            b == self.info.has_parent,
    {
        self.info.has_parent
    }

    /// Whether the window takes part in the tiling.
    pub fn is_tiled(&self) -> (tiled: bool)
        ensures
            tiled == self.spec_is_tiled(),
    {
        self.info.can_receive_focus && !self.info.fullscreen && !self.info.has_parent
            && !self.info.blocked_title
    }

    /// Sets the pending size.
    pub fn set_size(&mut self, size: Size)
        ensures
            *final(self) == (Window { size, ..*old(self) }),
    {
        self.size = size;
    }

    /// Sets the pending position.
    pub fn set_position(&mut self, top_left: Point)
        ensures
            *final(self) == (Window { x: top_left.x, y: top_left.y, ..*old(self) }),
    {
        self.x = top_left.x;
        self.y = top_left.y;
    }

    /// Where the pending position lies on screen when the viewport of the
    /// workspace is scrolled by `scroll_left`.
    pub fn screen_extents(&self, scroll_left: i32) -> (r: Rectangle)
        ensures
            r == self.spec_screen_extents(scroll_left),
    {
        Rectangle {
            top_left: Point { x: sat_sub(self.x, scroll_left), y: self.y },
            size: self.size,
        }
    }
}

/// A physical output with the area that applications may use.
#[derive(Debug, PartialEq, Eq, Structural, Clone, Copy)]
pub struct Monitor {
    pub id: Id,
    /// The application zone: the monitor's area without panels and struts.
    pub extents: Rectangle,
    /// The workspace shown on the monitor.
    pub workspace: Id,
}

impl Monitor {
    pub fn new(id_generator: &mut IdGenerator, extents: Rectangle, workspace: Id) -> (monitor:
        Monitor)
        requires
            old(id_generator).upcoming() < u64::MAX,
        ensures
            final(id_generator).upcoming() == old(id_generator).upcoming() + 1,
            monitor == (Monitor { id: old(id_generator).upcoming(), extents, workspace }),
    {
        Monitor { id: id_generator.next_id(), extents, workspace }
    }
}

/// What the compositor is asked to do. The library never acts on a surface
/// itself: every operation leaves the commands to carry out, in order.
#[derive(Debug, PartialEq, Eq, Structural, Clone, Copy)]
pub enum Command {
    /// Move the window to this position on screen, at once.
    MoveTo { window: Id, top_left: Point },
    /// Give the window this position and size on screen.
    SetExtents { window: Id, extents: Rectangle },
    /// Draw the window displaced from its position by this much.
    SetTranslate { window: Id, by: Displacement },
    /// Give the keyboard focus to the window.
    FocusWindow { window: Id },
    /// Take the keyboard focus from every window.
    Blur,
    SetMaximized { window: Id, maximized: bool },
    SetFullscreen { window: Id, fullscreen: bool },
    SetResizing { window: Id, resizing: bool },
    AskClientToClose { window: Id },
    /// Install the configured keyboard layout with this index.
    SetKeyboardLayout { index: usize },
    /// Run the external command of the configured shortcut with this index.
    Spawn { shortcut: usize },
    /// Advance the animation callback: `elapsed` of `duration` microseconds
    /// have passed.
    StepCallback { callback: u64, elapsed: u64, duration: u64 },
}

/// The edges of a window that a resize gesture drags.
#[derive(Debug, PartialEq, Eq, Structural, Clone, Copy)]
pub struct WindowEdges {
    pub top: bool,
    pub bottom: bool,
    pub left: bool,
    pub right: bool,
}

/// The kind of gesture that a client asks for.
#[derive(Debug, PartialEq, Eq, Structural, Clone, Copy)]
pub enum GestureType {
    Move,
    Resize,
}

/// A move gesture in progress.
#[derive(Debug, PartialEq, Eq, Structural, Clone, Copy)]
pub struct MoveGesture {
    pub window: Id,
    /// The offset inside the window at which the user took hold of it.
    pub drag_anchor: Displacement,
}

/// A resize gesture in progress.
#[derive(Debug, PartialEq, Eq, Structural, Clone, Copy)]
pub struct ResizeGesture {
    pub window: Id,
    /// Where the pointer was when the gesture began.
    pub start_cursor: Point,
    pub edges: WindowEdges,
    /// The extents of the window when the gesture began.
    pub original_extents: Rectangle,
}

/// The pointer gesture in progress, if any.
#[derive(Debug, PartialEq, Eq, Structural, Clone, Copy)]
pub enum Gesture {
    Resize(ResizeGesture),
    Move(MoveGesture),
    /// No gesture is in progress.
    Idle,
}

impl Gesture {
    /// The window that the gesture holds.
    pub open spec fn spec_window(self) -> Option<Id> {
        match self {
            Gesture::Move(gesture) => Some(gesture.window),
            Gesture::Resize(gesture) => Some(gesture.window),
            Gesture::Idle => None,
        }
    }

    /// The window that the gesture holds.
    pub fn window(&self) -> (window: Option<Id>)
        ensures
            window == self.spec_window(),
    {
        match self {
            Gesture::Move(gesture) => Some(gesture.window),
            Gesture::Resize(gesture) => Some(gesture.window),
            Gesture::Idle => None,
        }
    }
}

} // verus!
