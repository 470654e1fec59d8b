//! Input: what every key, click, wheel notch and page event does.

use crate::app::{
    Camera, Effect, Matches, News, Notice, ScanOptions, Screen, State, Volume, Web, Work,
};
use crate::codec;
use crate::keys;
use crate::keys::Key;
use crate::marks;
use crate::marks::{Plan, RemovalMode};
use crate::navigation::{Direction, ScoredTile};
use crate::single;
use crate::single::Single;
use crate::text;
use crate::tree;
use vstd::prelude::*;

verus! {

/// 1.25: one keyboard notch in.
pub const KEY_IN: u32 = 0x3fa0_0000;

/// 1 / 1.25: one keyboard notch out.
pub const KEY_OUT: u32 = 0x3f4c_cccd;

/// 1.15: one wheel notch in.
pub const WHEEL_IN: u32 = 0x3f93_3333;

/// 1 / 1.15: one wheel notch out.
pub const WHEEL_OUT: u32 = 0x3f5e_9bd4;

/// A mouse button the browser reports.
#[derive(Clone, Copy, Debug, PartialEq, Eq, Structural)]
pub enum MouseButton {
    Left,
    Middle,
}

/// What the machine around the state machine answers about one event: the
/// geometry at its point, and what the disk says.
#[derive(Debug)]
pub struct Around {
    /// The plan for the marks as they are.
    pub plan: Plan,
    /// The volume of the directory a scan would go to.
    pub volume: Volume,
    /// The drawn tiles, scored from the selection in the key's direction.
    pub tiles: Option<Vec<ScoredTile>>,
    /// The deepest tile under the event's point.
    pub under: Option<Vec<usize>>,
    /// The scale from which zooming in goes inside.
    pub limit: Single,
    /// The view, zoomed.
    pub zoomed: Camera,
    /// The view, panned.
    pub panned: Camera,
    /// The side panel's width, brought into its limits.
    pub panel: Single,
    /// What the find text matches in the directory on screen.
    pub found: Option<Matches>,
}

/// One browser event, as the shim serializes it.
#[derive(Debug)]
pub enum Event {
    /// A key press, with lowercase key names.
    Key { key: String, ctrl: bool, shift: bool, alt: bool },
    /// Pointer moved over the mosaic, in mosaic-local pixels.
    Move { x: Single, y: Single },
    Leave,
    Click { x: Single, y: Single, button: u8, ctrl: bool, count: u32 },
    Wheel { x: Single, y: Single, lines: Single, shift: bool },
    /// A pinch: zoom by an exact factor toward the midpoint, then in.
    Zoom { x: Single, y: Single, factor: Single },
    /// A one-finger drag: pan the magnified view, in screen pixels.
    Pan { dx: Single, dy: Single },
    /// The mosaic container's size.
    Size { w: Single, h: Single },
    /// The side panel's width, dragged by its edge.
    Panel { px: Single },
    /// Breadcrumb: go to a directory in the tree.
    Goto { crumbs: Vec<usize> },
    /// Breadcrumb above the root: widen the scan to there. The path is
    /// percent-encoded bytes: JSON is UTF-8, Unix filenames are not.
    Widen { path: String },
    /// Open (or close) a crumb's sibling menu, anchored at the crumb.
    Menu { crumbs: Vec<usize>, x: Single, y: Single },
    /// A sibling menu row was chosen.
    Sibling { parent: Vec<usize>, index: usize },
    /// A "worth a look" row: show the path in its directory.
    Reveal { crumbs: Vec<usize> },
    /// The panel's mark button acts on its own target.
    Mark { crumbs: Vec<usize> },
    /// Percent-encoded too, like [`Event::Widen`].
    Unmark { path: String },
    /// The Size | Files | Age segmented control.
    Mode { index: usize },
    /// The review screen's removal-mode choice.
    Removal { mode: String },
    /// The review screen's commit button.
    Commit,
    ConfirmDelete,
    CancelDelete,
    /// The find field's text, on every keystroke.
    Find { text: String },
    FindApply,
    FindClear,
}

/// A key that acts on "the current tile".
pub open spec fn acts_on_tile(key: Key) -> bool {
    match key {
        Key::Space
        | Key::X
        | Key::Enter
        | Key::Tab
        | Key::Left
        | Key::Right
        | Key::Up
        | Key::Down
        | Key::H
        | Key::J
        | Key::K
        | Key::L => true,
        _ => false,
    }
}

/// The way an arrow key points.
pub open spec fn key_direction(key: Key) -> Option<Direction> {
    match key {
        Key::Right | Key::L => Some(Direction::Right),
        Key::Left | Key::H => Some(Direction::Left),
        Key::Up | Key::K => Some(Direction::Up),
        Key::Down | Key::J => Some(Direction::Down),
        _ => None,
    }
}

/// A size a mosaic can have.
pub open spec fn usable_size(w: Single, h: Single) -> bool {
    let one = Single { bits: single::ONE };
    one.at_most(w) && one.at_most(h) && w.finite() && h.finite()
}

/// The optional tiles, by their views.
pub open spec fn opt_tiles(tiles: Option<Vec<ScoredTile>>) -> Option<Seq<ScoredTile>> {
    match tiles {
        Some(tiles) => Some(tiles@),
        None => None,
    }
}

impl State {
    /// At the bottom of the zoom, and zooming out.
    pub open spec fn bottomed(self, factor: Single) -> bool {
        factor.below(Single { bits: single::ONE }) && self.camera.scale.at_most(
            Single { bits: single::ABOVE_ONE },
        )
    }

    /// The directory that zooming in goes inside.
    pub open spec fn inside(self, factor: Single, around: Around) -> Option<Seq<usize>> {
        if (Single { bits: single::ONE }).below(factor) && around.limit.at_most(
            self.camera.scale,
        ) {
            match around.under {
                Some(hovered) => self.deepest(hovered@, hovered@.len() as int),
                None => None,
            }
        } else {
            None
        }
    }

    /// Zoom by `factor` at a point. At the bottom of the zoom, zooming out
    /// goes up a level; from the limit, zooming in goes inside the deepest
    /// directory under the point; otherwise the view magnifies.
    #[verifier::opaque]
    pub open spec fn zoom_at(self, factor: Single, descend: bool, around: Around) -> State {
        if self.bottomed(factor) {
            if descend {
                self.ascend()
            } else {
                self
            }
        } else if descend && self.inside(factor, around) is Some {
            self.enter(self.inside(factor, around)->0)
        } else {
            State { camera: around.zoomed, ..self }
        }
    }

    /// A key on the explore screen, the pointed-at tile adopted.
    #[verifier::opaque]
    pub open spec fn explore_key(
        self,
        key: Key,
        control: bool,
        shift: bool,
        around: Around,
    ) -> (State, Work) {
        match key {
            Key::Slash | Key::S => (
                State { find_open: self.find_open || !control, ..self },
                Work::Nothing,
            ),
            Key::Enter => (self.descend(), Work::Nothing),
            Key::Right
            | Key::L
            | Key::Left
            | Key::H
            | Key::Up
            | Key::K
            | Key::Down
            | Key::J => (
                if control {
                    self
                } else {
                    self.move_selection(key_direction(key)->0, opt_tiles(around.tiles))
                },
                Work::Nothing,
            ),
            Key::Backspace | Key::U => (
                if control {
                    self
                } else {
                    self.ascend()
                },
                Work::Nothing,
            ),
            Key::Escape => (self.step_back(), Work::Nothing),
            Key::Space => (self.toggle_mark_selected(), Work::Nothing),
            Key::X if !control => (self.toggle_mark_selected(), Work::Nothing),
            Key::Tab => (
                self.cycle_sibling(
                    if shift {
                        -1
                    } else {
                        1
                    },
                ),
                Work::Nothing,
            ),
            _ => self.screen_key(key, control, around),
        }
    }

    /// Escape: drop the filter, else the selection, else go up.
    #[verifier::opaque]
    pub open spec fn step_back(self) -> State {
        if self.matches is Some {
            self.clear_filter()
        } else if self.selected is Some {
            State { selected: None, ..self }
        } else {
            self.ascend()
        }
    }

    /// Go on to the review, once something is marked.
    #[verifier::opaque]
    pub open spec fn open_review(self) -> State {
        if self.marks.len() == 0 {
            State { notice: Some(News::MarkFirst), ..self }
        } else {
            State { screen: Screen::Review, ..self }
        }
    }

    /// Scan again with other options.
    #[verifier::opaque]
    pub open spec fn rescan_with(self, options: ScanOptions) -> (State, Work) {
        State { options, ..self }.start_scan()
    }

    /// A key on the explore screen that is about the whole screen.
    #[verifier::opaque]
    pub open spec fn screen_key(self, key: Key, control: bool, around: Around) -> (State, Work) {
        match key {
            Key::C if !control => (self.open_review(), Work::Nothing),
            Key::T if !control => self.set_mode(((self.mode_index() + 1) % 3) as usize),
            Key::R if !control => self.start_scan(),
            Key::G if !control => self.go_to_disk(around.volume),
            Key::I if !control => self.rescan_with(
                ScanOptions { include_hidden: !self.options.include_hidden, ..self.options },
            ),
            Key::D if !control => self.rescan_with(
                ScanOptions { apparent_size: !self.options.apparent_size, ..self.options },
            ),
            Key::P if !control => (
                State { show_selection: !self.show_selection, ..self },
                Work::Nothing,
            ),
            Key::Question => (State { show_help: true, ..self }, Work::Nothing),
            _ => (self.view_key(key, around), Work::Nothing),
        }
    }

    /// A key on the explore screen that changes how much is seen.
    #[verifier::opaque]
    pub open spec fn view_key(self, key: Key, around: Around) -> State {
        match key {
            Key::OpenBracket => self.adjust_depth(-1),
            Key::CloseBracket => self.adjust_depth(1),
            Key::Minus => self.zoom_at(Single { bits: KEY_OUT }, false, around),
            Key::Equals | Key::Plus => self.zoom_at(Single { bits: KEY_IN }, false, around),
            Key::Zero => State { camera: Camera::still(), ..self },
            _ => self,
        }
    }

    /// A key on the explore screen.
    #[verifier::opaque]
    pub open spec fn on_explore_key(
        self,
        key: Key,
        control: bool,
        shift: bool,
        around: Around,
    ) -> (State, Work) {
        if acts_on_tile(key) {
            self.adopt_pointer_target().explore_key(key, control, shift, around)
        } else {
            self.explore_key(key, control, shift, around)
        }
    }

    /// A key on the review screen.
    #[verifier::opaque]
    pub open spec fn on_review_key(self, key: Key, plan: Plan) -> (State, Work) {
        match key {
            Key::Escape => (State { screen: Screen::Explore, ..self }, Work::Nothing),
            Key::Enter => self.commit(plan),
            Key::Bang => (
                State { marks: Seq::empty(), notice: None, ..self },
                Work::Nothing,
            ),
            Key::P => (
                State { removal_mode: RemovalMode::Permanent, ..self },
                Work::Nothing,
            ),
            Key::M => (State { removal_mode: RemovalMode::Trash, ..self }, Work::Nothing),
            Key::Question => (State { show_help: true, ..self }, Work::Nothing),
            _ => (self, Work::Nothing),
        }
    }

    /// A key while neither a dialog nor a menu takes it.
    #[verifier::opaque]
    pub open spec fn on_screen_key(
        self,
        key: Key,
        control: bool,
        shift: bool,
        around: Around,
    ) -> (State, Work) {
        if self.show_help {
            match key {
                Key::Escape | Key::Question | Key::Slash | Key::Q => (
                    State { show_help: false, ..self },
                    Work::Nothing,
                ),
                _ => (self, Work::Nothing),
            }
        } else {
            match self.screen {
                Screen::Explore => self.on_explore_key(key, control, shift, around),
                Screen::Review => self.on_review_key(key, around.plan),
                Screen::Running => if key == Key::Escape && self.removing {
                    (State { notice: Some(News::Stopping), ..self }, Work::StopRemoval)
                } else {
                    (self, Work::Nothing)
                },
                Screen::Done => if key == Key::Escape || key == Key::Enter {
                    (State { screen: Screen::Explore, ..self }, Work::Nothing)
                } else {
                    (self, Work::Nothing)
                },
            }
        }
    }

    /// A key press. The confirmation dialog owns Enter and Escape while it
    /// is open, and no key reaches the screen behind it; an open sibling
    /// menu comes next.
    pub open spec fn on_key(
        self,
        key: Key,
        control: bool,
        shift: bool,
        around: Around,
    ) -> (State, Work) {
        if self.confirm_open {
            match key {
                Key::Enter => self.confirm_delete(around.plan),
                Key::Escape => (State { confirm_open: false, ..self }, Work::Nothing),
                _ => (self, Work::Nothing),
            }
        } else {
            let (next, taken) = self.on_menu_key(key);
            if taken {
                (next, Work::Nothing)
            } else {
                next.on_screen_key(key, control, shift, around)
            }
        }
    }

    /// The pointer left the mosaic.
    pub open spec fn on_mouse_leave(self) -> State {
        State { pointer: None, ..self.forget_hover() }
    }

    /// A point is on the mosaic.
    pub open spec fn on_mosaic(self, x: Single, y: Single) -> bool {
        let zero = Single { bits: single::ZERO };
        zero.at_most(x) && zero.at_most(y) && x.below(self.mosaic_size.0) && y.below(
            self.mosaic_size.1,
        )
    }

    /// The pointer moved to a point over the tile `under`.
    pub open spec fn on_mouse_move(
        self,
        x: Single,
        y: Single,
        under: Option<Seq<usize>>,
    ) -> State {
        if self.on_mosaic(x, y) {
            State { pointer: Some((x, y)), pointer_active: true, hovered: under, ..self }
        } else {
            self.on_mouse_leave()
        }
    }

    /// A click over the tile `under`: select, then act on a repeat click.
    pub open spec fn on_mouse_down(
        self,
        button: MouseButton,
        under: Option<Seq<usize>>,
        control: bool,
        count: u32,
    ) -> State {
        match button {
            MouseButton::Left => if count >= 2 {
                match under {
                    Some(crumbs) => State { selected: under, ..self }.descend(),
                    None => self,
                }
            } else if control {
                match under {
                    Some(crumbs) => self.toggle_mark(crumbs),
                    None => self,
                }
            } else if under is Some && self.selected == under && self.is_dir(under->0) {
                self.descend()
            } else {
                State { selected: under, ..self }
            },
            MouseButton::Middle => match under {
                Some(crumbs) => self.toggle_mark(crumbs),
                None => self,
            },
        }
    }

    /// A turn of the wheel: zoom toward the pointer, then in; shift pans
    /// instead.
    #[verifier::opaque]
    pub open spec fn on_scroll_wheel(self, lines: Single, shift: bool, around: Around) -> State {
        if (Single { bits: lines.magnitude() as u32 }).below(Single { bits: single::EPSILON }) {
            self
        } else if shift {
            State { camera: around.panned, ..self }
        } else if (Single { bits: single::ZERO }).below(lines) {
            self.zoom_at(Single { bits: WHEEL_IN }, true, around)
        } else {
            self.zoom_at(Single { bits: WHEEL_OUT }, true, around)
        }
    }

    /// Open a crumb's sibling menu, or close it when it is open.
    pub open spec fn toggle_menu(self, crumbs: Seq<usize>, anchor: (Single, Single)) -> State {
        if self.crumb_menu matches Some(menu) && menu.parent == tree::parent_of(crumbs) {
            State { crumb_menu: None, ..self }
        } else {
            self.open_crumb_menu(crumbs, anchor)
        }
    }

    /// One pointer or view event.
    #[verifier::opaque]
    pub open spec fn gesture(self, event: Event, around: Around) -> State {
        match event {
            Event::Move { x, y } => self.on_mouse_move(x, y, tree::opt_crumbs(around.under)),
            Event::Leave => self.on_mouse_leave(),
            Event::Click { button, ctrl, count, .. } => if button == 0 {
                self.on_mouse_down(
                    MouseButton::Left,
                    tree::opt_crumbs(around.under),
                    ctrl,
                    count,
                )
            } else if button == 1 {
                self.on_mouse_down(
                    MouseButton::Middle,
                    tree::opt_crumbs(around.under),
                    ctrl,
                    count,
                )
            } else {
                self
            },
            Event::Wheel { x, y, lines, shift } => if x.finite() && y.finite() && lines.finite() {
                self.on_scroll_wheel(lines, shift, around)
            } else {
                self
            },
            Event::Zoom { x, y, factor } => if x.finite() && y.finite() && factor.finite() {
                self.zoom_at(factor, true, around)
            } else {
                self
            },
            Event::Pan { dx, dy } => if dx.finite() && dy.finite() {
                State { camera: around.panned, ..self }
            } else {
                self
            },
            Event::Size { w, h } => if usable_size(w, h) {
                State { mosaic_size: (w, h), ..self }
            } else {
                self
            },
            Event::Panel { .. } => State { panel_px: around.panel, ..self },
            _ => self,
        }
    }

    /// One event of the page around the mosaic.
    #[verifier::opaque]
    pub open spec fn page_event(self, event: Event, around: Around) -> (State, Work) {
        match event {
            Event::Goto { crumbs } => (self.go_to(crumbs@), Work::Nothing),
            Event::Widen { path } => match codec::decoded(path@) {
                Some(path) => self.widen_to(path, around.volume),
                None => (self, Work::Nothing),
            },
            Event::Menu { crumbs, x, y } => (self.toggle_menu(crumbs@, (x, y)), Work::Nothing),
            Event::Sibling { parent, index } => (
                self.choose_sibling(parent@, index),
                Work::Nothing,
            ),
            Event::Reveal { crumbs } => (self.revealed(crumbs@), Work::Nothing),
            Event::Mark { crumbs } => (self.toggle_mark(crumbs@), Work::Nothing),
            Event::Unmark { path } => match codec::decoded(path@) {
                Some(path) => (
                    State { marks: self.marks.filter(marks::apart_from(path)), ..self },
                    Work::Nothing,
                ),
                None => (self, Work::Nothing),
            },
            Event::Mode { index } => self.set_mode(index),
            Event::Removal { mode } => (
                State {
                    removal_mode: if mode@ == "permanent"@ {
                        RemovalMode::Permanent
                    } else {
                        RemovalMode::Trash
                    },
                    ..self
                },
                Work::Nothing,
            ),
            Event::Commit => self.commit(around.plan),
            Event::ConfirmDelete => self.confirm_delete(around.plan),
            Event::CancelDelete => (State { confirm_open: false, ..self }, Work::Nothing),
            Event::Find { text } => (
                State { find: text@, ..self }.refresh_matches(around.found),
                Work::Nothing,
            ),
            Event::FindApply => (self.apply_filter(), Work::Nothing),
            Event::FindClear => (self.clear_filter(), Work::Nothing),
            _ => (self, Work::Nothing),
        }
    }

    /// With alt held, the key goes through the directories visited: left
    /// back, right forward, while the explore screen has the keys.
    pub open spec fn travels(self, key: Key) -> bool {
        &&& key == Key::Left || key == Key::Right
        &&& self.screen == Screen::Explore
        &&& !self.confirm_open
        &&& !self.show_help
    }

    /// One event against the state machine.
    pub open spec fn apply(self, event: Event, around: Around) -> (State, Work) {
        match event {
            Event::Key { key, ctrl, shift, alt } => if alt && self.travels(
                keys::key_named(key@),
            ) {
                (
                    State { crumb_menu: None, ..self }.travel(keys::key_named(key@) == Key::Left),
                    Work::Nothing,
                )
            } else {
                self.on_key(keys::key_named(key@), ctrl, shift, around)
            },
            _ => if is_gesture(event) {
                (self.gesture(event, around), Work::Nothing)
            } else {
                self.page_event(event, around)
            },
        }
    }
}

/// An event of the pointer, the view or the panes.
pub open spec fn is_gesture(event: Event) -> bool {
    match event {
        Event::Move { .. }
        | Event::Leave
        | Event::Click { .. }
        | Event::Wheel { .. }
        | Event::Zoom { .. }
        | Event::Pan { .. }
        | Event::Size { .. }
        | Event::Panel { .. } => true,
        _ => false,
    }
}

/// The way an arrow key points, if it is one.
pub fn direction_of(key: Key) -> (r: Option<Direction>)
    ensures
        r == key_direction(key),
{
    match key {
        Key::Right | Key::L => Some(Direction::Right),
        Key::Left | Key::H => Some(Direction::Left),
        Key::Up | Key::K => Some(Direction::Up),
        Key::Down | Key::J => Some(Direction::Down),
        _ => None,
    }
}

fn is_usable_size(w: Single, h: Single) -> (r: bool)
    ensures
        r == usable_size(w, h),
{
    let one = Single::from_bits(single::ONE);
    one.le(w) && one.le(h) && w.is_finite() && h.is_finite()
}

impl Web {
    /// Zoom toward a point, the tile there and the view zoomed being what
    /// `around` says.
    ///
    /// When `descend` is set the wheel stops magnifying at the point where
    /// the directory under the pointer exactly fits the viewport, and the
    /// next notch goes inside it.
    pub fn zoom_at(&mut self, factor: Single, descend: bool, around: &Around)
        ensures
            final(self)@ == old(self)@.zoom_at(factor, descend, *around),
    {
        proof {
            reveal(State::zoom_at);
        }
        if self.is_bottomed(factor) {
            if descend {
                self.ascend();
            }
            return ;
        }
        if descend {
            if let Some(crumbs) = self.inside(factor, around) {
                self.enter(crumbs);
                return ;
            }
        }
        self.camera = around.zoomed;
    }

    fn is_bottomed(&self, factor: Single) -> (r: bool)
        ensures
            r == self@.bottomed(factor),
    {
        factor.lt(Single::from_bits(single::ONE)) && self.camera.scale.le(
            Single::from_bits(single::ABOVE_ONE),
        )
    }

    fn inside(&self, factor: Single, around: &Around) -> (r: Option<Vec<usize>>)
        ensures
            tree::opt_crumbs(r) == self@.inside(factor, *around),
    {
        if Single::from_bits(single::ONE).lt(factor) && around.limit.le(self.camera.scale) {
            self.zoom_target(around.under.as_ref())
        } else {
            None
        }
    }

    /// Show the whole layout again.
    pub fn reset_view(&mut self)
        ensures
            final(self)@ == (State { camera: Camera::still(), ..old(self)@ }),
    {
        self.camera = Camera::identity();
    }

    fn explore_key(&mut self, key: Key, control: bool, shift: bool, around: Around) -> (r: Effect)
        ensures
            (final(self)@, r@) == old(self)@.explore_key(key, control, shift, around),
    {
        proof {
            reveal(State::explore_key);
        }
        match key {
            Key::Slash | Key::S => {
                self.find_open = self.find_open || !control;
                Effect::Nothing
            },
            Key::Enter => {
                self.descend();
                Effect::Nothing
            },
            Key::Right
            | Key::L
            | Key::Left
            | Key::H
            | Key::Up
            | Key::K
            | Key::Down
            | Key::J => {
                if !control {
                    if let Some(direction) = direction_of(key) {
                        self.move_selection(direction, around.tiles.as_ref());
                    }
                }
                Effect::Nothing
            },
            Key::Backspace | Key::U => {
                if !control {
                    self.ascend();
                }
                Effect::Nothing
            },
            Key::Escape => {
                self.step_back();
                Effect::Nothing
            },
            Key::Space => {
                self.toggle_mark_selected();
                Effect::Nothing
            },
            Key::X if !control => {
                self.toggle_mark_selected();
                Effect::Nothing
            },
            Key::Tab => {
                self.cycle_sibling(
                    if shift {
                        -1
                    } else {
                        1
                    },
                );
                Effect::Nothing
            },
            _ => self.screen_key(key, control, around),
        }
    }

    /// Drag the magnified view: touch's version of shift-scroll. `panned` is
    /// the view dragged.
    pub fn pan_by(&mut self, panned: Camera)
        ensures
            final(self)@ == (State { camera: panned, ..old(self)@ }),
    {
        self.camera = panned;
    }

    fn step_back(&mut self)
        ensures
            final(self)@ == old(self)@.step_back(),
    {
        proof {
            reveal(State::step_back);
        }
        if self.matches.is_some() {
            self.clear_filter();
        } else if self.selected.is_some() {
            self.selected = None;
        } else {
            self.ascend();
        }
    }

    fn open_review(&mut self)
        ensures
            final(self)@ == old(self)@.open_review(),
    {
        proof {
            reveal(State::open_review);
        }
        if self.marks.is_empty() {
            self.notice = Some(Notice::MarkFirst);
        } else {
            self.screen = Screen::Review;
        }
    }

    fn rescan_with(&mut self, options: ScanOptions) -> (r: Effect)
        ensures
            (final(self)@, r@) == old(self)@.rescan_with(options),
    {
        proof {
            reveal(State::rescan_with);
        }
        self.options = options;
        self.start_scan()
    }

    fn screen_key(&mut self, key: Key, control: bool, around: Around) -> (r: Effect)
        ensures
            (final(self)@, r@) == old(self)@.screen_key(key, control, around),
    {
        proof {
            reveal(State::screen_key);
        }
        match key {
            Key::C if !control => {
                self.open_review();
                Effect::Nothing
            },
            Key::T if !control => {
                let next: usize = (self.mode_index() + 1) % 3;
                self.set_mode(next)
            },
            Key::R if !control => self.start_scan(),
            Key::G if !control => self.go_to_disk(around.volume),
            Key::I if !control => self.rescan_with(
                ScanOptions { include_hidden: !self.options.include_hidden, ..self.options },
            ),
            Key::D if !control => self.rescan_with(
                ScanOptions { apparent_size: !self.options.apparent_size, ..self.options },
            ),
            Key::P if !control => {
                self.show_selection = !self.show_selection;
                Effect::Nothing
            },
            Key::Question => {
                self.show_help = true;
                Effect::Nothing
            },
            _ => {
                self.view_key(key, &around);
                Effect::Nothing
            },
        }
    }

    fn view_key(&mut self, key: Key, around: &Around)
        ensures
            final(self)@ == old(self)@.view_key(key, *around),
    {
        proof {
            reveal(State::view_key);
        }
        match key {
            Key::OpenBracket => {
                self.adjust_depth(-1);
            },
            Key::CloseBracket => {
                self.adjust_depth(1);
            },
            Key::Minus => {
                self.zoom_at(Single::from_bits(KEY_OUT), false, around);
            },
            Key::Equals | Key::Plus => {
                self.zoom_at(Single::from_bits(KEY_IN), false, around);
            },
            Key::Zero => {
                self.reset_view();
            },
            _ => {},
        }
    }

    /// A key on the explore screen. Keys that act on "the current tile"
    /// start from the pointer when it moved last.
    pub fn on_explore_key(
        &mut self,
        key: Key,
        control: bool,
        shift: bool,
        around: Around,
    ) -> (r: Effect)
        ensures
            (final(self)@, r@) == old(self)@.on_explore_key(key, control, shift, around),
    {
        proof {
            reveal(State::on_explore_key);
        }
        let on_tile = match key {
            Key::Space
            | Key::X
            | Key::Enter
            | Key::Tab
            | Key::Left
            | Key::Right
            | Key::Up
            | Key::Down
            | Key::H
            | Key::J
            | Key::K
            | Key::L => true,
            _ => false,
        };
        if on_tile {
            self.adopt_pointer_target();
        }
        self.explore_key(key, control, shift, around)
    }

    /// A key on the review screen.
    pub fn on_review_key(&mut self, key: Key, plan: &Plan) -> (r: Effect)
        ensures
            (final(self)@, r@) == old(self)@.on_review_key(key, *plan),
    {
        proof {
            reveal(State::on_review_key);
        }
        match key {
            Key::Escape => {
                self.screen = Screen::Explore;
                Effect::Nothing
            },
            Key::Enter => self.commit(plan),
            Key::Bang => {
                self.clear_marks();
                Effect::Nothing
            },
            Key::P => {
                self.removal_mode = RemovalMode::Permanent;
                Effect::Nothing
            },
            Key::M => {
                self.removal_mode = RemovalMode::Trash;
                Effect::Nothing
            },
            Key::Question => {
                self.show_help = true;
                Effect::Nothing
            },
            _ => Effect::Nothing,
        }
    }

    fn on_screen_key(&mut self, key: Key, control: bool, shift: bool, around: Around) -> (r: Effect)
        ensures
            (final(self)@, r@) == old(self)@.on_screen_key(key, control, shift, around),
    {
        proof {
            reveal(State::on_screen_key);
        }
        if self.show_help {
            if matches!(key, Key::Escape | Key::Question | Key::Slash | Key::Q) {
                self.show_help = false;
            }
            return Effect::Nothing;
        }
        match self.screen {
            Screen::Explore => self.on_explore_key(key, control, shift, around),
            Screen::Review => self.on_review_key(key, &around.plan),
            Screen::Running => {
                if key == Key::Escape && self.removing {
                    self.notice = Some(Notice::Stopping);
                    Effect::StopRemoval
                } else {
                    Effect::Nothing
                }
            },
            Screen::Done => {
                if key == Key::Escape || key == Key::Enter {
                    self.screen = Screen::Explore;
                }
                Effect::Nothing
            },
        }
    }

    /// Handle a key press. `key` is the lowercase name the browser shim
    /// sends (`enter`, `left`, `space`, `/`, ...).
    pub fn on_key(&mut self, key: &str, control: bool, shift: bool, around: Around) -> (r: Effect)
        ensures
            (final(self)@, r@) == old(self)@.on_key(
                keys::key_named(key@),
                control,
                shift,
                around,
            ),
    {
        let key = Key::named(key);
        // The confirmation dialog owns Enter and Escape while it is open; a
        // key that reaches here must not also act on the screen behind it.
        if self.confirm_open {
            return match key {
                Key::Enter => self.confirm_delete(&around.plan),
                Key::Escape => {
                    self.cancel_delete();
                    Effect::Nothing
                },
                _ => Effect::Nothing,
            };
        }
        if self.on_menu_key(key) {
            return Effect::Nothing;
        }
        self.on_screen_key(key, control, shift, around)
    }

    /// Whether a point is on the mosaic.
    pub fn is_on_mosaic(&self, x: Single, y: Single) -> (r: bool)
        ensures
            r == self@.on_mosaic(x, y),
    {
        let zero = Single::from_bits(single::ZERO);
        zero.le(x) && zero.le(y) && x.lt(self.mosaic_size.0) && y.lt(self.mosaic_size.1)
    }

    /// Mouse moved over the treemap; `x`/`y` are mosaic-local pixels, `under`
    /// the deepest tile there.
    pub fn on_mouse_move(&mut self, x: Single, y: Single, under: Option<Vec<usize>>)
        ensures
            final(self)@ == old(self)@.on_mouse_move(x, y, tree::opt_crumbs(under)),
    {
        if self.is_on_mosaic(x, y) {
            self.pointer = Some((x, y));
            self.pointer_active = true;
            self.hovered = under;
        } else {
            self.on_mouse_leave();
        }
    }

    /// The pointer left the mosaic.
    pub fn on_mouse_leave(&mut self)
        ensures
            final(self)@ == old(self)@.on_mouse_leave(),
    {
        self.pointer = None;
        self.pointer_active = false;
        self.hovered = None;
    }

    /// Click on the tile `under` the pointer: select, then act on a repeat
    /// click, like a file manager.
    pub fn on_mouse_down(
        &mut self,
        button: MouseButton,
        under: Option<Vec<usize>>,
        control: bool,
        click_count: u32,
    )
        ensures
            final(self)@ == old(self)@.on_mouse_down(
                button,
                tree::opt_crumbs(under),
                control,
                click_count,
            ),
    {
        match button {
            MouseButton::Left if click_count >= 2 => {
                if under.is_some() {
                    self.selected = under;
                    self.descend();
                }
            },
            MouseButton::Left if control => {
                if let Some(crumbs) = under {
                    self.toggle_mark(crumbs.as_slice());
                }
            },
            MouseButton::Left => {
                if self.is_selected_dir(under.as_ref()) {
                    // A second click on the selection opens it, like a file
                    // manager, without needing a double click.
                    self.descend();
                } else {
                    self.selected = under;
                }
            },
            MouseButton::Middle => {
                if let Some(crumbs) = under {
                    self.toggle_mark(crumbs.as_slice());
                }
            },
        }
    }

    fn is_selected_dir(&self, under: Option<&Vec<usize>>) -> (r: bool)
        ensures
            r == (match under {
                Some(crumbs) => self@.selected == Some(crumbs@) && self@.is_dir(crumbs@),
                None => false,
            }),
    {
        match (under, &self.selected) {
            (Some(crumbs), Some(selected)) => {
                tree::same_crumbs(crumbs.as_slice(), selected.as_slice()) && match self.node_at(
                    crumbs.as_slice(),
                ) {
                    Some(node) => node.dir,
                    None => false,
                }
            },
            _ => false,
        }
    }

    /// Wheel: zoom toward the pointer, then in; shift pans instead.
    pub fn on_scroll_wheel(&mut self, lines: Single, shift: bool, around: &Around)
        ensures
            final(self)@ == old(self)@.on_scroll_wheel(lines, shift, *around),
    {
        proof {
            reveal(State::on_scroll_wheel);
        }
        if lines.abs().lt(Single::from_bits(single::EPSILON)) {
            return ;
        }
        if shift {
            self.pan_by(around.panned);
            return ;
        }
        let factor = if Single::from_bits(single::ZERO).lt(lines) {
            WHEEL_IN
        } else {
            WHEEL_OUT
        };
        self.zoom_at(Single::from_bits(factor), true, around);
    }

    fn toggle_menu(&mut self, crumbs: &[usize], anchor: (Single, Single))
        ensures
            final(self)@ == old(self)@.toggle_menu(crumbs@, anchor),
    {
        let parent = tree::parent_crumbs_of(crumbs);
        let open = match &self.crumb_menu {
            Some(menu) => tree::same_crumbs(menu.parent.as_slice(), parent.as_slice()),
            None => false,
        };
        if open {
            self.crumb_menu = None;
        } else {
            self.open_crumb_menu(crumbs, anchor);
        }
    }

    fn gesture(&mut self, event: &Event, around: Around)
        ensures
            final(self)@ == old(self)@.gesture(*event, around),
    {
        proof {
            reveal(State::gesture);
        }
        match event {
            Event::Move { x, y } => {
                self.on_mouse_move(*x, *y, around.under);
            },
            Event::Leave => {
                self.on_mouse_leave();
            },
            Event::Click { button, ctrl, count, .. } => {
                // Left and Middle only: a right-click on the mosaic does
                // nothing (its menu is suppressed, so silently treating it
                // as a left click would surprise twice).
                if *button == 0 {
                    self.on_mouse_down(MouseButton::Left, around.under, *ctrl, *count);
                } else if *button == 1 {
                    self.on_mouse_down(MouseButton::Middle, around.under, *ctrl, *count);
                }
            },
            Event::Wheel { x, y, lines, shift } => {
                if x.is_finite() && y.is_finite() && lines.is_finite() {
                    self.on_scroll_wheel(*lines, *shift, &around);
                }
            },
            Event::Zoom { x, y, factor } => {
                if x.is_finite() && y.is_finite() && factor.is_finite() {
                    self.zoom_at(*factor, true, &around);
                }
            },
            Event::Pan { dx, dy } => {
                if dx.is_finite() && dy.is_finite() {
                    self.pan_by(around.panned);
                }
            },
            Event::Size { w, h } => {
                if is_usable_size(*w, *h) {
                    self.mosaic_size = (*w, *h);
                }
            },
            Event::Panel { .. } => {
                self.panel_px = around.panel;
            },
            _ => {},
        }
    }

    fn page_event(&mut self, event: Event, around: Around) -> (r: Effect)
        ensures
            (final(self)@, r@) == old(self)@.page_event(event, around),
    {
        proof {
            reveal(State::page_event);
        }
        match event {
            Event::Goto { crumbs } => {
                self.go_to(crumbs);
                Effect::Nothing
            },
            Event::Widen { path } => match codec::decode_path(path.as_str()) {
                Some(path) => self.widen_to(path, around.volume),
                None => Effect::Nothing,
            },
            Event::Menu { crumbs, x, y } => {
                self.toggle_menu(crumbs.as_slice(), (x, y));
                Effect::Nothing
            },
            Event::Sibling { parent, index } => {
                self.choose_sibling(parent.as_slice(), index);
                Effect::Nothing
            },
            Event::Reveal { crumbs } => {
                self.reveal_crumbs(crumbs);
                Effect::Nothing
            },
            Event::Mark { crumbs } => {
                self.toggle_mark(crumbs.as_slice());
                Effect::Nothing
            },
            Event::Unmark { path } => {
                if let Some(path) = codec::decode_path(path.as_str()) {
                    self.unmark(&path);
                }
                Effect::Nothing
            },
            Event::Mode { index } => self.set_mode(index),
            Event::Removal { mode } => {
                // Only the exact word arms the irreversible mode; anything
                // else, including garbage, lands on the recoverable one.
                self.removal_mode = if text::same(mode.as_str(), "permanent") {
                    RemovalMode::Permanent
                } else {
                    RemovalMode::Trash
                };
                Effect::Nothing
            },
            Event::Commit => self.commit(&around.plan),
            Event::ConfirmDelete => self.confirm_delete(&around.plan),
            Event::CancelDelete => {
                self.cancel_delete();
                Effect::Nothing
            },
            Event::Find { text } => {
                self.find = text;
                self.refresh_matches(around.found);
                Effect::Nothing
            },
            Event::FindApply => {
                self.apply_filter();
                Effect::Nothing
            },
            Event::FindClear => {
                self.clear_filter();
                Effect::Nothing
            },
            _ => Effect::Nothing,
        }
    }

    fn is_travel(&self, key: Key) -> (r: bool)
        ensures
            r == self@.travels(key),
    {
        (key == Key::Left || key == Key::Right) && self.screen == Screen::Explore
            && !self.confirm_open && !self.show_help
    }

    /// One event against the state machine. With alt held the arrows go
    /// through the directories visited.
    pub fn apply(&mut self, event: Event, around: Around) -> (r: Effect)
        ensures
            (final(self)@, r@) == old(self)@.apply(event, around),
    {
        if let Event::Key { key, ctrl, shift, alt } = &event {
            let named = Key::named(key.as_str());
            if *alt && self.is_travel(named) {
                self.crumb_menu = None;
                self.travel(named == Key::Left);
                return Effect::Nothing;
            }
            return self.on_key(key.as_str(), *ctrl, *shift, around);
        }
        let pointer = match &event {
            Event::Move { .. }
            | Event::Leave
            | Event::Click { .. }
            | Event::Wheel { .. }
            | Event::Zoom { .. }
            | Event::Pan { .. }
            | Event::Size { .. }
            | Event::Panel { .. } => true,
            _ => false,
        };
        if pointer {
            self.gesture(&event, around);
            Effect::Nothing
        } else {
            self.page_event(event, around)
        }
    }
}

} // verus!
