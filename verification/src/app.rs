//! Application state.
//!
//! [`Web`] is everything the application knows; [`State`] is the same as a
//! mathematical value, and every action of the state machine is stated as a
//! function from one `State` to the next. The work of the machine around it
//! (walking the disk, removing files, laying tiles out) is asked for by
//! [`Effect`]s and handed back as plain values.

use crate::marks;
use crate::marks::{Mark, Marks, RemovalMode, Target};
use crate::palette::Appearance;
use crate::paths;
use crate::paths::OsPath;
use crate::single;
use crate::single::Single;
use crate::text;
use crate::tree;
use crate::tree::{Category, Metric, Node};
use vstd::prelude::*;

verus! {

/// What a tile's colour says.
#[derive(Clone, Copy, Debug, PartialEq, Eq, Structural)]
pub enum ColorMode {
    /// The kind of data it is.
    Kind,
    /// How long since anything in it was written.
    Age,
}

/// A trail crumb's sibling menu, open.
#[derive(Debug)]
pub struct CrumbMenu {
    /// Crumbs of the directory whose children are listed.
    pub parent: Vec<usize>,
    /// The listed child the crumb stands for.
    pub current: usize,
    /// The row the arrow keys are on, as an index into [`Web::siblings`].
    pub highlighted: usize,
    /// Where the browser drew the crumb, so the menu opens beside it.
    pub anchor: (Single, Single),
}

/// An open sibling menu, as contracts speak of it.
pub struct Menu {
    pub parent: Seq<usize>,
    pub current: usize,
    pub highlighted: usize,
    pub anchor: (Single, Single),
}

/// The view of an optional menu.
pub open spec fn opt_menu(menu: Option<CrumbMenu>) -> Option<Menu> {
    match menu {
        Some(menu) => Some(
            Menu {
                parent: menu.parent@,
                current: menu.current,
                highlighted: menu.highlighted,
                anchor: menu.anchor,
            },
        ),
        None => None,
    }
}

/// One row of a sibling menu.
#[derive(Debug)]
pub struct Sibling {
    /// Index among the parent's children.
    pub index: usize,
    pub name: String,
    pub value: u64,
    pub category: Category,
    pub is_dir: bool,
}

/// Rows a sibling menu lists; the rest are counted.
pub const SIBLING_ROWS: usize = 24;

/// One step of the trail.
#[derive(Debug)]
pub enum Crumb {
    /// A directory above the scanned root: going there scans only what is
    /// new at that level.
    Above(OsPath),
    /// A directory in the tree, by crumbs from the scanned root.
    Tree(Vec<usize>),
}

/// A step of the trail, as contracts speak of it.
pub enum Place {
    Above(Seq<u8>),
    Tree(Seq<usize>),
}

impl View for Crumb {
    type V = Place;

    open spec fn view(&self) -> Place {
        match self {
            Crumb::Above(path) => Place::Above(path@),
            Crumb::Tree(crumbs) => Place::Tree(crumbs@),
        }
    }
}

/// Which screen the app is showing.
#[derive(Clone, Copy, Debug, PartialEq, Eq, Structural)]
pub enum Screen {
    /// Walk the treemap and mark what should go.
    Explore,
    /// Review every marked path and choose how to remove them.
    Review,
    /// A removal is running.
    Running,
    /// The removal finished; show what happened.
    Done,
}

/// The treemap view transform: `screen = (base - origin) * scale`.
#[derive(Clone, Copy, Debug, PartialEq, Eq, Structural)]
pub struct Camera {
    pub scale: Single,
    pub origin_x: Single,
    pub origin_y: Single,
}

impl Camera {
    /// The whole layout, unmagnified.
    pub open spec fn still() -> Camera {
        Camera {
            scale: Single { bits: single::ONE },
            origin_x: Single { bits: single::ZERO },
            origin_y: Single { bits: single::ZERO },
        }
    }

    /// The whole layout, unmagnified.
    pub fn identity() -> (r: Camera)
        ensures
            r == Camera::still(),
    {
        Camera {
            scale: Single { bits: single::ONE },
            origin_x: Single { bits: single::ZERO },
            origin_y: Single { bits: single::ZERO },
        }
    }
}

/// How a tile stands against the find text.
#[derive(Clone, Copy, Debug, PartialEq, Eq, Structural)]
pub enum Filtered {
    /// It matches, is inside a match, or nothing is being found.
    Shown,
    /// It holds matches: its fill steps back, its name stays readable.
    Holds,
    /// Nothing in it matches.
    Out,
}

/// A rectangle of the layout.
#[derive(Clone, Copy, Debug, PartialEq, Eq, Structural)]
pub struct Rect {
    pub x: Single,
    pub y: Single,
    pub w: Single,
    pub h: Single,
}

/// One tile of the layout.
#[derive(Debug)]
pub struct Tile {
    pub crumbs: Vec<usize>,
    /// How many entries it stands for, when it stands for the small rest.
    pub others: Option<usize>,
    pub rect: Rect,
    /// The band its name is written in, when it reserved one.
    pub header: Option<Rect>,
    pub depth: u32,
}

/// What a layout depends on.
#[derive(Debug)]
pub struct LayoutKey {
    pub crumbs: Vec<usize>,
    pub width: Single,
    pub height: Single,
    /// How many levels are drawn.
    pub depth: u32,
    /// Bumped whenever the applied filter changes.
    pub filter: u64,
}

/// What a layout depends on, as contracts speak of it.
pub struct KeyView {
    pub crumbs: Seq<usize>,
    pub width: Single,
    pub height: Single,
    pub depth: u32,
    pub filter: u64,
}

impl View for LayoutKey {
    type V = KeyView;

    open spec fn view(&self) -> KeyView {
        KeyView {
            crumbs: self.crumbs@,
            width: self.width,
            height: self.height,
            depth: self.depth,
            filter: self.filter,
        }
    }
}

/// Layout for one key.
#[derive(Debug)]
pub struct LayoutCache {
    pub key: LayoutKey,
    pub tiles: Vec<Tile>,
}

/// The view of an optional layout.
pub open spec fn opt_layout(cache: Option<LayoutCache>) -> Option<(KeyView, Seq<Tile>)> {
    match cache {
        Some(cache) => Some((cache.key@, cache.tiles@)),
        None => None,
    }
}

/// Result of the removal run, summarised for the final screen.
#[derive(Clone, Copy, Debug, PartialEq, Eq, Structural)]
pub struct RunSummary {
    pub total: usize,
    pub removed: u64,
    pub bytes: u64,
    pub failed: usize,
}

impl RunSummary {
    /// A run of `total` items that has done nothing yet.
    pub fn of(total: usize) -> (r: RunSummary)
        ensures
            r == (RunSummary { total, removed: 0, bytes: 0, failed: 0 }),
    {
        RunSummary { total, removed: 0, bytes: 0, failed: 0 }
    }
}

/// One line of the removal's log.
#[derive(Debug)]
pub struct LogEntry {
    pub path: OsPath,
    /// Why it could not be removed, when it could not.
    pub error: Option<String>,
}

/// A line of the removal's log, as contracts speak of it.
pub struct LogLine {
    pub path: Seq<u8>,
    pub error: Option<Seq<char>>,
}

impl View for LogEntry {
    type V = LogLine;

    open spec fn view(&self) -> LogLine {
        LogLine { path: self.path@, error: text::opt_text(self.error) }
    }
}

/// The views of a log.
pub open spec fn log_of(log: Seq<LogEntry>) -> Seq<LogLine> {
    log.map_values(|entry: LogEntry| entry@)
}

/// A notice's weight, for its colour.
#[derive(Clone, Copy, Debug, PartialEq, Eq, Structural)]
pub enum Status {
    Neutral,
    Warning,
}

/// The last thing that happened.
#[derive(Debug)]
pub enum Notice {
    /// The scanned root was to be marked.
    RootStays,
    /// `path` is inside a marked directory.
    GoesWith { path: OsPath, ancestor: OsPath },
    /// Marking `path` absorbed `count` marks inside it.
    Covers { path: OsPath, count: usize },
    /// A removal was asked for with nothing to remove.
    NothingMarked,
    /// A filter was applied that matches nothing.
    NoMatch { needle: String },
    /// The review was asked for with nothing marked.
    MarkFirst,
    /// A running removal was told to stop.
    Stopping,
}

/// The last thing that happened, as contracts speak of it.
pub enum News {
    RootStays,
    GoesWith { path: Seq<u8>, ancestor: Seq<u8> },
    Covers { path: Seq<u8>, count: int },
    NothingMarked,
    NoMatch { needle: Seq<char> },
    MarkFirst,
    Stopping,
}

/// The view of an optional notice.
pub open spec fn opt_news(notice: Option<Notice>) -> Option<News> {
    match notice {
        Some(Notice::RootStays) => Some(News::RootStays),
        Some(Notice::GoesWith { path, ancestor }) => Some(
            News::GoesWith { path: path@, ancestor: ancestor@ },
        ),
        Some(Notice::Covers { path, count }) => Some(
            News::Covers { path: path@, count: count as int },
        ),
        Some(Notice::NothingMarked) => Some(News::NothingMarked),
        Some(Notice::NoMatch { needle }) => Some(News::NoMatch { needle: needle@ }),
        Some(Notice::MarkFirst) => Some(News::MarkFirst),
        Some(Notice::Stopping) => Some(News::Stopping),
        None => None,
    }
}

/// What a scan measures.
#[derive(Clone, Copy, Debug, PartialEq, Eq, Structural)]
pub struct ScanOptions {
    pub metric: Metric,
    pub apparent_size: bool,
    pub follow_links: bool,
    pub include_hidden: bool,
    pub one_filesystem: bool,
}

/// How far a scan is.
#[derive(Clone, Copy, Debug, PartialEq, Eq, Structural)]
pub struct ScanSnapshot {
    pub files: u64,
    pub dirs: u64,
    pub bytes: u64,
    pub errors: u64,
    pub finished: bool,
}

impl ScanSnapshot {
    /// Nothing read yet.
    pub open spec fn nothing() -> ScanSnapshot {
        ScanSnapshot { files: 0, dirs: 0, bytes: 0, errors: 0, finished: false }
    }

    /// Nothing read yet.
    pub fn empty() -> (r: ScanSnapshot)
        ensures
            r == ScanSnapshot::nothing(),
    {
        ScanSnapshot { files: 0, dirs: 0, bytes: 0, errors: 0, finished: false }
    }
}

/// What the find text matches.
#[derive(Debug)]
pub struct Matches {
    /// The directory the text was typed in.
    pub base: Vec<usize>,
    pub needle: String,
    pub count: usize,
    pub bytes: u64,
    /// Crumbs of what matches as a whole.
    pub whole: Vec<Vec<usize>>,
}

/// Why something is worth a look.
#[derive(Debug)]
pub enum Finding {
    /// It can be had back, and why.
    Reclaimable { reason: String },
    Worktrees { count: u64, oldest_days: u64 },
    StaleExperiments { count: u64, days: u64 },
}

/// One thing worth a look.
#[derive(Debug)]
pub struct Candidate {
    pub crumbs: Vec<usize>,
    pub bytes: u64,
    pub finding: Finding,
}

/// What git says of a checkout.
#[derive(Debug)]
pub struct GitState {
    pub summary: String,
    pub clean: bool,
}

/// What git said of `path`; nothing once asked and found not to be a
/// checkout.
#[derive(Debug)]
pub struct GitEntry {
    pub path: OsPath,
    pub state: Option<GitState>,
}

/// What git said, as contracts speak of it.
pub open spec fn git_of(git: Seq<GitEntry>) -> Seq<(Seq<u8>, Option<GitState>)> {
    git.map_values(|entry: GitEntry| (entry.path@, entry.state))
}

/// A volume's room.
#[derive(Clone, Copy, Debug, PartialEq, Eq, Structural)]
pub struct SpaceInfo {
    pub total: u64,
    pub available: u64,
}

/// The volume a path is on.
#[derive(Debug)]
pub struct Volume {
    pub space: Option<SpaceInfo>,
    pub device: Option<String>,
}

/// The machine's trash.
#[derive(Debug)]
pub struct TrashBackend {
    pub available: bool,
    pub label: String,
}

/// Work asked of the machine around the state machine.
#[derive(Debug)]
pub enum Effect {
    Nothing,
    /// Walk `root` afresh, abandoning any walk still running.
    Scan { root: OsPath, options: ScanOptions },
    /// Walk `root`, abandoning any walk still running and reusing the tree
    /// already measured at `known`.
    Widen { root: OsPath, options: ScanOptions, known: OsPath },
    /// Rank the tree by `metric` and hand it back to [`Web::remeasured`].
    Remeasure { metric: Metric },
    /// Remove the plan's targets.
    Remove { mode: RemovalMode, targets: Vec<Target> },
    /// Stop the running removal after its current item.
    StopRemoval,
}

/// Work asked for, as contracts speak of it.
pub enum Work {
    Nothing,
    Scan { root: Seq<u8>, options: ScanOptions },
    Widen { root: Seq<u8>, options: ScanOptions, known: Seq<u8> },
    Remeasure { metric: Metric },
    Remove { mode: RemovalMode, targets: Seq<Mark> },
    StopRemoval,
}

impl View for Effect {
    type V = Work;

    open spec fn view(&self) -> Work {
        match self {
            Effect::Nothing => Work::Nothing,
            Effect::Scan { root, options } => Work::Scan { root: root@, options: *options },
            Effect::Widen { root, options, known } => Work::Widen {
                root: root@,
                options: *options,
                known: known@,
            },
            Effect::Remeasure { metric } => Work::Remeasure { metric: *metric },
            Effect::Remove { mode, targets } => Work::Remove {
                mode: *mode,
                targets: marks::marks_of(targets@),
            },
            Effect::StopRemoval => Work::StopRemoval,
        }
    }
}

/// How many labels one frame emits.
pub const MAX_LABELS: usize = 150;

/// The fewest levels that can be drawn.
pub const MIN_DEPTH: u32 = 1;

/// The most levels that can be drawn.
pub const MAX_DEPTH: u32 = 6;

/// The application as a mathematical value.
#[verifier::ext_equal]
pub struct State {
    pub root_path: Seq<u8>,
    pub home: Option<Seq<u8>>,
    pub options: ScanOptions,
    pub tree: Option<Node>,
    pub scanning: bool,
    pub progress: ScanSnapshot,
    pub scan_error: Option<Seq<char>>,
    pub screen: Screen,
    pub crumbs: Seq<usize>,
    pub past: Seq<Seq<usize>>,
    pub future: Seq<Seq<usize>>,
    pub selected: Option<Seq<usize>>,
    pub hovered: Option<Seq<usize>>,
    pub pointer_active: bool,
    pub camera: Camera,
    pub depth: u32,
    pub cache: Option<(KeyView, Seq<Tile>)>,
    pub pointer: Option<(Single, Single)>,
    pub mosaic_size: (Single, Single),
    pub marks: Seq<Mark>,
    pub removal_mode: RemovalMode,
    pub trash: TrashBackend,
    pub confirm_open: bool,
    pub removing: bool,
    pub run_summary: RunSummary,
    pub run_log: Seq<LogLine>,
    pub space: Option<SpaceInfo>,
    pub space_baseline: Option<SpaceInfo>,
    pub notice: Option<News>,
    pub find: Seq<char>,
    pub find_open: bool,
    pub matches: Option<Matches>,
    pub filter_applied: bool,
    pub filter_epoch: u64,
    pub show_help: bool,
    pub show_selection: bool,
    pub crumb_menu: Option<Menu>,
    pub color_mode: ColorMode,
    pub insights: Seq<Candidate>,
    pub git: Seq<(Seq<u8>, Option<GitState>)>,
    pub device: Option<Seq<char>>,
    pub disk_root: Option<Seq<u8>>,
    pub panel_px: Single,
    pub scan_root: Seq<u8>,
    pub scan_elapsed: Option<Seq<char>>,
    pub scanned_at: i64,
    pub appearance: Appearance,
}

/// Everything the app knows and everything it can do.
#[derive(Debug)]
pub struct Web {
    /// The directory the tree was scanned from.
    pub root_path: OsPath,
    pub home: Option<OsPath>,
    pub options: ScanOptions,
    pub tree: Option<Node>,
    /// A scan is in flight.
    pub scanning: bool,
    pub progress: ScanSnapshot,
    pub scan_error: Option<String>,
    pub screen: Screen,
    /// Path from the scanned root to the directory currently drawn.
    pub crumbs: Vec<usize>,
    /// The directories visited before this one, the latest last.
    pub past: Vec<Vec<usize>>,
    /// The directories gone back from, the latest last.
    pub future: Vec<Vec<usize>>,
    pub selected: Option<Vec<usize>>,
    pub hovered: Option<Vec<usize>>,
    /// The pointer moved more recently than the keyboard navigated. Then the
    /// tile under the pointer is what Space, X and Enter act on; after an
    /// arrow or Tab it is the keyboard selection again.
    pub pointer_active: bool,
    pub camera: Camera,
    /// How many levels are drawn at once.
    pub depth: u32,
    pub cache: Option<LayoutCache>,
    /// Mouse position in mosaic-local pixels, for the tooltip.
    pub pointer: Option<(Single, Single)>,
    /// The mosaic's size in CSS pixels, reported by the browser with every
    /// request: layout runs in these pixels.
    pub mosaic_size: (Single, Single),
    pub marks: Marks,
    pub removal_mode: RemovalMode,
    pub trash: TrashBackend,
    /// The permanent-deletion confirmation is open. Trash needs no dialog:
    /// it is reversible, so it commits directly.
    pub confirm_open: bool,
    /// A removal is in flight.
    pub removing: bool,
    pub run_summary: RunSummary,
    pub run_log: Vec<LogEntry>,
    pub space: Option<SpaceInfo>,
    /// Free space before the removal, for the honest "what did it actually
    /// free" number rather than the sum of what was marked.
    pub space_baseline: Option<SpaceInfo>,
    pub notice: Option<Notice>,
    pub find: String,
    /// The find field has the browser's focus.
    pub find_open: bool,
    /// What the find text matches in the directory on screen, recomputed on
    /// every keystroke. While typing it only dims what does not match.
    pub matches: Option<Matches>,
    /// Enter was pressed: the mosaic lays out only the matches.
    pub filter_applied: bool,
    pub filter_epoch: u64,
    pub show_help: bool,
    pub show_selection: bool,
    /// A trail crumb's sibling menu, when open.
    pub crumb_menu: Option<CrumbMenu>,
    pub color_mode: ColorMode,
    /// The largest things worth clearing, recomputed when a scan lands.
    pub insights: Vec<Candidate>,
    /// What git knows about each checkout that has been selected.
    pub git: Vec<GitEntry>,
    /// The device the scanned volume is mounted from.
    pub device: Option<String>,
    /// The top of the disk the home directory lives on: what "Whole disk"
    /// scans.
    pub disk_root: Option<OsPath>,
    /// The side panel's width, in px; dragged from its left edge.
    pub panel_px: Single,
    /// Where the scan in flight is rooted. Differs from `root_path` while
    /// widening, when the old tree stays on screen until the wider tree
    /// lands.
    pub scan_root: OsPath,
    /// How many seconds the last scan took, with one decimal.
    pub scan_elapsed: Option<String>,
    /// Unix seconds when the tree landed: the "now" ages are measured from.
    pub scanned_at: i64,
    /// Dark or light, as the browser asked.
    pub appearance: Appearance,
}

impl View for Web {
    type V = State;

    open spec fn view(&self) -> State {
        State {
            root_path: self.root_path@,
            home: paths::opt_path(self.home),
            options: self.options,
            tree: self.tree,
            scanning: self.scanning,
            progress: self.progress,
            scan_error: text::opt_text(self.scan_error),
            screen: self.screen,
            crumbs: self.crumbs@,
            past: tree::crumb_lists(self.past@),
            future: tree::crumb_lists(self.future@),
            selected: tree::opt_crumbs(self.selected),
            hovered: tree::opt_crumbs(self.hovered),
            pointer_active: self.pointer_active,
            camera: self.camera,
            depth: self.depth,
            cache: opt_layout(self.cache),
            pointer: self.pointer,
            mosaic_size: self.mosaic_size,
            marks: self.marks@,
            removal_mode: self.removal_mode,
            trash: self.trash,
            confirm_open: self.confirm_open,
            removing: self.removing,
            run_summary: self.run_summary,
            run_log: log_of(self.run_log@),
            space: self.space,
            space_baseline: self.space_baseline,
            notice: opt_news(self.notice),
            find: self.find@,
            find_open: self.find_open,
            matches: self.matches,
            filter_applied: self.filter_applied,
            filter_epoch: self.filter_epoch,
            show_help: self.show_help,
            show_selection: self.show_selection,
            crumb_menu: opt_menu(self.crumb_menu),
            color_mode: self.color_mode,
            insights: self.insights@,
            git: git_of(self.git@),
            device: text::opt_text(self.device),
            disk_root: paths::opt_path(self.disk_root),
            panel_px: self.panel_px,
            scan_root: self.scan_root@,
            scan_elapsed: text::opt_text(self.scan_elapsed),
            scanned_at: self.scanned_at,
            appearance: self.appearance,
        }
    }
}

} // verus!
