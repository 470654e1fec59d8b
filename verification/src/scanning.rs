//! Scanning: starting a walk, widening it, and taking up what it measured.

use crate::app;
use crate::app::{
    Camera, Candidate, ColorMode, Effect, GitEntry, GitState, RunSummary, ScanOptions,
    ScanSnapshot, Screen, SpaceInfo, State, TrashBackend, Volume, Web, Work, MAX_DEPTH, MIN_DEPTH,
};
use crate::marks;
use crate::marks::{Marks, RemovalMode, Target};
use crate::palette::Appearance;
use crate::paths;
use crate::paths::OsPath;
use crate::single;
use crate::single::Single;
use crate::text;
use crate::tree;
use crate::tree::{Metric, Node};
use vstd::prelude::*;

verus! {

/// The side panel's width before it is dragged: 368 px.
pub const PANEL_DEFAULT_PX: u32 = 0x43b8_0000;

/// How often the free-space meter is read while a removal runs, in
/// milliseconds.
pub const SPACE_RUNNING_MS: u64 = 150;

/// How often the free-space meter is read otherwise, in milliseconds.
pub const SPACE_IDLE_MS: u64 = 1200;

/// What the machine says about itself and the scanned root at the start.
#[derive(Debug)]
pub struct Machine {
    pub home: Option<OsPath>,
    pub volume: Volume,
    pub trash: TrashBackend,
    /// The top of the disk the home directory, or else the scanned root,
    /// lives on.
    pub disk_root: Option<OsPath>,
    /// Unix seconds.
    pub now: i64,
}

/// A finished walk, and what was worked out about it.
#[derive(Debug)]
pub struct Landing {
    pub tree: Node,
    /// The marks, measured again in the new tree.
    pub marks: Vec<Target>,
    /// The volume the scan was rooted on.
    pub volume: Volume,
    pub insights: Vec<Candidate>,
    /// Unix seconds.
    pub now: i64,
    /// How many seconds the walk took, with one decimal.
    pub elapsed: String,
}

/// How a walk ended.
#[derive(Debug)]
pub enum Outcome {
    Landed(Landing),
    Failed(String),
}

/// The tree ranked by another metric, and what was worked out about it.
#[derive(Debug)]
pub struct Remeasured {
    pub tree: Node,
    /// The marks, measured again in the new tree.
    pub marks: Vec<Target>,
}

/// `depth`, brought into what can be drawn.
pub open spec fn clamp_depth(depth: int) -> u32 {
    if depth < MIN_DEPTH {
        MIN_DEPTH
    } else if depth > MAX_DEPTH {
        MAX_DEPTH
    } else {
        depth as u32
    }
}

/// The reversible way whenever there is one.
pub open spec fn default_mode(trash: TrashBackend) -> RemovalMode {
    if trash.available {
        RemovalMode::Trash
    } else {
        RemovalMode::Permanent
    }
}

/// What the Size | Files | Age choice at `index` measures.
pub open spec fn mode_metric(index: usize) -> Metric {
    if index == 1 {
        Metric::Files
    } else {
        Metric::Bytes
    }
}

/// What the Size | Files | Age choice at `index` says by colour.
pub open spec fn mode_color(index: usize) -> ColorMode {
    if index == 2 {
        ColorMode::Age
    } else {
        ColorMode::Kind
    }
}

impl State {
    /// The application over a root nothing is known of yet.
    pub open spec fn fresh(
        root_path: Seq<u8>,
        options: ScanOptions,
        depth: u32,
        machine: Machine,
    ) -> State {
        State {
            root_path,
            home: paths::opt_path(machine.home),
            options,
            tree: None,
            scanning: false,
            progress: ScanSnapshot::nothing(),
            scan_error: None,
            screen: Screen::Explore,
            crumbs: Seq::empty(),
            past: Seq::empty(),
            future: Seq::empty(),
            selected: None,
            hovered: None,
            pointer_active: false,
            camera: Camera::still(),
            depth: clamp_depth(depth as int),
            cache: None,
            pointer: None,
            mosaic_size: (Single { bits: single::ZERO }, Single { bits: single::ZERO }),
            marks: Seq::empty(),
            removal_mode: default_mode(machine.trash),
            trash: machine.trash,
            confirm_open: false,
            removing: false,
            run_summary: RunSummary { total: 0, removed: 0, bytes: 0, failed: 0 },
            run_log: Seq::empty(),
            space: machine.volume.space,
            space_baseline: None,
            notice: None,
            find: Seq::empty(),
            find_open: false,
            matches: None,
            filter_applied: false,
            filter_epoch: 0,
            show_help: false,
            show_selection: true,
            crumb_menu: None,
            color_mode: ColorMode::Kind,
            insights: Seq::empty(),
            git: Seq::empty(),
            device: text::opt_text(machine.volume.device),
            disk_root: paths::opt_path(machine.disk_root),
            panel_px: Single { bits: PANEL_DEFAULT_PX },
            scan_root: Seq::empty(),
            scan_elapsed: None,
            scanned_at: machine.now,
            appearance: Appearance::Dark,
        }
    }

    /// Start a fresh scan of the root.
    #[verifier::opaque]
    pub open spec fn start_scan(self) -> (State, Work) {
        let cleared = self.clear_filter();
        (
            State {
                progress: ScanSnapshot::nothing(),
                scan_error: None,
                tree: None,
                crumbs: Seq::empty(),
                past: Seq::empty(),
                future: Seq::empty(),
                selected: None,
                camera: Camera::still(),
                cache: None,
                insights: Seq::empty(),
                git: Seq::empty(),
                scan_elapsed: None,
                scan_root: self.root_path,
                scanning: true,
                ..cleared
            },
            Work::Scan { root: self.root_path, options: self.options },
        )
    }

    /// Scan a different root from scratch.
    pub open spec fn set_root(self, root: Seq<u8>, volume: Volume) -> (State, Work) {
        State {
            space: volume.space,
            device: text::opt_text(volume.device),
            root_path: root,
            screen: Screen::Explore,
            ..self
        }.start_scan()
    }

    /// Go up to `above`, reusing the tree already measured.
    pub open spec fn widen_to(self, above: Seq<u8>, volume: Volume) -> (State, Work) {
        if self.tree is None {
            self.set_root(above, volume)
        } else if !paths::starts_with(self.root_path, above) || paths::same_path(
            self.root_path,
            above,
        ) {
            (self, Work::Nothing)
        } else {
            (
                State {
                    progress: ScanSnapshot::nothing(),
                    scan_error: None,
                    scan_elapsed: None,
                    scan_root: above,
                    scanning: true,
                    ..self
                },
                Work::Widen { root: above, options: self.options, known: self.root_path },
            )
        }
    }

    /// Go to the top of the disk.
    #[verifier::opaque]
    pub open spec fn go_to_disk(self, volume: Volume) -> (State, Work) {
        match self.disk_root {
            None => (self, Work::Nothing),
            Some(disk) => if paths::same_path(disk, self.root_path) {
                (self.go_to(Seq::empty()), Work::Nothing)
            } else {
                self.widen_to(disk, volume)
            },
        }
    }

    /// Take up a finished walk.
    #[verifier::opaque]
    pub open spec fn land(self, landing: Landing) -> State {
        let from = self.root_path;
        let widened = !paths::same_path(self.scan_root, self.root_path);
        let moved = if widened {
            State {
                root_path: self.scan_root,
                space: landing.volume.space,
                device: text::opt_text(landing.volume.device),
                ..self.clear_filter()
            }
        } else {
            self
        };
        let measured = State {
            marks: marks::marks_of(landing.marks@),
            tree: Some(landing.tree),
            past: Seq::empty(),
            future: Seq::empty(),
            cache: None,
            scanned_at: landing.now,
            insights: landing.insights@,
            scan_elapsed: Some(landing.elapsed@),
            ..moved
        };
        let placed = if widened {
            State {
                crumbs: Seq::empty(),
                camera: Camera::still(),
                selected: match measured.crumbs_for_path(from) {
                    Some(crumbs) => if crumbs.len() > 0 {
                        Some(seq![crumbs[0]])
                    } else {
                        None
                    },
                    None => None,
                },
                ..measured.forget_hover()
            }
        } else {
            measured
        };
        placed.keep_selection_valid().select_largest()
    }

    /// Look at the scan in flight once.
    pub open spec fn poll_scan(self, snapshot: ScanSnapshot, outcome: Option<Outcome>) -> State {
        if !self.scanning {
            self
        } else {
            let seen = State { progress: snapshot, ..self };
            let over = ScanSnapshot { finished: true, ..snapshot };
            match outcome {
                None => seen,
                Some(Outcome::Landed(landing)) => State {
                    scanning: false,
                    progress: over,
                    ..seen.land(landing)
                },
                Some(Outcome::Failed(error)) => State {
                    scanning: false,
                    progress: over,
                    scan_error: Some(error@),
                    ..seen
                },
            }
        }
    }

    /// Measure by the other metric.
    #[verifier::opaque]
    pub open spec fn toggle_metric(self) -> (State, Work) {
        let metric = self.options.metric.other();
        (
            State {
                options: ScanOptions { metric, ..self.options },
                cache: None,
                ..self.clear_filter()
            },
            Work::Remeasure { metric },
        )
    }

    /// Take up the tree ranked by another metric; children are ordered by
    /// the metric, so every crumb may have moved.
    pub open spec fn remeasured(
        self,
        ranked: Option<Remeasured>,
        insights: Seq<Candidate>,
        now: i64,
    ) -> State {
        let taken = match ranked {
            Some(ranked) => if self.tree is Some {
                State {
                    tree: Some(ranked.tree),
                    past: Seq::empty(),
                    future: Seq::empty(),
                    marks: marks::marks_of(ranked.marks@),
                    ..self
                }
            } else {
                self
            },
            None => self,
        };
        State { scanned_at: now, insights, ..taken }
    }

    /// The Size | Files | Age choice.
    #[verifier::opaque]
    pub open spec fn set_mode(self, index: usize) -> (State, Work) {
        let coloured = State { color_mode: mode_color(index), ..self };
        if self.options.metric != mode_metric(index) {
            coloured.toggle_metric()
        } else {
            (coloured, Work::Nothing)
        }
    }

    /// The Size | Files | Age choice currently on.
    pub open spec fn mode_index(self) -> usize {
        match (self.color_mode, self.options.metric) {
            (ColorMode::Age, _) => 2,
            (ColorMode::Kind, Metric::Files) => 1,
            (ColorMode::Kind, Metric::Bytes) => 0,
        }
    }

    /// Draw `step` more levels, as far as that goes.
    #[verifier::opaque]
    pub open spec fn adjust_depth(self, step: int) -> State {
        State { depth: clamp_depth(self.depth + step), cache: None, ..self }
    }

    /// A reading of the free space is due, `elapsed` milliseconds after the
    /// last one.
    pub open spec fn space_due(self, elapsed: u64) -> bool {
        elapsed >= if self.screen == Screen::Running {
            SPACE_RUNNING_MS
        } else {
            SPACE_IDLE_MS
        }
    }

    /// A reading of the free space is taken up where it is due.
    pub open spec fn read_space(self, elapsed: u64, fresh: Option<SpaceInfo>) -> State {
        if self.space_due(elapsed) {
            State { space: fresh, ..self }
        } else {
            self
        }
    }

    /// What git said of `path`, if it was asked.
    pub open spec fn git_at(self, path: Seq<u8>) -> Option<Option<GitState>> {
        git_found(self.git, path)
    }

    /// Keep what git said of `path`, the first time it is asked.
    pub open spec fn ensure_git(self, path: Seq<u8>, state: Option<GitState>) -> State {
        if self.git_at(path) is Some {
            self
        } else {
            State { git: self.git.push((path, state)), ..self }
        }
    }
}

/// What git said of `path` first.
pub open spec fn git_found(
    git: Seq<(Seq<u8>, Option<GitState>)>,
    path: Seq<u8>,
) -> Option<Option<GitState>>
    decreases git.len(),
{
    if git.len() == 0 {
        None
    } else {
        match git_found(git.drop_last(), path) {
            Some(state) => Some(state),
            None => if paths::same_path(git.last().0, path) {
                Some(git.last().1)
            } else {
                None
            },
        }
    }
}

proof fn lemma_git_found(git: Seq<(Seq<u8>, Option<GitState>)>, path: Seq<u8>, len: int)
    requires
        0 <= len <= git.len(),
        git_found(git.take(len), path) is Some,
    ensures
        git_found(git, path) == git_found(git.take(len), path),
    decreases git.len(),
{
    if len == git.len() {
        assert(git.take(len) =~= git);
    } else {
        assert(git.drop_last().take(len) =~= git.take(len));
        lemma_git_found(git.drop_last(), path, len);
    }
}

fn clamped_depth(depth: i64) -> (r: u32)
    ensures
        r == clamp_depth(depth as int),
{
    if depth < MIN_DEPTH as i64 {
        MIN_DEPTH
    } else if depth > MAX_DEPTH as i64 {
        MAX_DEPTH
    } else {
        depth as u32
    }
}

/// Seconds since the Unix epoch by the machine's clock, when it is set to a
/// time after the epoch: `std::time::SystemTime::now` measured from
/// `UNIX_EPOCH`. Nothing is claimed of the number.
#[verifier::external_body]
fn clock_seconds() -> (r: Option<u64>) {
    match std::time::SystemTime::now().duration_since(std::time::UNIX_EPOCH) {
        Ok(since) => Some(since.as_secs()),
        Err(_) => None,
    }
}

/// A reading of the clock as Unix seconds: 0 before the epoch, and no later
/// than can be written.
pub open spec fn unix_seconds(clock: Option<u64>) -> i64 {
    match clock {
        Some(seconds) => if seconds <= i64::MAX {
            seconds as i64
        } else {
            i64::MAX
        },
        None => 0,
    }
}

/// A reading of the clock as Unix seconds.
pub fn seconds_of(clock: Option<u64>) -> (r: i64)
    ensures
        r == unix_seconds(clock),
        r >= 0,
{
    match clock {
        Some(seconds) => if seconds <= i64::MAX as u64 {
            seconds as i64
        } else {
            i64::MAX
        },
        None => 0,
    }
}

/// Now, in Unix seconds.
pub fn now_seconds() -> (r: i64)
    ensures
        r >= 0,
{
    seconds_of(clock_seconds())
}

impl Web {
    /// The constructor's state with nothing started; `new` adds the scan.
    pub fn base(root_path: OsPath, options: ScanOptions, depth: u32, machine: Machine) -> (r: Web)
        ensures
            r@ == State::fresh(root_path@, options, depth, machine),
    {
        let removal_mode = if machine.trash.available {
            RemovalMode::Trash
        } else {
            RemovalMode::Permanent
        };
        let r = Web {
            root_path,
            home: machine.home,
            options,
            tree: None,
            scanning: false,
            progress: ScanSnapshot::empty(),
            scan_error: None,
            screen: Screen::Explore,
            crumbs: Vec::new(),
            past: Vec::new(),
            future: Vec::new(),
            selected: None,
            hovered: None,
            pointer_active: false,
            camera: Camera::identity(),
            depth: clamped_depth(depth as i64),
            cache: None,
            pointer: None,
            mosaic_size: (Single::from_bits(single::ZERO), Single::from_bits(single::ZERO)),
            marks: Marks::new(),
            removal_mode,
            trash: machine.trash,
            confirm_open: false,
            removing: false,
            run_summary: RunSummary::of(0),
            run_log: Vec::new(),
            space: machine.volume.space,
            space_baseline: None,
            notice: None,
            find: String::new(),
            find_open: false,
            matches: None,
            filter_applied: false,
            filter_epoch: 0,
            show_help: false,
            show_selection: true,
            crumb_menu: None,
            color_mode: ColorMode::Kind,
            insights: Vec::new(),
            git: Vec::new(),
            device: machine.volume.device,
            disk_root: machine.disk_root,
            panel_px: Single::from_bits(PANEL_DEFAULT_PX),
            scan_root: OsPath::from_bytes(Vec::new()),
            scan_elapsed: None,
            scanned_at: machine.now,
            appearance: Appearance::Dark,
        };
        proof {
            assert(tree::crumb_lists(r.past@) =~= Seq::empty());
            assert(tree::crumb_lists(r.future@) =~= Seq::empty());
            assert(app::log_of(r.run_log@) =~= Seq::empty());
            assert(app::git_of(r.git@) =~= Seq::empty());
        }
        r
    }

    /// The application, scanning `root_path`.
    pub fn new(root_path: OsPath, options: ScanOptions, depth: u32, machine: Machine) -> (r: (
        Web,
        Effect,
    ))
        ensures
            (r.0@, r.1@) == State::fresh(root_path@, options, depth, machine).start_scan(),
    {
        let mut app = Web::base(root_path, options, depth, machine);
        let effect = app.start_scan();
        (app, effect)
    }

    /// The application over a tree that is already known, without a walk.
    pub fn with_tree(
        root_path: OsPath,
        tree: Node,
        options: ScanOptions,
        depth: u32,
        machine: Machine,
        insights: Vec<Candidate>,
    ) -> (r: Web)
        ensures
            r@ == (State {
                tree: Some(tree),
                insights: insights@,
                ..State::fresh(root_path@, options, depth, machine)
            }).select_largest(),
    {
        let mut app = Web::base(root_path, options, depth, machine);
        app.tree = Some(tree);
        app.insights = insights;
        app.select_largest();
        app
    }

    /// In another tree the crumbs of the directories visited lead elsewhere.
    fn forget_visits(&mut self)
        ensures
            final(self)@ == (State { past: Seq::empty(), future: Seq::empty(), ..old(self)@ }),
    {
        self.past.clear();
        self.future.clear();
        proof {
            assert(tree::crumb_lists(self.past@) =~= Seq::empty());
            assert(tree::crumb_lists(self.future@) =~= Seq::empty());
        }
    }

    /// Start a fresh scan, abandoning any walk still in progress.
    pub fn start_scan(&mut self) -> (r: Effect)
        ensures
            (final(self)@, r@) == old(self)@.start_scan(),
    {
        proof {
            reveal(State::start_scan);
            reveal(State::clear_filter);
        }
        self.progress = ScanSnapshot::empty();
        self.scan_error = None;
        self.tree = None;
        self.crumbs.clear();
        self.forget_visits();
        self.selected = None;
        self.camera = Camera::identity();
        self.cache = None;
        self.insights.clear();
        self.git.clear();
        self.clear_filter();
        self.scan_elapsed = None;
        self.scan_root = self.root_path.copy();
        self.scanning = true;
        proof {
            assert(app::git_of(self.git@) =~= Seq::empty());
        }
        Effect::Scan { root: self.root_path.copy(), options: self.options }
    }

    /// Scan a different root from scratch. Marks are kept; a mark outside
    /// the new root is shown as kept back, never removed.
    pub fn set_root(&mut self, root: OsPath, volume: Volume) -> (r: Effect)
        ensures
            (final(self)@, r@) == old(self)@.set_root(root@, volume),
    {
        self.space = volume.space;
        self.device = volume.device;
        self.root_path = root;
        self.screen = Screen::Explore;
        self.start_scan()
    }

    /// Go up to `above`, a directory containing the scanned root.
    ///
    /// Memoized: the tree already measured is handed to the walk and reused
    /// where it is reached, so only what is new at the wider level is read,
    /// and the current view stays on screen until the wider tree lands.
    pub fn widen_to(&mut self, above: OsPath, volume: Volume) -> (r: Effect)
        ensures
            (final(self)@, r@) == old(self)@.widen_to(above@, volume),
    {
        if self.tree.is_none() {
            return self.set_root(above, volume);
        }
        if !self.root_path.starts_with(&above) || self.root_path.same(&above) {
            return Effect::Nothing;
        }
        self.progress = ScanSnapshot::empty();
        self.scan_error = None;
        self.scan_elapsed = None;
        self.scan_root = above.copy();
        self.scanning = true;
        Effect::Widen { root: above, options: self.options, known: self.root_path.copy() }
    }

    /// `g`: the whole disk. Widens when the disk is above the scanned root,
    /// and goes to its top when it already is the root.
    pub fn go_to_disk(&mut self, volume: Volume) -> (r: Effect)
        ensures
            (final(self)@, r@) == old(self)@.go_to_disk(volume),
    {
        proof {
            reveal(State::go_to_disk);
        }
        let disk = match &self.disk_root {
            Some(disk) => disk.copy(),
            None => {
                return Effect::Nothing;
            },
        };
        if disk.same(&self.root_path) {
            let top: Vec<usize> = Vec::new();
            assert(top@ =~= Seq::<usize>::empty());
            self.go_to(top);
            Effect::Nothing
        } else {
            self.widen_to(disk, volume)
        }
    }

    fn land(&mut self, landing: Landing)
        ensures
            final(self)@ == old(self)@.land(landing),
    {
        proof {
            reveal(State::land);
            reveal(State::clear_filter);
        }
        let widened = !self.scan_root.same(&self.root_path);
        let from = self.root_path.copy();
        if widened {
            self.clear_filter();
            self.root_path = self.scan_root.copy();
            self.space = landing.volume.space;
            self.device = landing.volume.device;
        }
        self.marks = Marks { items: landing.marks };
        self.tree = Some(landing.tree);
        self.forget_visits();
        self.cache = None;
        self.scanned_at = landing.now;
        self.insights = landing.insights;
        self.scan_elapsed = Some(landing.elapsed);
        if widened {
            let found = self.crumbs_for_path(&from);
            self.crumbs.clear();
            self.camera = Camera::identity();
            self.forget_hover();
            self.selected = match found {
                Some(crumbs) => if crumbs.len() > 0 {
                    let mut top: Vec<usize> = Vec::new();
                    top.push(crumbs[0]);
                    assert(top@ =~= seq![crumbs@[0]]);
                    Some(top)
                } else {
                    None
                },
                None => None,
            };
        }
        self.keep_selection_valid();
        self.select_largest();
    }

    /// Look at the scan in flight once: how far it is, and how it ended if it
    /// did. A widening scan lands on a new root: the view moves up to it,
    /// with the directory it came from selected.
    pub fn poll_scan_once(&mut self, snapshot: ScanSnapshot, outcome: Option<Outcome>)
        ensures
            final(self)@ == old(self)@.poll_scan(snapshot, outcome),
    {
        if !self.scanning {
            return ;
        }
        self.progress = snapshot;
        match outcome {
            None => {},
            Some(Outcome::Landed(landing)) => {
                self.land(landing);
                self.end_scan(snapshot);
            },
            Some(Outcome::Failed(error)) => {
                self.scan_error = Some(error);
                self.end_scan(snapshot);
            },
        }
    }

    fn end_scan(&mut self, snapshot: ScanSnapshot)
        ensures
            final(self)@ == (State {
                scanning: false,
                progress: ScanSnapshot { finished: true, ..snapshot },
                ..old(self)@
            }),
    {
        self.scanning = false;
        self.progress = ScanSnapshot {
            files: snapshot.files,
            dirs: snapshot.dirs,
            bytes: snapshot.bytes,
            errors: snapshot.errors,
            finished: true,
        };
    }

    /// Anything the browser should keep polling for.
    pub fn busy(&self) -> (r: bool)
        ensures
            r == (self@.scanning || self@.removing),
    {
        self.scanning || self.removing
    }

    /// How long a reading of the free space stays fresh, in milliseconds.
    pub fn space_interval(&self) -> (r: u64)
        ensures
            r == if self@.screen == Screen::Running {
                SPACE_RUNNING_MS
            } else {
                SPACE_IDLE_MS
            },
            self@.space_due(r),
            forall|sooner: u64| sooner < r ==> !(#[trigger] self@.space_due(sooner)),
    {
        if self.screen == Screen::Running {
            SPACE_RUNNING_MS
        } else {
            SPACE_IDLE_MS
        }
    }

    /// Take up a reading of the free space, `elapsed` milliseconds after the
    /// last one; whether it was due.
    pub fn read_space(&mut self, elapsed: u64, fresh: Option<SpaceInfo>) -> (r: bool)
        ensures
            r == (elapsed >= if old(self)@.screen == Screen::Running {
                SPACE_RUNNING_MS
            } else {
                SPACE_IDLE_MS
            }),
            final(self)@ == if r {
                State { space: fresh, ..old(self)@ }
            } else {
                old(self)@
            },
            r == old(self)@.space_due(elapsed),
            final(self)@ == old(self)@.read_space(elapsed, fresh),
    {
        if elapsed >= self.space_interval() {
            self.space = fresh;
            true
        } else {
            false
        }
    }

    /// Measure by the other metric.
    pub fn toggle_metric(&mut self) -> (r: Effect)
        ensures
            (final(self)@, r@) == old(self)@.toggle_metric(),
    {
        proof {
            reveal(State::toggle_metric);
            reveal(State::clear_filter);
        }
        let metric = self.options.metric.toggled();
        self.options = ScanOptions {
            metric,
            apparent_size: self.options.apparent_size,
            follow_links: self.options.follow_links,
            include_hidden: self.options.include_hidden,
            one_filesystem: self.options.one_filesystem,
        };
        self.clear_filter();
        self.cache = None;
        Effect::Remeasure { metric }
    }

    /// Take up the tree ranked by another metric.
    pub fn remeasured(
        &mut self,
        ranked: Option<Remeasured>,
        insights: Vec<Candidate>,
        now: i64,
    )
        ensures
            final(self)@ == old(self)@.remeasured(ranked, insights@, now),
    {
        if let Some(ranked) = ranked {
            if self.tree.is_some() {
                self.tree = Some(ranked.tree);
                self.forget_visits();
                self.marks = Marks { items: ranked.marks };
            }
        }
        self.scanned_at = now;
        self.insights = insights;
    }

    /// The Size | Files | Age choice: what areas measure, and what colour
    /// says. Age keeps areas by size, since age has no area of its own.
    pub fn set_mode(&mut self, index: usize) -> (r: Effect)
        ensures
            (final(self)@, r@) == old(self)@.set_mode(index),
    {
        proof {
            reveal(State::set_mode);
        }
        let metric = if index == 1 {
            Metric::Files
        } else {
            Metric::Bytes
        };
        self.color_mode = if index == 2 {
            ColorMode::Age
        } else {
            ColorMode::Kind
        };
        if self.options.metric != metric {
            self.toggle_metric()
        } else {
            Effect::Nothing
        }
    }

    /// The Size | Files | Age choice currently on.
    pub fn mode_index(&self) -> (r: usize)
        ensures
            r == self@.mode_index(),
            r < 3,
    {
        match (self.color_mode, self.options.metric) {
            (ColorMode::Age, _) => 2,
            (ColorMode::Kind, Metric::Files) => 1,
            (ColorMode::Kind, Metric::Bytes) => 0,
        }
    }

    /// Change how many levels are drawn, which is the other meaning of zoom
    /// in a treemap: seeing further in without changing what is on screen.
    pub fn adjust_depth(&mut self, step: i32)
        ensures
            final(self)@ == old(self)@.adjust_depth(step as int),
    {
        proof {
            reveal(State::adjust_depth);
        }
        self.depth = clamped_depth(self.depth as i64 + step as i64);
        self.cache = None;
    }

    /// What git said of `path`, if it was asked.
    pub fn git_at(&self, path: &OsPath) -> (r: Option<&Option<GitState>>)
        ensures
            match r {
                Some(state) => self@.git_at(path@) == Some(*state),
                None => self@.git_at(path@) is None,
            },
    {
        let ghost git = app::git_of(self.git@);
        let mut at: usize = 0;
        assert(git.take(0) =~= Seq::empty());
        while at < self.git.len()
            invariant
                at <= self.git@.len(),
                git == app::git_of(self.git@),
                git_found(git.take(at as int), path@) is None,
            decreases self.git@.len() - at,
        {
            proof {
                assert(git.take(at + 1).drop_last() =~= git.take(at as int));
                assert(git.take(at + 1).last() == (
                    self.git@[at as int].path@,
                    self.git@[at as int].state,
                ));
            }
            if self.git[at].path.same(path) {
                proof {
                    lemma_git_found(git, path@, at + 1);
                }
                return Some(&self.git[at].state);
            }
            at = at + 1;
        }
        assert(git.take(at as int) =~= git);
        None
    }

    /// Keep what git says about `path`, asked once.
    pub fn ensure_git(&mut self, path: OsPath, state: Option<GitState>)
        ensures
            final(self)@ == old(self)@.ensure_git(path@, state),
    {
        if self.git_at(&path).is_some() {
            return ;
        }
        let ghost before = self@;
        self.git.push(GitEntry { path, state });
        proof {
            assert(app::git_of(self.git@) =~= before.git.push((path@, state)));
        }
    }
}

} // verus!
