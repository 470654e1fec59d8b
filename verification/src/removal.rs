//! Marking, and removing what is marked.

use crate::app;
use crate::app::{
    Effect, LogEntry, LogLine, News, Notice, RunSummary, Screen, State, Status, Web, Work,
};
use crate::marks;
use crate::marks::{Mark, Plan, RemovalMode, Target};
use crate::paths;
use crate::paths::OsPath;
use crate::text;
use vstd::prelude::*;

verus! {

/// What a running removal reports.
#[derive(Debug)]
pub enum RemovalEvent {
    Start { total: usize },
    /// One item: removed, or not and why.
    Item { path: OsPath, bytes: u64, error: Option<String> },
    Done { removed: u64, bytes: u64, failed: usize },
}

/// The summary after `event`.
pub open spec fn summary_after(summary: RunSummary, event: RemovalEvent) -> RunSummary {
    match event {
        RemovalEvent::Start { total } => RunSummary { total, ..summary },
        RemovalEvent::Item { bytes, error, .. } => if error is None {
            RunSummary {
                removed: (summary.removed + 1) as u64,
                bytes: (summary.bytes + bytes) as u64,
                ..summary
            }
        } else {
            RunSummary { failed: (summary.failed + 1) as usize, ..summary }
        },
        RemovalEvent::Done { removed, bytes, failed } => RunSummary {
            removed,
            bytes,
            failed,
            ..summary
        },
    }
}

/// The summary after the first `count` events.
pub open spec fn summary_of(
    summary: RunSummary,
    events: Seq<RemovalEvent>,
    count: int,
) -> RunSummary
    decreases count,
{
    if count <= 0 {
        summary
    } else {
        summary_after(summary_of(summary, events, count - 1), events[count - 1])
    }
}

/// `event` can be counted.
pub open spec fn countable(summary: RunSummary, event: RemovalEvent) -> bool {
    match event {
        RemovalEvent::Item { bytes, error, .. } => if error is None {
            summary.removed < u64::MAX && summary.bytes + bytes <= u64::MAX
        } else {
            summary.failed < usize::MAX
        },
        _ => true,
    }
}

/// The log after the first `count` events.
pub open spec fn log_after(
    log: Seq<LogLine>,
    events: Seq<RemovalEvent>,
    count: int,
) -> Seq<LogLine>
    decreases count,
{
    if count <= 0 {
        log
    } else {
        match events[count - 1] {
            RemovalEvent::Item { path, error, .. } => log_after(log, events, count - 1).push(
                LogLine { path: path@, error: text::opt_text(error) },
            ),
            _ => log_after(log, events, count - 1),
        }
    }
}

/// The run ended within the first `count` events.
pub open spec fn finished(events: Seq<RemovalEvent>, count: int) -> bool {
    exists|i: int| 0 <= i < count && (#[trigger] events[i]) is Done
}

/// `a`, or else `b`.
pub open spec fn or_else<T>(a: Option<T>, b: Option<T>) -> Option<T> {
    match a {
        Some(_) => a,
        None => b,
    }
}

impl State {
    /// What marking the node at `crumbs` would mark.
    pub open spec fn target_at(self, crumbs: Seq<usize>) -> Option<Mark> {
        match (self.node_at(crumbs), self.path_at(crumbs)) {
            (Some(node), Some(path)) => Some(
                Mark { path, bytes: node.measure(self.options.metric), is_dir: node.dir },
            ),
            _ => None,
        }
    }

    /// Mark or unmark `target`. A mark covers everything beneath it: marking
    /// a directory absorbs the marks inside it, and a path inside a marked
    /// directory cannot be marked on its own.
    pub open spec fn toggle_target(self, target: Mark) -> State {
        let path = target.path;
        if marks::marked(self.marks, path) {
            State { marks: self.marks.filter(marks::apart_from(path)), notice: None, ..self }
        } else {
            match marks::shortest_cover(self.marks, path) {
                Some(ancestor) => State {
                    notice: Some(News::GoesWith { path, ancestor }),
                    ..self
                },
                None => {
                    let all = self.marks.push(target);
                    let kept = all.filter(marks::not_inside(path));
                    State {
                        marks: kept,
                        space_baseline: or_else(self.space_baseline, self.space),
                        notice: if kept.len() < all.len() {
                            Some(News::Covers { path, count: all.len() - kept.len() })
                        } else {
                            None
                        },
                        ..self
                    }
                },
            }
        }
    }

    /// Mark or unmark the node at `crumbs`.
    #[verifier::opaque]
    pub open spec fn toggle_mark(self, crumbs: Seq<usize>) -> State {
        match self.target_at(crumbs) {
            Some(target) => self.toggle_target(target),
            None => self,
        }
    }

    /// Mark or unmark the selection; the scanned root stays.
    #[verifier::opaque]
    pub open spec fn toggle_mark_selected(self) -> State {
        match self.selected {
            None => self,
            Some(crumbs) => if crumbs.len() == 0 {
                State { notice: Some(News::RootStays), ..self }
            } else {
                self.toggle_mark(crumbs)
            },
        }
    }

    /// Start removing what the plan holds: what was reviewed is what is run.
    pub open spec fn begin_removal(self, plan: Plan) -> (State, Work) {
        if plan.targets@.len() == 0 {
            (State { notice: Some(News::NothingMarked), ..self }, Work::Nothing)
        } else {
            (
                State {
                    space_baseline: or_else(self.space, self.space_baseline),
                    run_summary: RunSummary {
                        total: plan.targets@.len() as usize,
                        removed: 0,
                        bytes: 0,
                        failed: 0,
                    },
                    run_log: Seq::empty(),
                    screen: Screen::Running,
                    removing: true,
                    ..self
                },
                Work::Remove {
                    mode: self.removal_mode,
                    targets: marks::marks_of(plan.targets@),
                },
            )
        }
    }

    /// The review screen's commit: to the trash at once, or ask first.
    pub open spec fn commit(self, plan: Plan) -> (State, Work) {
        if plan.targets@.len() == 0 {
            (self, Work::Nothing)
        } else {
            match self.removal_mode {
                RemovalMode::Trash => self.begin_removal(plan),
                RemovalMode::Permanent => (State { confirm_open: true, ..self }, Work::Nothing),
            }
        }
    }

    /// The dialog's `Delete`.
    pub open spec fn confirm_delete(self, plan: Plan) -> (State, Work) {
        State { confirm_open: false, ..self }.begin_removal(plan)
    }

    /// Take up what a running removal reported.
    pub open spec fn poll_removal(self, events: Seq<RemovalEvent>) -> (State, Work) {
        if !self.removing {
            (self, Work::Nothing)
        } else {
            let counted = State {
                run_summary: summary_of(self.run_summary, events, events.len() as int),
                run_log: log_after(self.run_log, events, events.len() as int),
                ..self
            };
            if finished(events, events.len() as int) {
                State {
                    removing: false,
                    marks: Seq::empty(),
                    screen: Screen::Done,
                    ..counted
                }.start_scan()
            } else {
                (counted, Work::Nothing)
            }
        }
    }
}

impl Notice {
    /// The notice's weight.
    pub fn status(&self) -> (r: Status)
        ensures
            r == if self is Covers {
                Status::Neutral
            } else {
                Status::Warning
            },
    {
        match self {
            Notice::Covers { .. } => Status::Neutral,
            _ => Status::Warning,
        }
    }

    /// What the notice says. `path` and `ancestor` are its paths as they are
    /// shown.
    pub open spec fn says(news: News, path: Seq<char>, ancestor: Seq<char>) -> Seq<char> {
        match news {
            News::RootStays =>
                "the scanned root cannot be removed; open a directory first"@,
            News::GoesWith { .. } => path + " goes with the marked "@ + ancestor
                + "; unmark that to keep it"@,
            News::Covers { count, .. } => path + " now covers "@ + text::decimal(count as nat)
                + " mark"@ + (if count == 1 {
                ""@
            } else {
                "s"@
            }) + " inside it"@,
            News::NothingMarked => "nothing is marked"@,
            News::NoMatch { needle } => "nothing here matches "@ + needle,
            News::MarkFirst => "mark something first: space marks the selected tile"@,
            News::Stopping => "stopping after the current item"@,
        }
    }

    /// What the notice says. `path` and `ancestor` are its paths as they are
    /// shown.
    pub fn message(&self, path: &str, ancestor: &str) -> (r: String)
        ensures
            r@ == Notice::says(app::opt_news(Some(*self))->0, path@, ancestor@),
    {
        match self {
            Notice::RootStays => {
                "the scanned root cannot be removed; open a directory first".to_owned()
            },
            Notice::GoesWith { .. } => path.to_owned().concat(" goes with the marked ").concat(
                ancestor,
            ).concat("; unmark that to keep it"),
            Notice::Covers { count, .. } => path.to_owned().concat(" now covers ").concat(
                text::index_text(*count).as_str(),
            ).concat(" mark").concat(
                if *count == 1 {
                    ""
                } else {
                    "s"
                },
            ).concat(" inside it"),
            Notice::NothingMarked => "nothing is marked".to_owned(),
            Notice::NoMatch { needle } => "nothing here matches ".to_owned().concat(
                needle.as_str(),
            ),
            Notice::MarkFirst => {
                "mark something first: space marks the selected tile".to_owned()
            },
            Notice::Stopping => "stopping after the current item".to_owned(),
        }
    }
}

fn take_up(start: RunSummary, log: &mut Vec<LogEntry>, events: &Vec<RemovalEvent>) -> (r: (
    RunSummary,
    bool,
))
    requires
        forall|i: int|
            0 <= i < events@.len() ==> countable(
                summary_of(start, events@, i),
                #[trigger] events@[i],
            ),
    ensures
        r.0 == summary_of(start, events@, events@.len() as int),
        r.1 == finished(events@, events@.len() as int),
        app::log_of(final(log)@) == log_after(
            app::log_of(old(log)@),
            events@,
            events@.len() as int,
        ),
{
    let mut summary = start;
    let mut done = false;
    let mut at: usize = 0;
    let ghost before = app::log_of(log@);
    while at < events.len()
        invariant
            at <= events@.len(),
            forall|i: int|
                0 <= i < events@.len() ==> countable(
                    summary_of(start, events@, i),
                    #[trigger] events@[i],
                ),
            summary == summary_of(start, events@, at as int),
            done == finished(events@, at as int),
            app::log_of(log@) == log_after(before, events@, at as int),
        decreases events@.len() - at,
    {
        let ghost lines = log@;
        assert(countable(summary, events@[at as int]));
        match &events[at] {
            RemovalEvent::Start { total } => {
                summary.total = *total;
            },
            RemovalEvent::Item { path, bytes, error } => {
                match error {
                    None => {
                        summary.removed = summary.removed + 1;
                        summary.bytes = summary.bytes + *bytes;
                    },
                    Some(_) => {
                        summary.failed = summary.failed + 1;
                    },
                }
                let reason = match error {
                    Some(error) => Some(error.clone()),
                    None => None,
                };
                let entry = LogEntry { path: path.copy(), error: reason };
                log.push(entry);
                proof {
                    assert(app::log_of(log@) =~= app::log_of(lines).push(entry@));
                }
            },
            RemovalEvent::Done { removed, bytes, failed } => {
                summary.removed = *removed;
                summary.bytes = *bytes;
                summary.failed = *failed;
                done = true;
                assert(events@[at as int] is Done);
            },
        }
        at = at + 1;
    }
    (summary, done)
}

impl Web {
    /// What marking the node at `crumbs` would mark.
    pub fn target_at(&self, crumbs: &[usize]) -> (r: Option<Target>)
        ensures
            match r {
                Some(target) => self@.target_at(crumbs@) == Some(target@),
                None => self@.target_at(crumbs@) is None,
            },
    {
        match (self.node_at(crumbs), self.path_at(crumbs)) {
            (Some(node), Some(path)) => Some(
                Target { path, bytes: node.value(self.options.metric), is_dir: node.dir },
            ),
            _ => None,
        }
    }

    /// The marked directory `path` is inside, if any; never `path` itself.
    pub fn marked_ancestor(&self, path: &OsPath) -> (r: Option<OsPath>)
        ensures
            paths::opt_path(r) == marks::shortest_cover(self@.marks, path@),
    {
        self.marks.ancestor_of(path)
    }

    /// Mark or unmark the node at `crumbs`.
    ///
    /// A mark covers everything beneath it, since removing a directory takes
    /// its contents with it: marking a directory absorbs the marks already
    /// inside it, and a path inside a marked directory cannot be marked or
    /// kept on its own; it says which mark it goes with instead.
    pub fn toggle_mark(&mut self, crumbs: &[usize])
        ensures
            final(self)@ == old(self)@.toggle_mark(crumbs@),
    {
        proof {
            reveal(State::toggle_mark);
        }
        if let Some(target) = self.target_at(crumbs) {
            self.toggle_target(target);
        }
    }

    fn toggle_target(&mut self, target: Target)
        ensures
            final(self)@ == old(self)@.toggle_target(target@),
    {
        let path = target.path.copy();
        let known = self.marks.contains(&target.path);
        let cover = self.marked_ancestor(&target.path);
        if known {
            let _off = self.marks.toggle(target);
            self.notice = None;
        } else {
            match cover {
                Some(ancestor) => {
                    self.notice = Some(Notice::GoesWith { path, ancestor });
                },
                None => {
                    let _on = self.marks.toggle(target);
                    let inside = self.marks.absorb(&path);
                    self.space_baseline = match self.space_baseline {
                        Some(space) => Some(space),
                        None => self.space,
                    };
                    self.notice = if inside > 0 {
                        Some(Notice::Covers { path, count: inside })
                    } else {
                        None
                    };
                },
            }
        }
    }

    /// Mark or unmark the current selection.
    pub fn toggle_mark_selected(&mut self)
        ensures
            final(self)@ == old(self)@.toggle_mark_selected(),
    {
        proof {
            reveal(State::toggle_mark_selected);
        }
        let crumbs = match &self.selected {
            Some(selected) => crate::tree::copy_crumbs(selected.as_slice()),
            None => {
                return ;
            },
        };
        if crumbs.len() == 0 {
            self.notice = Some(Notice::RootStays);
            return ;
        }
        self.toggle_mark(crumbs.as_slice());
    }

    /// Take `path` off the list.
    pub fn unmark(&mut self, path: &OsPath)
        ensures
            final(self)@ == (State {
                marks: old(self)@.marks.filter(marks::apart_from(path@)),
                ..old(self)@
            }),
    {
        self.marks.remove(path);
    }

    /// Take everything off the list.
    pub fn clear_marks(&mut self)
        ensures
            final(self)@ == (State { marks: Seq::empty(), notice: None, ..old(self)@ }),
    {
        self.marks.clear();
        self.notice = None;
    }

    /// The review screen's commit: move to the trash at once, or ask first
    /// for a permanent deletion, which cannot be undone.
    pub fn commit(&mut self, plan: &Plan) -> (r: Effect)
        ensures
            (final(self)@, r@) == old(self)@.commit(*plan),
    {
        if plan.is_empty() {
            return Effect::Nothing;
        }
        match self.removal_mode {
            RemovalMode::Trash => self.begin_removal(plan),
            RemovalMode::Permanent => {
                self.confirm_open = true;
                Effect::Nothing
            },
        }
    }

    /// The dialog's `Delete`.
    pub fn confirm_delete(&mut self, plan: &Plan) -> (r: Effect)
        ensures
            (final(self)@, r@) == old(self)@.confirm_delete(*plan),
    {
        self.confirm_open = false;
        self.begin_removal(plan)
    }

    /// The dialog's `Cancel`, or Escape.
    pub fn cancel_delete(&mut self)
        ensures
            final(self)@ == (State { confirm_open: false, ..old(self)@ }),
    {
        self.confirm_open = false;
    }

    /// Start removing what the plan holds: what was reviewed is what is run.
    pub fn begin_removal(&mut self, plan: &Plan) -> (r: Effect)
        ensures
            (final(self)@, r@) == old(self)@.begin_removal(*plan),
    {
        if plan.is_empty() {
            self.notice = Some(Notice::NothingMarked);
            return Effect::Nothing;
        }
        self.space_baseline = match self.space {
            Some(space) => Some(space),
            None => self.space_baseline,
        };
        self.run_summary = RunSummary::of(plan.targets.len());
        self.run_log.clear();
        assert(app::log_of(self.run_log@) =~= Seq::empty());
        self.screen = Screen::Running;
        self.removing = true;
        Effect::Remove { mode: self.removal_mode, targets: marks::copy_targets(&plan.targets) }
    }

    /// Take up what the removal in flight reported since it was last looked
    /// at. When it is over, the tree on screen is wrong; it is scanned again
    /// rather than leaving numbers that include what was just removed.
    pub fn poll_removal_once(&mut self, events: Vec<RemovalEvent>) -> (r: Effect)
        requires
            forall|i: int|
                0 <= i < events@.len() ==> countable(
                    summary_of(old(self).run_summary, events@, i),
                    #[trigger] events@[i],
                ),
        ensures
            (final(self)@, r@) == old(self)@.poll_removal(events@),
    {
        if !self.removing {
            return Effect::Nothing;
        }
        let (summary, done) = take_up(self.run_summary, &mut self.run_log, &events);
        self.run_summary = summary;
        if done {
            self.removing = false;
            self.marks.clear();
            self.screen = Screen::Done;
            self.start_scan()
        } else {
            Effect::Nothing
        }
    }
}

} // verus!
