//! The review, running and done screens, and the dialogs over a screen.

use crate::app::{LogEntry, LogLine, RunSummary, SpaceInfo, State, Web};
use crate::codec;
use crate::explore;
use crate::json;
use crate::marks;
use crate::marks::{Blocked, Mark, Plan, RemovalMode, Target};
use crate::panel;
use crate::paths;
use crate::paths::OsPath;
use crate::render;
use crate::text;
use crate::words::Words;
use vstd::prelude::*;

verus! {

/// Rows the review lists before folding the rest into a line.
pub const LIST_LIMIT: usize = 200;

/// Kept-back rows the summary lists.
pub const BLOCKED_ROWS: usize = 6;

/// Lines the log of a running removal shows.
pub const LOG_ROWS: usize = 200;

/// Failures the done screen lists.
pub const FAILED_ROWS: usize = 40;

/// A screen's title.
pub open spec fn header_markup(title: Seq<char>, subtitle: Seq<char>) -> Seq<char> {
    let words = render::escaped(subtitle);
    "<div class=\"screen-header\"><span class=\"title\">"@
        + title
        + "</span><span class=\"caption dim\">"@
        + words
        + "</span></div>"@
}

/// A screen's title.
pub fn screen_header(title: &str, subtitle: &str) -> (r: String)
    ensures
        r@ == header_markup(title@, subtitle@),
{
    let words = render::esc(subtitle);
    "<div class=\"screen-header\"><span class=\"title\">".to_owned()
        .concat(title)
        .concat("</span><span class=\"caption dim\">")
        .concat(words.as_str())
        .concat("</span></div>")
}

/// A definition row: label on the left, value on the right.
pub open spec fn row_markup(label: Seq<char>, value: Seq<char>) -> Seq<char> {
    "<div class=\"row\"><span class=\"dim\">"@
        + label
        + "</span><span>"@
        + value
        + "</span></div>"@
}

/// A definition row: label on the left, value on the right.
pub fn row(label: &str, value: &str) -> (r: String)
    ensures
        r@ == row_markup(label@, value@),
{
    "<div class=\"row\"><span class=\"dim\">".to_owned()
        .concat(label)
        .concat("</span><span>")
        .concat(value)
        .concat("</span></div>")
}

/// The volume meter.
pub open spec fn space_markup(space: SpaceInfo, reclaiming: u64, words: Words) -> Seq<char> {
    let left = words.left(reclaiming);
    let back = words.back(reclaiming);
    let free = words.size(space.available);
    let after = if reclaiming > 0 {
        " · → "@ + words.after(reclaiming) + " after"@
    } else {
        ""@
    };
    let total = words.size(space.total);
    "<div class=\"space-meter\"><div class=\"meter\"><span class=\"used\" style=\"width:"@
        + left
        + "%\"></span><span class=\"back\" style=\"left:"@
        + left
        + "%;width:"@
        + back
        + "%\"></span></div><div class=\"caption dim spread\"><span>"@
        + free
        + " free"@
        + after
        + "</span><span>"@
        + total
        + " total</span></div></div>"@
}

/// The volume meter: what is used, what is free, and what the marks will
/// free.
pub fn space_meter(space: SpaceInfo, reclaiming: u64, words: &Words) -> (r: String)
    ensures
        r@ == space_markup(space, reclaiming, *words),
{
    let left = words.left_text(reclaiming);
    let back = words.back_text(reclaiming);
    let free = words.size_text(space.available);
    let after = if reclaiming > 0 {
        " · → ".to_owned().concat(words.after_text(reclaiming)).concat(" after")
    } else {
        "".to_owned()
    };
    let total = words.size_text(space.total);
    "<div class=\"space-meter\"><div class=\"meter\"><span class=\"used\" style=\"width:".to_owned()
        .concat(left)
        .concat("%\"></span><span class=\"back\" style=\"left:")
        .concat(left)
        .concat("%;width:")
        .concat(back)
        .concat("%\"></span></div><div class=\"caption dim spread\"><span>")
        .concat(free)
        .concat(" free")
        .concat(after.as_str())
        .concat("</span><span>")
        .concat(total)
        .concat(" total</span></div></div>")
}

/// A path is among targets.
pub open spec fn listed(targets: Seq<Target>, path: Seq<u8>) -> bool {
    exists|i: int| 0 <= i < targets.len() && paths::same_path((#[trigger] targets[i]).path@, path)
}

fn is_listed(targets: &Vec<Target>, path: &OsPath) -> (r: bool)
    ensures
        r == listed(targets@, path@),
{
    let mut at: usize = 0;
    while at < targets.len()
        invariant
            at <= targets@.len(),
            forall|i: int|
                0 <= i < at ==> !paths::same_path((#[trigger] targets@[i]).path@, path@),
        decreases targets@.len() - at,
    {
        if targets[at].path.same(path) {
            return true;
        }
        at = at + 1;
    }
    false
}

/// Why a path is kept back: the first reason given, from `at` on.
pub open spec fn reason_from(blocked: Seq<Blocked>, path: Seq<u8>, at: int) -> Option<Seq<char>>
    decreases blocked.len() - at,
{
    if at >= blocked.len() {
        None
    } else if paths::same_path(blocked[at].path@, path) {
        Some(blocked[at].reason@)
    } else {
        reason_from(blocked, path, at + 1)
    }
}

fn reason_for<'a>(blocked: &'a Vec<Blocked>, path: &OsPath) -> (r: Option<&'a str>)
    ensures
        reason_from(blocked@, path@, 0) == match r {
            Some(reason) => Some(reason@),
            None => None,
        },
{
    let mut at: usize = 0;
    while at < blocked.len()
        invariant
            at <= blocked@.len(),
            reason_from(blocked@, path@, 0) == reason_from(blocked@, path@, at as int),
        decreases blocked@.len() - at,
    {
        if blocked[at].path.same(path) {
            return Some(blocked[at].reason.as_str());
        }
        at = at + 1;
    }
    None
}

/// The ways a list is handed on.
pub open spec fn export_markup(plan: Plan) -> Seq<char> {
    let class = if plan.targets@.len() == 0 {
        "btn secondary flex-1 disabled"@
    } else {
        "btn secondary flex-1"@
    };
    "<div class=\"actions\"><a class=\""@
        + class
        + "\" id=\"export-list\" data-authed href=\"/api/export/list\" download>Save list…"@
        + "</a><button class=\""@
        + class
        + "\" id=\"copy-prompt\">Copy as prompt</button></div>"@
}

/// The marked list, handed on instead of acted on: saved as a plain list of
/// paths, or written up as a prompt for a coding agent. The list downloads
/// straight from its route; the prompt is copied by the shim.
pub fn export_controls(plan: &Plan) -> (r: String)
    ensures
        r@ == export_markup(*plan),
{
    let class = if plan.is_empty() {
        "btn secondary flex-1 disabled"
    } else {
        "btn secondary flex-1"
    };
    "<div class=\"actions\"><a class=\"".to_owned()
        .concat(class)
        .concat("\" id=\"export-list\" data-authed href=\"/api/export/list\" download>Save list…")
        .concat("</a><button class=\"")
        .concat(class)
        .concat("\" id=\"copy-prompt\">Copy as prompt</button></div>")
}

/// The first `count` kept-back paths and why.
pub open spec fn blocked_rows(blocked: Seq<Blocked>, count: int) -> Seq<char>
    decreases count,
{
    if count <= 0 {
        ""@
    } else {
        let name = render::escaped(render::short(blocked[count - 1].path@));
        let reason = render::escaped(blocked[count - 1].reason@);
        blocked_rows(blocked, count - 1) + ("<div class=\"caption warn\">"@ + name + ": "@ + reason
            + "</div>"@)
    }
}

/// One line of a running removal's log.
pub open spec fn log_row(line: LogLine) -> Seq<char> {
    let ok = line.error is None;
    let tone = if ok {
        "ok"@
    } else {
        "danger"@
    };
    let tick = if ok {
        "✓"@
    } else {
        "×"@
    };
    let faint = if ok {
        ""@
    } else {
        " danger"@
    };
    let name = render::escaped(render::short(line.path));
    let error = match line.error {
        Some(error) => "<span class=\"caption warn\">"@ + render::escaped(error) + "</span>"@,
        None => ""@,
    };
    "<div class=\"log-row\"><span class=\""@
        + tone
        + "\">"@
        + tick
        + "</span><span class=\"flex-1 ellipsis"@
        + faint
        + "\">"@
        + name
        + "</span>"@
        + error
        + "</div>"@
}

fn log_row_text(entry: &LogEntry) -> (r: String)
    ensures
        r@ == log_row(entry@),
{
    let ok = entry.error.is_none();
    let tone = if ok {
        "ok"
    } else {
        "danger"
    };
    let tick = if ok {
        "✓"
    } else {
        "×"
    };
    let faint = if ok {
        ""
    } else {
        " danger"
    };
    let name = render::esc(render::short_name(&entry.path).as_str());
    let error = match &entry.error {
        Some(error) => "<span class=\"caption warn\">".to_owned().concat(
            render::esc(error.as_str()).as_str(),
        ).concat("</span>"),
        None => "".to_owned(),
    };
    "<div class=\"log-row\"><span class=\"".to_owned()
        .concat(tone)
        .concat("\">")
        .concat(tick)
        .concat("</span><span class=\"flex-1 ellipsis")
        .concat(faint)
        .concat("\">")
        .concat(name.as_str())
        .concat("</span>")
        .concat(error.as_str())
        .concat("</div>")
}

/// The last `count` lines of a log, newest first.
pub open spec fn log_rows(log: Seq<LogLine>, count: int) -> Seq<char>
    decreases count,
{
    if count <= 0 {
        ""@
    } else {
        log_rows(log, count - 1) + log_row(log[log.len() - count])
    }
}

/// What could not be removed, among the first `count` lines of a log: how
/// many of them are listed, and the list.
pub open spec fn failures(log: Seq<LogLine>, count: int) -> (int, Seq<char>)
    decreases count,
{
    if count <= 0 {
        (0, ""@)
    } else {
        let (listed, rows) = failures(log, count - 1);
        match log[count - 1].error {
            Some(error) => if listed < FAILED_ROWS {
                let name = render::escaped(render::short(log[count - 1].path));
                let reason = render::escaped(error);
                (listed + 1, rows + failure(name, reason))
            } else {
                (listed, rows)
            },
            None => (listed, rows),
        }
    }
}

/// One thing that could not be removed.
pub open spec fn failure(name: Seq<char>, reason: Seq<char>) -> Seq<char> {
    "<div class=\"caption\"><span class=\"danger\">"@
        + name
        + "</span> <span class=\"dim\">"@
        + reason
        + "</span></div>"@
}

fn failure_text(name: String, reason: String) -> (r: String)
    ensures
        r@ == failure(name@, reason@),
{
    "<div class=\"caption\"><span class=\"danger\">".to_owned()
        .concat(name.as_str())
        .concat("</span> <span class=\"dim\">")
        .concat(reason.as_str())
        .concat("</span></div>")
}

/// What was freed between two readings of what is available: its sign and
/// its size.
pub fn volume_delta(before: SpaceInfo, after: SpaceInfo) -> (r: (bool, u64))
    ensures
        r.0 == (after.available >= before.available),
        r.1 == if r.0 {
            after.available - before.available
        } else {
            before.available - after.available
        },
{
    if after.available >= before.available {
        (true, after.available - before.available)
    } else {
        (false, before.available - after.available)
    }
}

/// A line of help.
pub open spec fn help_row(key: Seq<char>, label: Seq<char>) -> Seq<char> {
    "<div class=\"help-row\"><span class=\"help-key\">"@
        + key
        + "</span><span>"@
        + label
        + "</span></div>"@
}

fn help_row_text(key: &str, label: &str) -> (r: String)
    ensures
        r@ == help_row(key@, label@),
{
    "<div class=\"help-row\"><span class=\"help-key\">".to_owned()
        .concat(key)
        .concat("</span><span>")
        .concat(label)
        .concat("</span></div>")
}

/// Help on the explore screen's keys.
pub open spec fn explore_help() -> Seq<char> {
    help_row("space / x"@, "Mark or unmark the tile you point at"@)
        + help_row("ctrl-click"@, "Mark without moving the selection"@)
        + help_row("enter"@, "Open that directory, at any depth"@)
        + help_row("⌫ / esc"@, "Go up one directory"@)
        + help_row("← ↑ ↓ →"@, "Move between tiles at this level"@)
        + help_row("tab"@, "Next largest sibling"@)
        + help_row("scroll"@, "Zoom toward a directory, then go into it"@)
        + help_row("alt ← / →"@, "Back and forward through visited directories"@)
        + help_row("shift-scroll"@, "Pan the magnified view"@)
}

fn explore_help_text() -> (r: String)
    ensures
        r@ == explore_help(),
{
    help_row_text("space / x", "Mark or unmark the tile you point at")
        .concat(help_row_text("ctrl-click", "Mark without moving the selection").as_str())
        .concat(help_row_text("enter", "Open that directory, at any depth").as_str())
        .concat(help_row_text("⌫ / esc", "Go up one directory").as_str())
        .concat(help_row_text("← ↑ ↓ →", "Move between tiles at this level").as_str())
        .concat(help_row_text("tab", "Next largest sibling").as_str())
        .concat(help_row_text("scroll", "Zoom toward a directory, then go into it").as_str())
        .concat(help_row_text("alt ← / →", "Back and forward through visited directories").as_str())
        .concat(help_row_text("shift-scroll", "Pan the magnified view").as_str())
}

/// Help on what is measured and drawn.
pub open spec fn view_help() -> Seq<char> {
    help_row("[ / ]"@, "Draw fewer or more levels at once"@)
        + help_row("- / = / 0"@, "Magnify, shrink, or reset the view"@)
        + help_row("ctrl + wheel"@, "The browser's own zoom is the interface zoom"@)
        + help_row("/"@, "Filter by name: only matches keep their colour; enter shows only them"@)
        + help_row("c"@, "Review the marked list"@)
        + help_row("t"@, "Size, files or age: what areas and colours say"@)
        + help_row("r"@, "Scan again from the same root"@)
        + help_row("g"@, "The whole disk; click any directory above to widen"@)
        + help_row("d"@, "Disk usage or apparent size"@)
        + help_row("i"@, "Include or skip hidden entries"@)
        + help_row("p"@, "Show or hide the selection line"@)
}

fn view_help_text() -> (r: String)
    ensures
        r@ == view_help(),
{
    help_row_text("[ / ]", "Draw fewer or more levels at once")
        .concat(help_row_text("- / = / 0", "Magnify, shrink, or reset the view").as_str())
        .concat(help_row_text("ctrl + wheel", "The browser's own zoom is the interface zoom").as_str())
        .concat(help_row_text("/", "Filter by name: only matches keep their colour; enter shows only them").as_str())
        .concat(help_row_text("c", "Review the marked list").as_str())
        .concat(help_row_text("t", "Size, files or age: what areas and colours say").as_str())
        .concat(help_row_text("r", "Scan again from the same root").as_str())
        .concat(help_row_text("g", "The whole disk; click any directory above to widen").as_str())
        .concat(help_row_text("d", "Disk usage or apparent size").as_str())
        .concat(help_row_text("i", "Include or skip hidden entries").as_str())
        .concat(help_row_text("p", "Show or hide the selection line").as_str())
}

/// Help on the review screen.
pub open spec fn review_help() -> Seq<char> {
    help_row("Review screen"@, "m trash · p permanent · ! unmark all · s save list · a copy as prompt"@)
        + help_row(""@, "enter commits · esc goes back"@)
        + help_row(""@, "A permanent deletion always asks first"@)
}

fn review_help_text() -> (r: String)
    ensures
        r@ == review_help(),
{
    help_row_text("Review screen", "m trash · p permanent · ! unmark all · s save list · a copy as prompt")
        .concat(help_row_text("", "enter commits · esc goes back").as_str())
        .concat(help_row_text("", "A permanent deletion always asks first").as_str())
}

/// Items a removal is done with.
pub open spec fn done_count(summary: RunSummary) -> int {
    summary.removed + summary.failed
}

/// How many of `len` rows a list of at most `limit` shows.
pub open spec fn capped(len: nat, limit: usize) -> int {
    if len > limit {
        limit as int
    } else {
        len as int
    }
}

fn cap(len: usize, limit: usize) -> (r: usize)
    ensures
        r == capped(len as nat, limit),
{
    if len > limit {
        limit
    } else {
        len
    }
}

impl State {
    /// One marked path in the review.
    pub open spec fn mark_row(
        self,
        item: Mark,
        covered: bool,
        blocked: Option<Seq<char>>,
        words: Words,
    ) -> Seq<char> {
        let quiet = render::when(blocked is Some || covered, " quiet"@);
        let icon = if item.is_dir {
            "▣"@
        } else {
            "▢"@
        };
        let name = render::escaped(render::short(item.path));
        let place = render::escaped(words.place(item.path));
        let inside = render::when(
            covered,
            "<span class=\"chip chip-dim\">Inside a marked directory</span>"@,
        );
        let kept = match blocked {
            Some(reason) => "<span class=\"chip chip-warn\">"@ + render::escaped(reason)
                + "</span>"@,
            None => ""@,
        };
        let share = words.lane(item.bytes, self.root_bytes());
        let size = words.size(item.bytes);
        let event = render::ev_attr(json::path_event("unmark"@, codec::encoded(item.path)));
        "<div class=\"mark-row"@
            + quiet
            + "\"><span class=\"file-icon\">"@
            + icon
            + "</span><span class=\"mark-name\"><span>"@
            + name
            + "</span><span class=\"caption dim ellipsis\">"@
            + place
            + "</span></span>"@
            + inside
            + kept
            + "<span class=\"share-lane mono\">"@
            + share
            + "</span><span class=\"size-lane\">"@
            + size
            + "</span><button class=\"btn outline\" "@
            + event
            + ">Unmark</button></div>"@
    }

    /// The first `count` marked paths of the review.
    pub open spec fn mark_rows(self, plan: Plan, words: Words, count: int) -> Seq<char>
        decreases count,
    {
        if count <= 0 {
            ""@
        } else {
            let item = self.marks[count - 1];
            self.mark_rows(plan, words, count - 1) + self.mark_row(
                item,
                listed(plan.covered@, item.path),
                reason_from(plan.blocked@, item.path, 0),
                words,
            )
        }
    }

    /// The marked list of the review.
    #[verifier::opaque]
    pub open spec fn mark_list(self, plan: Plan, words: Words) -> Seq<char> {
        let many = self.marks.len();
        let empty = render::when(
            many == 0,
            "<div class=\"empty dim\">Nothing is marked. Go back and mark what should go.</div>"@,
        );
        let rows = self.mark_rows(plan, words, capped(many, LIST_LIMIT));
        let more = if many > LIST_LIMIT {
            "<div class=\"caption dim pad\">"@ + text::decimal((many - LIST_LIMIT) as nat)
                + " more are marked and will be removed too. Unmark them in the treemap.</div>"@
        } else {
            ""@
        };
        "<div id=\"marked-list\">"@
            + empty
            + rows
            + more
            + "</div>"@
    }

    /// The review screen.
    #[verifier::opaque]
    pub open spec fn review(self, plan: Plan, words: Words) -> Seq<char> {
        let header = header_markup(
            "Review"@,
            text::decimal(self.marks.len()) + " marked · "@ + words.size(plan.bytes) + " to free"@,
        );
        let list = self.mark_list(plan, words);
        let summary = self.review_summary(plan, words);
        let footer = self.review_footer(words);
        "<div class=\"screen\">"@
            + header
            + "<div class=\"review-body\">"@
            + list
            + summary
            + "</div>"@
            + footer
            + "</div>"@
    }

    /// One choice of how things are removed.
    pub open spec fn removal_choice(
        self,
        permanent: bool,
        label: Seq<char>,
        disabled: bool,
    ) -> Seq<char> {
        let on = render::when((self.removal_mode == RemovalMode::Permanent) == permanent, " on"@);
        let closed = render::when(disabled, "disabled"@);
        let event = render::ev_attr(
            json::removal_event(
                if permanent {
                    "permanent"@
                } else {
                    "trash"@
                },
            ),
        );
        "<button class=\"seg"@
            + on
            + "\" "@
            + closed
            + " "@
            + event
            + ">"@
            + label
            + "</button>"@
    }

    /// What the chosen way of removing means.
    pub open spec fn explanation(self) -> Seq<char> {
        match self.removal_mode {
            RemovalMode::Trash => "Recoverable from the trash until it is emptied. Uses "@
                + self.trash.label@ + "."@,
            RemovalMode::Permanent => "Deleted at once, like rm -rf. Nothing is recoverable."@,
        }
    }

    /// What happens, in numbers.
    #[verifier::opaque]
    pub open spec fn review_summary(self, plan: Plan, words: Words) -> Seq<char> {
        let trash = self.removal_choice(false, "Move to trash"@, !self.trash.available);
        let permanent = self.removal_choice(true, "Delete permanently"@, false);
        let explanation = self.explanation();
        let marked = row_markup("Marked"@, text::decimal(self.marks.len()));
        let acted = row_markup("Acted on"@, text::decimal(plan.targets@.len()));
        let nested = row_markup("Nested, go with a parent"@, text::decimal(plan.covered@.len()));
        let kept = row_markup("Kept back"@, text::decimal(plan.blocked@.len()));
        let space = row_markup("Space freed"@, words.size(plan.bytes));
        let volume = match self.space {
            Some(space) => "<div class=\"section-label\">Volume</div>"@ + space_markup(
                space,
                plan.bytes,
                words,
            ),
            None => ""@,
        };
        let blocked = if plan.blocked@.len() > 0 {
            "<div class=\"section-label\">Kept back</div>"@ + blocked_rows(
                plan.blocked@,
                capped(plan.blocked@.len(), BLOCKED_ROWS),
            )
        } else {
            ""@
        };
        let export = export_markup(plan);
        let commit = self.commit_controls(plan);
        "<div id=\"review-summary\"><div class=\"section-label\">What happens</div><div"@
            + " class=\"group\">"@
            + trash
            + permanent
            + "</div><div class=\"caption dim\">"@
            + explanation
            + "</div><div class=\"section-label\">Totals</div>"@
            + marked
            + acted
            + nested
            + kept
            + space
            + volume
            + blocked
            + "<div class=\"flex-1\"></div>"@
            + export
            + commit
            + "</div>"@
    }

    /// What the commit button says.
    pub open spec fn commit_label(self, plan: Plan) -> Seq<char> {
        let count = text::decimal(plan.targets@.len());
        let noun = if plan.targets@.len() == 1 {
            " item"@
        } else {
            " items"@
        };
        match self.removal_mode {
            RemovalMode::Trash => "Move "@ + count + noun + " to trash"@,
            RemovalMode::Permanent => "Delete "@ + count + noun + "…"@,
        }
    }

    /// The screen's one commitment.
    pub open spec fn commit_controls(self, plan: Plan) -> Seq<char> {
        let escape = render::key_attr("escape"@);
        let class = match self.removal_mode {
            RemovalMode::Trash => "btn primary"@,
            RemovalMode::Permanent => "btn danger"@,
        };
        let commit = render::ev_attr(json::bare_event("commit"@));
        let closed = render::when(
            plan.targets@.len() == 0 || (self.removal_mode == RemovalMode::Trash
                && !self.trash.available),
            "disabled"@,
        );
        let label = self.commit_label(plan);
        "<div class=\"actions end\"><button class=\"btn secondary\" "@
            + escape
            + ">Back</button><button class=\""@
            + class
            + "\" "@
            + commit
            + " "@
            + closed
            + ">"@
            + label
            + "</button></div>"@
    }

    /// The review's keys.
    pub open spec fn review_footer(self, words: Words) -> Seq<char> {
        let enter = explore::hint(
            "enter"@,
            match self.removal_mode {
                RemovalMode::Trash => "move to trash"@,
                RemovalMode::Permanent => "delete…"@,
            },
        );
        let m = explore::hint("m"@, "trash"@);
        let p = explore::hint("p"@, "permanent"@);
        let all = explore::hint("!"@, "unmark all"@);
        let s = explore::hint("s"@, "save list"@);
        let a = explore::hint("a"@, "copy as prompt"@);
        let esc = explore::hint("esc"@, "back"@);
        let free = match self.space {
            Some(space) => words.size(space.available),
            None => "?"@,
        };
        "<div class=\"footer\">"@
            + enter
            + m
            + p
            + all
            + s
            + a
            + esc
            + "<div class=\"flex-1\"></div><span class=\"caption dim\">"@
            + free
            + " available</span></div>"@
    }

    /// The volume as it is now.
    pub open spec fn space_now(self, words: Words) -> Seq<char> {
        match self.space {
            Some(space) => space_markup(space, 0, words),
            None => ""@,
        }
    }

    /// The screen of a removal that is running.
    #[verifier::opaque]
    pub open spec fn running(self, words: Words) -> Seq<char> {
        let summary = self.run_summary;
        let header = header_markup(
            "Removing"@,
            text::decimal(done_count(summary) as nat) + " of "@ + text::decimal(
                summary.total as nat,
            ) + " done"@,
        );
        let tone = if self.removal_mode == RemovalMode::Permanent {
            " danger-bg"@
        } else {
            " accent"@
        };
        let progress = words.progress@;
        let removed = text::decimal(summary.removed as nat);
        let size = words.size(summary.bytes);
        let space = self.space_now(words);
        let log = log_rows(self.run_log, capped(self.run_log.len(), LOG_ROWS));
        let esc = explore::hint("esc"@, "stop after the current item"@);
        "<div class=\"screen\">"@
            + header
            + "<div class=\"run-body\"><div class=\"meter-row\"><span class=\"caption"@
            + " dim\">progress</span><div class=\"meter\"><span class=\"used"@
            + tone
            + "\" style=\"width:"@
            + progress
            + "%\"></span></div><span class=\"caption dim\">"@
            + removed
            + " removed · "@
            + size
            + " to free</span></div>"@
            + space
            + "<div id=\"run-log\">"@
            + log
            + "</div></div><div class=\"footer\">"@
            + esc
            + "</div></div>"@
    }

    /// What the volume gained, or lost, over a removal.
    pub open spec fn measured(self, words: Words) -> Seq<char> {
        match (self.space_baseline, self.space) {
            (Some(before), Some(after)) => {
                let delta = after.available - before.available;
                if delta >= 0 {
                    explore::stat_markup(
                        "volume freed"@,
                        "+"@ + words.size(delta as u64),
                        "ok"@,
                    )
                } else {
                    explore::stat_markup(
                        "volume freed"@,
                        "-"@ + words.size((-delta) as u64),
                        "warn"@,
                    )
                }
            },
            _ => ""@,
        }
    }

    /// The screen of a removal that is done.
    #[verifier::opaque]
    pub open spec fn done(self, words: Words) -> Seq<char> {
        let summary = self.run_summary;
        let header = header_markup("Done"@, "removal finished"@);
        let removed = explore::stat_markup(
            "removed"@,
            text::decimal(summary.removed as nat) + " items"@,
            "ok"@,
        );
        let claimed = explore::stat_markup("bytes claimed"@, words.size(summary.bytes), ""@);
        let failed = explore::stat_markup(
            "failed"@,
            text::decimal(summary.failed as nat),
            if summary.failed > 0 {
                "danger"@
            } else {
                "dim"@
            },
        );
        let measured = self.measured(words);
        let space = self.space_now(words);
        let scan = if self.scanning {
            rescan(words.estimate@, words.count(self.progress.files))
        } else {
            ""@
        };
        let failures = if summary.failed > 0 {
            "<div class=\"rule\"></div><div class=\"section-label\">what could not be removed</div>"@
                + failures(self.run_log, self.run_log.len() as int).1
        } else {
            ""@
        };
        let enter = render::key_attr("enter"@);
        let hint = explore::hint("enter"@, "continue"@);
        "<div class=\"screen\">"@
            + header
            + "<div class=\"run-body\"><div class=\"stats\">"@
            + removed
            + claimed
            + failed
            + measured
            + "</div><div class=\"caption dim\">The treemap is being re-scanned so the numbers"@
            + " on screen match the disk again.</div>"@
            + space
            + scan
            + failures
            + "</div><div class=\"footer\"><button class=\"btn primary\" "@
            + enter
            + ">Done</button>"@
            + hint
            + "</div></div>"@
    }

    /// The permanent-deletion dialog's question.
    pub open spec fn delete_question(plan: Plan) -> Seq<char> {
        if plan.targets@.len() == 1 {
            "Delete “"@ + render::short(plan.targets@[0].path@) + "” permanently?"@
        } else {
            "Delete "@ + text::decimal(plan.targets@.len()) + " items permanently?"@
        }
    }

    /// Help, and what is being looked at.
    #[verifier::opaque]
    pub open spec fn help_overlay(self, words: Words) -> Seq<char> {
        let event = render::key_attr("?"@);
        let first = explore_help();
        let second = view_help();
        let third = review_help();
        let root = render::escaped(text::lossy_text(self.root_path));
        let metric = words.metric@;
        "<div class=\"overlay\" "@
            + event
            + "><div class=\"dialog help\"><div class=\"title\">⌨ Keyboard and mouse</div>"@
            + first
            + second
            + third
            + "<div class=\"caption dim\">? or esc closes · "@
            + root
            + " · "@
            + metric
            + "</div></div></div>"@
    }
}

/// The permanent-deletion dialog: it names what goes and what comes back.
pub open spec fn delete_markup(plan: Plan, words: Words) -> Seq<char> {
    let question = render::escaped(State::delete_question(plan));
    let size = words.size(plan.bytes);
    let cancel = render::ev_attr(json::bare_event("cancel_delete"@));
    let confirm = render::ev_attr(json::bare_event("confirm_delete"@));
    "<div class=\"overlay\"><div class=\"dialog\"><div class=\"title\">"@
        + question
        + "</div><div class=\"dialog-body\">This frees "@
        + size
        + ". Deleted files can’t be recovered; move them to the trash if you might need"@
        + " them again.</div><div class=\"actions end\"><button class=\"btn secondary\" "@
        + cancel
        + ">Cancel</button><button class=\"btn danger\" "@
        + confirm
        + ">Delete</button></div></div></div>"@
}

/// The permanent-deletion dialog: it names what goes and what comes back. The
/// trash is reversible and needs no dialog.
pub fn delete_dialog(plan: &Plan, words: &Words) -> (r: String)
    ensures
        r@ == delete_markup(*plan, *words),
{
    let title = if plan.targets.len() == 1 {
        "Delete “".to_owned().concat(render::short_name(&plan.targets[0].path).as_str()).concat(
            "” permanently?",
        )
    } else {
        "Delete ".to_owned().concat(text::index_text(plan.targets.len()).as_str()).concat(
            " items permanently?",
        )
    };
    let question = render::esc(title.as_str());
    let size = words.size_text(plan.bytes);
    let cancel = render::ev(json::bare_json("cancel_delete").as_str());
    let confirm = render::ev(json::bare_json("confirm_delete").as_str());
    "<div class=\"overlay\"><div class=\"dialog\"><div class=\"title\">".to_owned()
        .concat(question.as_str())
        .concat("</div><div class=\"dialog-body\">This frees ")
        .concat(size)
        .concat(". Deleted files can’t be recovered; move them to the trash if you might need")
        .concat(" them again.</div><div class=\"actions end\"><button class=\"btn secondary\" ")
        .concat(cancel.as_str())
        .concat(">Cancel</button><button class=\"btn danger\" ")
        .concat(confirm.as_str())
        .concat(">Delete</button></div></div></div>")
}

/// The meter of the scan that follows a removal.
pub open spec fn rescan(estimate: Seq<char>, files: Seq<char>) -> Seq<char> {
    "<div class=\"meter-row\"><span class=\"caption dim\">re-scanning</span><div"@
        + " class=\"meter\"><span class=\"used accent\" style=\"width:"@
        + estimate
        + "%\"></span></div><span class=\"caption dim\">"@
        + files
        + " files</span></div>"@
}

fn rescan_text(estimate: &str, files: &str) -> (r: String)
    ensures
        r@ == rescan(estimate@, files@),
{
    "<div class=\"meter-row\"><span class=\"caption dim\">re-scanning</span><div".to_owned()
        .concat(" class=\"meter\"><span class=\"used accent\" style=\"width:")
        .concat(estimate)
        .concat("%\"></span></div><span class=\"caption dim\">")
        .concat(files)
        .concat(" files</span></div>")
}

/// One marked path. Lanes are fixed, so names, bars and sizes line up down
/// the list and sizes can be compared by eye.
pub fn mark_row(app: &Web, item: &Target, covered: bool, blocked: Option<&str>, words: &Words) -> (r:
    String)
    ensures
        r@ == app@.mark_row(
            item@,
            covered,
            match blocked {
                Some(reason) => Some(reason@),
                None => None,
            },
            *words,
        ),
{
    let quiet = render::word_when(blocked.is_some() || covered, " quiet");
    let icon = if item.is_dir {
        "▣"
    } else {
        "▢"
    };
    let name = render::esc(render::short_name(&item.path).as_str());
    let place = render::esc(words.place_text(&item.path));
    let inside = render::word_when(
        covered,
        "<span class=\"chip chip-dim\">Inside a marked directory</span>",
    );
    let kept = match blocked {
        Some(reason) => "<span class=\"chip chip-warn\">".to_owned().concat(
            render::esc(reason).as_str(),
        ).concat("</span>"),
        None => "".to_owned(),
    };
    let share = words.lane_text(item.bytes, panel::root_bytes(app));
    let size = words.size_text(item.bytes);
    let event = render::ev(
        json::path_json("unmark", codec::path_attr(&item.path).as_str()).as_str(),
    );
    "<div class=\"mark-row".to_owned()
        .concat(quiet)
        .concat("\"><span class=\"file-icon\">")
        .concat(icon)
        .concat("</span><span class=\"mark-name\"><span>")
        .concat(name.as_str())
        .concat("</span><span class=\"caption dim ellipsis\">")
        .concat(place.as_str())
        .concat("</span></span>")
        .concat(inside)
        .concat(kept.as_str())
        .concat("<span class=\"share-lane mono\">")
        .concat(share)
        .concat("</span><span class=\"size-lane\">")
        .concat(size)
        .concat("</span><button class=\"btn outline\" ")
        .concat(event.as_str())
        .concat(">Unmark</button></div>")
}

fn mark_list(app: &Web, plan: &Plan, words: &Words) -> (r: String)
    ensures
        r@ == app@.mark_list(*plan, *words),
{
    proof {
        reveal(State::mark_list);
    }
    let many = app.marks.len();
    let items = app.marks.items();
    let empty = render::word_when(
        many == 0,
        "<div class=\"empty dim\">Nothing is marked. Go back and mark what should go.</div>",
    );
    let shown = cap(many, LIST_LIMIT);
    let mut rows = "".to_owned();
    let mut at: usize = 0;
    while at < shown
        invariant
            at <= shown <= items@.len(),
            marks::marks_of(items@) == app@.marks,
            rows@ == app@.mark_rows(*plan, *words, at as int),
        decreases shown - at,
    {
        let item = &items[at];
        assert(app@.marks[at as int] == item@);
        let covered = is_listed(&plan.covered, &item.path);
        let blocked = reason_for(&plan.blocked, &item.path);
        rows.append(mark_row(app, item, covered, blocked, words).as_str());
        at = at + 1;
    }
    let more = if many > LIST_LIMIT {
        "<div class=\"caption dim pad\">".to_owned().concat(
            text::index_text(many - LIST_LIMIT).as_str(),
        ).concat(" more are marked and will be removed too. Unmark them in the treemap.</div>")
    } else {
        "".to_owned()
    };
    "<div id=\"marked-list\">".to_owned()
        .concat(empty)
        .concat(rows.as_str())
        .concat(more.as_str())
        .concat("</div>")
}

/// The review screen: every marked path, and what a removal would do.
pub fn review(app: &Web, plan: &Plan, words: &Words) -> (r: String)
    ensures
        r@ == app@.review(*plan, *words),
{
    proof {
        reveal(State::review);
    }
    let header = screen_header(
        "Review",
        text::index_text(app.marks.len()).concat(" marked · ").concat(
            words.size_text(plan.bytes),
        ).concat(" to free").as_str(),
    );
    let list = mark_list(app, plan, words);
    let summary = review_summary(app, plan, words);
    let footer = review_footer(app, words);
    "<div class=\"screen\">".to_owned()
        .concat(header.as_str())
        .concat("<div class=\"review-body\">")
        .concat(list.as_str())
        .concat(summary.as_str())
        .concat("</div>")
        .concat(footer.as_str())
        .concat("</div>")
}

fn removal_choice(app: &Web, permanent: bool, label: &str, disabled: bool) -> (r: String)
    ensures
        r@ == app@.removal_choice(permanent, label@, disabled),
{
    let on = render::word_when((app.removal_mode == RemovalMode::Permanent) == permanent, " on");
    let closed = render::word_when(disabled, "disabled");
    let event = render::ev(
        json::removal_json(
            if permanent {
                "permanent"
            } else {
                "trash"
            },
        ).as_str(),
    );
    "<button class=\"seg".to_owned()
        .concat(on)
        .concat("\" ")
        .concat(closed)
        .concat(" ")
        .concat(event.as_str())
        .concat(">")
        .concat(label)
        .concat("</button>")
}

fn blocked_list(plan: &Plan) -> (r: String)
    ensures
        r@ == blocked_rows(plan.blocked@, capped(plan.blocked@.len(), BLOCKED_ROWS)),
{
    let shown = cap(plan.blocked.len(), BLOCKED_ROWS);
    let mut rows = "".to_owned();
    let mut at: usize = 0;
    while at < shown
        invariant
            at <= shown <= plan.blocked@.len(),
            rows@ == blocked_rows(plan.blocked@, at as int),
        decreases shown - at,
    {
        let name = render::esc(render::short_name(&plan.blocked[at].path).as_str());
        let reason = render::esc(plan.blocked[at].reason.as_str());
        let line = "<div class=\"caption warn\">".to_owned().concat(name.as_str()).concat(
            ": ",
        ).concat(reason.as_str()).concat("</div>");
        rows.append(line.as_str());
        at = at + 1;
    }
    rows
}

/// What a removal would do: one either-or choice, reversible option first,
/// then the totals, the volume, what is kept back, and the ways on.
pub fn review_summary(app: &Web, plan: &Plan, words: &Words) -> (r: String)
    ensures
        r@ == app@.review_summary(*plan, *words),
{
    proof {
        reveal(State::review_summary);
    }
    let trash = removal_choice(app, false, "Move to trash", !app.trash.available);
    let permanent = removal_choice(app, true, "Delete permanently", false);
    let explanation = match app.removal_mode {
        RemovalMode::Trash =>
            "Recoverable from the trash until it is emptied. Uses ".to_owned().concat(
            app.trash.label.as_str(),
        ).concat("."),
        RemovalMode::Permanent =>
            "Deleted at once, like rm -rf. Nothing is recoverable.".to_owned(),
    };
    let marked = row("Marked", text::index_text(app.marks.len()).as_str());
    let acted = row("Acted on", text::index_text(plan.targets.len()).as_str());
    let nested = row(
        "Nested, go with a parent",
        text::index_text(plan.covered.len()).as_str(),
    );
    let kept = row("Kept back", text::index_text(plan.blocked.len()).as_str());
    let space = row("Space freed", words.size_text(plan.bytes));
    let volume = match app.space {
        Some(volume) => "<div class=\"section-label\">Volume</div>".to_owned().concat(
            space_meter(volume, plan.bytes, words).as_str(),
        ),
        None => "".to_owned(),
    };
    let blocked = if plan.blocked.len() > 0 {
        "<div class=\"section-label\">Kept back</div>".to_owned().concat(
            blocked_list(plan).as_str(),
        )
    } else {
        "".to_owned()
    };
    let export = export_controls(plan);
    let commit = commit_controls(app, plan);
    "<div id=\"review-summary\"><div class=\"section-label\">What happens</div><div".to_owned()
        .concat(" class=\"group\">")
        .concat(trash.as_str())
        .concat(permanent.as_str())
        .concat("</div><div class=\"caption dim\">")
        .concat(explanation.as_str())
        .concat("</div><div class=\"section-label\">Totals</div>")
        .concat(marked.as_str())
        .concat(acted.as_str())
        .concat(nested.as_str())
        .concat(kept.as_str())
        .concat(space.as_str())
        .concat(volume.as_str())
        .concat(blocked.as_str())
        .concat("<div class=\"flex-1\"></div>")
        .concat(export.as_str())
        .concat(commit.as_str())
        .concat("</div>")
}

/// The screen's one commitment. Moving to the trash is the default commit, so
/// it is the primary action; a permanent deletion is destructive, so it is
/// the danger action and asks first, which its ellipsis promises.
pub fn commit_controls(app: &Web, plan: &Plan) -> (r: String)
    ensures
        r@ == app@.commit_controls(*plan),
{
    let escape = render::key_ev("escape");
    let count = text::index_text(plan.targets.len());
    let noun = if plan.targets.len() == 1 {
        " item"
    } else {
        " items"
    };
    let (label, class) = match app.removal_mode {
        RemovalMode::Trash => (
            "Move ".to_owned().concat(count.as_str()).concat(noun).concat(" to trash"),
            "btn primary",
        ),
        RemovalMode::Permanent => (
            "Delete ".to_owned().concat(count.as_str()).concat(noun).concat("…"),
            "btn danger",
        ),
    };
    let commit = render::ev(json::bare_json("commit").as_str());
    let closed = render::word_when(
        plan.is_empty() || (app.removal_mode == RemovalMode::Trash && !app.trash.available),
        "disabled",
    );
    "<div class=\"actions end\"><button class=\"btn secondary\" ".to_owned()
        .concat(escape.as_str())
        .concat(">Back</button><button class=\"")
        .concat(class)
        .concat("\" ")
        .concat(commit.as_str())
        .concat(" ")
        .concat(closed)
        .concat(">")
        .concat(label.as_str())
        .concat("</button></div>")
}

/// The review's keys.
pub fn review_footer(app: &Web, words: &Words) -> (r: String)
    ensures
        r@ == app@.review_footer(*words),
{
    let enter = explore::hint_text(
        "enter",
        match app.removal_mode {
            RemovalMode::Trash => "move to trash",
            RemovalMode::Permanent => "delete…",
        },
    );
    let m = explore::hint_text("m", "trash");
    let p = explore::hint_text("p", "permanent");
    let all = explore::hint_text("!", "unmark all");
    let s = explore::hint_text("s", "save list");
    let a = explore::hint_text("a", "copy as prompt");
    let esc = explore::hint_text("esc", "back");
    let free = match app.space {
        Some(space) => words.size_text(space.available),
        None => "?",
    };
    "<div class=\"footer\">".to_owned()
        .concat(enter.as_str())
        .concat(m.as_str())
        .concat(p.as_str())
        .concat(all.as_str())
        .concat(s.as_str())
        .concat(a.as_str())
        .concat(esc.as_str())
        .concat("<div class=\"flex-1\"></div><span class=\"caption dim\">")
        .concat(free)
        .concat(" available</span></div>")
}

fn space_now(app: &Web, words: &Words) -> (r: String)
    ensures
        r@ == app@.space_now(*words),
{
    match app.space {
        Some(space) => space_meter(space, 0, words),
        None => "".to_owned(),
    }
}

fn log_list(app: &Web) -> (r: String)
    ensures
        r@ == log_rows(app@.run_log, capped(app@.run_log.len(), LOG_ROWS)),
{
    let len = app.run_log.len();
    let shown = cap(len, LOG_ROWS);
    let mut rows = "".to_owned();
    let mut at: usize = 0;
    while at < shown
        invariant
            at <= shown <= len,
            len == app.run_log@.len(),
            app@.run_log.len() == len,
            rows@ == log_rows(app@.run_log, at as int),
        decreases shown - at,
    {
        let entry = &app.run_log[len - 1 - at];
        assert(app@.run_log[len - (at + 1)] == entry@);
        rows.append(log_row_text(entry).as_str());
        at = at + 1;
    }
    rows
}

/// The screen of a removal that is running.
pub fn running(app: &Web, words: &Words) -> (r: String)
    requires
        done_count(app@.run_summary) <= u64::MAX,
    ensures
        r@ == app@.running(*words),
{
    proof {
        reveal(State::running);
    }
    let summary = &app.run_summary;
    let done = summary.removed + summary.failed as u64;
    let header = screen_header(
        "Removing",
        text::decimal_text(done).concat(" of ").concat(
            text::index_text(summary.total).as_str(),
        ).concat(" done").as_str(),
    );
    let tone = if app.removal_mode == RemovalMode::Permanent {
        " danger-bg"
    } else {
        " accent"
    };
    let progress = words.progress.as_str();
    let removed = text::decimal_text(summary.removed);
    let size = words.size_text(summary.bytes);
    let space = space_now(app, words);
    let log = log_list(app);
    let esc = explore::hint_text("esc", "stop after the current item");
    "<div class=\"screen\">".to_owned()
        .concat(header.as_str())
        .concat("<div class=\"run-body\"><div class=\"meter-row\"><span class=\"caption")
        .concat(" dim\">progress</span><div class=\"meter\"><span class=\"used")
        .concat(tone)
        .concat("\" style=\"width:")
        .concat(progress)
        .concat("%\"></span></div><span class=\"caption dim\">")
        .concat(removed.as_str())
        .concat(" removed · ")
        .concat(size)
        .concat(" to free</span></div>")
        .concat(space.as_str())
        .concat("<div id=\"run-log\">")
        .concat(log.as_str())
        .concat("</div></div><div class=\"footer\">")
        .concat(esc.as_str())
        .concat("</div></div>")
}

fn failure_list(app: &Web) -> (r: String)
    ensures
        r@ == failures(app@.run_log, app@.run_log.len() as int).1,
{
    let mut rows = "".to_owned();
    let mut shown: usize = 0;
    let mut at: usize = 0;
    while at < app.run_log.len()
        invariant
            at <= app.run_log@.len(),
            app@.run_log.len() == app.run_log@.len(),
            shown <= FAILED_ROWS,
            (shown as int, rows@) == failures(app@.run_log, at as int),
        decreases app.run_log@.len() - at,
    {
        let entry = &app.run_log[at];
        assert(app@.run_log[at as int] == entry@);
        if let Some(error) = &entry.error {
            if shown < FAILED_ROWS {
                let name = render::esc(render::short_name(&entry.path).as_str());
                let reason = render::esc(error.as_str());
                rows.append(failure_text(name, reason).as_str());
                shown = shown + 1;
            }
        }
        at = at + 1;
    }
    rows
}

/// The screen of a removal that is done.
pub fn done(app: &Web, words: &Words) -> (r: String)
    ensures
        r@ == app@.done(*words),
{
    proof {
        reveal(State::done);
    }
    let summary = &app.run_summary;
    let header = screen_header("Done", "removal finished");
    let removed = explore::stat(
        "removed",
        text::decimal_text(summary.removed).concat(" items").as_str(),
        "ok",
    );
    let claimed = explore::stat("bytes claimed", words.size_text(summary.bytes), "");
    let failed = explore::stat(
        "failed",
        text::index_text(summary.failed).as_str(),
        if summary.failed > 0 {
            "danger"
        } else {
            "dim"
        },
    );
    let measured = match (app.space_baseline, app.space) {
        (Some(before), Some(after)) => {
            let (gained, size) = volume_delta(before, after);
            if gained {
                explore::stat(
                    "volume freed",
                    "+".to_owned().concat(words.size_text(size)).as_str(),
                    "ok",
                )
            } else {
                explore::stat(
                    "volume freed",
                    "-".to_owned().concat(words.size_text(size)).as_str(),
                    "warn",
                )
            }
        },
        _ => "".to_owned(),
    };
    let space = space_now(app, words);
    let scan = if app.scanning {
        rescan_text(words.estimate.as_str(), words.count_text(app.progress.files))
    } else {
        "".to_owned()
    };
    let failures = if summary.failed > 0 {
        "<div class=\"rule\"></div><div class=\"section-label\">what could not be removed</div>".to_owned().concat(
            failure_list(app).as_str(),
        )
    } else {
        "".to_owned()
    };
    let enter = render::key_ev("enter");
    let hint = explore::hint_text("enter", "continue");
    "<div class=\"screen\">".to_owned()
        .concat(header.as_str())
        .concat("<div class=\"run-body\"><div class=\"stats\">")
        .concat(removed.as_str())
        .concat(claimed.as_str())
        .concat(failed.as_str())
        .concat(measured.as_str())
        .concat("</div><div class=\"caption dim\">The treemap is being re-scanned so the numbers")
        .concat(" on screen match the disk again.</div>")
        .concat(space.as_str())
        .concat(scan.as_str())
        .concat(failures.as_str())
        .concat("</div><div class=\"footer\"><button class=\"btn primary\" ")
        .concat(enter.as_str())
        .concat(">Done</button>")
        .concat(hint.as_str())
        .concat("</div></div>")
}

/// Every key, and what is being looked at. The tile a key acts on is always
/// the one under the pointer if the pointer moved last, else the keyboard
/// selection.
pub fn help_overlay(app: &Web, words: &Words) -> (r: String)
    ensures
        r@ == app@.help_overlay(*words),
{
    proof {
        reveal(State::help_overlay);
    }
    let event = render::key_ev("?");
    let first = explore_help_text();
    let second = view_help_text();
    let third = review_help_text();
    let root = render::esc(app.root_path.display().as_str());
    let metric = words.metric.as_str();
    "<div class=\"overlay\" ".to_owned()
        .concat(event.as_str())
        .concat("><div class=\"dialog help\"><div class=\"title\">⌨ Keyboard and mouse</div>")
        .concat(first.as_str())
        .concat(second.as_str())
        .concat(third.as_str())
        .concat("<div class=\"caption dim\">? or esc closes · ")
        .concat(root.as_str())
        .concat(" · ")
        .concat(metric)
        .concat("</div></div></div>")
}

} // verus!
