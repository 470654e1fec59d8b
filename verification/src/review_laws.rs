//! What the review, the run and its end say, and of what.

use crate::app::{LogLine, SpaceInfo, State};
use crate::codec;
use crate::explore;
use crate::json;
use crate::marks::{Blocked, Mark, Plan};
use crate::paths;
use crate::pictures::{
    lemma_shows, lemma_tail, lemma_tail_of_five, lemma_tail_of_four, lemma_tail_of_seven,
    lemma_tail_of_six, shows,
};
use crate::render;
use crate::render::Page;
use crate::review::{
    blocked_rows, delete_markup, done_count, export_markup, failure, failures, header_markup,
    listed, log_row, log_rows, reason_from, rescan, row_markup, space_markup,
};
use crate::text;
use crate::words;
use crate::words::Words;
use vstd::prelude::*;

verus! {

/// A heading and a row show their words.
pub proof fn a_row_shows_its_value(label: Seq<char>, value: Seq<char>)
    ensures
        shows(row_markup(label, value), label + "</span><span>"@ + value),
        shows(
            header_markup(label, value),
            label + "</span><span class=\"caption dim\">"@ + render::escaped(value),
        ),
{
    lemma_shows();
    let row = "<div class=\"row\"><span class=\"dim\">"@;
    assert(row + label + "</span><span>"@ + value =~= row + (label + "</span><span>"@ + value));
    assert(shows(row + (label + "</span><span>"@ + value), label + "</span><span>"@ + value));
    let head = "<div class=\"screen-header\"><span class=\"title\">"@;
    let words = render::escaped(value);
    let told = label + "</span><span class=\"caption dim\">"@ + words;
    assert(head + label + "</span><span class=\"caption dim\">"@ + words =~= head + told);
    assert(shows(head + told, told));
}

/// The volume's meter shows what is used, what comes back and what is free,
/// and what it comes to only where something is freed.
pub proof fn the_meter_shows_the_volume(space: SpaceInfo, reclaiming: u64, words: Words)
    ensures
        ({
            let page = space_markup(space, reclaiming, words);
            &&& shows(
                page,
                words.left(reclaiming) + "%\"></span><span class=\"back\" style=\"left:"@
                    + words.left(reclaiming) + "%;width:"@ + words.back(reclaiming),
            )
            &&& reclaiming > 0 ==> shows(
                page,
                words::worded(words.bytes@, space.available) + " free"@ + (" · → "@ + words.after(
                    reclaiming,
                ) + " after"@) + "</span><span>"@ + words::worded(words.bytes@, space.total),
            )
            &&& reclaiming == 0 ==> shows(
                page,
                words::worded(words.bytes@, space.available) + " free"@ + ""@ + "</span><span>"@
                    + words::worded(words.bytes@, space.total),
            )
        }),
{
    lemma_shows();
    let left = words.left(reclaiming);
    let back = words.back(reclaiming);
    let free = words.size(space.available);
    let after = if reclaiming > 0 {
        " · → "@ + words.after(reclaiming) + " after"@
    } else {
        ""@
    };
    let total = words.size(space.total);
    lemma_tail_of_five(
        "<div class=\"space-meter\"><div class=\"meter\"><span class=\"used\" style=\"width:"@,
        left,
        "%\"></span><span class=\"back\" style=\"left:"@,
        left,
        "%;width:"@,
        back,
    );
    lemma_tail_of_five(
        "<div class=\"space-meter\"><div class=\"meter\"><span class=\"used\" style=\"width:"@
            + left + "%\"></span><span class=\"back\" style=\"left:"@ + left + "%;width:"@ + back
            + "%\"></span></div><div class=\"caption dim spread\"><span>"@,
        free,
        " free"@,
        after,
        "</span><span>"@,
        total,
    );
}

/// Why a mark is kept back is the reason given for its path, the first one.
pub proof fn a_mark_is_kept_back_for_its_reason(
    blocked: Seq<Blocked>,
    path: Seq<u8>,
    from: int,
    i: int,
)
    requires
        0 <= from <= i < blocked.len(),
        paths::components(blocked[i].path@) == paths::components(path),
        forall|j: int|
            from <= j < i ==> paths::components((#[trigger] blocked[j]).path@) != paths::components(
                path,
            ),
    ensures
        reason_from(blocked, path, from) == Some(blocked[i].reason@),
{
    lemma_reason(blocked, path, from, i);
}

proof fn lemma_reason(blocked: Seq<Blocked>, path: Seq<u8>, from: int, i: int)
    requires
        0 <= from <= i < blocked.len(),
        paths::same_path(blocked[i].path@, path),
        forall|j: int| from <= j < i ==> !paths::same_path((#[trigger] blocked[j]).path@, path),
    ensures
        reason_from(blocked, path, from) == Some(blocked[i].reason@),
    decreases i - from,
{
    if from < i {
        assert(!paths::same_path(blocked[from].path@, path));
        lemma_reason(blocked, path, from + 1, i);
    }
}

proof fn lemma_no_reason(blocked: Seq<Blocked>, path: Seq<u8>, from: int)
    requires
        0 <= from <= blocked.len(),
        forall|j: int|
            from <= j < blocked.len() ==> !paths::same_path((#[trigger] blocked[j]).path@, path),
    ensures
        reason_from(blocked, path, from) is None,
    decreases blocked.len() - from,
{
    if from < blocked.len() {
        assert(!paths::same_path(blocked[from].path@, path));
        lemma_no_reason(blocked, path, from + 1);
    }
}

/// What no reason is given for is not kept back.
pub proof fn nothing_is_kept_back_without_a_reason(blocked: Seq<Blocked>, path: Seq<u8>)
    requires
        forall|j: int|
            0 <= j < blocked.len() ==> paths::components((#[trigger] blocked[j]).path@)
                != paths::components(path),
    ensures
        reason_from(blocked, path, 0) is None,
{
    lemma_no_reason(blocked, path, 0);
}

/// A mark's row tells a directory from a file, a mark inside another, and one
/// that is kept back; its button unmarks it.
pub proof fn a_mark_has_its_row(
    s: State,
    item: Mark,
    covered: bool,
    blocked: Option<Seq<char>>,
    words: Words,
)
    ensures
        ({
            let page = s.mark_row(item, covered, blocked, words);
            &&& item.is_dir ==> shows(page, "\"><span class=\"file-icon\">"@ + "▣"@)
            &&& !item.is_dir ==> shows(page, "\"><span class=\"file-icon\">"@ + "▢"@)
            &&& covered || blocked is Some ==> shows(page, "<div class=\"mark-row"@ + " quiet"@)
            &&& !covered && blocked is None ==> shows(
                page,
                "<div class=\"mark-row"@ + ""@ + "\"><span class=\"file-icon\">"@,
            )
            &&& covered ==> shows(
                page,
                "<span class=\"chip chip-dim\">Inside a marked directory</span>"@,
            )
            &&& blocked is Some ==> shows(
                page,
                "<span class=\"chip chip-warn\">"@ + render::escaped(blocked->0) + "</span>"@,
            )
            &&& !covered && blocked is None ==> shows(
                page,
                "</span></span>"@ + ""@ + ""@ + "<span class=\"share-lane mono\">"@,
            )
            &&& shows(
                page,
                "</span><span class=\"mark-name\"><span>"@ + render::escaped(paths::label(item.path)),
            )
            &&& shows(
                page,
                "<span class=\"share-lane mono\">"@ + words.lane(item.bytes, s.root_bytes())
                    + "</span><span class=\"size-lane\">"@ + words::worded(words.bytes@, item.bytes)
                    + "</span><button class=\"btn outline\" "@ + render::ev_attr(
                    json::path_event("unmark"@, codec::encoded(item.path)),
                ) + ">Unmark</button></div>"@,
            )
        }),
{
    lemma_shows();
    let quiet = render::when(blocked is Some || covered, " quiet"@);
    let icon = if item.is_dir {
        "▣"@
    } else {
        "▢"@
    };
    let name = render::escaped(render::short(item.path));
    let place = render::escaped(words.place(item.path));
    let inside = render::when(
        covered,
        "<span class=\"chip chip-dim\">Inside a marked directory</span>"@,
    );
    let kept = match blocked {
        Some(reason) => "<span class=\"chip chip-warn\">"@ + render::escaped(reason)
            + "</span>"@,
        None => ""@,
    };
    let share = words.lane(item.bytes, s.root_bytes());
    let size = words.size(item.bytes);
    let event = render::ev_attr(json::path_event("unmark"@, codec::encoded(item.path)));
    lemma_tail(
        "<div class=\"mark-row"@ + quiet,
        "\"><span class=\"file-icon\">"@,
        icon,
    );
    lemma_tail_of_four(
        "<div class=\"mark-row"@ + quiet + "\"><span class=\"file-icon\">"@ + icon
            + "</span><span class=\"mark-name\"><span>"@ + name
            + "</span><span class=\"caption dim ellipsis\">"@ + place,
        "</span></span>"@,
        inside,
        kept,
        "<span class=\"share-lane mono\">"@,
    );
    lemma_tail(
        "<div class=\"mark-row"@ + quiet + "\"><span class=\"file-icon\">"@ + icon,
        "</span><span class=\"mark-name\"><span>"@,
        name,
    );
    lemma_tail_of_seven(
        "<div class=\"mark-row"@ + quiet + "\"><span class=\"file-icon\">"@ + icon
            + "</span><span class=\"mark-name\"><span>"@ + name
            + "</span><span class=\"caption dim ellipsis\">"@ + place + "</span></span>"@
            + inside + kept,
        "<span class=\"share-lane mono\">"@,
        share,
        "</span><span class=\"size-lane\">"@,
        size,
        "</span><button class=\"btn outline\" "@,
        event,
        ">Unmark</button></div>"@,
    );
}

proof fn lemma_row_shown(s: State, plan: Plan, words: Words, count: int, i: int)
    requires
        0 <= i < count,
    ensures
        shows(
            s.mark_rows(plan, words, count),
            s.mark_row(
                s.marks[i],
                listed(plan.covered@, s.marks[i].path),
                reason_from(plan.blocked@, s.marks[i].path, 0),
                words,
            ),
        ),
    decreases count,
{
    lemma_shows();
    if i < count - 1 {
        lemma_row_shown(s, plan, words, count - 1, i);
    }
}

/// The review lists the first two hundred marks as the plan has them, and says
/// how many more there are.
pub proof fn the_review_lists_the_marks(s: State, plan: Plan, words: Words, i: int)
    ensures
        ({
            let page = s.mark_list(plan, words);
            let item = s.marks[i];
            let covered = exists|k: int|
                0 <= k < plan.covered@.len() && paths::components(
                    (#[trigger] plan.covered@[k]).path@,
                ) == paths::components(item.path);
            &&& 0 <= i < s.marks.len() && i < 200 ==> shows(
                page,
                s.mark_row(item, covered, reason_from(plan.blocked@, item.path, 0), words),
            )
            &&& s.marks.len() == 0 ==> shows(
                page,
                "<div class=\"empty dim\">Nothing is marked. Go back and mark what should go.</div>"@,
            )
            &&& s.marks.len() > 200 ==> shows(
                page,
                "<div class=\"caption dim pad\">"@ + text::decimal((s.marks.len() - 200) as nat)
                    + " more are marked and will be removed too. Unmark them in the treemap.</div>"@,
            )
        }),
{
    reveal(State::mark_list);
    lemma_shows();
    let rows: int = if s.marks.len() > 200 {
        200
    } else {
        s.marks.len() as int
    };
    if 0 <= i < rows {
        lemma_row_shown(s, plan, words, rows, i);
        let covered = exists|k: int|
            0 <= k < plan.covered@.len() && paths::components((#[trigger] plan.covered@[k]).path@)
                == paths::components(s.marks[i].path);
        if covered {
            let k = choose|k: int|
                0 <= k < plan.covered@.len() && paths::components(
                    (#[trigger] plan.covered@[k]).path@,
                ) == paths::components(s.marks[i].path);
            assert(paths::same_path(plan.covered@[k].path@, s.marks[i].path));
        }
        assert(covered == listed(plan.covered@, s.marks[i].path));
    }
}

/// Of the two ways to remove, the one in force is lit, and choosing one says
/// which.
pub proof fn the_way_in_force_is_lit(s: State, label: Seq<char>, disabled: bool)
    ensures
        ({
            let trash = s.removal_choice(false, label, disabled);
            let permanent = s.removal_choice(true, label, disabled);
            let lit = "<button class=\"seg"@ + " on"@ + "\" "@;
            let unlit = "<button class=\"seg"@ + ""@ + "\" "@;
            &&& s.removal_mode is Trash ==> shows(trash, lit) && shows(permanent, unlit)
            &&& s.removal_mode is Permanent ==> shows(permanent, lit) && shows(trash, unlit)
            &&& disabled ==> shows(
                trash,
                "disabled"@ + " "@ + render::ev_attr(json::removal_event("trash"@)) + ">"@ + label,
            )
            &&& !disabled ==> shows(
                trash,
                ""@ + " "@ + render::ev_attr(json::removal_event("trash"@)) + ">"@ + label,
            )
            &&& disabled ==> shows(
                permanent,
                "disabled"@ + " "@ + render::ev_attr(json::removal_event("permanent"@)) + ">"@
                    + label,
            )
            &&& !disabled ==> shows(
                permanent,
                ""@ + " "@ + render::ev_attr(json::removal_event("permanent"@)) + ">"@ + label,
            )
        }),
{
    lemma_shows();
    lemma_choice(s, false, label, disabled);
    lemma_choice(s, true, label, disabled);
}

proof fn lemma_choice(s: State, permanent: bool, label: Seq<char>, disabled: bool)
    ensures
        shows(
            s.removal_choice(permanent, label, disabled),
            render::when(disabled, "disabled"@) + " "@ + render::ev_attr(
                json::removal_event(
                    if permanent {
                        "permanent"@
                    } else {
                        "trash"@
                    },
                ),
            ) + ">"@ + label,
        ),
{
    lemma_shows();
    let on = render::when((s.removal_mode == crate::marks::RemovalMode::Permanent) == permanent, " on"@);
    let closed = render::when(disabled, "disabled"@);
    let event = render::ev_attr(
        json::removal_event(
            if permanent {
                "permanent"@
            } else {
                "trash"@
            },
        ),
    );
    lemma_tail_of_five(
        "<button class=\"seg"@ + on + "\" "@,
        closed,
        " "@,
        event,
        ">"@,
        label,
    );
}

/// The explanation is of the way in force.
pub proof fn the_explanation_is_of_the_way_in_force(s: State)
    ensures
        s.removal_mode is Trash ==> s.explanation()
            == "Recoverable from the trash until it is emptied. Uses "@ + s.trash.label@ + "."@,
        s.removal_mode is Permanent ==> s.explanation()
            == "Deleted at once, like rm -rf. Nothing is recoverable."@,
{
}

proof fn lemma_blocked_shown(blocked: Seq<Blocked>, count: int, i: int)
    requires
        0 <= i < count,
    ensures
        shows(
            blocked_rows(blocked, count),
            "<div class=\"caption warn\">"@ + render::escaped(paths::label(blocked[i].path@)) + ": "@
                + render::escaped(blocked[i].reason@) + "</div>"@,
        ),
    decreases count,
{
    lemma_shows();
    if i < count - 1 {
        lemma_blocked_shown(blocked, count - 1, i);
    }
}

/// The summary counts what is marked, acted on, nested and kept back, and what
/// is freed; it lists the first six reasons.
pub proof fn the_summary_counts_the_plan(s: State, plan: Plan, words: Words, i: int)
    ensures
        ({
            let page = s.review_summary(plan, words);
            &&& shows(page, row_markup("Marked"@, text::decimal(s.marks.len())))
            &&& shows(page, row_markup("Acted on"@, text::decimal(plan.targets@.len())))
            &&& shows(
                page,
                row_markup("Nested, go with a parent"@, text::decimal(plan.covered@.len())),
            )
            &&& shows(page, row_markup("Kept back"@, text::decimal(plan.blocked@.len())))
            &&& shows(page, row_markup("Space freed"@, words::worded(words.bytes@, plan.bytes)))
            &&& shows(page, s.removal_choice(false, "Move to trash"@, !s.trash.available))
            &&& shows(page, s.removal_choice(true, "Delete permanently"@, false))
            &&& shows(page, s.explanation())
            &&& s.space is Some ==> shows(page, space_markup(s.space->0, plan.bytes, words))
            &&& 0 <= i < plan.blocked@.len() && i < 6 ==> shows(
                page,
                "<div class=\"caption warn\">"@ + render::escaped(
                    paths::label(plan.blocked@[i].path@),
                ) + ": "@ + render::escaped(plan.blocked@[i].reason@) + "</div>"@,
            )
            &&& shows(page, export_markup(plan))
            &&& shows(page, s.commit_controls(plan))
        }),
{
    reveal(State::review_summary);
    lemma_shows();
    let rows: int = if plan.blocked@.len() > 6 {
        6
    } else {
        plan.blocked@.len() as int
    };
    if 0 <= i < rows {
        lemma_blocked_shown(plan.blocked@, rows, i);
    }
}

/// An empty plan cannot be exported.
pub proof fn an_empty_plan_is_not_exported(plan: Plan)
    ensures
        plan.targets@.len() == 0 ==> shows(
            export_markup(plan),
            "<div class=\"actions\"><a class=\""@ + "btn secondary flex-1 disabled"@
                + "\" id=\"export-list\" data-authed href=\"/api/export/list\" download>Save list…"@,
        ),
        plan.targets@.len() > 0 ==> shows(
            export_markup(plan),
            "<div class=\"actions\"><a class=\""@ + "btn secondary flex-1"@
                + "\" id=\"export-list\" data-authed href=\"/api/export/list\" download>Save list…"@,
        ),
{
    lemma_shows();
}

/// The commit button says what it does to how many.
pub proof fn the_commit_button_says_what_it_does(s: State, plan: Plan)
    ensures
        ({
            let many = plan.targets@.len();
            let count = text::decimal(many);
            &&& s.removal_mode is Trash && many == 1 ==> s.commit_label(plan) == "Move "@ + count
                + " item"@ + " to trash"@
            &&& s.removal_mode is Trash && many != 1 ==> s.commit_label(plan) == "Move "@ + count
                + " items"@ + " to trash"@
            &&& s.removal_mode is Permanent && many == 1 ==> s.commit_label(plan) == "Delete "@
                + count + " item"@ + "…"@
            &&& s.removal_mode is Permanent && many != 1 ==> s.commit_label(plan) == "Delete "@
                + count + " items"@ + "…"@
        }),
{
}

/// It is closed where there is nothing to remove, or no trash to move it to.
pub proof fn the_commit_button_is_closed_without_work(s: State, plan: Plan)
    ensures
        ({
            let page = s.commit_controls(plan);
            let idle = plan.targets@.len() == 0 || (s.removal_mode is Trash && !s.trash.available);
            let event = render::ev_attr(json::bare_event("commit"@));
            &&& idle ==> shows(
                page,
                event + " "@ + "disabled"@ + ">"@ + s.commit_label(plan) + "</button></div>"@,
            )
            &&& !idle ==> shows(
                page,
                event + " "@ + ""@ + ">"@ + s.commit_label(plan) + "</button></div>"@,
            )
            &&& s.removal_mode is Trash ==> shows(
                page,
                ">Back</button><button class=\""@ + "btn primary"@,
            )
            &&& s.removal_mode is Permanent ==> shows(
                page,
                ">Back</button><button class=\""@ + "btn danger"@,
            )
            &&& shows(page, render::key_attr("escape"@) + ">Back</button><button class=\""@)
        }),
{
    lemma_shows();
    let escape = render::key_attr("escape"@);
    let class = match s.removal_mode {
        crate::marks::RemovalMode::Trash => "btn primary"@,
        crate::marks::RemovalMode::Permanent => "btn danger"@,
    };
    let commit = render::ev_attr(json::bare_event("commit"@));
    let closed = render::when(
        plan.targets@.len() == 0 || (s.removal_mode == crate::marks::RemovalMode::Trash
            && !s.trash.available),
        "disabled"@,
    );
    let label = s.commit_label(plan);
    lemma_tail_of_six(
        "<div class=\"actions end\"><button class=\"btn secondary\" "@ + escape
            + ">Back</button><button class=\""@ + class + "\" "@,
        commit,
        " "@,
        closed,
        ">"@,
        label,
        "</button></div>"@,
    );
    lemma_tail(
        "<div class=\"actions end\"><button class=\"btn secondary\" "@ + escape,
        ">Back</button><button class=\""@,
        class,
    );
    lemma_tail(
        "<div class=\"actions end\"><button class=\"btn secondary\" "@,
        escape,
        ">Back</button><button class=\""@,
    );
}

/// The footer's keys do what they say, and it tells what is free.
pub proof fn the_footer_names_the_keys(s: State, words: Words)
    ensures
        ({
            let foot = s.review_footer(words);
            &&& s.removal_mode is Trash ==> shows(foot, explore::hint("enter"@, "move to trash"@))
            &&& s.removal_mode is Permanent ==> shows(foot, explore::hint("enter"@, "delete…"@))
            &&& shows(foot, explore::hint("m"@, "trash"@))
            &&& shows(foot, explore::hint("p"@, "permanent"@))
            &&& shows(foot, explore::hint("!"@, "unmark all"@))
            &&& shows(foot, explore::hint("s"@, "save list"@))
            &&& shows(foot, explore::hint("a"@, "copy as prompt"@))
            &&& shows(foot, explore::hint("esc"@, "back"@))
            &&& s.space is Some ==> shows(
                foot,
                words::worded(words.bytes@, s.space->0.available) + " available</span></div>"@,
            )
        }),
{
    lemma_shows();
    let enter = explore::hint(
        "enter"@,
        match s.removal_mode {
            crate::marks::RemovalMode::Trash => "move to trash"@,
            crate::marks::RemovalMode::Permanent => "delete…"@,
        },
    );
    let m = explore::hint("m"@, "trash"@);
    let p = explore::hint("p"@, "permanent"@);
    let all = explore::hint("!"@, "unmark all"@);
    let save = explore::hint("s"@, "save list"@);
    let a = explore::hint("a"@, "copy as prompt"@);
    let esc = explore::hint("esc"@, "back"@);
    let free = match s.space {
        Some(space) => words.size(space.available),
        None => "?"@,
    };
    lemma_tail(
        "<div class=\"footer\">"@ + enter + m + p + all + save + a + esc
            + "<div class=\"flex-1\"></div><span class=\"caption dim\">"@,
        free,
        " available</span></div>"@,
    );
}

/// The review has its parts, under how much is marked and freed.
pub proof fn the_review_has_its_parts(s: State, plan: Plan, words: Words)
    ensures
        ({
            let page = s.review(plan, words);
            &&& shows(
                page,
                header_markup(
                    "Review"@,
                    text::decimal(s.marks.len()) + " marked · "@ + words::worded(
                        words.bytes@,
                        plan.bytes,
                    ) + " to free"@,
                ),
            )
            &&& shows(page, s.mark_list(plan, words))
            &&& shows(page, s.review_summary(plan, words))
            &&& shows(page, s.review_footer(words))
        }),
{
    reveal(State::review);
    lemma_shows();
}

/// A line of the log tells what went from what did not, and why not.
pub proof fn a_line_tells_whether_it_went(line: LogLine)
    ensures
        ({
            let row = log_row(line);
            let name = render::escaped(paths::label(line.path));
            &&& line.error is None ==> shows(
                row,
                "<div class=\"log-row\"><span class=\""@ + "ok"@ + "\">"@ + "✓"@
                    + "</span><span class=\"flex-1 ellipsis"@ + ""@ + "\">"@ + name + "</span>"@ + ""@
                    + "</div>"@,
            )
            &&& line.error is Some ==> shows(
                row,
                "<div class=\"log-row\"><span class=\""@ + "danger"@ + "\">"@ + "×"@
                    + "</span><span class=\"flex-1 ellipsis"@ + " danger"@ + "\">"@ + name
                    + "</span>"@ + ("<span class=\"caption warn\">"@ + render::escaped(
                    line.error->0,
                ) + "</span>"@) + "</div>"@,
            )
        }),
{
    lemma_shows();
}

/// The log is shown newest first: each line shown stands before the older one.
pub proof fn the_log_is_shown_newest_first(log: Seq<LogLine>, count: int)
    requires
        1 <= count <= log.len(),
    ensures
        log_rows(log, 1) == ""@ + log_row(log.last()),
        log_rows(log, count) == log_rows(log, count - 1) + log_row(log[log.len() - count]),
{
    reveal_with_fuel(log_rows, 3);
}

/// How many of the first `count` lines tell of a failure.
pub open spec fn failed_lines(log: Seq<LogLine>, count: int) -> int
    decreases count,
{
    if count <= 0 {
        0
    } else {
        failed_lines(log, count - 1) + if log[count - 1].error is Some {
            1int
        } else {
            0int
        }
    }
}

/// Of what failed the first forty are listed, each with its reason.
pub proof fn the_first_failures_are_listed(log: Seq<LogLine>, count: int, i: int)
    requires
        0 <= count <= log.len(),
    ensures
        failures(log, count).0 == if failed_lines(log, count) < 40 {
            failed_lines(log, count)
        } else {
            40
        },
        0 <= i < count && log[i].error is Some && failed_lines(log, i) < 40 ==> shows(
            failures(log, count).1,
            failure(
                render::escaped(paths::label(log[i].path)),
                render::escaped(log[i].error->0),
            ),
        ),
    decreases count,
{
    lemma_shows();
    if count > 0 {
        the_first_failures_are_listed(log, count - 1, i);
    }
}

/// A run is told by how far it is, how it removes, and its newest lines.
pub proof fn a_run_is_told_as_it_goes(s: State, words: Words)
    ensures
        ({
            let page = s.running(words);
            let done = s.run_summary.removed + s.run_summary.failed;
            let rows: int = if s.run_log.len() > 200 {
                200
            } else {
                s.run_log.len() as int
            };
            &&& shows(
                page,
                header_markup(
                    "Removing"@,
                    text::decimal(done as nat) + " of "@ + text::decimal(
                        s.run_summary.total as nat,
                    ) + " done"@,
                ),
            )
            &&& s.removal_mode is Permanent ==> shows(
                page,
                " dim\">progress</span><div class=\"meter\"><span class=\"used"@ + " danger-bg"@,
            )
            &&& s.removal_mode is Trash ==> shows(
                page,
                " dim\">progress</span><div class=\"meter\"><span class=\"used"@ + " accent"@,
            )
            &&& shows(
                page,
                text::decimal(s.run_summary.removed as nat) + " removed · "@ + words::worded(
                    words.bytes@,
                    s.run_summary.bytes,
                ) + " to free</span></div>"@,
            )
            &&& s.space is Some ==> shows(page, space_markup(s.space->0, 0, words))
            &&& shows(page, log_rows(s.run_log, rows))
            &&& shows(page, explore::hint("esc"@, "stop after the current item"@))
        }),
{
    reveal(State::running);
    lemma_shows();
    let summary = s.run_summary;
    let header = header_markup(
        "Removing"@,
        text::decimal(done_count(summary) as nat) + " of "@ + text::decimal(
            summary.total as nat,
        ) + " done"@,
    );
    let tone = if s.removal_mode == crate::marks::RemovalMode::Permanent {
        " danger-bg"@
    } else {
        " accent"@
    };
    let progress = words.progress@;
    let removed = text::decimal(summary.removed as nat);
    let size = words.size(summary.bytes);
    lemma_tail(
        "<div class=\"screen\">"@ + header
            + "<div class=\"run-body\"><div class=\"meter-row\"><span class=\"caption"@,
        " dim\">progress</span><div class=\"meter\"><span class=\"used"@,
        tone,
    );
    lemma_tail_of_four(
        "<div class=\"screen\">"@ + header
            + "<div class=\"run-body\"><div class=\"meter-row\"><span class=\"caption"@
            + " dim\">progress</span><div class=\"meter\"><span class=\"used"@ + tone
            + "\" style=\"width:"@ + progress + "%\"></span></div><span class=\"caption dim\">"@,
        removed,
        " removed · "@,
        size,
        " to free</span></div>"@,
    );
}

/// What the volume gained or lost is the difference of its two readings.
pub proof fn what_was_measured_is_the_difference(
    s: State,
    words: Words,
    before: SpaceInfo,
    after: SpaceInfo,
)
    requires
        s.space_baseline == Some(before),
        s.space == Some(after),
    ensures
        after.available >= before.available ==> s.measured(words) == explore::stat_markup(
            "volume freed"@,
            "+"@ + words::worded(words.bytes@, (after.available - before.available) as u64),
            "ok"@,
        ),
        after.available < before.available ==> s.measured(words) == explore::stat_markup(
            "volume freed"@,
            "-"@ + words::worded(words.bytes@, (before.available - after.available) as u64),
            "warn"@,
        ),
{
}

/// The end of a run tells what went, what it claims, what failed and why, and
/// the scan that follows.
pub proof fn the_end_of_a_run_is_told(s: State, words: Words)
    ensures
        ({
            let page = s.done(words);
            let sum = s.run_summary;
            &&& shows(
                page,
                explore::stat_markup(
                    "removed"@,
                    text::decimal(sum.removed as nat) + " items"@,
                    "ok"@,
                ),
            )
            &&& shows(
                page,
                explore::stat_markup(
                    "bytes claimed"@,
                    words::worded(words.bytes@, sum.bytes),
                    ""@,
                ),
            )
            &&& sum.failed > 0 ==> shows(
                page,
                explore::stat_markup("failed"@, text::decimal(sum.failed as nat), "danger"@),
            )
            &&& sum.failed == 0 ==> shows(
                page,
                explore::stat_markup("failed"@, text::decimal(sum.failed as nat), "dim"@),
            )
            &&& sum.failed > 0 ==> shows(
                page,
                failures(s.run_log, s.run_log.len() as int).1,
            )
            &&& shows(page, s.measured(words))
            &&& s.space is Some ==> shows(page, space_markup(s.space->0, 0, words))
            &&& s.scanning ==> shows(
                page,
                rescan(words.estimate@, words::worded(words.counts@, s.progress.files)),
            )
            &&& shows(page, render::key_attr("enter"@))
        }),
{
    reveal(State::done);
    lemma_shows();
}

/// The dialog asks about what goes: by name where it is one, by number else.
pub proof fn the_dialog_asks_about_what_goes(plan: Plan)
    ensures
        plan.targets@.len() == 1 ==> State::delete_question(plan) == "Delete “"@ + paths::label(
            plan.targets@[0].path@,
        ) + "” permanently?"@,
        plan.targets@.len() != 1 ==> State::delete_question(plan) == "Delete "@ + text::decimal(
            plan.targets@.len(),
        ) + " items permanently?"@,
{
}

/// The dialog's buttons cancel and confirm.
pub proof fn the_dialog_cancels_and_confirms(plan: Plan, words: Words)
    ensures
        ({
            let page = delete_markup(plan, words);
            &&& shows(page, render::escaped(State::delete_question(plan)))
            &&& shows(page, words::worded(words.bytes@, plan.bytes))
            &&& shows(
                page,
                render::ev_attr(json::bare_event("cancel_delete"@))
                    + ">Cancel</button><button class=\"btn danger\" "@ + render::ev_attr(
                    json::bare_event("confirm_delete"@),
                ) + ">Delete</button></div></div></div>"@,
            )
        }),
{
    lemma_shows();
    let question = render::escaped(State::delete_question(plan));
    let size = words.size(plan.bytes);
    let cancel = render::ev_attr(json::bare_event("cancel_delete"@));
    let confirm = render::ev_attr(json::bare_event("confirm_delete"@));
    lemma_tail_of_four(
        "<div class=\"overlay\"><div class=\"dialog\"><div class=\"title\">"@ + question
            + "</div><div class=\"dialog-body\">This frees "@ + size
            + ". Deleted files can’t be recovered; move them to the trash if you might need"@
            + " them again.</div><div class=\"actions end\"><button class=\"btn secondary\" "@,
        cancel,
        ">Cancel</button><button class=\"btn danger\" "@,
        confirm,
        ">Delete</button></div></div></div>"@,
    );
}

/// A frame is the screen in force, with the dialog and the help over it while
/// they are open.
pub proof fn a_frame_is_the_screen_in_force(s: State, page: Page)
    ensures
        ({
            let frame = s.frame(page);
            &&& s.screen is Explore ==> shows(
                frame.html,
                s.explore(page.canvas, page.plan, page.now, page.words, page.palette),
            ) && frame.screen == "explore"@
            &&& s.screen is Review ==> shows(frame.html, s.review(page.plan, page.words))
                && frame.screen == "review"@
            &&& s.screen is Running ==> shows(frame.html, s.running(page.words)) && frame.screen
                == "running"@
            &&& s.screen is Done ==> shows(frame.html, s.done(page.words)) && frame.screen
                == "done"@
            &&& s.confirm_open ==> shows(frame.html, delete_markup(page.plan, page.words))
            &&& s.show_help ==> shows(frame.html, s.help_overlay(page.words))
            &&& !s.confirm_open && !s.show_help ==> frame.html == s.screen_markup(page) + ""@ + ""@
            &&& frame.busy <==> s.scanning || s.removing
            &&& frame.find_open == s.find_open
            &&& frame.find == s.find
            &&& frame.title == "disktree · "@ + words::path_worded(
                page.words.paths@,
                s.current_path(),
            )
        }),
{
    reveal(State::frame);
    lemma_shows();
}

} // verus!
