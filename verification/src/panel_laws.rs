//! What the side panel says, and of what.

use crate::app::{Candidate, Finding, News, SpaceInfo, State};
use crate::boundary;
use crate::codec;
use crate::json;
use crate::marks;
use crate::marks::{Mark, Plan};
use crate::palette::Palette;
use crate::panel::{
    ago_words, figure_markup, insight_detail, notice, size_parts, sizes, units_ago,
};
use crate::paths;
use crate::pictures::{
    lemma_shows, lemma_tail, lemma_tail_of_five, lemma_tail_of_four, lemma_tail_of_six,
    lemma_tail_of_three, shows,
};
use crate::promises;
use crate::render;
use crate::text;
use crate::tree::{Category, Metric, Node};
use crate::words;
use crate::words::Words;
use vstd::prelude::*;

verus! {

/// A size splits at its first space, and loses nothing else.
pub proof fn a_size_splits_at_its_space(line: Seq<char>)
    ensures
        ({
            let (number, unit) = size_parts(line);
            &&& !number.contains(' ')
            &&& line.contains(' ') ==> number + " "@ + unit == line
            &&& !line.contains(' ') ==> number == line && unit == ""@
        }),
{
    reveal_strlit(" ");
    boundary::a_character_is_found_where_it_first_is(line, ' ', 0);
    let (number, unit) = size_parts(line);
    match text::found(line, ' ', 0) {
        Some(at) => {
            assert(line[at] == ' ');
            assert(number + " "@ + unit =~= line);
        },
        None => {},
    }
}

/// A time is told in its largest whole unit: as many as fit and no more.
pub proof fn a_time_is_told_in_its_largest_unit(now: i64, then: i64, n: nat)
    ensures
        ({
            let said = ago_words(now, then);
            let apart = now - then;
            &&& then <= 0 ==> said == "unknown"@
            &&& then > 0 && apart < 60 ==> said == "just now"@
            &&& then > 0 && 60 <= apart < 3_600 && n * 60 <= apart < (n + 1) * 60 ==> said
                == units_ago(n, "minute"@)
            &&& then > 0 && 3_600 <= apart < 86_400 && n * 3_600 <= apart < (n + 1) * 3_600
                ==> said == units_ago(n, "hour"@)
            &&& then > 0 && 86_400 <= apart < 30 * 86_400 && n * 86_400 <= apart < (n + 1) * 86_400
                ==> said == units_ago(n, "day"@)
            &&& then > 0 && 30 * 86_400 <= apart < 365 * 86_400 && n * 2_592_000 <= apart < (n + 1)
                * 2_592_000 ==> said == units_ago(n, "month"@)
            &&& then > 0 && 365 * 86_400 <= apart && n * 31_536_000 <= apart < (n + 1) * 31_536_000
                ==> said == units_ago(n, "year"@)
        }),
{
}

/// One is singular, and every other number plural.
pub proof fn one_is_singular(count: nat, unit: Seq<char>)
    ensures
        count == 1 ==> units_ago(count, unit) == "1 "@ + unit + " ago"@,
        count != 1 ==> units_ago(count, unit) == text::decimal(count) + " "@ + unit + "s ago"@,
{
}

/// A finding says why: its reason, or how many and for how long.
pub proof fn a_finding_says_why(reason: String, count: u64, days: u64, other: u64)
    ensures
        insight_detail(Finding::Reclaimable { reason }) == reason@,
        count == 1 ==> insight_detail(Finding::Worktrees { count, oldest_days: days })
            == text::decimal(count as nat) + " worktree"@ + ""@ + " · oldest "@ + text::decimal(
            days as nat,
        ) + " d"@,
        count != 1 ==> insight_detail(Finding::Worktrees { count, oldest_days: days })
            == text::decimal(count as nat) + " worktree"@ + "s"@ + " · oldest "@ + text::decimal(
            days as nat,
        ) + " d"@,
        count != 1 ==> insight_detail(Finding::StaleExperiments { count, days: other })
            == text::decimal(count as nat) + " experiment"@ + "s"@ + " untouched"@,
{
}

/// What is worth a look adds up: each finding counts once.
pub proof fn what_is_worth_a_look_adds_up(s: State, more: Candidate)
    ensures
        s.insights.len() == 0 ==> s.worth_total() == 0,
        (State { insights: s.insights.push(more), ..s }).worth_total() == s.worth_total()
            + more.bytes,
{
    lemma_sizes(s.insights, s.insights.push(more), s.insights.len() as int);
}

proof fn lemma_sizes(a: Seq<Candidate>, b: Seq<Candidate>, count: int)
    requires
        count <= a.len(),
        count <= b.len(),
        forall|i: int| 0 <= i < count ==> a[i] == #[trigger] b[i],
    ensures
        sizes(a, count) == sizes(b, count),
    decreases count,
{
    if count > 0 {
        lemma_sizes(a, b, count - 1);
        assert(a[count - 1] == b[count - 1]);
    }
}

/// A finding is titled by the last two names of where it is.
pub proof fn a_finding_is_titled_by_where_it_is(
    s: State,
    crumbs: Seq<usize>,
    node: Node,
    above: Node,
)
    requires
        s.node_at(crumbs) == Some(node),
        crumbs.len() > 1 ==> s.node_at(crumbs.drop_last()) == Some(above),
    ensures
        crumbs.len() == 0 ==> s.tail(crumbs) == ""@,
        crumbs.len() == 1 ==> s.tail(crumbs) == node.name(),
        crumbs.len() > 1 ==> s.tail(crumbs) == above.name() + "/"@ + node.name(),
{
}

/// What a selection goes with is the first mark it is inside of.
pub proof fn a_selection_goes_with_its_first_cover(s: State, path: Seq<u8>, i: int)
    requires
        0 <= i < s.marks.len(),
        marks::inside(path, s.marks[i].path),
        forall|j: int| 0 <= j < i ==> !marks::inside(path, (#[trigger] s.marks[j]).path),
    ensures
        s.marks_ancestor(Some(path)) == Some(paths::label(s.marks[i].path)),
{
    lemma_first(s.marks, path, i);
}

proof fn lemma_first(all: Seq<Mark>, path: Seq<u8>, i: int)
    requires
        0 <= i < all.len(),
        marks::inside(path, all[i].path),
        forall|j: int| 0 <= j < i ==> !marks::inside(path, (#[trigger] all[j]).path),
    ensures
        marks::first_cover(all, path) == Some(all[i].path),
    decreases all.len(),
{
    let short = all.drop_last();
    assert(forall|j: int| 0 <= j < short.len() ==> short[j] == #[trigger] all[j]);
    if i < short.len() {
        lemma_first(short, path, i);
    } else {
        promises::a_cover_is_the_first_that_holds_it(short, path);
        if marks::first_cover(short, path) is Some {
            let k = choose|k: int|
                0 <= k < short.len() && (#[trigger] short[k]).path == marks::first_cover(
                    short,
                    path,
                )->0 && marks::inside(path, short[k].path);
            assert(short[k] == all[k]);
        }
    }
}

/// What keeps a selection from being marked is the cover with the shortest
/// path, unless the selection is on the list itself.
pub proof fn a_selection_is_kept_by_its_shortest_cover(s: State)
    ensures
        ({
            let path = s.path_at(s.target());
            let kept = s.kept_by();
            &&& kept is Some ==> {
                &&& path is Some
                &&& !marks::marked(s.marks, path->0)
                &&& exists|i: int|
                    0 <= i < s.marks.len() && (#[trigger] s.marks[i]).path == kept->0
                        && marks::inside(path->0, s.marks[i].path)
                &&& forall|i: int|
                    0 <= i < s.marks.len() && marks::inside(path->0, (#[trigger] s.marks[i]).path)
                        ==> kept->0.len() <= s.marks[i].path.len()
            }
            &&& kept is None && path is Some && !marks::marked(s.marks, path->0) ==> forall|i: int|
                0 <= i < s.marks.len() ==> !marks::inside(path->0, (#[trigger] s.marks[i]).path)
        }),
{
    if s.path_at(s.target()) is Some {
        lemma_shortest(s.marks, s.path_at(s.target())->0);
    }
}

proof fn lemma_shortest(all: Seq<Mark>, path: Seq<u8>)
    ensures
        match marks::shortest_cover(all, path) {
            Some(found) => {
                &&& exists|i: int|
                    0 <= i < all.len() && (#[trigger] all[i]).path == found && marks::inside(
                        path,
                        all[i].path,
                    )
                &&& forall|i: int|
                    0 <= i < all.len() && marks::inside(path, (#[trigger] all[i]).path)
                        ==> found.len() <= all[i].path.len()
            },
            None => forall|i: int|
                0 <= i < all.len() ==> !marks::inside(path, (#[trigger] all[i]).path),
        },
    decreases all.len(),
{
    if all.len() > 0 {
        let short = all.drop_last();
        lemma_shortest(short, path);
        assert(forall|j: int| 0 <= j < short.len() ==> short[j] == #[trigger] all[j]);
        let last = all.len() - 1;
        assert(all[last] == all.last());
        match marks::shortest_cover(short, path) {
            Some(found) => {
                let k = choose|k: int|
                    0 <= k < short.len() && (#[trigger] short[k]).path == found && marks::inside(
                        path,
                        short[k].path,
                    );
                assert(all[k].path == found);
            },
            None => {},
        }
    }
}

/// A figure shows its label and its value.
pub proof fn a_figure_shows_its_value(label: Seq<char>, value: Seq<char>, class: Seq<char>)
    ensures
        shows(
            figure_markup(label, value, class),
            "<span class=\"caption dim\">"@ + label + "</span><span class=\"figure-value "@ + class
                + "\">"@ + value + "</span></span>"@,
        ),
{
    lemma_shows();
    reveal_strlit("<span class=\"figure\"><span class=\"caption dim\">");
    reveal_strlit("<span class=\"figure\">");
    reveal_strlit("<span class=\"caption dim\">");
    let rest = "<span class=\"caption dim\">"@ + label + "</span><span class=\"figure-value "@ + class
        + "\">"@ + value + "</span></span>"@;
    assert(figure_markup(label, value, class) =~= "<span class=\"figure\">"@ + rest);
    assert(shows("<span class=\"figure\">"@ + rest, rest));
}

/// The selection is told by its name, its place and the colour of its kind.
/// The selection is told by its name, its place and the colour of its kind.
pub proof fn the_selection_is_told_by_name_and_place(
    s: State,
    node: Node,
    words: Words,
    palette: Palette,
)
    ensures
        ({
            let page = s.identity(node, words, palette);
            &&& shows(page, " style=\"background:"@ + palette.accents@[node.category.place()]@)
            &&& shows(
                page,
                "\"></span><span class=\"name\" title=\""@ + render::escaped(node.name()) + "\">"@
                    + render::escaped(node.name()),
            )
            &&& s.path_at(s.target()) is Some ==> shows(
                page,
                "</span></div><div class=\"caption dim ellipsis\">"@ + render::escaped(
                    words.place(s.path_at(s.target())->0),
                ),
            )
        }),
{
    lemma_shows();
    let color = palette.accent(node.category);
    let name = render::escaped(node.name());
    let place = match s.path_at(s.target()) {
        Some(path) => render::escaped(words.place(path)),
        None => ""@,
    };
    lemma_tail(
        "<div class=\"identity\"><div class=\"name-row\"><span class=\"strip\""@,
        " style=\"background:"@,
        color,
    );
    lemma_tail_of_four(
        "<div class=\"identity\"><div class=\"name-row\"><span class=\"strip\""@
            + " style=\"background:"@ + color,
        "\"></span><span class=\"name\" title=\""@,
        name,
        "\">"@,
        name,
    );
    lemma_tail(
        "<div class=\"identity\"><div class=\"name-row\"><span class=\"strip\""@
            + " style=\"background:"@ + color + "\"></span><span class=\"name\" title=\""@ + name
            + "\">"@ + name,
        "</span></div><div class=\"caption dim ellipsis\">"@,
        place,
    );
}

/// The measure shows the size or the count, and the share of the whole scan.
pub proof fn the_measure_follows_the_metric(s: State, node: Node, words: Words, root: Node)
    requires
        s.tree == Some(root),
    ensures
        ({
            let page = s.measure(node, words);
            let sized = size_parts(words::worded(words.bytes@, node.bytes));
            &&& s.options.metric == Metric::Bytes ==> shows(
                page,
                "<div class=\"measure\"><span class=\"big\">"@ + sized.0
                    + "</span><span class=\"unit\">"@ + sized.1,
            )
            &&& s.options.metric == Metric::Files ==> shows(
                page,
                "<div class=\"measure\"><span class=\"big\">"@ + words::worded(
                    words.counts@,
                    node.files,
                ) + "</span><span class=\"unit\">"@ + "files"@,
            )
            &&& shows(page, words.exact(node.bytes, root.bytes) + "%\"></span></div>"@)
        }),
{
    lemma_shows();
    let (number, unit) = s.measure_parts(node, words);
    let share = words.exact(node.bytes, s.root_bytes());
    lemma_tail(
        "<div class=\"measure\"><span class=\"big\">"@ + number + "</span><span class=\"unit\">"@
            + unit + "</span></div><div class=\"bar tall\"><span style=\"width:"@,
        share,
        "%\"></span></div>"@,
    );
}

/// The figures are the share of the scan, the files and the last write.
pub proof fn the_figures_of_a_selection(s: State, node: Node, now: i64, words: Words, root: Node)
    requires
        s.tree == Some(root),
    ensures
        ({
            let page = s.figures(node, now, words);
            &&& shows(page, figure_markup("Of scan"@, words.percent(node.bytes, root.bytes), ""@))
            &&& shows(page, figure_markup("Files"@, words::worded(words.counts@, node.files), ""@))
            &&& shows(page, figure_markup("Last write"@, ago_words(now, node.modified), ""@))
            &&& shows(page, s.fourth_figure(node, words))
        }),
{
    lemma_shows();
}

/// A checkout shows what git says of it: its state, that it was not readable,
/// or that the answer is to come. Anything else shows its kind.
pub proof fn a_checkout_shows_its_state(s: State, node: Node, words: Words, path: Seq<u8>)
    requires
        s.path_at(s.target()) == Some(path),
    ensures
        ({
            let figure = s.fourth_figure(node, words);
            let git = node.dir && words.checkout;
            &&& git && s.git_at(path) is None ==> figure == figure_markup(
                "Git"@,
                render::escaped("asking…"@),
                ""@,
            )
            &&& git && s.git_at(path) == Some(None::<crate::app::GitState>) ==> figure
                == figure_markup("Git"@, render::escaped("not readable"@), ""@)
            &&& git && (s.git_at(path) matches Some(Some(state)) && state.clean) ==> figure
                == figure_markup(
                "Git"@,
                render::escaped(s.git_at(path)->0->0.summary@),
                "ok"@,
            )
            &&& git && (s.git_at(path) matches Some(Some(state)) && !state.clean) ==> figure
                == figure_markup("Git"@, render::escaped(s.git_at(path)->0->0.summary@), ""@)
            &&& !git && node.reclaim is None ==> figure == figure_markup(
                "Kind"@,
                render::escaped(node.kind@),
                ""@,
            )
            &&& !git && node.reclaim is Some ==> figure == figure_markup(
                "Kind"@,
                render::escaped(node.kind@ + " · "@ + node.reclaim->0@),
                ""@,
            )
        }),
{
}

/// A selection that is marked, covered or partly unreadable has a chip that
/// says so; any other has none.
pub proof fn a_selection_has_its_chips(s: State, node: Node, path: Seq<u8>, i: int)
    requires
        s.path_at(s.target()) == Some(path),
    ensures
        ({
            let chips = s.chips(node);
            &&& marks::marked(s.marks, path) ==> s.has_chips(node) && shows(
                chips,
                "<span class=\"chip chip-danger\">Marked</span>"@,
            )
            &&& node.read_error ==> s.has_chips(node) && shows(
                chips,
                "<span class=\"chip chip-warn\">Partly unreadable</span>"@,
            )
            &&& 0 <= i < s.marks.len() && marks::inside(path, s.marks[i].path) && (forall|j: int|
                0 <= j < i ==> !marks::inside(path, (#[trigger] s.marks[j]).path)) ==> s.has_chips(
                node,
            ) && shows(
                chips,
                "<span class=\"chip chip-danger\">Goes with "@ + render::escaped(
                    paths::label(s.marks[i].path),
                ) + "</span>"@,
            )
            &&& s.has_chips(node) ==> node.read_error || marks::marked(s.marks, path) || exists|
                k: int,
            |
                0 <= k < s.marks.len() && marks::inside(path, (#[trigger] s.marks[k]).path)
        }),
{
    lemma_shows();
    if 0 <= i < s.marks.len() && marks::inside(path, s.marks[i].path) && (forall|j: int|
        0 <= j < i ==> !marks::inside(path, (#[trigger] s.marks[j]).path)) {
        lemma_first(s.marks, path, i);
    }
    if marks::first_cover(s.marks, path) is Some {
        promises::a_cover_is_the_first_that_holds_it(s.marks, path);
    }
}

/// The mark button does what it says: it marks what is neither marked nor
/// covered, unmarks what is marked, and unmarks the cover of what is covered.
pub proof fn the_mark_button_does_what_it_says(s: State, path: Seq<u8>)
    requires
        s.path_at(s.target()) == Some(path),
    ensures
        ({
            let page = s.mark_button();
            let listed = marks::marked(s.marks, path);
            let covered = exists|i: int|
                0 <= i < s.marks.len() && marks::inside(path, (#[trigger] s.marks[i]).path);
            &&& listed ==> shows(
                page,
                "btn primary flex-1"@ + "\" "@ + render::ev_attr(
                    json::crumbs_event("mark"@, s.target()),
                ) + ">"@ + render::escaped("Unmark"@) + "</button>"@,
            )
            &&& !listed && !covered ==> shows(
                page,
                "btn highlight flex-1"@ + "\" "@ + render::ev_attr(
                    json::crumbs_event("mark"@, s.target()),
                ) + ">"@ + render::escaped("Mark for removal"@) + "</button>"@,
            )
            &&& !listed && covered ==> s.kept_by() is Some && shows(
                page,
                "btn primary flex-1"@ + "\" "@ + render::ev_attr(
                    json::path_event("unmark"@, codec::encoded(s.kept_by()->0)),
                ) + ">"@ + render::escaped("Unmark "@ + paths::label(s.kept_by()->0))
                    + "</button>"@,
            )
        }),
{
    promises::a_cover_is_the_first_that_holds_it(s.marks, path);
    lemma_shortest(s.marks, path);
    let button = s.mark_button();
    lemma_shows();
    let marked = s.on_list(s.target());
    let covered = s.marks_ancestor(s.path_at(s.target()));
    let class = if !marked && covered is None {
        "btn highlight flex-1"@
    } else {
        "btn primary flex-1"@
    };
    let event = render::ev_attr(
        match s.kept_by() {
            Some(ancestor) => json::path_event("unmark"@, codec::encoded(ancestor)),
            None => json::crumbs_event("mark"@, s.target()),
        },
    );
    let label = render::escaped(
        match s.kept_by() {
            Some(ancestor) => "Unmark "@ + render::short(ancestor),
            None => if marked {
                "Unmark"@
            } else {
                "Mark for removal"@
            },
        },
    );
    lemma_tail_of_six(
        "<button class=\""@,
        class,
        "\" "@,
        event,
        ">"@,
        label,
        "</button>"@,
    );
}

/// A selection can be opened where it is a directory and marked where it is
/// not what is on screen.
pub proof fn a_selection_has_its_actions(s: State, node: Node)
    ensures
        s.target() == s.crumbs ==> s.actions(node) == ""@,
        s.target() != s.crumbs ==> shows(s.actions(node), s.mark_button()),
        s.target() != s.crumbs && node.dir ==> shows(
            s.actions(node),
            render::ev_attr(json::crumbs_event("goto"@, s.target())) + ">Open</button>"@,
        ),
        s.target() != s.crumbs && !node.dir ==> s.actions(node) == ""@ + s.mark_button(),
{
    lemma_shows();
    let open = render::ev_attr(json::crumbs_event("goto"@, s.target()));
    lemma_tail("<button class=\"btn outline flex-1\" "@, open, ">Open</button>"@);
}

/// The selection's section has all there is to say of it.
pub proof fn the_selection_has_its_section(
    s: State,
    now: i64,
    words: Words,
    palette: Palette,
    node: Node,
)
    requires
        s.node_at(s.target()) == Some(node),
    ensures
        ({
            let page = s.selection_section(now, words, palette);
            &&& shows(page, s.identity(node, words, palette))
            &&& shows(page, s.measure(node, words))
            &&& shows(page, s.figures(node, now, words))
            &&& s.has_chips(node) ==> shows(page, s.chips(node))
            &&& shows(page, s.actions(node))
        }),
{
    reveal(State::selection_section);
    lemma_shows();
}

/// A finding's row leads to it, and shows its title, its reason, its size and
/// its width against the largest.
pub proof fn a_finding_has_its_row(
    s: State,
    candidate: Candidate,
    node: Node,
    words: Words,
    palette: Palette,
)
    ensures
        ({
            let page = s.insight_row(candidate, node, words, palette);
            &&& s.action_target() == Some(candidate.crumbs@) ==> shows(
                page,
                "<div class=\"insight"@ + " active"@,
            )
            &&& s.action_target() != Some(candidate.crumbs@) ==> shows(
                page,
                "<div class=\"insight"@ + ""@ + "\" "@,
            )
            &&& shows(page, render::ev_attr(json::crumbs_event("reveal"@, candidate.crumbs@)))
            &&& shows(page, render::escaped(s.insight_title(candidate)))
            &&& shows(page, render::escaped(insight_detail(candidate.finding)))
            &&& shows(
                page,
                words::worded(words.bytes@, candidate.bytes)
                    + "</span><span class=\"bar\"><span style=\"width:"@ + words.width(
                    candidate.bytes,
                    s.insights[0].bytes,
                ) + "%;background:"@ + palette.accents@[node.category.place()]@,
            )
        }),
{
    lemma_shows();
    let active = render::when(
        s.action_target() == Some(candidate.crumbs@),
        " active"@,
    );
    let event = render::ev_attr(json::crumbs_event("reveal"@, candidate.crumbs@));
    let title = render::escaped(s.insight_title(candidate));
    let accent = palette.accent(node.category);
    let detail = render::escaped(insight_detail(candidate.finding));
    let size = words.size(candidate.bytes);
    let width = words.width(candidate.bytes, s.insights[0].bytes);
    lemma_tail_of_five(
        "<div class=\"insight"@ + active + "\" "@ + event + " title=\""@ + title
            + "\"><span class=\"strip\" style=\"background:"@ + accent
            + "\"></span><span class=\"insight-text\"><span class=\"name ellipsis\">"@ + title
            + "</span><span class=\"caption dim ellipsis\">"@ + detail
            + "</span></span><span class=\"insight-figures\"><span>"@,
        size,
        "</span><span class=\"bar\"><span style=\"width:"@,
        width,
        "%;background:"@,
        accent,
    );
}

/// Stale experiments say for how long; every other finding is titled by its
/// place alone.
pub proof fn a_finding_has_its_title(s: State, candidate: Candidate)
    ensures
        (candidate.finding matches Finding::StaleExperiments { days, .. } && s.insight_title(candidate)
            == s.tail(candidate.crumbs@) + " > "@ + text::decimal(days as nat) + " days"@)
            || (!(candidate.finding is StaleExperiments) && s.insight_title(candidate) == s.tail(
            candidate.crumbs@,
        )),
{
}

proof fn lemma_insight_shown(
    s: State,
    words: Words,
    palette: Palette,
    count: int,
    i: int,
    node: Node,
)
    requires
        0 <= i < count,
        s.node_at(s.insights[i].crumbs@) == Some(node),
    ensures
        shows(
            s.insight_rows(words, palette, count),
            s.insight_row(s.insights[i], node, words, palette),
        ),
    decreases count,
{
    lemma_shows();
    if i < count - 1 {
        lemma_insight_shown(s, words, palette, count - 1, i, node);
    }
}

/// Every finding that still leads somewhere is listed, under their total.
pub proof fn every_finding_is_listed(s: State, words: Words, palette: Palette, i: int, node: Node)
    requires
        s.worth_total() <= u64::MAX,
    ensures
        ({
            let page = s.worth_section(words, palette);
            &&& 0 <= i < s.insights.len() && s.node_at(s.insights[i].crumbs@) == Some(node) ==> shows(
                page,
                s.insight_row(s.insights[i], node, words, palette),
            )
            &&& s.worth_total() > 0 ==> shows(
                page,
                "<span class=\"caption hl\">"@ + words::worded(
                    words.bytes@,
                    s.worth_total() as u64,
                ) + "</span>"@,
            )
            &&& s.insights.len() == 0 && s.tree is Some ==> shows(
                page,
                "Nothing obviously disposable"@,
            )
            &&& s.insights.len() == 0 && s.tree is None ==> shows(page, "Waiting for the scan"@)
        }),
{
    reveal(State::worth_section);
    lemma_shows();
    if 0 <= i < s.insights.len() && s.node_at(s.insights[i].crumbs@) == Some(node) {
        lemma_insight_shown(s, words, palette, s.insights.len() as int, i, node);
    }
}

/// A mark's row has the colour of what it leads to, its size and the means to
/// undo it.
pub proof fn a_mark_has_its_row(
    s: State,
    item: Mark,
    words: Words,
    palette: Palette,
    crumbs: Seq<usize>,
    node: Node,
)
    ensures
        ({
            let page = s.marked_row(item, words, palette);
            &&& s.crumbs_for_path(item.path) == Some(crumbs) && s.node_at(crumbs) == Some(node)
                ==> shows(page, palette.accents@[node.category.place()]@)
            &&& s.crumbs_for_path(item.path) is None ==> shows(
                page,
                palette.accents@[Category::Other.place()]@,
            )
            &&& shows(page, "\">"@ + render::escaped(words::path_worded(words.paths@, item.path)))
            &&& shows(
                page,
                "</span><span class=\"dim\">"@ + words::worded(words.bytes@, item.bytes)
                    + "</span><span class=\"unmark\" "@ + render::ev_attr(
                    json::path_event("unmark"@, codec::encoded(item.path)),
                ),
            )
        }),
{
    lemma_shows();
    let color = palette.accent(s.mark_category(item.path));
    let full = render::escaped(text::lossy_text(item.path));
    let place = render::escaped(words.place(item.path));
    let size = words.size(item.bytes);
    let event = render::ev_attr(json::path_event("unmark"@, codec::encoded(item.path)));
    lemma_tail(
        "<div class=\"marked-row\"><span class=\"dot\" style=\"background:"@ + color
            + "\"></span><span class=\"ellipsis flex-1\" title=\""@ + full,
        "\">"@,
        place,
    );
    lemma_tail_of_four(
        "<div class=\"marked-row\"><span class=\"dot\" style=\"background:"@ + color
            + "\"></span><span class=\"ellipsis flex-1\" title=\""@ + full + "\">"@ + place,
        "</span><span class=\"dim\">"@,
        size,
        "</span><span class=\"unmark\" "@,
        event,
    );
}

proof fn lemma_marked_shown(s: State, words: Words, palette: Palette, count: int, i: int)
    requires
        0 <= i < count,
    ensures
        shows(s.marked_rows(words, palette, count), s.marked_row(s.marks[i], words, palette)),
    decreases count,
{
    lemma_shows();
    if i < count - 1 {
        lemma_marked_shown(s, words, palette, count - 1, i);
    }
}

/// The panel lists the first six marks, says how many more there are, and how
/// many of all are nested or kept back.
pub proof fn the_first_marks_are_listed(
    s: State,
    plan: Plan,
    words: Words,
    palette: Palette,
    i: int,
)
    requires
        s.marks.len() > 0,
    ensures
        ({
            let page = s.marked_section(plan, words, palette);
            let nested = plan.covered@.len();
            let kept = plan.blocked@.len();
            &&& 0 <= i < s.marks.len() && i < 6 ==> shows(
                page,
                s.marked_row(s.marks[i], words, palette),
            )
            &&& shows(
                page,
                text::decimal(s.marks.len()) + "</span><span class=\"caption dim\">"@
                    + words::worded(words.bytes@, plan.bytes) + "</span></div>"@,
            )
            &&& s.marks.len() > 6 ==> shows(
                page,
                "<div class=\"caption dim\">+"@ + text::decimal((s.marks.len() - 6) as nat)
                    + " more on the review screen</div>"@,
            )
            &&& nested > 0 || kept > 0 ==> shows(
                page,
                "<div class=\"caption dim\">"@ + text::decimal(nested) + " nested · "@
                    + text::decimal(kept) + " kept back</div>"@,
            )
        }),
{
    reveal(State::marked_section);
    lemma_shows();
    let listed: int = if s.marks.len() > 6 {
        6
    } else {
        s.marks.len() as int
    };
    if 0 <= i < listed {
        lemma_marked_shown(s, words, palette, listed, i);
    }
    let count = text::decimal(s.marks.len());
    let size = words.size(plan.bytes);
    let head = "<div class=\"section-head\"><span class=\"eyebrow\">Marked · "@;
    let told = count + "</span><span class=\"caption dim\">"@ + size + "</span></div>"@;
    assert(head + count + "</span><span class=\"caption dim\">"@ + size + "</span></div>"@ =~= head
        + told);
    assert(shows(head + told, told));
}

/// The one notice shown is the scan's error, else the news; news of marks that
/// were taken along is no warning.
pub proof fn the_notice_is_the_gravest(s: State, words: Words)
    ensures
        s.scan_error is Some ==> s.notice_line(words) == notice("danger"@, s.scan_error->0),
        s.scan_error is None && s.notice is None ==> s.notice_line(words) == ""@,
        s.scan_error is None && (s.notice matches Some(News::Covers { .. })) ==> s.notice_line(words)
            == notice("neutral"@, State::news_words(s.notice->0, words)),
        s.scan_error is None && s.notice is Some && !(s.notice matches Some(News::Covers { .. }))
            ==> s.notice_line(words) == notice("warn"@, State::news_words(s.notice->0, words)),
{
    reveal(State::notice_line);
}

/// The news name the places they are about.
pub proof fn the_news_name_their_places(
    path: Seq<u8>,
    ancestor: Seq<u8>,
    count: int,
    needle: Seq<char>,
    words: Words,
)
    ensures
        State::news_words(News::GoesWith { path, ancestor }, words) == words::path_worded(
            words.paths@,
            path,
        ) + " goes with the marked "@ + words::path_worded(words.paths@, ancestor)
            + "; unmark that to keep it"@,
        count > 1 ==> State::news_words(News::Covers { path, count }, words) == words::path_worded(
            words.paths@,
            path,
        ) + " now covers "@ + text::decimal(count as nat) + " mark"@ + "s"@ + " inside it"@,
        count == 1 ==> State::news_words(News::Covers { path, count }, words) == words::path_worded(
            words.paths@,
            path,
        ) + " now covers "@ + text::decimal(count as nat) + " mark"@ + ""@ + " inside it"@,
        State::news_words(News::NoMatch { needle }, words) == "nothing here matches "@ + needle,
{
}

/// With marks, the disk's section offers the review of as many, and what they
/// free.
pub proof fn the_review_button_counts_the_marks(s: State, reclaiming: u64, words: Words)
    ensures
        shows(
            s.review_button(reclaiming, words),
            render::key_attr("c"@) + "><span class=\"flex-1 ellipsis\">Review "@ + text::decimal(
                s.marks.len(),
            ) + " marked · frees "@ + words::worded(words.bytes@, reclaiming),
        ),
{
    lemma_shows();
    let event = render::key_attr("c"@);
    let count = text::decimal(s.marks.len());
    let size = words.size(reclaiming);
    lemma_tail_of_five(
        "<button class=\"review-btn\" "@,
        event,
        "><span class=\"flex-1 ellipsis\">Review "@,
        count,
        " marked · frees "@,
        size,
    );
}

/// The disk's section shows what is free, what it comes to, and the meter; the
/// review only once something is marked.
pub proof fn the_disk_shows_what_is_free(s: State, plan: Plan, words: Words, space: SpaceInfo)
    requires
        s.space == Some(space),
    ensures
        ({
            let page = s.disk_section(plan, words);
            let free = size_parts(words::worded(words.bytes@, space.available));
            &&& shows(page, free.0 + "</span><span class=\"unit\">"@ + free.1)
            &&& plan.bytes > 0 ==> shows(
                page,
                "<span class=\"projection\">→ "@ + words.after(plan.bytes) + " free</span>"@,
            )
            &&& shows(
                page,
                words.left(plan.bytes) + "%\"></span><span class=\"back\" style=\"left:"@
                    + words.left(plan.bytes) + "%;width:"@ + words.back(plan.bytes),
            )
            &&& shows(
                page,
                words.used(plan.bytes) + " used</span><span>"@ + words::worded(
                    words.bytes@,
                    space.total,
                ),
            )
            &&& s.marks.len() > 0 ==> shows(page, s.review_button(plan.bytes, words))
        }),
{
    reveal(State::disk_section);
    let device = render::escaped(
        match s.device {
            Some(device) => device,
            None => ""@,
        },
    );
    lemma_shows();
    let (number, unit) = size_parts(words.size(space.available));
    let projection = if plan.bytes > 0 {
        "<span class=\"projection\">→ "@ + words.after(plan.bytes)
            + " free</span>"@
    } else {
        ""@
    };
    let left = words.left(plan.bytes);
    let back = words.back(plan.bytes);
    let used = words.used(plan.bytes);
    let total = words.size(space.total);
    lemma_tail_of_three(
        "<div class=\"section\"><div class=\"section-head\"><span class=\"eyebrow\">Disk"@
            + "</span><span class=\"caption faint\">"@ + device
            + "</span></div><div class=\"free-row\"><span class=\"big\">"@,
        number,
        "</span><span class=\"unit\">"@,
        unit,
    );
    lemma_tail_of_five(
        "<div class=\"section\"><div class=\"section-head\"><span class=\"eyebrow\">Disk"@
            + "</span><span class=\"caption faint\">"@ + device
            + "</span></div><div class=\"free-row\"><span class=\"big\">"@ + number
            + "</span><span class=\"unit\">"@ + unit
            + " free</span><span class=\"flex-1\"></span>"@ + projection
            + "</div><div class=\"meter\"><span class=\"used\" style=\"width:"@,
        left,
        "%\"></span><span class=\"back\" style=\"left:"@,
        left,
        "%;width:"@,
        back,
    );
    lemma_tail_of_three(
        "<div class=\"section\"><div class=\"section-head\"><span class=\"eyebrow\">Disk"@
            + "</span><span class=\"caption faint\">"@ + device
            + "</span></div><div class=\"free-row\"><span class=\"big\">"@ + number
            + "</span><span class=\"unit\">"@ + unit
            + " free</span><span class=\"flex-1\"></span>"@ + projection
            + "</div><div class=\"meter\"><span class=\"used\" style=\"width:"@ + left
            + "%\"></span><span class=\"back\" style=\"left:"@ + left + "%;width:"@ + back
            + "%\"></span></div><div class=\"caption dim spread\"><span>"@,
        used,
        " used</span><span>"@,
        total,
    );
}

/// The panel has its five parts.
pub proof fn the_panel_has_its_parts(s: State, plan: Plan, now: i64, words: Words, palette: Palette)
    ensures
        ({
            let page = s.side_panel(plan, now, words, palette);
            &&& shows(page, s.selection_section(now, words, palette))
            &&& shows(page, s.worth_section(words, palette))
            &&& shows(page, s.marked_section(plan, words, palette))
            &&& shows(page, s.notice_line(words))
            &&& shows(page, s.disk_section(plan, words))
        }),
{
    reveal(State::side_panel);
    lemma_shows();
}

} // verus!
