//! A page spells only what is listed: with a row for each figure of
//! [`crate::app::Web::spellings`], nothing on it is left blank.

use crate::app::{News, Screen, State, Tile};
use crate::marks::Plan;
use crate::mosaic;
use crate::mosaic::{Canvas, Drawn};
use crate::navigation;
use crate::palette::Palette;
use crate::panel;
use crate::render::Page;
use crate::review;
use crate::spelling::Fig;
use crate::tree::Node;
use crate::words;
use crate::words::{Words, Worded};
use vstd::prelude::*;

verus! {

/// Two tables spell a figure alike.
pub open spec fn alike(a: Words, b: Words, fig: Fig) -> bool {
    match fig {
        Fig::Number(value) => a.size(value) == b.size(value) && a.brief(value) == b.brief(value)
            && a.count(value) == b.count(value),
        Fig::Path(path) => a.place(path) == b.place(path),
        Fig::Share(part, total) => a.percent(part, total) == b.percent(part, total) && a.bar(
            part,
            total,
        ) == b.bar(part, total) && a.lane(part, total) == b.lane(part, total) && a.width(
            part,
            total,
        ) == b.width(part, total) && a.exact(part, total) == b.exact(part, total),
        Fig::Meter(reclaiming) => a.left(reclaiming) == b.left(reclaiming) && a.back(reclaiming)
            == b.back(reclaiming) && a.used(reclaiming) == b.used(reclaiming) && a.after(reclaiming)
            == b.after(reclaiming),
    }
}

/// Two tables spell every figure of a list alike.
pub open spec fn all_alike(a: Words, b: Words, figs: Seq<Fig>) -> bool {
    forall|i: int| 0 <= i < figs.len() ==> alike(a, b, #[trigger] figs[i])
}

/// Two tables have the same words that are not looked up.
pub open spec fn same_captions(a: Words, b: Words) -> bool {
    &&& a.legend == b.legend
    &&& a.metric == b.metric
    &&& a.estimate == b.estimate
    &&& a.progress == b.progress
    &&& a.zoom == b.zoom
    &&& a.panel == b.panel
    &&& a.anchor == b.anchor
    &&& a.checkout == b.checkout
}

proof fn lemma_split(a: Words, b: Words, x: Seq<Fig>, y: Seq<Fig>)
    requires
        all_alike(a, b, x + y),
    ensures
        all_alike(a, b, x),
        all_alike(a, b, y),
{
    assert forall|i: int| 0 <= i < x.len() implies alike(a, b, #[trigger] x[i]) by {
        assert((x + y)[i] == x[i]);
    }
    assert forall|i: int| 0 <= i < y.len() implies alike(a, b, #[trigger] y[i]) by {
        assert((x + y)[x.len() + i] == y[i]);
    }
}

/// The tables agree on every part of what a page spells.
spec fn agree(s: State, plan: Plan, a: Words, b: Words) -> bool {
    &&& same_captions(a, b)
    &&& all_alike(a, b, s.page_figs(plan))
    &&& all_alike(a, b, s.scan_figs())
    &&& all_alike(a, b, s.match_figs())
    &&& all_alike(a, b, s.target_figs())
    &&& all_alike(a, b, s.worth_figs())
    &&& all_alike(a, b, s.mark_figs(s.marks.len() as int))
    &&& all_alike(a, b, s.notice_figs())
    &&& all_alike(a, b, s.space_figs(plan))
    &&& all_alike(a, b, s.menu_figs())
    &&& all_alike(a, b, s.history_figs(true))
    &&& all_alike(a, b, s.history_figs(false))
    &&& all_alike(a, b, s.layout_figs())
}

proof fn lemma_agree(s: State, plan: Plan, a: Words, b: Words)
    requires
        same_captions(a, b),
        all_alike(a, b, s.spellings(plan)),
    ensures
        agree(s, plan, a, b),
{
    let l1 = s.page_figs(plan);
    let l2 = l1 + s.scan_figs();
    let l3 = l2 + s.match_figs();
    let l4 = l3 + s.target_figs();
    let l5 = l4 + s.worth_figs();
    let l6 = l5 + s.mark_figs(s.marks.len() as int);
    let l7 = l6 + s.notice_figs();
    let l8 = l7 + s.space_figs(plan);
    let l9 = l8 + s.menu_figs();
    let l10 = l9 + s.history_figs(true);
    let l11 = l10 + s.history_figs(false);
    lemma_split(a, b, l11, s.layout_figs());
    lemma_split(a, b, l10, s.history_figs(false));
    lemma_split(a, b, l9, s.history_figs(true));
    lemma_split(a, b, l8, s.menu_figs());
    lemma_split(a, b, l7, s.space_figs(plan));
    lemma_split(a, b, l6, s.notice_figs());
    lemma_split(a, b, l5, s.mark_figs(s.marks.len() as int));
    lemma_split(a, b, l4, s.worth_figs());
    lemma_split(a, b, l3, s.target_figs());
    lemma_split(a, b, l2, s.match_figs());
    lemma_split(a, b, l1, s.scan_figs());
}

proof fn lemma_node(node: Node, total: u64, a: Words, b: Words)
    requires
        all_alike(a, b, State::node_figs(node, total)),
    ensures
        a.size(node.bytes) == b.size(node.bytes),
        a.brief(node.bytes) == b.brief(node.bytes),
        a.count(node.files) == b.count(node.files),
        mosaic::meta(node, a) == mosaic::meta(node, b),
        alike(a, b, Fig::Share(node.bytes, total)),
{
    let figs = State::node_figs(node, total);
    assert(figs[0] == Fig::Number(node.bytes));
    assert(figs[1] == Fig::Number(node.files));
    assert(figs[2] == Fig::Number(mosaic::dirs_below(node)));
    assert(figs[3] == Fig::Number(node.own_bytes));
    assert(figs[4] == Fig::Share(node.bytes, total));
}

proof fn lemma_path(s: State, crumbs: Seq<usize>, a: Words, b: Words)
    requires
        all_alike(a, b, s.path_figs(crumbs)),
    ensures
        s.place_at(crumbs, a) == s.place_at(crumbs, b),
        s.path_at(crumbs) matches Some(path) ==> a.place(path) == b.place(path),
{
    if let Some(path) = s.path_at(crumbs) {
        assert(s.path_figs(crumbs)[0] == Fig::Path(path));
    }
}

proof fn lemma_card(s: State, crumbs: Seq<usize>, a: Words, b: Words)
    requires
        all_alike(a, b, s.card_figs(crumbs)),
    ensures
        s.path_at(crumbs) matches Some(path) ==> a.place(path) == b.place(path),
        s.node_at(crumbs) matches Some(node) ==> {
            &&& s.tip(node, crumbs, a) == s.tip(node, crumbs, b)
            &&& a.brief(node.bytes) == b.brief(node.bytes)
            &&& a.count(node.files) == b.count(node.files)
        },
        forall|keys: Seq<char>| s.node_tip_data(crumbs, keys, a) == s.node_tip_data(crumbs, keys, b),
{
    if let Some(node) = s.node_at(crumbs) {
        lemma_split(
            a,
            b,
            s.path_figs(crumbs),
            State::node_figs(node, s.parent_bytes(crumbs)),
        );
        lemma_path(s, crumbs, a, b);
        lemma_node(node, s.parent_bytes(crumbs), a, b);
    } else {
        lemma_split(a, b, s.path_figs(crumbs), Seq::empty());
        lemma_path(s, crumbs, a, b);
    }
}

proof fn lemma_tile(
    s: State,
    at: int,
    tile: Tile,
    drawn: Drawn,
    a: Words,
    b: Words,
    palette: Palette,
)
    requires
        all_alike(a, b, s.card_figs(tile.crumbs@)),
    ensures
        s.tile_markup(tile, drawn, a, palette) == s.tile_markup(tile, drawn, b, palette),
        s.label(at, tile, drawn, a) == s.label(at, tile, drawn, b),
{
    lemma_card(s, tile.crumbs@, a, b);
    assert(s.tile_tip(tile, a) == s.tile_tip(tile, b));
}

proof fn lemma_tiles(
    s: State,
    tiles: Seq<Tile>,
    drawn: Seq<Drawn>,
    a: Words,
    b: Words,
    palette: Palette,
    count: int,
)
    requires
        all_alike(a, b, s.tile_figs(tiles, count)),
    ensures
        s.tiles_markup(tiles, drawn, a, palette, count) == s.tiles_markup(
            tiles,
            drawn,
            b,
            palette,
            count,
        ),
        s.labels(tiles, drawn, a, count) == s.labels(tiles, drawn, b, count),
    decreases count,
{
    if count > 0 {
        lemma_split(
            a,
            b,
            s.tile_figs(tiles, count - 1),
            s.card_figs(tiles[count - 1].crumbs@),
        );
        lemma_tiles(s, tiles, drawn, a, b, palette, count - 1);
        lemma_tile(s, count - 1, tiles[count - 1], drawn[count - 1], a, b, palette);
    }
}

proof fn lemma_mosaic(s: State, plan: Plan, canvas: Canvas, a: Words, b: Words, palette: Palette)
    requires
        agree(s, plan, a, b),
    ensures
        s.mosaic(canvas, a, palette) == s.mosaic(canvas, b, palette),
{
    reveal(State::mosaic);
    if let Some((_, tiles)) = s.cache {
        lemma_tiles(s, tiles, canvas.tiles@, a, b, palette, tiles.len() as int);
    }
}

proof fn lemma_menu_rows(s: State, node: Node, a: Words, b: Words, palette: Palette, count: int)
    requires
        all_alike(a, b, s.row_figs(node, count)),
    ensures
        s.menu_rows(node, a, palette, count) == s.menu_rows(node, b, palette, count),
    decreases count,
{
    if count > 0 {
        let rows = navigation::listed(node, s.options.metric);
        let measure = node.children@[rows[count - 1] as int].measure(s.options.metric);
        let largest = crate::explore::largest_of(
            Some(node.children@[rows[0] as int].measure(s.options.metric)),
        );
        let last = seq![Fig::Number(measure), Fig::Share(measure, largest)];
        lemma_split(a, b, s.row_figs(node, count - 1), last);
        lemma_menu_rows(s, node, a, b, palette, count - 1);
        assert(last[0] == Fig::Number(measure));
        assert(last[1] == Fig::Share(measure, largest));
        assert(s.menu_value(measure, a) == s.menu_value(measure, b));
    }
}

proof fn lemma_menu(s: State, plan: Plan, a: Words, b: Words, palette: Palette)
    requires
        agree(s, plan, a, b),
    ensures
        s.trail(a, palette) == s.trail(b, palette),
{
    reveal(State::trail);
    reveal(State::crumb_menu_layer);
    assert(s.page_figs(plan)[0] == Fig::Path(s.root_path));
    if let Some(menu) = s.crumb_menu {
        if let Some(node) = s.node_at(menu.parent) {
            let count = navigation::listed(node, s.options.metric).len() as int;
            lemma_menu_rows(s, node, a, b, palette, count);
        }
        assert(s.menu_title(menu.parent, a) == s.menu_title(menu.parent, b));
        assert(s.menu_body(menu.parent, a, palette) == s.menu_body(menu.parent, b, palette));
    }
}

proof fn lemma_history(
    s: State,
    back: bool,
    name: Seq<char>,
    keys: Seq<char>,
    arrow: Seq<char>,
    label: Seq<char>,
    a: Words,
    b: Words,
)
    requires
        all_alike(a, b, s.history_figs(back)),
    ensures
        s.history_button(s.history_target(back), name, keys, arrow, label, a) == s.history_button(
            s.history_target(back),
            name,
            keys,
            arrow,
            label,
            b,
        ),
{
    let target = s.history_target(back);
    if let Some(crumbs) = target {
        lemma_card(s, crumbs, a, b);
        assert(s.node_tip_data(crumbs, keys, a) == s.node_tip_data(crumbs, keys, b));
    }
    assert(s.history_tip(target, name, keys, a) == s.history_tip(target, name, keys, b));
    assert(s.history_hint(target, name, keys, a) == s.history_hint(target, name, keys, b));
}

proof fn lemma_top_bar(s: State, plan: Plan, a: Words, b: Words, palette: Palette)
    requires
        agree(s, plan, a, b),
    ensures
        s.top_bar(a, palette) == s.top_bar(b, palette),
{
    reveal(State::top_bar);
    lemma_menu(s, plan, a, b, palette);
    lemma_settings(s, plan, a, b);
}

proof fn lemma_settings(s: State, plan: Plan, a: Words, b: Words)
    requires
        agree(s, plan, a, b),
    ensures
        s.view_settings(a) == s.view_settings(b),
{
    reveal(State::view_settings);
    lemma_history(s, true, "Back"@, "alt ← back"@, "left"@, "‹"@, a, b);
    lemma_history(s, false, "Forward"@, "alt → forward"@, "right"@, "›"@, a, b);
}

proof fn lemma_scan(s: State, plan: Plan, a: Words, b: Words)
    requires
        agree(s, plan, a, b),
    ensures
        s.scan_totals(a) == s.scan_totals(b),
        s.key_bar(a) == s.key_bar(b),
        s.scanning_panel(a) == s.scanning_panel(b),
        a.count(s.progress.files) == b.count(s.progress.files),
{
    let figs = s.scan_figs();
    let (bytes, files, dirs) = s.totals();
    assert(figs[0] == Fig::Number(bytes));
    assert(figs[1] == Fig::Number(files));
    assert(figs[2] == Fig::Number(dirs));
    assert(figs[3] == Fig::Number(s.progress.bytes));
    assert(figs[4] == Fig::Number(s.progress.files));
    assert(figs[5] == Fig::Number(s.progress.dirs));
    assert(figs[6] == Fig::Number(s.progress.errors));
    assert(s.page_figs(plan)[0] == Fig::Path(s.root_path));
    reveal(State::scan_totals);
    reveal(State::key_bar);
    reveal(State::scanning_panel);
    assert(s.scan_line(a) == s.scan_line(b));
}

proof fn lemma_legend(s: State, a: Words, b: Words, palette: Palette)
    requires
        same_captions(a, b),
    ensures
        s.legend(a, palette) == s.legend(b, palette),
{
    reveal(State::legend);
}

proof fn lemma_totals_row(s: State, plan: Plan, a: Words, b: Words, palette: Palette)
    requires
        agree(s, plan, a, b),
    ensures
        s.trail_and_legend(a, palette) == s.trail_and_legend(b, palette),
{
    reveal(State::trail_and_legend);
    reveal(State::find_field);
    lemma_scan(s, plan, a, b);
    lemma_legend(s, a, b, palette);
    if let Some(matches) = s.matches {
        assert(s.match_figs()[0] == Fig::Number(matches.count as u64));
        assert(s.match_figs()[1] == Fig::Number(matches.bytes));
    }
    assert(s.find_summary(a) == s.find_summary(b));
}

proof fn lemma_selection(s: State, plan: Plan, now: i64, a: Words, b: Words, palette: Palette)
    requires
        agree(s, plan, a, b),
    ensures
        s.selection_section(now, a, palette) == s.selection_section(now, b, palette),
{
    reveal(State::selection_section);
    if let Some(node) = s.node_at(s.target()) {
        lemma_split(a, b, s.path_figs(s.target()), State::node_figs(node, s.root_bytes()));
        lemma_path(s, s.target(), a, b);
        lemma_node(node, s.root_bytes(), a, b);
        assert(s.identity(node, a, palette) == s.identity(node, b, palette));
        assert(s.measure_parts(node, a) == s.measure_parts(node, b));
        assert(s.measure(node, a) == s.measure(node, b));
        assert(s.fourth_figure(node, a) == s.fourth_figure(node, b));
        assert(s.figures(node, now, a) == s.figures(node, now, b));
    }
}

proof fn lemma_insights(s: State, a: Words, b: Words, palette: Palette, count: int)
    requires
        all_alike(a, b, s.insight_figs(count)),
    ensures
        s.insight_rows(a, palette, count) == s.insight_rows(b, palette, count),
    decreases count,
{
    if count > 0 {
        let bytes = s.insights[count - 1].bytes;
        let last = seq![Fig::Number(bytes), Fig::Share(bytes, s.insights[0].bytes)];
        lemma_split(a, b, s.insight_figs(count - 1), last);
        lemma_insights(s, a, b, palette, count - 1);
        assert(last[0] == Fig::Number(bytes));
        assert(last[1] == Fig::Share(bytes, s.insights[0].bytes));
    }
}

proof fn lemma_worth(s: State, plan: Plan, a: Words, b: Words, palette: Palette)
    requires
        agree(s, plan, a, b),
        s.worth_total() <= u64::MAX,
    ensures
        s.worth_section(a, palette) == s.worth_section(b, palette),
{
    reveal(State::worth_section);
    let all = s.insight_figs(s.insights.len() as int);
    let total = seq![Fig::Number(s.worth_total() as u64)];
    lemma_split(a, b, all, total);
    lemma_insights(s, a, b, palette, s.insights.len() as int);
    assert(total[0] == Fig::Number(s.worth_total() as u64));
}

/// The figures of some marks are among those of more.
proof fn lemma_some_marks(s: State, a: Words, b: Words, some: int, all: int)
    requires
        some <= all,
        all_alike(a, b, s.mark_figs(all)),
    ensures
        all_alike(a, b, s.mark_figs(some)),
    decreases all - some,
{
    if some < all {
        if all > 0 {
            let mark = s.marks[all - 1];
            lemma_split(
                a,
                b,
                s.mark_figs(all - 1),
                seq![
                    Fig::Path(mark.path),
                    Fig::Number(mark.bytes),
                    Fig::Share(mark.bytes, s.root_bytes()),
                ],
            );
            lemma_some_marks(s, a, b, some, all - 1);
        }
    }
}

proof fn lemma_mark(s: State, a: Words, b: Words, count: int)
    requires
        count > 0,
        all_alike(a, b, s.mark_figs(count)),
    ensures
        all_alike(a, b, s.mark_figs(count - 1)),
        alike(a, b, Fig::Path(s.marks[count - 1].path)),
        alike(a, b, Fig::Number(s.marks[count - 1].bytes)),
        alike(a, b, Fig::Share(s.marks[count - 1].bytes, s.root_bytes())),
{
    let mark = s.marks[count - 1];
    let last = seq![
        Fig::Path(mark.path),
        Fig::Number(mark.bytes),
        Fig::Share(mark.bytes, s.root_bytes()),
    ];
    lemma_split(a, b, s.mark_figs(count - 1), last);
    assert(last[0] == Fig::Path(mark.path));
    assert(last[1] == Fig::Number(mark.bytes));
    assert(last[2] == Fig::Share(mark.bytes, s.root_bytes()));
}

proof fn lemma_marked_rows(s: State, a: Words, b: Words, palette: Palette, count: int)
    requires
        all_alike(a, b, s.mark_figs(count)),
    ensures
        s.marked_rows(a, palette, count) == s.marked_rows(b, palette, count),
    decreases count,
{
    if count > 0 {
        lemma_mark(s, a, b, count);
        lemma_marked_rows(s, a, b, palette, count - 1);
    }
}

proof fn lemma_marked(s: State, plan: Plan, a: Words, b: Words, palette: Palette)
    requires
        agree(s, plan, a, b),
    ensures
        s.marked_section(plan, a, palette) == s.marked_section(plan, b, palette),
{
    reveal(State::marked_section);
    let many = s.marks.len() as int;
    let shown = if many > panel::MARKED_ROWS {
        panel::MARKED_ROWS as int
    } else {
        many
    };
    lemma_some_marks(s, a, b, shown, many);
    lemma_marked_rows(s, a, b, palette, shown);
    assert(s.page_figs(plan)[2] == Fig::Number(plan.bytes));
}

proof fn lemma_notice(s: State, plan: Plan, a: Words, b: Words)
    requires
        agree(s, plan, a, b),
    ensures
        s.notice_line(a) == s.notice_line(b),
{
    reveal(State::notice_line);
    match s.notice {
        Some(News::GoesWith { path, ancestor }) => {
            assert(s.notice_figs()[0] == Fig::Path(path));
            assert(s.notice_figs()[1] == Fig::Path(ancestor));
        },
        Some(News::Covers { path, .. }) => {
            assert(s.notice_figs()[0] == Fig::Path(path));
        },
        _ => {},
    }
}

proof fn lemma_space(s: State, plan: Plan, a: Words, b: Words)
    requires
        agree(s, plan, a, b),
    ensures
        s.space matches Some(space) ==> {
            &&& a.size(space.available) == b.size(space.available)
            &&& a.size(space.total) == b.size(space.total)
            &&& alike(a, b, Fig::Meter(plan.bytes))
            &&& alike(a, b, Fig::Meter(0))
            &&& review::space_markup(space, plan.bytes, a) == review::space_markup(
                space,
                plan.bytes,
                b,
            )
        },
        s.space_now(a) == s.space_now(b),
        s.measured(a) == s.measured(b),
{
    if let Some(space) = s.space {
        let figs = s.space_figs(plan);
        assert(figs[0] == Fig::Number(space.available));
        assert(figs[1] == Fig::Number(space.total));
        assert(figs[2] == Fig::Meter(plan.bytes));
        assert(figs[3] == Fig::Meter(0));
        if let Some(before) = s.space_baseline {
            let apart = if space.available >= before.available {
                (space.available - before.available) as u64
            } else {
                (before.available - space.available) as u64
            };
            assert(figs[4] == Fig::Number(apart));
        }
    }
}

proof fn lemma_disk(s: State, plan: Plan, a: Words, b: Words)
    requires
        agree(s, plan, a, b),
    ensures
        s.disk_section(plan, a) == s.disk_section(plan, b),
{
    reveal(State::disk_section);
    lemma_space(s, plan, a, b);
    assert(s.page_figs(plan)[2] == Fig::Number(plan.bytes));
    assert(s.review_button(plan.bytes, a) == s.review_button(plan.bytes, b));
}

proof fn lemma_panel(s: State, plan: Plan, now: i64, a: Words, b: Words, palette: Palette)
    requires
        agree(s, plan, a, b),
        s.worth_total() <= u64::MAX,
    ensures
        s.side_panel(plan, now, a, palette) == s.side_panel(plan, now, b, palette),
{
    reveal(State::side_panel);
    lemma_selection(s, plan, now, a, b, palette);
    lemma_worth(s, plan, a, b, palette);
    lemma_marked(s, plan, a, b, palette);
    lemma_notice(s, plan, a, b);
    lemma_disk(s, plan, a, b);
}

proof fn lemma_explore(
    s: State,
    canvas: Canvas,
    plan: Plan,
    now: i64,
    a: Words,
    b: Words,
    palette: Palette,
)
    requires
        agree(s, plan, a, b),
        s.show_selection ==> s.worth_total() <= u64::MAX,
    ensures
        s.explore(canvas, plan, now, a, palette) == s.explore(canvas, plan, now, b, palette),
{
    reveal(State::explore);
    lemma_top_bar(s, plan, a, b, palette);
    lemma_totals_row(s, plan, a, b, palette);
    lemma_scan(s, plan, a, b);
    lemma_mosaic(s, plan, canvas, a, b, palette);
    if s.show_selection {
        lemma_panel(s, plan, now, a, b, palette);
    }
}

proof fn lemma_mark_rows(s: State, plan: Plan, a: Words, b: Words, count: int)
    requires
        all_alike(a, b, s.mark_figs(count)),
    ensures
        s.mark_rows(plan, a, count) == s.mark_rows(plan, b, count),
    decreases count,
{
    if count > 0 {
        lemma_mark(s, a, b, count);
        lemma_mark_rows(s, plan, a, b, count - 1);
    }
}

proof fn lemma_mark_list(s: State, plan: Plan, a: Words, b: Words)
    requires
        agree(s, plan, a, b),
    ensures
        s.mark_list(plan, a) == s.mark_list(plan, b),
{
    reveal(State::mark_list);
    let many = s.marks.len();
    let shown = review::capped(many, review::LIST_LIMIT);
    lemma_some_marks(s, a, b, shown, many as int);
    lemma_mark_rows(s, plan, a, b, shown);
}

proof fn lemma_review_summary(s: State, plan: Plan, a: Words, b: Words)
    requires
        agree(s, plan, a, b),
    ensures
        s.review_summary(plan, a) == s.review_summary(plan, b),
        s.review_footer(a) == s.review_footer(b),
        a.size(plan.bytes) == b.size(plan.bytes),
{
    reveal(State::review_summary);
    assert(s.page_figs(plan)[2] == Fig::Number(plan.bytes));
    lemma_space(s, plan, a, b);
}

proof fn lemma_review(s: State, plan: Plan, a: Words, b: Words)
    requires
        agree(s, plan, a, b),
    ensures
        s.review(plan, a) == s.review(plan, b),
{
    reveal(State::review);
    lemma_mark_list(s, plan, a, b);
    lemma_review_summary(s, plan, a, b);
}

proof fn lemma_running(s: State, plan: Plan, a: Words, b: Words)
    requires
        agree(s, plan, a, b),
    ensures
        s.running(a) == s.running(b),
{
    reveal(State::running);
    assert(s.page_figs(plan)[3] == Fig::Number(s.run_summary.bytes));
    lemma_space(s, plan, a, b);
}

proof fn lemma_done(s: State, plan: Plan, a: Words, b: Words)
    requires
        agree(s, plan, a, b),
    ensures
        s.done(a) == s.done(b),
{
    reveal(State::done);
    assert(s.page_figs(plan)[3] == Fig::Number(s.run_summary.bytes));
    lemma_space(s, plan, a, b);
    lemma_scan(s, plan, a, b);
}

proof fn lemma_help(s: State, a: Words, b: Words)
    requires
        same_captions(a, b),
    ensures
        s.help_overlay(a) == s.help_overlay(b),
{
    reveal(State::help_overlay);
}

/// A page shows nothing of its tables but the spellings of what is listed:
/// two that agree on those give the same frame.
pub proof fn a_page_spells_only_what_is_listed(s: State, page: Page, words: Words)
    requires
        s.screen == Screen::Explore && s.show_selection ==> s.worth_total() <= u64::MAX,
        same_captions(page.words, words),
        all_alike(page.words, words, s.spellings(page.plan)),
    ensures
        s.frame(page) == s.frame(Page { words, ..page }),
{
    let a = page.words;
    let plan = page.plan;
    lemma_agree(s, plan, a, words);
    reveal(State::frame);
    match s.screen {
        Screen::Explore => lemma_explore(s, page.canvas, plan, page.now, a, words, page.palette),
        Screen::Review => lemma_review(s, plan, a, words),
        Screen::Running => lemma_running(s, plan, a, words),
        Screen::Done => lemma_done(s, plan, a, words),
    }
    lemma_help(s, a, words);
    assert(s.page_figs(plan)[1] == Fig::Path(s.current_path()));
    assert(s.page_figs(plan)[2] == Fig::Number(plan.bytes));
}

/// A page that can be drawn leaves nothing blank: whatever it spells is
/// written out by a row of its own.
pub proof fn a_drawn_page_leaves_nothing_blank(s: State, page: Page)
    requires
        s.drawable(page),
    ensures
        forall|i: int|
            0 <= i < s.spellings(page.plan).len() ==> written(
                page.words,
                #[trigger] s.spellings(page.plan)[i],
            ),
{
    assert forall|i: int| 0 <= i < s.spellings(page.plan).len() implies written(
        page.words,
        #[trigger] s.spellings(page.plan)[i],
    ) by {
        what_has_a_row_is_written(page.words, s.spellings(page.plan)[i]);
    }
}

/// The mosaic alone shows nothing of its tables but what is listed either.
pub proof fn a_mosaic_spells_only_what_is_listed(
    s: State,
    plan: Plan,
    canvas: Canvas,
    a: Words,
    b: Words,
    palette: Palette,
)
    requires
        same_captions(a, b),
        all_alike(a, b, s.spellings(plan)),
    ensures
        s.mosaic(canvas, a, palette) == s.mosaic(canvas, b, palette),
{
    lemma_agree(s, plan, a, b);
    lemma_mosaic(s, plan, canvas, a, b, palette);
}

/// A number with a row is spelled by one of its rows.
proof fn lemma_row(rows: Seq<Worded>, value: u64)
    requires
        exists|i: int| 0 <= i < rows.len() && (#[trigger] rows[i]).value == value,
    ensures
        exists|i: int|
            0 <= i < rows.len() && (#[trigger] rows[i]).value == value && words::worded(
                rows,
                value,
            ) == rows[i].text@,
    decreases rows.len(),
{
    let last = rows.len() - 1;
    if rows[last].value != value {
        let short = rows.drop_last();
        let k = choose|i: int| 0 <= i < rows.len() && (#[trigger] rows[i]).value == value;
        assert(short[k].value == value);
        lemma_row(short, value);
        let i = choose|i: int|
            0 <= i < short.len() && (#[trigger] short[i]).value == value && words::worded(
                short,
                value,
            ) == short[i].text@;
        assert(rows[i].value == value && words::worded(rows, value) == rows[i].text@);
    } else {
        assert(rows[last].value == value && words::worded(rows, value) == rows[last].text@);
    }
}

/// A path with a row is spelled by one of its rows.
proof fn lemma_path_row(rows: Seq<words::PathText>, path: Seq<u8>)
    requires
        exists|i: int| 0 <= i < rows.len() && (#[trigger] rows[i]).path@ == path,
    ensures
        exists|i: int|
            0 <= i < rows.len() && (#[trigger] rows[i]).path@ == path && words::path_worded(
                rows,
                path,
            ) == rows[i].text@,
    decreases rows.len(),
{
    let last = rows.len() - 1;
    if rows[last].path@ != path {
        let short = rows.drop_last();
        let k = choose|i: int| 0 <= i < rows.len() && (#[trigger] rows[i]).path@ == path;
        assert(short[k].path@ == path);
        lemma_path_row(short, path);
        let i = choose|i: int|
            0 <= i < short.len() && (#[trigger] short[i]).path@ == path && words::path_worded(
                short,
                path,
            ) == short[i].text@;
        assert(rows[i].path@ == path && words::path_worded(rows, path) == rows[i].text@);
    } else {
        assert(rows[last].path@ == path && words::path_worded(rows, path) == rows[last].text@);
    }
}

proof fn lemma_share_row(rows: Seq<words::Share>, part: u64, total: u64)
    requires
        exists|i: int|
            0 <= i < rows.len() && (#[trigger] rows[i]).part == part && rows[i].total == total,
    ensures
        words::share_index(rows, part, total) matches Some(at) && 0 <= at < rows.len()
            && rows[at].part == part && rows[at].total == total,
    decreases rows.len(),
{
    let last = rows.len() - 1;
    if !(rows[last].part == part && rows[last].total == total) {
        let short = rows.drop_last();
        let k = choose|i: int|
            0 <= i < rows.len() && (#[trigger] rows[i]).part == part && rows[i].total == total;
        assert(short[k].part == part && short[k].total == total);
        lemma_share_row(short, part, total);
    }
}

proof fn lemma_meter_row(rows: Seq<words::Meter>, reclaiming: u64)
    requires
        exists|i: int| 0 <= i < rows.len() && (#[trigger] rows[i]).reclaiming == reclaiming,
    ensures
        words::meter_index(rows, reclaiming) matches Some(at) && 0 <= at < rows.len()
            && rows[at].reclaiming == reclaiming,
    decreases rows.len(),
{
    let last = rows.len() - 1;
    if rows[last].reclaiming != reclaiming {
        let short = rows.drop_last();
        let k = choose|i: int|
            0 <= i < rows.len() && (#[trigger] rows[i]).reclaiming == reclaiming;
        assert(short[k].reclaiming == reclaiming);
        lemma_meter_row(short, reclaiming);
    }
}

/// A figure is written out by a row of its own in every spelling it may take.
pub open spec fn written(words: Words, fig: Fig) -> bool {
    match fig {
        Fig::Number(value) => {
            &&& exists|i: int|
                0 <= i < words.bytes@.len() && (#[trigger] words.bytes@[i]).value == value
                    && words.size(value) == words.bytes@[i].text@
            &&& exists|i: int|
                0 <= i < words.short@.len() && (#[trigger] words.short@[i]).value == value
                    && words.brief(value) == words.short@[i].text@
            &&& exists|i: int|
                0 <= i < words.counts@.len() && (#[trigger] words.counts@[i]).value == value
                    && words.count(value) == words.counts@[i].text@
        },
        Fig::Path(path) => exists|i: int|
            0 <= i < words.paths@.len() && (#[trigger] words.paths@[i]).path@ == path
                && words.place(path) == words.paths@[i].text@,
        Fig::Share(part, total) => exists|i: int|
            {
                &&& 0 <= i < words.shares@.len()
                &&& (#[trigger] words.shares@[i]).part == part
                &&& words.shares@[i].total == total
                &&& words.percent(part, total) == words.shares@[i].percent@
                &&& words.bar(part, total) == words.shares@[i].bar@
                &&& words.lane(part, total) == words.shares@[i].lane@
                &&& words.width(part, total) == words.shares@[i].width@
                &&& words.exact(part, total) == words.shares@[i].exact@
            },
        Fig::Meter(reclaiming) => words.meter(reclaiming) matches Some(meter) && meter.reclaiming
            == reclaiming,
    }
}

/// A table with a row for a figure leaves it nowhere blank: each of its
/// spellings is that of a row of the figure's own.
pub proof fn what_has_a_row_is_written(words: Words, fig: Fig)
    requires
        words.spells(fig),
    ensures
        written(words, fig),
{
    match fig {
        Fig::Number(value) => {
            lemma_row(words.bytes@, value);
            lemma_row(words.short@, value);
            lemma_row(words.counts@, value);
        },
        Fig::Path(path) => {
            lemma_path_row(words.paths@, path);
        },
        Fig::Share(part, total) => {
            lemma_share_row(words.shares@, part, total);
            let at = words::share_index(words.shares@, part, total)->0;
            assert(words.shares@[at].part == part);
        },
        Fig::Meter(reclaiming) => {
            lemma_meter_row(words.meters@, reclaiming);
        },
    }
}

} // verus!
