//! What the pictures show: which decisions a mosaic's tiles, rings and labels
//! come from, and that what is decided is on the page.

use crate::app::{ColorMode, State, Tile};
use crate::mosaic;
use crate::mosaic::{Canvas, Drawn, Keep, Lettered, Lettering};
use crate::palette;
use crate::palette::Palette;
use crate::promises;
use crate::render;
use crate::text;
use crate::tree::{Metric, Node};
use crate::words;
use crate::words::{PathText, Words, Worded};
use vstd::prelude::*;

verus! {

// ── a part of a page ───────────────────────────────────────────────────

/// A page has a part in it.
#[verifier::opaque]
pub open spec fn shows(page: Seq<char>, part: Seq<char>) -> bool {
    text::has(page, part)
}

/// What either half of a page shows, the page shows.
pub(crate) proof fn lemma_shows()
    ensures
        forall|a: Seq<char>, b: Seq<char>, part: Seq<char>|
            shows(a, part) || shows(b, part) ==> #[trigger] shows(a + b, part),
        forall|a: Seq<char>| #[trigger] shows(a, a),
{
    reveal(shows);
    assert forall|a: Seq<char>, b: Seq<char>, part: Seq<char>|
        shows(a, part) || shows(b, part) implies #[trigger] shows(a + b, part) by {
        promises::lemma_part_within(a, b, part);
    }
    assert forall|a: Seq<char>| #[trigger] shows(a, a) by {
        assert(Seq::<char>::empty() + a + Seq::empty() =~= a);
        promises::lemma_part(Seq::empty(), a, Seq::empty());
    }
}

// ── spellings ──────────────────────────────────────────────────────────

/// A number is spelled as its row says, the last one where there are several,
/// and left blank where there is none.
pub proof fn a_number_is_spelled_by_its_row(rows: Seq<Worded>, value: u64, i: int)
    ensures
        0 <= i < rows.len() && rows[i].value == value && (forall|j: int|
            i < j < rows.len() ==> (#[trigger] rows[j]).value != value) ==> words::worded(rows, value)
            == rows[i].text@,
        (forall|j: int| 0 <= j < rows.len() ==> (#[trigger] rows[j]).value != value)
            ==> words::worded(rows, value) == ""@,
    decreases rows.len(),
{
    if rows.len() > 0 {
        let short = rows.drop_last();
        assert(rows.last() == rows[rows.len() - 1]);
        assert(forall|j: int| 0 <= j < short.len() ==> short[j] == #[trigger] rows[j]);
        a_number_is_spelled_by_its_row(short, value, i);
    }
}

/// A path is spelled as its row says.
pub proof fn a_path_is_spelled_by_its_row(rows: Seq<PathText>, path: Seq<u8>, i: int)
    ensures
        0 <= i < rows.len() && rows[i].path@ == path && (forall|j: int|
            i < j < rows.len() ==> (#[trigger] rows[j]).path@ != path) ==> words::path_worded(
            rows,
            path,
        ) == rows[i].text@,
        (forall|j: int| 0 <= j < rows.len() ==> (#[trigger] rows[j]).path@ != path)
            ==> words::path_worded(rows, path) == ""@,
    decreases rows.len(),
{
    if rows.len() > 0 {
        let short = rows.drop_last();
        assert(rows.last() == rows[rows.len() - 1]);
        assert(forall|j: int| 0 <= j < short.len() ==> short[j] == #[trigger] rows[j]);
        a_path_is_spelled_by_its_row(short, path, i);
    }
}

/// A share is spelled as its row says, each spelling in its place.
pub proof fn a_share_is_spelled_by_its_row(words: Words, part: u64, total: u64, i: int)
    requires
        0 <= i < words.shares@.len(),
        words.shares@[i].part == part,
        words.shares@[i].total == total,
        forall|j: int|
            i < j < words.shares@.len() ==> (#[trigger] words.shares@[j]).part != part
                || words.shares@[j].total != total,
    ensures
        words.percent(part, total) == words.shares@[i].percent@,
        words.bar(part, total) == words.shares@[i].bar@,
        words.lane(part, total) == words.shares@[i].lane@,
        words.width(part, total) == words.shares@[i].width@,
        words.exact(part, total) == words.shares@[i].exact@,
{
    lemma_share(words.shares@, part, total, i);
}

proof fn lemma_share(rows: Seq<words::Share>, part: u64, total: u64, i: int)
    requires
        0 <= i < rows.len(),
        rows[i].part == part,
        rows[i].total == total,
        forall|j: int|
            i < j < rows.len() ==> (#[trigger] rows[j]).part != part || rows[j].total != total,
    ensures
        words::share_index(rows, part, total) == Some(i),
    decreases rows.len(),
{
    if i < rows.len() - 1 {
        assert(rows.last() == rows[rows.len() - 1]);
        let short = rows.drop_last();
        assert(forall|j: int| 0 <= j < short.len() ==> short[j] == #[trigger] rows[j]);
        lemma_share(short, part, total, i);
    }
}

/// The volume's meter reads as its row says, each reading in its place.
pub proof fn a_meter_reads_as_its_row(words: Words, reclaiming: u64, i: int)
    requires
        0 <= i < words.meters@.len(),
        words.meters@[i].reclaiming == reclaiming,
        forall|j: int|
            i < j < words.meters@.len() ==> (#[trigger] words.meters@[j]).reclaiming != reclaiming,
    ensures
        words.used(reclaiming) == words.meters@[i].used@,
        words.after(reclaiming) == words.meters@[i].after@,
        words.left(reclaiming) == words.meters@[i].left@,
        words.back(reclaiming) == words.meters@[i].back@,
{
    lemma_meter(words.meters@, reclaiming, i);
}

proof fn lemma_meter(rows: Seq<words::Meter>, reclaiming: u64, i: int)
    requires
        0 <= i < rows.len(),
        rows[i].reclaiming == reclaiming,
        forall|j: int| i < j < rows.len() ==> (#[trigger] rows[j]).reclaiming != reclaiming,
    ensures
        words::meter_index(rows, reclaiming) == Some(i),
    decreases rows.len(),
{
    if i < rows.len() - 1 {
        assert(rows.last() == rows[rows.len() - 1]);
        let short = rows.drop_last();
        assert(forall|j: int| 0 <= j < short.len() ==> short[j] == #[trigger] rows[j]);
        lemma_meter(short, reclaiming, i);
    }
}

// ── ages ───────────────────────────────────────────────────────────────

/// Ages count in whole days, and a time that is still to come is no older than
/// today.
pub proof fn ages_count_whole_days(now: i64, then: i64)
    ensures
        now >= then ==> {
            let days = mosaic::days_between(now, then);
            &&& days * 86_400 <= now - then < (days + 1) * 86_400
        },
        now < then ==> mosaic::days_between(now, then) <= 0,
        mosaic::days_between(then, now) == -mosaic::days_between(now, then),
{
}

/// In age mode a tile is coloured by how long ago it was written: within the
/// week, the month, the half-year, the year, or longer. In the other mode, or
/// with no date, it has no age.
pub proof fn a_tile_is_as_old_as_it_was_written(s: State, node: Node)
    ensures
        ({
            let age = s.age_of(Some(node));
            let apart = s.scanned_at - node.modified;
            let day = 86_400int;
            &&& age is Some <==> s.color_mode == ColorMode::Age && node.modified > 0
            &&& age is Some ==> {
                &&& age->0 == 0 <==> apart < 8 * day
                &&& age->0 == 1 <==> 8 * day <= apart < 31 * day
                &&& age->0 == 2 <==> 31 * day <= apart < 183 * day
                &&& age->0 == 3 <==> 183 * day <= apart < 366 * day
                &&& age->0 == 4 <==> 366 * day <= apart
            }
        }),
        s.age_of(None) is None,
{
    ages_count_whole_days(s.scanned_at, node.modified);
}

/// Each age has its own name.
pub proof fn each_age_has_its_name(bucket: int)
    ensures
        bucket == 0 ==> palette::age_name(bucket) == "This week"@ && palette::age_limit(bucket)
            == 7,
        bucket == 1 ==> palette::age_name(bucket) == "This month"@ && palette::age_limit(bucket)
            == 30,
        bucket == 2 ==> palette::age_name(bucket) == "Six months"@ && palette::age_limit(bucket)
            == 182,
        bucket == 3 ==> palette::age_name(bucket) == "This year"@ && palette::age_limit(bucket)
            == 365,
        bucket == 4 ==> palette::age_name(bucket) == "Older"@,
{
}

// ── tiles ──────────────────────────────────────────────────────────────

/// A tile goes: it is marked, or inside a directory that is.
pub open spec fn goes(s: State, crumbs: Seq<usize>) -> bool {
    s.marked_at(crumbs) || exists|k: int|
        1 <= k < crumbs.len() && s.marked_at(#[trigger] crumbs.take(k))
}

proof fn lemma_goes(s: State, crumbs: Seq<usize>)
    ensures
        goes(s, crumbs) <==> s.marked_at(crumbs) || s.covered_by(crumbs) is Some,
{
    if !s.marked_at(crumbs) {
        if exists|k: int| 1 <= k < crumbs.len() && s.marked_at(#[trigger] crumbs.take(k)) {
            promises::lemma_some_cover(s, crumbs, 1);
        } else {
            promises::lemma_no_cover(s, crumbs, 1);
        }
    }
}

/// What stays is filled by its kind, or its age in age mode; a fill has five
/// depths, and steps back as the find text asks.
pub proof fn what_stays_is_filled_by_what_it_is(
    s: State,
    tile: Tile,
    drawn: Drawn,
    words: Words,
    palette: Palette,
    node: Node,
)
    requires
        !goes(s, tile.crumbs@),
        tile.others is None,
        s.node_at(tile.crumbs@) == Some(node),
    ensures
        ({
            let deep: int = if tile.depth > 4 {
                4
            } else {
                tile.depth as int
            };
            let by_kind = palette.categories@[node.category.place()]@[deep];
            let by_age = palette.ages@[s.age_of(Some(node))->0]@[deep];
            let fills = if s.color_mode == ColorMode::Age && node.modified > 0 {
                by_age
            } else {
                by_kind
            };
            let fill = if s.matches is None || drawn.keep == Keep::Whole {
                fills.shown@
            } else if drawn.keep == Keep::Partial {
                fills.holds@
            } else {
                fills.out@
            };
            text::has(s.tile_markup(tile, drawn, words, palette), promises::filled(fill))
        }),
{
    lemma_goes(s, tile.crumbs@);
    promises::lemma_body_fill(s, tile, drawn, words, palette);
}

/// The small rest of a directory is of no kind and no age.
pub proof fn the_small_rest_is_plain(
    s: State,
    tile: Tile,
    drawn: Drawn,
    words: Words,
    palette: Palette,
)
    requires
        tile.others is Some,
    ensures
        s.tile_node(tile) is None,
        s.tile_tip(tile, words) == ""@,
        s.tile_hatch(tile, drawn) == ""@,
        s.tile_corner(tile, drawn, palette) == ""@,
        s.age_of(s.tile_node(tile)) is None,
        s.tile_category(tile) is Other,
{
}

/// Space that can be reclaimed is hatched, unless it goes anyway or steps back
/// behind a filter.
pub proof fn reclaimable_space_is_hatched(s: State, tile: Tile, drawn: Drawn, node: Node)
    requires
        tile.others is None,
        s.node_at(tile.crumbs@) == Some(node),
    ensures
        ({
            let hatched = node.reclaim is Some && !goes(s, tile.crumbs@) && (s.matches is None
                || drawn.keep == Keep::Whole);
            s.tile_hatch(tile, drawn) == if hatched {
                mosaic::overlay(
                    drawn.spot.x@,
                    drawn.spot.y@,
                    drawn.spot.w@,
                    drawn.spot.h@,
                    "url(#hatch)"@,
                )
            } else {
                ""@
            }
        }),
{
    lemma_goes(s, tile.crumbs@);
}

/// What is on the first level has a strip of its kind, except where ages are
/// shown or a filter hides it.
pub proof fn a_first_level_tile_has_a_strip(
    s: State,
    tile: Tile,
    drawn: Drawn,
    palette: Palette,
    node: Node,
)
    requires
        tile.others is None,
        s.node_at(tile.crumbs@) == Some(node),
    ensures
        ({
            let aged = s.color_mode == ColorMode::Age && node.modified > 0;
            let hidden = s.matches is Some && drawn.keep == Keep::Nothing;
            s.tile_strip(tile, drawn, palette) == if tile.depth == 0 && !aged && !hidden {
                mosaic::overlay(
                    drawn.spot.x@,
                    drawn.spot.y@,
                    drawn.spot.w@,
                    drawn.strip@,
                    palette.accents@[node.category.place()]@,
                )
            } else {
                ""@
            }
        }),
{
}

/// What could not be read has a warning corner where there is room for one.
pub proof fn what_could_not_be_read_is_flagged(
    s: State,
    tile: Tile,
    drawn: Drawn,
    palette: Palette,
    node: Node,
)
    requires
        tile.others is None,
        s.node_at(tile.crumbs@) == Some(node),
    ensures
        s.tile_corner(tile, drawn, palette) == if node.read_error && drawn.roomy {
            mosaic::overlay(
                drawn.corner.0@,
                drawn.corner.1@,
                "4"@,
                "4"@,
                palette.warning@,
            )
        } else {
            ""@
        },
{
}

/// A tile shows its decisions: its class, its tooltip, its place, its hatch,
/// its strip and its corner.
pub proof fn a_tile_shows_its_decisions(
    s: State,
    tile: Tile,
    drawn: Drawn,
    words: Words,
    palette: Palette,
)
    ensures
        ({
            let page = s.tile_markup(tile, drawn, words, palette);
            &&& shows(page, s.tile_tip(tile, words))
            &&& shows(page, s.tile_hatch(tile, drawn))
            &&& shows(page, s.tile_strip(tile, drawn, palette))
            &&& shows(page, s.tile_corner(tile, drawn, palette))
            &&& shows(
                page,
                "><rect class=\"tile-body\" x=\""@ + drawn.spot.x@ + "\" y=\""@ + drawn.spot.y@
                    + "\" width=\""@ + drawn.spot.w@ + "\" height=\""@ + drawn.spot.h@
                    + "\" fill=\""@,
            )
            &&& s.selected == Some(tile.crumbs@) ==> shows(page, "<g class=\""@ + "g-tile sel"@)
            &&& s.selected != Some(tile.crumbs@) && s.marked_at(tile.crumbs@) ==> shows(
                page,
                "<g class=\""@ + "g-tile marked"@,
            )
            &&& s.selected != Some(tile.crumbs@) && !s.marked_at(tile.crumbs@) ==> shows(
                page,
                "<g class=\""@ + "g-tile"@ + "\""@,
            )
        }),
{
    lemma_shows();
    let cover = match s.covered_by(tile.crumbs@) {
        Some(name) => " data-covered=\""@ + render::escaped(name) + "\""@,
        None => ""@,
    };
    let head = "<g class=\""@ + s.tile_class(tile.crumbs@) + "\""@ + s.tile_tip(tile, words) + cover;
    let place = "><rect class=\"tile-body\" x=\""@ + drawn.spot.x@ + "\" y=\""@ + drawn.spot.y@
        + "\" width=\""@ + drawn.spot.w@ + "\" height=\""@ + drawn.spot.h@ + "\" fill=\""@;
    let body = head + "><rect class=\"tile-body\" x=\""@ + drawn.spot.x@ + "\" y=\""@
        + drawn.spot.y@ + "\" width=\""@ + drawn.spot.w@ + "\" height=\""@ + drawn.spot.h@
        + "\" fill=\""@;
    assert(body =~= head + place);
    assert(shows(head + place, place));
}

/// A tooltip tells a directory, a hidden name and a mark.
pub proof fn a_tooltip_tells_what_it_is_of(s: State, tile: Tile, words: Words, node: Node)
    requires
        tile.others is None,
        s.node_at(tile.crumbs@) == Some(node),
    ensures
        ({
            let tip = s.tile_tip(tile, words);
            let hidden = node.name().len() > 0 && node.name()[0] == '.';
            &&& node.dir ==> shows(tip, " data-dir=\"1\""@)
            &&& hidden ==> shows(tip, " data-hidden=\"1\""@)
            &&& s.marked_at(tile.crumbs@) ==> shows(tip, " data-marked=\"1\""@)
            &&& !node.dir && !hidden && !s.marked_at(tile.crumbs@) ==> tip == s.tip(
                node,
                tile.crumbs@,
                words,
            ) + ""@ + ""@ + ""@
            &&& shows(tip, s.tip(node, tile.crumbs@, words))
        }),
{
    lemma_shows();
}

/// A tooltip has its tile's name, place, size, contents and share of what it is
/// in.
pub proof fn a_tooltip_has_the_figures(s: State, node: Node, crumbs: Seq<usize>, words: Words)
    ensures
        ({
            let tip = s.tip(node, crumbs, words);
            let place = match s.path_at(crumbs) {
                Some(path) => words::path_worded(words.paths@, path),
                None => ""@,
            };
            let whole: u64 = match s.node_at(crate::tree::parent_of(crumbs)) {
                Some(above) => above.bytes,
                None => 0,
            };
            &&& shows(tip, " data-name=\""@ + render::escaped(node.name()))
            &&& shows(tip, "\" data-tip-path=\""@ + render::escaped(place))
            &&& shows(
                tip,
                "\" data-size=\""@ + render::escaped(words::worded(words.bytes@, node.bytes)),
            )
            &&& shows(tip, "\" data-meta=\""@ + render::escaped(mosaic::meta(node, words)))
            &&& shows(
                tip,
                "\" data-percent=\""@ + render::escaped(words.percent(node.bytes, whole)),
            )
            &&& shows(tip, "\" data-bar=\""@ + render::escaped(words.bar(node.bytes, whole)))
        }),
{
    lemma_shows();
    let total = s.parent_bytes(crumbs);
    let name = render::escaped(node.name());
    let place = render::escaped(s.place_at(crumbs, words));
    let size = render::escaped(words.size(node.bytes));
    let holds = render::escaped(mosaic::meta(node, words));
    let percent = render::escaped(words.percent(node.bytes, total));
    let bar = render::escaped(words.bar(node.bytes, total));
    let t0 = " data-name=\""@ + name;
    lemma_tail(t0, "\" data-tip-path=\""@, place);
    let t1 = t0 + "\" data-tip-path=\""@ + place;
    lemma_tail(t1, "\" data-size=\""@, size);
    let t2 = t1 + "\" data-size=\""@ + size;
    lemma_tail(t2, "\" data-meta=\""@, holds);
    let t3 = t2 + "\" data-meta=\""@ + holds;
    lemma_tail(t3, "\" data-percent=\""@, percent);
    let t4 = t3 + "\" data-percent=\""@ + percent;
    lemma_tail(t4, "\" data-bar=\""@, bar);
}

/// Two parts one behind the other.
pub(crate) proof fn lemma_tail(head: Seq<char>, a: Seq<char>, b: Seq<char>)
    ensures
        shows(head + a + b, a + b),
{
    lemma_shows();
    assert(head + a + b =~= head + (a + b));
}

/// Three parts one behind the other.
pub(crate) proof fn lemma_tail_of_three(head: Seq<char>, a: Seq<char>, b: Seq<char>, c: Seq<char>)
    ensures
        shows(head + a + b + c, a + b + c),
{
    lemma_shows();
    assert(head + a + b + c =~= head + (a + b + c));
}

/// Four parts one behind the other.
pub(crate) proof fn lemma_tail_of_four(
    head: Seq<char>,
    a: Seq<char>,
    b: Seq<char>,
    c: Seq<char>,
    d: Seq<char>,
)
    ensures
        shows(head + a + b + c + d, a + b + c + d),
{
    lemma_shows();
    assert(head + a + b + c + d =~= head + (a + b + c + d));
}

/// Five parts one behind the other.
pub(crate) proof fn lemma_tail_of_five(
    head: Seq<char>,
    a: Seq<char>,
    b: Seq<char>,
    c: Seq<char>,
    d: Seq<char>,
    e: Seq<char>,
)
    ensures
        shows(head + a + b + c + d + e, a + b + c + d + e),
{
    lemma_shows();
    assert(head + a + b + c + d + e =~= head + (a + b + c + d + e));
}

/// Six parts one behind the other.
pub(crate) proof fn lemma_tail_of_six(
    head: Seq<char>,
    a: Seq<char>,
    b: Seq<char>,
    c: Seq<char>,
    d: Seq<char>,
    e: Seq<char>,
    f: Seq<char>,
)
    ensures
        shows(head + a + b + c + d + e + f, a + b + c + d + e + f),
{
    lemma_shows();
    assert(head + a + b + c + d + e + f =~= head + (a + b + c + d + e + f));
}

/// Seven parts one behind the other.
pub(crate) proof fn lemma_tail_of_seven(
    head: Seq<char>,
    a: Seq<char>,
    b: Seq<char>,
    c: Seq<char>,
    d: Seq<char>,
    e: Seq<char>,
    f: Seq<char>,
    g: Seq<char>,
)
    ensures
        shows(head + a + b + c + d + e + f + g, a + b + c + d + e + f + g),
{
    lemma_shows();
    assert(head + a + b + c + d + e + f + g =~= head + (a + b + c + d + e + f + g));
}

/// What is below a node does not count the node itself.
pub proof fn a_directory_does_not_count_itself(node: Node)
    ensures
        node.dir && node.dirs > 0 ==> mosaic::dirs_below(node) + 1 == node.dirs,
        !node.dir || node.dirs == 0 ==> mosaic::dirs_below(node) == node.dirs,
{
}

/// A node's contents are told by its files, the directories below it and its
/// own bytes.
pub proof fn contents_are_told(node: Node, words: Words)
    ensures
        shows(
            mosaic::meta(node, words),
            words::worded(words.counts@, node.files) + " files · "@ + words::worded(
                words.counts@,
                mosaic::dirs_below(node),
            ),
        ),
        shows(
            mosaic::meta(node, words),
            " dirs · "@ + words::worded(words.bytes@, node.own_bytes) + " direct"@,
        ),
{
    lemma_shows();
    let files = words.count(node.files);
    let dirs = words.count(mosaic::dirs_below(node));
    let own = words.size(node.own_bytes);
    lemma_tail_of_three(files + " files · "@ + dirs, " dirs · "@, own, " direct"@);
}

// ── labels ─────────────────────────────────────────────────────────────

/// A label is made for a tile with room for one, has the name of what the tile
/// draws, and its measure under the metric.
pub proof fn a_label_names_its_tile(s: State, at: int, tile: Tile, drawn: Drawn, words: Words)
    ensures
        ({
            let label = s.label(at, tile, drawn, words);
            let node = s.node_at(tile.crumbs@);
            &&& label is Some <==> drawn.near && drawn.labelled && (tile.others is Some
                || node is Some)
            &&& label is Some ==> label->0.tile == at && label->0.area == drawn.area
                && label->0.depth == tile.depth
            &&& label is Some && tile.others is Some ==> {
                &&& label->0.text == "+"@ + text::decimal(tile.others->0 as nat) + " more"@
                &&& label->0.size_text == ""@
                &&& !label->0.banded && !label->0.marked
                &&& label->0.dim <==> s.matches is Some
            }
            &&& label is Some && tile.others is None ==> {
                &&& label->0.text == node->0.name()
                &&& label->0.banded <==> tile.header is Some
                &&& label->0.dim <==> s.matches is Some && drawn.keep == Keep::Nothing
                &&& s.options.metric == Metric::Bytes ==> label->0.size_text == words::worded(
                    words.short@,
                    node->0.bytes,
                )
                &&& s.options.metric == Metric::Files ==> label->0.size_text == words::worded(
                    words.counts@,
                    node->0.files,
                )
            }
        }),
{
}

proof fn lemma_by_area_keeps(labels: Seq<Lettered>)
    ensures
        mosaic::by_area(labels).len() == labels.len(),
    decreases labels.len(),
{
    if labels.len() > 0 {
        let before = mosaic::by_area(labels.drop_last());
        lemma_by_area_keeps(labels.drop_last());
        mosaic::lemma_area_slot(before, labels.last().area);
    }
}

/// At most a hundred and fifty labels are painted: all of them where there are
/// no more, and else the largest tiles' ones.
pub proof fn the_largest_labels_are_painted(labels: Seq<Lettered>, i: int, j: int)
    requires
        forall|i: int, j: int|
            0 <= i < j < labels.len() ==> (#[trigger] labels[i]).tile < (#[trigger] labels[j]).tile,
    ensures
        labels.len() <= 150 ==> mosaic::painted(labels).to_multiset() == labels.to_multiset(),
        labels.len() > 150 ==> mosaic::painted(labels).len() == 150,
        0 <= i < mosaic::painted(labels).len() && mosaic::painted(labels).len() <= j
            < mosaic::by_area(labels).len() ==> mosaic::painted(labels)[i].area.place()
            >= mosaic::by_area(labels)[j].area.place(),
        0 <= i < j < mosaic::painted(labels).len() ==> mosaic::painted(labels)[i].area.place()
            >= mosaic::painted(labels)[j].area.place(),
        0 <= i < mosaic::painted(labels).len() ==> labels.contains(mosaic::painted(labels)[i]),
{
    broadcast use vstd::seq_lib::group_to_multiset_ensures;

    lemma_by_area_keeps(labels);
    mosaic::larger_tiles_are_named_first(labels);
    let ranked = mosaic::by_area(labels);
    if 0 <= i < mosaic::painted(labels).len() {
        assert(ranked.to_multiset().count(ranked[i]) > 0);
        assert(labels.to_multiset().count(ranked[i]) > 0);
    }
}

/// A label is in the danger colour when what it names goes, quiet when it is
/// filtered out, and stronger on the first level.
pub proof fn a_label_has_its_colour(label: Lettered, palette: Palette)
    ensures
        label.marked ==> mosaic::label_color(label, palette) == palette.danger@,
        !label.marked && label.dim ==> mosaic::label_color(label, palette) == palette.label_dim@,
        !label.marked && !label.dim && label.depth == 0 ==> mosaic::label_color(label, palette)
            == palette.label_top@,
        !label.marked && !label.dim && label.depth > 0 ==> mosaic::label_color(label, palette)
            == palette.label@,
{
}

/// A painted label shows its name in its colour, and its size where there is
/// room: under the name, at the end of the band, or behind the name.
pub proof fn a_painted_label_shows_its_words(
    index: int,
    label: Lettered,
    place: Lettering,
    palette: Palette,
)
    requires
        place.fits,
    ensures
        ({
            let page = mosaic::label_markup(index, label, place, palette);
            let size = render::escaped(label.size_text);
            let sized = label.size_text.len() > 0;
            let stacked = !label.banded && place.tall;
            let ended = label.banded && label.depth == 0;
            &&& shows(page, ">"@ + render::escaped(label.text) + "</text>"@)
            &&& shows(page, "\" font-size=\"12\" fill=\""@ + mosaic::label_color(label, palette))
            &&& label.depth == 0 && label.banded ==> shows(page, " font-weight=\"bold\""@)
            &&& sized && stacked ==> shows(
                page,
                mosaic::size_at(place.x@, place.below@, palette.label_dim@, ""@, size),
            )
            &&& sized && !stacked && ended ==> shows(
                page,
                mosaic::size_at(
                    place.end@,
                    place.baseline@,
                    palette.label_dim@,
                    " text-anchor=\"end\""@,
                    size,
                ),
            )
            &&& sized && !stacked && !ended && place.room ==> shows(
                page,
                mosaic::size_at(place.after@, place.baseline@, palette.label_dim@, ""@, size),
            )
            &&& !sized || (!stacked && !ended && !place.room) ==> mosaic::label_size(
                label,
                place,
                palette,
            ) == ""@
        }),
{
    lemma_shows();
    let clip = text::decimal(index as nat);
    let color = mosaic::label_color(label, palette);
    let weight = if label.depth == 0 && label.banded {
        " font-weight=\"bold\""@
    } else {
        ""@
    };
    let name = render::escaped(label.text);
    let t0 = "<clipPath id=\"clip-"@ + clip + "\"><rect x=\""@ + place.spot.x@ + "\" y=\""@
        + place.spot.y@ + "\" width=\""@ + place.spot.w@ + "\" height=\""@ + place.spot.h@
        + "\"/></clipPath><g clip-path=\"url(#clip-"@ + clip + ")\"><text x=\""@ + place.x@
        + "\" y=\""@ + place.baseline@;
    lemma_tail(t0, "\" font-size=\"12\" fill=\""@, color);
    let t1 = t0 + "\" font-size=\"12\" fill=\""@ + color + "\""@ + weight;
    lemma_tail_of_three(t1, ">"@, name, "</text>"@);
}

// ── the mosaic ─────────────────────────────────────────────────────────

proof fn lemma_tiles_shown(
    s: State,
    tiles: Seq<Tile>,
    drawn: Seq<Drawn>,
    words: Words,
    palette: Palette,
    count: int,
    i: int,
)
    requires
        0 <= i < count,
        drawn[i].near && drawn[i].large,
    ensures
        shows(
            s.tiles_markup(tiles, drawn, words, palette, count),
            s.tile_markup(tiles[i], drawn[i], words, palette),
        ),
    decreases count,
{
    lemma_shows();
    if i < count - 1 {
        lemma_tiles_shown(s, tiles, drawn, words, palette, count - 1, i);
    }
}

proof fn lemma_rings_shown(
    s: State,
    tiles: Seq<Tile>,
    drawn: Seq<Drawn>,
    rank: int,
    color: Seq<char>,
    count: int,
    i: int,
)
    requires
        0 <= i < count,
        drawn[i].near && drawn[i].large,
        s.ring_rank(tiles[i].crumbs@) == rank,
    ensures
        shows(s.rings(tiles, drawn, rank, color, count), mosaic::ring(drawn[i].ring, color)),
    decreases count,
{
    lemma_shows();
    if i < count - 1 {
        lemma_rings_shown(s, tiles, drawn, rank, color, count - 1, i);
    }
}

proof fn lemma_labels_shown(
    labels: Seq<Lettered>,
    drawn: Seq<Drawn>,
    palette: Palette,
    count: int,
    i: int,
)
    requires
        0 <= i < count,
    ensures
        shows(
            mosaic::labels_markup(labels, drawn, palette, count),
            mosaic::label_markup(i, labels[i], drawn[labels[i].tile].label, palette),
        ),
    decreases count,
{
    lemma_shows();
    if i < count - 1 {
        lemma_labels_shown(labels, drawn, palette, count - 1, i);
    }
}

/// Every tile in view is in the mosaic; what is marked has a ring of danger,
/// and the selection a ring of its own.
pub proof fn every_tile_in_view_is_drawn(
    s: State,
    canvas: Canvas,
    words: Words,
    palette: Palette,
    i: int,
)
    requires
        s.cache matches Some((_, tiles)) && 0 <= i < tiles.len(),
        canvas.tiles@[i].near && canvas.tiles@[i].large,
    ensures
        ({
            let page = s.mosaic(canvas, words, palette);
            let tile = (s.cache->0).1[i];
            let drawn = canvas.tiles@[i];
            &&& shows(page, s.tile_markup(tile, drawn, words, palette))
            &&& s.selected == Some(tile.crumbs@) ==> shows(
                page,
                mosaic::ring(drawn.ring, palette.highlight@),
            )
            &&& s.selected != Some(tile.crumbs@) && s.marked_at(tile.crumbs@) ==> shows(
                page,
                mosaic::ring(drawn.ring, palette.danger@),
            )
        }),
{
    reveal(State::mosaic);
    lemma_shows();
    let tiles = (s.cache->0).1;
    let all = tiles.len() as int;
    lemma_tiles_shown(s, tiles, canvas.tiles@, words, palette, all, i);
    if s.selected == Some(tiles[i].crumbs@) {
        lemma_rings_shown(s, tiles, canvas.tiles@, 3, palette.highlight@, all, i);
    } else if s.marked_at(tiles[i].crumbs@) {
        lemma_rings_shown(s, tiles, canvas.tiles@, 1, palette.danger@, all, i);
    }
}

/// Every painted label is in the mosaic, where its tile has it.
pub proof fn every_painted_label_is_drawn(
    s: State,
    canvas: Canvas,
    words: Words,
    palette: Palette,
    i: int,
)
    requires
        s.cache matches Some((_, tiles)) && 0 <= i < mosaic::painted(
            s.labels(tiles, canvas.tiles@, words, tiles.len() as int),
        ).len(),
    ensures
        ({
            let tiles = (s.cache->0).1;
            let label = mosaic::painted(
                s.labels(tiles, canvas.tiles@, words, tiles.len() as int),
            )[i];
            shows(
                s.mosaic(canvas, words, palette),
                mosaic::label_markup(i, label, canvas.tiles@[label.tile].label, palette),
            )
        }),
{
    reveal(State::mosaic);
    lemma_shows();
    let tiles = (s.cache->0).1;
    let named = mosaic::painted(s.labels(tiles, canvas.tiles@, words, tiles.len() as int));
    lemma_labels_shown(named, canvas.tiles@, palette, named.len() as int, i);
}

/// Every tile that has a label has it among the labels, once, in the order of
/// the tiles.
pub proof fn every_label_has_its_turn(
    s: State,
    tiles: Seq<Tile>,
    drawn: Seq<Drawn>,
    words: Words,
    count: int,
    i: int,
)
    requires
        0 <= count <= tiles.len(),
    ensures
        ({
            let labels = s.labels(tiles, drawn, words, count);
            &&& 0 <= i < count && s.label(i, tiles[i], drawn[i], words) is Some
                ==> labels.contains(s.label(i, tiles[i], drawn[i], words)->0)
            &&& forall|a: int|
                0 <= a < labels.len() ==> {
                    let at = (#[trigger] labels[a]).tile;
                    0 <= at < count && s.label(at, tiles[at], drawn[at], words) == Some(labels[a])
                }
            &&& forall|a: int, b: int|
                0 <= a < b < labels.len() ==> (#[trigger] labels[a]).tile < (
                #[trigger] labels[b]).tile
        }),
    decreases count,
{
    if count > 0 {
        every_label_has_its_turn(s, tiles, drawn, words, count - 1, i);
        let before = s.labels(tiles, drawn, words, count - 1);
        let labels = s.labels(tiles, drawn, words, count);
        if 0 <= i < count - 1 && s.label(i, tiles[i], drawn[i], words) is Some {
            let label = s.label(i, tiles[i], drawn[i], words)->0;
            let k = choose|k: int| 0 <= k < before.len() && before[k] == label;
            assert(labels[k] == label);
        }
        if s.label(count - 1, tiles[count - 1], drawn[count - 1], words) is Some {
            assert(labels[before.len() as int] == labels.last());
        }
    }
}

} // verus!
