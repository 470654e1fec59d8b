//! What each operation is for: what its result has to satisfy, whatever it is
//! asked.

use crate::app::{
    Camera, ColorMode, Filtered, Matches, News, Place, ScanOptions, ScanSnapshot, Screen, State,
    Tile, Volume, Work,
};
use crate::finding;
use crate::input;
use crate::input::{Around, Event};
use crate::keys;
use crate::keys::Key;
use crate::laws;
use crate::marks;
use crate::marks::{Mark, Plan, RemovalMode};
use crate::mosaic::{Drawn, Keep};
use crate::navigation;
use crate::navigation::{Direction, ScoredTile};
use crate::palette::Palette;
use crate::paths;
use crate::removal;
use crate::removal::RemovalEvent;
use crate::render;
use crate::scanning::{Landing, Outcome, Remeasured};
use crate::single;
use crate::single::Single;
use crate::text;
use crate::tree;
use crate::tree::{Metric, Node};
use crate::words::Words;
use vstd::prelude::*;

verus! {

// ── what is marked looks marked ────────────────────────────────────────

/// What a mark was made on is drawn marked: a mark's path leads to the tile it
/// was taken from.
pub proof fn a_mark_shows_on_its_tile(s: State, crumbs: Seq<usize>, mark: int)
    requires
        s.tree matches Some(root) && laws::tidy_along(root, crumbs),
        0 <= mark < s.marks.len(),
        paths::components(s.marks[mark].path) == paths::components(s.path_at(crumbs)->0),
    ensures
        s.marked_at(crumbs),
{
    laws::a_tile_is_found_again_by_its_path(s, crumbs);
    assert(s.crumbs_for_path(s.marks[mark].path) == s.crumbs_for_path(s.path_at(crumbs)->0));
}

/// Nothing is drawn marked but what some mark's path names, step by step.
pub proof fn only_what_is_named_shows_a_mark(s: State, crumbs: Seq<usize>)
    requires
        s.marked_at(crumbs),
    ensures
        exists|i: int|
            0 <= i < s.marks.len() && paths::starts_with(
                (#[trigger] s.marks[i]).path,
                s.root_path,
            ) && laws::spelled_along(
                s.tree->0,
                crumbs,
                paths::components(s.marks[i].path).skip(
                    paths::components(s.root_path).len() as int,
                ),
            ),
{
    let i = choose|i: int|
        0 <= i < s.marks.len() && #[trigger] s.crumbs_for_path(s.marks[i].path) == Some(crumbs);
    laws::what_is_found_bears_its_names(s, s.marks[i].path);
    assert(s.marks[i].path == s.marks[i].path);
}

/// Everything inside a marked directory goes with it: whatever lies below one,
/// however deep, is covered, by the outermost there is.
pub proof fn everything_inside_a_marked_directory_is_covered(
    s: State,
    crumbs: Seq<usize>,
    k: int,
    mark: int,
)
    requires
        !s.marked_at(crumbs),
        1 <= k < crumbs.len(),
        0 <= mark < s.marks.len(),
        s.crumbs_for_path(s.marks[mark].path) == Some(crumbs.take(k)),
        forall|j: int| 1 <= j < k ==> !s.marked_at(#[trigger] crumbs.take(j)),
    ensures
        s.path_at(crumbs.take(k)) is Some,
        s.covered_by(crumbs) == Some(paths::label(s.path_at(crumbs.take(k))->0)),
{
    assert(s.marked_at(crumbs.take(k)));
    lemma_cover_reaches(s, crumbs, 1, k);
}

proof fn lemma_cover_reaches(s: State, crumbs: Seq<usize>, from: int, k: int)
    requires
        1 <= from <= k < crumbs.len(),
        s.marked_at(crumbs.take(k)),
        s.path_at(crumbs.take(k)) is Some,
        forall|j: int| from <= j < k ==> !s.marked_at(#[trigger] crumbs.take(j)),
    ensures
        s.cover_from(crumbs, from) == Some(paths::label(s.path_at(crumbs.take(k))->0)),
    decreases k - from,
{
    if from < k {
        assert(!s.marked_at(crumbs.take(from)));
        lemma_cover_reaches(s, crumbs, from + 1, k);
    }
}

/// What is marked itself, or lies below nothing marked, is covered by nothing.
pub proof fn nothing_else_is_covered(s: State, crumbs: Seq<usize>)
    requires
        s.marked_at(crumbs) || forall|k: int|
            1 <= k < crumbs.len() ==> !s.marked_at(#[trigger] crumbs.take(k)),
    ensures
        s.covered_by(crumbs) is None,
{
    if !s.marked_at(crumbs) {
        lemma_no_cover(s, crumbs, 1);
    }
}

pub(crate) proof fn lemma_no_cover(s: State, crumbs: Seq<usize>, from: int)
    requires
        1 <= from,
        forall|k: int| 1 <= k < crumbs.len() ==> !s.marked_at(#[trigger] crumbs.take(k)),
    ensures
        s.cover_from(crumbs, from) is None,
    decreases crumbs.len() - from,
{
    if from < crumbs.len() {
        assert(!s.marked_at(crumbs.take(from)));
        lemma_no_cover(s, crumbs, from + 1);
    }
}

/// A part of a text is a part of any text around it.
pub(crate) proof fn lemma_part(before: Seq<char>, part: Seq<char>, after: Seq<char>)
    ensures
        text::has(before + part + after, part),
{
    let whole = before + part + after;
    let at = before.len() as int;
    assert(whole.subrange(at, at + part.len()) =~= part);
}

pub(crate) proof fn lemma_part_within(x: Seq<char>, y: Seq<char>, part: Seq<char>)
    requires
        text::has(x, part) || text::has(y, part),
    ensures
        text::has(x + y, part),
{
    let whole = x + y;
    if text::has(x, part) {
        let at = choose|at: int|
            0 <= at <= x.len() - part.len() && #[trigger] x.subrange(at, at + part.len()) == part;
        assert(whole.subrange(at, at + part.len()) =~= part);
    } else {
        let at = choose|at: int|
            0 <= at <= y.len() - part.len() && #[trigger] y.subrange(at, at + part.len()) == part;
        let k = x.len() + at;
        assert(whole.subrange(k, k + part.len()) =~= y.subrange(at, at + part.len()));
    }
}

/// The fill a tile's body has, as its markup writes it.
pub open spec fn filled(fill: Seq<char>) -> Seq<char> {
    "\" fill=\""@ + fill + "\"/>"@
}

pub(crate) proof fn lemma_body_fill(s: State, tile: Tile, drawn: Drawn, words: Words, palette: Palette)
    ensures
        text::has(
            s.tile_markup(tile, drawn, words, palette),
            filled(
                palette.fill(
                    s.marked_at(tile.crumbs@) || s.covered_by(tile.crumbs@) is Some,
                    s.age_of(s.tile_node(tile)),
                    s.tile_category(tile),
                    tile.depth,
                    s.filtered(drawn.keep),
                ),
            ),
        ),
{
    let cover = match s.covered_by(tile.crumbs@) {
        Some(name) => " data-covered=\""@ + render::escaped(name) + "\""@,
        None => ""@,
    };
    let fill = palette.fill(
        s.marked_at(tile.crumbs@) || s.covered_by(tile.crumbs@) is Some,
        s.age_of(s.tile_node(tile)),
        s.tile_category(tile),
        tile.depth,
        s.filtered(drawn.keep),
    );
    let head = "<g class=\""@ + s.tile_class(tile.crumbs@) + "\""@ + s.tile_tip(tile, words) + cover
        + "><rect class=\"tile-body\" x=\""@ + drawn.spot.x@ + "\" y=\""@ + drawn.spot.y@
        + "\" width=\""@ + drawn.spot.w@ + "\" height=\""@ + drawn.spot.h@;
    let body = head + "\" fill=\""@ + fill + "\"/>"@;
    assert(body =~= head + filled(fill) + Seq::empty());
    lemma_part(head, filled(fill), Seq::empty());
    let hatch = s.tile_hatch(tile, drawn);
    let strip = s.tile_strip(tile, drawn, palette);
    let corner = s.tile_corner(tile, drawn, palette);
    lemma_part_within(body, hatch, filled(fill));
    lemma_part_within(body + hatch, strip, filled(fill));
    lemma_part_within(body + hatch + strip, corner, filled(fill));
    lemma_part_within(body + hatch + strip + corner, "</g>"@, filled(fill));
}

/// A tile that is marked, or lies inside a marked directory, has the marked
/// fill, whatever its kind, age or filter.
pub proof fn what_goes_has_the_marked_fill(
    s: State,
    tile: Tile,
    drawn: Drawn,
    words: Words,
    palette: Palette,
)
    requires
        s.marked_at(tile.crumbs@) || exists|k: int|
            1 <= k < tile.crumbs@.len() && s.marked_at(#[trigger] tile.crumbs@.take(k)),
    ensures
        text::has(s.tile_markup(tile, drawn, words, palette), filled(palette.marked@)),
{
    lemma_body_fill(s, tile, drawn, words, palette);
    if !s.marked_at(tile.crumbs@) {
        lemma_some_cover(s, tile.crumbs@, 1);
    }
}

/// Below a marked directory there is always a cover.
pub(crate) proof fn lemma_some_cover(s: State, crumbs: Seq<usize>, from: int)
    requires
        1 <= from,
        exists|k: int| from <= k < crumbs.len() && s.marked_at(#[trigger] crumbs.take(k)),
    ensures
        s.cover_from(crumbs, from) is Some,
    decreases crumbs.len() - from,
{
    if !s.marked_at(crumbs.take(from)) {
        lemma_some_cover(s, crumbs, from + 1);
    }
}

/// A covered tile says which marked directory it goes with.
pub proof fn a_covered_tile_names_its_cover(
    s: State,
    tile: Tile,
    drawn: Drawn,
    words: Words,
    palette: Palette,
    k: int,
)
    requires
        !s.marked_at(tile.crumbs@),
        1 <= k < tile.crumbs@.len(),
        s.marked_at(tile.crumbs@.take(k)),
        forall|j: int| 1 <= j < k ==> !s.marked_at(#[trigger] tile.crumbs@.take(j)),
    ensures
        text::has(
            s.tile_markup(tile, drawn, words, palette),
            " data-covered=\""@ + render::escaped(
                paths::label(s.path_at(tile.crumbs@.take(k))->0),
            ) + "\""@,
        ),
{
    lemma_cover_reaches(s, tile.crumbs@, 1, k);
    let cover = " data-covered=\""@ + render::escaped(
        paths::label(s.path_at(tile.crumbs@.take(k))->0),
    ) + "\""@;
    let fill = palette.fill(
        true,
        s.age_of(s.tile_node(tile)),
        s.tile_category(tile),
        tile.depth,
        s.filtered(drawn.keep),
    );
    let t0 = "<g class=\""@ + s.tile_class(tile.crumbs@) + "\""@ + s.tile_tip(tile, words);
    assert(t0 + cover =~= t0 + cover + Seq::empty());
    lemma_part(t0, cover, Seq::empty());
    let t1 = t0 + cover;
    lemma_part_within(t1, "><rect class=\"tile-body\" x=\""@, cover);
    let t2 = t1 + "><rect class=\"tile-body\" x=\""@;
    lemma_part_within(t2, drawn.spot.x@, cover);
    let t3 = t2 + drawn.spot.x@;
    lemma_part_within(t3, "\" y=\""@, cover);
    let t4 = t3 + "\" y=\""@;
    lemma_part_within(t4, drawn.spot.y@, cover);
    let t5 = t4 + drawn.spot.y@;
    lemma_part_within(t5, "\" width=\""@, cover);
    let t6 = t5 + "\" width=\""@;
    lemma_part_within(t6, drawn.spot.w@, cover);
    let t7 = t6 + drawn.spot.w@;
    lemma_part_within(t7, "\" height=\""@, cover);
    let t8 = t7 + "\" height=\""@;
    lemma_part_within(t8, drawn.spot.h@, cover);
    let t9 = t8 + drawn.spot.h@;
    lemma_part_within(t9, "\" fill=\""@, cover);
    let t10 = t9 + "\" fill=\""@;
    lemma_part_within(t10, fill, cover);
    let t11 = t10 + fill;
    lemma_part_within(t11, "\"/>"@, cover);
    let t12 = t11 + "\"/>"@;
    lemma_part_within(t12, s.tile_hatch(tile, drawn), cover);
    let t13 = t12 + s.tile_hatch(tile, drawn);
    lemma_part_within(t13, s.tile_strip(tile, drawn, palette), cover);
    let t14 = t13 + s.tile_strip(tile, drawn, palette);
    lemma_part_within(t14, s.tile_corner(tile, drawn, palette), cover);
    let t15 = t14 + s.tile_corner(tile, drawn, palette);
    lemma_part_within(t15, "</g>"@, cover);
    assert(s.tile_markup(tile, drawn, words, palette) == t15 + "</g>"@);
}

/// The label of what is marked or covered is a marked one, and no other's is.
pub proof fn a_label_is_marked_with_its_tile(
    s: State,
    at: int,
    tile: Tile,
    drawn: Drawn,
    words: Words,
)
    requires
        tile.others is None,
        s.label(at, tile, drawn, words) is Some,
    ensures
        s.label(at, tile, drawn, words)->0.marked <==> (s.marked_at(tile.crumbs@) || exists|k: int|
            1 <= k < tile.crumbs@.len() && s.marked_at(#[trigger] tile.crumbs@.take(k))),
{
    let crumbs = tile.crumbs@;
    if !s.marked_at(crumbs) {
        if exists|k: int| 1 <= k < crumbs.len() && s.marked_at(#[trigger] crumbs.take(k)) {
            lemma_some_cover(s, crumbs, 1);
        } else {
            lemma_no_cover(s, crumbs, 1);
        }
    }
}

// ── what is removed, and how ───────────────────────────────────────────

/// However a removal is started, it removes what the plan held in the way that
/// was chosen; and for good only where the dialog's Delete said so.
pub proof fn a_removal_keeps_to_what_was_chosen(s: State, event: Event, around: Around)
    requires
        s.apply(event, around).1 is Remove,
    ensures
        s.apply(event, around).1->Remove_mode == s.removal_mode,
        s.apply(event, around).1->targets == marks::marks_of(around.plan.targets@),
        around.plan.targets@.len() > 0,
        s.apply(event, around).0.screen == Screen::Running,
        s.apply(event, around).0.removing,
        s.apply(event, around).0.marks == s.marks,
        s.removal_mode == RemovalMode::Permanent ==> event is ConfirmDelete || (s.confirm_open
            && event is Key && keys::key_named(event->key@) == Key::Enter),
{
    if let Event::Key { key, ctrl, shift, alt } = event {
        let key = keys::key_named(key@);
        if !(alt && s.travels(key)) {
            lemma_key_removal(s, key, ctrl, shift, around);
        }
    } else if !input::is_gesture(event) {
        lemma_page_removal(s, event, around);
    }
}

proof fn lemma_page_removal(s: State, event: Event, around: Around)
    requires
        s.page_event(event, around).1 is Remove,
    ensures
        ({
            let (after, work) = s.page_event(event, around);
            &&& work->Remove_mode == s.removal_mode
            &&& work->targets == marks::marks_of(around.plan.targets@)
            &&& around.plan.targets@.len() > 0
            &&& after.screen == Screen::Running
            &&& after.removing
            &&& after.marks == s.marks
            &&& s.removal_mode == RemovalMode::Permanent ==> event is ConfirmDelete
        }),
{
    reveal(State::page_event);
    match event {
        Event::Mode { index } => {
            reveal(State::set_mode);
            reveal(State::toggle_metric);
        },
        Event::Widen { .. } => {
            reveal(State::start_scan);
        },
        _ => {},
    }
}

proof fn lemma_key_removal(s: State, key: Key, control: bool, shift: bool, around: Around)
    requires
        s.on_key(key, control, shift, around).1 is Remove,
    ensures
        ({
            let (after, work) = s.on_key(key, control, shift, around);
            &&& work->Remove_mode == s.removal_mode
            &&& work->targets == marks::marks_of(around.plan.targets@)
            &&& around.plan.targets@.len() > 0
            &&& after.screen == Screen::Running
            &&& after.removing
            &&& after.marks == s.marks
            &&& s.removal_mode == RemovalMode::Permanent ==> s.confirm_open && key == Key::Enter
        }),
{
    if !s.confirm_open {
        reveal(State::on_screen_key);
        reveal(State::on_explore_key);
        reveal(State::on_review_key);
        laws::lemma_menu_key_leaves_the_mode(s, key);
        lemma_menu_key_passed_on(s, key);
        let next = s.on_menu_key(key).0;
        laws::lemma_explore_key_removes_nothing(next, key, control, shift, around);
        laws::lemma_explore_key_removes_nothing(
            next.adopt_pointer_target(),
            key,
            control,
            shift,
            around,
        );
    }
}

/// A key that an open menu leaves alone closes it and nothing more.
proof fn lemma_menu_key_passed_on(s: State, key: Key)
    requires
        !s.on_menu_key(key).1,
    ensures
        s.on_menu_key(key).0 == (State { crumb_menu: None, ..s }),
{
    reveal(State::on_menu_key);
}

/// The trash is used at once, by the button and by Enter on the review alike;
/// the dialog's Delete removes in the way chosen.
pub proof fn a_commitment_is_carried_out(s: State, around: Around, ctrl: bool, shift: bool)
    requires
        around.plan.targets@.len() > 0,
    ensures
        s.removal_mode == RemovalMode::Trash ==> (s.apply(Event::Commit, around).1 matches Work::Remove {
            mode,
            targets,
        } && mode == RemovalMode::Trash && targets.len() == around.plan.targets@.len()),
        s.apply(Event::ConfirmDelete, around).1 is Remove,
        !s.apply(Event::ConfirmDelete, around).0.confirm_open,
        s.screen == Screen::Review && !s.confirm_open && !s.show_help && s.crumb_menu is None
            ==> s.on_key(Key::Enter, ctrl, shift, around) == s.apply(Event::Commit, around),
        s.confirm_open ==> s.on_key(Key::Enter, ctrl, shift, around) == s.apply(
            Event::ConfirmDelete,
            around,
        ),
{
    reveal(State::page_event);
    reveal(State::on_screen_key);
    reveal(State::on_review_key);
    reveal(State::on_menu_key);
}

/// With nothing to remove, nothing is removed and no dialog opens.
pub proof fn nothing_to_remove_removes_nothing(s: State, event: Event, around: Around)
    requires
        around.plan.targets@.len() == 0,
    ensures
        !(s.apply(event, around).1 is Remove),
        s.commit(around.plan) == (s, Work::Nothing),
{
    if s.apply(event, around).1 is Remove {
        a_removal_keeps_to_what_was_chosen(s, event, around);
    }
}

// ── a finished scan is taken up ────────────────────────────────────────

/// A scan that lands is the tree: its marks, measured again, are the marks,
/// and what it found is what is shown.
pub proof fn a_landed_scan_is_taken_up(s: State, snapshot: ScanSnapshot, landing: Landing)
    requires
        s.scanning,
    ensures
        ({
            let after = s.poll_scan(snapshot, Some(Outcome::Landed(landing)));
            &&& after.marks == marks::marks_of(landing.marks@)
            &&& after.tree == Some(landing.tree)
            &&& after.insights == landing.insights@
            &&& after.scanned_at == landing.now
            &&& after.scan_elapsed == Some(landing.elapsed@)
            &&& !after.scanning
            &&& after.progress.finished
            &&& after.progress.files == snapshot.files
            &&& after.progress.bytes == snapshot.bytes
            &&& after.cache is None
            &&& after.root_path == if paths::components(s.scan_root) == paths::components(
                s.root_path,
            ) {
                s.root_path
            } else {
                s.scan_root
            }
            &&& after.options == s.options
            &&& after.screen == s.screen
            &&& after.removal_mode == s.removal_mode
        }),
{
    reveal(State::land);
    reveal(State::clear_filter);
}

/// What was marked and is still there stays marked through a scan, with its
/// new size.
pub proof fn a_mark_that_was_measured_again_stays(
    s: State,
    snapshot: ScanSnapshot,
    landing: Landing,
    i: int,
)
    requires
        s.scanning,
        0 <= i < landing.marks@.len(),
    ensures
        ({
            let after = s.poll_scan(snapshot, Some(Outcome::Landed(landing)));
            &&& after.marks.len() == landing.marks@.len()
            &&& after.marks[i].path == landing.marks@[i].path@
            &&& after.marks[i].bytes == landing.marks@[i].bytes
            &&& marks::marked(after.marks, landing.marks@[i].path@)
        }),
{
    a_landed_scan_is_taken_up(s, snapshot, landing);
    let after = s.poll_scan(snapshot, Some(Outcome::Landed(landing)));
    assert(after.marks[i].path == landing.marks@[i].path@);
}

/// Where a scan of the same root leaves the view: in its directory and on its
/// selection where they still exist, else at the top and on the largest entry.
pub proof fn a_rescan_keeps_what_still_exists(s: State, snapshot: ScanSnapshot, landing: Landing)
    requires
        s.scanning,
        paths::components(s.scan_root) == paths::components(s.root_path),
    ensures
        ({
            let after = s.poll_scan(snapshot, Some(Outcome::Landed(landing)));
            let there = tree::resolve(landing.tree, s.crumbs) is Some;
            &&& there ==> after.crumbs == s.crumbs
            &&& !there ==> after.crumbs.len() == 0
            &&& after.camera == s.camera
            &&& (s.selected matches Some(selected) && tree::resolve(landing.tree, selected) is Some)
                ==> after.selected == s.selected
            &&& (there && s.selected is None) ==> match tree::resolve(
                landing.tree,
                s.crumbs,
            )->0.largest {
                Some(index) => after.selected == Some(s.crumbs.push(index)),
                None => after.selected is None,
            }
            &&& (after.selected is Some && after.selected != s.selected)
                ==> after.selected->0.len() == after.crumbs.len() + 1
        }),
{
    reveal(State::land);
}

/// A wider scan moves up to the new root, with the directory it came from
/// selected, and drops the filter of the old one.
pub proof fn a_wider_scan_selects_where_it_came_from(
    s: State,
    snapshot: ScanSnapshot,
    landing: Landing,
    crumbs: Seq<usize>,
)
    requires
        s.scanning,
        paths::components(s.scan_root) != paths::components(s.root_path),
        laws::tidy_along(landing.tree, crumbs),
        crumbs.len() > 0,
        paths::components(s.root_path) == paths::components(
            tree::path_of(s.scan_root, landing.tree, crumbs),
        ),
    ensures
        ({
            let after = s.poll_scan(snapshot, Some(Outcome::Landed(landing)));
            &&& after.crumbs.len() == 0
            &&& after.selected == Some(seq![crumbs[0]])
            &&& after.camera == Camera::still()
            &&& after.matches is None
            &&& !after.filter_applied
            &&& after.space == landing.volume.space
            &&& after.hovered is None
        }),
{
    reveal(State::land);
    reveal(State::clear_filter);
    let wide = State { root_path: s.scan_root, tree: Some(landing.tree), ..s };
    laws::a_tile_is_found_again_by_its_path(wide, crumbs);
    assert(wide.crumbs_for_path(s.root_path) == wide.crumbs_for_path(
        tree::path_of(s.scan_root, landing.tree, crumbs),
    ));
    let top = seq![crumbs[0]];
    assert(top.skip(1) =~= Seq::empty());
    assert(tree::resolve(landing.tree, Seq::empty()) == Some(landing.tree));
    assert(tree::resolve(landing.tree, top) is Some) by {
        let child = landing.tree.children@[crumbs[0] as int];
        assert(tree::resolve(child, top.skip(1)) == Some(child));
    }
}

/// A scan that fails says why and leaves the view alone.
pub proof fn a_failed_scan_says_why(s: State, snapshot: ScanSnapshot, error: String)
    requires
        s.scanning,
    ensures
        ({
            let after = s.poll_scan(snapshot, Some(Outcome::Failed(error)));
            &&& after.scan_error == Some(error@)
            &&& !after.scanning
            &&& after.tree == s.tree
            &&& after.crumbs == s.crumbs
            &&& after.marks == s.marks
            &&& after.root_path == s.root_path
        }),
{
}

/// While a scan runs only its progress changes.
pub proof fn a_running_scan_only_reports(s: State, snapshot: ScanSnapshot)
    ensures
        ({
            let after = s.poll_scan(snapshot, None);
            after == State { progress: after.progress, ..s }
        }),
        s.scanning ==> s.poll_scan(snapshot, None).progress == snapshot,
        !s.scanning ==> s.poll_scan(snapshot, None) == s,
{
}

// ── zooming goes into the deepest directory ────────────────────────────

/// A drawn directory that has something in it.
pub open spec fn open_to(s: State, crumbs: Seq<usize>) -> bool {
    &&& s.node_at(crumbs) matches Some(node) && node.dir && node.children@.len() > 0
    &&& s.cache matches Some((_, tiles)) && exists|i: int|
        0 <= i < tiles.len() && (#[trigger] tiles[i]).crumbs@ == crumbs
}

proof fn lemma_drawn(tiles: Seq<Tile>, crumbs: Seq<usize>)
    ensures
        navigation::tile_at(tiles, crumbs) is Some <==> exists|i: int|
            0 <= i < tiles.len() && (#[trigger] tiles[i]).crumbs@ == crumbs,
        navigation::tile_at(tiles, crumbs) matches Some(at) ==> 0 <= at < tiles.len()
            && tiles[at].crumbs@ == crumbs && forall|i: int|
            0 <= i < at ==> (#[trigger] tiles[i]).crumbs@ != crumbs,
    decreases tiles.len(),
{
    if tiles.len() > 0 {
        let short = tiles.drop_last();
        lemma_drawn(short, crumbs);
        if exists|i: int| 0 <= i < tiles.len() && (#[trigger] tiles[i]).crumbs@ == crumbs {
            let i = choose|i: int| 0 <= i < tiles.len() && (#[trigger] tiles[i]).crumbs@ == crumbs;
            if i < short.len() {
                assert(short[i].crumbs@ == crumbs);
            }
        }
        if navigation::tile_at(short, crumbs) is Some {
            let at = navigation::tile_at(short, crumbs)->0;
            assert(tiles[at].crumbs@ == crumbs);
            assert forall|i: int| 0 <= i < at implies (#[trigger] tiles[i]).crumbs@ != crumbs by {
                assert(short[i] == tiles[i]);
            }
        } else if navigation::tile_at(tiles, crumbs) is Some {
            assert(tiles[tiles.len() - 1].crumbs@ == crumbs);
            assert forall|i: int| 0 <= i < tiles.len() - 1 implies (#[trigger] tiles[i]).crumbs@
                != crumbs by {
                assert(short[i] == tiles[i]);
            }
        }
    }
}

proof fn lemma_open_to(s: State, crumbs: Seq<usize>)
    ensures
        s.enterable(crumbs) <==> open_to(s, crumbs),
{
    if let Some((_, tiles)) = s.cache {
        lemma_drawn(tiles, crumbs);
    }
}

/// What a zoom at a point goes into is the deepest drawn directory with
/// contents on the way to the tile under it, below the directory on screen.
pub proof fn a_zoom_aims_at_the_deepest_directory(s: State, hovered: Seq<usize>)
    ensures
        match s.deepest(hovered, hovered.len() as int) {
            Some(target) => {
                &&& s.crumbs.len() < target.len() <= hovered.len()
                &&& target == hovered.take(target.len() as int)
                &&& open_to(s, target)
                &&& forall|k: int|
                    target.len() < k <= hovered.len() ==> !open_to(s, #[trigger] hovered.take(k))
            },
            None => forall|k: int|
                s.crumbs.len() < k <= hovered.len() ==> !open_to(s, #[trigger] hovered.take(k)),
        },
{
    lemma_deepest(s, hovered, hovered.len() as int);
}

proof fn lemma_deepest(s: State, hovered: Seq<usize>, len: int)
    requires
        len <= hovered.len(),
    ensures
        match s.deepest(hovered, len) {
            Some(target) => {
                &&& s.crumbs.len() < target.len() <= len
                &&& target == hovered.take(target.len() as int)
                &&& open_to(s, target)
                &&& forall|k: int|
                    target.len() < k <= len ==> !open_to(s, #[trigger] hovered.take(k))
            },
            None => forall|k: int|
                s.crumbs.len() < k <= len ==> !open_to(s, #[trigger] hovered.take(k)),
        },
    decreases len,
{
    if len > s.crumbs.len() {
        lemma_open_to(s, hovered.take(len));
        if !s.enterable(hovered.take(len)) {
            lemma_deepest(s, hovered, len - 1);
        }
    }
}

/// Zooming in from the limit goes inside the deepest directory under the
/// point, where there is one below the directory on screen.
pub proof fn zooming_in_from_the_limit_goes_inside(
    s: State,
    factor: Single,
    around: Around,
    target: Seq<usize>,
)
    requires
        (Single { bits: single::ONE }).below(factor),
        around.limit.at_most(s.camera.scale),
        around.under matches Some(hovered) && s.crumbs.len() < target.len() <= hovered@.len()
            && target == hovered@.take(target.len() as int) && forall|k: int|
            target.len() < k <= hovered@.len() ==> !open_to(s, #[trigger] hovered@.take(k)),
        open_to(s, target),
        s.crumbs == target.take(s.crumbs.len() as int),
    ensures
        s.zoom_at(factor, true, around).crumbs == target,
        s.zoom_at(factor, true, around).selected == Some(target),
        s.zoom_at(factor, true, around).camera == Camera::still(),
{
    reveal(State::zoom_at);
    reveal(State::enter);
    let hovered = around.under->0@;
    a_zoom_aims_at_the_deepest_directory(s, hovered);
    assert(hovered.take(target.len() as int) == target);
    assert(s.deepest(hovered, hovered.len() as int) == Some(target)) by {
        match s.deepest(hovered, hovered.len() as int) {
            Some(found) => {
                if found.len() < target.len() {
                    assert(!open_to(s, hovered.take(target.len() as int)));
                }
                if found.len() > target.len() {
                    assert(!open_to(s, hovered.take(found.len() as int)));
                }
            },
            None => {
                assert(!open_to(s, hovered.take(target.len() as int)));
            },
        }
    }
    lemma_one_is_not_bottom(factor);
}

proof fn lemma_one_is_not_bottom(factor: Single)
    requires
        (Single { bits: single::ONE }).below(factor),
    ensures
        !factor.below(Single { bits: single::ONE }),
{
}

/// Short of the limit a zoom only magnifies; at the bottom, zooming out goes up
/// a level, and the keys' own zoom never changes the directory.
pub proof fn a_zoom_magnifies_before_it_moves(
    s: State,
    factor: Single,
    descend: bool,
    around: Around,
)
    ensures
        (Single { bits: single::ONE }).at_most(factor) && !around.limit.at_most(s.camera.scale)
            ==> s.zoom_at(factor, descend, around) == (State { camera: around.zoomed, ..s }),
        factor.below(Single { bits: single::ONE }) && (Single { bits: single::ABOVE_ONE }).below(
            s.camera.scale,
        ) ==> s.zoom_at(factor, descend, around) == (State { camera: around.zoomed, ..s }),
        !descend ==> s.zoom_at(factor, descend, around).crumbs == s.crumbs,
        descend && factor.below(Single { bits: single::ONE }) && s.camera.scale.bits
            == single::ONE && s.crumbs.len() > 0 ==> s.zoom_at(factor, descend, around).crumbs
            == s.crumbs.drop_last(),
{
    reveal(State::zoom_at);
    reveal(State::ascend);
}

/// Turning the wheel toward the page zooms in, away from it out, and with shift
/// held it pans; a still wheel does nothing.
pub proof fn the_wheel_zooms_the_way_it_turns(
    s: State,
    lines: Single,
    around: Around,
    shift: bool,
)
    ensures
        (Single { bits: single::ONE }).at_most(lines) && !shift && !around.limit.at_most(
            s.camera.scale,
        ) ==> s.on_scroll_wheel(lines, shift, around).camera == around.zoomed,
        (Single { bits: single::ONE }).at_most(lines) && shift ==> s.on_scroll_wheel(
            lines,
            shift,
            around,
        ) == (State { camera: around.panned, ..s }),
        lines.bits == single::ZERO ==> s.on_scroll_wheel(lines, shift, around) == s,
        lines.bits >= single::SIGN && (Single { bits: single::ONE }).at_most(
            Single { bits: (lines.bits - single::SIGN) as u32 },
        ) && !shift && s.camera.scale.bits == single::ONE && s.crumbs.len() > 0
            ==> s.on_scroll_wheel(lines, shift, around).crumbs == s.crumbs.drop_last(),
{
    reveal(State::on_scroll_wheel);
    reveal(State::zoom_at);
    reveal(State::ascend);
}

// ── find and filter ────────────────────────────────────────────────────

/// Applying a filter selects its largest match: a whole match that is in the
/// tree, and none in the tree is larger.
pub proof fn a_filter_selects_its_largest_match(s: State)
    requires
        s.matches matches Some(matches) && matches.count > 0,
        s.tree is Some,
    ensures
        ({
            let after = s.apply_filter();
            let whole = s.matches->0.whole@;
            &&& match after.selected {
                Some(crumbs) => {
                    &&& exists|i: int| 0 <= i < whole.len() && (#[trigger] whole[i])@ == crumbs
                    &&& tree::resolve(s.tree->0, crumbs) is Some
                    &&& forall|i: int|
                        0 <= i < whole.len() ==> match tree::resolve(
                            s.tree->0,
                            (#[trigger] whole[i])@,
                        ) {
                            Some(node) => node.bytes <= tree::resolve(s.tree->0, crumbs)->0.bytes,
                            None => true,
                        }
                },
                None => forall|i: int|
                    0 <= i < whole.len() ==> tree::resolve(
                        s.tree->0,
                        (#[trigger] whole[i])@,
                    ) is None,
            }
            &&& after.filter_applied
            &&& !after.find_open
            &&& after.matches == s.matches
            &&& after.camera == Camera::still()
            &&& after.filter_epoch != s.filter_epoch
        }),
{
    let whole = s.matches->0.whole@;
    lemma_largest(s.tree->0, whole, whole.len() as int);
}

proof fn lemma_largest(root: Node, whole: Seq<Vec<usize>>, count: int)
    requires
        0 <= count <= whole.len(),
    ensures
        match finding::largest_match(root, whole, count) {
            Some(best) => {
                &&& 0 <= best < count
                &&& tree::resolve(root, whole[best]@) is Some
                &&& forall|i: int|
                    0 <= i < count ==> match tree::resolve(root, (#[trigger] whole[i])@) {
                        Some(node) => node.bytes <= tree::resolve(root, whole[best]@)->0.bytes,
                        None => true,
                    }
            },
            None => forall|i: int|
                0 <= i < count ==> tree::resolve(root, (#[trigger] whole[i])@) is None,
        },
    decreases count,
{
    if count > 0 {
        lemma_largest(root, whole, count - 1);
    }
}

/// A find text is looked up only in a tree and only where it says something;
/// each lookup is a filter of its own.
pub proof fn a_find_text_is_looked_up(s: State, found: Option<Matches>)
    ensures
        ({
            let after = s.refresh_matches(found);
            let blank = forall|i: int| 0 <= i < s.find.len() ==> text::is_white(#[trigger] s.find[i]);
            &&& s.tree is None || blank ==> after.matches is None && !after.filter_applied
            &&& s.tree is Some && !blank ==> after.matches == found && after.filter_applied
                == s.filter_applied
            &&& after.filter_epoch != s.filter_epoch
            &&& after.find == s.find
            &&& after.selected == s.selected
            &&& after.crumbs == s.crumbs
        }),
{
}

/// Clearing a filter forgets the text, its matches and what was laid out by
/// them, and nothing else.
pub proof fn clearing_a_filter_forgets_it(s: State)
    ensures
        ({
            let after = s.clear_filter();
            &&& after.find.len() == 0
            &&& !after.find_open
            &&& after.matches is None
            &&& !after.filter_applied
            &&& after.filter_epoch != s.filter_epoch
            &&& s == State {
                find: s.find,
                find_open: s.find_open,
                matches: s.matches,
                filter_applied: s.filter_applied,
                filter_epoch: s.filter_epoch,
                ..after
            }
        }),
{
    reveal(State::clear_filter);
}

/// A filter that matches nothing, or no filter, is not applied.
pub proof fn an_empty_filter_is_not_applied(s: State)
    requires
        s.matches is None || s.matches->0.count == 0,
    ensures
        s.apply_filter().filter_applied == s.filter_applied,
        s.apply_filter().selected == s.selected,
        !s.apply_filter().find_open,
        s.matches is Some ==> s.apply_filter().notice == Some(
            News::NoMatch { needle: s.matches->0.needle@ },
        ),
        s.matches is None ==> s.apply_filter().notice == s.notice,
{
}

/// What a filter keeps: what matches keeps its colour, what holds matches steps
/// back, and what holds none is out.
pub proof fn a_filter_dims_what_does_not_match(s: State)
    requires
        s.matches is Some,
    ensures
        s.filtered(Keep::Whole) == Filtered::Shown,
        s.filtered(Keep::Partial) == Filtered::Holds,
        s.filtered(Keep::Nothing) == Filtered::Out,
{
}

/// Tiles at hand are used only where they were laid out for this directory,
/// size, depth and filter; anything else is laid out for just those.
pub proof fn tiles_are_laid_out_for_what_is_shown(s: State, area: (Single, Single))
    ensures
        match s.layout_need(area) {
            finding::Need::Ready => {
                &&& s.cache is Some
                &&& (s.cache->0).0.crumbs == s.crumbs
                &&& (s.cache->0).0.width == area.0
                &&& (s.cache->0).0.height == area.1
                &&& (s.cache->0).0.depth == s.depth
                &&& (s.cache->0).0.filter == s.filter_epoch
            },
            finding::Need::Stale(key) => {
                &&& key.crumbs == s.crumbs
                &&& key.width == area.0
                &&& key.height == area.1
                &&& key.depth == s.depth
                &&& key.filter == s.filter_epoch
                &&& s.node_at(s.crumbs) is Some
            },
            finding::Need::Absent => {
                ||| area.0.below(Single { bits: single::ONE })
                ||| area.1.below(Single { bits: single::ONE })
                ||| s.node_at(s.crumbs) is None
            },
        },
        area.0.below(Single { bits: single::ONE }) || area.1.below(Single { bits: single::ONE })
            ==> s.layout_need(area) is Absent,
{
}

// ── going about ────────────────────────────────────────────────────────

/// A directory with something in it, below the one on screen, is gone into;
/// anything else is not.
pub proof fn only_a_directory_with_contents_is_gone_into(s: State, target: Seq<usize>)
    ensures
        ({
            let below = target.len() > s.crumbs.len() && target.take(s.crumbs.len() as int)
                == s.crumbs;
            let open = s.node_at(target) matches Some(node) && node.dir && node.children@.len() > 0;
            let after = s.enter(target);
            &&& below && open ==> after.crumbs == target && after.selected == Some(target)
                && after.cache is None && after.hovered is None && !after.pointer_active
            &&& !(below && open) ==> after == s
            &&& after.marks == s.marks && after.tree == s.tree && after.screen == s.screen
        }),
{
    reveal(State::enter);
    assert(s.crumbs.is_prefix_of(target) <==> target.len() >= s.crumbs.len() && target.take(
        s.crumbs.len() as int,
    ) == s.crumbs);
}

/// Opening goes into the selected directory, or the one that holds a selected
/// file, or, with nothing below selected, into the largest entry.
pub proof fn opening_goes_into_what_is_selected(s: State)
    ensures
        s.selected matches Some(selected) ==> selected.len() > s.crumbs.len() ==> {
            &&& (s.node_at(selected) matches Some(node) && node.dir) ==> s.descend() == s.enter(
                selected,
            )
            &&& !(s.node_at(selected) matches Some(node) && node.dir) ==> s.descend() == s.enter(
                selected.take(selected.len() - 1),
            )
        },
        (s.selected is None || s.selected->0.len() <= s.crumbs.len()) ==> match s.node_at(s.crumbs) {
            Some(node) => match node.largest {
                Some(index) => s.descend() == s.enter(s.crumbs.push(index)),
                None => s.descend() == s,
            },
            None => s.descend() == s,
        },
{
    reveal(State::descend);
    if let Some(selected) = s.selected {
        if selected.len() > s.crumbs.len() {
            assert(selected.drop_last() =~= selected.take(selected.len() - 1));
        }
    }
}

/// Going up leads one level up, and from the top nowhere.
pub proof fn going_up_leads_one_level_up(s: State)
    ensures
        s.crumbs.len() == 0 ==> s.ascend() == s,
        s.crumbs.len() > 0 ==> {
            let after = s.ascend();
            &&& after.crumbs == s.crumbs.take(s.crumbs.len() - 1)
            &&& after.selected == Some(s.crumbs)
            &&& after.cache is None
            &&& after.hovered is None
            &&& after.marks == s.marks
            &&& after.tree == s.tree
        },
{
    reveal(State::ascend);
    if s.crumbs.len() > 0 {
        assert(s.crumbs.drop_last() =~= s.crumbs.take(s.crumbs.len() - 1));
    }
}

/// A jump ends in its directory with it selected; showing something ends in
/// the directory that holds it, with it selected.
pub proof fn a_jump_ends_where_it_was_to(s: State, crumbs: Seq<usize>)
    ensures
        s.go_to(crumbs).crumbs == crumbs,
        s.go_to(crumbs).selected == Some(crumbs),
        s.go_to(crumbs).crumb_menu is None,
        s.go_to(crumbs).cache is None,
        s.go_to(crumbs).hovered is None,
        s.revealed(crumbs).selected == Some(crumbs),
        crumbs.len() > 0 ==> s.revealed(crumbs).crumbs == crumbs.take(crumbs.len() - 1),
        crumbs.len() == 0 ==> s.revealed(crumbs).crumbs.len() == 0,
{
    reveal(State::go_to);
}

/// The keys act on the tile under the pointer when the pointer moved last, and
/// on the selection otherwise.
pub proof fn the_keys_act_on_what_was_last_pointed_at(s: State)
    ensures
        s.pointer_active && s.hovered is Some ==> s.action_target() == s.hovered,
        !s.pointer_active || s.hovered is None ==> s.action_target() == s.selected,
        s.adopt_pointer_target().selected == s.action_target(),
        s.adopt_pointer_target() == (State {
            selected: s.adopt_pointer_target().selected,
            ..s
        }),
{
}

/// With nothing selected, the largest entry of the directory on screen is; a
/// selection is left alone.
pub proof fn the_largest_entry_is_selected_for_a_start(s: State)
    ensures
        s.selected is Some ==> s.select_largest() == s,
        s.selected is None ==> match s.node_at(s.crumbs) {
            Some(node) => match node.largest {
                Some(index) => s.select_largest().selected == Some(s.crumbs.push(index)),
                None => s.select_largest().selected is None,
            },
            None => s.select_largest().selected is None,
        },
        s.select_largest() == (State { selected: s.select_largest().selected, ..s }),
{
}

/// The next sibling by rank, going round at the ends.
pub proof fn tab_goes_to_the_next_sibling(s: State, index: usize)
    requires
        s.selected matches Some(selected) && selected.len() > s.crumbs.len() && selected.last()
            == index && (s.node_at(selected.take(selected.len() - 1)) matches Some(node) && index
            < node.children@.len()),
    ensures
        ({
            let selected = s.selected->0;
            let parent = selected.take(selected.len() - 1);
            let count = s.node_at(parent)->0.children@.len();
            &&& s.cycle_sibling(1).selected == Some(
                parent.push(
                    if index + 1 == count {
                        0
                    } else {
                        (index + 1) as usize
                    },
                ),
            )
            &&& s.cycle_sibling(-1).selected == Some(
                parent.push(
                    if index == 0 {
                        (count - 1) as usize
                    } else {
                        (index - 1) as usize
                    },
                ),
            )
            &&& s.cycle_sibling(1).crumbs == s.crumbs
        }),
{
    reveal(State::cycle_sibling);
    let selected = s.selected->0;
    let parent = selected.take(selected.len() - 1);
    assert(selected.drop_last() =~= parent);
    let node = s.node_at(parent)->0;
    let count = node.children@.len() as int;
    assert(node.children@.len() == node.children.len());
    laws::lemma_round(index as int, count);
    if index + 1 == count {
        vstd::arithmetic::div_mod::lemma_mod_self_0(count);
    } else {
        vstd::arithmetic::div_mod::lemma_small_mod((index + 1) as nat, count as nat);
    }
    if index == 0 {
        assert((-1int) % count == count - 1) by (nonlinear_arith)
            requires
                count > 0,
        ;
    } else {
        vstd::arithmetic::div_mod::lemma_small_mod((index - 1) as nat, count as nat);
    }
}

/// The tiles an arrow could go to: as deep as the selection, other than it, and
/// lying that way.
pub open spec fn beside(tile: ScoredTile, from: Seq<usize>) -> bool {
    tile.crumbs@.len() == from.len() && tile.crumbs@ != from && tile.score is Some
}

/// An arrow goes to the nearest tile that way; where there is none, back to the
/// directory above, but only to the left and up.
pub proof fn an_arrow_goes_to_the_nearest_tile(
    s: State,
    direction: Direction,
    tiles: Seq<ScoredTile>,
)
    requires
        s.selected is Some,
        exists|i: int| 0 <= i < tiles.len() && (#[trigger] tiles[i]).crumbs@ == s.selected->0,
        forall|i: int|
            0 <= i < tiles.len() && (#[trigger] tiles[i]).score is Some
                ==> !tiles[i].score->0.nan(),
    ensures
        ({
            let from = s.selected->0;
            let after = s.move_selection(direction, Some(tiles));
            let some = exists|i: int| 0 <= i < tiles.len() && beside(#[trigger] tiles[i], from);
            &&& some ==> exists|i: int|
                {
                    &&& 0 <= i < tiles.len()
                    &&& beside(#[trigger] tiles[i], from)
                    &&& after.selected == Some(tiles[i].crumbs@)
                    &&& forall|j: int|
                        0 <= j < tiles.len() && beside(#[trigger] tiles[j], from)
                            ==> tiles[i].score->0.rank() <= tiles[j].score->0.rank()
                }
            &&& !some && s.crumbs.len() > 0 && (direction == Direction::Left || direction
                == Direction::Up) ==> after.selected == Some(s.crumbs.take(s.crumbs.len() - 1))
            &&& !some && (s.crumbs.len() == 0 || direction == Direction::Right || direction
                == Direction::Down) ==> after.selected == s.selected
            &&& after.crumbs == s.crumbs
            &&& !after.pointer_active
        }),
{
    reveal(State::move_selection);
    let from = s.selected->0;
    lemma_nearest_tile(tiles, from);
    if s.crumbs.len() > 0 {
        assert(s.crumbs.drop_last() =~= s.crumbs.take(s.crumbs.len() - 1));
    }
    if let Some(best) = navigation::nearest(tiles, from) {
        assert(beside(tiles[best], from));
    }
}

proof fn lemma_nearest_tile(tiles: Seq<ScoredTile>, from: Seq<usize>)
    requires
        forall|i: int|
            0 <= i < tiles.len() && (#[trigger] tiles[i]).score is Some
                ==> !tiles[i].score->0.nan(),
    ensures
        match navigation::nearest(tiles, from) {
            Some(best) => {
                &&& 0 <= best < tiles.len()
                &&& beside(tiles[best], from)
                &&& forall|j: int|
                    0 <= j < tiles.len() && beside(#[trigger] tiles[j], from)
                        ==> tiles[best].score->0.rank() <= tiles[j].score->0.rank()
            },
            None => forall|j: int| 0 <= j < tiles.len() ==> !beside(#[trigger] tiles[j], from),
        },
    decreases tiles.len(),
{
    if tiles.len() > 0 {
        let short = tiles.drop_last();
        assert forall|i: int|
            0 <= i < short.len() && (#[trigger] short[i]).score is Some implies !short[i].score->0.nan() by {
            assert(short[i] == tiles[i]);
        }
        lemma_nearest_tile(short, from);
        assert forall|j: int| 0 <= j < tiles.len() - 1 implies short[j] == #[trigger] tiles[j] by {}
        assert(!(tiles.last().score is Some) || !tiles.last().score->0.nan());
    }
}

/// A sibling menu opens on the crumb's own row.
pub proof fn a_menu_opens_on_its_own_row(s: State, crumbs: Seq<usize>, anchor: (Single, Single))
    requires
        crumbs.len() > 0,
    ensures
        ({
            let after = s.open_crumb_menu(crumbs, anchor);
            let parent = crumbs.take(crumbs.len() - 1);
            let rows = s.sibling_rows(parent);
            &&& after.crumb_menu is Some
            &&& after.crumb_menu->0.parent == parent
            &&& after.crumb_menu->0.current == crumbs.last()
            &&& after.crumb_menu->0.anchor == anchor
            &&& rows.len() <= usize::MAX && rows.contains(crumbs.last()) ==> {
                &&& after.crumb_menu->0.highlighted < rows.len()
                &&& rows[after.crumb_menu->0.highlighted as int] == crumbs.last()
            }
            &&& !rows.contains(crumbs.last()) ==> after.crumb_menu->0.highlighted == 0
            &&& after == State { crumb_menu: after.crumb_menu, ..s }
        }),
        s.open_crumb_menu(Seq::empty(), anchor) == s,
{
    let parent = crumbs.take(crumbs.len() - 1);
    assert(crumbs.drop_last() =~= parent);
    lemma_position_found(s.sibling_rows(parent), crumbs.last());
}

proof fn lemma_position_found(list: Seq<usize>, wanted: usize)
    ensures
        match tree::position(list, wanted) {
            Some(at) => 0 <= at < list.len() && list[at] == wanted,
            None => !list.contains(wanted),
        },
    decreases list.len(),
{
    if list.len() > 0 {
        let short = list.drop_last();
        lemma_position_found(short, wanted);
        if list.contains(wanted) {
            let i = choose|i: int| 0 <= i < list.len() && list[i] == wanted;
            if i < short.len() {
                assert(short[i] == wanted);
                assert(short.contains(wanted));
            }
        }
    }
}

/// Choosing a sibling goes into a directory, and beside a file.
pub proof fn a_sibling_is_gone_to(s: State, parent: Seq<usize>, index: usize)
    ensures
        ({
            let after = s.choose_sibling(parent, index);
            let is_dir = s.node_at(parent.push(index)) matches Some(node) && node.dir;
            &&& after.crumb_menu is None
            &&& after.selected == Some(parent.push(index))
            &&& is_dir ==> after.crumbs == parent.push(index)
            &&& !is_dir ==> after.crumbs == parent
        }),
{
    reveal(State::go_to);
    assert(parent.push(index).drop_last() =~= parent);
    let closed = State { crumb_menu: None, ..s };
    a_jump_ends_where_it_was_to(closed, parent.push(index));
    a_jump_ends_where_it_was_to(closed, parent);
    assert(parent.push(index).take(parent.len() as int) =~= parent);
}

/// While a sibling menu is open, the arrows move along its rows and stop at
/// the ends, Enter goes to the row, Escape closes it, and any other key closes
/// it before acting.
pub proof fn a_menu_has_its_keys(s: State, key: Key)
    requires
        s.crumb_menu matches Some(menu) && menu.highlighted < s.sibling_rows(menu.parent).len(),
        s.sibling_rows(s.crumb_menu->0.parent).len() <= usize::MAX,
    ensures
        ({
            let menu = s.crumb_menu->0;
            let rows = s.sibling_rows(menu.parent);
            let (after, taken) = s.on_menu_key(key);
            let at = menu.highlighted;
            &&& key == Key::Down || key == Key::J ==> taken && after.crumb_menu is Some
                && after.crumb_menu->0.highlighted == (if at + 1 < rows.len() {
                at + 1
            } else {
                at as int
            })
            &&& key == Key::Up || key == Key::K ==> taken && after.crumb_menu is Some
                && after.crumb_menu->0.highlighted == (if at > 0 {
                at - 1
            } else {
                0
            })
            &&& key == Key::Home ==> taken && after.crumb_menu is Some
                && after.crumb_menu->0.highlighted == 0
            &&& key == Key::End ==> taken && after.crumb_menu is Some
                && after.crumb_menu->0.highlighted == rows.len() - 1
            &&& key == Key::Enter || key == Key::Space || key == Key::Right || key == Key::L ==> taken
                && after.selected == Some(menu.parent.push(rows[at as int])) && after.crumb_menu is None
            &&& key == Key::Escape || key == Key::Left || key == Key::H ==> taken && after
                == (State { crumb_menu: None, ..s })
            &&& !taken ==> after == (State { crumb_menu: None, ..s })
            &&& after.crumb_menu is Some ==> after.crumbs == s.crumbs && after.selected == s.selected
        }),
{
    reveal(State::on_menu_key);
    let menu = s.crumb_menu->0;
    let rows = s.sibling_rows(menu.parent);
    a_sibling_is_gone_to(s, menu.parent, rows[menu.highlighted as int]);
}

/// The trail ends in the directory on screen: each step down bears the name of
/// what it leads to.
pub proof fn the_trail_leads_to_the_directory_on_screen(s: State)
    requires
        s.node_at(s.crumbs) is Some,
    ensures
        ({
            let trail = s.breadcrumbs();
            let above = paths::parts(s.root_path).len();
            &&& trail.len() == above + 1 + s.crumbs.len()
            &&& trail[above as int] == (paths::label(s.root_path), Place::Tree(Seq::empty()))
            &&& forall|k: int|
                1 <= k <= s.crumbs.len() ==> #[trigger] trail[above + k] == (
                    s.node_at(s.crumbs.take(k))->0.name(),
                    Place::Tree(s.crumbs.take(k)),
                )
            &&& forall|k: int|
                0 <= k < above ==> (#[trigger] trail[k]).1 == Place::Above(
                    paths::ancestor(s.root_path, k),
                ) && trail[k].0 == paths::label(paths::ancestor(s.root_path, k))
        }),
{
    lemma_steps(s.tree->0, s.crumbs, s.crumbs.len() as int);
    let trail = s.breadcrumbs();
    let above = paths::parts(s.root_path).len();
    let steps = navigation::steps(s.tree->0, s.crumbs, s.crumbs.len() as int);
    assert forall|k: int| 1 <= k <= s.crumbs.len() implies #[trigger] trail[above + k] == (
        s.node_at(s.crumbs.take(k))->0.name(),
        Place::Tree(s.crumbs.take(k)),
    ) by {
        assert(trail[above + k] == steps[k - 1]);
    }
}

proof fn lemma_steps(root: Node, crumbs: Seq<usize>, count: int)
    requires
        0 <= count <= crumbs.len(),
        tree::resolve(root, crumbs) is Some,
    ensures
        navigation::steps(root, crumbs, count).len() == count,
        forall|k: int|
            1 <= k <= count ==> #[trigger] navigation::steps(root, crumbs, count)[k - 1] == (
                tree::resolve(root, crumbs.take(k))->0.name(),
                Place::Tree(crumbs.take(k)),
            ),
    decreases count,
{
    if count > 0 {
        lemma_steps(root, crumbs, count - 1);
        lemma_prefix_resolves(root, crumbs, count);
        assert forall|k: int| 1 <= k <= count implies #[trigger] navigation::steps(
            root,
            crumbs,
            count,
        )[k - 1] == (tree::resolve(root, crumbs.take(k))->0.name(), Place::Tree(crumbs.take(k))) by {
            if k < count {
                assert(navigation::steps(root, crumbs, count)[k - 1] == navigation::steps(
                    root,
                    crumbs,
                    count - 1,
                )[k - 1]);
            }
        }
    }
}

proof fn lemma_prefix_resolves(root: Node, crumbs: Seq<usize>, len: int)
    requires
        0 <= len <= crumbs.len(),
        tree::resolve(root, crumbs) is Some,
    ensures
        tree::resolve(root, crumbs.take(len)) is Some,
    decreases crumbs.len(),
{
    if len > 0 {
        assert(crumbs.take(len).skip(1) =~= crumbs.skip(1).take(len - 1));
        lemma_prefix_resolves(root.children@[crumbs[0] as int], crumbs.skip(1), len - 1);
    } else {
        assert(crumbs.take(0) =~= Seq::empty());
        assert(tree::resolve(root, Seq::empty()) == Some(root));
    }
}

// ── marking ────────────────────────────────────────────────────────────

/// Marking what is marked unmarks it, and leaves every other mark alone.
pub proof fn marking_again_unmarks_that_alone(s: State, target: Mark)
    requires
        exists|i: int|
            0 <= i < s.marks.len() && paths::components((#[trigger] s.marks[i]).path)
                == paths::components(target.path),
    ensures
        ({
            let after = s.toggle_target(target).marks;
            &&& !marks::marked(after, target.path)
            &&& forall|i: int|
                0 <= i < s.marks.len() && paths::components((#[trigger] s.marks[i]).path)
                    != paths::components(target.path) ==> after.contains(s.marks[i])
            &&& forall|i: int| 0 <= i < after.len() ==> s.marks.contains(#[trigger] after[i])
        }),
{
    assert(marks::marked(s.marks, target.path));
    lemma_unmarked(s.marks, target.path);
}

proof fn lemma_unmarked(all: Seq<Mark>, path: Seq<u8>)
    ensures
        ({
            let after = all.filter(marks::apart_from(path));
            &&& !marks::marked(after, path)
            &&& forall|i: int|
                0 <= i < all.len() && paths::components((#[trigger] all[i]).path)
                    != paths::components(path) ==> after.contains(all[i])
            &&& forall|i: int| 0 <= i < after.len() ==> all.contains(#[trigger] after[i])
        }),
{
    let pred = marks::apart_from(path);
    let after = all.filter(pred);
    assert forall|i: int| 0 <= i < after.len() implies all.contains(#[trigger] after[i]) && pred(
        after[i],
    ) by {
        assert(after.contains(after[i]));
        all.lemma_filter_contains_rev(pred, after[i]);
        all.lemma_filter_pred(pred, i);
    }
    assert forall|i: int|
        0 <= i < all.len() && paths::components((#[trigger] all[i]).path) != paths::components(
            path,
        ) implies after.contains(all[i]) by {
        assert(pred(all[i]));
        all.lemma_filter_contains(pred, i);
    }
}

/// Unmarking a path, from the page or over the wire, takes its mark away and
/// no other.
pub proof fn unmarking_takes_one_mark_away(s: State, path: Seq<u8>)
    ensures
        ({
            let after = s.marks.filter(marks::apart_from(path));
            &&& !marks::marked(after, path)
            &&& forall|i: int|
                0 <= i < s.marks.len() && paths::components((#[trigger] s.marks[i]).path)
                    != paths::components(path) ==> after.contains(s.marks[i])
            &&& forall|i: int| 0 <= i < after.len() ==> s.marks.contains(#[trigger] after[i])
        }),
{
    lemma_unmarked(s.marks, path);
}

/// A new mark is the target as it measures, and the marks outside it stay.
pub proof fn a_new_mark_keeps_the_marks_outside_it(s: State, crumbs: Seq<usize>)
    requires
        s.node_at(crumbs) is Some,
        !marks::marked(s.marks, s.path_at(crumbs)->0),
        forall|i: int|
            0 <= i < s.marks.len() ==> !paths::starts_with(
                s.path_at(crumbs)->0,
                (#[trigger] s.marks[i]).path,
            ),
    ensures
        ({
            let path = s.path_at(crumbs)->0;
            let node = s.node_at(crumbs)->0;
            let after = s.toggle_mark(crumbs);
            &&& after.marks.len() > 0
            &&& after.marks.last().path == path
            &&& after.marks.last().is_dir == node.dir
            &&& s.options.metric == Metric::Bytes ==> after.marks.last().bytes == node.bytes
            &&& s.options.metric == Metric::Files ==> after.marks.last().bytes == node.files
            &&& forall|i: int|
                0 <= i < s.marks.len() && !paths::starts_with((#[trigger] s.marks[i]).path, path)
                    ==> after.marks.contains(s.marks[i])
            &&& after.space_baseline == (if s.space_baseline is Some {
                s.space_baseline
            } else {
                s.space
            })
            &&& after.selected == s.selected && after.crumbs == s.crumbs
        }),
{
    reveal(State::toggle_mark);
    reveal(Seq::filter);
    let target = s.target_at(crumbs)->0;
    let path = target.path;
    marks::lemma_shortest_cover(s.marks, path);
    let all = s.marks.push(target);
    let pred = marks::not_inside(path);
    assert(all.drop_last() =~= s.marks);
    assert(pred(target));
    let after = s.toggle_mark(crumbs).marks;
    assert(after == s.marks.filter(pred).push(target));
    assert forall|i: int|
        0 <= i < s.marks.len() && !paths::starts_with((#[trigger] s.marks[i]).path, path) implies after.contains(
        s.marks[i],
    ) by {
        assert(pred(s.marks[i]));
        s.marks.lemma_filter_contains(pred, i);
        let kept = s.marks.filter(pred);
        let k = choose|k: int| 0 <= k < kept.len() && kept[k] == s.marks[i];
        assert(after[k] == s.marks[i]);
    }
}

/// What a mark absorbed is counted in the notice.
pub proof fn absorbed_marks_are_counted(s: State, crumbs: Seq<usize>)
    requires
        s.node_at(crumbs) is Some,
        !marks::marked(s.marks, s.path_at(crumbs)->0),
        forall|i: int|
            0 <= i < s.marks.len() ==> !paths::starts_with(
                s.path_at(crumbs)->0,
                (#[trigger] s.marks[i]).path,
            ),
    ensures
        ({
            let after = s.toggle_mark(crumbs);
            let gone = s.marks.len() + 1 - after.marks.len();
            match after.notice {
                Some(News::Covers { path, count }) => count == gone && gone > 0 && path
                    == s.path_at(crumbs)->0,
                Some(_) => false,
                None => gone == 0,
            }
        }),
{
    reveal(State::toggle_mark);
    let target = s.target_at(crumbs)->0;
    marks::lemma_shortest_cover(s.marks, target.path);
    let all = s.marks.push(target);
    all.lemma_filter_len(marks::not_inside(target.path));
}

/// The cover a panel names is the first mark that the path lies strictly
/// inside of.
pub proof fn a_cover_is_the_first_that_holds_it(all: Seq<Mark>, path: Seq<u8>)
    ensures
        match marks::first_cover(all, path) {
            Some(cover) => exists|i: int|
                {
                    &&& 0 <= i < all.len()
                    &&& (#[trigger] all[i]).path == cover
                    &&& paths::starts_with(path, cover)
                    &&& paths::components(path) != paths::components(cover)
                    &&& forall|j: int|
                        0 <= j < i ==> !(paths::starts_with(path, (#[trigger] all[j]).path)
                            && paths::components(path) != paths::components(all[j].path))
                },
            None => forall|j: int|
                0 <= j < all.len() ==> !(paths::starts_with(path, (#[trigger] all[j]).path)
                    && paths::components(path) != paths::components(all[j].path)),
        },
    decreases all.len(),
{
    if all.len() > 0 {
        let short = all.drop_last();
        a_cover_is_the_first_that_holds_it(short, path);
        assert forall|j: int| 0 <= j < short.len() implies short[j] == #[trigger] all[j] by {}
        match marks::first_cover(short, path) {
            Some(cover) => {
                let i = choose|i: int|
                    {
                        &&& 0 <= i < short.len()
                        &&& (#[trigger] short[i]).path == cover
                        &&& paths::starts_with(path, cover)
                        &&& paths::components(path) != paths::components(cover)
                        &&& forall|j: int|
                            0 <= j < i ==> !(paths::starts_with(path, (#[trigger] short[j]).path)
                                && paths::components(path) != paths::components(short[j].path))
                    };
                assert(all[i].path == cover);
                assert forall|j: int| 0 <= j < i implies !(paths::starts_with(
                    path,
                    (#[trigger] all[j]).path,
                ) && paths::components(path) != paths::components(all[j].path)) by {
                    assert(short[j] == all[j]);
                }
            },
            None => {
                let last = all.len() - 1;
                assert(all[last].path == all.last().path);
            },
        }
    }
}

// ── the report of a run ────────────────────────────────────────────────

/// What a run reports is counted once: an item that went adds itself and its
/// size, one that did not adds a failure, and either adds a line; the end has
/// the last word.
pub proof fn every_item_is_counted_once(
    summary: crate::app::RunSummary,
    log: Seq<crate::app::LogLine>,
    events: Seq<RemovalEvent>,
    event: RemovalEvent,
)
    ensures
        ({
            let n = events.len() as int;
            let before = removal::summary_of(summary, events, n);
            let after = removal::summary_of(summary, events.push(event), n + 1);
            let lines = removal::log_after(log, events, n);
            let more = removal::log_after(log, events.push(event), n + 1);
            match event {
                RemovalEvent::Start { total } => {
                    &&& after.total == total && after.removed == before.removed && after.failed
                        == before.failed && after.bytes == before.bytes
                    &&& more == lines
                },
                RemovalEvent::Item { path, bytes, error } => {
                    &&& after.total == before.total
                    &&& more.len() == lines.len() + 1
                    &&& more.take(lines.len() as int) == lines
                    &&& more.last().path == path@
                    &&& error is None ==> {
                        &&& more.last().error is None
                        &&& after.failed == before.failed
                        &&& before.removed < u64::MAX ==> after.removed == before.removed + 1
                        &&& before.bytes + bytes <= u64::MAX ==> after.bytes == before.bytes
                            + bytes
                    }
                    &&& error is Some ==> {
                        &&& more.last().error == Some(error->0@)
                        &&& after.removed == before.removed && after.bytes == before.bytes
                        &&& before.failed < usize::MAX ==> after.failed == before.failed + 1
                    }
                },
                RemovalEvent::Done { removed, bytes, failed } => {
                    &&& after.removed == removed && after.bytes == bytes && after.failed == failed
                        && after.total == before.total
                    &&& more == lines
                },
            }
        }),
{
    let n = events.len() as int;
    lemma_events_prefix(summary, log, events, event, n);
    assert(events.push(event)[n] == event);
    let lines = removal::log_after(log, events, n);
    let more = removal::log_after(log, events.push(event), n + 1);
    if event is Item {
        assert(more.take(lines.len() as int) =~= lines);
    }
}

proof fn lemma_events_prefix(
    summary: crate::app::RunSummary,
    log: Seq<crate::app::LogLine>,
    events: Seq<RemovalEvent>,
    event: RemovalEvent,
    count: int,
)
    requires
        0 <= count <= events.len(),
    ensures
        removal::summary_of(summary, events.push(event), count) == removal::summary_of(
            summary,
            events,
            count,
        ),
        removal::log_after(log, events.push(event), count) == removal::log_after(
            log,
            events,
            count,
        ),
    decreases count,
{
    if count > 0 {
        lemma_events_prefix(summary, log, events, event, count - 1);
        assert(events.push(event)[count - 1] == events[count - 1]);
    }
}

/// Until the end is reported a run goes on: the marks stay, the screen stays,
/// and nothing is scanned; and with no run there is nothing to report.
pub proof fn a_run_goes_on_until_its_end(s: State, events: Seq<RemovalEvent>)
    ensures
        !s.removing ==> s.poll_removal(events) == (s, Work::Nothing),
        s.removing && (forall|i: int| 0 <= i < events.len() ==> !((#[trigger] events[i]) is Done))
            ==> {
            let (after, work) = s.poll_removal(events);
            &&& work == Work::Nothing
            &&& after.marks == s.marks
            &&& after.screen == s.screen
            &&& after.removing
            &&& after.tree == s.tree
        },
        s.removing ==> s.poll_removal(events).0.run_summary == removal::summary_of(
            s.run_summary,
            events,
            events.len() as int,
        ) && s.poll_removal(events).0.run_log == removal::log_after(
            s.run_log,
            events,
            events.len() as int,
        ),
{
    reveal(State::start_scan);
    reveal(State::clear_filter);
}

/// A run starts with a clean slate and knows how much there is to do; the room
/// before it is remembered.
pub proof fn a_run_starts_with_a_clean_slate(s: State, plan: Plan)
    requires
        0 < plan.targets@.len() <= usize::MAX,
    ensures
        ({
            let (after, work) = s.begin_removal(plan);
            &&& work is Remove
            &&& after.run_summary.total == plan.targets@.len()
            &&& after.run_summary.removed == 0 && after.run_summary.bytes == 0
                && after.run_summary.failed == 0
            &&& after.run_log.len() == 0
            &&& after.screen == Screen::Running
            &&& after.space_baseline == (if s.space is Some {
                s.space
            } else {
                s.space_baseline
            })
            &&& after.removal_mode == s.removal_mode
        }),
{
}

// ── scanning ───────────────────────────────────────────────────────────

/// A scan starts over from the root with the options as they are: nothing of
/// the old tree stays, and the marks and choices do.
pub proof fn a_scan_starts_over(s: State)
    ensures
        ({
            let (after, work) = s.start_scan();
            &&& work == (Work::Scan { root: s.root_path, options: s.options })
            &&& after.scanning
            &&& after.scan_root == s.root_path
            &&& after.tree is None
            &&& after.crumbs.len() == 0
            &&& after.selected is None
            &&& after.cache is None
            &&& after.scan_error is None
            &&& after.scan_elapsed is None
            &&& after.insights.len() == 0
            &&& after.git.len() == 0
            &&& after.matches is None
            &&& !after.filter_applied
            &&& after.camera == Camera::still()
            &&& after.progress == ScanSnapshot {
                files: 0,
                dirs: 0,
                bytes: 0,
                errors: 0,
                finished: false,
            }
            &&& after.marks == s.marks
            &&& after.removal_mode == s.removal_mode
            &&& after.root_path == s.root_path
            &&& after.options == s.options
            &&& after.screen == s.screen
            &&& after.depth == s.depth
            &&& after.color_mode == s.color_mode
        }),
{
    reveal(State::start_scan);
    reveal(State::clear_filter);
}

/// Another root is scanned from scratch on its own volume.
pub proof fn another_root_is_scanned_from_scratch(s: State, root: Seq<u8>, volume: Volume)
    ensures
        ({
            let (after, work) = s.set_root(root, volume);
            &&& work == (Work::Scan { root, options: s.options })
            &&& after.root_path == root
            &&& after.space == volume.space
            &&& after.screen == Screen::Explore
            &&& after.tree is None
            &&& after.marks == s.marks
        }),
{
    reveal(State::start_scan);
    reveal(State::clear_filter);
}

/// Widening goes only to a directory strictly above the scanned root, and
/// hands on the tree already measured; with no tree it is a scan from scratch.
pub proof fn widening_goes_only_up(s: State, above: Seq<u8>, volume: Volume)
    ensures
        ({
            let (after, work) = s.widen_to(above, volume);
            let up = paths::components(above).is_prefix_of(paths::components(s.root_path))
                && paths::components(above) != paths::components(s.root_path);
            &&& s.tree is Some && up ==> {
                &&& work == (Work::Widen { root: above, options: s.options, known: s.root_path })
                &&& after.scanning
                &&& after.scan_root == above
            }
            &&& s.tree is Some && !up ==> work == Work::Nothing && after == s
            &&& s.tree is None ==> work == (Work::Scan { root: above, options: s.options })
                && after.root_path == above
        }),
{
    reveal(State::start_scan);
    reveal(State::clear_filter);
}

/// The whole disk is the disk's top: gone to where it is scanned already, and
/// widened to where it is not.
pub proof fn the_whole_disk_is_its_top(s: State, volume: Volume)
    ensures
        s.disk_root is None ==> s.go_to_disk(volume) == (s, Work::Nothing),
        s.disk_root matches Some(disk) ==> {
            &&& paths::components(disk) == paths::components(s.root_path) ==> s.go_to_disk(
                volume,
            ).0.crumbs.len() == 0 && s.go_to_disk(volume).1 == Work::Nothing
            &&& paths::components(disk) != paths::components(s.root_path) ==> s.go_to_disk(volume)
                == s.widen_to(disk, volume)
        },
{
    reveal(State::go_to_disk);
    reveal(State::go_to);
}

/// A choice of what is measured asks for another ranking exactly where the
/// measure changes, and sets what colour says.
pub proof fn a_mode_measures_and_colours(s: State, index: usize)
    ensures
        ({
            let (after, work) = s.set_mode(index);
            let metric = if index == 1 {
                Metric::Files
            } else {
                Metric::Bytes
            };
            &&& after.options.metric == metric
            &&& after.color_mode == (if index == 2 {
                ColorMode::Age
            } else {
                ColorMode::Kind
            })
            &&& s.options.metric == metric ==> work == Work::Nothing
            &&& s.options.metric != metric ==> work == (Work::Remeasure { metric })
                && after.cache is None && after.matches is None
            &&& after.options == ScanOptions { metric, ..s.options }
            &&& after.marks == s.marks && after.crumbs == s.crumbs && after.tree == s.tree
        }),
{
    reveal(State::set_mode);
    lemma_mode_colour(s, index);
    lemma_other_metric(State { color_mode: s.set_mode(index).0.color_mode, ..s });
}

proof fn lemma_other_metric(s: State)
    ensures
        ({
            let (after, work) = s.toggle_metric();
            let metric = if s.options.metric == Metric::Bytes {
                Metric::Files
            } else {
                Metric::Bytes
            };
            &&& work == (Work::Remeasure { metric })
            &&& after.options == ScanOptions { metric, ..s.options }
            &&& after.color_mode == s.color_mode
            &&& after.cache is None && after.matches is None
            &&& after.marks == s.marks && after.crumbs == s.crumbs && after.tree == s.tree
        }),
{
    reveal(State::toggle_metric);
    reveal(State::clear_filter);
}

proof fn lemma_mode_colour(s: State, index: usize)
    ensures
        s.set_mode(index).0.color_mode == (if index == 2 {
            ColorMode::Age
        } else {
            ColorMode::Kind
        }),
{
    reveal(State::set_mode);
    reveal(State::toggle_metric);
    reveal(State::clear_filter);
}

/// A tree ranked anew is taken up with its marks measured again.
pub proof fn a_new_ranking_is_taken_up(
    s: State,
    ranked: Remeasured,
    insights: Seq<crate::app::Candidate>,
    now: i64,
)
    requires
        s.tree is Some,
    ensures
        ({
            let after = s.remeasured(Some(ranked), insights, now);
            &&& after.tree == Some(ranked.tree)
            &&& after.marks == marks::marks_of(ranked.marks@)
            &&& after.insights == insights
            &&& after.scanned_at == now
            &&& after.crumbs == s.crumbs && after.options == s.options
        }),
        s.remeasured(None, insights, now).marks == s.marks,
        s.remeasured(None, insights, now).tree == s.tree,
{
}

/// One level more or fewer is drawn, between one and six.
pub proof fn a_level_is_added_or_taken(s: State, step: int)
    ensures
        1 <= s.adjust_depth(step).depth <= 6,
        1 <= s.depth + step <= 6 ==> s.adjust_depth(step).depth == s.depth + step,
        s.depth + step < 1 ==> s.adjust_depth(step).depth == 1,
        s.depth + step > 6 ==> s.adjust_depth(step).depth == 6,
        s.adjust_depth(step).cache is None,
{
    reveal(State::adjust_depth);
}

/// Git is asked about a path once: the first answer stays, and no other path's
/// answer changes.
pub proof fn git_is_asked_once(
    s: State,
    path: Seq<u8>,
    other: Seq<u8>,
    state: Option<crate::app::GitState>,
)
    ensures
        s.git_at(path) is None ==> s.ensure_git(path, state).git_at(path) == Some(state),
        s.git_at(path) is Some ==> s.ensure_git(path, state) == s,
        paths::components(path) != paths::components(other) ==> s.ensure_git(
            path,
            state,
        ).git_at(other) == s.git_at(other),
{
    if s.git_at(path) is None {
        let grown = s.git.push((path, state));
        assert(grown.drop_last() =~= s.git);
    }
}

} // verus!
