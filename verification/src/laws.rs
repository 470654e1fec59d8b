//! What holds of the application as a whole.

use crate::app::{Screen, State, Tile, Work, MAX_DEPTH, MIN_DEPTH};
use crate::args;
use crate::args::{Choice, Meaning, Word};
use crate::input;
use crate::input::{Around, Event};
use crate::keys::Key;
use crate::marks;
use crate::marks::{Mark, Plan, RemovalMode};
use crate::mosaic;
use crate::mosaic::{Canvas, Drawn};
use crate::palette;
use crate::palette::Palette;
use crate::paths;
use crate::server;
use crate::single;
use crate::single::Single;
use crate::text;
use crate::tree;
use crate::tree::Node;
use crate::words::Words;
use vstd::prelude::*;

verus! {

// ── marks ──────────────────────────────────────────────────────────────

/// Neither mark covers the other.
spec fn apart(a: Mark, b: Mark) -> bool {
    !paths::starts_with(a.path, b.path) && !paths::starts_with(b.path, a.path)
}

proof fn lemma_filter_disjoint(all: Seq<Mark>, pred: spec_fn(Mark) -> bool)
    requires
        forall|i: int, j: int|
            0 <= i < j < all.len() && pred(all[i]) && pred(all[j]) ==> apart(
                #[trigger] all[i],
                #[trigger] all[j],
            ),
    ensures
        marks::disjoint(all.filter(pred)),
    decreases all.len(),
{
    reveal(Seq::filter);
    broadcast use vstd::seq_lib::group_filter_ensures;

    if all.len() > 0 {
        let short = all.drop_last();
        assert forall|i: int, j: int|
            0 <= i < j < short.len() && pred(short[i]) && pred(short[j]) implies apart(
            #[trigger] short[i],
            #[trigger] short[j],
        ) by {
            assert(short[i] == all[i] && short[j] == all[j]);
        }
        lemma_filter_disjoint(short, pred);
        let kept = short.filter(pred);
        if pred(all.last()) {
            let whole = kept.push(all.last());
            assert forall|i: int, j: int|
                0 <= i < whole.len() && 0 <= j < whole.len() && i
                    != j implies !paths::starts_with(
                (#[trigger] whole[i]).path,
                (#[trigger] whole[j]).path,
            ) by {
                if i < kept.len() && j < kept.len() {
                    assert(kept[i] == whole[i] && kept[j] == whole[j]);
                } else {
                    let k = if i < kept.len() {
                        i
                    } else {
                        j
                    };
                    assert(whole[k] == kept[k]);
                    assert(kept.contains(kept[k]));
                    short.lemma_filter_contains_rev(pred, kept[k]);
                    short.lemma_filter_pred(pred, k);
                    assert(short.contains(kept[k]) && pred(kept[k]));
                    let m = choose|m: int| 0 <= m < short.len() && short[m] == kept[k];
                    assert(apart(all[m], all[all.len() - 1]));
                }
            }
        }
    }
}

proof fn lemma_toggle_target(s: State, target: Mark)
    requires
        marks::disjoint(s.marks),
    ensures
        marks::disjoint(s.toggle_target(target).marks),
{
    let path = target.path;
    if marks::marked(s.marks, path) {
        lemma_filter_disjoint(s.marks, marks::apart_from(path));
    } else {
        marks::lemma_shortest_cover(s.marks, path);
        if marks::shortest_cover(s.marks, path) is None {
            let all = s.marks.push(target);
            let pred = marks::not_inside(path);
            assert forall|i: int, j: int|
                0 <= i < j < all.len() && pred(all[i]) && pred(all[j]) implies apart(
                #[trigger] all[i],
                #[trigger] all[j],
            ) by {
                if j < s.marks.len() {
                    assert(all[i] == s.marks[i] && all[j] == s.marks[j]);
                } else {
                    assert(all[i] == s.marks[i]);
                    assert(!paths::same_path(s.marks[i].path, path));
                    assert(!marks::inside(path, s.marks[i].path));
                    assert(!marks::inside(s.marks[i].path, path));
                }
            }
            lemma_filter_disjoint(all, pred);
        }
    }
}

/// However things are marked and unmarked, no mark is ever inside another.
pub proof fn marks_never_overlap(s: State, crumbs: Seq<usize>)
    requires
        marks::disjoint(s.marks),
    ensures
        marks::disjoint(s.toggle_mark(crumbs).marks),
{
    reveal(State::toggle_mark);
    match s.target_at(crumbs) {
        Some(target) => lemma_toggle_target(s, target),
        None => {},
    }
}

/// Marking a path that is not covered marks it, and takes in every mark
/// inside it.
pub proof fn marking_absorbs_what_is_inside(s: State, crumbs: Seq<usize>)
    requires
        s.target_at(crumbs) matches Some(target) && !marks::marked(s.marks, target.path)
            && marks::shortest_cover(s.marks, target.path) is None,
    ensures
        ({
            let path = s.target_at(crumbs)->0.path;
            let after = s.toggle_mark(crumbs).marks;
            &&& marks::marked(after, path)
            &&& forall|i: int|
                0 <= i < after.len() ==> !marks::inside((#[trigger] after[i]).path, path)
        }),
{
    reveal(State::toggle_mark);
    reveal(Seq::filter);
    broadcast use vstd::seq_lib::group_filter_ensures;

    let target = s.target_at(crumbs)->0;
    let all = s.marks.push(target);
    let pred = marks::not_inside(target.path);
    let after = s.toggle_mark(crumbs).marks;
    assert(after == all.filter(pred));
    assert(all.drop_last() =~= s.marks);
    assert(pred(target));
    assert(after == s.marks.filter(pred).push(target));
    assert(paths::same_path(after[after.len() - 1].path, target.path));
    assert forall|i: int| 0 <= i < after.len() implies !marks::inside(
        (#[trigger] after[i]).path,
        target.path,
    ) by {
        assert(after.contains(after[i]));
        assert(pred(after[i]));
    }
}

/// What is inside a marked directory goes with it: it is not marked on its
/// own, and the marks stay as they are.
pub proof fn what_is_covered_goes_along(s: State, crumbs: Seq<usize>)
    requires
        s.target_at(crumbs) matches Some(target) && !marks::marked(s.marks, target.path)
            && marks::shortest_cover(s.marks, target.path) is Some,
    ensures
        s.toggle_mark(crumbs).marks == s.marks,
        s.toggle_mark(crumbs).notice is Some,
{
    reveal(State::toggle_mark);
}

/// Marking and unmarking again leaves the marks as they were, when nothing
/// was absorbed.
pub proof fn unmarking_undoes_marking(s: State, crumbs: Seq<usize>)
    requires
        s.target_at(crumbs) matches Some(target) && !marks::marked(s.marks, target.path)
            && marks::shortest_cover(s.marks, target.path) is None && forall|i: int|
            0 <= i < s.marks.len() ==> !marks::inside((#[trigger] s.marks[i]).path, target.path),
    ensures
        s.toggle_mark(crumbs).toggle_mark(crumbs).marks == s.marks,
{
    reveal(State::toggle_mark);
    reveal(Seq::filter);
    let target = s.target_at(crumbs)->0;
    let path = target.path;
    let all = s.marks.push(target);
    assert(all.drop_last() =~= s.marks);
    assert forall|i: int| 0 <= i < s.marks.len() implies marks::not_inside(path)(
        #[trigger] s.marks[i],
    ) by {}
    lemma_filter_all(s.marks, marks::not_inside(path));
    let once = s.toggle_mark(crumbs);
    assert(once.marks == all);
    assert(once.target_at(crumbs) == Some(target));
    assert(paths::same_path(all[all.len() - 1].path, path));
    assert(marks::marked(all, path));
    assert forall|i: int| 0 <= i < s.marks.len() implies marks::apart_from(path)(
        #[trigger] s.marks[i],
    ) by {}
    lemma_filter_all(s.marks, marks::apart_from(path));
    assert(all.filter(marks::apart_from(path)) == s.marks);
}

proof fn lemma_filter_all(all: Seq<Mark>, pred: spec_fn(Mark) -> bool)
    requires
        forall|i: int| 0 <= i < all.len() ==> pred(#[trigger] all[i]),
    ensures
        all.filter(pred) == all,
    decreases all.len(),
{
    reveal(Seq::filter);
    if all.len() > 0 {
        let short = all.drop_last();
        assert forall|i: int| 0 <= i < short.len() implies pred(#[trigger] short[i]) by {
            assert(short[i] == all[i]);
        }
        lemma_filter_all(short, pred);
        assert(short.push(all.last()) =~= all);
    } else {
        assert(all.filter(pred) =~= all);
    }
}

/// The keys never mark the scanned root: the marks stay, and the refusal says
/// why.
pub proof fn the_root_stays(s: State)
    requires
        s.selected == Some(Seq::<usize>::empty()),
    ensures
        s.toggle_mark_selected().marks == s.marks,
        s.toggle_mark_selected().notice == Some(crate::app::News::RootStays),
{
    reveal(State::toggle_mark_selected);
}

// ── what every event keeps ─────────────────────────────────────────────

/// The marks do not overlap, and the drawn depth is one there is.
pub open spec fn sound(s: State) -> bool {
    marks::disjoint(s.marks) && MIN_DEPTH <= s.depth <= MAX_DEPTH
}

proof fn lemma_navigation_keeps(s: State, target: Seq<usize>, step: int)
    ensures
        s.enter(target).marks == s.marks && s.enter(target).depth == s.depth,
        s.ascend().marks == s.marks && s.ascend().depth == s.depth,
        s.descend().marks == s.marks && s.descend().depth == s.depth,
        s.clear_filter().marks == s.marks && s.clear_filter().depth == s.depth,
        s.cycle_sibling(step).marks == s.marks && s.cycle_sibling(step).depth == s.depth,
{
    reveal(State::enter);
    reveal(State::ascend);
    reveal(State::descend);
    reveal(State::clear_filter);
    reveal(State::cycle_sibling);
}

proof fn lemma_travel_keeps(s: State, back: bool)
    ensures
        s.travel(back).marks == s.marks && s.travel(back).depth == s.depth,
{
    reveal(State::travel);
}

proof fn lemma_go_to_keeps(s: State, crumbs: Seq<usize>)
    ensures
        s.go_to(crumbs).marks == s.marks && s.go_to(crumbs).depth == s.depth,
        s.revealed(crumbs).marks == s.marks && s.revealed(crumbs).depth == s.depth,
{
    reveal(State::go_to);
}

proof fn lemma_sibling_keeps(s: State, parent: Seq<usize>, index: usize)
    ensures
        s.choose_sibling(parent, index).marks == s.marks,
        s.choose_sibling(parent, index).depth == s.depth,
{
    reveal(State::go_to);
}

proof fn lemma_zoom_keeps(s: State, factor: Single, descend: bool, around: Around)
    ensures
        s.zoom_at(factor, descend, around).marks == s.marks,
        s.zoom_at(factor, descend, around).depth == s.depth,
{
    reveal(State::zoom_at);
    lemma_navigation_keeps(s, s.inside(factor, around)->0, 0);
}

proof fn lemma_scan_keeps(s: State)
    ensures
        s.start_scan().0.marks == s.marks && s.start_scan().0.depth == s.depth,
{
    reveal(State::start_scan);
    reveal(State::clear_filter);
}

proof fn lemma_mode_keeps(s: State, index: usize)
    ensures
        s.set_mode(index).0.marks == s.marks && s.set_mode(index).0.depth == s.depth,
{
    reveal(State::set_mode);
    reveal(State::toggle_metric);
    reveal(State::clear_filter);
}

proof fn lemma_widen_keeps(s: State, above: Seq<u8>, volume: crate::app::Volume)
    ensures
        s.widen_to(above, volume).0.marks == s.marks,
        s.widen_to(above, volume).0.depth == s.depth,
        s.go_to_disk(volume).0.marks == s.marks,
        s.go_to_disk(volume).0.depth == s.depth,
{
    reveal(State::go_to_disk);
    lemma_go_to_keeps(s, Seq::empty());
    let rooted = State {
        space: volume.space,
        device: text::opt_text(volume.device),
        root_path: above,
        screen: Screen::Explore,
        ..s
    };
    lemma_scan_keeps(rooted);
    match s.disk_root {
        Some(disk) => {
            let rooted = State {
                space: volume.space,
                device: text::opt_text(volume.device),
                root_path: disk,
                screen: Screen::Explore,
                ..s
            };
            lemma_scan_keeps(rooted);
        },
        None => {},
    }
}

proof fn lemma_screen_key_keeps(s: State, key: Key, control: bool, around: Around)
    requires
        sound(s),
    ensures
        sound(s.screen_key(key, control, around).0),
{
    reveal(State::screen_key);
    reveal(State::view_key);
    reveal(State::adjust_depth);
    reveal(State::open_review);
    reveal(State::rescan_with);
    lemma_zoom_keeps(s, Single { bits: input::KEY_OUT }, false, around);
    lemma_zoom_keeps(s, Single { bits: input::KEY_IN }, false, around);
    lemma_mode_keeps(s, ((s.mode_index() + 1) % 3) as usize);
    lemma_scan_keeps(s);
    lemma_widen_keeps(s, Seq::empty(), around.volume);
    lemma_scan_keeps(
        State {
            options: crate::app::ScanOptions {
                include_hidden: !s.options.include_hidden,
                ..s.options
            },
            ..s
        },
    );
    lemma_scan_keeps(
        State {
            options: crate::app::ScanOptions {
                apparent_size: !s.options.apparent_size,
                ..s.options
            },
            ..s
        },
    );
}

proof fn lemma_explore_key_keeps(s: State, key: Key, control: bool, shift: bool, around: Around)
    requires
        sound(s),
    ensures
        sound(s.explore_key(key, control, shift, around).0),
{
    reveal(State::explore_key);
    reveal(State::move_selection);
    reveal(State::step_back);
    reveal(State::toggle_mark_selected);
    lemma_navigation_keeps(s, Seq::empty(), 1);
    lemma_navigation_keeps(s, Seq::empty(), -1);
    lemma_screen_key_keeps(s, key, control, around);
    match s.selected {
        Some(crumbs) => {
            marks_never_overlap(s, crumbs);
            lemma_mark_keeps_depth(s, crumbs);
        },
        None => {},
    }
}

proof fn lemma_mark_keeps_depth(s: State, crumbs: Seq<usize>)
    ensures
        s.toggle_mark(crumbs).depth == s.depth,
{
    reveal(State::toggle_mark);
}

proof fn lemma_review_key_keeps(s: State, key: Key, plan: Plan)
    requires
        sound(s),
    ensures
        sound(s.on_review_key(key, plan).0),
{
    reveal(State::on_review_key);
}

proof fn lemma_menu_key_keeps(s: State, key: Key)
    requires
        sound(s),
    ensures
        sound(s.on_menu_key(key).0),
{
    reveal(State::on_menu_key);
    if let Some(menu) = s.crumb_menu {
        let rows = s.sibling_rows(menu.parent);
        lemma_sibling_keeps(s, menu.parent, rows[menu.highlighted as int]);
    }
}

proof fn lemma_key_keeps(s: State, key: Key, control: bool, shift: bool, around: Around)
    requires
        sound(s),
    ensures
        sound(s.on_key(key, control, shift, around).0),
{
    lemma_menu_key_keeps(s, key);
    let (next, taken) = s.on_menu_key(key);
    reveal(State::on_screen_key);
    reveal(State::on_explore_key);
    lemma_explore_key_keeps(next, key, control, shift, around);
    lemma_explore_key_keeps(next.adopt_pointer_target(), key, control, shift, around);
    lemma_review_key_keeps(next, key, around.plan);
}

proof fn lemma_gesture_keeps(s: State, event: Event, around: Around)
    requires
        sound(s),
    ensures
        sound(s.gesture(event, around)),
{
    reveal(State::gesture);
    match event {
        Event::Click { button, ctrl, count, .. } => {
            let under = tree::opt_crumbs(around.under);
            match under {
                Some(crumbs) => {
                    marks_never_overlap(s, crumbs);
                    lemma_mark_keeps_depth(s, crumbs);
                },
                None => {},
            }
            lemma_navigation_keeps(s, Seq::empty(), 0);
            lemma_navigation_keeps(State { selected: under, ..s }, Seq::empty(), 0);
        },
        Event::Wheel { lines, .. } => {
            reveal(State::on_scroll_wheel);
            lemma_zoom_keeps(s, Single { bits: input::WHEEL_IN }, true, around);
            lemma_zoom_keeps(s, Single { bits: input::WHEEL_OUT }, true, around);
        },
        Event::Zoom { factor, .. } => {
            lemma_zoom_keeps(s, factor, true, around);
        },
        _ => {},
    }
}

proof fn lemma_page_event_leaves(s: State, event: Event, around: Around)
    requires
        !(event is Mark),
        !(event is Unmark),
    ensures
        s.page_event(event, around).0.marks == s.marks,
        s.page_event(event, around).0.depth == s.depth,
{
    reveal(State::page_event);
    match event {
        Event::Widen { path } => {
            match crate::codec::decoded(path@) {
                Some(path) => lemma_widen_keeps(s, path, around.volume),
                None => {},
            }
        },
        Event::Goto { crumbs } => lemma_go_to_keeps(s, crumbs@),
        Event::Sibling { parent, index } => lemma_sibling_keeps(s, parent@, index),
        Event::Reveal { crumbs } => lemma_go_to_keeps(s, crumbs@),
        Event::Mode { index } => lemma_mode_keeps(s, index),
        Event::FindClear => lemma_navigation_keeps(s, Seq::empty(), 0),
        _ => {},
    }
}

proof fn lemma_page_event_keeps(s: State, event: Event, around: Around)
    requires
        sound(s),
    ensures
        sound(s.page_event(event, around).0),
{
    if let Event::Mark { crumbs } = event {
        reveal(State::page_event);
        marks_never_overlap(s, crumbs@);
        lemma_mark_keeps_depth(s, crumbs@);
    } else if let Event::Unmark { path } = event {
        reveal(State::page_event);
        match crate::codec::decoded(path@) {
            Some(path) => lemma_filter_disjoint(s.marks, marks::apart_from(path)),
            None => {},
        }
    } else {
        lemma_page_event_leaves(s, event, around);
    }
}

/// Whatever the browser sends, the marks never overlap and the drawn depth
/// stays between its limits.
pub proof fn every_event_keeps_the_state_sound(s: State, event: Event, around: Around)
    requires
        sound(s),
    ensures
        sound(s.apply(event, around).0),
{
    if let Event::Key { key, ctrl, shift, alt } = event {
        let named = crate::keys::key_named(key@);
        if alt && s.travels(named) {
            lemma_travel_keeps(State { crumb_menu: None, ..s }, named == Key::Left);
        } else {
            lemma_key_keeps(s, named, ctrl, shift, around);
        }
    } else if input::is_gesture(event) {
        lemma_gesture_keeps(s, event, around);
    } else {
        lemma_page_event_keeps(s, event, around);
    }
}

/// A fresh application is sound, with no dialog open and nothing marked.
pub proof fn a_fresh_application_is_sound(
    root: Seq<u8>,
    options: crate::app::ScanOptions,
    depth: u32,
    machine: crate::scanning::Machine,
)
    ensures
        ({
            let fresh = State::fresh(root, options, depth, machine);
            &&& sound(fresh)
            &&& fresh.marks.len() == 0
            &&& !fresh.confirm_open
            &&& fresh.removal_mode == RemovalMode::Trash <==> machine.trash.available
        }),
{
}

/// What runs in the background keeps the state sound, as long as the marks
/// that a scan measured again do not overlap.
pub proof fn background_work_keeps_the_state_sound(
    s: State,
    snapshot: crate::app::ScanSnapshot,
    outcome: Option<crate::scanning::Outcome>,
    events: Seq<crate::removal::RemovalEvent>,
)
    requires
        sound(s),
        outcome matches Some(crate::scanning::Outcome::Landed(landing)) ==> marks::disjoint(
            marks::marks_of(landing.marks@),
        ),
    ensures
        sound(s.poll_scan(snapshot, outcome)),
        sound(s.poll_removal(events).0),
{
    reveal(State::land);
    reveal(State::clear_filter);
    let counted = State {
        run_summary: crate::removal::summary_of(s.run_summary, events, events.len() as int),
        run_log: crate::removal::log_after(s.run_log, events, events.len() as int),
        ..s
    };
    lemma_scan_keeps(
        State { removing: false, marks: Seq::empty(), screen: Screen::Done, ..counted },
    );
}

// ── removal ────────────────────────────────────────────────────────────

pub(crate) proof fn lemma_explore_key_removes_nothing(
    s: State,
    key: Key,
    control: bool,
    shift: bool,
    around: Around,
)
    ensures
        !(s.explore_key(key, control, shift, around).1 is Remove),
{
    reveal(State::explore_key);
    reveal(State::screen_key);
    reveal(State::set_mode);
    reveal(State::toggle_metric);
    reveal(State::go_to_disk);
    reveal(State::rescan_with);
    reveal(State::start_scan);
}

pub(crate) proof fn lemma_menu_key_leaves_the_mode(s: State, key: Key)
    ensures
        s.on_menu_key(key).0.removal_mode == s.removal_mode,
{
    reveal(State::on_menu_key);
    reveal(State::go_to);
}

/// A permanent deletion always asks first: with the dialog closed, no key and
/// no event but the dialog's own answer starts one.
pub proof fn a_permanent_deletion_asks_first(s: State, event: Event, around: Around)
    requires
        !s.confirm_open,
        s.removal_mode == RemovalMode::Permanent,
        !(event is ConfirmDelete),
    ensures
        !(s.apply(event, around).1 is Remove),
{
    match event {
        Event::Key { key, ctrl, shift, .. } => {
            let key = crate::keys::key_named(key@);
            reveal(State::on_screen_key);
            reveal(State::on_explore_key);
            reveal(State::on_review_key);
            let (next, taken) = s.on_menu_key(key);
            lemma_menu_key_leaves_the_mode(s, key);
            lemma_explore_key_removes_nothing(next, key, ctrl, shift, around);
            lemma_explore_key_removes_nothing(
                next.adopt_pointer_target(),
                key,
                ctrl,
                shift,
                around,
            );
        },
        _ => {
            reveal(State::page_event);
            reveal(State::set_mode);
            reveal(State::toggle_metric);
            reveal(State::start_scan);
        },
    }
}

/// Committing permanently opens the dialog instead of removing anything.
pub proof fn committing_permanently_opens_the_dialog(s: State, plan: Plan)
    requires
        s.removal_mode == RemovalMode::Permanent,
        plan.targets@.len() > 0,
    ensures
        s.commit(plan) == (State { confirm_open: true, ..s }, Work::Nothing),
{
}

/// Only the exact word arms the irreversible mode; anything else lands on
/// the recoverable one.
pub proof fn only_the_word_arms_permanent_deletion(s: State, mode: String, around: Around)
    ensures
        ({
            let after = s.apply(Event::Removal { mode }, around).0;
            &&& (after.removal_mode == RemovalMode::Permanent) == (mode@ == "permanent"@)
            &&& after == State { removal_mode: after.removal_mode, ..s }
        }),
{
    reveal(State::page_event);
}

/// While the dialog is open it owns the keys: Enter deletes, Escape closes
/// it, and no other key does anything.
pub proof fn the_dialog_owns_the_keys(
    s: State,
    key: Key,
    control: bool,
    shift: bool,
    around: Around,
)
    requires
        s.confirm_open,
    ensures
        s.on_key(key, control, shift, around) == match key {
            Key::Enter => s.confirm_delete(around.plan),
            Key::Escape => (State { confirm_open: false, ..s }, Work::Nothing),
            _ => (s, Work::Nothing),
        },
{
}

/// A finished run clears the marks, says so, and scans again.
pub proof fn a_finished_run_starts_over(s: State, events: Seq<crate::removal::RemovalEvent>)
    requires
        s.removing,
        crate::removal::finished(events, events.len() as int),
    ensures
        ({
            let (after, work) = s.poll_removal(events);
            &&& after.marks.len() == 0
            &&& after.screen == Screen::Done
            &&& !after.removing
            &&& after.scanning
            &&& work == Work::Scan { root: s.root_path, options: s.options }
        }),
{
    reveal(State::start_scan);
    reveal(State::clear_filter);
}

// ── navigation ─────────────────────────────────────────────────────────

/// Going up undoes going in: back in the directory, with the entry it came
/// from selected and the whole layout in view.
pub proof fn going_up_undoes_going_in(s: State, child: usize)
    requires
        s.enter(s.crumbs.push(child)).crumbs == s.crumbs.push(child),
    ensures
        ({
            let back = s.enter(s.crumbs.push(child)).ascend();
            &&& back.crumbs == s.crumbs
            &&& back.selected == Some(s.crumbs.push(child))
            &&& back.camera == crate::app::Camera::still()
        }),
{
    reveal(State::enter);
    reveal(State::ascend);
    assert(s.crumbs.push(child).drop_last() =~= s.crumbs);
}

/// Going into or out of a directory shows it whole: a change of directory
/// resets the view.
pub proof fn a_new_level_resets_the_view(s: State, target: Seq<usize>)
    ensures
        s.enter(target).crumbs != s.crumbs ==> s.enter(target).camera
            == crate::app::Camera::still(),
        s.ascend().crumbs != s.crumbs ==> s.ascend().camera == crate::app::Camera::still(),
        s.go_to(target).camera == crate::app::Camera::still(),
{
    reveal(State::go_to);
    reveal(State::enter);
    reveal(State::ascend);
}

/// Every move to another directory is remembered: going back leads to where
/// it came from, and there is nothing to go forward to.
pub proof fn every_move_is_remembered(s: State, target: Seq<usize>)
    ensures
        s.go_to(target).crumbs != s.crumbs ==> remembers(s, s.go_to(target)),
        s.enter(target).crumbs != s.crumbs ==> remembers(s, s.enter(target)),
        s.ascend().crumbs != s.crumbs ==> remembers(s, s.ascend()),
        s.go_to(s.crumbs).past == s.past,
        s.go_to(s.crumbs).future == s.future,
{
    reveal(State::go_to);
    reveal(State::enter);
    reveal(State::ascend);
}

/// `after` is one move on from `s`.
pub open spec fn remembers(s: State, after: State) -> bool {
    &&& after.past == s.past.push(s.crumbs)
    &&& after.future == Seq::<Seq<usize>>::empty()
    &&& after.history_target(true) == Some(s.crumbs)
    &&& after.history_target(false) is None
}

/// The directory is the same and so are both ways, or the move is remembered,
/// or the tree is given up for a new scan and the visits with it.
pub open spec fn history_kept(s: State, after: State) -> bool {
    ||| after.crumbs == s.crumbs && after.past == s.past && after.future == s.future
    ||| remembers(s, after)
    ||| after.tree is None && after.past.len() == 0 && after.future.len() == 0
}

proof fn lemma_step_is_kept(s: State, target: Seq<usize>)
    ensures
        history_kept(s, s.enter(target)),
        history_kept(s, s.ascend()),
{
    every_move_is_remembered(s, target);
    reveal(State::enter);
    reveal(State::ascend);
}

proof fn lemma_jump_is_kept(s: State, target: Seq<usize>)
    ensures
        history_kept(s, s.go_to(target)),
        s.go_to(target).crumbs == target,
{
    every_move_is_remembered(s, target);
    reveal(State::go_to);
}

proof fn lemma_moves_are_kept(s: State, target: Seq<usize>, index: usize)
    ensures
        history_kept(s, s.enter(target)),
        history_kept(s, s.ascend()),
        history_kept(s, s.go_to(target)),
        history_kept(s, s.revealed(target)),
        history_kept(s, s.choose_sibling(target, index)),
{
    lemma_step_is_kept(s, target);
    lemma_jump_is_kept(s, target);
    lemma_jump_is_kept(s, tree::parent_of(target));
    let closed = State { crumb_menu: None, ..s };
    let child = target.push(index);
    lemma_jump_is_kept(closed, child);
    lemma_jump_is_kept(closed, tree::parent_of(child));
    assert(history_kept(closed, closed.revealed(child)));
}

proof fn lemma_descent_is_kept(s: State)
    ensures
        history_kept(s, s.descend()),
{
    reveal(State::descend);
    match s.descend_target() {
        Some(target) => lemma_moves_are_kept(s, target, 0),
        None => {},
    }
}

proof fn lemma_zoom_is_kept(s: State, factor: Single, descend: bool, around: Around)
    ensures
        history_kept(s, s.zoom_at(factor, descend, around)),
{
    reveal(State::zoom_at);
    lemma_moves_are_kept(s, s.inside(factor, around)->0, 0);
}

proof fn lemma_scan_is_kept(s: State)
    ensures
        history_kept(s, s.start_scan().0),
{
    reveal(State::start_scan);
}

proof fn lemma_widening_is_kept(s: State, above: Seq<u8>, volume: crate::app::Volume)
    ensures
        history_kept(s, s.widen_to(above, volume).0),
{
    lemma_scan_is_kept(
        State {
            space: volume.space,
            device: text::opt_text(volume.device),
            root_path: above,
            screen: Screen::Explore,
            ..s
        },
    );
    reveal(State::start_scan);
}

proof fn lemma_mode_is_kept(s: State, index: usize)
    ensures
        history_kept(s, s.set_mode(index).0),
{
    reveal(State::set_mode);
    reveal(State::toggle_metric);
    reveal(State::clear_filter);
}

proof fn lemma_mark_is_kept(s: State, crumbs: Seq<usize>)
    ensures
        history_kept(s, s.toggle_mark(crumbs)),
{
    reveal(State::toggle_mark);
}

proof fn lemma_screen_key_is_kept(s: State, key: Key, control: bool, around: Around)
    ensures
        history_kept(s, s.screen_key(key, control, around).0),
{
    reveal(State::screen_key);
    reveal(State::view_key);
    reveal(State::adjust_depth);
    reveal(State::open_review);
    reveal(State::rescan_with);
    reveal(State::start_scan);
    lemma_zoom_is_kept(s, Single { bits: input::KEY_OUT }, false, around);
    lemma_zoom_is_kept(s, Single { bits: input::KEY_IN }, false, around);
    lemma_mode_is_kept(s, ((s.mode_index() + 1) % 3) as usize);
    lemma_disk_is_kept(s, around.volume);
}

proof fn lemma_disk_is_kept(s: State, volume: crate::app::Volume)
    ensures
        history_kept(s, s.go_to_disk(volume).0),
{
    reveal(State::go_to_disk);
    lemma_moves_are_kept(s, Seq::empty(), 0);
    match s.disk_root {
        Some(disk) => lemma_widening_is_kept(s, disk, volume),
        None => {},
    }
}

proof fn lemma_explore_key_is_kept(
    s: State,
    key: Key,
    control: bool,
    shift: bool,
    around: Around,
)
    ensures
        history_kept(s, s.explore_key(key, control, shift, around).0),
{
    reveal(State::explore_key);
    reveal(State::move_selection);
    reveal(State::cycle_sibling);
    reveal(State::step_back);
    reveal(State::clear_filter);
    reveal(State::toggle_mark_selected);
    lemma_moves_are_kept(s, Seq::empty(), 0);
    lemma_descent_is_kept(s);
    lemma_screen_key_is_kept(s, key, control, around);
    match s.selected {
        Some(crumbs) => lemma_mark_is_kept(s, crumbs),
        None => {},
    }
}

proof fn lemma_menu_key_is_kept(s: State, key: Key)
    ensures
        history_kept(s, s.on_menu_key(key).0),
        !s.on_menu_key(key).1 ==> s.on_menu_key(key).0 == (State { crumb_menu: None, ..s }),
{
    reveal(State::on_menu_key);
    if let Some(menu) = s.crumb_menu {
        let rows = s.sibling_rows(menu.parent);
        lemma_moves_are_kept(s, menu.parent, rows[menu.highlighted as int]);
    }
}

proof fn lemma_key_is_kept(s: State, key: Key, control: bool, shift: bool, around: Around)
    ensures
        history_kept(s, s.on_key(key, control, shift, around).0),
{
    reveal(State::on_screen_key);
    reveal(State::on_explore_key);
    reveal(State::on_review_key);
    lemma_menu_key_is_kept(s, key);
    let next = s.on_menu_key(key).0;
    lemma_explore_key_is_kept(next, key, control, shift, around);
    lemma_explore_key_is_kept(next.adopt_pointer_target(), key, control, shift, around);
}

proof fn lemma_gesture_is_kept(s: State, event: Event, around: Around)
    ensures
        history_kept(s, s.gesture(event, around)),
{
    reveal(State::gesture);
    if let Event::Click { .. } = event {
        let under = tree::opt_crumbs(around.under);
        lemma_descent_is_kept(s);
        lemma_descent_is_kept(State { selected: under, ..s });
        match under {
            Some(crumbs) => lemma_mark_is_kept(s, crumbs),
            None => {},
        }
    } else if let Event::Wheel { .. } = event {
        reveal(State::on_scroll_wheel);
        lemma_zoom_is_kept(s, Single { bits: input::WHEEL_IN }, true, around);
        lemma_zoom_is_kept(s, Single { bits: input::WHEEL_OUT }, true, around);
    } else if let Event::Zoom { factor, .. } = event {
        lemma_zoom_is_kept(s, factor, true, around);
    }
}

proof fn lemma_page_event_is_kept(s: State, event: Event, around: Around)
    ensures
        history_kept(s, s.page_event(event, around).0),
{
    reveal(State::page_event);
    match event {
        Event::Goto { crumbs } => lemma_moves_are_kept(s, crumbs@, 0),
        Event::Reveal { crumbs } => lemma_moves_are_kept(s, crumbs@, 0),
        Event::Sibling { parent, index } => lemma_moves_are_kept(s, parent@, index),
        Event::Mark { crumbs } => lemma_mark_is_kept(s, crumbs@),
        Event::Mode { index } => lemma_mode_is_kept(s, index),
        Event::Widen { path } => {
            match crate::codec::decoded(path@) {
                Some(path) => lemma_widening_is_kept(s, path, around.volume),
                None => {},
            }
        },
        Event::FindClear => {
            reveal(State::clear_filter);
        },
        _ => {},
    }
}

/// Whatever the browser sends, a change of directory is remembered, unless it
/// goes through the visits itself or gives the tree up for a new scan.
pub proof fn every_event_remembers_where_it_came_from(s: State, event: Event, around: Around)
    requires
        event matches Event::Key { key, alt, .. } ==> !(alt && s.travels(
            crate::keys::key_named(key@),
        )),
    ensures
        history_kept(s, s.apply(event, around).0),
{
    if let Event::Key { key, ctrl, shift, .. } = event {
        lemma_key_is_kept(s, crate::keys::key_named(key@), ctrl, shift, around);
    } else if input::is_gesture(event) {
        lemma_gesture_is_kept(s, event, around);
    } else {
        lemma_page_event_is_kept(s, event, around);
    }
}

/// Going back undoes a move, and going forward again repeats it.
pub proof fn going_back_undoes_a_move(s: State, target: Seq<usize>)
    requires
        target != s.crumbs,
    ensures
        ({
            let back = s.go_to(target).travel(true);
            &&& back.crumbs == s.crumbs
            &&& back.past == s.past
            &&& back.travel(false).crumbs == target
            &&& back.travel(false).past == s.past.push(s.crumbs)
        }),
{
    reveal(State::go_to);
    reveal(State::travel);
    assert(s.past.push(s.crumbs).drop_last() =~= s.past);
}

/// Back and forward undo each other: the directory and both ways are what
/// they were.
pub proof fn back_and_forward_undo_each_other(s: State, back: bool)
    requires
        s.history_target(back) is Some,
    ensures
        ({
            let there = s.travel(back);
            let again = there.travel(!back);
            &&& there.crumbs == s.history_target(back)->0
            &&& there.history_target(!back) == Some(s.crumbs)
            &&& again.crumbs == s.crumbs
            &&& again.past == s.past
            &&& again.future == s.future
        }),
{
    reveal(State::travel);
    let there = s.travel(back);
    if back {
        assert(s.future.push(s.crumbs).drop_last() =~= s.future);
        assert(s.past.drop_last().push(s.past.last()) =~= s.past);
    } else {
        assert(s.past.push(s.crumbs).drop_last() =~= s.past);
        assert(s.future.drop_last().push(s.future.last()) =~= s.future);
    }
}

/// Alt with the left or right arrow goes back and forward through the
/// directories visited, on the explore screen with no dialog over it.
pub proof fn alt_and_an_arrow_go_through_the_history(s: State, event: Event, around: Around)
    requires
        event matches Event::Key { key, alt, .. } && alt && (key@ == "left"@ || key@ == "right"@),
        s.screen == Screen::Explore,
        !s.confirm_open,
        !s.show_help,
    ensures
        ({
            let back = event->Key_key@ == "left"@;
            let (after, work) = s.apply(event, around);
            &&& work == Work::Nothing
            &&& match s.history_target(back) {
                Some(crumbs) => after.crumbs == crumbs && after.history_target(!back) == Some(
                    s.crumbs,
                ),
                None => after == (State { crumb_menu: None, ..s }),
            }
        }),
{
    reveal_strlit("enter");
    reveal_strlit("escape");
    reveal_strlit("space");
    reveal_strlit("tab");
    reveal_strlit("left");
    reveal_strlit("right");
    let key = event->Key_key@;
    assert(key[0] == 'l' || key[0] == 'r');
    assert("enter"@[0] == 'e' && "escape"@[0] == 'e' && "space"@[0] == 's' && "tab"@[0] == 't');
    assert("left"@[0] == 'l' && "right"@[0] == 'r');
    assert(s.travels(crate::keys::key_named(key)));
    reveal(State::travel);
}

/// Tab and shift-Tab undo each other.
pub proof fn tabbing_back_undoes_tabbing(s: State)
    requires
        s.selected matches Some(selected) && selected.len() > s.crumbs.len() && (s.node_at(
            selected.drop_last(),
        ) matches Some(node) && selected.last() < node.children@.len() <= usize::MAX),
    ensures
        s.cycle_sibling(1).cycle_sibling(-1) == (State { pointer_active: false, ..s }),
        s.cycle_sibling(-1).cycle_sibling(1) == (State { pointer_active: false, ..s }),
{
    reveal(State::cycle_sibling);
    let selected = s.selected->0;
    let parent = selected.drop_last();
    let count = s.node_at(parent)->0.children@.len() as int;
    let x = selected.last() as int;
    lemma_round(x, count);
    let ahead = s.cycle_sibling(1);
    let behind = s.cycle_sibling(-1);
    let next = ((x + 1) % count) as usize;
    let last = ((x - 1) % count) as usize;
    assert(ahead.selected == Some(parent.push(next)));
    assert(behind.selected == Some(parent.push(last)));
    assert(parent.push(next).drop_last() =~= parent);
    assert(parent.push(last).drop_last() =~= parent);
    assert(parent.push(x as usize) =~= selected);
    assert(ahead.node_at(parent) == s.node_at(parent));
    assert(behind.node_at(parent) == s.node_at(parent));
    assert(ahead.cycle_sibling(-1).selected == s.selected);
    assert(behind.cycle_sibling(1).selected == s.selected);
}

pub(crate) proof fn lemma_round(x: int, count: int)
    requires
        0 <= x < count,
    ensures
        0 <= (x + 1) % count < count,
        0 <= (x - 1) % count < count,
        ((x + 1) % count - 1) % count == x,
        ((x - 1) % count + 1) % count == x,
{
    if x + 1 < count {
        vstd::arithmetic::div_mod::lemma_small_mod((x + 1) as nat, count as nat);
    } else {
        vstd::arithmetic::div_mod::lemma_mod_self_0(count);
    }
    vstd::arithmetic::div_mod::lemma_small_mod(x as nat, count as nat);
    assert((-1int) % count == count - 1) by (nonlinear_arith)
        requires
            count > 0,
    ;
    if x > 0 {
        vstd::arithmetic::div_mod::lemma_small_mod((x - 1) as nat, count as nat);
    } else {
        vstd::arithmetic::div_mod::lemma_mod_self_0(count);
    }
}

/// After an arrow or Tab the keys act on the keyboard's selection again, not
/// on what the pointer was over.
pub proof fn the_keyboard_takes_over(
    s: State,
    direction: crate::navigation::Direction,
    tiles: Option<Seq<crate::navigation::ScoredTile>>,
    step: int,
)
    ensures
        ({
            let moved = s.move_selection(direction, tiles);
            moved.action_target() == moved.selected
        }),
        ({
            let moved = s.cycle_sibling(step);
            moved.action_target() == moved.selected
        }),
{
    reveal(State::move_selection);
    reveal(State::cycle_sibling);
}

/// Space marks the tile under the pointer when the pointer moved last.
pub proof fn space_acts_on_what_is_pointed_at(
    s: State,
    control: bool,
    shift: bool,
    around: Around,
)
    requires
        !s.confirm_open,
        s.crumb_menu is None,
        !s.show_help,
        s.screen == Screen::Explore,
        s.pointer_active,
        s.hovered matches Some(crumbs) && crumbs.len() > 0,
    ensures
        s.on_key(Key::Space, control, shift, around) == (
            State { selected: s.hovered, ..s }.toggle_mark(s.hovered->0),
            Work::Nothing,
        ),
{
    reveal(State::on_menu_key);
    reveal(State::on_screen_key);
    reveal(State::on_explore_key);
    reveal(State::explore_key);
    reveal(State::toggle_mark_selected);
}

/// While a wider scan runs, what is on screen stays on screen.
pub proof fn widening_keeps_the_view(s: State, above: Seq<u8>, volume: crate::app::Volume)
    requires
        s.tree is Some,
    ensures
        ({
            let after = s.widen_to(above, volume).0;
            &&& after.tree == s.tree
            &&& after.root_path == s.root_path
            &&& after.crumbs == s.crumbs
            &&& after.selected == s.selected
            &&& after.camera == s.camera
            &&& after.cache == s.cache
            &&& after.marks == s.marks
        }),
{
}

/// Scanning again, or somewhere else, keeps the marks.
pub proof fn scanning_keeps_the_marks(s: State, root: Seq<u8>, volume: crate::app::Volume)
    ensures
        s.start_scan().0.marks == s.marks,
        s.set_root(root, volume).0.marks == s.marks,
{
    lemma_scan_keeps(s);
    lemma_scan_keeps(
        State {
            space: volume.space,
            device: text::opt_text(volume.device),
            root_path: root,
            screen: Screen::Explore,
            ..s
        },
    );
}

/// The Size | Files | Age choice that is made is the one that shows.
pub proof fn the_mode_that_is_chosen_shows(s: State, index: usize)
    requires
        index < 3,
    ensures
        s.set_mode(index).0.mode_index() == index,
{
    reveal(State::set_mode);
    reveal(State::toggle_metric);
    reveal(State::clear_filter);
}

/// The menu's highlight stays on one of its rows.
pub proof fn the_highlight_stays_on_the_menu(s: State, key: Key)
    requires
        s.crumb_menu matches Some(menu) && menu.highlighted < s.sibling_rows(menu.parent).len(),
        s.sibling_rows(s.crumb_menu->0.parent).len() <= usize::MAX,
    ensures
        s.on_menu_key(key).0.crumb_menu matches Some(menu) ==> menu.highlighted
            < s.on_menu_key(key).0.sibling_rows(menu.parent).len(),
{
    reveal(State::go_to);
    reveal(State::on_menu_key);
}

/// `crumbs` lead to a node, by names that directory entries can have and that
/// no sibling before them shares.
pub open spec fn tidy_along(node: Node, crumbs: Seq<usize>) -> bool
    decreases crumbs.len(),
{
    crumbs.len() > 0 ==> {
        &&& crumbs[0] < node.children@.len()
        &&& ({
            let child = node.children@[crumbs[0] as int];
            &&& paths::entry_name(child.os_name@)
            &&& forall|i: int|
                0 <= i < crumbs[0] ==> (#[trigger] node.children@[i]).name() != child.name()
            &&& tidy_along(child, crumbs.skip(1))
        })
    }
}

proof fn lemma_found_along(root: Seq<u8>, node: Node, crumbs: Seq<usize>)
    requires
        tidy_along(node, crumbs),
    ensures
        ({
            let way = paths::components(tree::path_of(root, node, crumbs));
            let start = paths::components(root);
            &&& start.is_prefix_of(way)
            &&& tree::find_along(node, way.skip(start.len() as int)) == Some(crumbs)
        }),
    decreases crumbs.len(),
{
    let start = paths::components(root);
    let way = paths::components(tree::path_of(root, node, crumbs));
    if crumbs.len() == 0 {
        assert(way.skip(start.len() as int) =~= Seq::empty());
        assert(crumbs =~= Seq::empty());
    } else {
        let child = node.children@[crumbs[0] as int];
        let inner = paths::join(root, child.os_name@);
        let rest = crumbs.skip(1);
        paths::lemma_join(root, child.os_name@);
        lemma_found_along(inner, child, rest);
        let below = paths::components(inner);
        assert(below == start.push(child.os_name@));
        assert(start.is_prefix_of(way)) by {
            assert(start =~= way.take(start.len() as int)) by {
                assert forall|i: int| 0 <= i < start.len() implies start[i] == way[i] by {
                    assert(below[i] == way[i]);
                }
            }
        }
        let tail = way.skip(start.len() as int);
        assert(way[start.len() as int] == below[start.len() as int]);
        assert(tail[0] == child.os_name@);
        assert(tail.skip(1) =~= way.skip(below.len() as int));
        assert(node.children@.len() == node.children.len());
        tree::lemma_child_named(node.children@, child.name(), node.children@.len() as int);
        assert(node.children@.take(node.children@.len() as int) =~= node.children@);
        assert(tree::child_named(node.children@, child.name()) == Some(crumbs[0]));
        assert(seq![crumbs[0]] + rest =~= crumbs);
    }
}

/// A path leads back to the crumbs it was taken from, whatever directory is
/// drawn, so a mark kept by path is drawn on the tile it was made on.
pub proof fn a_tile_is_found_again_by_its_path(s: State, crumbs: Seq<usize>)
    requires
        s.tree matches Some(root) && tidy_along(root, crumbs),
    ensures
        s.path_at(crumbs) matches Some(path) && s.crumbs_for_path(path) == Some(crumbs),
{
    lemma_found_along(s.root_path, s.tree->0, crumbs);
}

/// The scanned root is the tree's own top, and a path that is not under it
/// leads nowhere.
pub proof fn only_paths_under_the_root_lead_somewhere(s: State, path: Seq<u8>)
    requires
        s.tree is Some,
    ensures
        s.crumbs_for_path(s.root_path) == Some(Seq::<usize>::empty()),
        !paths::starts_with(path, s.root_path) ==> s.crumbs_for_path(path) is None,
{
    let way = paths::components(s.root_path);
    assert(way.skip(way.len() as int) =~= Seq::empty());
    assert(way.take(way.len() as int) =~= way);
}

/// Along `crumbs`, the nodes bear the names that `way` spells.
pub open spec fn spelled_along(node: Node, crumbs: Seq<usize>, way: Seq<Seq<u8>>) -> bool
    decreases crumbs.len(),
{
    &&& crumbs.len() == way.len()
    &&& crumbs.len() > 0 ==> {
        &&& crumbs[0] < node.children@.len()
        &&& node.children@[crumbs[0] as int].name() == text::lossy_text(way[0])
        &&& spelled_along(node.children@[crumbs[0] as int], crumbs.skip(1), way.skip(1))
    }
}

proof fn lemma_found_spells(node: Node, way: Seq<Seq<u8>>)
    ensures
        tree::find_along(node, way) matches Some(crumbs) ==> spelled_along(node, crumbs, way),
    decreases way.len(),
{
    if way.len() > 0 {
        let name = text::lossy_text(way[0]);
        assert(node.children@.len() == node.children.len());
        tree::lemma_child_named(node.children@, name, node.children@.len() as int);
        assert(node.children@.take(node.children@.len() as int) =~= node.children@);
        if let Some(index) = tree::child_named(node.children@, name) {
            let child = node.children@[index as int];
            lemma_found_spells(child, way.skip(1));
            if let Some(rest) = tree::find_along(child, way.skip(1)) {
                assert((seq![index] + rest).skip(1) =~= rest);
            }
        }
    }
}

/// What a path leads to bears the names the path spells: a path with a
/// component that the tree lacks leads nowhere.
pub proof fn what_is_found_bears_its_names(s: State, path: Seq<u8>)
    requires
        s.crumbs_for_path(path) is Some,
    ensures
        spelled_along(
            s.tree->0,
            s.crumbs_for_path(path)->0,
            paths::components(path).skip(paths::components(s.root_path).len() as int),
        ),
{
    lemma_found_spells(
        s.tree->0,
        paths::components(path).skip(paths::components(s.root_path).len() as int),
    );
}

// ── the view and the answers ───────────────────────────────────────────

/// A view gesture that stays in its directory changes the view and nothing
/// else, so the mosaic is all there is to repaint.
pub proof fn a_view_gesture_moves_only_the_view(s: State, event: Event, around: Around)
    requires
        server::of_view(event),
        s.apply(event, around).0.crumbs == s.crumbs,
    ensures
        ({
            let after = s.apply(event, around).0;
            after == State { camera: after.camera, mosaic_size: after.mosaic_size, ..s }
        }),
{
    lemma_view_gesture(s, event, around);
}

proof fn lemma_view_gesture(s: State, event: Event, around: Around)
    requires
        server::of_view(event),
    ensures
        ({
            let after = s.gesture(event, around);
            after.crumbs == s.crumbs ==> after == (State {
                camera: after.camera,
                mosaic_size: after.mosaic_size,
                ..s
            })
        }),
{
    reveal(State::gesture);
    if let Event::Wheel { lines, shift, .. } = event {
        lemma_wheel_in_place(s, lines, shift, around);
    } else if let Event::Zoom { factor, .. } = event {
        lemma_zoom_in_place(s, factor, around);
    }
}

proof fn lemma_wheel_in_place(s: State, lines: Single, shift: bool, around: Around)
    ensures
        ({
            let after = s.on_scroll_wheel(lines, shift, around);
            after.crumbs == s.crumbs ==> after == (State { camera: after.camera, ..s })
        }),
{
    reveal(State::on_scroll_wheel);
    lemma_zoom_in_place(s, Single { bits: input::WHEEL_IN }, around);
    lemma_zoom_in_place(s, Single { bits: input::WHEEL_OUT }, around);
}

proof fn lemma_zoom_in_place(s: State, factor: Single, around: Around)
    ensures
        ({
            let after = s.zoom_at(factor, true, around);
            after.crumbs == s.crumbs ==> after == (State { camera: after.camera, ..s })
        }),
{
    reveal(State::zoom_at);
    reveal(State::ascend);
    reveal(State::enter);
}

/// Pointer traffic changes where the pointer is and what is under it, and
/// nothing else.
pub proof fn the_pointer_moves_only_itself(s: State, event: Event, around: Around)
    requires
        server::of_pointer(event),
    ensures
        ({
            let after = s.apply(event, around).0;
            &&& after == State {
                pointer: after.pointer,
                pointer_active: after.pointer_active,
                hovered: after.hovered,
                ..s
            }
            &&& s.apply(event, around).1 == Work::Nothing
        }),
{
    reveal(State::gesture);
}

/// The two states paint the same mosaic: they differ at most in the pointer.
spec fn paints_alike(a: State, b: State) -> bool {
    b == State {
        pointer: b.pointer,
        pointer_active: b.pointer_active,
        hovered: b.hovered,
        ..a
    }
}

proof fn lemma_same_cover(a: State, b: State, crumbs: Seq<usize>, len: int)
    requires
        paints_alike(a, b),
    ensures
        a.marked_at(crumbs) == b.marked_at(crumbs),
        a.cover_from(crumbs, len) == b.cover_from(crumbs, len),
    decreases crumbs.len() - len,
{
    lemma_same_marked(a, b, crumbs);
    if len < crumbs.len() {
        lemma_same_marked(a, b, crumbs.take(len));
        assert(a.path_at(crumbs.take(len)) == b.path_at(crumbs.take(len)));
        lemma_same_cover(a, b, crumbs, len + 1);
    }
}

proof fn lemma_same_marked(a: State, b: State, crumbs: Seq<usize>)
    requires
        paints_alike(a, b),
    ensures
        a.marked_at(crumbs) == b.marked_at(crumbs),
{
    if a.marked_at(crumbs) {
        let i = choose|i: int|
            0 <= i < a.marks.len() && #[trigger] a.crumbs_for_path(a.marks[i].path) == Some(crumbs);
        assert(b.crumbs_for_path(b.marks[i].path) == Some(crumbs));
    }
    if b.marked_at(crumbs) {
        let i = choose|i: int|
            0 <= i < b.marks.len() && #[trigger] b.crumbs_for_path(b.marks[i].path) == Some(crumbs);
        assert(a.crumbs_for_path(a.marks[i].path) == Some(crumbs));
    }
}

proof fn lemma_same_tile(a: State, b: State, tile: Tile, drawn: Drawn, words: Words, palette: Palette)
    requires
        paints_alike(a, b),
    ensures
        a.tile_markup(tile, drawn, words, palette) == b.tile_markup(tile, drawn, words, palette),
        a.ring_rank(tile.crumbs@) == b.ring_rank(tile.crumbs@),
        forall|at: int| a.label(at, tile, drawn, words) == b.label(at, tile, drawn, words),
{
    let crumbs = tile.crumbs@;
    lemma_same_cover(a, b, crumbs, 1);
    assert(a.covered_by(crumbs) == b.covered_by(crumbs));
    assert(a.tile_node(tile) == b.tile_node(tile));
    assert(a.filtered(drawn.keep) == b.filtered(drawn.keep));
    assert(a.age_of(a.tile_node(tile)) == b.age_of(b.tile_node(tile)));
    assert(a.tile_category(tile) == b.tile_category(tile));
    assert(a.parent_bytes(crumbs) == b.parent_bytes(crumbs));
    assert(a.place_at(crumbs, words) == b.place_at(crumbs, words));
    assert(a.tile_tip(tile, words) == b.tile_tip(tile, words));
    assert(a.tile_hatch(tile, drawn) == b.tile_hatch(tile, drawn));
    assert(a.tile_strip(tile, drawn, palette) == b.tile_strip(tile, drawn, palette));
    assert(a.tile_corner(tile, drawn, palette) == b.tile_corner(tile, drawn, palette));
    assert(a.tile_class(crumbs) == b.tile_class(crumbs));
    assert forall|at: int| a.label(at, tile, drawn, words) == b.label(at, tile, drawn, words) by {
        assert(a.node_at(crumbs) == b.node_at(crumbs));
    }
}

proof fn lemma_same_tiles(
    a: State,
    b: State,
    tiles: Seq<Tile>,
    drawn: Seq<Drawn>,
    words: Words,
    palette: Palette,
    color: Seq<char>,
    rank: int,
    count: int,
)
    requires
        paints_alike(a, b),
    ensures
        a.tiles_markup(tiles, drawn, words, palette, count) == b.tiles_markup(
            tiles,
            drawn,
            words,
            palette,
            count,
        ),
        a.rings(tiles, drawn, rank, color, count) == b.rings(tiles, drawn, rank, color, count),
        a.labels(tiles, drawn, words, count) == b.labels(tiles, drawn, words, count),
    decreases count,
{
    if count > 0 {
        lemma_same_tiles(a, b, tiles, drawn, words, palette, color, rank, count - 1);
        lemma_same_tile(a, b, tiles[count - 1], drawn[count - 1], words, palette);
        assert(a.label(count - 1, tiles[count - 1], drawn[count - 1], words) == b.label(
            count - 1,
            tiles[count - 1],
            drawn[count - 1],
            words,
        ));
    }
}

/// Pointer traffic changes nothing that is painted: the mosaic before it and
/// after it is the same, so an acknowledgement is answer enough.
pub proof fn pointer_traffic_paints_nothing(
    s: State,
    event: Event,
    around: Around,
    canvas: Canvas,
    words: Words,
    palette: Palette,
)
    requires
        server::of_pointer(event),
    ensures
        s.apply(event, around).0.mosaic(canvas, words, palette) == s.mosaic(
            canvas,
            words,
            palette,
        ),
{
    reveal(State::mosaic);
    let after = s.apply(event, around).0;
    the_pointer_moves_only_itself(s, event, around);
    match s.cache {
        Some((_, tiles)) => {
            let all = tiles.len() as int;
            lemma_same_tiles(s, after, tiles, canvas.tiles@, words, palette, palette.danger@, 1, all);
            lemma_same_tiles(
                s,
                after,
                tiles,
                canvas.tiles@,
                words,
                palette,
                palette.highlight@,
                3,
                all,
            );
        },
        None => {},
    }
}

/// A batch leaves the mosaic with a size it can be drawn in, once it had one
/// or none at all.
pub proof fn a_batch_leaves_a_real_size(s: State, w: Single, h: Single, dark: Option<bool>)
    requires
        input::usable_size(s.mosaic_size.0, s.mosaic_size.1) || s.mosaic_size.0.bits
            == single::ZERO,
    ensures
        ({
            let size = s.begin_batch(w, h, dark).mosaic_size;
            input::usable_size(size.0, size.1)
        }),
{
}

/// Which answer a batch earns: pointer traffic an acknowledgement, a view
/// gesture that stays where it is the mosaic, everything else the page.
pub proof fn each_batch_earns_its_answer(
    s: State,
    events: Seq<Event>,
    crumbs: Seq<usize>,
    screen: Screen,
)
    ensures
        ({
            let earned = s.earned(server::traffic(events), crumbs, screen);
            let pointer = events.len() > 0 && forall|i: int|
                0 <= i < events.len() ==> server::of_pointer(#[trigger] events[i]);
            let view = events.len() > 0 && forall|i: int|
                0 <= i < events.len() ==> server::of_view(#[trigger] events[i]);
            &&& pointer ==> earned == server::Earned::Ack
            &&& view && s.crumbs == crumbs && s.screen == screen ==> earned
                == server::Earned::Mosaic
            &&& view && (s.crumbs != crumbs || s.screen != screen) ==> earned
                == server::Earned::Frame
            &&& !pointer && !view ==> earned == server::Earned::Frame
        }),
{
    if events.len() > 0 {
        assert(!(server::of_pointer(events[0]) && server::of_view(events[0])));
    }
}

// ── find and filter ────────────────────────────────────────────────────

/// A filter is about the directory it was typed in: above it nothing is
/// filtered, in it and below it stays.
pub proof fn a_filter_lapses_above_its_directory(s: State)
    requires
        s.matches is Some,
    ensures
        s.matches->0.base@.is_prefix_of(s.crumbs) ==> s.lapse() == s,
        !s.matches->0.base@.is_prefix_of(s.crumbs) ==> s.lapse().matches is None
            && !s.lapse().filter_applied,
{
    reveal(State::clear_filter);
}

/// Without matches every tile keeps its colour.
pub proof fn nothing_steps_back_without_a_filter(s: State, keep: mosaic::Keep)
    requires
        s.matches is None,
    ensures
        s.filtered(keep) == crate::app::Filtered::Shown,
{
}

// ── ages ───────────────────────────────────────────────────────────────

/// The buckets cover every age in order: an older age never falls in a newer
/// bucket.
pub proof fn ages_fall_in_order(newer: int, older: int)
    requires
        newer <= older,
    ensures
        0 <= palette::bucket_of(newer) <= palette::bucket_of(older) < palette::AGES,
{
}

// ── the command line ───────────────────────────────────────────────────

/// A command line that runs asks for a depth there is, and never for an empty
/// secret.
pub proof fn what_runs_makes_sense(choice: Choice, words: Seq<Word>, at: int)
    requires
        1 <= choice.depth <= 6,
        choice.token matches Some(token) ==> token.len() > 0,
    ensures
        args::meaning(choice, words, at) matches Meaning::Run(run) ==> {
            &&& 1 <= run.depth <= 6
            &&& run.token matches Some(token) ==> token.len() > 0
        },
    decreases words.len() - at,
{
    if at < words.len() {
        let kind = args::switch(words[at].text);
        if args::stands_alone(kind) {
            what_runs_makes_sense(
                Choice { options: args::switched(choice.options, kind), ..choice },
                words,
                at + 1,
            );
        } else if args::wants(kind) is Some {
            if at + 1 < words.len() {
                match args::valued(choice, kind, words[at + 1]) {
                    Ok(next) => what_runs_makes_sense(next, words, at + 2),
                    Err(_) => {},
                }
            }
        } else if kind is Place && choice.root is None {
            what_runs_makes_sense(
                Choice { root: Some(words[at].text), ..choice },
                words,
                at + 1,
            );
        }
    }
}

} // verus!
