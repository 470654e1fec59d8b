//! What every key, click and page event is for.

use crate::app::{Camera, News, ScanOptions, Screen, State, Work};
use crate::codec;
use crate::input;
use crate::input::{Around, Event};
use crate::keys;
use crate::keys::Key;
use crate::marks;
use crate::marks::RemovalMode;
use crate::navigation::Direction;
use crate::promises;
use crate::single;
use crate::single::Single;
use crate::tree;
use vstd::prelude::*;

verus! {

/// Every key by the name the browser has for it.
pub proof fn keys_go_by_their_names()
    ensures
        keys::key_named("enter"@) == Key::Enter,
        keys::key_named("escape"@) == Key::Escape,
        keys::key_named("space"@) == Key::Space,
        keys::key_named("tab"@) == Key::Tab,
        keys::key_named("left"@) == Key::Left,
        keys::key_named("right"@) == Key::Right,
        keys::key_named("up"@) == Key::Up,
        keys::key_named("down"@) == Key::Down,
        keys::key_named("home"@) == Key::Home,
        keys::key_named("end"@) == Key::End,
        keys::key_named("backspace"@) == Key::Backspace,
        keys::key_named("/"@) == Key::Slash,
        keys::key_named("?"@) == Key::Question,
        keys::key_named("!"@) == Key::Bang,
        keys::key_named("["@) == Key::OpenBracket,
        keys::key_named("]"@) == Key::CloseBracket,
        keys::key_named("-"@) == Key::Minus,
        keys::key_named("="@) == Key::Equals,
        keys::key_named("+"@) == Key::Plus,
        keys::key_named("0"@) == Key::Zero,
        keys::key_named("c"@) == Key::C,
        keys::key_named("d"@) == Key::D,
        keys::key_named("g"@) == Key::G,
        keys::key_named("h"@) == Key::H,
        keys::key_named("i"@) == Key::I,
        keys::key_named("j"@) == Key::J,
        keys::key_named("k"@) == Key::K,
        keys::key_named("l"@) == Key::L,
        keys::key_named("m"@) == Key::M,
        keys::key_named("p"@) == Key::P,
        keys::key_named("q"@) == Key::Q,
        keys::key_named("r"@) == Key::R,
        keys::key_named("s"@) == Key::S,
        keys::key_named("t"@) == Key::T,
        keys::key_named("u"@) == Key::U,
        keys::key_named("x"@) == Key::X,
{
    reveal_strlit("enter");
    reveal_strlit("escape");
    reveal_strlit("space");
    reveal_strlit("tab");
    reveal_strlit("left");
    reveal_strlit("right");
    reveal_strlit("up");
    reveal_strlit("down");
    reveal_strlit("home");
    reveal_strlit("end");
    reveal_strlit("backspace");
    reveal_strlit("/");
    reveal_strlit("?");
    reveal_strlit("!");
    reveal_strlit("[");
    reveal_strlit("]");
    reveal_strlit("-");
    reveal_strlit("=");
    reveal_strlit("+");
    reveal_strlit("0");
    reveal_strlit("c");
    reveal_strlit("d");
    reveal_strlit("g");
    reveal_strlit("h");
    reveal_strlit("i");
    reveal_strlit("j");
    reveal_strlit("k");
    reveal_strlit("l");
    reveal_strlit("m");
    reveal_strlit("p");
    reveal_strlit("q");
    reveal_strlit("r");
    reveal_strlit("s");
    reveal_strlit("t");
    reveal_strlit("u");
    reveal_strlit("x");
    assert("enter"@.len() == 5 && "enter"@[0] == 'e' && "enter"@[1] == 'n');
    assert("escape"@.len() == 6 && "escape"@[0] == 'e' && "escape"@[1] == 's');
    assert("space"@.len() == 5 && "space"@[0] == 's' && "space"@[1] == 'p');
    assert("tab"@.len() == 3 && "tab"@[0] == 't' && "tab"@[1] == 'a');
    assert("left"@.len() == 4 && "left"@[0] == 'l' && "left"@[1] == 'e');
    assert("right"@.len() == 5 && "right"@[0] == 'r' && "right"@[1] == 'i');
    assert("up"@.len() == 2 && "up"@[0] == 'u' && "up"@[1] == 'p');
    assert("down"@.len() == 4 && "down"@[0] == 'd' && "down"@[1] == 'o');
    assert("home"@.len() == 4 && "home"@[0] == 'h' && "home"@[1] == 'o');
    assert("end"@.len() == 3 && "end"@[0] == 'e' && "end"@[1] == 'n');
    assert("backspace"@.len() == 9 && "backspace"@[0] == 'b' && "backspace"@[1] == 'a');
    assert("/"@.len() == 1 && "/"@[0] == '/');
    assert("?"@.len() == 1 && "?"@[0] == '?');
    assert("!"@.len() == 1 && "!"@[0] == '!');
    assert("["@.len() == 1 && "["@[0] == '[');
    assert("]"@.len() == 1 && "]"@[0] == ']');
    assert("-"@.len() == 1 && "-"@[0] == '-');
    assert("="@.len() == 1 && "="@[0] == '=');
    assert("+"@.len() == 1 && "+"@[0] == '+');
    assert("0"@.len() == 1 && "0"@[0] == '0');
    assert("c"@.len() == 1 && "c"@[0] == 'c');
    assert("d"@.len() == 1 && "d"@[0] == 'd');
    assert("g"@.len() == 1 && "g"@[0] == 'g');
    assert("h"@.len() == 1 && "h"@[0] == 'h');
    assert("i"@.len() == 1 && "i"@[0] == 'i');
    assert("j"@.len() == 1 && "j"@[0] == 'j');
    assert("k"@.len() == 1 && "k"@[0] == 'k');
    assert("l"@.len() == 1 && "l"@[0] == 'l');
    assert("m"@.len() == 1 && "m"@[0] == 'm');
    assert("p"@.len() == 1 && "p"@[0] == 'p');
    assert("q"@.len() == 1 && "q"@[0] == 'q');
    assert("r"@.len() == 1 && "r"@[0] == 'r');
    assert("s"@.len() == 1 && "s"@[0] == 's');
    assert("t"@.len() == 1 && "t"@[0] == 't');
    assert("u"@.len() == 1 && "u"@[0] == 'u');
    assert("x"@.len() == 1 && "x"@[0] == 'x');
}

/// The explore screen has the keys: no dialog, menu or help is over it.
pub open spec fn exploring(s: State) -> bool {
    &&& s.screen == Screen::Explore
    &&& !s.confirm_open
    &&& s.crumb_menu is None
    &&& !s.show_help
}

proof fn lemma_exploring(s: State, key: Key, control: bool, shift: bool, around: Around)
    requires
        exploring(s),
    ensures
        s.on_key(key, control, shift, around) == s.on_explore_key(key, control, shift, around),
{
    reveal(State::on_menu_key);
    reveal(State::on_screen_key);
}

/// The pointed-at tile is taken up before a key acts on "the current tile".
proof fn lemma_on_tile(s: State, key: Key, control: bool, shift: bool, around: Around)
    requires
        exploring(s),
    ensures
        ({
            let pressed = s.on_key(key, control, shift, around);
            let on = s.adopt_pointer_target();
            &&& key == Key::Enter ==> pressed == (on.descend(), Work::Nothing)
            &&& key == Key::Space ==> pressed == (on.toggle_mark_selected(), Work::Nothing)
            &&& key == Key::X && !control ==> pressed == (on.toggle_mark_selected(), Work::Nothing)
            &&& key == Key::Tab && !shift ==> pressed == (on.cycle_sibling(1), Work::Nothing)
            &&& key == Key::Tab && shift ==> pressed == (on.cycle_sibling(-1), Work::Nothing)
        }),
{
    lemma_exploring(s, key, control, shift, around);
    reveal(State::on_explore_key);
    reveal(State::explore_key);
}

proof fn lemma_arrow(
    s: State,
    key: Key,
    direction: Direction,
    shift: bool,
    around: Around,
)
    requires
        exploring(s),
        match direction {
            Direction::Left => key == Key::Left || key == Key::H,
            Direction::Right => key == Key::Right || key == Key::L,
            Direction::Up => key == Key::Up || key == Key::K,
            Direction::Down => key == Key::Down || key == Key::J,
        },
    ensures
        s.on_key(key, false, shift, around) == (
            s.adopt_pointer_target().move_selection(direction, input::opt_tiles(around.tiles)),
            Work::Nothing,
        ),
{
    lemma_exploring(s, key, false, shift, around);
    reveal(State::on_explore_key);
    reveal(State::explore_key);
}

/// The arrows, and the letters that stand for them, move the selection the way
/// they point, from the tile that was pointed at last.
pub proof fn arrows_move_the_selection(s: State, shift: bool, around: Around)
    requires
        exploring(s),
    ensures
        ({
            let on = s.adopt_pointer_target();
            let tiles = input::opt_tiles(around.tiles);
            &&& s.on_key(keys::key_named("left"@), false, shift, around).0 == on.move_selection(
                Direction::Left,
                tiles,
            )
            &&& s.on_key(keys::key_named("h"@), false, shift, around).0 == on.move_selection(
                Direction::Left,
                tiles,
            )
            &&& s.on_key(keys::key_named("right"@), false, shift, around).0 == on.move_selection(
                Direction::Right,
                tiles,
            )
            &&& s.on_key(keys::key_named("l"@), false, shift, around).0 == on.move_selection(
                Direction::Right,
                tiles,
            )
            &&& s.on_key(keys::key_named("up"@), false, shift, around).0 == on.move_selection(
                Direction::Up,
                tiles,
            )
            &&& s.on_key(keys::key_named("k"@), false, shift, around).0 == on.move_selection(
                Direction::Up,
                tiles,
            )
            &&& s.on_key(keys::key_named("down"@), false, shift, around).0 == on.move_selection(
                Direction::Down,
                tiles,
            )
            &&& s.on_key(keys::key_named("j"@), false, shift, around).0 == on.move_selection(
                Direction::Down,
                tiles,
            )
        }),
{
    keys_go_by_their_names();
    lemma_arrow(s, Key::Left, Direction::Left, shift, around);
    lemma_arrow(s, Key::H, Direction::Left, shift, around);
    lemma_arrow(s, Key::Right, Direction::Right, shift, around);
    lemma_arrow(s, Key::L, Direction::Right, shift, around);
    lemma_arrow(s, Key::Up, Direction::Up, shift, around);
    lemma_arrow(s, Key::K, Direction::Up, shift, around);
    lemma_arrow(s, Key::Down, Direction::Down, shift, around);
    lemma_arrow(s, Key::J, Direction::Down, shift, around);
}

/// Enter opens, Space and x mark, Tab goes along the siblings: all from the
/// tile that was pointed at last.
pub proof fn keys_act_on_the_current_tile(s: State, control: bool, shift: bool, around: Around)
    requires
        exploring(s),
    ensures
        ({
            let on = s.adopt_pointer_target();
            &&& s.on_key(keys::key_named("enter"@), control, shift, around).0 == on.descend()
            &&& s.on_key(keys::key_named("space"@), control, shift, around).0
                == on.toggle_mark_selected()
            &&& s.on_key(keys::key_named("x"@), false, shift, around).0
                == on.toggle_mark_selected()
            &&& s.on_key(keys::key_named("x"@), true, shift, around).0.marks == s.marks
            &&& s.on_key(keys::key_named("tab"@), control, false, around).0 == on.cycle_sibling(1)
            &&& s.on_key(keys::key_named("tab"@), control, true, around).0 == on.cycle_sibling(-1)
        }),
{
    keys_go_by_their_names();
    lemma_on_tile(s, Key::Enter, control, shift, around);
    lemma_on_tile(s, Key::Space, control, shift, around);
    lemma_on_tile(s, Key::X, false, shift, around);
    lemma_on_tile(s, Key::Tab, control, false, around);
    lemma_on_tile(s, Key::Tab, control, true, around);
    lemma_control_x(s, shift, around);
}

proof fn lemma_control_x(s: State, shift: bool, around: Around)
    requires
        exploring(s),
    ensures
        s.on_key(Key::X, true, shift, around).0.marks == s.marks,
{
    lemma_exploring(s, Key::X, true, shift, around);
    reveal(State::on_explore_key);
    reveal(State::explore_key);
    reveal(State::screen_key);
    reveal(State::view_key);
}

/// Backspace and u go up; Escape takes away one thing at a time: the filter,
/// else the selection, else the level.
pub proof fn keys_step_back(s: State, control: bool, shift: bool, around: Around)
    requires
        exploring(s),
    ensures
        s.on_key(keys::key_named("backspace"@), false, shift, around) == (
            s.ascend(),
            Work::Nothing,
        ),
        s.on_key(keys::key_named("u"@), false, shift, around) == (s.ascend(), Work::Nothing),
        ({
            let after = s.on_key(keys::key_named("escape"@), control, shift, around).0;
            &&& s.matches is Some ==> after.matches is None && after.selected == s.selected
                && after.crumbs == s.crumbs
            &&& s.matches is None && s.selected is Some ==> after == State { selected: None, ..s }
            &&& s.matches is None && s.selected is None ==> after == s.ascend()
        }),
{
    keys_go_by_their_names();
    lemma_exploring(s, Key::Backspace, false, shift, around);
    lemma_exploring(s, Key::U, false, shift, around);
    lemma_exploring(s, Key::Escape, control, shift, around);
    reveal(State::on_explore_key);
    reveal(State::explore_key);
    reveal(State::step_back);
    reveal(State::clear_filter);
}

/// The find field opens with a slash or s; the review with c, once something
/// is marked; the help with a question mark; p shows or hides the panel.
pub proof fn keys_open_what_they_name(s: State, shift: bool, around: Around)
    requires
        exploring(s),
    ensures
        s.on_key(keys::key_named("/"@), false, shift, around).0 == (State {
            find_open: true,
            ..s
        }),
        s.on_key(keys::key_named("s"@), false, shift, around).0 == (State {
            find_open: true,
            ..s
        }),
        s.marks.len() > 0 ==> s.on_key(keys::key_named("c"@), false, shift, around).0 == (State {
            screen: Screen::Review,
            ..s
        }),
        s.marks.len() == 0 ==> s.on_key(keys::key_named("c"@), false, shift, around).0 == (State {
            notice: Some(News::MarkFirst),
            ..s
        }),
        s.on_key(keys::key_named("?"@), false, shift, around).0 == (State {
            show_help: true,
            ..s
        }),
        s.on_key(keys::key_named("p"@), false, shift, around).0 == (State {
            show_selection: !s.show_selection,
            ..s
        }),
{
    keys_go_by_their_names();
    lemma_plain_key(s, Key::Slash, shift, around);
    lemma_plain_key(s, Key::S, shift, around);
    lemma_plain_key(s, Key::C, shift, around);
    lemma_plain_key(s, Key::Question, shift, around);
    lemma_plain_key(s, Key::P, shift, around);
    reveal(State::explore_key);
    reveal(State::screen_key);
    reveal(State::open_review);
}

proof fn lemma_plain_key(s: State, key: Key, shift: bool, around: Around)
    requires
        exploring(s),
        !input::acts_on_tile(key),
    ensures
        s.on_key(key, false, shift, around) == s.explore_key(key, false, shift, around),
{
    lemma_exploring(s, key, false, shift, around);
    reveal(State::on_explore_key);
}

/// r scans again, i and d scan again with hidden entries or apparent sizes
/// switched, g goes to the whole disk, and t goes round the modes.
pub proof fn keys_measure_again(s: State, shift: bool, around: Around)
    requires
        exploring(s),
    ensures
        s.on_key(keys::key_named("r"@), false, shift, around) == s.start_scan(),
        s.on_key(keys::key_named("g"@), false, shift, around) == s.go_to_disk(around.volume),
        s.on_key(keys::key_named("t"@), false, shift, around) == s.set_mode(
            if s.mode_index() == 2 {
                0
            } else {
                (s.mode_index() + 1) as usize
            },
        ),
        s.on_key(keys::key_named("i"@), false, shift, around).1 == (Work::Scan {
            root: s.root_path,
            options: ScanOptions { include_hidden: !s.options.include_hidden, ..s.options },
        }),
        s.on_key(keys::key_named("d"@), false, shift, around).1 == (Work::Scan {
            root: s.root_path,
            options: ScanOptions { apparent_size: !s.options.apparent_size, ..s.options },
        }),
{
    keys_go_by_their_names();
    lemma_plain_key(s, Key::R, shift, around);
    lemma_plain_key(s, Key::G, shift, around);
    lemma_plain_key(s, Key::T, shift, around);
    lemma_plain_key(s, Key::I, shift, around);
    lemma_plain_key(s, Key::D, shift, around);
    reveal(State::explore_key);
    reveal(State::screen_key);
    reveal(State::rescan_with);
    promises::a_scan_starts_over(
        State {
            options: ScanOptions { include_hidden: !s.options.include_hidden, ..s.options },
            ..s
        },
    );
    promises::a_scan_starts_over(
        State {
            options: ScanOptions { apparent_size: !s.options.apparent_size, ..s.options },
            ..s
        },
    );
}

/// The brackets draw fewer or more levels, minus and plus shrink and magnify
/// without going anywhere, and 0 shows the whole layout again.
pub proof fn keys_change_how_much_is_seen(s: State, shift: bool, around: Around)
    requires
        exploring(s),
        1 < s.depth < 6,
    ensures
        s.on_key(keys::key_named("["@), false, shift, around).0.depth == s.depth - 1,
        s.on_key(keys::key_named("]"@), false, shift, around).0.depth == s.depth + 1,
        s.on_key(keys::key_named("0"@), false, shift, around).0 == (State {
            camera: Camera::still(),
            ..s
        }),
        (Single { bits: single::ABOVE_ONE }).below(s.camera.scale) ==> s.on_key(
            keys::key_named("-"@),
            false,
            shift,
            around,
        ).0 == (State { camera: around.zoomed, ..s }),
        s.camera.scale.bits == single::ONE ==> s.on_key(
            keys::key_named("-"@),
            false,
            shift,
            around,
        ).0 == s,
        s.on_key(keys::key_named("="@), false, shift, around).0 == (State {
            camera: around.zoomed,
            ..s
        }),
        s.on_key(keys::key_named("+"@), false, shift, around).0 == (State {
            camera: around.zoomed,
            ..s
        }),
{
    keys_go_by_their_names();
    lemma_view_key(s, Key::OpenBracket, shift, around);
    lemma_view_key(s, Key::CloseBracket, shift, around);
    lemma_view_key(s, Key::Zero, shift, around);
    lemma_view_key(s, Key::Minus, shift, around);
    lemma_view_key(s, Key::Equals, shift, around);
    lemma_view_key(s, Key::Plus, shift, around);
    promises::a_level_is_added_or_taken(s, -1);
    promises::a_level_is_added_or_taken(s, 1);
    reveal(State::view_key);
    reveal(State::zoom_at);
}

proof fn lemma_view_key(s: State, key: Key, shift: bool, around: Around)
    requires
        exploring(s),
        match key {
            Key::OpenBracket
            | Key::CloseBracket
            | Key::Minus
            | Key::Equals
            | Key::Plus
            | Key::Zero => true,
            _ => false,
        },
    ensures
        s.on_key(key, false, shift, around) == (s.view_key(key, around), Work::Nothing),
{
    lemma_plain_key(s, key, shift, around);
    reveal(State::explore_key);
    reveal(State::screen_key);
}

/// With control held, the letters are the browser's: they open, scan, mark and
/// move nothing.
pub proof fn control_leaves_the_letters_alone(s: State, shift: bool, around: Around)
    requires
        exploring(s),
    ensures
        s.on_key(keys::key_named("c"@), true, shift, around) == (s, Work::Nothing),
        s.on_key(keys::key_named("t"@), true, shift, around) == (s, Work::Nothing),
        s.on_key(keys::key_named("r"@), true, shift, around) == (s, Work::Nothing),
        s.on_key(keys::key_named("g"@), true, shift, around) == (s, Work::Nothing),
        s.on_key(keys::key_named("i"@), true, shift, around) == (s, Work::Nothing),
        s.on_key(keys::key_named("d"@), true, shift, around) == (s, Work::Nothing),
        s.on_key(keys::key_named("p"@), true, shift, around) == (s, Work::Nothing),
        s.on_key(keys::key_named("s"@), true, shift, around) == (s, Work::Nothing),
        s.on_key(keys::key_named("/"@), true, shift, around) == (s, Work::Nothing),
        s.on_key(keys::key_named("u"@), true, shift, around) == (s, Work::Nothing),
        s.on_key(keys::key_named("backspace"@), true, shift, around) == (s, Work::Nothing),
{
    keys_go_by_their_names();
    lemma_held_key(s, Key::C, shift, around);
    lemma_held_key(s, Key::T, shift, around);
    lemma_held_key(s, Key::R, shift, around);
    lemma_held_key(s, Key::G, shift, around);
    lemma_held_key(s, Key::I, shift, around);
    lemma_held_key(s, Key::D, shift, around);
    lemma_held_key(s, Key::P, shift, around);
    lemma_held_key(s, Key::S, shift, around);
    lemma_held_key(s, Key::Slash, shift, around);
    lemma_held_key(s, Key::U, shift, around);
    lemma_held_key(s, Key::Backspace, shift, around);
}

proof fn lemma_held_key(s: State, key: Key, shift: bool, around: Around)
    requires
        exploring(s),
        key is C || key is T || key is R || key is G || key is I || key is D || key is P || key is S
            || key is Slash || key is U || key is Backspace,
    ensures
        s.on_key(key, true, shift, around) == (s, Work::Nothing),
{
    reveal(State::on_menu_key);
    reveal(State::on_screen_key);
    reveal(State::on_explore_key);
    reveal(State::explore_key);
    reveal(State::screen_key);
    reveal(State::view_key);
}

/// With control held, the letters that act on a tile only take up what the
/// pointer is on.
pub proof fn control_leaves_the_tile_alone(s: State, key: Key, shift: bool, around: Around)
    requires
        exploring(s),
        key is X || key is H || key is J || key is K || key is L || key is Left || key is Right
            || key is Up || key is Down,
    ensures
        s.on_key(key, true, shift, around) == (s.adopt_pointer_target(), Work::Nothing),
{
    reveal(State::on_menu_key);
    reveal(State::on_screen_key);
    reveal(State::on_explore_key);
    reveal(State::explore_key);
    reveal(State::screen_key);
    reveal(State::view_key);
}

/// The review's keys: p and m choose how things go, ! unmarks all, Escape goes
/// back.
pub proof fn keys_of_the_review(s: State, control: bool, shift: bool, around: Around)
    requires
        s.screen == Screen::Review,
        !s.confirm_open,
        s.crumb_menu is None,
        !s.show_help,
    ensures
        s.on_key(keys::key_named("p"@), control, shift, around).0 == (State {
            removal_mode: RemovalMode::Permanent,
            ..s
        }),
        s.on_key(keys::key_named("m"@), control, shift, around).0 == (State {
            removal_mode: RemovalMode::Trash,
            ..s
        }),
        s.on_key(keys::key_named("!"@), control, shift, around).0 == (State {
            marks: Seq::empty(),
            notice: None,
            ..s
        }),
        s.on_key(keys::key_named("escape"@), control, shift, around).0 == (State {
            screen: Screen::Explore,
            ..s
        }),
        s.on_key(keys::key_named("?"@), control, shift, around).0 == (State {
            show_help: true,
            ..s
        }),
        s.on_key(keys::key_named("enter"@), control, shift, around) == s.commit(around.plan),
        s.on_key(keys::key_named("space"@), control, shift, around) == (s, Work::Nothing),
{
    keys_go_by_their_names();
    reveal(State::on_menu_key);
    reveal(State::on_screen_key);
    reveal(State::on_review_key);
}

/// Help closes with Escape, ?, / and q, and keeps every other key.
pub proof fn keys_of_the_help(s: State, key: Key, control: bool, shift: bool, around: Around)
    requires
        s.show_help,
        !s.confirm_open,
        s.crumb_menu is None,
    ensures
        ({
            let after = s.on_key(key, control, shift, around);
            &&& after.1 == Work::Nothing
            &&& key == Key::Escape || key == Key::Question || key == Key::Slash || key == Key::Q
                ==> after.0 == (State { show_help: false, ..s })
            &&& key != Key::Escape && key != Key::Question && key != Key::Slash && key != Key::Q
                ==> after.0 == s
        }),
        keys::key_named("q"@) == Key::Q,
{
    keys_go_by_their_names();
    reveal(State::on_menu_key);
    reveal(State::on_screen_key);
}

/// While a removal runs only Escape does anything: it stops it. Once it is
/// done, Escape and Enter go back.
pub proof fn keys_of_a_run(s: State, key: Key, control: bool, shift: bool, around: Around)
    requires
        !s.confirm_open,
        s.crumb_menu is None,
        !s.show_help,
    ensures
        s.screen == Screen::Running && s.removing && key == Key::Escape ==> s.on_key(
            key,
            control,
            shift,
            around,
        ) == (State { notice: Some(News::Stopping), ..s }, Work::StopRemoval),
        s.screen == Screen::Running && (key != Key::Escape || !s.removing) ==> s.on_key(
            key,
            control,
            shift,
            around,
        ) == (s, Work::Nothing),
        s.screen == Screen::Done && (key == Key::Escape || key == Key::Enter) ==> s.on_key(
            key,
            control,
            shift,
            around,
        ) == (State { screen: Screen::Explore, ..s }, Work::Nothing),
        s.screen == Screen::Done && key != Key::Escape && key != Key::Enter ==> s.on_key(
            key,
            control,
            shift,
            around,
        ) == (s, Work::Nothing),
{
    reveal(State::on_menu_key);
    reveal(State::on_screen_key);
}

// ── the pointer ────────────────────────────────────────────────────────

/// Over the mosaic the pointer points at the tile there, and outside it at
/// nothing.
pub proof fn the_pointer_points_at_the_tile_under_it(
    s: State,
    x: Single,
    y: Single,
    around: Around,
)
    ensures
        ({
            let zero = Single { bits: single::ZERO };
            let after = s.apply(Event::Move { x, y }, around).0;
            let on = zero.at_most(x) && zero.at_most(y) && x.below(s.mosaic_size.0) && y.below(
                s.mosaic_size.1,
            );
            &&& on ==> after.hovered == tree::opt_crumbs(around.under) && after.pointer_active
                && after.pointer == Some((x, y))
            &&& !on ==> after.hovered is None && !after.pointer_active && after.pointer is None
            &&& after.selected == s.selected && after.marks == s.marks
        }),
        ({
            let after = s.apply(Event::Leave, around).0;
            &&& after.hovered is None && !after.pointer_active && after.pointer is None
            &&& after.selected == s.selected && after.marks == s.marks
        }),
{
    reveal(State::gesture);
}

/// A click selects; on the selected directory it opens, and so does a double
/// click; with control held, or by the middle button, it marks; another button
/// does nothing.
pub proof fn a_click_selects_then_opens(
    s: State,
    x: Single,
    y: Single,
    button: u8,
    ctrl: bool,
    count: u32,
    around: Around,
)
    ensures
        ({
            let under = tree::opt_crumbs(around.under);
            let after = s.apply(Event::Click { x, y, button, ctrl, count }, around).0;
            let dir = under is Some && (s.node_at(under->0) matches Some(node) && node.dir);
            &&& button > 1 ==> after == s
            &&& button == 1 && under is Some ==> after == s.toggle_mark(under->0)
            &&& button == 1 && under is None ==> after == s
            &&& button == 0 && count >= 2 && under is Some ==> after == (State {
                selected: under,
                ..s
            }).descend()
            &&& button == 0 && count >= 2 && under is None ==> after == s
            &&& button == 0 && count < 2 && ctrl && under is Some ==> after == s.toggle_mark(
                under->0,
            )
            &&& button == 0 && count < 2 && ctrl && under is None ==> after == s
            &&& button == 0 && count < 2 && !ctrl && dir && s.selected == under ==> after
                == s.descend()
            &&& button == 0 && count < 2 && !ctrl && !(dir && s.selected == under) ==> after
                == (State { selected: under, ..s })
        }),
{
    reveal(State::gesture);
}

/// A pan moves the view, a size that can be drawn in is taken up, and a number
/// that is none changes nothing.
pub proof fn a_gesture_needs_numbers(
    s: State,
    a: Single,
    b: Single,
    c: Single,
    shift: bool,
    around: Around,
)
    ensures
        a.finite() && b.finite() ==> s.apply(Event::Pan { dx: a, dy: b }, around).0 == (State {
            camera: around.panned,
            ..s
        }),
        !(a.finite() && b.finite()) ==> s.apply(Event::Pan { dx: a, dy: b }, around).0 == s,
        !(a.finite() && b.finite() && c.finite()) ==> s.apply(
            Event::Zoom { x: a, y: b, factor: c },
            around,
        ).0 == s && s.apply(Event::Wheel { x: a, y: b, lines: c, shift }, around).0 == s,
        a.finite() && b.finite() && c.finite() ==> s.apply(
            Event::Zoom { x: a, y: b, factor: c },
            around,
        ).0 == s.zoom_at(c, true, around) && s.apply(
            Event::Wheel { x: a, y: b, lines: c, shift },
            around,
        ).0 == s.on_scroll_wheel(c, shift, around),
        ({
            let one = Single { bits: single::ONE };
            let usable = one.at_most(a) && one.at_most(b) && a.finite() && b.finite();
            let after = s.apply(Event::Size { w: a, h: b }, around).0;
            &&& usable ==> after == (State { mosaic_size: (a, b), ..s })
            &&& !usable ==> after == s
        }),
        s.apply(Event::Panel { px: a }, around).0 == (State { panel_px: around.panel, ..s }),
{
    reveal(State::gesture);
}

// ── the page ───────────────────────────────────────────────────────────

/// What the page's own controls do.
pub proof fn the_page_does_what_it_says(
    s: State,
    crumbs: Vec<usize>,
    index: usize,
    typed: String,
    around: Around,
)
    ensures
        s.apply(Event::Goto { crumbs }, around) == (s.go_to(crumbs@), Work::Nothing),
        s.apply(Event::Reveal { crumbs }, around) == (s.revealed(crumbs@), Work::Nothing),
        s.apply(Event::Mark { crumbs }, around) == (s.toggle_mark(crumbs@), Work::Nothing),
        s.apply(Event::Mode { index }, around) == s.set_mode(index),
        s.apply(Event::CancelDelete, around) == (State { confirm_open: false, ..s }, Work::Nothing),
        s.apply(Event::FindApply, around) == (s.apply_filter(), Work::Nothing),
        s.apply(Event::FindClear, around) == (s.clear_filter(), Work::Nothing),
        ({
            let after = s.apply(Event::Find { text: typed }, around).0;
            &&& after.find == typed@
            &&& s.tree is None ==> after.matches is None
            &&& s.tree is Some && !crate::text::blank(typed@) ==> after.matches == around.found
        }),
{
    reveal(State::page_event);
}

/// A sibling that is chosen is gone to, and a crumb's menu opens beside it, or
/// closes where it is open.
pub proof fn the_trail_does_what_it_says(
    s: State,
    crumbs: Vec<usize>,
    index: usize,
    x: Single,
    y: Single,
    around: Around,
)
    ensures
        s.apply(Event::Sibling { parent: crumbs, index }, around) == (
            s.choose_sibling(crumbs@, index),
            Work::Nothing,
        ),
        ({
            let after = s.apply(Event::Menu { crumbs, x, y }, around).0;
            let here = s.crumb_menu is Some && crumbs@.len() > 0 && s.crumb_menu->0.parent
                == crumbs@.take(crumbs@.len() - 1);
            &&& here ==> after == (State { crumb_menu: None, ..s })
            &&& s.crumb_menu is None ==> after == s.open_crumb_menu(crumbs@, (x, y))
            &&& !here && crumbs@.len() > 0 ==> after == s.open_crumb_menu(crumbs@, (x, y))
        }),
{
    reveal(State::page_event);
    if crumbs@.len() > 0 {
        assert(crumbs@.drop_last() =~= crumbs@.take(crumbs@.len() - 1));
    }
}

/// A path off the wire acts on exactly the path that was put on it.
pub proof fn a_path_off_the_wire_is_the_path_put_on_it(
    s: State,
    path: Seq<u8>,
    wire: String,
    around: Around,
)
    requires
        wire@ == codec::encoded(path),
    ensures
        s.apply(Event::Widen { path: wire }, around) == s.widen_to(path, around.volume),
        ({
            let after = s.apply(Event::Unmark { path: wire }, around);
            &&& after.1 == Work::Nothing
            &&& !marks::marked(after.0.marks, path)
            &&& forall|i: int|
                0 <= i < s.marks.len() && crate::paths::components((#[trigger] s.marks[i]).path)
                    != crate::paths::components(path) ==> after.0.marks.contains(s.marks[i])
        }),
{
    reveal(State::page_event);
    codec::a_path_survives_the_wire(path);
    promises::unmarking_takes_one_mark_away(s, path);
}

/// What cannot be decoded is dropped, never guessed at.
pub proof fn a_garbled_path_is_dropped(s: State, wire: String, around: Around)
    requires
        codec::decoded(wire@) is None,
    ensures
        s.apply(Event::Widen { path: wire }, around) == (s, Work::Nothing),
        s.apply(Event::Unmark { path: wire }, around) == (s, Work::Nothing),
{
    reveal(State::page_event);
}

} // verus!
