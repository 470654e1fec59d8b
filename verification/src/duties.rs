//! What the small parts owe: the first state, the free space, siblings, names
//! in a tree, numbers on the wire, and the tasks.

use crate::app::{Camera, ColorMode, News, ScanOptions, ScanSnapshot, SpaceInfo, State};
use crate::codec;
use crate::input;
use crate::input::{Around, Event};
use crate::json;
use crate::json::{Json, Member};
use crate::navigation;
use crate::palette::Appearance;
use crate::paths;
use crate::scanning;
use crate::scanning::Machine;
use crate::server;
use crate::server::Traffic;
use crate::single::Single;
use crate::tasks;
use crate::tasks::{Errand, Task};
use crate::text;
use crate::tree;
use crate::tree::{Category, Metric, Node};
use vstd::prelude::*;

verus! {

// ── the first state ────────────────────────────────────────────────────

/// An application starts on the explore screen with nothing marked, nothing
/// selected and nothing found; it removes to the trash wherever there is one.
pub proof fn an_application_starts_plain(
    root: Seq<u8>,
    options: ScanOptions,
    depth: u32,
    machine: Machine,
)
    ensures
        ({
            let s = State::fresh(root, options, depth, machine);
            &&& s.root_path == root && s.options == options
            &&& s.screen is Explore && s.tree is None && !s.scanning && !s.removing
            &&& s.marks.len() == 0 && s.selected is None && s.hovered is None
            &&& s.crumbs.len() == 0 && s.past.len() == 0 && s.future.len() == 0
            &&& s.notice is None && s.scan_error is None && s.matches is None
            &&& s.find.len() == 0 && !s.find_open && !s.filter_applied
            &&& !s.confirm_open && !s.show_help && s.show_selection && s.crumb_menu is None
            &&& s.insights.len() == 0 && s.git.len() == 0 && s.run_log.len() == 0
            &&& s.color_mode == ColorMode::Kind && s.appearance == Appearance::Dark
            &&& 1 <= depth <= 6 ==> s.depth == depth
            &&& depth < 1 ==> s.depth == 1
            &&& depth > 6 ==> s.depth == 6
            &&& machine.trash.available ==> s.removal_mode is Trash
            &&& !machine.trash.available ==> s.removal_mode is Permanent
            &&& s.space == machine.volume.space && s.space_baseline is None
            &&& s.device == text::opt_text(machine.volume.device)
            &&& s.home == paths::opt_path(machine.home)
            &&& s.disk_root == paths::opt_path(machine.disk_root)
            &&& s.scanned_at == machine.now && s.scan_elapsed is None
            &&& s.run_summary.total == 0 && s.run_summary.removed == 0 && s.run_summary.failed == 0
                && s.run_summary.bytes == 0
            &&& s.camera == Camera::still() && s.pointer is None && !s.pointer_active
            &&& s.progress == ScanSnapshot::nothing()
        }),
{
}

/// A still view is magnified once, and begins where the mosaic does.
pub proof fn a_still_view_shows_everything(camera: Camera)
    requires
        camera == Camera::still(),
    ensures
        camera.scale.bits == 0x3f80_0000,
        camera.origin_x.bits == 0,
        camera.origin_y.bits == 0,
{
}

/// A reading of the free space is taken up every 150 milliseconds while
/// something is removed and every 1200 else, and changes nothing but itself.
pub proof fn the_free_space_is_read_when_due(s: State, elapsed: u64, fresh: Option<SpaceInfo>)
    ensures
        s.screen is Running ==> (s.space_due(elapsed) <==> elapsed >= 150),
        !(s.screen is Running) ==> (s.space_due(elapsed) <==> elapsed >= 1200),
        s.space_due(elapsed) ==> s.read_space(elapsed, fresh).space == fresh,
        !s.space_due(elapsed) ==> s.read_space(elapsed, fresh) == s,
        s.read_space(elapsed, fresh) == (State {
            space: s.read_space(elapsed, fresh).space,
            ..s
        }),
{
}

/// A clock reads as it is as long as the number holds it; a clock before the
/// epoch reads zero.
pub proof fn a_clock_reads_as_it_is(clock: u64)
    ensures
        clock <= i64::MAX ==> scanning::unix_seconds(Some(clock)) == clock,
        clock > i64::MAX ==> scanning::unix_seconds(Some(clock)) == i64::MAX,
        scanning::unix_seconds(None) == 0,
{
}

// ── siblings ───────────────────────────────────────────────────────────

/// With nothing selected in it, tab goes to the first child of the directory on
/// screen, and shift-tab to its last.
pub proof fn tab_starts_at_either_end(s: State, node: Node)
    requires
        s.node_at(s.crumbs) == Some(node),
        node.children@.len() > 0,
        s.selected matches Some(selected) ==> selected.len() <= s.crumbs.len(),
    ensures
        s.cycle_sibling(1).selected == Some(s.crumbs.push(0)),
        s.cycle_sibling(-1).selected == Some(s.crumbs.push((node.children@.len() - 1) as usize)),
        s.cycle_sibling(1).crumbs == s.crumbs,
        !s.cycle_sibling(1).pointer_active,
{
    reveal(State::cycle_sibling);
}

/// Where there are no siblings, tab leaves the selection alone.
pub proof fn tab_stays_in_an_empty_directory(s: State, step: int)
    requires
        s.selected matches Some(selected) ==> selected.len() <= s.crumbs.len(),
        s.node_at(s.crumbs) matches Some(node) ==> node.children@.len() == 0,
    ensures
        s.cycle_sibling(step).selected == s.selected,
{
    reveal(State::cycle_sibling);
}

/// A menu ranks the largest two dozen children, and all where there are fewer:
/// none it leaves out outranks one it has.
pub proof fn a_menu_ranks_the_largest(node: Node, metric: Metric, i: int, left: usize)
    ensures
        ({
            let rows = navigation::listed(node, metric);
            let many = node.children@.len();
            &&& many <= 24 ==> rows.len() == many
            &&& many > 24 ==> rows.len() == 24
            &&& 0 <= i < rows.len() ==> rows[i] < many
            &&& 0 <= i < rows.len() && left < many && !rows.contains(left) ==> node.children@[rows[i] as int].measure(
                metric,
            ) >= node.children@[left as int].measure(metric)
            &&& 0 < i < rows.len() ==> node.children@[rows[i - 1] as int].measure(metric)
                >= node.children@[rows[i] as int].measure(metric)
        }),
{
    let many = node.children@.len() as int;
    assert(node.children@.len() == node.children.len());
    navigation::largest_siblings_come_first(node.children@, metric, many);
    let all = navigation::ranking(node.children@, metric, many);
    let rows = navigation::listed(node, metric);
    if left < many && !rows.contains(left) {
        assert(all.contains(left));
        let k = choose|k: int| 0 <= k < all.len() && all[k] == left;
        if k < rows.len() {
            assert(rows[k] == left);
        }
        if 0 <= i < rows.len() {
            assert(navigation::outranks(node.children@, metric, all[i], all[k]));
        }
    }
    if 0 < i < rows.len() {
        assert(navigation::outranks(node.children@, metric, all[i - 1], all[i]));
    }
}

/// A step in the history leads to the directory visited last that way, and
/// nowhere once there is none.
pub proof fn the_history_leads_where_it_says(s: State, back: bool)
    ensures
        back && s.past.len() > 0 ==> s.history_target(back) == Some(s.past.last())
            && s.travel(back).crumbs == s.past.last(),
        !back && s.future.len() > 0 ==> s.history_target(back) == Some(s.future.last())
            && s.travel(back).crumbs == s.future.last(),
        back && s.past.len() == 0 ==> s.history_target(back) is None && s.travel(back) == s,
        !back && s.future.len() == 0 ==> s.history_target(back) is None && s.travel(back) == s,
{
    reveal(State::travel);
}

/// What is revealed is selected in the directory that holds it.
pub proof fn what_is_revealed_is_in_view(s: State, crumbs: Seq<usize>)
    requires
        crumbs.len() > 0,
    ensures
        s.revealed(crumbs).selected == Some(crumbs),
        s.revealed(crumbs).crumbs == crumbs.drop_last(),
        !s.revealed(crumbs).pointer_active,
{
    reveal(State::go_to);
}

/// Zooming out of a view that is not magnified goes up; one that is by more
/// than a last digit is shrunk instead.
pub proof fn zooming_out_goes_up_only_unmagnified(s: State, factor: Single, around: Around)
    requires
        factor.bits < 0x3f80_0000,
        s.camera.scale.bits <= 0x7f80_0000,
    ensures
        s.camera.scale.bits <= 0x3f80_0001 ==> s.zoom_at(factor, true, around) == s.ascend(),
        s.camera.scale.bits <= 0x3f80_0001 ==> s.zoom_at(factor, false, around) == s,
        s.camera.scale.bits > 0x3f80_0001 ==> s.zoom_at(factor, true, around) == (State {
            camera: around.zoomed,
            ..s
        }),
{
    reveal(State::zoom_at);
}

/// The keys magnify by a quarter and shrink by a fifth, and a notch of the
/// wheel by a little less either way.
pub proof fn the_steps_of_a_zoom(step: Single)
    ensures
        step.bits == input::KEY_IN <==> step.bits == 0x3fa0_0000,
        step.bits == input::KEY_OUT <==> step.bits == 0x3f4c_cccd,
        step.bits == input::WHEEL_IN <==> step.bits == 0x3f93_3333,
        step.bits == input::WHEEL_OUT <==> step.bits == 0x3f5e_9bd4,
{
}

// ── numbers ────────────────────────────────────────────────────────────

/// Numbers compare by sign, then size: what is negative is below what is
/// positive, zeros are equal, and what is no number compares with nothing.
pub proof fn numbers_compare_by_sign_and_size(a: Single, b: Single)
    ensures
        a.bits <= 0x7f80_0000 && b.bits <= 0x7f80_0000 ==> (a.below(b) <==> a.bits < b.bits) && (
        a.at_most(b) <==> a.bits <= b.bits),
        0x8000_0000 <= a.bits <= 0xff80_0000 && 0x8000_0000 <= b.bits <= 0xff80_0000 ==> (a.below(b)
            <==> a.bits > b.bits) && (a.at_most(b) <==> a.bits >= b.bits),
        0x8000_0000 < a.bits <= 0xff80_0000 && b.bits <= 0x7f80_0000 ==> a.below(b) && !b.at_most(
            a,
        ),
        a.bits == 0x8000_0000 && b.bits == 0 ==> a.at_most(b) && b.at_most(a) && !a.below(b),
        (0x7f80_0000 < a.bits < 0x8000_0000 || a.bits > 0xff80_0000) ==> !a.below(b) && !b.below(a)
            && !a.at_most(b) && !b.at_most(a) && !a.finite(),
        a.finite() <==> a.bits < 0x7f80_0000 || 0x8000_0000 <= a.bits < 0xff80_0000,
{
}

/// Sorting numbers agrees with comparing them, and puts the negative zero
/// before the positive one.
pub proof fn sorting_agrees_with_comparing(a: Single, b: Single)
    ensures
        a.below(b) ==> a.place() < b.place(),
        a.place() == b.place() ==> a == b,
        a.bits == 0x8000_0000 && b.bits == 0 ==> a.place() < b.place(),
{
}

/// Each kind has its own colour, in the order of the table.
pub proof fn each_kind_has_its_place(a: Category, b: Category)
    ensures
        a.place() == b.place() ==> a == b,
        0 <= a.place() < 9,
        a is Code ==> a.place() == 0,
        a is AgentScratch ==> a.place() == 1,
        a is Toolchain ==> a.place() == 2,
        a is Synced ==> a.place() == 3,
        a is Git ==> a.place() == 4,
        a is Media ==> a.place() == 5,
        a is Cache ==> a.place() == 6,
        a is Documents ==> a.place() == 7,
        a is Other ==> a.place() == 8,
{
}

/// A metric measures what it says, and the other one is the other one.
pub proof fn a_metric_measures_what_it_says(node: Node, metric: Metric)
    ensures
        node.measure(Metric::Bytes) == node.bytes,
        node.measure(Metric::Files) == node.files,
        metric.other() != metric,
        metric.other().other() == metric,
{
}

// ── trees ──────────────────────────────────────────────────────────────

/// A wanted number is found at its first place.
pub proof fn a_place_is_the_first(list: Seq<usize>, wanted: usize)
    ensures
        match tree::position(list, wanted) {
            Some(at) => 0 <= at < list.len() && list[at] == wanted && forall|i: int|
                0 <= i < at ==> list[i] != wanted,
            None => forall|i: int| 0 <= i < list.len() ==> list[i] != wanted,
        },
    decreases list.len(),
{
    if list.len() > 0 {
        let short = list.drop_last();
        a_place_is_the_first(short, wanted);
        assert(forall|i: int| 0 <= i < short.len() ==> short[i] == list[i]);
    }
}

/// A child is found by its name, the first of those that share it.
pub proof fn a_child_is_the_first_of_its_name(children: Seq<Node>, name: Seq<char>)
    requires
        children.len() <= usize::MAX,
    ensures
        match tree::child_named(children, name) {
            Some(at) => 0 <= at < children.len() && children[at as int].name() == name && forall|
                i: int,
            |
                0 <= i < at ==> (#[trigger] children[i]).name() != name,
            None => forall|i: int|
                0 <= i < children.len() ==> (#[trigger] children[i]).name() != name,
        },
    decreases children.len(),
{
    if children.len() > 0 {
        let short = children.drop_last();
        a_child_is_the_first_of_its_name(short, name);
        assert(forall|i: int| 0 <= i < short.len() ==> short[i] == #[trigger] children[i]);
        assert(children.last() == children[children.len() - 1]);
    }
}

/// Crumbs lead one child further at each step: to the child of where all but
/// the last of them lead.
pub proof fn crumbs_lead_step_by_step(root: Node, crumbs: Seq<usize>, index: usize)
    ensures
        tree::resolve(root, Seq::empty()) == Some(root),
        tree::resolve(root, crumbs.push(index)) == match tree::resolve(root, crumbs) {
            Some(node) => if index < node.children@.len() {
                Some(node.children@[index as int])
            } else {
                None
            },
            None => None,
        },
    decreases crumbs.len(),
{
    let all = crumbs.push(index);
    if crumbs.len() == 0 {
        assert(all.skip(1) =~= Seq::empty());
        if index < root.children@.len() {
            assert(tree::resolve(root.children@[index as int], Seq::empty()) == Some(
                root.children@[index as int],
            ));
        }
        assert(crumbs =~= Seq::empty());
    } else if crumbs[0] < root.children@.len() {
        assert(all.skip(1) =~= crumbs.skip(1).push(index));
        crumbs_lead_step_by_step(root.children@[crumbs[0] as int], crumbs.skip(1), index);
    }
}

/// A path grows by one name at each step: what crumbs lead to has the path of
/// what holds it, and its own name behind that.
pub proof fn a_path_grows_by_one_name(
    base: Seq<u8>,
    root: Node,
    crumbs: Seq<usize>,
    index: usize,
    node: Node,
)
    requires
        tree::resolve(root, crumbs) == Some(node),
        index < node.children@.len(),
    ensures
        tree::path_of(base, root, Seq::empty()) == base,
        tree::path_of(base, root, crumbs.push(index)) == paths::join(
            tree::path_of(base, root, crumbs),
            node.children@[index as int].os_name@,
        ),
    decreases crumbs.len(),
{
    let all = crumbs.push(index);
    if crumbs.len() == 0 {
        assert(all.skip(1) =~= Seq::empty());
        assert(crumbs =~= Seq::empty());
        assert(tree::path_of(
            paths::join(base, root.children@[index as int].os_name@),
            root.children@[index as int],
            Seq::empty(),
        ) == paths::join(base, root.children@[index as int].os_name@));
    } else {
        let child = root.children@[crumbs[0] as int];
        assert(all.skip(1) =~= crumbs.skip(1).push(index));
        a_path_grows_by_one_name(
            paths::join(base, child.os_name@),
            child,
            crumbs.skip(1),
            index,
            node,
        );
    }
}

/// What holds something is one step up; the root holds itself.
pub proof fn what_holds_is_one_step_up(crumbs: Seq<usize>, index: usize)
    ensures
        tree::parent_of(crumbs.push(index)) == crumbs,
        crumbs.len() == 0 ==> tree::parent_of(crumbs) == crumbs,
{
    assert(crumbs.push(index).drop_last() =~= crumbs);
}

// ── the wire ───────────────────────────────────────────────────────────

/// Letters, digits, dashes, dots, underscores, tildes and slashes go over the
/// wire as they are; every other byte as a percent sign and two digits that
/// make it up, in capitals.
pub proof fn a_byte_goes_over_the_wire(byte: u8)
    ensures
        ({
            let plain = 0x30 <= byte <= 0x39 || 0x41 <= byte <= 0x5a || 0x61 <= byte <= 0x7a || byte
                == 0x2d || byte == 0x2e || byte == 0x5f || byte == 0x7e || byte == 0x2f;
            let sent = codec::wired(byte);
            &&& plain ==> sent == seq![byte as char]
            &&& !plain ==> {
                &&& sent.len() == 3
                &&& sent[0] == '%'
                &&& 0x30 <= (sent[1] as u32) <= 0x39 || 0x41 <= (sent[1] as u32) <= 0x46
                &&& 0x30 <= (sent[2] as u32) <= 0x39 || 0x41 <= (sent[2] as u32) <= 0x46
                &&& codec::hex_value(sent[1] as u8) is Some
                &&& codec::hex_value(sent[2] as u8) is Some
                &&& codec::hex_value(sent[1] as u8)->0 * 16 + codec::hex_value(sent[2] as u8)->0
                    == byte
            }
        }),
{
    assert(byte / 16 < 16 && byte % 16 < 16);
    assert((byte / 16) * 16 + byte % 16 == byte);
}

/// Digits count up from zero, and ten letters on from `a`, whatever their case.
pub proof fn a_digit_has_its_value(digit: u8)
    ensures
        0x30 <= digit <= 0x39 ==> codec::hex_value(digit) == Some((digit - 0x30) as u8),
        0x41 <= digit <= 0x46 ==> codec::hex_value(digit) == Some((digit - 0x37) as u8)
            && codec::hex_value((digit + 0x20) as u8) == codec::hex_value(digit),
        digit < 0x30 || 0x39 < digit < 0x41 || 0x46 < digit < 0x61 || 0x66 < digit
            ==> codec::hex_value(digit) is None,
{
}

/// What comes off the wire comes byte by byte: a plain byte as it is, a percent
/// sign with the two digits behind it.
pub proof fn the_wire_is_read_byte_by_byte(wire: Seq<u8>, at: int)
    requires
        0 <= at < wire.len(),
    ensures
        ({
            let all = codec::decode_from(wire, at);
            let next = codec::decode_from(wire, at + 1);
            let skipped = codec::decode_from(wire, at + 3);
            &&& wire[at] != 0x25 && next is Some ==> all == Some(seq![wire[at]] + next->0)
            &&& wire[at] != 0x25 && next is None ==> all is None
            &&& wire[at] == 0x25 && at + 2 >= wire.len() ==> all is None
            &&& wire[at] == 0x25 && at + 2 < wire.len() && (codec::hex_value(wire[at + 1]) is None
                || codec::hex_value(wire[at + 2]) is None) ==> all is None
            &&& wire[at] == 0x25 && at + 2 < wire.len() && codec::hex_value(wire[at + 1]) is Some
                && codec::hex_value(wire[at + 2]) is Some && skipped is Some ==> all is Some
                && all->0[0] == codec::hex_value(wire[at + 1])->0 * 16 + codec::hex_value(
                wire[at + 2],
            )->0 && all->0.skip(1) == skipped->0
        }),
        codec::decode_from(wire, wire.len() as int) == Some(Seq::<u8>::empty()),
{
    if wire[at] == 0x25 && at + 2 < wire.len() && codec::decode_from(wire, at) is Some {
        assert(codec::decode_from(wire, at)->0.skip(1) =~= codec::decode_from(wire, at + 3)->0);
    }
}

/// A text in JSON has no bare quote and no bare control character: each such
/// character has a backslash before it and reads back as itself.
pub proof fn a_text_is_safe_in_json(c: char)
    ensures
        ({
            let out = json::escaped_char(c);
            &&& c == '"' ==> out == seq!['\\', '"']
            &&& c == '\\' ==> out == seq!['\\', '\\']
            &&& c == '\n' ==> out == seq!['\\', 'n']
            &&& c == '\t' ==> out == seq!['\\', 't']
            &&& c == '\r' ==> out == seq!['\\', 'r']
            &&& c as u32 == 8 ==> out == seq!['\\', 'b']
            &&& c as u32 == 12 ==> out == seq!['\\', 'f']
            &&& c as u32 >= 0x20 && c != '"' && c != '\\' ==> out == seq![c]
            &&& (c as u32) < 0x20 ==> out.len() > 1 && out[0] == '\\'
        }),
{
}

/// Escaping for JSON goes character by character.
pub proof fn json_goes_by_character(a: Seq<char>, b: Seq<char>)
    ensures
        json::escaped(a + b) == json::escaped(a) + json::escaped(b),
    decreases b.len(),
{
    if b.len() == 0 {
        assert(a + b =~= a);
        assert(json::escaped(a) + Seq::<char>::empty() =~= json::escaped(a));
    } else {
        let short = b.drop_last();
        json_goes_by_character(a, short);
        assert((a + b).drop_last() =~= a + short);
        assert((a + b).last() == b.last());
        assert(json::escaped(a) + (json::escaped(short) + json::escaped_char(b.last())) =~= (
        json::escaped(a) + json::escaped(short)) + json::escaped_char(b.last()));
    }
}

/// Members stand in an object one behind the other, each name before its value.
pub proof fn an_object_has_its_members(members: Seq<Member>, more: Member)
    ensures
        ({
            let said = json::quoted(more.key) + seq![':'] + json::value_text(more.value);
            &&& members.len() == 0 ==> json::members_text(members.push(more)) == said
            &&& members.len() > 0 ==> json::members_text(members.push(more)) == json::members_text(
                members,
            ) + seq![','] + said
            &&& json::object_text(members) == seq!['{'] + json::members_text(members) + seq!['}']
        }),
{
    assert(members.push(more).drop_last() =~= members);
}

/// Numbers stand in a list one behind the other.
pub proof fn a_list_has_its_numbers(list: Seq<usize>, more: usize)
    ensures
        list.len() == 0 ==> json::listed(list.push(more)) == text::decimal(more as nat),
        list.len() > 0 ==> json::listed(list.push(more)) == json::listed(list) + seq![',']
            + text::decimal(more as nat),
        json::value_text(Json::Indices(list)) == seq!['['] + json::listed(list) + seq![']'],
        json::value_text(Json::Index(more)) == text::decimal(more as nat),
{
    assert(list.push(more).drop_last() =~= list);
}

/// Each event says its kind, and what it is about.
pub proof fn an_event_says_its_kind(
    kind: Seq<char>,
    crumbs: Seq<usize>,
    word: Seq<char>,
    index: usize,
)
    ensures
        ({
            let typed = Member { key: "type"@, value: Json::Text(kind) };
            &&& json::bare_event(kind) == json::object_text(seq![typed])
            &&& json::crumbs_event(kind, crumbs) == json::object_text(
                seq![Member { key: "crumbs"@, value: Json::Indices(crumbs) }, typed],
            )
            &&& json::path_event(kind, word) == json::object_text(
                seq![Member { key: "path"@, value: Json::Text(word) }, typed],
            )
        }),
        json::key_event(word) == json::object_text(
            seq![
                Member { key: "key"@, value: Json::Text(word) },
                Member { key: "type"@, value: Json::Text("key"@) },
            ],
        ),
        json::mode_event(index) == json::object_text(
            seq![
                Member { key: "index"@, value: Json::Index(index) },
                Member { key: "type"@, value: Json::Text("mode"@) },
            ],
        ),
        json::removal_event(word) == json::object_text(
            seq![
                Member { key: "mode"@, value: Json::Text(word) },
                Member { key: "type"@, value: Json::Text("removal"@) },
            ],
        ),
{
}

/// White space is what Unicode calls so, and a blank text has nothing else.
pub proof fn white_space_is_as_unicode_has_it(c: char, line: Seq<char>)
    ensures
        ({
            let code = c as u32;
            let white = 9 <= code <= 13 || code == 32 || code == 0x85 || code == 0xa0 || code
                == 0x1680 || 0x2000 <= code <= 0x200a || code == 0x2028 || code == 0x2029 || code
                == 0x202f || code == 0x205f || code == 0x3000;
            &&& text::is_white(c) <==> white
            &&& !white && line.contains(c) ==> !text::blank(line)
        }),
        text::blank(Seq::empty()),
        text::blank(line) && text::is_white(c) ==> text::blank(line.push(c)),
{
    if line.contains(c) {
        let i = choose|i: int| 0 <= i < line.len() && line[i] == c;
        assert(text::blank(line) ==> text::is_white(line[i]));
    }
}

// ── replies ────────────────────────────────────────────────────────────

/// Every reply, whatever its status, forbids sniffing, framing, foreign scripts
/// and referrers.
pub proof fn every_reply_is_guarded(
    status: u16,
    body: Seq<u8>,
    small: Option<Seq<u8>>,
    kind: Seq<char>,
    cache: Seq<char>,
)
    ensures
        ({
            let reply = server::packed(body, small, kind, status, cache);
            &&& reply.headers.contains(("X-Content-Type-Options"@, "nosniff"@))
            &&& reply.headers.contains(("Referrer-Policy"@, "no-referrer"@))
            &&& reply.headers.contains(
                (
                    "Content-Security-Policy"@,
                    "default-src 'self'; style-src 'self' 'unsafe-inline'; script-src 'self'; img-src 'self' data:; frame-ancestors 'none'"@,
                ),
            )
            &&& reply.status == status
        }),
{
    let reply = server::packed(body, small, kind, status, cache);
    assert(reply.headers[0] == ("X-Content-Type-Options"@, "nosniff"@));
    assert(reply.headers[1].0 == "Content-Security-Policy"@);
    assert(reply.headers[2] == ("Referrer-Policy"@, "no-referrer"@));
}

/// Each refusal has its status, and none is kept by a cache.
pub proof fn each_refusal_has_its_status(reply: server::Message)
    ensures
        reply == server::refusal() ==> reply.status == 401,
        reply == server::unreadable() ==> reply.status == 400,
        reply == server::nowhere() ==> reply.status == 404,
        reply == server::refusal() || reply == server::unreadable() || reply == server::nowhere()
            ==> reply.headers.contains(("Cache-Control"@, "no-store"@)) && reply.headers.contains(
            ("Content-Type"@, "text/plain"@),
        ),
{
    if reply == server::refusal() || reply == server::unreadable() || reply == server::nowhere() {
        assert(reply.headers[3] == ("Cache-Control"@, "no-store"@));
        assert(reply.headers[4] == ("Content-Type"@, "text/plain"@));
    }
}

/// A pointer that moves or leaves asks for no picture, and a view that is
/// zoomed, panned or resized for the mosaic alone; nothing else is either.
pub proof fn traffic_has_its_kinds(event: Event)
    ensures
        server::of_pointer(event) <==> event is Move || event is Leave,
        server::of_view(event) <==> event is Wheel || event is Zoom || event is Pan || event is Size,
        server::traffic(seq![event]) == if event is Move || event is Leave {
            Traffic::Pointer
        } else if event is Wheel || event is Zoom || event is Pan || event is Size {
            Traffic::View
        } else {
            Traffic::Other
        },
        server::traffic(Seq::empty()) == Traffic::Other,
{
    assert(seq![event][0] == event);
}

/// One other event in a batch makes the whole batch another.
pub proof fn one_event_decides_a_batch(events: Seq<Event>, i: int)
    requires
        0 <= i < events.len(),
    ensures
        !(events[i] is Move || events[i] is Leave) ==> server::traffic(events) != Traffic::Pointer,
        !(events[i] is Wheel || events[i] is Zoom || events[i] is Pan || events[i] is Size)
            ==> server::traffic(events) != Traffic::View,
{
}

// ── news ───────────────────────────────────────────────────────────────

/// News without a place in them always say the same.
pub proof fn plain_news_say_the_same(path: Seq<char>, ancestor: Seq<char>)
    ensures
        crate::app::Notice::says(News::RootStays, path, ancestor)
            == "the scanned root cannot be removed; open a directory first"@,
        crate::app::Notice::says(News::NothingMarked, path, ancestor) == "nothing is marked"@,
        crate::app::Notice::says(News::MarkFirst, path, ancestor)
            == "mark something first: space marks the selected tile"@,
        crate::app::Notice::says(News::Stopping, path, ancestor)
            == "stopping after the current item"@,
{
}

// ── the tasks ──────────────────────────────────────────────────────────

/// The whole check is the lint and then the tests, and the lint is the format
/// and then clippy.
pub proof fn the_tasks_are_made_of_each_other(task: Task)
    ensures
        tasks::jobs_of(Task::Ci) == tasks::jobs_of(Task::Lint) + tasks::jobs_of(Task::Test),
        tasks::jobs_of(Task::Lint) == tasks::jobs_of(Task::Fmt) + tasks::jobs_of(Task::Clippy),
        tasks::jobs_of(Task::Bundle) == seq![Errand::Bundle],
        tasks::jobs_of(Task::Test) == seq![
            Errand::Cargo(seq!["test"@, "--workspace"@]),
            Errand::Shim,
        ],
        tasks::jobs_of(Task::Fmt) == seq![Errand::Cargo(tasks::fmt_args(true).push("--check"@))],
        tasks::jobs_of(Task::FmtFix) == seq![Errand::Cargo(seq!["fmt"@, "--all"@])],
        tasks::jobs_of(Task::Clippy) == seq![
            Errand::Cargo(
                seq![
                    "clippy"@,
                    "--workspace"@,
                    "--all-targets"@,
                    "--"@,
                    "-D"@,
                    "warnings"@,
                ],
            ),
        ],
        task is Help || task is Unknown ==> tasks::jobs_of(task).len() == 0,
{
    assert(tasks::jobs_of(Task::Lint) =~= tasks::jobs_of(Task::Fmt) + tasks::jobs_of(Task::Clippy));
    assert(tasks::fmt_args(true).push("--check"@) =~= tasks::fmt_args(false));
}

/// A task goes by its name, and the lint by none at all.
pub proof fn a_task_goes_by_its_name(name: Seq<char>)
    ensures
        tasks::task_named(None) == Task::Lint,
        name == "lint"@ ==> tasks::task_named(Some(name)) == Task::Lint,
        name == "fmt"@ ==> tasks::task_named(Some(name)) == Task::Fmt,
        name == "fmt-fix"@ ==> tasks::task_named(Some(name)) == Task::FmtFix,
        name == "clippy"@ ==> tasks::task_named(Some(name)) == Task::Clippy,
        name == "test"@ ==> tasks::task_named(Some(name)) == Task::Test,
        name == "ci"@ ==> tasks::task_named(Some(name)) == Task::Ci,
        name == "bundle"@ ==> tasks::task_named(Some(name)) == Task::Bundle,
        name == "help"@ || name == "-h"@ || name == "--help"@ ==> tasks::task_named(Some(name))
            == Task::Help,
        name.len() > 7 ==> tasks::task_named(Some(name)) == Task::Unknown,
{
    reveal_strlit("lint");
    reveal_strlit("fmt");
    reveal_strlit("fmt-fix");
    reveal_strlit("clippy");
    reveal_strlit("test");
    reveal_strlit("ci");
    reveal_strlit("bundle");
    reveal_strlit("help");
    reveal_strlit("-h");
    reveal_strlit("--help");
    assert("lint"@[0] == 'l' && "test"@[0] == 't' && "help"@[0] == 'h' && "ci"@[0] == 'c');
    assert("-h"@[0] == '-' && "clippy"@[0] == 'c' && "bundle"@[0] == 'b' && "--help"@[0] == '-');
    assert("lint"@.len() == 4 && "test"@.len() == 4 && "help"@.len() == 4 && "ci"@.len() == 2);
    assert("-h"@.len() == 2 && "clippy"@.len() == 6 && "bundle"@.len() == 6 && "--help"@.len() == 6);
    assert("fmt"@.len() == 3 && "fmt-fix"@.len() == 7);
}

/// A command is shown with its words in order, a space before each.
pub proof fn a_command_is_shown_in_order(program: Seq<char>, words: Seq<Seq<char>>, more: Seq<char>)
    ensures
        tasks::shown(program, words.push(more)) == tasks::shown(program, words) + " "@ + more,
        words.len() == 0 ==> tasks::shown(program, words) == program + ""@,
{
    let all = words.push(more);
    lemma_joined(words, all, words.len() as int);
    let before = tasks::joined(words, words.len() as int);
    assert(all[all.len() - 1] == more);
    assert(program + (before + " "@ + more) =~= program + before + " "@ + more);
}

proof fn lemma_joined(a: Seq<Seq<char>>, b: Seq<Seq<char>>, count: int)
    requires
        count <= a.len(),
        count <= b.len(),
        forall|i: int| 0 <= i < count ==> a[i] == #[trigger] b[i],
    ensures
        tasks::joined(a, count) == tasks::joined(b, count),
    decreases count,
{
    if count > 0 {
        lemma_joined(a, b, count - 1);
        assert(a[count - 1] == b[count - 1]);
    }
}

} // verus!
