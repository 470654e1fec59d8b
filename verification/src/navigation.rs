//! Moving through the tree: the trail, the selection and the sibling menu.

use crate::app::{
    Camera, Crumb, CrumbMenu, Menu, Place, Sibling, State, Tile, Web, SIBLING_ROWS,
};
use crate::keys::Key;
use crate::paths;
use crate::paths::OsPath;
use crate::single::Single;
use crate::tree;
use crate::tree::{Metric, Node};
use vstd::prelude::*;

verus! {

/// A direction for geometric selection movement.
#[derive(Clone, Copy, Debug, PartialEq, Eq, Structural)]
pub enum Direction {
    Left,
    Right,
    Up,
    Down,
}

impl Direction {
    /// Towards where reading starts.
    pub open spec fn backwards(self) -> bool {
        self == Direction::Left || self == Direction::Up
    }

    /// Towards where reading starts.
    pub fn is_backwards(self) -> (r: bool)
        ensures
            r == self.backwards(),
    {
        matches!(self, Direction::Left | Direction::Up)
    }
}

/// A drawn tile, and how far it is in the direction asked about.
#[derive(Debug)]
pub struct ScoredTile {
    pub crumbs: Vec<usize>,
    /// Distance along the direction's axis, weighed with the offset from it;
    /// nothing when the tile does not lie that way.
    pub score: Option<Single>,
}

/// A trail crumb's label: the directory's own name, or `/` for the root;
/// never empty where the path is not.
pub fn crumb_label(path: &OsPath) -> (r: String)
    ensures
        r@ == paths::label(path@),
        path@.len() > 0 ==> r@.len() > 0,
{
    path.label()
}

/// Where a child of measure `value` goes among children ranked largest
/// first: behind every one that is at least as large.
pub open spec fn slot(
    ranked: Seq<usize>,
    children: Seq<Node>,
    metric: Metric,
    value: u64,
) -> int
    decreases ranked.len(),
{
    if ranked.len() == 0 || children[ranked.last() as int].measure(metric) >= value {
        ranked.len() as int
    } else {
        slot(ranked.drop_last(), children, metric, value)
    }
}

/// The first `count` children, largest first, equals in their own order.
pub open spec fn ranking(children: Seq<Node>, metric: Metric, count: int) -> Seq<usize>
    decreases count,
{
    if count <= 0 {
        Seq::empty()
    } else {
        let before = ranking(children, metric, count - 1);
        before.insert(
            slot(before, children, metric, children[count - 1].measure(metric)),
            (count - 1) as usize,
        )
    }
}

/// The rows a sibling menu lists, by child index.
pub open spec fn listed(node: Node, metric: Metric) -> Seq<usize> {
    let all = ranking(node.children@, metric, node.children@.len() as int);
    if all.len() > SIBLING_ROWS {
        all.take(SIBLING_ROWS as int)
    } else {
        all
    }
}

/// `a` comes before `b` among siblings: it is larger, or as large and first
/// in the directory.
pub open spec fn outranks(children: Seq<Node>, metric: Metric, a: usize, b: usize) -> bool {
    ||| children[a as int].measure(metric) > children[b as int].measure(metric)
    ||| children[a as int].measure(metric) == children[b as int].measure(metric) && a < b
}

/// A slot is in the list; what is before it is at least as large, what is
/// behind it smaller.
proof fn lemma_slot(
    ranked: Seq<usize>,
    children: Seq<Node>,
    metric: Metric,
    value: u64,
)
    ensures
        0 <= slot(ranked, children, metric, value) <= ranked.len(),
        forall|i: int|
            slot(ranked, children, metric, value) <= i < ranked.len() ==> children[#[trigger] ranked[i] as int].measure(
                metric,
            ) < value,
        slot(ranked, children, metric, value) > 0 ==> children[ranked[slot(
            ranked,
            children,
            metric,
            value,
        ) - 1] as int].measure(metric) >= value,
    decreases ranked.len(),
{
    if ranked.len() > 0 && children[ranked.last() as int].measure(metric) < value {
        let short = ranked.drop_last();
        lemma_slot(short, children, metric, value);
        assert forall|i: int|
            slot(ranked, children, metric, value) <= i < ranked.len() implies children[#[trigger] ranked[i] as int].measure(
            metric,
        ) < value by {
            if i < ranked.len() - 1 {
                assert(short[i] == ranked[i]);
            }
        }
    }
}

/// A ranking holds each child once, each before the ones it outranks.
pub proof fn largest_siblings_come_first(children: Seq<Node>, metric: Metric, count: int)
    requires
        0 <= count <= children.len() <= usize::MAX,
    ensures
        ranking(children, metric, count).len() == count,
        forall|i: int|
            0 <= i < count ==> (#[trigger] ranking(children, metric, count)[i]) < count,
        forall|i: int, j: int|
            0 <= i < j < count ==> outranks(
                children,
                metric,
                #[trigger] ranking(children, metric, count)[i],
                #[trigger] ranking(children, metric, count)[j],
            ),
        forall|index: usize|
            index < count ==> #[trigger] ranking(children, metric, count).contains(index),
    decreases count,
{
    if count > 0 {
        let before = ranking(children, metric, count - 1);
        let now = ranking(children, metric, count);
        let value = children[count - 1].measure(metric);
        let at = slot(before, children, metric, value);
        let last = (count - 1) as usize;
        largest_siblings_come_first(children, metric, count - 1);
        lemma_slot(before, children, metric, value);
        assert(now == before.insert(at, last));
        assert forall|i: int| 0 <= i < count implies (#[trigger] now[i]) < count by {
            if i < at {
                assert(now[i] == before[i]);
            } else if i > at {
                assert(now[i] == before[i - 1]);
            }
        }
        assert forall|i: int, j: int| 0 <= i < j < count implies outranks(
            children,
            metric,
            #[trigger] now[i],
            #[trigger] now[j],
        ) by {
            if j < at {
                assert(now[i] == before[i] && now[j] == before[j]);
            } else if j == at {
                assert(now[i] == before[i]);
                if i < at - 1 {
                    assert(outranks(children, metric, before[i], before[at - 1]));
                }
            } else if i < at {
                assert(now[i] == before[i] && now[j] == before[j - 1]);
            } else if i == at {
                assert(now[j] == before[j - 1]);
            } else {
                assert(now[i] == before[i - 1] && now[j] == before[j - 1]);
            }
        }
        assert forall|index: usize| index < count implies #[trigger] now.contains(index) by {
            if index == last {
                assert(now[at] == last);
            } else {
                assert(before.contains(index));
                let i = choose|i: int| 0 <= i < before.len() && before[i] == index;
                if i < at {
                    assert(now[i] == index);
                } else {
                    assert(now[i + 1] == index);
                }
            }
        }
    }
}

/// Tree steps of a trail: each directory on the way down that exists.
pub open spec fn steps(root: Node, crumbs: Seq<usize>, count: int) -> Seq<(Seq<char>, Place)>
    decreases count,
{
    if count <= 0 {
        Seq::empty()
    } else {
        match tree::resolve(root, crumbs.take(count)) {
            Some(node) => steps(root, crumbs, count - 1).push(
                (node.name(), Place::Tree(crumbs.take(count))),
            ),
            None => steps(root, crumbs, count - 1),
        }
    }
}

/// The views of a trail.
pub open spec fn trail_of(trail: Seq<(String, Crumb)>) -> Seq<(Seq<char>, Place)> {
    trail.map_values(|step: (String, Crumb)| (step.0@, step.1@))
}

/// Where the tile at `crumbs` first stands among `tiles`.
pub open spec fn tile_at(tiles: Seq<Tile>, crumbs: Seq<usize>) -> Option<int>
    decreases tiles.len(),
{
    if tiles.len() == 0 {
        None
    } else {
        match tile_at(tiles.drop_last(), crumbs) {
            Some(at) => Some(at),
            None => if tiles.last().crumbs@ == crumbs {
                Some(tiles.len() - 1)
            } else {
                None
            },
        }
    }
}

proof fn lemma_tile_at(tiles: Seq<Tile>, crumbs: Seq<usize>, len: int)
    requires
        0 <= len <= tiles.len(),
        tile_at(tiles.take(len), crumbs) is Some,
    ensures
        tile_at(tiles, crumbs) == tile_at(tiles.take(len), crumbs),
    decreases tiles.len(),
{
    if len == tiles.len() {
        assert(tiles.take(len) =~= tiles);
    } else {
        assert(tiles.drop_last().take(len) =~= tiles.take(len));
        lemma_tile_at(tiles.drop_last(), crumbs, len);
    }
}

/// Where the tile at `crumbs` first stands among `tiles`.
pub fn find_tile(tiles: &Vec<Tile>, crumbs: &[usize]) -> (r: Option<usize>)
    ensures
        match r {
            Some(at) => at < tiles@.len() && tile_at(tiles@, crumbs@) == Some(at as int),
            None => tile_at(tiles@, crumbs@) is None,
        },
{
    let mut at: usize = 0;
    assert(tiles@.take(0) =~= Seq::empty());
    while at < tiles.len()
        invariant
            at <= tiles@.len(),
            tile_at(tiles@.take(at as int), crumbs@) is None,
        decreases tiles@.len() - at,
    {
        proof {
            assert(tiles@.take(at + 1).drop_last() =~= tiles@.take(at as int));
        }
        if tree::same_crumbs(tiles[at].crumbs.as_slice(), crumbs) {
            proof {
                lemma_tile_at(tiles@, crumbs@, at + 1);
            }
            return Some(at);
        }
        at = at + 1;
    }
    assert(tiles@.take(at as int) =~= tiles@);
    None
}

/// The nearest tile beside the selection: of the tiles as deep as it, other
/// than itself and lying the way asked, the first with the least score.
pub open spec fn nearest(tiles: Seq<ScoredTile>, from: Seq<usize>) -> Option<int>
    decreases tiles.len(),
{
    if tiles.len() == 0 {
        None
    } else {
        let before = nearest(tiles.drop_last(), from);
        let last = tiles.last();
        if last.crumbs@.len() != from.len() || last.crumbs@ == from {
            before
        } else {
            match (last.score, before) {
                (None, _) => before,
                (Some(_), None) => Some(tiles.len() - 1),
                (Some(score), Some(best)) => if score.below(tiles[best].score->0) {
                    Some(tiles.len() - 1)
                } else {
                    before
                },
            }
        }
    }
}

/// Some tile stands for the selection.
pub open spec fn drawn(tiles: Seq<ScoredTile>, crumbs: Seq<usize>) -> bool {
    exists|i: int| 0 <= i < tiles.len() && (#[trigger] tiles[i]).crumbs@ == crumbs
}

proof fn lemma_nearest(tiles: Seq<ScoredTile>, from: Seq<usize>)
    ensures
        nearest(tiles, from) matches Some(at) ==> 0 <= at < tiles.len() && tiles[at].score is Some,
    decreases tiles.len(),
{
    if tiles.len() > 0 {
        lemma_nearest(tiles.drop_last(), from);
    }
}

fn nearest_tile(tiles: &Vec<ScoredTile>, from: &[usize]) -> (r: Option<usize>)
    ensures
        match r {
            Some(at) => at < tiles@.len() && nearest(tiles@, from@) == Some(at as int),
            None => nearest(tiles@, from@) is None,
        },
{
    let mut best: Option<(usize, Single)> = None;
    let mut at: usize = 0;
    assert(tiles@.take(0) =~= Seq::empty());
    while at < tiles.len()
        invariant
            at <= tiles@.len(),
            match best {
                Some((b, score)) => {
                    &&& b < at
                    &&& nearest(tiles@.take(at as int), from@) == Some(b as int)
                    &&& tiles@[b as int].score == Some(score)
                },
                None => nearest(tiles@.take(at as int), from@) is None,
            },
        decreases tiles@.len() - at,
    {
        let tile = &tiles[at];
        proof {
            assert(tiles@.take(at + 1).drop_last() =~= tiles@.take(at as int));
            assert(tiles@.take(at + 1).last() == tile);
        }
        if tile.crumbs.len() == from.len() && !tree::same_crumbs(tile.crumbs.as_slice(), from) {
            if let Some(score) = tile.score {
                match best {
                    Some((_, least)) => {
                        if score.lt(least) {
                            best = Some((at, score));
                        }
                    },
                    None => {
                        best = Some((at, score));
                    },
                }
            }
        }
        at = at + 1;
    }
    assert(tiles@.take(at as int) =~= tiles@);
    match best {
        Some((b, _)) => Some(b),
        None => None,
    }
}

impl State {
    /// The node `crumbs` lead to.
    pub open spec fn node_at(self, crumbs: Seq<usize>) -> Option<Node> {
        match self.tree {
            Some(root) => tree::resolve(root, crumbs),
            None => None,
        }
    }

    /// `crumbs` lead to a directory.
    pub open spec fn is_dir(self, crumbs: Seq<usize>) -> bool {
        self.node_at(crumbs) matches Some(node) && node.dir
    }

    /// Where `crumbs` lead on the filesystem.
    pub open spec fn path_at(self, crumbs: Seq<usize>) -> Option<Seq<u8>> {
        match self.tree {
            Some(root) => Some(tree::path_of(self.root_path, root, crumbs)),
            None => None,
        }
    }

    /// Where the directory currently drawn is.
    pub open spec fn current_path(self) -> Seq<u8> {
        match self.path_at(self.crumbs) {
            Some(path) => path,
            None => self.root_path,
        }
    }

    /// Crumbs for an absolute path, if the tree contains it.
    pub open spec fn crumbs_for_path(self, path: Seq<u8>) -> Option<Seq<usize>> {
        match self.tree {
            Some(root) if paths::starts_with(path, self.root_path) => tree::find_along(
                root,
                paths::components(path).skip(paths::components(self.root_path).len() as int),
            ),
            _ => None,
        }
    }

    /// The trail, from `/`: the directories above the scanned root, the root,
    /// and the way down to the current directory.
    pub open spec fn breadcrumbs(self) -> Seq<(Seq<char>, Place)> {
        let root = self.root_path;
        let above = Seq::new(
            paths::parts(root).len(),
            |k: int|
                (paths::label(paths::ancestor(root, k)), Place::Above(paths::ancestor(root, k))),
        );
        let trail = above.push((paths::label(root), Place::Tree(Seq::empty())));
        match self.tree {
            Some(node) => trail + steps(node, self.crumbs, self.crumbs.len() as int),
            None => trail,
        }
    }

    /// The layout changed under a still pointer: its hover is stale until it
    /// moves again.
    pub open spec fn forget_hover(self) -> State {
        State { hovered: None, pointer_active: false, ..self }
    }

    /// Change the directory, and remember the one it was: the way forward
    /// from there is given up.
    pub open spec fn visit(self, crumbs: Seq<usize>) -> State {
        if crumbs == self.crumbs {
            self
        } else {
            State {
                crumbs,
                past: self.past.push(self.crumbs),
                future: Seq::empty(),
                ..self
            }
        }
    }

    /// Be in the directory at `crumbs`, with the whole layout in view.
    pub open spec fn arrive(self, crumbs: Seq<usize>) -> State {
        State {
            crumb_menu: None,
            crumbs,
            selected: Some(crumbs),
            camera: Camera::still(),
            cache: None,
            ..self.forget_hover()
        }
    }

    /// Jump to the directory at `crumbs`.
    #[verifier::opaque]
    pub open spec fn go_to(self, crumbs: Seq<usize>) -> State {
        self.visit(crumbs).arrive(crumbs)
    }

    /// Where going back, or forward again, leads.
    pub open spec fn history_target(self, back: bool) -> Option<Seq<usize>> {
        let way = if back {
            self.past
        } else {
            self.future
        };
        if way.len() > 0 {
            Some(way.last())
        } else {
            None
        }
    }

    /// Go back to the directory visited before, or forward again.
    #[verifier::opaque]
    pub open spec fn travel(self, back: bool) -> State {
        match self.history_target(back) {
            Some(crumbs) => if back {
                State {
                    past: self.past.drop_last(),
                    future: self.future.push(self.crumbs),
                    ..self.arrive(crumbs)
                }
            } else {
                State {
                    past: self.past.push(self.crumbs),
                    future: self.future.drop_last(),
                    ..self.arrive(crumbs)
                }
            },
            None => self,
        }
    }

    /// Show `crumbs` in its directory, selected.
    pub open spec fn revealed(self, crumbs: Seq<usize>) -> State {
        State {
            selected: Some(crumbs),
            pointer_active: false,
            ..self.go_to(tree::parent_of(crumbs))
        }
    }

    /// Make `target`, a directory with contents below the current one, the
    /// current one.
    #[verifier::opaque]
    pub open spec fn enter(self, target: Seq<usize>) -> State {
        if target.len() > self.crumbs.len() && self.crumbs.is_prefix_of(target) && (
        self.node_at(target) matches Some(node) && node.dir && node.children@.len() > 0) {
            State {
                selected: Some(target),
                camera: Camera::still(),
                cache: None,
                ..self.visit(target).forget_hover()
            }
        } else {
            self
        }
    }

    /// What opening acts on: the selection when it is below the current
    /// directory (a file opens the directory holding it), otherwise the
    /// largest entry.
    pub open spec fn descend_target(self) -> Option<Seq<usize>> {
        match self.selected {
            Some(selected) if selected.len() > self.crumbs.len() => if self.is_dir(selected) {
                Some(selected)
            } else {
                Some(selected.drop_last())
            },
            _ => match self.node_at(self.crumbs) {
                Some(node) => match node.largest {
                    Some(index) => Some(self.crumbs.push(index)),
                    None => None,
                },
                None => None,
            },
        }
    }

    /// Open the selected tile.
    #[verifier::opaque]
    pub open spec fn descend(self) -> State {
        match self.descend_target() {
            Some(target) => self.enter(target),
            None => self,
        }
    }

    /// Go up to the parent directory, keeping the directory it came from
    /// selected.
    #[verifier::opaque]
    pub open spec fn ascend(self) -> State {
        if self.crumbs.len() == 0 {
            self
        } else {
            let parent = self.crumbs.drop_last();
            State {
                selected: Some(self.crumbs),
                camera: Camera::still(),
                cache: None,
                ..self.visit(parent).forget_hover()
            }
        }
    }

    /// The tile a key acts on: under the pointer if the pointer moved last,
    /// otherwise the keyboard selection.
    pub open spec fn action_target(self) -> Option<Seq<usize>> {
        if self.pointer_active && self.hovered is Some {
            self.hovered
        } else {
            self.selected
        }
    }

    /// Make the pointed-at tile the selection.
    pub open spec fn adopt_pointer_target(self) -> State {
        if self.pointer_active && self.hovered is Some {
            State { selected: self.hovered, ..self }
        } else {
            self
        }
    }

    /// Select the largest entry of the current directory, when nothing is
    /// selected.
    pub open spec fn select_largest(self) -> State {
        match (self.selected, self.node_at(self.crumbs)) {
            (None, Some(node)) => match node.largest {
                Some(index) => State { selected: Some(self.crumbs.push(index)), ..self },
                None => self,
            },
            _ => self,
        }
    }

    /// Forget crumbs that lead nowhere in the tree.
    pub open spec fn keep_selection_valid(self) -> State {
        match self.tree {
            Some(root) => State {
                crumbs: if tree::resolve(root, self.crumbs) is Some {
                    self.crumbs
                } else {
                    Seq::empty()
                },
                selected: match self.selected {
                    Some(selected) => if tree::resolve(root, selected) is Some {
                        Some(selected)
                    } else {
                        None
                    },
                    None => None,
                },
                ..self
            },
            None => self,
        }
    }

    /// Move the selection to the nearest tile that way; at an edge behind,
    /// to the parent.
    #[verifier::opaque]
    pub open spec fn move_selection(
        self,
        direction: Direction,
        tiles: Option<Seq<ScoredTile>>,
    ) -> State {
        let still = State { pointer_active: false, ..self };
        match (tiles, self.selected) {
            (None, _) => still,
            (Some(tiles), None) => if tiles.len() > 0 {
                State { selected: Some(tiles[0].crumbs@), ..still }
            } else {
                still
            },
            (Some(tiles), Some(current)) => if !drawn(tiles, current) {
                still
            } else {
                match nearest(tiles, current) {
                    Some(at) => State { selected: Some(tiles[at].crumbs@), ..still },
                    None => if direction.backwards() && self.crumbs.len() > 0 {
                        State { selected: Some(self.crumbs.drop_last()), ..still }
                    } else {
                        still
                    },
                }
            },
        }
    }

    /// The directory whose entries Tab walks.
    pub open spec fn sibling_parent(self) -> Seq<usize> {
        match self.selected {
            Some(selected) if selected.len() > self.crumbs.len() => selected.drop_last(),
            _ => self.crumbs,
        }
    }

    /// Select the entry `step` further by rank, going round at the ends.
    #[verifier::opaque]
    pub open spec fn cycle_sibling(self, step: int) -> State {
        let still = State { pointer_active: false, ..self };
        let parent = self.sibling_parent();
        match self.node_at(parent) {
            Some(node) if node.children@.len() > 0 => {
                let count = node.children@.len() as int;
                let next = match self.selected {
                    Some(selected) if selected.len() == parent.len() + 1
                        && selected.drop_last() == parent && selected.last() < count => (
                    selected.last() + step) % count,
                    _ => if step >= 0 {
                        0
                    } else {
                        count - 1
                    },
                };
                State { selected: Some(parent.push(next as usize)), ..still }
            },
            _ => still,
        }
    }

    /// The rows of the sibling menu for `parent`, by child index.
    pub open spec fn sibling_rows(self, parent: Seq<usize>) -> Seq<usize> {
        match self.node_at(parent) {
            Some(node) => listed(node, self.options.metric),
            None => Seq::empty(),
        }
    }

    /// Open the sibling menu for the crumb at `crumbs`.
    pub open spec fn open_crumb_menu(self, crumbs: Seq<usize>, anchor: (Single, Single)) -> State {
        if crumbs.len() == 0 {
            self
        } else {
            let parent = crumbs.drop_last();
            let current = crumbs.last();
            State {
                crumb_menu: Some(
                    Menu {
                        parent,
                        current,
                        highlighted: match tree::position(self.sibling_rows(parent), current) {
                            Some(at) => at as usize,
                            None => 0,
                        },
                        anchor,
                    },
                ),
                ..self
            }
        }
    }

    /// Go to a sibling: into a directory, beside a file.
    pub open spec fn choose_sibling(self, parent: Seq<usize>, index: usize) -> State {
        let crumbs = parent.push(index);
        let closed = State { crumb_menu: None, ..self };
        if self.is_dir(crumbs) {
            closed.go_to(crumbs)
        } else {
            closed.revealed(crumbs)
        }
    }

    /// Put the menu's highlight on `row`.
    pub open spec fn set_highlight(self, row: usize) -> State {
        match self.crumb_menu {
            Some(menu) => State { crumb_menu: Some(Menu { highlighted: row, ..menu }), ..self },
            None => self,
        }
    }

    /// A key while a sibling menu is open, and whether the menu took it.
    #[verifier::opaque]
    pub open spec fn on_menu_key(self, key: Key) -> (State, bool) {
        match self.crumb_menu {
            None => (self, false),
            Some(menu) => {
                let rows = self.sibling_rows(menu.parent);
                let last = if rows.len() > 0 {
                    rows.len() - 1
                } else {
                    0
                };
                let closed = State { crumb_menu: None, ..self };
                match key {
                    Key::Down | Key::J => (
                        self.set_highlight(
                            if menu.highlighted + 1 < last {
                                (menu.highlighted + 1) as usize
                            } else {
                                last as usize
                            },
                        ),
                        true,
                    ),
                    Key::Up | Key::K => (
                        self.set_highlight(
                            if menu.highlighted > 0 {
                                (menu.highlighted - 1) as usize
                            } else {
                                0
                            },
                        ),
                        true,
                    ),
                    Key::Home => (self.set_highlight(0), true),
                    Key::End => (self.set_highlight(last as usize), true),
                    Key::Enter | Key::Space | Key::Right | Key::L => (
                        if menu.highlighted < rows.len() {
                            self.choose_sibling(menu.parent, rows[menu.highlighted as int])
                        } else {
                            self
                        },
                        true,
                    ),
                    Key::Escape | Key::Left | Key::H => (closed, true),
                    _ => (closed, false),
                }
            },
        }
    }

    /// `crumbs` lead to a drawn directory that has contents.
    pub open spec fn enterable(self, crumbs: Seq<usize>) -> bool {
        &&& self.node_at(crumbs) matches Some(node) && node.dir && node.children@.len() > 0
        &&& self.cache matches Some((_, tiles)) && tile_at(tiles, crumbs) is Some
    }

    /// The deepest enterable directory on the way to `hovered`, among its
    /// first `len` crumbs and below the current directory.
    pub open spec fn deepest(self, hovered: Seq<usize>, len: int) -> Option<Seq<usize>>
        decreases len,
    {
        if len <= self.crumbs.len() {
            None
        } else if self.enterable(hovered.take(len)) {
            Some(hovered.take(len))
        } else {
            self.deepest(hovered, len - 1)
        }
    }
}

impl Web {
    /// The tree, once a scan has landed.
    pub fn tree(&self) -> (r: Option<&Node>)
        ensures
            match r {
                Some(root) => self@.tree == Some(*root),
                None => self@.tree is None,
            },
    {
        self.tree.as_ref()
    }

    /// The node the treemap is currently rooted at.
    pub fn current(&self) -> (r: Option<&Node>)
        ensures
            match r {
                Some(node) => self@.node_at(self@.crumbs) == Some(*node),
                None => self@.node_at(self@.crumbs) is None,
            },
    {
        self.node_at(self.crumbs.as_slice())
    }

    /// The node `crumbs` lead to.
    pub fn node_at(&self, crumbs: &[usize]) -> (r: Option<&Node>)
        ensures
            match r {
                Some(node) => self@.node_at(crumbs@) == Some(*node),
                None => self@.node_at(crumbs@) is None,
            },
    {
        match &self.tree {
            Some(root) => root.resolve(crumbs),
            None => None,
        }
    }

    fn is_dir_at(&self, crumbs: &[usize]) -> (r: bool)
        ensures
            r == self@.is_dir(crumbs@),
    {
        match self.node_at(crumbs) {
            Some(node) => node.dir,
            None => false,
        }
    }

    /// Where `crumbs` lead on the filesystem.
    pub fn path_at(&self, crumbs: &[usize]) -> (r: Option<OsPath>)
        ensures
            paths::opt_path(r) == self@.path_at(crumbs@),
    {
        match &self.tree {
            Some(root) => Some(root.path_of(&self.root_path, crumbs)),
            None => None,
        }
    }

    /// Path of the directory currently drawn.
    pub fn current_path(&self) -> (r: OsPath)
        ensures
            r@ == self@.current_path(),
    {
        match self.path_at(self.crumbs.as_slice()) {
            Some(path) => path,
            None => self.root_path.copy(),
        }
    }

    /// Crumbs for an absolute path, if the tree still contains it.
    pub fn crumbs_for_path(&self, path: &OsPath) -> (r: Option<Vec<usize>>)
        ensures
            tree::opt_crumbs(r) == self@.crumbs_for_path(path@),
    {
        let base = self.root_path.components();
        let way = path.components();
        if !paths::prefix_of(&base, &way) {
            return None;
        }
        proof {
            assert(paths::byte_lists(base@).len() == base@.len());
            assert(paths::byte_lists(way@).len() == way@.len());
        }
        match &self.tree {
            Some(root) => root.find_along(&way, base.len()),
            None => None,
        }
    }

    /// The trail, from `/`: the directories above the scanned root, which
    /// widen the scan, then the root and the path into the tree.
    pub fn breadcrumbs(&self) -> (r: Vec<(String, Crumb)>)
        ensures
            trail_of(r@) == self@.breadcrumbs(),
    {
        let ghost root = self.root_path@;
        let above = self.root_path.above();
        let mut trail: Vec<(String, Crumb)> = Vec::new();
        let mut at: usize = 0;
        while at < above.len()
            invariant
                at <= above@.len(),
                root == self.root_path@,
                above@.len() == paths::parts(root).len(),
                forall|k: int|
                    0 <= k < above@.len() ==> (#[trigger] above@[k])@ == paths::ancestor(root, k),
                trail@.len() == at,
                forall|k: int|
                    0 <= k < at ==> (#[trigger] trail_of(trail@)[k]) == (
                        paths::label(paths::ancestor(root, k)),
                        Place::Above(paths::ancestor(root, k)),
                    ),
            decreases above@.len() - at,
        {
            let ghost before = trail@;
            trail.push((crumb_label(&above[at]), Crumb::Above(above[at].copy())));
            proof {
                assert(trail_of(trail@) =~= trail_of(before).push(
                    (
                        paths::label(paths::ancestor(root, at as int)),
                        Place::Above(paths::ancestor(root, at as int)),
                    ),
                ));
            }
            at = at + 1;
        }
        let ghost heads = trail_of(trail@);
        let own: Vec<usize> = Vec::new();
        let ghost before = trail@;
        trail.push((crumb_label(&self.root_path), Crumb::Tree(own)));
        let ghost upper = trail_of(trail@);
        proof {
            assert(own@ =~= Seq::<usize>::empty());
            assert(upper =~= heads.push((paths::label(root), Place::Tree(Seq::empty()))));
            assert(upper =~= Seq::new(
                paths::parts(root).len(),
                |k: int|
                    (
                        paths::label(paths::ancestor(root, k)),
                        Place::Above(paths::ancestor(root, k)),
                    ),
            ).push((paths::label(root), Place::Tree(Seq::empty()))));
        }
        match &self.tree {
            None => trail,
            Some(node) => {
                let mut at: usize = 0;
                let mut crumbs: Vec<usize> = Vec::new();
                assert(upper + steps(*node, self.crumbs@, 0) =~= upper);
                assert(crumbs@ =~= self.crumbs@.take(0));
                while at < self.crumbs.len()
                    invariant
                        at <= self.crumbs@.len(),
                        crumbs@ == self.crumbs@.take(at as int),
                        self.tree == Some(*node),
                        tree::resolve(*node, crumbs@) is Some,
                        trail_of(trail@) == upper + steps(*node, self.crumbs@, at as int),
                        self@.breadcrumbs() == upper + steps(
                            *node,
                            self.crumbs@,
                            self.crumbs@.len() as int,
                        ),
                    decreases self.crumbs@.len() - at,
                {
                    let index = self.crumbs[at];
                    proof {
                        tree::lemma_resolve_push(*node, crumbs@, index);
                        assert(self.crumbs@.take(at + 1) =~= crumbs@.push(index));
                    }
                    crumbs.push(index);
                    match node.resolve(crumbs.as_slice()) {
                        Some(found) => {
                            let ghost before = trail@;
                            let step = (
                                found.shown_name(),
                                Crumb::Tree(tree::copy_crumbs(crumbs.as_slice())),
                            );
                            trail.push(step);
                            proof {
                                assert(trail_of(trail@) =~= trail_of(before).push(
                                    (found.name(), Place::Tree(crumbs@)),
                                ));
                                assert(trail_of(trail@) =~= upper + steps(
                                    *node,
                                    self.crumbs@,
                                    at + 1,
                                ));
                            }
                        },
                        None => {
                            proof {
                                lemma_steps_end(*node, self.crumbs@, at + 1, self.crumbs@.len() as int);
                            }
                            return trail;
                        },
                    }
                    at = at + 1;
                }
                trail
            },
        }
    }

    /// The children of `parent`, largest first, for a sibling menu, and how
    /// many more there are beyond [`SIBLING_ROWS`].
    pub fn siblings(&self, parent: &[usize]) -> (r: (Vec<Sibling>, usize))
        ensures
            match self@.node_at(parent@) {
                Some(node) => {
                    let rows = listed(node, self@.options.metric);
                    &&& rows == self@.sibling_rows(parent@)
                    &&& r.0@.len() == rows.len()
                    &&& r.1 == node.children@.len() - rows.len()
                    &&& forall|i: int|
                        0 <= i < rows.len() ==> {
                            let child = node.children@[rows[i] as int];
                            &&& (#[trigger] r.0@[i]).index == rows[i]
                            &&& r.0@[i].name@ == child.name()
                            &&& r.0@[i].value == child.measure(self@.options.metric)
                            &&& r.0@[i].category == child.category
                            &&& r.0@[i].is_dir == child.dir
                        }
                },
                None => r.0@.len() == 0 && r.1 == 0,
            },
    {
        let metric = self.options.metric;
        let mut rows: Vec<Sibling> = Vec::new();
        match self.node_at(parent) {
            None => (rows, 0),
            Some(node) => {
                let ghost children = node.children@;
                let count = node.children.len();
                let ranked = rank(&node.children, metric);
                proof {
                    largest_siblings_come_first(children, metric, count as int);
                }
                let shown: usize = if count > SIBLING_ROWS {
                    SIBLING_ROWS
                } else {
                    count
                };
                let mut at: usize = 0;
                while at < shown
                    invariant
                        at <= shown <= count,
                        count == children.len(),
                        children == node.children@,
                        ranked@ == ranking(children, metric, count as int),
                        ranked@.len() == count,
                        forall|i: int| 0 <= i < count ==> (#[trigger] ranked@[i]) < count,
                        rows@.len() == at,
                        forall|i: int|
                            0 <= i < at ==> {
                                let child = children[ranked@[i] as int];
                                &&& (#[trigger] rows@[i]).index == ranked@[i]
                                &&& rows@[i].name@ == child.name()
                                &&& rows@[i].value == child.measure(metric)
                                &&& rows@[i].category == child.category
                                &&& rows@[i].is_dir == child.dir
                            },
                    decreases shown - at,
                {
                    let index = ranked[at];
                    let child = &node.children[index];
                    rows.push(
                        Sibling {
                            index,
                            name: child.shown_name(),
                            value: child.value(metric),
                            category: child.category,
                            is_dir: child.dir,
                        },
                    );
                    at = at + 1;
                }
                (rows, count - shown)
            },
        }
    }

    /// The rows of a sibling menu, by child index.
    fn row_indices(&self, parent: &[usize]) -> (r: Vec<usize>)
        ensures
            r@ == self@.sibling_rows(parent@),
            r@.len() <= SIBLING_ROWS,
    {
        match self.node_at(parent) {
            None => {
                let rows: Vec<usize> = Vec::new();
                assert(rows@ =~= Seq::<usize>::empty());
                rows
            },
            Some(node) => {
                let ranked = rank(&node.children, self.options.metric);
                if ranked.len() > SIBLING_ROWS {
                    tree::first_crumbs(ranked.as_slice(), SIBLING_ROWS)
                } else {
                    ranked
                }
            },
        }
    }

    /// After the layout changes under a still pointer, its hover is stale
    /// until the pointer moves again.
    pub fn forget_hover(&mut self)
        ensures
            final(self)@ == old(self)@.forget_hover(),
    {
        self.hovered = None;
        self.pointer_active = false;
    }

    fn visit(&mut self, crumbs: Vec<usize>)
        ensures
            final(self)@ == old(self)@.visit(crumbs@),
    {
        if tree::same_crumbs(crumbs.as_slice(), self.crumbs.as_slice()) {
            return ;
        }
        let ghost before = self.past@;
        let ghost here = self.crumbs@;
        self.past.push(tree::copy_crumbs(self.crumbs.as_slice()));
        self.future.clear();
        self.crumbs = crumbs;
        proof {
            assert(tree::crumb_lists(self.past@) =~= tree::crumb_lists(before).push(here));
            assert(tree::crumb_lists(self.future@) =~= Seq::empty());
        }
    }

    /// Jump straight to a crumb from the breadcrumb bar.
    pub fn go_to(&mut self, crumbs: Vec<usize>)
        ensures
            final(self)@ == old(self)@.go_to(crumbs@),
    {
        proof {
            reveal(State::go_to);
        }
        self.visit(tree::copy_crumbs(crumbs.as_slice()));
        self.arrive(crumbs);
    }

    /// Where going back through the directories visited leads, or forward
    /// again.
    pub fn history_target(&self, back: bool) -> (r: Option<Vec<usize>>)
        ensures
            tree::opt_crumbs(r) == self@.history_target(back),
    {
        let way = if back {
            &self.past
        } else {
            &self.future
        };
        if way.len() > 0 {
            assert(tree::crumb_lists(way@).last() == way@[way@.len() - 1]@);
            Some(tree::copy_crumbs(way[way.len() - 1].as_slice()))
        } else {
            None
        }
    }

    /// Go back to the directory visited before, or forward again, like a
    /// browser but inside the tree.
    pub fn travel(&mut self, back: bool)
        ensures
            final(self)@ == old(self)@.travel(back),
    {
        proof {
            reveal(State::travel);
        }
        let target = match self.history_target(back) {
            Some(target) => target,
            None => {
                return ;
            },
        };
        let here = tree::copy_crumbs(self.crumbs.as_slice());
        let ghost left = self.crumbs@;
        let ghost past = self.past@;
        let ghost future = self.future@;
        if back {
            self.past.pop();
            self.future.push(here);
            proof {
                assert(tree::crumb_lists(self.past@) =~= tree::crumb_lists(past).drop_last());
                assert(tree::crumb_lists(self.future@) =~= tree::crumb_lists(future).push(left));
            }
        } else {
            self.future.pop();
            self.past.push(here);
            proof {
                assert(tree::crumb_lists(self.future@) =~= tree::crumb_lists(future).drop_last());
                assert(tree::crumb_lists(self.past@) =~= tree::crumb_lists(past).push(left));
            }
        }
        self.arrive(target);
    }

    fn arrive(&mut self, crumbs: Vec<usize>)
        ensures
            final(self)@ == old(self)@.arrive(crumbs@),
    {
        self.crumb_menu = None;
        self.crumbs = tree::copy_crumbs(crumbs.as_slice());
        self.selected = Some(crumbs);
        self.forget_hover();
        self.camera = Camera::identity();
        self.cache = None;
    }

    /// Show `crumbs` in its directory, selected: what a "worth a look" row
    /// or a found name does.
    pub fn reveal_crumbs(&mut self, crumbs: Vec<usize>)
        ensures
            final(self)@ == old(self)@.revealed(crumbs@),
    {
        let parent = tree::parent_crumbs_of(crumbs.as_slice());
        self.go_to(parent);
        self.selected = Some(crumbs);
        self.pointer_active = false;
    }

    /// Select the tile at `crumbs` without changing the root.
    pub fn select(&mut self, crumbs: Option<Vec<usize>>)
        ensures
            final(self)@ == (State { selected: tree::opt_crumbs(crumbs), ..old(self)@ }),
    {
        self.selected = crumbs;
    }

    /// Make `target`, any directory with contents below the current root,
    /// the root.
    pub fn enter(&mut self, target: Vec<usize>)
        ensures
            final(self)@ == old(self)@.enter(target@),
    {
        proof {
            reveal(State::enter);
        }
        if target.len() <= self.crumbs.len() || !tree::crumbs_start_with(
            target.as_slice(),
            self.crumbs.as_slice(),
        ) {
            return ;
        }
        let open = match self.node_at(target.as_slice()) {
            Some(node) => node.dir && node.children.len() > 0,
            None => false,
        };
        if !open {
            return ;
        }
        self.selected = Some(tree::copy_crumbs(target.as_slice()));
        self.visit(target);
        self.forget_hover();
        self.cache = None;
        self.camera = Camera::identity();
    }

    /// Descend into the selected tile, or into the largest child of the
    /// current root when nothing is selected.
    pub fn descend(&mut self)
        ensures
            final(self)@ == old(self)@.descend(),
    {
        proof {
            reveal(State::descend);
        }
        let mut below: Option<Vec<usize>> = None;
        if let Some(selected) = &self.selected {
            if selected.len() > self.crumbs.len() {
                if self.is_dir_at(selected.as_slice()) {
                    below = Some(tree::copy_crumbs(selected.as_slice()));
                } else {
                    below = Some(tree::parent_crumbs_of(selected.as_slice()));
                }
            }
        }
        let target = match below {
            Some(crumbs) => Some(crumbs),
            None => match self.current() {
                Some(node) => match node.largest {
                    Some(index) => Some(tree::child_crumbs(self.crumbs.as_slice(), index)),
                    None => None,
                },
                None => None,
            },
        };
        proof {
            assert(tree::opt_crumbs(target) == self@.descend_target());
        }
        if let Some(crumbs) = target {
            self.enter(crumbs);
        }
    }

    /// The crumbs of the parent of the current root, if any.
    pub fn parent_crumbs(&self) -> (r: Option<Vec<usize>>)
        ensures
            tree::opt_crumbs(r) == if self@.crumbs.len() == 0 {
                None
            } else {
                Some(self@.crumbs.drop_last())
            },
    {
        if self.crumbs.len() == 0 {
            None
        } else {
            Some(tree::parent_crumbs_of(self.crumbs.as_slice()))
        }
    }

    /// Ascend to the parent directory, keeping the directory we came from
    /// selected.
    pub fn ascend(&mut self)
        ensures
            final(self)@ == old(self)@.ascend(),
    {
        proof {
            reveal(State::ascend);
        }
        if let Some(parent) = self.parent_crumbs() {
            let from = tree::copy_crumbs(self.crumbs.as_slice());
            self.visit(parent);
            self.forget_hover();
            self.cache = None;
            self.selected = Some(from);
            self.camera = Camera::identity();
        }
    }

    /// The tile a key acts on: under the pointer if the pointer moved last,
    /// otherwise the keyboard selection.
    pub fn action_target(&self) -> (r: Option<Vec<usize>>)
        ensures
            tree::opt_crumbs(r) == self@.action_target(),
    {
        if self.pointer_active {
            if let Some(hovered) = &self.hovered {
                return Some(tree::copy_crumbs(hovered.as_slice()));
            }
        }
        match &self.selected {
            Some(selected) => Some(tree::copy_crumbs(selected.as_slice())),
            None => None,
        }
    }

    /// Make the pointed-at tile the selection before a key acts, so marking,
    /// opening and arrow movement all start from what the user is looking at.
    pub fn adopt_pointer_target(&mut self)
        ensures
            final(self)@ == old(self)@.adopt_pointer_target(),
    {
        if self.pointer_active {
            if let Some(hovered) = &self.hovered {
                self.selected = Some(tree::copy_crumbs(hovered.as_slice()));
            }
        }
    }

    /// Select the largest entry of the current root, so the selection, the
    /// tooltip and the mark key all have something to act on from the first
    /// frame.
    pub fn select_largest(&mut self)
        ensures
            final(self)@ == old(self)@.select_largest(),
    {
        if self.selected.is_some() {
            return ;
        }
        let largest = match self.current() {
            Some(node) => node.largest,
            None => None,
        };
        if let Some(index) = largest {
            self.selected = Some(tree::child_crumbs(self.crumbs.as_slice(), index));
        }
    }

    fn leads_nowhere(&self, crumbs: &[usize]) -> (r: bool)
        ensures
            r == (self@.tree is Some && self@.node_at(crumbs@) is None),
    {
        match &self.tree {
            Some(root) => root.resolve(crumbs).is_none(),
            None => false,
        }
    }

    /// Forget crumbs that lead nowhere in the tree.
    pub fn keep_selection_valid(&mut self)
        ensures
            final(self)@ == old(self)@.keep_selection_valid(),
    {
        let lost = self.leads_nowhere(self.crumbs.as_slice());
        let gone = match &self.selected {
            Some(selected) => self.leads_nowhere(selected.as_slice()),
            None => false,
        };
        let ghost valid = self@.keep_selection_valid();
        proof {
            assert(valid.crumbs == if lost {
                Seq::empty()
            } else {
                self@.crumbs
            });
            assert(valid.selected == if gone {
                None
            } else {
                self@.selected
            });
        }
        if lost {
            self.crumbs.clear();
            assert(self.crumbs@ =~= Seq::<usize>::empty());
        }
        if gone {
            self.selected = None;
        }
    }

    /// Move the selection geometrically, falling back to the parent at an
    /// edge. `tiles` are the drawn tiles, scored from the selection.
    pub fn move_selection(&mut self, direction: Direction, tiles: Option<&Vec<ScoredTile>>)
        ensures
            final(self)@ == old(self)@.move_selection(
                direction,
                match tiles {
                    Some(tiles) => Some(tiles@),
                    None => None,
                },
            ),
    {
        proof {
            reveal(State::move_selection);
        }
        self.pointer_active = false;
        let tiles = match tiles {
            Some(tiles) => tiles,
            None => {
                return ;
            },
        };
        let mut found: Option<Vec<usize>> = None;
        match &self.selected {
            None => {
                if tiles.len() > 0 {
                    found = Some(tree::copy_crumbs(tiles[0].crumbs.as_slice()));
                }
            },
            Some(current) => {
                if !is_drawn(tiles, current.as_slice()) {
                    return ;
                }
                match nearest_tile(tiles, current.as_slice()) {
                    Some(at) => {
                        found = Some(tree::copy_crumbs(tiles[at].crumbs.as_slice()));
                    },
                    None => {
                        if direction.is_backwards() {
                            found = self.parent_crumbs();
                        }
                    },
                }
            },
        }
        if found.is_some() {
            self.selected = found;
        }
    }

    /// Select the next sibling by rank, which is next-largest by the active
    /// metric. Scanning a directory for space is exactly this walk.
    pub fn cycle_sibling(&mut self, step: isize)
        ensures
            final(self)@ == old(self)@.cycle_sibling(step as int),
    {
        proof {
            reveal(State::cycle_sibling);
        }
        self.pointer_active = false;
        let parent = match &self.selected {
            Some(selected) if selected.len() > self.crumbs.len() => tree::parent_crumbs_of(
                selected.as_slice(),
            ),
            _ => tree::copy_crumbs(self.crumbs.as_slice()),
        };
        assert(parent@ == self@.sibling_parent());
        let count = match self.node_at(parent.as_slice()) {
            Some(node) => node.children.len(),
            None => 0,
        };
        if count == 0 {
            return ;
        }
        let mut current: Option<usize> = None;
        if let Some(selected) = &self.selected {
            if selected.len() > 0 && selected.len() - 1 == parent.len()
                && tree::crumbs_start_with(selected.as_slice(), parent.as_slice()) {
                let last = selected[selected.len() - 1];
                if last < count {
                    current = Some(last);
                }
                proof {
                    assert(selected@.drop_last() =~= parent@);
                }
            } else {
                proof {
                    if selected@.len() == parent@.len() + 1 && selected@.drop_last() == parent@ {
                        assert(parent@ =~= selected@.subrange(0, parent@.len() as int));
                    }
                }
            }
        }
        let next: usize = match current {
            Some(index) => around(index, step, count),
            None => if step >= 0 {
                0
            } else {
                count - 1
            },
        };
        self.selected = Some(tree::child_crumbs(parent.as_slice(), next));
    }

    /// Open the sibling menu for the crumb at `crumbs` (not the root).
    pub fn open_crumb_menu(&mut self, crumbs: &[usize], anchor: (Single, Single))
        ensures
            final(self)@ == old(self)@.open_crumb_menu(crumbs@, anchor),
    {
        if crumbs.len() == 0 {
            return ;
        }
        let parent = tree::parent_crumbs_of(crumbs);
        let current = crumbs[crumbs.len() - 1];
        let rows = self.row_indices(parent.as_slice());
        let highlighted = match tree::position_of(rows.as_slice(), current) {
            Some(at) => at,
            None => 0,
        };
        self.crumb_menu = Some(CrumbMenu { parent, current, highlighted, anchor });
    }

    /// Go to a sibling: into it when it is a directory, beside it (selected)
    /// when it is a file.
    pub fn choose_sibling(&mut self, parent: &[usize], index: usize)
        ensures
            final(self)@ == old(self)@.choose_sibling(parent@, index),
    {
        self.crumb_menu = None;
        let crumbs = tree::child_crumbs(parent, index);
        if self.is_dir_at(crumbs.as_slice()) {
            self.go_to(crumbs);
        } else {
            self.reveal_crumbs(crumbs);
        }
    }

    fn set_highlight(&mut self, row: usize)
        ensures
            final(self)@ == old(self)@.set_highlight(row),
    {
        if let Some(menu) = self.crumb_menu.take() {
            self.crumb_menu = Some(
                CrumbMenu {
                    parent: menu.parent,
                    current: menu.current,
                    highlighted: row,
                    anchor: menu.anchor,
                },
            );
        }
    }

    /// Keys while a sibling menu is open: it owns the arrows, Enter and
    /// Escape, and any other key closes it before acting.
    pub fn on_menu_key(&mut self, key: Key) -> (r: bool)
        ensures
            (final(self)@, r) == old(self)@.on_menu_key(key),
    {
        proof {
            reveal(State::on_menu_key);
        }
        let (parent, highlighted) = match &self.crumb_menu {
            Some(menu) => (tree::copy_crumbs(menu.parent.as_slice()), menu.highlighted),
            None => {
                return false;
            },
        };
        let rows = self.row_indices(parent.as_slice());
        let last: usize = if rows.len() > 0 {
            rows.len() - 1
        } else {
            0
        };
        match key {
            Key::Down | Key::J => {
                let row: usize = if highlighted < last && highlighted + 1 < last {
                    highlighted + 1
                } else {
                    last
                };
                self.set_highlight(row);
            },
            Key::Up | Key::K => {
                let row: usize = if highlighted > 0 {
                    highlighted - 1
                } else {
                    0
                };
                self.set_highlight(row);
            },
            Key::Home => {
                self.set_highlight(0);
            },
            Key::End => {
                self.set_highlight(last);
            },
            Key::Enter | Key::Space | Key::Right | Key::L => {
                if highlighted < rows.len() {
                    self.choose_sibling(parent.as_slice(), rows[highlighted]);
                }
            },
            Key::Escape | Key::Left | Key::H => {
                self.crumb_menu = None;
            },
            _ => {
                self.crumb_menu = None;
                return false;
            },
        }
        true
    }

    /// Which tile draws what `crumbs` lead to, if one does.
    pub fn tile_index(&self, crumbs: &[usize]) -> (r: Option<usize>)
        ensures
            match self@.cache {
                Some((_, tiles)) => match r {
                    Some(at) => at < tiles.len() && tile_at(tiles, crumbs@) == Some(at as int),
                    None => tile_at(tiles, crumbs@) is None,
                },
                None => r is None,
            },
    {
        match &self.cache {
            Some(cache) => find_tile(&cache.tiles, crumbs),
            None => None,
        }
    }

    /// The deepest drawn directory on the way to the tile under a
    /// viewport point that has contents to show: what zooming at that point
    /// is zooming into.
    pub fn zoom_target(&self, under: Option<&Vec<usize>>) -> (r: Option<Vec<usize>>)
        ensures
            tree::opt_crumbs(r) == match under {
                Some(hovered) => self@.deepest(hovered@, hovered@.len() as int),
                None => None,
            },
    {
        let hovered = match under {
            Some(hovered) => hovered,
            None => {
                return None;
            },
        };
        let mut len = hovered.len();
        while len > self.crumbs.len()
            invariant
                under == Some(hovered),
                len <= hovered@.len(),
                self@.deepest(hovered@, len as int) == self@.deepest(
                    hovered@,
                    hovered@.len() as int,
                ),
            decreases len,
        {
            let crumbs = tree::first_crumbs(hovered.as_slice(), len);
            let open = match self.node_at(crumbs.as_slice()) {
                Some(node) => node.dir && node.children.len() > 0,
                None => false,
            };
            if open && self.tile_index(crumbs.as_slice()).is_some() {
                assert(self@.enterable(hovered@.take(len as int)));
                return Some(crumbs);
            }
            len = len - 1;
        }
        None
    }
}

/// `index` moved by `step` among `count`, going round at the ends.
fn around(index: usize, step: isize, count: usize) -> (r: usize)
    requires
        index < count,
    ensures
        r == (index + step) % (count as int),
        r < count,
{
    let at = index as u128;
    let len = count as u128;
    if step >= 0 {
        ((at + step as u128) % len) as usize
    } else {
        let back = ((0 - step as i128) as u128) % len;
        let r = (at + len - back) % len;
        proof {
            let n = count as int;
            let b = -(step as int);
            vstd::arithmetic::div_mod::lemma_fundamental_div_mod(b, n);
            assert(b == n * (b / n) + b % n);
            assert(index + step == (index - b % n) + (-(b / n)) * n) by (nonlinear_arith)
                requires
                    b == -(step as int),
                    b == n * (b / n) + b % n,
            ;
            vstd::arithmetic::div_mod::lemma_mod_multiples_vanish(
                -(b / n),
                index - b % n,
                n,
            );
            assert((-(b / n)) * n == n * (-(b / n))) by (nonlinear_arith);
            assert((index + step) % n == (index - b % n) % n);
            vstd::arithmetic::div_mod::lemma_mod_multiples_vanish(1, index - b % n, n);
            assert((index - b % n + n) % n == (index - b % n) % n);
        }
        r as usize
    }
}

fn is_drawn(tiles: &Vec<ScoredTile>, crumbs: &[usize]) -> (r: bool)
    ensures
        r == drawn(tiles@, crumbs@),
{
    let mut at: usize = 0;
    while at < tiles.len()
        invariant
            at <= tiles@.len(),
            forall|i: int| 0 <= i < at ==> (#[trigger] tiles@[i]).crumbs@ != crumbs@,
        decreases tiles@.len() - at,
    {
        if tree::same_crumbs(tiles[at].crumbs.as_slice(), crumbs) {
            assert(tiles@[at as int].crumbs@ == crumbs@);
            return true;
        }
        at = at + 1;
    }
    false
}

/// Once a step leads nowhere, the trail has ended.
proof fn lemma_steps_end(root: Node, crumbs: Seq<usize>, short: int, long: int)
    requires
        0 < short <= long <= crumbs.len(),
        tree::resolve(root, crumbs.take(short)) is None,
    ensures
        steps(root, crumbs, long) == steps(root, crumbs, short - 1),
    decreases long,
{
    tree::lemma_resolve_none(root, crumbs, short, long);
    if long > short {
        lemma_steps_end(root, crumbs, short, long - 1);
    }
}

/// The children's indices, largest first.
fn rank(children: &Vec<Node>, metric: Metric) -> (r: Vec<usize>)
    ensures
        r@ == ranking(children@, metric, children@.len() as int),
        r@.len() == children@.len(),
{
    let count = children.len();
    let mut ranked: Vec<usize> = Vec::new();
    let mut k: usize = 0;
    assert(ranked@ =~= Seq::<usize>::empty());
    while k < count
        invariant
            k <= count == children@.len(),
            ranked@ == ranking(children@, metric, k as int),
            ranked@.len() == k,
        decreases count - k,
    {
        proof {
            largest_siblings_come_first(children@, metric, k as int);
        }
        let value = children[k].value(metric);
        let mut at: usize = ranked.len();
        assert(ranked@.take(at as int) =~= ranked@);
        while at > 0 && children[ranked[at - 1]].value(metric) < value
            invariant
                k < count == children@.len(),
                at <= ranked@.len() == k,
                forall|i: int| 0 <= i < k ==> (#[trigger] ranked@[i]) < k,
                slot(ranked@.take(at as int), children@, metric, value) == slot(
                    ranked@,
                    children@,
                    metric,
                    value,
                ),
            decreases at,
        {
            assert(ranked@.take(at as int).drop_last() =~= ranked@.take(at - 1));
            at = at - 1;
        }
        proof {
            assert(at > 0 ==> ranked@.take(at as int).last() == ranked@[at - 1]);
        }
        ranked.insert(at, k);
        k = k + 1;
    }
    ranked
}

} // verus!
