//! The mosaic as SVG: fills by category and depth, the hatch, the strip, the
//! rings, which labels are painted and where the size sits. Every fill comes
//! first, then the outlines, so a directory's children cannot cover its
//! selection ring.

use crate::app::{ColorMode, Filtered, State, Tile, Web, MAX_LABELS};
use crate::palette;
use crate::palette::Palette;
use crate::render;
use crate::single::Single;
use crate::text;
use crate::tree;
use crate::tree::{Category, Metric, Node};
use crate::words::Words;
use vstd::prelude::*;

verus! {

/// A rectangle on screen, spelled.
#[derive(Debug)]
pub struct Spot {
    pub x: String,
    pub y: String,
    pub w: String,
    pub h: String,
}

/// Whether a filter keeps a tile.
#[derive(Clone, Copy, Debug, PartialEq, Eq, Structural)]
pub enum Keep {
    /// It matches, or is inside a match.
    Whole,
    /// It holds matches.
    Partial,
    Nothing,
}

/// Where a label's words go.
#[derive(Debug)]
pub struct Lettering {
    /// There is room for a name at all.
    pub fits: bool,
    /// What the label is clipped to.
    pub spot: Spot,
    /// The left edge of the words.
    pub x: String,
    pub baseline: String,
    /// There is room for a second line, which sits at `below`.
    pub tall: bool,
    pub below: String,
    /// The right edge of the words.
    pub end: String,
    /// There is room behind the name, from `after` on.
    pub room: bool,
    pub after: String,
}

/// How a tile of the layout falls on screen.
#[derive(Debug)]
pub struct Drawn {
    /// It is in the viewport, or just outside it.
    pub near: bool,
    /// It is larger than half a pixel each way.
    pub large: bool,
    /// It has room for a warning corner.
    pub roomy: bool,
    /// It has room for a label.
    pub labelled: bool,
    pub spot: Spot,
    /// How tall its strip is.
    pub strip: String,
    /// Where its warning corner is.
    pub corner: (String, String),
    /// What an outline inside it covers.
    pub ring: Spot,
    /// Its area in the layout.
    pub area: Single,
    pub keep: Keep,
    pub label: Lettering,
}

/// The layout on screen, tile by tile.
#[derive(Debug)]
pub struct Canvas {
    pub width: String,
    pub height: String,
    pub tiles: Vec<Drawn>,
}

/// A tile's label, resolved for painting.
#[derive(Debug)]
pub struct Label {
    pub text: String,
    /// The tile it belongs to.
    pub tile: usize,
    /// The tile's area.
    pub area: Single,
    /// It has a band of its own.
    pub banded: bool,
    /// Nesting depth in this view: the first level is set in bold.
    pub depth: u32,
    /// Filtered out while typing: drawn quietly.
    pub dim: bool,
    pub marked: bool,
    pub size_text: String,
}

/// A label, as contracts speak of it.
pub struct Lettered {
    pub text: Seq<char>,
    pub tile: int,
    pub area: Single,
    pub banded: bool,
    pub depth: u32,
    pub dim: bool,
    pub marked: bool,
    pub size_text: Seq<char>,
}

impl View for Label {
    type V = Lettered;

    open spec fn view(&self) -> Lettered {
        Lettered {
            text: self.text@,
            tile: self.tile as int,
            area: self.area,
            banded: self.banded,
            depth: self.depth,
            dim: self.dim,
            marked: self.marked,
            size_text: self.size_text@,
        }
    }
}

/// The views of labels.
pub open spec fn labels_of(labels: Seq<Label>) -> Seq<Lettered> {
    labels.map_values(|label: Label| label@)
}

/// The hash set marked crumbs are looked up in.
#[verifier::external_type_specification]
#[verifier::external_body]
pub struct ExFxBuildHasher(rustc_hash::FxBuildHasher);

/// The crumbs a set holds.
pub uninterp spec fn crumb_set(set: rustc_hash::FxHashSet<Vec<usize>>) -> Set<Seq<usize>>;

/// `rustc_hash::FxHashSet::default`: a set that holds nothing.
#[verifier::external_body]
fn no_crumbs() -> (r: rustc_hash::FxHashSet<Vec<usize>>)
    ensures
        crumb_set(r) == Set::<Seq<usize>>::empty(),
{
    rustc_hash::FxHashSet::default()
}

/// `rustc_hash::FxHashSet::insert`: the set holds what it held, and `crumbs`.
#[verifier::external_body]
fn insert_crumbs(set: &mut rustc_hash::FxHashSet<Vec<usize>>, crumbs: Vec<usize>)
    ensures
        crumb_set(*final(set)) == crumb_set(*old(set)).insert(crumbs@),
{
    set.insert(crumbs);
}

/// `rustc_hash::FxHashSet::contains`: whether the set holds `crumbs`.
#[verifier::external_body]
fn holds_crumbs(set: &rustc_hash::FxHashSet<Vec<usize>>, crumbs: &[usize]) -> (r: bool)
    ensures
        r == crumb_set(*set).contains(crumbs@),
{
    set.contains(crumbs)
}

/// Whole days from `then` to `now`, rounded toward zero.
pub open spec fn days_between(now: i64, then: i64) -> int {
    if now >= then {
        (now - then) / 86_400
    } else {
        -((then - now) / 86_400)
    }
}

fn whole_days(now: i64, then: i64) -> (r: i64)
    ensures
        r == days_between(now, then),
{
    let apart: u128 = if now >= then {
        (now as i128 - then as i128) as u128
    } else {
        (then as i128 - now as i128) as u128
    };
    let days: u128 = apart / 86_400;
    if now >= then {
        days as i64
    } else {
        -(days as i64)
    }
}

/// The label's place among labels ranked largest first: behind every one
/// whose tile is at least as large.
pub open spec fn area_slot(ranked: Seq<Lettered>, area: Single) -> int
    decreases ranked.len(),
{
    if ranked.len() == 0 || ranked.last().area.place() >= area.place() {
        ranked.len() as int
    } else {
        area_slot(ranked.drop_last(), area)
    }
}

/// Labels by area, largest first, equals in their own order.
pub open spec fn by_area(labels: Seq<Lettered>) -> Seq<Lettered>
    decreases labels.len(),
{
    if labels.len() == 0 {
        Seq::empty()
    } else {
        let before = by_area(labels.drop_last());
        before.insert(area_slot(before, labels.last().area), labels.last())
    }
}

/// The labels that are painted.
pub open spec fn painted(labels: Seq<Lettered>) -> Seq<Lettered> {
    let ranked = by_area(labels);
    if ranked.len() > MAX_LABELS {
        ranked.take(MAX_LABELS as int)
    } else {
        ranked
    }
}

pub(crate) proof fn lemma_area_slot(ranked: Seq<Lettered>, area: Single)
    ensures
        0 <= area_slot(ranked, area) <= ranked.len(),
        forall|i: int|
            area_slot(ranked, area) <= i < ranked.len() ==> (#[trigger] ranked[i]).area.place()
                < area.place(),
        area_slot(ranked, area) > 0 ==> ranked[area_slot(ranked, area) - 1].area.place()
            >= area.place(),
    decreases ranked.len(),
{
    if ranked.len() > 0 && ranked.last().area.place() < area.place() {
        let short = ranked.drop_last();
        lemma_area_slot(short, area);
        assert forall|i: int| area_slot(ranked, area) <= i < ranked.len() implies (
        #[trigger] ranked[i]).area.place() < area.place() by {
            if i < short.len() {
                assert(short[i] == ranked[i]);
            }
        }
    }
}

/// Painting keeps every label, puts larger tiles first, and leaves labels of
/// equally large tiles in the order of their tiles.
pub proof fn larger_tiles_are_named_first(labels: Seq<Lettered>)
    requires
        forall|i: int, j: int|
            0 <= i < j < labels.len() ==> (#[trigger] labels[i]).tile < (#[trigger] labels[j]).tile,
    ensures
        by_area(labels).to_multiset() == labels.to_multiset(),
        forall|i: int, j: int|
            0 <= i < j < by_area(labels).len() ==> {
                let ahead = #[trigger] by_area(labels)[i];
                let behind = #[trigger] by_area(labels)[j];
                ||| ahead.area.place() > behind.area.place()
                ||| ahead.area.place() == behind.area.place() && ahead.tile < behind.tile
            },
    decreases labels.len(),
{
    broadcast use vstd::seq_lib::group_to_multiset_ensures;

    if labels.len() > 0 {
        let rest = labels.drop_last();
        let last = labels.last();
        let before = by_area(rest);
        let slot = area_slot(before, last.area);
        larger_tiles_are_named_first(rest);
        lemma_area_slot(before, last.area);
        let all = by_area(labels);
        assert(labels =~= rest.push(last));
        vstd::seq_lib::to_multiset_insert(before, slot, last);
        assert forall|i: int| 0 <= i < before.len() implies (#[trigger] before[i]).tile
            < last.tile by {
            assert(before.to_multiset().count(before[i]) > 0);
            assert(rest.to_multiset().count(before[i]) > 0);
            assert(rest.contains(before[i]));
            let k = choose|k: int| 0 <= k < rest.len() && rest[k] == before[i];
            assert(labels[k] == rest[k]);
        }
        assert forall|i: int, j: int| 0 <= i < j < all.len() implies {
            let ahead = #[trigger] all[i];
            let behind = #[trigger] all[j];
            ||| ahead.area.place() > behind.area.place()
            ||| ahead.area.place() == behind.area.place() && ahead.tile < behind.tile
        } by {
            if j < slot {
                assert(all[i] == before[i] && all[j] == before[j]);
            } else if j == slot {
                assert(all[i] == before[i]);
                if i < slot - 1 {
                    assert(before[i].area.place() >= before[slot - 1].area.place());
                }
            } else if i == slot {
                assert(all[j] == before[j - 1]);
            } else {
                let a = if i < slot {
                    i
                } else {
                    i - 1
                };
                assert(all[i] == before[a] && all[j] == before[j - 1]);
            }
        }
    }
}

/// A name begins with a dot.
pub open spec fn dotted(name: Seq<char>) -> bool {
    name.len() > 0 && name[0] == '.'
}

/// Whether a name begins with a dot.
pub fn is_dotted(name: &str) -> (r: bool)
    ensures
        r == dotted(name@),
{
    let chars = text::chars_of(name);
    chars.len() > 0 && chars[0] == '.'
}

/// The directories below a node.
pub open spec fn dirs_below(node: Node) -> u64 {
    if node.dir && node.dirs > 0 {
        (node.dirs - 1) as u64
    } else {
        node.dirs
    }
}

/// How many directories are below a node, itself not counted.
pub fn dirs_in(node: &Node) -> (r: u64)
    ensures
        r == dirs_below(*node),
{
    if node.dir && node.dirs > 0 {
        node.dirs - 1
    } else {
        node.dirs
    }
}

/// What a node holds, in one line.
pub open spec fn meta(node: Node, words: Words) -> Seq<char> {
    let files = words.count(node.files);
    let dirs = words.count(dirs_below(node));
    let own = words.size(node.own_bytes);
    files
        + " files · "@
        + dirs
        + " dirs · "@
        + own
        + " direct"@
}

/// What a node holds, in one line.
pub fn meta_text(node: &Node, words: &Words) -> (r: String)
    ensures
        r@ == meta(*node, *words),
{
    let files = words.count_text(node.files);
    let dirs = words.count_text(dirs_in(node));
    let own = words.size_text(node.own_bytes);
    files.to_owned()
        .concat(" files · ")
        .concat(dirs)
        .concat(" dirs · ")
        .concat(own)
        .concat(" direct")
}

/// The value to show for a node under a metric.
pub open spec fn short_measure(node: Node, metric: Metric, words: Words) -> Seq<char> {
    match metric {
        Metric::Bytes => words.brief(node.bytes),
        Metric::Files => words.count(node.files),
    }
}

/// The value to show for a node under the active metric.
pub fn short_value(node: &Node, metric: Metric, words: &Words) -> (r: String)
    ensures
        r@ == short_measure(*node, metric, *words),
{
    match metric {
        Metric::Bytes => words.brief_text(node.bytes).to_owned(),
        Metric::Files => words.count_text(node.files).to_owned(),
    }
}

/// A rectangle that is not hit by the pointer.
pub open spec fn overlay(x: Seq<char>, y: Seq<char>, w: Seq<char>, h: Seq<char>, fill: Seq<char>) -> Seq<char> {
    "<rect class=\"overlay\" x=\""@
        + x
        + "\" y=\""@
        + y
        + "\" width=\""@
        + w
        + "\" height=\""@
        + h
        + "\" fill=\""@
        + fill
        + "\"/>"@
}

fn overlay_text(x: &str, y: &str, w: &str, h: &str, fill: &str) -> (r: String)
    ensures
        r@ == overlay(x@, y@, w@, h@, fill@),
{
    "<rect class=\"overlay\" x=\"".to_owned()
        .concat(x)
        .concat("\" y=\"")
        .concat(y)
        .concat("\" width=\"")
        .concat(w)
        .concat("\" height=\"")
        .concat(h)
        .concat("\" fill=\"")
        .concat(fill)
        .concat("\"/>")
}

impl State {
    /// The node a tile draws; a tile that stands for the small rest draws
    /// none.
    pub open spec fn tile_node(self, tile: Tile) -> Option<Node> {
        match tile.others {
            Some(_) => None,
            None => self.node_at(tile.crumbs@),
        }
    }

    /// What crumbs lead to is marked.
    pub open spec fn marked_at(self, crumbs: Seq<usize>) -> bool {
        exists|i: int|
            0 <= i < self.marks.len() && #[trigger] self.crumbs_for_path(self.marks[i].path) == Some(
                crumbs,
            )
    }

    /// The outermost marked directory above crumbs, from the first `len` of
    /// them on, by short name.
    pub open spec fn cover_from(self, crumbs: Seq<usize>, len: int) -> Option<Seq<char>>
        decreases crumbs.len() - len,
    {
        if len >= crumbs.len() {
            None
        } else if self.marked_at(crumbs.take(len)) && self.path_at(crumbs.take(len)) is Some {
            Some(render::short(self.path_at(crumbs.take(len))->0))
        } else {
            self.cover_from(crumbs, len + 1)
        }
    }

    /// The marked directory a tile goes with, when it is not marked itself.
    pub open spec fn covered_by(self, crumbs: Seq<usize>) -> Option<Seq<char>> {
        if self.marked_at(crumbs) {
            None
        } else {
            self.cover_from(crumbs, 1)
        }
    }

    /// How a tile stands against the find text.
    pub open spec fn filtered(self, keep: Keep) -> Filtered {
        match self.matches {
            None => Filtered::Shown,
            Some(_) => match keep {
                Keep::Whole => Filtered::Shown,
                Keep::Partial => Filtered::Holds,
                Keep::Nothing => Filtered::Out,
            },
        }
    }

    /// The age bucket a tile is coloured by, in age mode.
    pub open spec fn age_of(self, node: Option<Node>) -> Option<int> {
        match node {
            Some(node) => if self.color_mode == ColorMode::Age && node.modified > 0 {
                Some(palette::bucket_of(days_between(self.scanned_at, node.modified)))
            } else {
                None
            },
            None => None,
        }
    }

    /// The size of the directory that holds what crumbs lead to.
    pub open spec fn parent_bytes(self, crumbs: Seq<usize>) -> u64 {
        match self.node_at(tree::parent_of(crumbs)) {
            Some(node) => node.bytes,
            None => 0,
        }
    }

    /// A path as it is shown, when there is one.
    pub open spec fn place_at(self, crumbs: Seq<usize>, words: Words) -> Seq<char> {
        match self.path_at(crumbs) {
            Some(path) => words.place(path),
            None => ""@,
        }
    }

    /// The hover tooltip's data.
    pub open spec fn tip(self, node: Node, crumbs: Seq<usize>, words: Words) -> Seq<char> {
        let total = self.parent_bytes(crumbs);
        let name = render::escaped(node.name());
        let place = render::escaped(self.place_at(crumbs, words));
        let size = render::escaped(words.size(node.bytes));
        let holds = render::escaped(meta(node, words));
        let percent = render::escaped(words.percent(node.bytes, total));
        let bar = render::escaped(words.bar(node.bytes, total));
        " data-name=\""@
            + name
            + "\" data-tip-path=\""@
            + place
            + "\" data-size=\""@
            + size
            + "\" data-meta=\""@
            + holds
            + "\" data-percent=\""@
            + percent
            + "\" data-bar=\""@
            + bar
            + "\""@
    }

    /// A tile's tooltip data and its switches.
    pub open spec fn tile_tip(self, tile: Tile, words: Words) -> Seq<char> {
        match self.tile_node(tile) {
            Some(node) => self.tip(node, tile.crumbs@, words) + (if node.dir {
                " data-dir=\"1\""@
            } else {
                ""@
            }) + (if dotted(node.name()) {
                " data-hidden=\"1\""@
            } else {
                ""@
            }) + (if self.marked_at(tile.crumbs@) {
                " data-marked=\"1\""@
            } else {
                ""@
            }),
            None => ""@,
        }
    }

    /// A tile's class: selected, else marked.
    pub open spec fn tile_class(self, crumbs: Seq<usize>) -> Seq<char> {
        if self.selected == Some(crumbs) {
            "g-tile sel"@
        } else if self.marked_at(crumbs) {
            "g-tile marked"@
        } else {
            "g-tile"@
        }
    }

    /// A tile's category.
    pub open spec fn tile_category(self, tile: Tile) -> Category {
        match self.tile_node(tile) {
            Some(node) => node.category,
            None => Category::Other,
        }
    }

    /// The hatch over reclaimable space.
    pub open spec fn tile_hatch(self, tile: Tile, drawn: Drawn) -> Seq<char> {
        let reclaimable = self.tile_node(tile) matches Some(node) && node.reclaim is Some;
        if reclaimable && !self.marked_at(tile.crumbs@) && self.covered_by(tile.crumbs@) is None
            && self.filtered(drawn.keep) == Filtered::Shown {
            overlay(drawn.spot.x@, drawn.spot.y@, drawn.spot.w@, drawn.spot.h@, "url(#hatch)"@)
        } else {
            ""@
        }
    }

    /// The strip over a top-level directory.
    pub open spec fn tile_strip(self, tile: Tile, drawn: Drawn, palette: Palette) -> Seq<char> {
        if tile.depth == 0 && self.age_of(self.tile_node(tile)) is None && self.filtered(drawn.keep)
            != Filtered::Out {
            overlay(
                drawn.spot.x@,
                drawn.spot.y@,
                drawn.spot.w@,
                drawn.strip@,
                palette.accent(self.tile_category(tile)),
            )
        } else {
            ""@
        }
    }

    /// The warning corner of what could not be read.
    pub open spec fn tile_corner(self, tile: Tile, drawn: Drawn, palette: Palette) -> Seq<char> {
        let unreadable = self.tile_node(tile) matches Some(node) && node.read_error;
        if unreadable && drawn.roomy {
            overlay(drawn.corner.0@, drawn.corner.1@, "4"@, "4"@, palette.warning@)
        } else {
            ""@
        }
    }

    /// One tile.
    pub open spec fn tile_markup(
        self,
        tile: Tile,
        drawn: Drawn,
        words: Words,
        palette: Palette,
    ) -> Seq<char> {
        let class = self.tile_class(tile.crumbs@);
        let tip = self.tile_tip(tile, words);
        let cover = match self.covered_by(tile.crumbs@) {
            Some(name) => " data-covered=\""@ + render::escaped(name) + "\""@,
            None => ""@,
        };
        let x = drawn.spot.x@;
        let y = drawn.spot.y@;
        let w = drawn.spot.w@;
        let h = drawn.spot.h@;
        let fill = palette.fill(
            self.marked_at(tile.crumbs@) || self.covered_by(tile.crumbs@) is Some,
            self.age_of(self.tile_node(tile)),
            self.tile_category(tile),
            tile.depth,
            self.filtered(drawn.keep),
        );
        let hatch = self.tile_hatch(tile, drawn);
        let strip = self.tile_strip(tile, drawn, palette);
        let corner = self.tile_corner(tile, drawn, palette);
        "<g class=\""@
            + class
            + "\""@
            + tip
            + cover
            + "><rect class=\"tile-body\" x=\""@
            + x
            + "\" y=\""@
            + y
            + "\" width=\""@
            + w
            + "\" height=\""@
            + h
            + "\" fill=\""@
            + fill
            + "\"/>"@
            + hatch
            + strip
            + corner
            + "</g>"@
    }

    /// A tile that is painted.
    pub open spec fn shown(drawn: Drawn) -> bool {
        drawn.near && drawn.large
    }

    /// The first `count` tiles.
    pub open spec fn tiles_markup(
        self,
        tiles: Seq<Tile>,
        drawn: Seq<Drawn>,
        words: Words,
        palette: Palette,
        count: int,
    ) -> Seq<char>
        decreases count,
    {
        if count <= 0 {
            ""@
        } else {
            let before = self.tiles_markup(tiles, drawn, words, palette, count - 1);
            if State::shown(drawn[count - 1]) {
                before + self.tile_markup(tiles[count - 1], drawn[count - 1], words, palette)
            } else {
                before
            }
        }
    }

    /// A ring's rank: the selection's is above a mark's.
    pub open spec fn ring_rank(self, crumbs: Seq<usize>) -> int {
        if self.selected == Some(crumbs) {
            3
        } else if self.marked_at(crumbs) {
            1
        } else {
            0
        }
    }

    /// The rings of one rank on the first `count` tiles.
    pub open spec fn rings(
        self,
        tiles: Seq<Tile>,
        drawn: Seq<Drawn>,
        rank: int,
        color: Seq<char>,
        count: int,
    ) -> Seq<char>
        decreases count,
    {
        if count <= 0 {
            ""@
        } else {
            let before = self.rings(tiles, drawn, rank, color, count - 1);
            if State::shown(drawn[count - 1]) && self.ring_rank(tiles[count - 1].crumbs@) == rank {
                before + ring(drawn[count - 1].ring, color)
            } else {
                before
            }
        }
    }

    /// A tile's label, when it has room for one.
    pub open spec fn label(
        self,
        at: int,
        tile: Tile,
        drawn: Drawn,
        words: Words,
    ) -> Option<Lettered> {
        if !drawn.near || !drawn.labelled {
            None
        } else {
            match tile.others {
                Some(count) => Some(
                    Lettered {
                        text: "+"@ + text::decimal(count as nat) + " more"@,
                        tile: at,
                        area: drawn.area,
                        banded: false,
                        depth: tile.depth,
                        dim: self.matches is Some,
                        marked: false,
                        size_text: ""@,
                    },
                ),
                None => match self.node_at(tile.crumbs@) {
                    Some(node) => Some(
                        Lettered {
                            text: node.name(),
                            tile: at,
                            area: drawn.area,
                            banded: tile.header is Some,
                            depth: tile.depth,
                            dim: self.filtered(drawn.keep) == Filtered::Out,
                            marked: self.marked_at(tile.crumbs@) || self.covered_by(
                                tile.crumbs@,
                            ) is Some,
                            size_text: short_measure(node, self.options.metric, words),
                        },
                    ),
                    None => None,
                },
            }
        }
    }

    /// The labels of the first `count` tiles.
    pub open spec fn labels(
        self,
        tiles: Seq<Tile>,
        drawn: Seq<Drawn>,
        words: Words,
        count: int,
    ) -> Seq<Lettered>
        decreases count,
    {
        if count <= 0 {
            Seq::empty()
        } else {
            let before = self.labels(tiles, drawn, words, count - 1);
            match self.label(count - 1, tiles[count - 1], drawn[count - 1], words) {
                Some(label) => before.push(label),
                None => before,
            }
        }
    }

    /// The tiles at hand, if any, were laid out for the state as it is, in
    /// some area, and the canvas says where each of them is.
    pub open spec fn laid_out(self, canvas: Canvas) -> bool {
        &&& self.lapse() == self
        &&& self.cache matches Some((key, tiles)) ==> {
            &&& key == self.layout_key((key.width, key.height))
            &&& canvas.tiles@.len() == tiles.len()
        }
    }

    /// The mosaic for the current frame.
    #[verifier::opaque]
    pub open spec fn mosaic(self, canvas: Canvas, words: Words, palette: Palette) -> Seq<char> {
        match self.cache {
            None => ""@,
            Some((_, tiles)) => {
                let all = tiles.len() as int;
                let width = canvas.width@;
                let height = canvas.height@;
                let hatch = palette.hatch@;
                let bodies = self.tiles_markup(tiles, canvas.tiles@, words, palette, all);
                let marks = self.rings(tiles, canvas.tiles@, 1, palette.danger@, all);
                let selection = self.rings(tiles, canvas.tiles@, 3, palette.highlight@, all);
                let named = painted(self.labels(tiles, canvas.tiles@, words, all));
                let labels = labels_markup(named, canvas.tiles@, palette, named.len() as int);
                "<svg id=\"mosaic\" width=\""@
                    + width
                    + "\" height=\""@
                    + height
                    + "\" viewBox=\"0 0 "@
                    + width
                    + " "@
                    + height
                    + "\"><defs><pattern id=\"hatch\" width=\"6\" height=\"6\""@
                    + " patternUnits=\"userSpaceOnUse\" patternTransform=\"rotate(45)\"><rect"@
                    + " width=\"1.5\" height=\"6\" fill=\""@
                    + hatch
                    + "\"/></pattern></defs>"@
                    + bodies
                    + marks
                    + selection
                    + labels
                    + "</svg>"@
            },
        }
    }
}

/// An outline inside a tile.
pub open spec fn ring(spot: Spot, color: Seq<char>) -> Seq<char> {
    let x = spot.x@;
    let y = spot.y@;
    let w = spot.w@;
    let h = spot.h@;
    "<rect class=\"overlay\" x=\""@
        + x
        + "\" y=\""@
        + y
        + "\" width=\""@
        + w
        + "\" height=\""@
        + h
        + "\" fill=\"none\" stroke=\""@
        + color
        + "\" stroke-width=\"2\"/>"@
}

fn ring_text(spot: &Spot, color: &str) -> (r: String)
    ensures
        r@ == ring(*spot, color@),
{
    let x = spot.x.as_str();
    let y = spot.y.as_str();
    let w = spot.w.as_str();
    let h = spot.h.as_str();
    "<rect class=\"overlay\" x=\"".to_owned()
        .concat(x)
        .concat("\" y=\"")
        .concat(y)
        .concat("\" width=\"")
        .concat(w)
        .concat("\" height=\"")
        .concat(h)
        .concat("\" fill=\"none\" stroke=\"")
        .concat(color)
        .concat("\" stroke-width=\"2\"/>")
}

/// A label's colour.
pub open spec fn label_color(label: Lettered, palette: Palette) -> Seq<char> {
    if label.marked {
        palette.danger@
    } else if label.dim {
        palette.label_dim@
    } else if label.depth == 0 {
        palette.label_top@
    } else {
        palette.label@
    }
}

/// A size beside or under a name, at a point.
pub open spec fn size_at(x: Seq<char>, y: Seq<char>, dim: Seq<char>, anchor: Seq<char>, size: Seq<char>) -> Seq<char> {
    "<text x=\""@
        + x
        + "\" y=\""@
        + y
        + "\" font-size=\"11\" fill=\""@
        + dim
        + "\""@
        + anchor
        + ">"@
        + size
        + "</text>"@
}

fn size_text_at(x: &str, y: &str, dim: &str, anchor: &str, size: &String) -> (r: String)
    ensures
        r@ == size_at(x@, y@, dim@, anchor@, size@),
{
    "<text x=\"".to_owned()
        .concat(x)
        .concat("\" y=\"")
        .concat(y)
        .concat("\" font-size=\"11\" fill=\"")
        .concat(dim)
        .concat("\"")
        .concat(anchor)
        .concat(">")
        .concat(size.as_str())
        .concat("</text>")
}

/// Where a label's size goes: stacked under the name in a closed tile tall
/// enough, at the far end of a first-level band, else behind the name where
/// there is room.
pub open spec fn label_size(label: Lettered, place: Lettering, palette: Palette) -> Seq<char> {
    let size = render::escaped(label.size_text);
    let dim = palette.label_dim@;
    if label.size_text.len() == 0 {
        ""@
    } else if !label.banded && place.tall {
        size_at(place.x@, place.below@, dim, ""@, size)
    } else if label.banded && label.depth == 0 {
        size_at(place.end@, place.baseline@, dim, " text-anchor=\"end\""@, size)
    } else if place.room {
        size_at(place.after@, place.baseline@, dim, ""@, size)
    } else {
        ""@
    }
}

/// One label, clipped to the region it owns.
pub open spec fn label_markup(
    index: int,
    label: Lettered,
    place: Lettering,
    palette: Palette,
) -> Seq<char> {
    if !place.fits {
        ""@
    } else {
        let clip = text::decimal(index as nat);
        let x = place.spot.x@;
        let y = place.spot.y@;
        let w = place.spot.w@;
        let h = place.spot.h@;
        let left = place.x@;
        let baseline = place.baseline@;
        let color = label_color(label, palette);
        let weight = if label.depth == 0 && label.banded {
            " font-weight=\"bold\""@
        } else {
            ""@
        };
        let name = render::escaped(label.text);
        let size = label_size(label, place, palette);
        "<clipPath id=\"clip-"@
            + clip
            + "\"><rect x=\""@
            + x
            + "\" y=\""@
            + y
            + "\" width=\""@
            + w
            + "\" height=\""@
            + h
            + "\"/></clipPath><g clip-path=\"url(#clip-"@
            + clip
            + ")\"><text x=\""@
            + left
            + "\" y=\""@
            + baseline
            + "\" font-size=\"12\" fill=\""@
            + color
            + "\""@
            + weight
            + ">"@
            + name
            + "</text>"@
            + size
            + "</g>"@
    }
}

/// The first `count` labels.
pub open spec fn labels_markup(
    labels: Seq<Lettered>,
    drawn: Seq<Drawn>,
    palette: Palette,
    count: int,
) -> Seq<char>
    decreases count,
{
    if count <= 0 {
        ""@
    } else {
        labels_markup(labels, drawn, palette, count - 1) + label_markup(
            count - 1,
            labels[count - 1],
            drawn[labels[count - 1].tile].label,
            palette,
        )
    }
}

fn label_size_text(label: &Label, place: &Lettering, palette: &Palette) -> (r: String)
    ensures
        r@ == label_size(label@, *place, *palette),
{
    if text::is_empty(label.size_text.as_str()) {
        return "".to_owned();
    }
    let size = render::esc(label.size_text.as_str());
    let dim = palette.label_dim.as_str();
    if !label.banded && place.tall {
        size_text_at(place.x.as_str(), place.below.as_str(), dim, "", &size)
    } else if label.banded && label.depth == 0 {
        size_text_at(
            place.end.as_str(),
            place.baseline.as_str(),
            dim,
            " text-anchor=\"end\"",
            &size,
        )
    } else if place.room {
        size_text_at(place.after.as_str(), place.baseline.as_str(), dim, "", &size)
    } else {
        "".to_owned()
    }
}

fn paint_label(index: usize, label: &Label, place: &Lettering, palette: &Palette) -> (r: String)
    ensures
        r@ == label_markup(index as int, label@, *place, *palette),
{
    if !place.fits {
        return "".to_owned();
    }
    let clip = text::index_text(index);
    let x = place.spot.x.as_str();
    let y = place.spot.y.as_str();
    let w = place.spot.w.as_str();
    let h = place.spot.h.as_str();
    let left = place.x.as_str();
    let baseline = place.baseline.as_str();
    let color = if label.marked {
        palette.danger.as_str()
    } else if label.dim {
        palette.label_dim.as_str()
    } else if label.depth == 0 {
        palette.label_top.as_str()
    } else {
        palette.label.as_str()
    };
    // The first level is set in bold in its band: it names a region.
    let weight = if label.depth == 0 && label.banded {
        " font-weight=\"bold\""
    } else {
        ""
    };
    let name = render::esc(label.text.as_str());
    let size = label_size_text(label, place, palette);
    "<clipPath id=\"clip-".to_owned()
        .concat(clip.as_str())
        .concat("\"><rect x=\"")
        .concat(x)
        .concat("\" y=\"")
        .concat(y)
        .concat("\" width=\"")
        .concat(w)
        .concat("\" height=\"")
        .concat(h)
        .concat("\"/></clipPath><g clip-path=\"url(#clip-")
        .concat(clip.as_str())
        .concat(")\"><text x=\"")
        .concat(left)
        .concat("\" y=\"")
        .concat(baseline)
        .concat("\" font-size=\"12\" fill=\"")
        .concat(color)
        .concat("\"")
        .concat(weight)
        .concat(">")
        .concat(name.as_str())
        .concat("</text>")
        .concat(size.as_str())
        .concat("</g>")
}

/// Labels, clipped to the region each owns so no label reaches into another
/// tile.
pub fn paint_labels(labels: &Vec<Label>, drawn: &Vec<Drawn>, palette: &Palette) -> (r: String)
    requires
        forall|i: int| 0 <= i < labels@.len() ==> (#[trigger] labels@[i]).tile < drawn@.len(),
    ensures
        r@ == labels_markup(
            painted(labels_of(labels@)),
            drawn@,
            *palette,
            painted(labels_of(labels@)).len() as int,
        ),
{
    let ranked = rank_labels(labels);
    let ghost all = labels_of(labels@);
    let mut count: usize = ranked.len();
    if count > MAX_LABELS {
        count = MAX_LABELS;
    }
    let mut out = "".to_owned();
    let mut at: usize = 0;
    while at < count
        invariant
            at <= count <= ranked@.len(),
            count <= MAX_LABELS,
            count == painted(all).len(),
            forall|i: int| 0 <= i < ranked@.len() ==> (#[trigger] ranked@[i]) < labels@.len(),
            forall|i: int|
                0 <= i < ranked@.len() ==> labels@[(#[trigger] ranked@[i]) as int]@ == by_area(all)[i],
            forall|i: int| 0 <= i < labels@.len() ==> (#[trigger] labels@[i]).tile < drawn@.len(),
            out@ == labels_markup(painted(all), drawn@, *palette, at as int),
        decreases count - at,
    {
        let label = &labels[ranked[at]];
        assert(label@ == painted(all)[at as int]);
        out.append(paint_label(at, label, &drawn[label.tile].label, palette).as_str());
        at = at + 1;
    }
    out
}

/// Indices of labels, largest tile first, equals in their own order.
fn rank_labels(labels: &Vec<Label>) -> (r: Vec<usize>)
    ensures
        r@.len() == by_area(labels_of(labels@)).len(),
        forall|i: int| 0 <= i < r@.len() ==> (#[trigger] r@[i]) < labels@.len(),
        forall|i: int|
            0 <= i < r@.len() ==> labels@[(#[trigger] r@[i]) as int]@ == by_area(labels_of(labels@))[i],
{
    let ghost all = labels_of(labels@);
    let mut ranked: Vec<usize> = Vec::new();
    let mut at: usize = 0;
    assert(all.take(0) =~= Seq::empty());
    while at < labels.len()
        invariant
            at <= labels@.len(),
            all == labels_of(labels@),
            ranked@.len() == by_area(all.take(at as int)).len(),
            forall|i: int| 0 <= i < ranked@.len() ==> (#[trigger] ranked@[i]) < labels@.len(),
            forall|i: int|
                0 <= i < ranked@.len() ==> labels@[(#[trigger] ranked@[i]) as int]@ == by_area(
                    all.take(at as int),
                )[i],
        decreases labels@.len() - at,
    {
        let ghost before = by_area(all.take(at as int));
        let area = labels[at].area;
        let mut slot: usize = ranked.len();
        proof {
            assert(all.take(at + 1).drop_last() =~= all.take(at as int));
            assert(all.take(at + 1).last() == labels@[at as int]@);
            assert(before.take(slot as int) =~= before);
        }
        while slot > 0 && labels[ranked[slot - 1]].area.place_value() < area.place_value()
            invariant
                slot <= ranked@.len(),
                ranked@.len() == before.len(),
                area_slot(before, area) == area_slot(before.take(slot as int), area),
                forall|i: int| 0 <= i < ranked@.len() ==> (#[trigger] ranked@[i]) < labels@.len(),
                forall|i: int|
                    0 <= i < ranked@.len() ==> labels@[(#[trigger] ranked@[i]) as int]@ == before[i],
            decreases slot,
        {
            assert(before.take(slot as int).drop_last() =~= before.take(slot - 1));
            slot = slot - 1;
        }
        proof {
            if slot > 0 {
                assert(labels@[ranked@[slot - 1] as int]@ == before[slot - 1]);
                assert(before.take(slot as int).last() == before[slot - 1]);
            }
            assert(area_slot(before, area) == slot);
        }
        ranked.insert(slot, at);
        assert(by_area(all.take(at + 1)) == before.insert(slot as int, labels@[at as int]@));
        at = at + 1;
    }
    assert(all.take(at as int) =~= all);
    ranked
}

impl Web {
    fn marked_set(&self) -> (r: rustc_hash::FxHashSet<Vec<usize>>)
        ensures
            forall|crumbs: Seq<usize>| #[trigger]
                crumb_set(r).contains(crumbs) == self@.marked_at(crumbs),
    {
        let mut set = no_crumbs();
        let items = self.marks.items();
        let mut at: usize = 0;
        while at < items.len()
            invariant
                at <= items@.len(),
                crate::marks::marks_of(items@) == self@.marks,
                forall|crumbs: Seq<usize>| #[trigger]
                    crumb_set(set).contains(crumbs) <==> exists|i: int|
                        0 <= i < at && #[trigger] self@.crumbs_for_path(self@.marks[i].path)
                            == Some(crumbs),
            decreases items@.len() - at,
        {
            assert(self@.marks[at as int].path == items@[at as int].path@);
            let ghost before = crumb_set(set);
            let found = self.crumbs_for_path(&items[at].path);
            if let Some(crumbs) = found {
                let ghost added = crumbs@;
                insert_crumbs(&mut set, crumbs);
                assert(self@.crumbs_for_path(self@.marks[at as int].path) == Some(added));
            }
            proof {
                assert forall|crumbs: Seq<usize>| #[trigger]
                    crumb_set(set).contains(crumbs) <==> exists|i: int|
                        0 <= i < at + 1 && #[trigger] self@.crumbs_for_path(self@.marks[i].path)
                            == Some(crumbs) by {
                    if before.contains(crumbs) {
                        let i = choose|i: int|
                            0 <= i < at && #[trigger] self@.crumbs_for_path(self@.marks[i].path)
                                == Some(crumbs);
                        assert(0 <= i < at + 1);
                    }
                }
            }
            at = at + 1;
        }
        set
    }

    fn covered_by(&self, set: &rustc_hash::FxHashSet<Vec<usize>>, crumbs: &[usize]) -> (r: Option<
        String,
    >)
        requires
            forall|c: Seq<usize>| #[trigger] crumb_set(*set).contains(c) == self@.marked_at(c),
        ensures
            text::opt_text(r) == self@.covered_by(crumbs@),
    {
        if holds_crumbs(set, crumbs) {
            return None;
        }
        let mut len: usize = 1;
        while len < crumbs.len()
            invariant
                1 <= len,
                forall|c: Seq<usize>| #[trigger] crumb_set(*set).contains(c) == self@.marked_at(c),
                self@.covered_by(crumbs@) == self@.cover_from(crumbs@, len as int),
            decreases crumbs@.len() - len,
        {
            let head = tree::first_crumbs(crumbs, len);
            if holds_crumbs(set, head.as_slice()) {
                if let Some(path) = self.path_at(head.as_slice()) {
                    return Some(render::short_name(&path));
                }
            }
            len = len + 1;
        }
        None
    }

    /// The size of the directory that holds what crumbs lead to.
    pub fn parent_bytes(&self, crumbs: &[usize]) -> (r: u64)
        ensures
            r == self@.parent_bytes(crumbs@),
    {
        match self.node_at(tree::parent_crumbs_of(crumbs).as_slice()) {
            Some(node) => node.bytes,
            None => 0,
        }
    }

    /// The path crumbs lead to, as it is shown.
    pub fn place_at(&self, crumbs: &[usize], words: &Words) -> (r: String)
        ensures
            r@ == self@.place_at(crumbs@, *words),
    {
        match self.path_at(crumbs) {
            Some(path) => words.place_text(&path).to_owned(),
            None => "".to_owned(),
        }
    }

    /// The hover tooltip's data, so a pointer move costs no round trip.
    pub fn tip(&self, node: &Node, crumbs: &[usize], words: &Words) -> (r: String)
        ensures
            r@ == self@.tip(*node, crumbs@, *words),
    {
        let total = self.parent_bytes(crumbs);
        let name = render::esc(node.shown_name().as_str());
        let place = render::esc(self.place_at(crumbs, words).as_str());
        let size = render::esc(words.size_text(node.bytes));
        let holds = render::esc(meta_text(node, words).as_str());
        let percent = render::esc(words.percent_text(node.bytes, total));
        let bar = render::esc(words.bar_text(node.bytes, total));
        " data-name=\"".to_owned()
            .concat(name.as_str())
            .concat("\" data-tip-path=\"")
            .concat(place.as_str())
            .concat("\" data-size=\"")
            .concat(size.as_str())
            .concat("\" data-meta=\"")
            .concat(holds.as_str())
            .concat("\" data-percent=\"")
            .concat(percent.as_str())
            .concat("\" data-bar=\"")
            .concat(bar.as_str())
            .concat("\"")
    }

    fn tile_node(&self, tile: &Tile) -> (r: Option<&Node>)
        ensures
            match r {
                Some(node) => self@.tile_node(*tile) == Some(*node),
                None => self@.tile_node(*tile) is None,
            },
    {
        match tile.others {
            Some(_) => None,
            None => self.node_at(tile.crumbs.as_slice()),
        }
    }

    fn filtered(&self, keep: Keep) -> (r: Filtered)
        ensures
            r == self@.filtered(keep),
    {
        match &self.matches {
            None => Filtered::Shown,
            Some(_) => match keep {
                Keep::Whole => Filtered::Shown,
                Keep::Partial => Filtered::Holds,
                Keep::Nothing => Filtered::Out,
            },
        }
    }

    fn age_of(&self, node: Option<&Node>) -> (r: Option<usize>)
        ensures
            match node {
                Some(node) => match self@.age_of(Some(*node)) {
                    Some(bucket) => r == Some(bucket as usize) && bucket < palette::AGES,
                    None => r is None,
                },
                None => r is None,
            },
    {
        match node {
            Some(node) => if self.color_mode == ColorMode::Age && node.modified > 0 {
                Some(palette::age_bucket(whole_days(self.scanned_at, node.modified)))
            } else {
                None
            },
            None => None,
        }
    }

    fn is_selected(&self, crumbs: &[usize]) -> (r: bool)
        ensures
            r == (self@.selected == Some(crumbs@)),
    {
        match &self.selected {
            Some(selected) => tree::same_crumbs(selected.as_slice(), crumbs),
            None => false,
        }
    }

    fn tile_tip(&self, tile: &Tile, marked: bool, words: &Words) -> (r: String)
        requires
            marked == self@.marked_at(tile.crumbs@),
        ensures
            r@ == self@.tile_tip(*tile, *words),
    {
        match self.tile_node(tile) {
            Some(node) => self.tip(node, tile.crumbs.as_slice(), words).concat(
                if node.dir {
                    " data-dir=\"1\""
                } else {
                    ""
                },
            ).concat(
                if is_dotted(node.shown_name().as_str()) {
                    " data-hidden=\"1\""
                } else {
                    ""
                },
            ).concat(
                if marked {
                    " data-marked=\"1\""
                } else {
                    ""
                },
            ),
            None => "".to_owned(),
        }
    }

    fn tile_overlays(
        &self,
        tile: &Tile,
        drawn: &Drawn,
        marked: bool,
        covered: bool,
        palette: &Palette,
    ) -> (r: (String, String, String))
        requires
            palette.full(),
            marked == self@.marked_at(tile.crumbs@),
            covered == self@.covered_by(tile.crumbs@) is Some,
        ensures
            r.0@ == self@.tile_hatch(*tile, *drawn),
            r.1@ == self@.tile_strip(*tile, *drawn, *palette),
            r.2@ == self@.tile_corner(*tile, *drawn, *palette),
    {
        let x = drawn.spot.x.as_str();
        let y = drawn.spot.y.as_str();
        let w = drawn.spot.w.as_str();
        let node = self.tile_node(tile);
        let filtered = self.filtered(drawn.keep);
        let (reclaimable, unreadable, category) = match node {
            Some(node) => (node.reclaim.is_some(), node.read_error, node.category),
            None => (false, false, Category::Other),
        };
        // Everything inside a reclaimable directory is reclaimable too, so
        // only the outermost one needs painting; its children repaint their
        // own fill and hatch.
        let hatch = if reclaimable && !marked && !covered && filtered == Filtered::Shown {
            overlay_text(x, y, w, drawn.spot.h.as_str(), "url(#hatch)")
        } else {
            "".to_owned()
        };
        // A top-level directory carries a thin strip of its colour, so the
        // first level of structure reads before any detail.
        let strip = if tile.depth == 0 && self.age_of(node).is_none() && filtered != Filtered::Out {
            overlay_text(x, y, w, drawn.strip.as_str(), palette.accent_of(category))
        } else {
            "".to_owned()
        };
        // A small warning corner: part of this was never measured.
        let corner = if unreadable && drawn.roomy {
            overlay_text(
                drawn.corner.0.as_str(),
                drawn.corner.1.as_str(),
                "4",
                "4",
                palette.warning.as_str(),
            )
        } else {
            "".to_owned()
        };
        (hatch, strip, corner)
    }

    fn tile_markup(
        &self,
        set: &rustc_hash::FxHashSet<Vec<usize>>,
        tile: &Tile,
        drawn: &Drawn,
        words: &Words,
        palette: &Palette,
    ) -> (r: String)
        requires
            palette.full(),
            forall|c: Seq<usize>| #[trigger] crumb_set(*set).contains(c) == self@.marked_at(c),
        ensures
            r@ == self@.tile_markup(*tile, *drawn, *words, *palette),
    {
        let crumbs = tile.crumbs.as_slice();
        let marked = holds_crumbs(set, crumbs);
        let covered_by = self.covered_by(set, crumbs);
        let covered = covered_by.is_some();
        let class = if self.is_selected(crumbs) {
            "g-tile sel"
        } else if marked {
            "g-tile marked"
        } else {
            "g-tile"
        };
        let tip = self.tile_tip(tile, marked, words);
        let cover = match &covered_by {
            Some(name) => " data-covered=\"".to_owned().concat(
                render::esc(name.as_str()).as_str(),
            ).concat("\""),
            None => "".to_owned(),
        };
        let x = drawn.spot.x.as_str();
        let y = drawn.spot.y.as_str();
        let w = drawn.spot.w.as_str();
        let h = drawn.spot.h.as_str();
        let node = self.tile_node(tile);
        let category = match node {
            Some(node) => node.category,
            None => Category::Other,
        };
        let fill = palette.fill_of(
            marked || covered,
            self.age_of(node),
            category,
            tile.depth,
            self.filtered(drawn.keep),
        );
        let (hatch, strip, corner) = self.tile_overlays(tile, drawn, marked, covered, palette);
        "<g class=\"".to_owned()
            .concat(class)
            .concat("\"")
            .concat(tip.as_str())
            .concat(cover.as_str())
            .concat("><rect class=\"tile-body\" x=\"")
            .concat(x)
            .concat("\" y=\"")
            .concat(y)
            .concat("\" width=\"")
            .concat(w)
            .concat("\" height=\"")
            .concat(h)
            .concat("\" fill=\"")
            .concat(fill)
            .concat("\"/>")
            .concat(hatch.as_str())
            .concat(strip.as_str())
            .concat(corner.as_str())
            .concat("</g>")
    }

    fn label(
        &self,
        set: &rustc_hash::FxHashSet<Vec<usize>>,
        at: usize,
        tile: &Tile,
        drawn: &Drawn,
        words: &Words,
    ) -> (r: Option<Label>)
        requires
            forall|c: Seq<usize>| #[trigger] crumb_set(*set).contains(c) == self@.marked_at(c),
        ensures
            match r {
                Some(label) => self@.label(at as int, *tile, *drawn, *words) == Some(label@),
                None => self@.label(at as int, *tile, *drawn, *words) is None,
            },
    {
        if !drawn.near || !drawn.labelled {
            return None;
        }
        if let Some(count) = tile.others {
            return Some(
                Label {
                    text: "+".to_owned().concat(text::index_text(count).as_str()).concat(" more"),
                    tile: at,
                    area: drawn.area,
                    banded: false,
                    depth: tile.depth,
                    dim: self.matches.is_some(),
                    marked: false,
                    size_text: "".to_owned(),
                },
            );
        }
        let crumbs = tile.crumbs.as_slice();
        match self.node_at(crumbs) {
            Some(node) => {
                let marked = holds_crumbs(set, crumbs) || self.covered_by(set, crumbs).is_some();
                Some(
                    Label {
                        text: node.shown_name(),
                        tile: at,
                        area: drawn.area,
                        banded: tile.header.is_some(),
                        depth: tile.depth,
                        dim: self.filtered(drawn.keep) == Filtered::Out,
                        marked,
                        size_text: short_value(node, self.options.metric, words),
                    },
                )
            },
            None => None,
        }
    }

    /// The mosaic for the current frame: tiles, rings and labels, and with
    /// every tile what its hover tooltip says.
    pub fn mosaic(&self, canvas: &Canvas, words: &Words, palette: &Palette) -> (r: String)
        requires
            palette.full(),
            self@.laid_out(*canvas),
        ensures
            r@ == self@.mosaic(*canvas, *words, *palette),
    {
        proof {
            reveal(State::mosaic);
        }
        let tiles = match &self.cache {
            Some(cache) => &cache.tiles,
            None => {
                return "".to_owned();
            },
        };
        // Marks are paths; the mosaic thinks in crumbs. Resolve once per
        // frame rather than building a path for every tile.
        let set = self.marked_set();
        let mut bodies = "".to_owned();
        // The selection's ring is painted last, on top.
        let mut marks = "".to_owned();
        let mut selection = "".to_owned();
        let mut found: Vec<Label> = Vec::new();
        let mut at: usize = 0;
        assert(labels_of(found@) =~= Seq::empty());
        while at < tiles.len()
            invariant
                at <= tiles@.len(),
                canvas.tiles@.len() == tiles@.len(),
                palette.full(),
                forall|c: Seq<usize>| #[trigger] crumb_set(set).contains(c) == self@.marked_at(c),
                bodies@ == self@.tiles_markup(tiles@, canvas.tiles@, *words, *palette, at as int),
                marks@ == self@.rings(tiles@, canvas.tiles@, 1, palette.danger@, at as int),
                selection@ == self@.rings(tiles@, canvas.tiles@, 3, palette.highlight@, at as int),
                labels_of(found@) == self@.labels(tiles@, canvas.tiles@, *words, at as int),
                forall|i: int| 0 <= i < found@.len() ==> (#[trigger] found@[i]).tile < at,
            decreases tiles@.len() - at,
        {
            let tile = &tiles[at];
            let drawn = &canvas.tiles[at];
            if drawn.near && drawn.large {
                bodies.append(self.tile_markup(&set, tile, drawn, words, palette).as_str());
                if self.is_selected(tile.crumbs.as_slice()) {
                    selection.append(ring_text(&drawn.ring, palette.highlight.as_str()).as_str());
                } else if holds_crumbs(&set, tile.crumbs.as_slice()) {
                    marks.append(ring_text(&drawn.ring, palette.danger.as_str()).as_str());
                }
            }
            let ghost before = found@;
            if let Some(label) = self.label(&set, at, tile, drawn, words) {
                let ghost added = label;
                found.push(label);
                assert(labels_of(found@) =~= labels_of(before).push(added@));
            }
            at = at + 1;
        }
        let width = canvas.width.as_str();
        let height = canvas.height.as_str();
        let hatch = palette.hatch.as_str();
        let labels = paint_labels(&found, &canvas.tiles, palette);
        "<svg id=\"mosaic\" width=\"".to_owned()
            .concat(width)
            .concat("\" height=\"")
            .concat(height)
            .concat("\" viewBox=\"0 0 ")
            .concat(width)
            .concat(" ")
            .concat(height)
            .concat("\"><defs><pattern id=\"hatch\" width=\"6\" height=\"6\"")
            .concat(" patternUnits=\"userSpaceOnUse\" patternTransform=\"rotate(45)\"><rect")
            .concat(" width=\"1.5\" height=\"6\" fill=\"")
            .concat(hatch)
            .concat("\"/></pattern></defs>")
            .concat(bodies.as_str())
            .concat(marks.as_str())
            .concat(selection.as_str())
            .concat(labels.as_str())
            .concat("</svg>")
    }
}

} // verus!
