//! What a page spells: every number, path and share that its markup shows, so
//! that a table of words can hold a row for each.

use crate::app::{News, Notice, State, Tile, Web};
use crate::marks::Plan;
use crate::mosaic;
use crate::navigation;
use crate::panel;
use crate::paths::OsPath;
use crate::review;
use crate::tree::Node;
use crate::words::Words;
use vstd::prelude::*;

verus! {

/// Something a page spells.
#[derive(Debug)]
pub enum Figure {
    /// A number, as a size and as a count.
    Number(u64),
    Path(OsPath),
    /// The share a part is of a total.
    Share(u64, u64),
    /// The volume's meter once so many bytes are freed.
    Meter(u64),
}

/// Something a page spells, as contracts speak of it.
pub enum Fig {
    Number(u64),
    Path(Seq<u8>),
    Share(u64, u64),
    Meter(u64),
}

impl View for Figure {
    type V = Fig;

    open spec fn view(&self) -> Fig {
        match self {
            Figure::Number(value) => Fig::Number(*value),
            Figure::Path(path) => Fig::Path(path@),
            Figure::Share(part, total) => Fig::Share(*part, *total),
            Figure::Meter(reclaiming) => Fig::Meter(*reclaiming),
        }
    }
}

/// The views of figures.
pub open spec fn figs_of(figures: Seq<Figure>) -> Seq<Fig> {
    figures.map_values(|figure: Figure| figure@)
}

impl Words {
    /// There is a row for a figure in every spelling it may take.
    pub open spec fn spells(self, fig: Fig) -> bool {
        match fig {
            Fig::Number(value) => {
                &&& exists|i: int|
                    0 <= i < self.bytes@.len() && (#[trigger] self.bytes@[i]).value == value
                &&& exists|i: int|
                    0 <= i < self.short@.len() && (#[trigger] self.short@[i]).value == value
                &&& exists|i: int|
                    0 <= i < self.counts@.len() && (#[trigger] self.counts@[i]).value == value
            },
            Fig::Path(path) => exists|i: int|
                0 <= i < self.paths@.len() && (#[trigger] self.paths@[i]).path@ == path,
            Fig::Share(part, total) => exists|i: int|
                0 <= i < self.shares@.len() && (#[trigger] self.shares@[i]).part == part
                    && self.shares@[i].total == total,
            Fig::Meter(reclaiming) => exists|i: int|
                0 <= i < self.meters@.len() && (#[trigger] self.meters@[i]).reclaiming
                    == reclaiming,
        }
    }

    /// There is a row for every figure.
    pub open spec fn spells_all(self, figs: Seq<Fig>) -> bool {
        forall|i: int| 0 <= i < figs.len() ==> self.spells(#[trigger] figs[i])
    }
}

impl State {
    /// The path `crumbs` lead to.
    pub open spec fn path_figs(self, crumbs: Seq<usize>) -> Seq<Fig> {
        match self.path_at(crumbs) {
            Some(path) => seq![Fig::Path(path)],
            None => Seq::empty(),
        }
    }

    /// A node's figures, as part of `total`.
    pub open spec fn node_figs(node: Node, total: u64) -> Seq<Fig> {
        seq![
            Fig::Number(node.bytes),
            Fig::Number(node.files),
            Fig::Number(mosaic::dirs_below(node)),
            Fig::Number(node.own_bytes),
            Fig::Share(node.bytes, total),
        ]
    }

    /// A node's card: its path, and its figures as part of its directory.
    pub open spec fn card_figs(self, crumbs: Seq<usize>) -> Seq<Fig> {
        self.path_figs(crumbs) + match self.node_at(crumbs) {
            Some(node) => State::node_figs(node, self.parent_bytes(crumbs)),
            None => Seq::empty(),
        }
    }

    /// The cards of the first `count` tiles.
    pub open spec fn tile_figs(self, tiles: Seq<Tile>, count: int) -> Seq<Fig>
        decreases count,
    {
        if count <= 0 {
            Seq::empty()
        } else {
            self.tile_figs(tiles, count - 1) + self.card_figs(tiles[count - 1].crumbs@)
        }
    }

    /// The cards of the layout.
    pub open spec fn layout_figs(self) -> Seq<Fig> {
        match self.cache {
            Some((_, tiles)) => self.tile_figs(tiles, tiles.len() as int),
            None => Seq::empty(),
        }
    }

    /// The first `count` rows of the sibling menu of `node`.
    pub open spec fn row_figs(self, node: Node, count: int) -> Seq<Fig>
        decreases count,
    {
        if count <= 0 {
            Seq::empty()
        } else {
            let rows = navigation::listed(node, self.options.metric);
            let measure = node.children@[rows[count - 1] as int].measure(self.options.metric);
            let largest = crate::explore::largest_of(
                Some(node.children@[rows[0] as int].measure(self.options.metric)),
            );
            self.row_figs(node, count - 1) + seq![
                Fig::Number(measure),
                Fig::Share(measure, largest),
            ]
        }
    }

    /// The rows of the open sibling menu.
    pub open spec fn menu_figs(self) -> Seq<Fig> {
        match self.crumb_menu {
            Some(menu) => match self.node_at(menu.parent) {
                Some(node) => self.row_figs(
                    node,
                    navigation::listed(node, self.options.metric).len() as int,
                ),
                None => Seq::empty(),
            },
            None => Seq::empty(),
        }
    }

    /// Where a history button leads.
    pub open spec fn history_figs(self, back: bool) -> Seq<Fig> {
        match self.history_target(back) {
            Some(crumbs) => self.card_figs(crumbs),
            None => Seq::empty(),
        }
    }

    /// What the scan found, and how far it is.
    pub open spec fn scan_figs(self) -> Seq<Fig> {
        let (bytes, files, dirs) = self.totals();
        seq![
            Fig::Number(bytes),
            Fig::Number(files),
            Fig::Number(dirs),
            Fig::Number(self.progress.bytes),
            Fig::Number(self.progress.files),
            Fig::Number(self.progress.dirs),
            Fig::Number(self.progress.errors),
        ]
    }

    /// What the find text matches.
    pub open spec fn match_figs(self) -> Seq<Fig> {
        match self.matches {
            Some(matches) => seq![Fig::Number(matches.count as u64), Fig::Number(matches.bytes)],
            None => Seq::empty(),
        }
    }

    /// What the keys act on, as part of the whole scan.
    pub open spec fn target_figs(self) -> Seq<Fig> {
        self.path_figs(self.target()) + match self.node_at(self.target()) {
            Some(node) => State::node_figs(node, self.root_bytes()),
            None => Seq::empty(),
        }
    }

    /// The first `count` things worth a look.
    pub open spec fn insight_figs(self, count: int) -> Seq<Fig>
        decreases count,
    {
        if count <= 0 {
            Seq::empty()
        } else {
            let bytes = self.insights[count - 1].bytes;
            self.insight_figs(count - 1) + seq![
                Fig::Number(bytes),
                Fig::Share(bytes, self.insights[0].bytes),
            ]
        }
    }

    /// What is worth a look, and its total where that fits.
    pub open spec fn worth_figs(self) -> Seq<Fig> {
        self.insight_figs(self.insights.len() as int) + if self.worth_total() <= u64::MAX {
            seq![Fig::Number(self.worth_total() as u64)]
        } else {
            Seq::empty()
        }
    }

    /// The first `count` marks.
    pub open spec fn mark_figs(self, count: int) -> Seq<Fig>
        decreases count,
    {
        if count <= 0 {
            Seq::empty()
        } else {
            let mark = self.marks[count - 1];
            self.mark_figs(count - 1) + seq![
                Fig::Path(mark.path),
                Fig::Number(mark.bytes),
                Fig::Share(mark.bytes, self.root_bytes()),
            ]
        }
    }

    /// The paths a notice names.
    pub open spec fn notice_figs(self) -> Seq<Fig> {
        match self.notice {
            Some(News::GoesWith { path, ancestor }) => seq![Fig::Path(path), Fig::Path(ancestor)],
            Some(News::Covers { path, .. }) => seq![Fig::Path(path)],
            _ => Seq::empty(),
        }
    }

    /// The volume's room, and what it gained.
    pub open spec fn space_figs(self, plan: Plan) -> Seq<Fig> {
        match self.space {
            Some(space) => seq![
                Fig::Number(space.available),
                Fig::Number(space.total),
                Fig::Meter(plan.bytes),
                Fig::Meter(0),
            ] + match self.space_baseline {
                Some(before) => seq![
                    Fig::Number(
                        if space.available >= before.available {
                            (space.available - before.available) as u64
                        } else {
                            (before.available - space.available) as u64
                        },
                    ),
                ],
                None => Seq::empty(),
            },
            None => Seq::empty(),
        }
    }

    /// The directories a page names, and what the plan and the run come to.
    pub open spec fn page_figs(self, plan: Plan) -> Seq<Fig> {
        seq![
            Fig::Path(self.root_path),
            Fig::Path(self.current_path()),
            Fig::Number(plan.bytes),
            Fig::Number(self.run_summary.bytes),
        ]
    }

    /// Everything a page spells.
    pub open spec fn spellings(self, plan: Plan) -> Seq<Fig> {
        self.page_figs(plan) + self.scan_figs() + self.match_figs() + self.target_figs()
            + self.worth_figs() + self.mark_figs(self.marks.len() as int) + self.notice_figs()
            + self.space_figs(plan) + self.menu_figs() + self.history_figs(true)
            + self.history_figs(false) + self.layout_figs()
    }
}

fn note(out: &mut Vec<Figure>, figure: Figure)
    ensures
        figs_of(final(out)@) == figs_of(old(out)@).push(figure@),
{
    let ghost before = out@;
    let ghost added = figure@;
    out.push(figure);
    assert(figs_of(out@) =~= figs_of(before).push(added));
}

fn add_node(out: &mut Vec<Figure>, node: &Node, total: u64)
    ensures
        figs_of(final(out)@) == figs_of(old(out)@) + State::node_figs(*node, total),
{
    let ghost before = figs_of(out@);
    note(out, Figure::Number(node.bytes));
    note(out, Figure::Number(node.files));
    note(out, Figure::Number(mosaic::dirs_in(node)));
    note(out, Figure::Number(node.own_bytes));
    note(out, Figure::Share(node.bytes, total));
    assert(figs_of(out@) =~= before + State::node_figs(*node, total));
}

impl Web {
    fn add_path(&self, crumbs: &[usize], out: &mut Vec<Figure>)
        ensures
            figs_of(final(out)@) == figs_of(old(out)@) + self@.path_figs(crumbs@),
    {
        let ghost before = figs_of(out@);
        if let Some(path) = self.path_at(crumbs) {
            note(out, Figure::Path(path));
        }
        assert(figs_of(out@) =~= before + self@.path_figs(crumbs@));
    }

    fn add_card(&self, crumbs: &[usize], out: &mut Vec<Figure>)
        ensures
            figs_of(final(out)@) == figs_of(old(out)@) + self@.card_figs(crumbs@),
    {
        let ghost before = figs_of(out@);
        self.add_path(crumbs, out);
        if let Some(node) = self.node_at(crumbs) {
            add_node(out, node, self.parent_bytes(crumbs));
        }
        assert(figs_of(out@) =~= before + self@.card_figs(crumbs@));
    }

    fn add_layout(&self, out: &mut Vec<Figure>)
        ensures
            figs_of(final(out)@) == figs_of(old(out)@) + self@.layout_figs(),
    {
        let ghost before = figs_of(out@);
        if let Some(cache) = &self.cache {
            let mut at: usize = 0;
            assert(before + self@.tile_figs(cache.tiles@, 0) =~= before);
            while at < cache.tiles.len()
                invariant
                    at <= cache.tiles@.len(),
                    figs_of(out@) == before + self@.tile_figs(cache.tiles@, at as int),
                decreases cache.tiles@.len() - at,
            {
                self.add_card(cache.tiles[at].crumbs.as_slice(), out);
                assert(figs_of(out@) =~= before + self@.tile_figs(cache.tiles@, at + 1));
                at = at + 1;
            }
        }
        assert(figs_of(out@) =~= before + self@.layout_figs());
    }

    fn add_menu(&self, out: &mut Vec<Figure>)
        ensures
            figs_of(final(out)@) == figs_of(old(out)@) + self@.menu_figs(),
    {
        let ghost before = figs_of(out@);
        if let Some(menu) = &self.crumb_menu {
            let (rows, _) = self.siblings(menu.parent.as_slice());
            let largest = if rows.len() > 0 && rows[0].value > 1 {
                rows[0].value
            } else {
                1
            };
            let ghost holder = self@.node_at(menu.parent@);
            let mut at: usize = 0;
            proof {
                if let Some(node) = holder {
                    assert(before + self@.row_figs(node, 0) =~= before);
                }
            }
            while at < rows.len()
                invariant
                    at <= rows@.len(),
                    holder == self@.node_at(menu.parent@),
                    holder is None ==> rows@.len() == 0 && figs_of(out@) == before,
                    holder matches Some(node) ==> {
                        let listed = navigation::listed(node, self@.options.metric);
                        &&& listed.len() == rows@.len()
                        &&& forall|i: int|
                            0 <= i < rows@.len() ==> (#[trigger] rows@[i]).value
                                == node.children@[listed[i] as int].measure(self@.options.metric)
                        &&& figs_of(out@) == before + self@.row_figs(node, at as int)
                        &&& rows@.len() > 0 ==> largest == crate::explore::largest_of(
                            Some(rows@[0].value),
                        )
                    },
                decreases rows@.len() - at,
            {
                let ghost node = holder->0;
                assert(rows@[0].value == node.children@[navigation::listed(
                    node,
                    self@.options.metric,
                )[0] as int].measure(self@.options.metric));
                note(out, Figure::Number(rows[at].value));
                note(out, Figure::Share(rows[at].value, largest));
                assert(figs_of(out@) =~= before + self@.row_figs(node, at + 1));
                at = at + 1;
            }
        }
        assert(figs_of(out@) =~= before + self@.menu_figs());
    }

    fn add_history(&self, back: bool, out: &mut Vec<Figure>)
        ensures
            figs_of(final(out)@) == figs_of(old(out)@) + self@.history_figs(back),
    {
        let ghost before = figs_of(out@);
        if let Some(crumbs) = self.history_target(back) {
            self.add_card(crumbs.as_slice(), out);
        }
        assert(figs_of(out@) =~= before + self@.history_figs(back));
    }

    fn add_scan(&self, out: &mut Vec<Figure>)
        ensures
            figs_of(final(out)@) == figs_of(old(out)@) + self@.scan_figs(),
    {
        let ghost before = figs_of(out@);
        let (bytes, files, dirs) = self.totals();
        note(out, Figure::Number(bytes));
        note(out, Figure::Number(files));
        note(out, Figure::Number(dirs));
        note(out, Figure::Number(self.progress.bytes));
        note(out, Figure::Number(self.progress.files));
        note(out, Figure::Number(self.progress.dirs));
        note(out, Figure::Number(self.progress.errors));
        assert(figs_of(out@) =~= before + self@.scan_figs());
    }

    fn add_matches(&self, out: &mut Vec<Figure>)
        ensures
            figs_of(final(out)@) == figs_of(old(out)@) + self@.match_figs(),
    {
        let ghost before = figs_of(out@);
        if let Some(matches) = &self.matches {
            note(out, Figure::Number(matches.count as u64));
            note(out, Figure::Number(matches.bytes));
        }
        assert(figs_of(out@) =~= before + self@.match_figs());
    }

    fn add_target(&self, out: &mut Vec<Figure>)
        ensures
            figs_of(final(out)@) == figs_of(old(out)@) + self@.target_figs(),
    {
        let ghost before = figs_of(out@);
        let target = self.target();
        self.add_path(target.as_slice(), out);
        if let Some(node) = self.node_at(target.as_slice()) {
            add_node(out, node, panel::root_bytes(self));
        }
        assert(figs_of(out@) =~= before + self@.target_figs());
    }

    fn add_worth(&self, out: &mut Vec<Figure>)
        ensures
            figs_of(final(out)@) == figs_of(old(out)@) + self@.worth_figs(),
    {
        let ghost before = figs_of(out@);
        let mut total: Option<u64> = Some(0);
        let mut at: usize = 0;
        assert(before + self@.insight_figs(0) =~= before);
        while at < self.insights.len()
            invariant
                at <= self.insights@.len(),
                self@.insights == self.insights@,
                figs_of(out@) == before + self@.insight_figs(at as int),
                match total {
                    Some(sum) => sum == panel::sizes(self.insights@, at as int),
                    None => panel::sizes(self.insights@, at as int) > u64::MAX,
                },
            decreases self.insights@.len() - at,
        {
            let bytes = self.insights[at].bytes;
            note(out, Figure::Number(bytes));
            note(out, Figure::Share(bytes, self.insights[0].bytes));
            assert(figs_of(out@) =~= before + self@.insight_figs(at + 1));
            total = match total {
                Some(sum) => sum.checked_add(bytes),
                None => None,
            };
            at = at + 1;
        }
        if let Some(sum) = total {
            note(out, Figure::Number(sum));
        }
        assert(figs_of(out@) =~= before + self@.worth_figs());
    }

    fn add_marks(&self, out: &mut Vec<Figure>)
        ensures
            figs_of(final(out)@) == figs_of(old(out)@) + self@.mark_figs(self@.marks.len() as int),
    {
        let ghost before = figs_of(out@);
        let items = self.marks.items();
        let root = panel::root_bytes(self);
        let mut at: usize = 0;
        assert(before + self@.mark_figs(0) =~= before);
        while at < items.len()
            invariant
                at <= items@.len(),
                crate::marks::marks_of(items@) == self@.marks,
                root == self@.root_bytes(),
                figs_of(out@) == before + self@.mark_figs(at as int),
            decreases items@.len() - at,
        {
            assert(self@.marks[at as int] == items@[at as int]@);
            note(out, Figure::Path(items[at].path.copy()));
            note(out, Figure::Number(items[at].bytes));
            note(out, Figure::Share(items[at].bytes, root));
            assert(figs_of(out@) =~= before + self@.mark_figs(at + 1));
            at = at + 1;
        }
    }

    fn add_notice(&self, out: &mut Vec<Figure>)
        ensures
            figs_of(final(out)@) == figs_of(old(out)@) + self@.notice_figs(),
    {
        let ghost before = figs_of(out@);
        match &self.notice {
            Some(Notice::GoesWith { path, ancestor }) => {
                note(out, Figure::Path(path.copy()));
                note(out, Figure::Path(ancestor.copy()));
            },
            Some(Notice::Covers { path, .. }) => {
                note(out, Figure::Path(path.copy()));
            },
            _ => {},
        }
        assert(figs_of(out@) =~= before + self@.notice_figs());
    }

    fn add_space(&self, plan: &Plan, out: &mut Vec<Figure>)
        ensures
            figs_of(final(out)@) == figs_of(old(out)@) + self@.space_figs(*plan),
    {
        let ghost before = figs_of(out@);
        if let Some(space) = self.space {
            note(out, Figure::Number(space.available));
            note(out, Figure::Number(space.total));
            note(out, Figure::Meter(plan.bytes));
            note(out, Figure::Meter(0));
            if let Some(baseline) = self.space_baseline {
                note(out, Figure::Number(review::volume_delta(baseline, space).1));
            }
        }
        assert(figs_of(out@) =~= before + self@.space_figs(*plan));
    }

    /// Everything a page spells: a table of words with a row for each of these
    /// leaves nothing blank.
    pub fn spellings(&self, plan: &Plan) -> (r: Vec<Figure>)
        ensures
            figs_of(r@) == self@.spellings(*plan),
    {
        let mut out: Vec<Figure> = Vec::new();
        note(&mut out, Figure::Path(self.root_path.copy()));
        note(&mut out, Figure::Path(self.current_path()));
        note(&mut out, Figure::Number(plan.bytes));
        note(&mut out, Figure::Number(self.run_summary.bytes));
        assert(figs_of(out@) =~= self@.page_figs(*plan));
        self.add_scan(&mut out);
        self.add_matches(&mut out);
        self.add_target(&mut out);
        self.add_worth(&mut out);
        self.add_marks(&mut out);
        self.add_notice(&mut out);
        self.add_space(plan, &mut out);
        self.add_menu(&mut out);
        self.add_history(true, &mut out);
        self.add_history(false, &mut out);
        self.add_layout(&mut out);
        out
    }
}

} // verus!
