//! Find and filter, and the layout a filter narrows.

use crate::app::{Camera, KeyView, LayoutCache, LayoutKey, Matches, News, Notice, Rect, State, Tile, Web};
use crate::navigation;
use crate::single;
use crate::single::Single;
use crate::text;
use crate::tree;
use crate::tree::Node;
use vstd::prelude::*;

verus! {

/// What to do about tiles.
#[derive(Debug)]
pub enum Layout {
    /// There is nothing to draw.
    Absent,
    /// The tiles at hand are current.
    Ready,
    /// The tiles have to be laid out for this key.
    Stale(LayoutKey),
}

/// What to do about tiles, as contracts speak of it.
pub enum Need {
    Absent,
    Ready,
    Stale(KeyView),
}

impl View for Layout {
    type V = Need;

    open spec fn view(&self) -> Need {
        match self {
            Layout::Absent => Need::Absent,
            Layout::Ready => Need::Ready,
            Layout::Stale(key) => Need::Stale(key@),
        }
    }
}

/// The number of the next filter; the count goes round.
pub open spec fn next_epoch(epoch: u64) -> u64 {
    if epoch < u64::MAX {
        (epoch + 1) as u64
    } else {
        0
    }
}

/// The size of what `crumbs` lead to.
pub open spec fn bytes_at(root: Node, crumbs: Seq<usize>) -> Option<u64> {
    match tree::resolve(root, crumbs) {
        Some(node) => Some(node.bytes),
        None => None,
    }
}

/// Of the first `count` matches, the largest that is in the tree; the last
/// such.
pub open spec fn largest_match(root: Node, whole: Seq<Vec<usize>>, count: int) -> Option<int>
    decreases count,
{
    if count <= 0 {
        None
    } else {
        let before = largest_match(root, whole, count - 1);
        match bytes_at(root, whole[count - 1]@) {
            None => before,
            Some(bytes) => match before {
                None => Some(count - 1),
                Some(best) => if bytes >= bytes_at(root, whole[best]@)->0 {
                    Some(count - 1)
                } else {
                    before
                },
            },
        }
    }
}

impl State {
    /// Drop the find text and the filter with it.
    #[verifier::opaque]
    pub open spec fn clear_filter(self) -> State {
        State {
            find: Seq::empty(),
            find_open: false,
            matches: None,
            filter_applied: false,
            filter_epoch: next_epoch(self.filter_epoch),
            ..self
        }
    }

    /// Take up what the find text matches. `found` is what it matches in the
    /// directory on screen.
    pub open spec fn refresh_matches(self, found: Option<Matches>) -> State {
        let bumped = State {
            filter_epoch: next_epoch(self.filter_epoch),
            ..self
        };
        if self.tree is None || text::blank(self.find) {
            State { matches: None, filter_applied: false, ..bumped }
        } else {
            State { matches: found, ..bumped }
        }
    }

    /// Lay out only the matches, the largest selected.
    pub open spec fn apply_filter(self) -> State {
        let closed = State { find_open: false, ..self };
        match self.matches {
            None => closed,
            Some(matches) => if matches.count == 0 {
                State { notice: Some(News::NoMatch { needle: matches.needle@ }), ..closed }
            } else {
                State {
                    filter_applied: true,
                    filter_epoch: next_epoch(self.filter_epoch),
                    camera: Camera::still(),
                    selected: match self.tree {
                        Some(root) => match largest_match(
                            root,
                            matches.whole@,
                            matches.whole@.len() as int,
                        ) {
                            Some(at) => Some(matches.whole@[at]@),
                            None => None,
                        },
                        None => None,
                    },
                    notice: None,
                    ..closed.forget_hover()
                }
            },
        }
    }

    /// A filter is about the directory it was typed in: above it, it lapses.
    pub open spec fn lapse(self) -> State {
        match self.matches {
            Some(matches) => if matches.base@.is_prefix_of(self.crumbs) {
                self
            } else {
                self.clear_filter()
            },
            None => self,
        }
    }

    /// What the layout depends on, in an area of whole pixels.
    pub open spec fn layout_key(self, area: (Single, Single)) -> KeyView {
        KeyView {
            crumbs: self.crumbs,
            width: area.0,
            height: area.1,
            depth: self.depth,
            filter: self.filter_epoch,
        }
    }

    /// What to do about tiles, in an area of whole pixels.
    pub open spec fn layout_need(self, area: (Single, Single)) -> Need {
        let one = Single { bits: single::ONE };
        let key = self.layout_key(area);
        if area.0.below(one) || area.1.below(one) {
            Need::Absent
        } else if self.cache matches Some((cached, _)) && cached == key {
            Need::Ready
        } else if self.node_at(self.crumbs) is None {
            Need::Absent
        } else {
            Need::Stale(key)
        }
    }
}

fn same_key(a: &LayoutKey, b: &LayoutKey) -> (r: bool)
    ensures
        r == (a@ == b@),
{
    a.width == b.width && a.height == b.height && a.depth == b.depth && a.filter == b.filter
        && tree::same_crumbs(a.crumbs.as_slice(), b.crumbs.as_slice())
}

impl Web {
    /// Drop the find text and the filter with it.
    pub fn clear_filter(&mut self)
        ensures
            final(self)@ == old(self)@.clear_filter(),
    {
        proof {
            reveal(State::clear_filter);
        }
        self.find = String::new();
        self.find_open = false;
        self.matches = None;
        self.filter_applied = false;
        self.filter_epoch = self.filter_epoch.wrapping_add(1);
    }

    /// Whether there is a find text to look up, and a tree to look in.
    pub fn wants_matches(&self) -> (r: bool)
        ensures
            r == (self@.tree is Some && !text::blank(self@.find)),
    {
        self.tree.is_some() && !text::is_blank(self.find.as_str())
    }

    /// Recompute what the find text matches. `found` is what it matches in
    /// the directory on screen.
    pub fn refresh_matches(&mut self, found: Option<Matches>)
        ensures
            final(self)@ == old(self)@.refresh_matches(found),
    {
        if self.wants_matches() {
            self.matches = found;
        } else {
            self.matches = None;
            self.filter_applied = false;
        }
        self.filter_epoch = self.filter_epoch.wrapping_add(1);
    }

    /// Crumbs of the largest whole match that is in the tree.
    fn largest_whole(&self) -> (r: Option<Vec<usize>>)
        requires
            self.matches is Some,
        ensures
            tree::opt_crumbs(r) == match self@.tree {
                Some(root) => {
                    let whole = self@.matches->0.whole@;
                    match largest_match(root, whole, whole.len() as int) {
                        Some(at) => Some(whole[at]@),
                        None => None,
                    }
                },
                None => None,
            },
    {
        let root = match &self.tree {
            Some(root) => root,
            None => {
                return None;
            },
        };
        let matches = match &self.matches {
            Some(matches) => matches,
            None => {
                return None;
            },
        };
        let mut best: Option<(usize, u64)> = None;
        let mut at: usize = 0;
        while at < matches.whole.len()
            invariant
                at <= matches.whole@.len(),
                match best {
                    Some((b, bytes)) => {
                        &&& b < at
                        &&& largest_match(*root, matches.whole@, at as int) == Some(b as int)
                        &&& bytes_at(*root, matches.whole@[b as int]@) == Some(bytes)
                    },
                    None => largest_match(*root, matches.whole@, at as int) is None,
                },
            decreases matches.whole@.len() - at,
        {
            if let Some(node) = root.resolve(matches.whole[at].as_slice()) {
                let larger = match best {
                    Some((_, bytes)) => node.bytes >= bytes,
                    None => true,
                };
                if larger {
                    best = Some((at, node.bytes));
                }
            }
            at = at + 1;
        }
        match best {
            Some((b, _)) => Some(tree::copy_crumbs(matches.whole[b].as_slice())),
            None => None,
        }
    }

    /// Enter in the find field: lay out only the matches, with the largest
    /// selected so Space marks it.
    pub fn apply_filter(&mut self)
        ensures
            final(self)@ == old(self)@.apply_filter(),
    {
        self.find_open = false;
        let nothing = match &self.matches {
            None => {
                return ;
            },
            Some(matches) => if matches.count == 0 {
                Some(matches.needle.clone())
            } else {
                None
            },
        };
        if let Some(needle) = nothing {
            self.notice = Some(Notice::NoMatch { needle });
            return ;
        }
        let selected = self.largest_whole();
        self.filter_applied = true;
        self.filter_epoch = self.filter_epoch.wrapping_add(1);
        self.camera = Camera::identity();
        self.forget_hover();
        self.selected = selected;
        self.notice = None;
    }

    /// Whether there are tiles to draw, and whether they have to be laid out
    /// first, in an area of whole pixels.
    pub fn layout(&mut self, area: (Single, Single)) -> (r: Layout)
        ensures
            final(self)@ == old(self)@.lapse(),
            r@ == old(self)@.lapse().layout_need(area),
    {
        let lapsed = match &self.matches {
            Some(matches) => !tree::crumbs_start_with(
                self.crumbs.as_slice(),
                matches.base.as_slice(),
            ),
            None => false,
        };
        if lapsed {
            self.clear_filter();
        }
        let one = Single::from_bits(single::ONE);
        if area.0.lt(one) || area.1.lt(one) {
            return Layout::Absent;
        }
        let key = LayoutKey {
            crumbs: tree::copy_crumbs(self.crumbs.as_slice()),
            width: area.0,
            height: area.1,
            depth: self.depth,
            filter: self.filter_epoch,
        };
        let ready = match &self.cache {
            Some(cache) => same_key(&cache.key, &key),
            None => false,
        };
        if ready {
            Layout::Ready
        } else if self.current().is_none() {
            Layout::Absent
        } else {
            Layout::Stale(key)
        }
    }

    /// Take up the tiles laid out for `key`.
    pub fn store_layout(&mut self, key: LayoutKey, tiles: Vec<Tile>)
        ensures
            final(self)@ == (State { cache: Some((key@, tiles@)), ..old(self)@ }),
    {
        self.cache = Some(LayoutCache { key, tiles });
    }

    /// Base-space rect of the tile at `crumbs`, if it is currently drawn.
    pub fn tile_rect(&self, crumbs: &[usize]) -> (r: Option<Rect>)
        ensures
            r == match self@.cache {
                Some((_, tiles)) => match navigation::tile_at(tiles, crumbs@) {
                    Some(at) => Some(tiles[at].rect),
                    None => None,
                },
                None => None,
            },
    {
        match &self.cache {
            Some(cache) => match navigation::find_tile(&cache.tiles, crumbs) {
                Some(at) => Some(cache.tiles[at].rect),
                None => None,
            },
            None => None,
        }
    }
}

} // verus!
