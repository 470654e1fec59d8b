//! What is marked for removal, and the plan a removal runs.

use crate::paths;
use crate::paths::OsPath;
use vstd::prelude::*;

verus! {

/// One marked path.
#[derive(Debug)]
pub struct Target {
    pub path: OsPath,
    pub bytes: u64,
    pub is_dir: bool,
}

/// A marked path, as contracts speak of it.
pub struct Mark {
    pub path: Seq<u8>,
    pub bytes: u64,
    pub is_dir: bool,
}

impl View for Target {
    type V = Mark;

    open spec fn view(&self) -> Mark {
        Mark { path: self.path@, bytes: self.bytes, is_dir: self.is_dir }
    }
}

/// The views of a list of targets.
pub open spec fn marks_of(items: Seq<Target>) -> Seq<Mark> {
    items.map_values(|item: Target| item@)
}

/// A list of targets again.
pub fn copy_targets(targets: &Vec<Target>) -> (r: Vec<Target>)
    ensures
        marks_of(r@) == marks_of(targets@),
{
    let mut out: Vec<Target> = Vec::new();
    let mut at: usize = 0;
    assert(marks_of(out@) =~= marks_of(targets@).take(0));
    while at < targets.len()
        invariant
            at <= targets@.len(),
            marks_of(out@) == marks_of(targets@).take(at as int),
        decreases targets@.len() - at,
    {
        let target = &targets[at];
        let ghost before = out@;
        out.push(
            Target { path: target.path.copy(), bytes: target.bytes, is_dir: target.is_dir },
        );
        proof {
            assert(marks_of(out@) =~= marks_of(before).push(target@));
            assert(marks_of(targets@).take(at + 1) =~= marks_of(targets@).take(at as int).push(
                target@,
            ));
        }
        at = at + 1;
    }
    assert(marks_of(targets@).take(at as int) =~= marks_of(targets@));
    out
}

/// `path` itself is among the marks.
pub open spec fn marked(marks: Seq<Mark>, path: Seq<u8>) -> bool {
    exists|i: int| 0 <= i < marks.len() && paths::same_path((#[trigger] marks[i]).path, path)
}

/// `path` is strictly inside `base`.
pub open spec fn inside(path: Seq<u8>, base: Seq<u8>) -> bool {
    !paths::same_path(path, base) && paths::starts_with(path, base)
}

/// Marks other than `path`'s own.
pub open spec fn apart_from(path: Seq<u8>) -> spec_fn(Mark) -> bool {
    |mark: Mark| !paths::same_path(mark.path, path)
}

/// Marks that are not inside `path`.
pub open spec fn not_inside(path: Seq<u8>) -> spec_fn(Mark) -> bool {
    |mark: Mark| !inside(mark.path, path)
}

/// The outermost-looking marked directory `path` is inside: the one with the
/// shortest path, the first such.
pub open spec fn shortest_cover(marks: Seq<Mark>, path: Seq<u8>) -> Option<Seq<u8>>
    decreases marks.len(),
{
    if marks.len() == 0 {
        None
    } else {
        let before = shortest_cover(marks.drop_last(), path);
        let last = marks.last().path;
        if !inside(path, last) {
            before
        } else {
            match before {
                Some(found) => if found.len() <= last.len() {
                    before
                } else {
                    Some(last)
                },
                None => Some(last),
            }
        }
    }
}

/// The first marked directory `path` is inside.
pub open spec fn first_cover(marks: Seq<Mark>, path: Seq<u8>) -> Option<Seq<u8>>
    decreases marks.len(),
{
    if marks.len() == 0 {
        None
    } else {
        match first_cover(marks.drop_last(), path) {
            Some(found) => Some(found),
            None => if inside(path, marks.last().path) {
                Some(marks.last().path)
            } else {
                None
            },
        }
    }
}

/// No mark is, or is inside, another: each covers its own ground.
pub open spec fn disjoint(marks: Seq<Mark>) -> bool {
    forall|i: int, j: int|
        0 <= i < marks.len() && 0 <= j < marks.len() && i != j ==> !paths::starts_with(
            (#[trigger] marks[i]).path,
            (#[trigger] marks[j]).path,
        )
}

/// A cover is a mark, and there is one exactly when some mark covers.
pub proof fn lemma_shortest_cover(marks: Seq<Mark>, path: Seq<u8>)
    ensures
        match shortest_cover(marks, path) {
            Some(found) => {
                &&& inside(path, found)
                &&& exists|i: int|
                    0 <= i < marks.len() && (#[trigger] marks[i]).path == found
            },
            None => forall|i: int|
                0 <= i < marks.len() ==> !inside(path, (#[trigger] marks[i]).path),
        },
        forall|i: int|
            0 <= i < marks.len() && inside(path, (#[trigger] marks[i]).path) ==> {
                &&& shortest_cover(marks, path) matches Some(found)
                &&& found.len() <= marks[i].path.len()
            },
    decreases marks.len(),
{
    if marks.len() > 0 {
        let short = marks.drop_last();
        lemma_shortest_cover(short, path);
        assert forall|i: int|
            0 <= i < marks.len() && inside(path, (#[trigger] marks[i]).path) implies {
            &&& shortest_cover(marks, path) matches Some(found)
            &&& found.len() <= marks[i].path.len()
        } by {
            if i < marks.len() - 1 {
                assert(short[i] == marks[i]);
            }
        }
        match shortest_cover(marks, path) {
            Some(found) => {
                if marks.last().path != found {
                    let i = choose|i: int|
                        0 <= i < short.len() && (#[trigger] short[i]).path == found;
                    assert(marks[i].path == found);
                } else {
                    assert(marks[marks.len() - 1].path == found);
                }
            },
            None => {
                assert forall|i: int| 0 <= i < marks.len() implies !inside(
                    path,
                    (#[trigger] marks[i]).path,
                ) by {
                    if i < marks.len() - 1 {
                        assert(short[i] == marks[i]);
                    }
                }
            },
        }
    }
}

/// Filtering one mark more.
pub proof fn lemma_filter_step(marks: Seq<Mark>, pred: spec_fn(Mark) -> bool, at: int)
    requires
        0 <= at < marks.len(),
    ensures
        marks.take(at + 1).filter(pred) == if pred(marks[at]) {
            marks.take(at).filter(pred).push(marks[at])
        } else {
            marks.take(at).filter(pred)
        },
{
    reveal(Seq::filter);
    assert(marks.take(at + 1).drop_last() =~= marks.take(at));
    assert(marks.take(at + 1).last() == marks[at]);
}

/// The marks, in the order they were made.
#[derive(Debug)]
pub struct Marks {
    pub items: Vec<Target>,
}

impl View for Marks {
    type V = Seq<Mark>;

    open spec fn view(&self) -> Seq<Mark> {
        marks_of(self.items@)
    }
}

impl Marks {
    /// Nothing marked.
    pub fn new() -> (r: Marks)
        ensures
            r@ == Seq::<Mark>::empty(),
    {
        let r = Marks { items: Vec::new() };
        assert(r@ =~= Seq::<Mark>::empty());
        r
    }

    /// The marked paths.
    pub fn items(&self) -> (r: &Vec<Target>)
        ensures
            marks_of(r@) == self@,
    {
        &self.items
    }

    /// How many paths are marked.
    pub fn len(&self) -> (r: usize)
        ensures
            r == self@.len(),
    {
        self.items.len()
    }

    /// Nothing is marked.
    pub fn is_empty(&self) -> (r: bool)
        ensures
            r == (self@.len() == 0),
    {
        self.items.len() == 0
    }

    /// Whether `path` itself is marked.
    pub fn contains(&self, path: &OsPath) -> (r: bool)
        ensures
            r == marked(self@, path@),
    {
        let mut at: usize = 0;
        while at < self.items.len()
            invariant
                at <= self.items@.len(),
                forall|i: int|
                    0 <= i < at ==> !paths::same_path((#[trigger] self@[i]).path, path@),
            decreases self.items@.len() - at,
        {
            if self.items[at].path.same(path) {
                assert(paths::same_path(self@[at as int].path, path@));
                return true;
            }
            at = at + 1;
        }
        false
    }

    /// Unmark `path`.
    pub fn remove(&mut self, path: &OsPath)
        ensures
            final(self)@ == old(self)@.filter(apart_from(path@)),
    {
        let ghost before = self@;
        let ghost pred = apart_from(path@);
        let ghost mut seen: int = 0;
        let mut at: usize = 0;
        proof {
            reveal(Seq::filter);
            assert(before.take(0).filter(pred) =~= Seq::empty());
            assert(self@ =~= before.take(0).filter(pred) + before.skip(0));
        }
        while at < self.items.len()
            invariant
                pred == apart_from(path@),
                0 <= seen <= before.len(),
                at == before.take(seen).filter(pred).len(),
                at <= self.items@.len(),
                self@ == before.take(seen).filter(pred) + before.skip(seen),
            decreases self.items@.len() - at,
        {
            proof {
                assert(self@.len() == self.items@.len());
                assert(self@[at as int] == before[seen]);
                lemma_filter_step(before, pred, seen);
            }
            let ghost now = self@;
            if self.items[at].path.same(path) {
                let _gone = self.items.remove(at);
                proof {
                    assert(self@ =~= now.remove(at as int));
                    assert(self@ =~= before.take(seen + 1).filter(pred) + before.skip(seen + 1));
                    seen = seen + 1;
                }
            } else {
                at = at + 1;
                proof {
                    assert(self@ =~= before.take(seen + 1).filter(pred) + before.skip(seen + 1));
                    seen = seen + 1;
                }
            }
        }
        proof {
            assert(self@.len() == self.items@.len());
            assert(before.skip(seen).len() == 0);
            assert(before.take(seen) =~= before);
            assert(self@ =~= before.filter(pred));
        }
    }

    /// Unmark everything inside `path`, and say how much that was.
    pub fn absorb(&mut self, path: &OsPath) -> (r: usize)
        ensures
            final(self)@ == old(self)@.filter(not_inside(path@)),
            r == old(self)@.len() - final(self)@.len(),
    {
        let ghost before = self@;
        let ghost pred = not_inside(path@);
        let ghost mut seen: int = 0;
        let total = self.items.len();
        let mut at: usize = 0;
        proof {
            reveal(Seq::filter);
            assert(before.take(0).filter(pred) =~= Seq::empty());
            assert(self@ =~= before.take(0).filter(pred) + before.skip(0));
        }
        while at < self.items.len()
            invariant
                pred == not_inside(path@),
                0 <= seen <= before.len(),
                at == before.take(seen).filter(pred).len(),
                at <= self.items@.len(),
                self@ == before.take(seen).filter(pred) + before.skip(seen),
                total == before.len(),
            decreases self.items@.len() - at,
        {
            proof {
                assert(self@.len() == self.items@.len());
                assert(self@[at as int] == before[seen]);
                lemma_filter_step(before, pred, seen);
            }
            let ghost now = self@;
            if !self.items[at].path.same(path) && self.items[at].path.starts_with(path) {
                let _gone = self.items.remove(at);
                proof {
                    assert(self@ =~= now.remove(at as int));
                    assert(self@ =~= before.take(seen + 1).filter(pred) + before.skip(seen + 1));
                    seen = seen + 1;
                }
            } else {
                at = at + 1;
                proof {
                    assert(self@ =~= before.take(seen + 1).filter(pred) + before.skip(seen + 1));
                    seen = seen + 1;
                }
            }
        }
        proof {
            assert(self@.len() == self.items@.len());
            assert(before.skip(seen).len() == 0);
            assert(before.take(seen) =~= before);
            assert(self@ =~= before.filter(pred));
        }
        total - self.items.len()
    }

    /// Mark `target`, or unmark it when its path is marked already; whether
    /// it is marked now.
    pub fn toggle(&mut self, target: Target) -> (r: bool)
        ensures
            r == !marked(old(self)@, target@.path),
            final(self)@ == if r {
                old(self)@.push(target@)
            } else {
                old(self)@.filter(apart_from(target@.path))
            },
    {
        if self.contains(&target.path) {
            self.remove(&target.path);
            false
        } else {
            let ghost before = self@;
            self.items.push(target);
            assert(self@ =~= before.push(target@));
            true
        }
    }

    /// Unmark everything.
    pub fn clear(&mut self)
        ensures
            final(self)@ == Seq::<Mark>::empty(),
    {
        self.items.clear();
        assert(self@ =~= Seq::<Mark>::empty());
    }

    /// The marked directory `path` is inside, if any; never `path` itself.
    pub fn ancestor_of(&self, path: &OsPath) -> (r: Option<OsPath>)
        ensures
            paths::opt_path(r) == shortest_cover(self@, path@),
    {
        let mut best: Option<usize> = None;
        let mut at: usize = 0;
        assert(self@.take(0) =~= Seq::empty());
        while at < self.items.len()
            invariant
                at <= self.items@.len(),
                match best {
                    Some(b) => {
                        &&& b < self.items@.len()
                        &&& shortest_cover(self@.take(at as int), path@) == Some(
                            self@[b as int].path,
                        )
                    },
                    None => shortest_cover(self@.take(at as int), path@) is None,
                },
            decreases self.items@.len() - at,
        {
            let item = &self.items[at];
            proof {
                assert(self@.take(at + 1).drop_last() =~= self@.take(at as int));
                assert(self@.take(at + 1).last() == item@);
            }
            if !path.same(&item.path) && path.starts_with(&item.path) {
                match best {
                    Some(b) => {
                        if self.items[b].path.bytes.len() > item.path.bytes.len() {
                            best = Some(at);
                        }
                    },
                    None => {
                        best = Some(at);
                    },
                }
            }
            at = at + 1;
        }
        assert(self@.take(at as int) =~= self@);
        match best {
            Some(b) => Some(self.items[b].path.copy()),
            None => None,
        }
    }

    /// The first marked directory `path` is inside, if any.
    pub fn first_ancestor_of(&self, path: &OsPath) -> (r: Option<&OsPath>)
        ensures
            match r {
                Some(found) => first_cover(self@, path@) == Some(found@),
                None => first_cover(self@, path@) is None,
            },
    {
        let mut at: usize = 0;
        assert(self@.take(0) =~= Seq::empty());
        while at < self.items.len()
            invariant
                at <= self.items@.len(),
                first_cover(self@.take(at as int), path@) is None,
            decreases self.items@.len() - at,
        {
            let item = &self.items[at];
            proof {
                assert(self@.take(at + 1).drop_last() =~= self@.take(at as int));
                assert(self@.take(at + 1).last() == item@);
            }
            if !path.same(&item.path) && path.starts_with(&item.path) {
                proof {
                    lemma_first_cover_extends(self@, at + 1, path@);
                }
                return Some(&item.path);
            }
            at = at + 1;
        }
        assert(self@.take(at as int) =~= self@);
        None
    }
}

/// A cover found among the first marks is the first of all of them.
proof fn lemma_first_cover_extends(marks: Seq<Mark>, len: int, path: Seq<u8>)
    requires
        0 <= len <= marks.len(),
        first_cover(marks.take(len), path) is Some,
    ensures
        first_cover(marks, path) == first_cover(marks.take(len), path),
    decreases marks.len(),
{
    if len == marks.len() {
        assert(marks.take(len) =~= marks);
    } else {
        assert(marks.drop_last().take(len) =~= marks.take(len));
        lemma_first_cover_extends(marks.drop_last(), len, path);
    }
}

/// How marked paths are removed.
#[derive(Clone, Copy, Debug, PartialEq, Eq, Structural)]
pub enum RemovalMode {
    /// Recoverable.
    Trash,
    /// Not recoverable.
    Permanent,
}

/// A marked path the removal keeps back, and why.
#[derive(Debug)]
pub struct Blocked {
    pub path: OsPath,
    pub reason: String,
}

/// What a removal would act on.
#[derive(Debug)]
pub struct Plan {
    pub targets: Vec<Target>,
    /// Marks that go with a marked directory above them.
    pub covered: Vec<Target>,
    pub blocked: Vec<Blocked>,
    /// What the targets free.
    pub bytes: u64,
}

impl Plan {
    /// There is nothing to act on.
    pub fn is_empty(&self) -> (r: bool)
        ensures
            r == (self.targets@.len() == 0),
    {
        self.targets.len() == 0
    }
}

} // verus!
