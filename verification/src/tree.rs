//! The measured tree, and the crumbs that find a node in it.
//!
//! Crumbs are the child indices on the way down from the scanned root.

use crate::paths;
use crate::paths::OsPath;
use crate::text;
use vstd::prelude::*;

verus! {

/// What areas measure.
#[derive(Clone, Copy, Debug, PartialEq, Eq, Structural)]
pub enum Metric {
    Bytes,
    Files,
}

impl Metric {
    /// The other metric.
    pub open spec fn other(self) -> Metric {
        match self {
            Metric::Bytes => Metric::Files,
            Metric::Files => Metric::Bytes,
        }
    }

    /// The other metric.
    pub fn toggled(self) -> (r: Metric)
        ensures
            r == self.other(),
    {
        match self {
            Metric::Bytes => Metric::Files,
            Metric::Files => Metric::Bytes,
        }
    }
}

/// The kind of data a node holds.
#[derive(Clone, Copy, Debug, PartialEq, Eq, Structural)]
pub enum Category {
    Code,
    AgentScratch,
    Toolchain,
    Synced,
    Git,
    Media,
    Cache,
    Documents,
    Other,
}

/// How many categories there are.
pub const CATEGORIES: usize = 9;

impl Category {
    /// The category's place in a table of all of them.
    pub open spec fn place(self) -> int {
        match self {
            Category::Code => 0,
            Category::AgentScratch => 1,
            Category::Toolchain => 2,
            Category::Synced => 3,
            Category::Git => 4,
            Category::Media => 5,
            Category::Cache => 6,
            Category::Documents => 7,
            Category::Other => 8,
        }
    }

    /// The category's place in a table of all of them.
    pub fn index(self) -> (r: usize)
        ensures
            r == self.place(),
            r < CATEGORIES,
    {
        match self {
            Category::Code => 0,
            Category::AgentScratch => 1,
            Category::Toolchain => 2,
            Category::Synced => 3,
            Category::Git => 4,
            Category::Media => 5,
            Category::Cache => 6,
            Category::Documents => 7,
            Category::Other => 8,
        }
    }
}

/// One measured file or directory.
#[derive(Debug)]
pub struct Node {
    /// The name as the filesystem has it.
    pub os_name: Vec<u8>,
    pub bytes: u64,
    pub files: u64,
    pub dirs: u64,
    /// What the directory holds directly.
    pub own_bytes: u64,
    /// Unix seconds of the newest write in it; 0 when unknown.
    pub modified: i64,
    pub category: Category,
    /// What the category is called.
    pub kind: String,
    /// Why the space can be had back, when it can.
    pub reclaim: Option<String>,
    /// Part of it could not be read.
    pub read_error: bool,
    pub dir: bool,
    /// The largest child, as measured.
    pub largest: Option<usize>,
    pub children: Vec<Node>,
}

/// The node `crumbs` lead to from `node`.
pub open spec fn resolve(node: Node, crumbs: Seq<usize>) -> Option<Node>
    decreases crumbs.len(),
{
    if crumbs.len() == 0 {
        Some(node)
    } else if crumbs[0] < node.children@.len() {
        resolve(node.children@[crumbs[0] as int], crumbs.skip(1))
    } else {
        None
    }
}

/// Where `crumbs` lead from `node` on the filesystem, `node` being at
/// `root`: each child's name joined in turn, as far as the crumbs go.
pub open spec fn path_of(root: Seq<u8>, node: Node, crumbs: Seq<usize>) -> Seq<u8>
    decreases crumbs.len(),
{
    if crumbs.len() == 0 || crumbs[0] >= node.children@.len() {
        root
    } else {
        let child = node.children@[crumbs[0] as int];
        path_of(paths::join(root, child.os_name@), child, crumbs.skip(1))
    }
}

/// One crumb further down.
pub proof fn lemma_resolve_push(node: Node, crumbs: Seq<usize>, index: usize)
    ensures
        resolve(node, crumbs.push(index)) == match resolve(node, crumbs) {
            Some(found) => if index < found.children@.len() {
                Some(found.children@[index as int])
            } else {
                None
            },
            None => None,
        },
    decreases crumbs.len(),
{
    let longer = crumbs.push(index);
    if crumbs.len() == 0 {
        assert(longer.skip(1) =~= Seq::empty());
        if index < node.children@.len() {
            assert(resolve(node.children@[index as int], longer.skip(1)) == Some(
                node.children@[index as int],
            ));
        }
    } else {
        assert(longer.skip(1) =~= crumbs.skip(1).push(index));
        if crumbs[0] < node.children@.len() {
            lemma_resolve_push(node.children@[crumbs[0] as int], crumbs.skip(1), index);
        }
    }
}

impl Node {
    /// The name as it is shown.
    pub open spec fn name(self) -> Seq<char> {
        text::lossy_text(self.os_name@)
    }

    /// The name as it is shown.
    pub fn shown_name(&self) -> (r: String)
        ensures
            r@ == self.name(),
    {
        text::lossy(self.os_name.as_slice())
    }

    /// The measure areas go by.
    pub open spec fn measure(self, metric: Metric) -> u64 {
        match metric {
            Metric::Bytes => self.bytes,
            Metric::Files => self.files,
        }
    }

    /// The measure areas go by.
    pub fn value(&self, metric: Metric) -> (r: u64)
        ensures
            r == self.measure(metric),
    {
        match metric {
            Metric::Bytes => self.bytes,
            Metric::Files => self.files,
        }
    }

    /// The node is a directory.
    pub fn is_dir(&self) -> (r: bool)
        ensures
            r == self.dir,
    {
        self.dir
    }

    /// The child at `index`.
    pub fn child(&self, index: usize) -> (r: Option<&Node>)
        ensures
            match r {
                Some(child) => index < self.children@.len() && *child
                    == self.children@[index as int],
                None => index >= self.children@.len(),
            },
    {
        if index < self.children.len() {
            Some(&self.children[index])
        } else {
            None
        }
    }

    /// The node `crumbs` lead to.
    pub fn resolve(&self, crumbs: &[usize]) -> (r: Option<&Node>)
        ensures
            match r {
                Some(found) => resolve(*self, crumbs@) == Some(*found),
                None => resolve(*self, crumbs@) is None,
            },
    {
        let mut node: &Node = self;
        let mut at: usize = 0;
        assert(crumbs@.skip(0) =~= crumbs@);
        while at < crumbs.len()
            invariant
                at <= crumbs@.len(),
                resolve(*node, crumbs@.skip(at as int)) == resolve(*self, crumbs@),
            decreases crumbs@.len() - at,
        {
            let index = crumbs[at];
            assert(crumbs@.skip(at as int)[0] == index);
            if index >= node.children.len() {
                return None;
            }
            assert(crumbs@.skip(at as int).skip(1) =~= crumbs@.skip(at + 1));
            node = &node.children[index];
            at = at + 1;
        }
        assert(crumbs@.skip(at as int) =~= Seq::empty());
        Some(node)
    }

    /// Where `crumbs` lead on the filesystem, this node being at `root`.
    pub fn path_of(&self, root: &OsPath, crumbs: &[usize]) -> (r: OsPath)
        ensures
            r@ == path_of(root@, *self, crumbs@),
    {
        let mut path = root.copy();
        let mut node: &Node = self;
        let mut at: usize = 0;
        assert(crumbs@.skip(0) =~= crumbs@);
        while at < crumbs.len()
            invariant
                at <= crumbs@.len(),
                path_of(path@, *node, crumbs@.skip(at as int)) == path_of(
                    root@,
                    *self,
                    crumbs@,
                ),
            decreases crumbs@.len() - at,
        {
            let index = crumbs[at];
            assert(crumbs@.skip(at as int)[0] == index);
            if index >= node.children.len() {
                return path;
            }
            assert(crumbs@.skip(at as int).skip(1) =~= crumbs@.skip(at + 1));
            node = &node.children[index];
            path = path.join(&node.os_name);
            at = at + 1;
        }
        assert(crumbs@.skip(at as int) =~= Seq::empty());
        path
    }
}

/// The views of a list of crumbs.
pub open spec fn crumb_lists(list: Seq<Vec<usize>>) -> Seq<Seq<usize>> {
    list.map_values(|crumbs: Vec<usize>| crumbs@)
}

/// The view of optional crumbs.
pub open spec fn opt_crumbs(crumbs: Option<Vec<usize>>) -> Option<Seq<usize>> {
    match crumbs {
        Some(crumbs) => Some(crumbs@),
        None => None,
    }
}

/// The crumbs of a node's parent; the root is its own.
pub open spec fn parent_of(crumbs: Seq<usize>) -> Seq<usize> {
    if crumbs.len() == 0 {
        crumbs
    } else {
        crumbs.drop_last()
    }
}

/// The same crumbs again.
pub fn copy_crumbs(crumbs: &[usize]) -> (r: Vec<usize>)
    ensures
        r@ == crumbs@,
{
    first_crumbs(crumbs, crumbs.len())
}

/// The first `len` crumbs.
pub fn first_crumbs(crumbs: &[usize], len: usize) -> (r: Vec<usize>)
    requires
        len <= crumbs@.len(),
    ensures
        r@ == crumbs@.take(len as int),
        len == crumbs@.len() ==> r@ == crumbs@,
{
    let mut out: Vec<usize> = Vec::new();
    let mut at: usize = 0;
    while at < len
        invariant
            at <= len <= crumbs@.len(),
            out@ == crumbs@.take(at as int),
        decreases len - at,
    {
        assert(crumbs@.take(at + 1) =~= crumbs@.take(at as int).push(crumbs@[at as int]));
        out.push(crumbs[at]);
        at = at + 1;
    }
    assert(crumbs@.take(crumbs@.len() as int) =~= crumbs@);
    out
}

/// The crumbs of the parent.
pub fn parent_crumbs_of(crumbs: &[usize]) -> (r: Vec<usize>)
    ensures
        r@ == parent_of(crumbs@),
{
    if crumbs.len() == 0 {
        copy_crumbs(crumbs)
    } else {
        let r = first_crumbs(crumbs, crumbs.len() - 1);
        assert(crumbs@.take(crumbs@.len() - 1) =~= crumbs@.drop_last());
        r
    }
}

/// The crumbs of the child at `index`.
pub fn child_crumbs(crumbs: &[usize], index: usize) -> (r: Vec<usize>)
    ensures
        r@ == crumbs@.push(index),
{
    let mut out = copy_crumbs(crumbs);
    out.push(index);
    out
}

/// The two are the same crumbs.
pub fn same_crumbs(a: &[usize], b: &[usize]) -> (r: bool)
    ensures
        r == (a@ == b@),
{
    a.len() == b.len() && crumbs_start_with(a, b)
}

/// `crumbs` lead to what `head` lead to, or below it.
pub fn crumbs_start_with(crumbs: &[usize], head: &[usize]) -> (r: bool)
    ensures
        r == head@.is_prefix_of(crumbs@),
        crumbs@.len() == head@.len() ==> r == (crumbs@ == head@),
{
    if crumbs.len() < head.len() {
        return false;
    }
    let mut at: usize = 0;
    while at < head.len()
        invariant
            at <= head@.len() <= crumbs@.len(),
            forall|i: int| 0 <= i < at ==> crumbs@[i] == head@[i],
        decreases head@.len() - at,
    {
        if crumbs[at] != head[at] {
            proof {
                if head@.is_prefix_of(crumbs@) {
                    assert(crumbs@.subrange(0, head@.len() as int)[at as int] == head@[at as int]);
                }
            }
            return false;
        }
        at = at + 1;
    }
    proof {
        assert(head@ =~= crumbs@.subrange(0, head@.len() as int));
        if crumbs@.len() == head@.len() {
            assert(crumbs@ =~= head@);
        }
    }
    true
}

/// Where `wanted` first stands in `list`.
pub open spec fn position(list: Seq<usize>, wanted: usize) -> Option<int>
    decreases list.len(),
{
    if list.len() == 0 {
        None
    } else {
        match position(list.drop_last(), wanted) {
            Some(at) => Some(at),
            None => if list.last() == wanted {
                Some(list.len() - 1)
            } else {
                None
            },
        }
    }
}

/// A first occurrence stays the first when more follows.
pub proof fn lemma_position(list: Seq<usize>, wanted: usize, len: int)
    requires
        0 <= len <= list.len(),
    ensures
        match position(list.take(len), wanted) {
            Some(at) => position(list, wanted) == Some(at) && 0 <= at < len && list[at] == wanted,
            None => forall|i: int| 0 <= i < len ==> list[i] != wanted,
        },
    decreases list.len(),
{
    if len == list.len() {
        assert(list.take(len) =~= list);
        if list.len() > 0 {
            let short = list.drop_last();
            lemma_position(short, wanted, len - 1);
            assert(short.take(len - 1) =~= short);
            assert forall|i: int| 0 <= i < len - 1 implies short[i] == #[trigger] list[i] by {}
        }
    } else {
        let short = list.drop_last();
        assert(short.take(len) =~= list.take(len));
        lemma_position(short, wanted, len);
        assert forall|i: int| 0 <= i < len implies short[i] == #[trigger] list[i] by {}
    }
}

/// Where `wanted` first stands in `list`.
pub fn position_of(list: &[usize], wanted: usize) -> (r: Option<usize>)
    ensures
        match r {
            Some(at) => position(list@, wanted) == Some(at as int),
            None => position(list@, wanted) is None,
        },
{
    let mut at: usize = 0;
    assert(list@.take(0) =~= Seq::empty());
    while at < list.len()
        invariant
            at <= list@.len(),
            position(list@.take(at as int), wanted) is None,
        decreases list@.len() - at,
    {
        proof {
            assert(list@.take(at + 1).drop_last() =~= list@.take(at as int));
        }
        if list[at] == wanted {
            proof {
                lemma_position(list@, wanted, at + 1);
            }
            return Some(at);
        }
        at = at + 1;
    }
    assert(list@.take(at as int) =~= list@);
    None
}

/// The first child called `name`.
pub open spec fn child_named(children: Seq<Node>, name: Seq<char>) -> Option<usize>
    decreases children.len(),
{
    if children.len() == 0 {
        None
    } else {
        match child_named(children.drop_last(), name) {
            Some(at) => Some(at),
            None => if children.last().name() == name {
                Some((children.len() - 1) as usize)
            } else {
                None
            },
        }
    }
}

/// A first match stays the first when more children follow.
pub proof fn lemma_child_named(children: Seq<Node>, name: Seq<char>, len: int)
    requires
        0 <= len <= children.len() <= usize::MAX,
    ensures
        match child_named(children.take(len), name) {
            Some(at) => {
                &&& child_named(children, name) == Some(at)
                &&& at < len
                &&& children[at as int].name() == name
                &&& forall|i: int| 0 <= i < at ==> (#[trigger] children[i]).name() != name
            },
            None => forall|i: int| 0 <= i < len ==> (#[trigger] children[i]).name() != name,
        },
    decreases children.len(),
{
    if len == children.len() {
        assert(children.take(len) =~= children);
        if children.len() > 0 {
            let short = children.drop_last();
            lemma_child_named(short, name, len - 1);
            assert(short.take(len - 1) =~= short);
            assert forall|i: int| 0 <= i < len - 1 implies short[i] == #[trigger] children[i] by {}
        }
    } else {
        let short = children.drop_last();
        assert(short.take(len) =~= children.take(len));
        lemma_child_named(short, name, len);
        assert forall|i: int| 0 <= i < len implies short[i] == #[trigger] children[i] by {}
    }
}

/// The crumbs that the components `way` spell out, child by child.
pub open spec fn find_along(node: Node, way: Seq<Seq<u8>>) -> Option<Seq<usize>>
    decreases way.len(),
{
    if way.len() == 0 {
        Some(Seq::empty())
    } else {
        match child_named(node.children@, text::lossy_text(way[0])) {
            Some(index) => match find_along(node.children@[index as int], way.skip(1)) {
                Some(rest) => Some(seq![index] + rest),
                None => None,
            },
            None => None,
        }
    }
}

impl Node {
    /// The first child called `name`.
    pub fn child_named(&self, name: &str) -> (r: Option<usize>)
        ensures
            r == child_named(self.children@, name@),
            r matches Some(at) ==> at < self.children@.len(),
    {
        let ghost children = self.children@;
        let count = self.children.len();
        let mut at: usize = 0;
        assert(children.take(0) =~= Seq::empty());
        while at < count
            invariant
                at <= count == children.len(),
                children == self.children@,
                child_named(children.take(at as int), name@) is None,
            decreases count - at,
        {
            proof {
                assert(children.take(at + 1).drop_last() =~= children.take(at as int));
            }
            if text::same(self.children[at].shown_name().as_str(), name) {
                proof {
                    lemma_child_named(children, name@, at + 1);
                }
                return Some(at);
            }
            at = at + 1;
        }
        assert(children.take(at as int) =~= children);
        None
    }

    /// The crumbs that the components `way[from..]` spell out.
    pub fn find_along(&self, way: &Vec<Vec<u8>>, from: usize) -> (r: Option<Vec<usize>>)
        requires
            from <= way@.len(),
        ensures
            opt_crumbs(r) == find_along(*self, paths::byte_lists(way@).skip(from as int)),
    {
        let ghost all = paths::byte_lists(way@).skip(from as int);
        let mut node: &Node = self;
        let mut crumbs: Vec<usize> = Vec::new();
        let mut at: usize = from;
        proof {
            assert(all.skip(0) =~= all);
            match find_along(*self, all) {
                Some(rest) => {
                    assert(crumbs@ + rest =~= rest);
                },
                None => {},
            }
        }
        while at < way.len()
            invariant
                from <= at <= way@.len(),
                all == paths::byte_lists(way@).skip(from as int),
                match find_along(*node, all.skip(at - from)) {
                    Some(rest) => find_along(*self, all) == Some(crumbs@ + rest),
                    None => find_along(*self, all) is None,
                },
            decreases way@.len() - at,
        {
            let ghost left = all.skip(at - from);
            proof {
                assert(left[0] == way@[at as int]@);
                assert(left.skip(1) =~= all.skip(at + 1 - from));
            }
            let name = text::lossy(way[at].as_slice());
            match node.child_named(name.as_str()) {
                Some(index) => {
                    let ghost before = crumbs@;
                    crumbs.push(index);
                    node = &node.children[index];
                    proof {
                        match find_along(*node, all.skip(at + 1 - from)) {
                            Some(rest) => {
                                assert(before + (seq![index] + rest) =~= crumbs@ + rest);
                            },
                            None => {},
                        }
                    }
                },
                None => {
                    return None;
                },
            }
            at = at + 1;
        }
        proof {
            assert(all.skip(at - from) =~= Seq::empty());
            assert(crumbs@ + Seq::<usize>::empty() =~= crumbs@);
        }
        Some(crumbs)
    }
}

/// Once the crumbs lead nowhere, more of them lead nowhere too.
pub proof fn lemma_resolve_none(node: Node, crumbs: Seq<usize>, short: int, long: int)
    requires
        0 <= short <= long <= crumbs.len(),
        resolve(node, crumbs.take(short)) is None,
    ensures
        resolve(node, crumbs.take(long)) is None,
    decreases long - short,
{
    if short < long {
        assert(crumbs.take(long) =~= crumbs.take(long - 1).push(crumbs[long - 1]));
        lemma_resolve_none(node, crumbs, short, long - 1);
        lemma_resolve_push(node, crumbs.take(long - 1), crumbs[long - 1]);
    }
}

} // verus!
