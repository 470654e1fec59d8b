//! Paths as the filesystem has them: bytes, not text.
//!
//! A Unix path is a byte string whose components are separated by slashes.
//! Comparison, prefixes and parents go by components, so a doubled slash, a
//! trailing one or an inner `.` changes nothing.

use crate::text;
use vstd::prelude::*;

verus! {

/// `/`
pub const SLASH: u8 = 0x2f;

/// `.`
pub const DOT: u8 = 0x2e;

/// A path, by its bytes.
#[derive(Debug)]
pub struct OsPath {
    pub bytes: Vec<u8>,
}

impl View for OsPath {
    type V = Seq<u8>;

    open spec fn view(&self) -> Seq<u8> {
        self.bytes@
    }
}

/// The view of an optional path.
pub open spec fn opt_path(path: Option<OsPath>) -> Option<Seq<u8>> {
    match path {
        Some(path) => Some(path@),
        None => None,
    }
}

/// The path starts at the filesystem's root.
pub open spec fn rooted(path: Seq<u8>) -> bool {
    path.len() > 0 && path[0] == SLASH
}

/// Where the last slash is, or -1.
pub open spec fn last_slash(path: Seq<u8>) -> int
    decreases path.len(),
{
    if path.len() == 0 {
        -1
    } else if path.last() == SLASH {
        path.len() - 1
    } else {
        last_slash(path.drop_last())
    }
}

/// Whether the stretch `from..to` between two slashes is a component: it is
/// not empty, and a lone `.` counts only at the very start.
pub open spec fn counts(path: Seq<u8>, from: int, to: int) -> bool {
    from < to && !(to == from + 1 && path[from] == DOT && from > 0)
}

/// Where each component below the root ends.
pub open spec fn part_ends(path: Seq<u8>) -> Seq<int>
    decreases path.len(),
{
    proof {
        lemma_last_slash(path);
    }
    let cut = last_slash(path);
    let before = if cut < 0 {
        Seq::empty()
    } else {
        part_ends(path.take(cut))
    };
    if counts(path, cut + 1, path.len() as int) {
        before.push(path.len() as int)
    } else {
        before
    }
}

/// The components below the root.
pub open spec fn parts(path: Seq<u8>) -> Seq<Seq<u8>>
    decreases path.len(),
{
    proof {
        lemma_last_slash(path);
    }
    let cut = last_slash(path);
    let before = if cut < 0 {
        Seq::empty()
    } else {
        parts(path.take(cut))
    };
    if counts(path, cut + 1, path.len() as int) {
        before.push(path.skip(cut + 1))
    } else {
        before
    }
}

/// Every component, the root among them as `/`.
pub open spec fn components(path: Seq<u8>) -> Seq<Seq<u8>> {
    if rooted(path) {
        seq![seq![SLASH]] + parts(path)
    } else {
        parts(path)
    }
}

/// The two name the same place, component by component.
pub open spec fn same_path(a: Seq<u8>, b: Seq<u8>) -> bool {
    components(a) == components(b)
}

/// `path` is `base` or somewhere below it.
pub open spec fn starts_with(path: Seq<u8>, base: Seq<u8>) -> bool {
    components(base).is_prefix_of(components(path))
}

/// `..`
pub open spec fn up() -> Seq<u8> {
    seq![DOT, DOT]
}

/// The last component, unless the path ends in the root, `.` or `..`.
pub open spec fn file_name(path: Seq<u8>) -> Option<Seq<u8>> {
    let all = parts(path);
    if all.len() > 0 && all.last() != seq![DOT] && all.last() != up() {
        Some(all.last())
    } else {
        None
    }
}

/// The path's beginning that holds its first `k` components.
pub open spec fn ancestor(path: Seq<u8>, k: int) -> Seq<u8> {
    if k > 0 {
        path.take(part_ends(path)[k - 1])
    } else if rooted(path) {
        path.take(1)
    } else {
        path.take(0)
    }
}

/// `name` below `path`.
pub open spec fn join(path: Seq<u8>, name: Seq<u8>) -> Seq<u8> {
    if rooted(name) {
        name
    } else if path.len() == 0 || path.last() == SLASH {
        path + name
    } else {
        path.push(SLASH) + name
    }
}

/// How a path is shown by its own name: the last component, or the whole
/// path when it has none.
pub open spec fn label(path: Seq<u8>) -> Seq<char> {
    match file_name(path) {
        Some(name) => text::lossy_text(name),
        None => text::lossy_text(path),
    }
}

/// The last slash is the last one.
pub proof fn lemma_last_slash(path: Seq<u8>)
    ensures
        -1 <= last_slash(path) < path.len() || path.len() == 0,
        path.len() == 0 ==> last_slash(path) == -1,
        last_slash(path) >= 0 ==> path[last_slash(path)] == SLASH,
        forall|i: int| last_slash(path) < i < path.len() ==> path[i] != SLASH,
    decreases path.len(),
{
    if path.len() > 0 && path.last() != SLASH {
        lemma_last_slash(path.drop_last());
        assert forall|i: int| last_slash(path) < i < path.len() implies path[i] != SLASH by {
            if i < path.len() - 1 {
                assert(path.drop_last()[i] != SLASH);
            }
        }
    }
}

/// A slash with none behind it is the last one.
pub proof fn lemma_last_slash_at(path: Seq<u8>, cut: int)
    requires
        -1 <= cut < path.len() || (path.len() == 0 && cut == -1),
        cut >= 0 ==> path[cut] == SLASH,
        forall|i: int| cut < i < path.len() ==> path[i] != SLASH,
    ensures
        last_slash(path) == cut,
{
    lemma_last_slash(path);
    let found = last_slash(path);
    if found < cut {
        assert(path[cut] != SLASH);
    } else if found > cut {
        assert(path[found] != SLASH);
    }
}

/// Each component has its end.
pub proof fn lemma_part_ends(path: Seq<u8>)
    ensures
        part_ends(path).len() == parts(path).len(),
        forall|i: int|
            0 <= i < part_ends(path).len() ==> 0 < #[trigger] part_ends(path)[i] <= path.len(),
    decreases path.len(),
{
    lemma_last_slash(path);
    let cut = last_slash(path);
    if cut >= 0 {
        lemma_part_ends(path.take(cut));
    }
}

/// A component below the root: not empty, without a slash in it.
pub proof fn lemma_parts(path: Seq<u8>)
    ensures
        forall|i: int|
            0 <= i < parts(path).len() ==> {
                &&& (#[trigger] parts(path)[i]).len() > 0
                &&& !parts(path)[i].contains(SLASH)
            },
    decreases path.len(),
{
    lemma_last_slash(path);
    let cut = last_slash(path);
    if cut >= 0 {
        lemma_parts(path.take(cut));
    }
    assert forall|i: int| 0 <= i < parts(path).len() implies {
        &&& (#[trigger] parts(path)[i]).len() > 0
        &&& !parts(path)[i].contains(SLASH)
    } by {
        let whole = parts(path)[i];
        if counts(path, cut + 1, path.len() as int) && i == parts(path).len() - 1 {
            assert(whole == path.skip(cut + 1));
            assert forall|j: int| 0 <= j < whole.len() implies whole[j] != SLASH by {
                assert(path[cut + 1 + j] != SLASH);
            }
        } else if cut >= 0 {
            assert(whole == parts(path.take(cut))[i]);
        }
    }
}

/// A name a directory entry can have.
pub open spec fn entry_name(name: Seq<u8>) -> bool {
    &&& name.len() > 0
    &&& !name.contains(SLASH)
    &&& name != seq![DOT]
}

/// Joining an entry's name adds one component, the name.
pub proof fn lemma_join(path: Seq<u8>, name: Seq<u8>)
    requires
        entry_name(name),
    ensures
        components(join(path, name)) == components(path).push(name),
{
    let whole = join(path, name);
    assert(!rooted(name)) by {
        if rooted(name) {
            assert(name.contains(name[0]));
        }
    }
    assert forall|i: int| 0 <= i < name.len() implies name[i] != SLASH by {
        if name[i] == SLASH {
            assert(name.contains(name[i]));
        }
    }
    if path.len() == 0 {
        assert(whole =~= name);
        lemma_last_slash_at(whole, -1);
        assert(counts(whole, 0, whole.len() as int));
        assert(whole.skip(0) =~= name);
        assert(parts(path) =~= Seq::empty());
        assert(components(whole) =~= components(path).push(name));
    } else {
        let cut = if path.last() == SLASH {
            path.len() - 1
        } else {
            path.len() as int
        };
        assert(whole[cut] == SLASH);
        assert forall|i: int| cut < i < whole.len() implies whole[i] != SLASH by {
            assert(whole[i] == name[i - cut - 1]);
        }
        lemma_last_slash_at(whole, cut);
        assert(whole.skip(cut + 1) =~= name);
        assert(counts(whole, cut + 1, whole.len() as int)) by {
            if whole.len() == cut + 2 && whole[cut + 1] == DOT {
                assert(name =~= seq![DOT]);
            }
        }
        lemma_last_slash(path);
        if path.last() == SLASH {
            assert(whole.take(cut) =~= path.take(cut));
            assert(last_slash(path) == cut);
            assert(parts(path) =~= parts(path.take(cut)));
        } else {
            assert(whole.take(cut) =~= path);
        }
        assert(parts(whole) =~= parts(path).push(name));
        assert(whole[0] == path[0]);
        assert(components(whole) =~= components(path).push(name));
    }
}

/// Two byte strings are the same.
pub fn same_bytes(a: &[u8], b: &[u8]) -> (r: bool)
    ensures
        r == (a@ == b@),
{
    if a.len() != b.len() {
        return false;
    }
    let mut at: usize = 0;
    while at < a.len()
        invariant
            at <= a@.len(),
            a@.len() == b@.len(),
            forall|i: int| 0 <= i < at ==> a@[i] == b@[i],
        decreases a@.len() - at,
    {
        if a[at] != b[at] {
            return false;
        }
        at = at + 1;
    }
    assert(a@ =~= b@);
    true
}

/// The bytes `from..to`, copied.
pub fn bytes_between(bytes: &[u8], from: usize, to: usize) -> (r: Vec<u8>)
    requires
        from <= to <= bytes@.len(),
    ensures
        r@ == bytes@.subrange(from as int, to as int),
{
    let mut out: Vec<u8> = Vec::new();
    let mut at: usize = from;
    assert(bytes@.subrange(from as int, from as int) =~= Seq::<u8>::empty());
    while at < to
        invariant
            from <= at <= to <= bytes@.len(),
            out@ == bytes@.subrange(from as int, at as int),
        decreases to - at,
    {
        assert(bytes@.subrange(from as int, at + 1) =~= bytes@.subrange(from as int, at as int).push(
            bytes@[at as int],
        ));
        out.push(bytes[at]);
        at = at + 1;
    }
    out
}

/// The views of a list of byte strings.
pub open spec fn byte_lists(list: Seq<Vec<u8>>) -> Seq<Seq<u8>> {
    list.map_values(|bytes: Vec<u8>| bytes@)
}

impl OsPath {
    /// The path whose bytes are `bytes`.
    pub fn from_bytes(bytes: Vec<u8>) -> (r: OsPath)
        ensures
            r@ == bytes@,
    {
        OsPath { bytes }
    }

    /// The same path again.
    pub fn copy(&self) -> (r: OsPath)
        ensures
            r@ == self@,
    {
        let bytes = bytes_between(self.bytes.as_slice(), 0, self.bytes.len());
        assert(bytes@ =~= self@);
        OsPath { bytes }
    }

    /// Whether the path starts at the root.
    pub fn is_rooted(&self) -> (r: bool)
        ensures
            r == rooted(self@),
    {
        self.bytes.len() > 0 && self.bytes[0] == SLASH
    }

    /// The components below the root, and where each ends.
    fn split(&self) -> (r: (Vec<Vec<u8>>, Vec<usize>))
        ensures
            byte_lists(r.0@) == parts(self@),
            r.1@.map_values(|end: usize| end as int) == part_ends(self@),
            r.0@.len() == r.1@.len(),
    {
        let ghost path = self@;
        let len = self.bytes.len();
        let mut found: Vec<Vec<u8>> = Vec::new();
        let mut ends: Vec<usize> = Vec::new();
        let mut start: usize = 0;
        let mut at: usize = 0;
        proof {
            assert(byte_lists(found@) =~= Seq::empty());
        }
        loop
            invariant_except_break
                path == self@,
                len == path.len(),
                start <= at <= len,
                start > 0 ==> path[start - 1] == SLASH,
                forall|i: int| start <= i < at ==> path[i] != SLASH,
                byte_lists(found@) == if start == 0 {
                    Seq::empty()
                } else {
                    parts(path.take(start - 1))
                },
                ends@.map_values(|end: usize| end as int) == if start == 0 {
                    Seq::empty()
                } else {
                    part_ends(path.take(start - 1))
                },
                found@.len() == ends@.len(),
            ensures
                byte_lists(found@) == parts(path),
                ends@.map_values(|end: usize| end as int) == part_ends(path),
                found@.len() == ends@.len(),
            decreases len - at + 1,
        {
            let stop = at == len || self.bytes[at] == SLASH;
            if stop {
                let ghost head = path.take(at as int);
                proof {
                    lemma_last_slash_at(head, start - 1);
                    if start > 0 {
                        assert(head.take(start - 1) =~= path.take(start - 1));
                    }
                    assert(head.skip(start as int) =~= path.subrange(start as int, at as int));
                }
                let ghost found0 = found@;
                let ghost ends0 = ends@;
                if start < at && !(at == start + 1 && self.bytes[start] == DOT && start > 0) {
                    let piece = bytes_between(self.bytes.as_slice(), start, at);
                    found.push(piece);
                    ends.push(at);
                    proof {
                        assert(byte_lists(found@) =~= byte_lists(found0).push(piece@));
                        assert(ends@.map_values(|end: usize| end as int) =~= ends0.map_values(
                            |end: usize| end as int,
                        ).push(at as int));
                    }
                }
                proof {
                    assert(byte_lists(found@) =~= parts(head));
                    assert(ends@.map_values(|end: usize| end as int) =~= part_ends(head));
                }
                if at == len {
                    proof {
                        assert(head =~= path);
                    }
                    break;
                }
                start = at + 1;
                proof {
                    assert(path.take(start - 1) =~= head);
                }
            }
            at = at + 1;
        }
        (found, ends)
    }

    /// Every component, the root first as `/`.
    pub fn components(&self) -> (r: Vec<Vec<u8>>)
        ensures
            byte_lists(r@) == components(self@),
    {
        let (mut below, _ends) = self.split();
        if self.is_rooted() {
            let mut root: Vec<u8> = Vec::new();
            root.push(SLASH);
            let ghost before = below@;
            below.insert(0, root);
            proof {
                assert(root@ =~= seq![SLASH]);
                assert(byte_lists(below@) =~= seq![seq![SLASH]] + byte_lists(before));
            }
        }
        below
    }

    /// The two paths name the same place.
    pub fn same(&self, other: &OsPath) -> (r: bool)
        ensures
            r == same_path(self@, other@),
    {
        let a = self.components();
        let b = other.components();
        if a.len() != b.len() {
            assert(byte_lists(a@).len() != byte_lists(b@).len());
            return false;
        }
        let r = prefix_of(&a, &b);
        proof {
            if r {
                assert(byte_lists(a@) =~= byte_lists(b@));
            } else if byte_lists(a@) == byte_lists(b@) {
                assert(byte_lists(a@).is_prefix_of(byte_lists(b@)));
            }
        }
        r
    }

    /// Whether `self` is `base` or somewhere below it.
    pub fn starts_with(&self, base: &OsPath) -> (r: bool)
        ensures
            r == starts_with(self@, base@),
    {
        let all = self.components();
        let head = base.components();
        prefix_of(&head, &all)
    }

    /// The last component, unless the path ends in the root, `.` or `..`.
    pub fn file_name(&self) -> (r: Option<Vec<u8>>)
        ensures
            match r {
                Some(name) => file_name(self@) == Some(name@),
                None => file_name(self@) is None,
            },
    {
        let (mut below, _ends) = self.split();
        let ghost before = below@;
        match below.pop() {
            Some(name) => {
                proof {
                    assert(before.len() == parts(self@).len());
                    assert(name@ == byte_lists(before)[before.len() - 1]);
                }
                let dot = name.len() == 1 && name[0] == DOT;
                let dots = name.len() == 2 && name[0] == DOT && name[1] == DOT;
                proof {
                    assert(dot == (name@ =~= seq![DOT]));
                    assert(dots == (name@ =~= up()));
                }
                if dot || dots {
                    None
                } else {
                    Some(name)
                }
            },
            None => {
                assert(parts(self@).len() == 0);
                None
            },
        }
    }

    /// The paths above this one, the root first: every proper ancestor.
    pub fn above(&self) -> (r: Vec<OsPath>)
        ensures
            r@.len() == parts(self@).len(),
            forall|k: int| 0 <= k < r@.len() ==> (#[trigger] r@[k])@ == ancestor(self@, k),
    {
        let (below, ends) = self.split();
        let ghost path = self@;
        proof {
            lemma_part_ends(path);
            assert(byte_lists(below@).len() == below@.len());
            assert(ends@.map_values(|end: usize| end as int).len() == ends@.len());
        }
        let mut out: Vec<OsPath> = Vec::new();
        let mut k: usize = 0;
        while k < ends.len()
            invariant
                k <= ends@.len(),
                path == self@,
                ends@.map_values(|end: usize| end as int) == part_ends(path),
                forall|i: int|
                    0 <= i < part_ends(path).len() ==> 0 < #[trigger] part_ends(path)[i]
                        <= path.len(),
                out@.len() == k,
                forall|i: int| 0 <= i < k ==> (#[trigger] out@[i])@ == ancestor(path, i),
            decreases ends@.len() - k,
        {
            let end: usize = if k > 0 {
                proof {
                    assert(ends@.map_values(|end: usize| end as int)[k - 1] == ends@[k - 1] as int);
                }
                ends[k - 1]
            } else if self.is_rooted() {
                1
            } else {
                0
            };
            let bytes = bytes_between(self.bytes.as_slice(), 0, end);
            proof {
                assert(bytes@ =~= path.take(end as int));
            }
            out.push(OsPath { bytes });
            k = k + 1;
        }
        out
    }

    /// `name` below this path.
    pub fn join(&self, name: &Vec<u8>) -> (r: OsPath)
        ensures
            r@ == join(self@, name@),
    {
        if name.len() > 0 && name[0] == SLASH {
            let bytes = bytes_between(name.as_slice(), 0, name.len());
            assert(bytes@ =~= name@);
            return OsPath { bytes };
        }
        let mut bytes = bytes_between(self.bytes.as_slice(), 0, self.bytes.len());
        assert(bytes@ =~= self@);
        if bytes.len() > 0 && bytes[bytes.len() - 1] != SLASH {
            bytes.push(SLASH);
        }
        let ghost head = bytes@;
        let mut at: usize = 0;
        while at < name.len()
            invariant
                at <= name@.len(),
                bytes@ == head + name@.take(at as int),
            decreases name@.len() - at,
        {
            bytes.push(name[at]);
            proof {
                assert(head + name@.take(at + 1) =~= (head + name@.take(at as int)).push(
                    name@[at as int],
                ));
            }
            at = at + 1;
        }
        proof {
            assert(name@.take(name@.len() as int) =~= name@);
            assert(head + name@.take(0) =~= head);
        }
        OsPath { bytes }
    }

    /// The whole path as text.
    pub fn display(&self) -> (r: String)
        ensures
            r@ == text::lossy_text(self@),
            self@.len() > 0 ==> r@.len() > 0,
    {
        text::lossy(self.bytes.as_slice())
    }

    /// The path's own name, or the whole path when it has none. Only an empty
    /// path has an empty label.
    pub fn label(&self) -> (r: String)
        ensures
            r@ == label(self@),
            self@.len() > 0 ==> r@.len() > 0,
    {
        proof {
            lemma_parts(self@);
        }
        match self.file_name() {
            Some(name) => text::lossy(name.as_slice()),
            None => self.display(),
        }
    }
}

/// Whether the byte strings of `head` begin `all`.
pub fn prefix_of(head: &Vec<Vec<u8>>, all: &Vec<Vec<u8>>) -> (r: bool)
    ensures
        r == byte_lists(head@).is_prefix_of(byte_lists(all@)),
{
    let ghost a = byte_lists(head@);
    let ghost b = byte_lists(all@);
    if head.len() > all.len() {
        return false;
    }
    let mut at: usize = 0;
    while at < head.len()
        invariant
            at <= head@.len() <= all@.len(),
            a == byte_lists(head@),
            b == byte_lists(all@),
            forall|i: int| 0 <= i < at ==> a[i] == b[i],
        decreases head@.len() - at,
    {
        if !same_bytes(head[at].as_slice(), all[at].as_slice()) {
            proof {
                assert(a[at as int] != b[at as int]);
                if a.is_prefix_of(b) {
                    assert(b.subrange(0, a.len() as int)[at as int] == b[at as int]);
                }
            }
            return false;
        }
        at = at + 1;
    }
    assert(a =~= b.subrange(0, a.len() as int));
    true
}

} // verus!
