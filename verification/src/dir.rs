//! A directory: the id of its parent and a table of entries in the order of
//! their names.

use vstd::prelude::*;
use vstd::string::StringSliceAdditionalSpecFns;
use vstd::utf8::encode_utf8;
use crate::name::{lemma_lex_asymmetric, lemma_lex_transitive, lex_lt, order, Order};
use crate::path::is_plain_name;

verus! {

/// The name of a node in its filesystem.  An id is given once: that of a
/// removed node is not given to another.
pub type NodeId = usize;

/// An entry of a directory: a name and the node that it names.
pub struct EntryView {
    /// The bytes of the name.
    pub name: Seq<u8>,
    /// The node.
    pub node: NodeId,
}

/// What a directory holds.
pub struct DirView {
    /// The directory that holds this one, if any does.
    pub parent: Option<NodeId>,
    /// The entries, in the order of their names.
    pub entries: Seq<EntryView>,
}

/// The number of entries of `entries` whose name comes before `name`.
pub open spec fn rank(entries: Seq<EntryView>, name: Seq<u8>) -> int
    decreases entries.len(),
{
    if entries.len() == 0 {
        0
    } else {
        rank(entries.drop_last(), name) + if lex_lt(entries.last().name, name) {
            1int
        } else {
            0int
        }
    }
}

impl DirView {
    /// Whether each entry's name comes before the next one's.
    pub open spec fn sorted(self) -> bool {
        forall|i: int, j: int|
            0 <= i < j < self.entries.len() ==> lex_lt(
                #[trigger] self.entries[i].name,
                #[trigger] self.entries[j].name,
            )
    }

    /// Whether every name can name an entry.
    pub open spec fn plain(self) -> bool {
        forall|i: int| 0 <= i < self.entries.len() ==> is_plain_name(#[trigger] self.entries[i].name)
    }

    /// Whether the table is in order and all its names can name an entry.
    pub open spec fn wf(self) -> bool {
        self.sorted() && self.plain()
    }

    /// Whether some entry has the name `name`.
    pub open spec fn has(self, name: Seq<u8>) -> bool {
        exists|i: int| 0 <= i < self.entries.len() && #[trigger] self.entries[i].name == name
    }

    /// The index of an entry with the name `name`, if there is one.
    pub open spec fn index_of(self, name: Seq<u8>) -> int {
        choose|i: int| 0 <= i < self.entries.len() && #[trigger] self.entries[i].name == name
    }

    /// The node that `name` names, if it names one.
    pub open spec fn child(self, name: Seq<u8>) -> Option<NodeId> {
        if self.has(name) {
            Some(self.entries[self.index_of(name)].node)
        } else {
            None
        }
    }

    /// Whether some entry names the node `node`.
    pub open spec fn holds(self, node: NodeId) -> bool {
        exists|i: int| 0 <= i < self.entries.len() && #[trigger] self.entries[i].node == node
    }

    /// The directory with one more entry, at the place that the order of
    /// names gives it.
    pub open spec fn with_entry(self, e: EntryView) -> DirView {
        DirView { parent: self.parent, entries: self.entries.insert(rank(self.entries, e.name), e) }
    }

    /// The directory without its entry at index `i`.
    pub open spec fn without(self, i: int) -> DirView {
        DirView { parent: self.parent, entries: self.entries.remove(i) }
    }
}

/// An index before which all names come before `name`, and from which on
/// none does, is the rank of `name`.
pub proof fn lemma_rank_at(entries: Seq<EntryView>, name: Seq<u8>, k: int)
    requires
        0 <= k <= entries.len(),
        forall|i: int| 0 <= i < k ==> lex_lt(#[trigger] entries[i].name, name),
        forall|i: int| k <= i < entries.len() ==> !lex_lt(#[trigger] entries[i].name, name),
    ensures
        rank(entries, name) == k,
    decreases entries.len(),
{
    if entries.len() > 0 {
        let front = entries.drop_last();
        let n = entries.len() - 1;
        assert(entries.last() == entries[n]);
        assert forall|i: int| 0 <= i < front.len() implies front[i] == entries[i] by {}
        if k == entries.len() {
            lemma_rank_at(front, name, k - 1);
        } else {
            lemma_rank_at(front, name, k);
        }
    }
}

/// In a table in order, the index of an entry is known by its name.
pub proof fn lemma_index_unique(d: DirView, i: int)
    requires
        d.sorted(),
        0 <= i < d.entries.len(),
    ensures
        d.has(d.entries[i].name),
        d.index_of(d.entries[i].name) == i,
        d.child(d.entries[i].name) == Some(d.entries[i].node),
{
    let name = d.entries[i].name;
    let j = d.index_of(name);
    if j < i {
        lemma_lex_asymmetric(d.entries[j].name, d.entries[i].name);
    } else if i < j {
        lemma_lex_asymmetric(d.entries[i].name, d.entries[j].name);
    }
}

/// In a table in order, the rank of a name splits the table: the names
/// before it come before the name, the names from it on do not.
pub proof fn lemma_rank_splits(d: DirView, name: Seq<u8>)
    requires
        d.sorted(),
    ensures
        0 <= rank(d.entries, name) <= d.entries.len(),
        forall|i: int| 0 <= i < rank(d.entries, name) ==> lex_lt(#[trigger] d.entries[i].name, name),
        forall|i: int|
            rank(d.entries, name) <= i < d.entries.len() ==> !lex_lt(
                #[trigger] d.entries[i].name,
                name,
            ),
    decreases d.entries.len(),
{
    let entries = d.entries;
    if entries.len() > 0 {
        let n = entries.len() - 1;
        let front = DirView { parent: d.parent, entries: entries.drop_last() };
        assert forall|i: int| 0 <= i < front.entries.len() implies front.entries[i]
            == entries[i] by {}
        assert(front.sorted()) by {
            assert forall|i: int, j: int| 0 <= i < j < front.entries.len() implies lex_lt(
                #[trigger] front.entries[i].name,
                #[trigger] front.entries[j].name,
            ) by {
                assert(lex_lt(entries[i].name, entries[j].name));
            }
        }
        lemma_rank_splits(front, name);
        let k = rank(front.entries, name);
        assert(entries.last() == entries[n]);
        if lex_lt(entries[n].name, name) {
            assert forall|i: int| 0 <= i < n implies lex_lt(#[trigger] entries[i].name, name) by {
                lemma_lex_transitive(entries[i].name, entries[n].name, name);
            }
            lemma_rank_at(front.entries, name, n);
        }
    }
}

/// A table in order stays in order when an entry with a new name is added
/// at the rank of its name; the entries before the rank keep their place,
/// the others move up by one.
pub proof fn lemma_with_entry(d: DirView, e: EntryView)
    requires
        d.sorted(),
        !d.has(e.name),
    ensures
        0 <= rank(d.entries, e.name) <= d.entries.len(),
        d.with_entry(e).sorted(),
        d.with_entry(e).entries.len() == d.entries.len() + 1,
        d.with_entry(e).entries[rank(d.entries, e.name)] == e,
        forall|i: int| 0 <= i < rank(d.entries, e.name) ==> d.with_entry(e).entries[i] == d.entries[i],
        forall|i: int|
            rank(d.entries, e.name) <= i < d.entries.len() ==> d.with_entry(e).entries[i + 1]
                == d.entries[i],
{
    lemma_rank_splits(d, e.name);
    let k = rank(d.entries, e.name);
    let n = d.with_entry(e);
    assert forall|i: int, j: int| 0 <= i < j < n.entries.len() implies lex_lt(
        #[trigger] n.entries[i].name,
        #[trigger] n.entries[j].name,
    ) by {
        if j < k {
            assert(lex_lt(d.entries[i].name, d.entries[j].name));
        } else if j == k {
            assert(lex_lt(d.entries[i].name, e.name));
        } else if i < k {
            assert(lex_lt(d.entries[i].name, d.entries[j - 1].name));
        } else if i == k {
            assert(d.entries[j - 1].name != e.name);
            crate::name::lemma_lex_total(d.entries[j - 1].name, e.name);
        } else {
            assert(lex_lt(d.entries[i - 1].name, d.entries[j - 1].name));
        }
    }
}

/// A table in order stays in order when an entry is taken out.
pub proof fn lemma_without(d: DirView, k: int)
    requires
        d.sorted(),
        0 <= k < d.entries.len(),
    ensures
        d.without(k).sorted(),
        !d.without(k).has(d.entries[k].name),
{
    let n = d.without(k);
    assert forall|i: int, j: int| 0 <= i < j < n.entries.len() implies lex_lt(
        #[trigger] n.entries[i].name,
        #[trigger] n.entries[j].name,
    ) by {
        let i0 = if i < k { i } else { i + 1 };
        let j0 = if j < k { j } else { j + 1 };
        assert(lex_lt(d.entries[i0].name, d.entries[j0].name));
    }
    if n.has(d.entries[k].name) {
        let i = n.index_of(d.entries[k].name);
        let i0 = if i < k { i } else { i + 1 };
        assert(n.entries[i] == d.entries[i0]);
        if i0 < k {
            lemma_lex_asymmetric(d.entries[i0].name, d.entries[k].name);
        } else {
            lemma_lex_asymmetric(d.entries[k].name, d.entries[i0].name);
        }
    }
}

/// An entry of a directory.
pub struct Entry {
    name: String,
    node: NodeId,
}

impl Entry {
    /// The name as bytes, and the node.
    pub closed spec fn view(&self) -> EntryView {
        EntryView { name: encode_utf8(self.name@), node: self.node }
    }
}

/// A directory node.
pub struct DirNode {
    parent: Option<NodeId>,
    children: Vec<Entry>,
}

impl DirNode {
    /// What the directory holds.
    pub closed spec fn view(&self) -> DirView {
        DirView {
            parent: self.parent,
            entries: Seq::new(self.children@.len(), |i: int| self.children@[i]@),
        }
    }

    /// An empty directory in `parent`.
    pub(crate) fn new(parent: Option<NodeId>) -> (r: Self)
        ensures
            r@ == (DirView { parent, entries: Seq::empty() }),
    {
        let r = Self { parent, children: Vec::new() };
        assert(r@.entries =~= Seq::empty());
        r
    }

    /// The directory that holds this one.
    pub fn parent(&self) -> (r: Option<NodeId>)
        ensures
            r == self@.parent,
    {
        self.parent
    }

    /// Puts the directory into `parent`, or into none.
    pub(crate) fn set_parent(&mut self, parent: Option<NodeId>)
        ensures
            final(self)@ == (DirView { parent, entries: old(self)@.entries }),
    {
        self.parent = parent;
    }

    /// The number of entries.
    pub fn len(&self) -> (r: usize)
        ensures
            r == self@.entries.len(),
    {
        self.children.len()
    }

    /// The name of the entry at index `i`.
    pub fn entry_name(&self, i: usize) -> (r: &str)
        requires
            i < self@.entries.len(),
        ensures
            r.spec_bytes() == self@.entries[i as int].name,
    {
        self.children[i].name.as_str()
    }

    /// The node of the entry at index `i`.
    pub fn entry_node(&self, i: usize) -> (r: NodeId)
        requires
            i < self@.entries.len(),
        ensures
            r == self@.entries[i as int].node,
    {
        self.children[i].node
    }

    /// The first index whose name does not come before `name`.
    fn lower_bound(&self, name: &[u8]) -> (k: usize)
        requires
            self@.sorted(),
        ensures
            k == rank(self@.entries, name@),
            k <= self@.entries.len(),
    {
        let ghost entries = self@.entries;
        let mut lo: usize = 0;
        let mut hi: usize = self.children.len();
        while lo < hi
            invariant
                lo <= hi <= entries.len(),
                entries == self@.entries,
                self@.sorted(),
                forall|i: int| 0 <= i < lo ==> lex_lt(#[trigger] entries[i].name, name@),
                forall|i: int| hi <= i < entries.len() ==> !lex_lt(#[trigger] entries[i].name, name@),
            decreases hi - lo,
        {
            let mid = lo + (hi - lo) / 2;
            let here = self.children[mid].name.as_str().as_bytes();
            assert(here@ == entries[mid as int].name);
            match order(here, name) {
                Order::Before => {
                    assert forall|i: int| 0 <= i < mid + 1 implies lex_lt(
                        #[trigger] entries[i].name,
                        name@,
                    ) by {
                        if i < mid {
                            assert(lex_lt(entries[i].name, entries[mid as int].name));
                            lemma_lex_transitive(entries[i].name, entries[mid as int].name, name@);
                        }
                    }
                    lo = mid + 1;
                },
                _ => {
                    assert forall|i: int| mid <= i < entries.len() implies !lex_lt(
                        #[trigger] entries[i].name,
                        name@,
                    ) by {
                        if mid < i && lex_lt(entries[i].name, name@) {
                            assert(lex_lt(entries[mid as int].name, entries[i].name));
                            lemma_lex_transitive(entries[mid as int].name, entries[i].name, name@);
                        }
                    }
                    hi = mid;
                },
            }
        }
        proof {
            lemma_rank_at(entries, name@, lo as int);
        }
        lo
    }

    /// The index of the entry with the name `name`.
    pub fn find(&self, name: &[u8]) -> (r: Option<usize>)
        requires
            self@.sorted(),
        ensures
            r is Some <==> self@.has(name@),
            r is Some ==> r->0 == self@.index_of(name@) && r->0 < self@.entries.len(),
    {
        let k = self.lower_bound(name);
        proof {
            lemma_rank_splits(self@, name@);
        }
        if k < self.children.len() {
            let here = self.children[k].name.as_str().as_bytes();
            if order(here, name) == Order::Same {
                proof {
                    lemma_index_unique(self@, k as int);
                }
                return Some(k);
            }
        }
        proof {
            if self@.has(name@) {
                let i = self@.index_of(name@);
                if i < k {
                    lemma_lex_asymmetric(self@.entries[i].name, name@);
                } else if i > k {
                    assert(lex_lt(self@.entries[k as int].name, self@.entries[i].name));
                }
            }
        }
        None
    }

    /// The node that `name` names in the directory.
    pub fn child(&self, name: &[u8]) -> (r: Option<NodeId>)
        requires
            self@.sorted(),
        ensures
            r == self@.child(name@),
    {
        match self.find(name) {
            Some(i) => Some(self.children[i].node),
            None => None,
        }
    }

    /// Whether the directory has an entry with the name `name`.
    pub fn exist(&self, name: &str) -> (r: bool)
        requires
            self@.sorted(),
        ensures
            r == self@.has(name.spec_bytes()),
    {
        self.find(name.as_bytes()).is_some()
    }

    /// The names of the entries, in their order.
    pub fn get_entries(&self) -> (r: Vec<String>)
        ensures
            r@.len() == self@.entries.len(),
            forall|i: int| 0 <= i < r@.len() ==> encode_utf8(#[trigger] r@[i]@) == self@.entries[i].name,
    {
        let mut names: Vec<String> = Vec::new();
        let mut i: usize = 0;
        while i < self.children.len()
            invariant
                i <= self.children@.len(),
                names@.len() == i,
                forall|k: int|
                    0 <= k < i ==> encode_utf8(#[trigger] names@[k]@) == self@.entries[k].name,
            decreases self.children@.len() - i,
        {
            names.push(self.children[i].name.clone());
            i += 1;
        }
        names
    }

    /// Adds an entry with a name that the directory does not have.
    pub(crate) fn insert(&mut self, name: &str, node: NodeId)
        requires
            old(self)@.sorted(),
            !old(self)@.has(name.spec_bytes()),
        ensures
            final(self)@ == old(self)@.with_entry(EntryView { name: name.spec_bytes(), node }),
    {
        let k = self.lower_bound(name.as_bytes());
        let entry = Entry { name: name.to_owned(), node };
        assert(entry@ == (EntryView { name: name.spec_bytes(), node }));
        self.children.insert(k, entry);
        assert(self@.entries =~= old(self)@.entries.insert(k as int, entry@));
    }

    /// Takes out the entry at index `i`.
    pub(crate) fn remove_at(&mut self, i: usize)
        requires
            i < old(self)@.entries.len(),
        ensures
            final(self)@ == old(self)@.without(i as int),
    {
        let _ = self.children.remove(i);
        assert(self@.entries =~= old(self)@.entries.remove(i as int));
    }

    /// Lets the entry at index `i` name `node`.
    pub(crate) fn set_node(&mut self, i: usize, node: NodeId)
        requires
            i < old(self)@.entries.len(),
        ensures
            final(self)@ == (DirView {
                parent: old(self)@.parent,
                entries: old(self)@.entries.update(
                    i as int,
                    EntryView { name: old(self)@.entries[i as int].name, node },
                ),
            }),
    {
        self.children[i].node = node;
        assert(self@.entries =~= old(self)@.entries.update(
            i as int,
            EntryView { name: old(self)@.entries[i as int].name, node },
        ));
    }
}

} // verus!
