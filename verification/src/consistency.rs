//! Proofs that the changes of a directory tree keep it consistent.

use vstd::prelude::*;
use crate::dir::{lemma_with_entry, lemma_without, rank, EntryView, NodeId};
use crate::model::{NodeView, TreeView};
use crate::name::lex_lt;
use crate::path::is_plain_name;

verus! {

/// Whether a node can be linked into the directory `d` of the tree under
/// the name `name`.
pub open spec fn can_link(t: TreeView, d: NodeId, name: Seq<u8>, node: NodeView) -> bool {
    &&& t.wf()
    &&& t.nodes.len() < usize::MAX
    &&& t.is_dir(d)
    &&& is_plain_name(name)
    &&& !t.dir(d).has(name)
    &&& TreeView::fits(d, node)
}

/// The index that entry `i` of the directory `x` had before a new entry
/// took index `k` of the directory `d`.
pub open spec fn index_before(d: NodeId, k: int, x: NodeId, i: int) -> int {
    if x == d && i > k {
        i - 1
    } else {
        i
    }
}

/// After a node is linked, every node that was there is there, a directory
/// as before and with the parent that it had, and the new node has the
/// next id.
proof fn lemma_linked_nodes(t: TreeView, d: NodeId, name: Seq<u8>, node: NodeView, x: NodeId)
    requires
        can_link(t, d, name, node),
    ensures
        t.linked(d, name, node).node(t.nodes.len() as NodeId) == node,
        t.linked(d, name, node).live(t.nodes.len() as NodeId),
        !t.live(t.nodes.len() as NodeId),
        t.linked(d, name, node).dir(d) == t.dir(d).with_entry(
            EntryView { name, node: t.nodes.len() as NodeId },
        ),
        t.live(x) ==> t.linked(d, name, node).live(x) && (t.is_dir(x) <==> t.linked(
            d,
            name,
            node,
        ).is_dir(x)) && (t.is_dir(x) ==> t.linked(d, name, node).dir(x).parent == t.dir(x).parent),
        t.linked(d, name, node).live(x) ==> t.live(x) || x == t.nodes.len(),
        t.is_dir(x) && x != d ==> t.linked(d, name, node).dir(x) == t.dir(x),
{
}

/// After a node is linked, every entry is the new entry or an entry that
/// was there: in the directory of the new entry, those behind it have moved
/// up by one.
proof fn lemma_linked_entry(
    t: TreeView,
    d: NodeId,
    name: Seq<u8>,
    node: NodeView,
    x: NodeId,
    i: int,
)
    requires
        can_link(t, d, name, node),
        t.is_dir(x),
        0 <= i < t.linked(d, name, node).dir(x).entries.len(),
    ensures
        0 <= rank(t.dir(d).entries, name) <= t.dir(d).entries.len(),
        if x == d && i == rank(t.dir(d).entries, name) {
            t.linked(d, name, node).entry(x, i) == (EntryView {
                name,
                node: t.nodes.len() as NodeId,
            })
        } else {
            &&& 0 <= index_before(d, rank(t.dir(d).entries, name), x, i) < t.dir(x).entries.len()
            &&& t.linked(d, name, node).entry(x, i) == t.entry(
                x,
                index_before(d, rank(t.dir(d).entries, name), x, i),
            )
        },
{
    let e = EntryView { name, node: t.nodes.len() as NodeId };
    let k = rank(t.dir(d).entries, name);
    assert(t.dir_ok(d));
    lemma_with_entry(t.dir(d), e);
    lemma_linked_nodes(t, d, name, node, x);
    if x == d && i > k {
        assert(t.dir(d).with_entry(e).entries[(i - 1) + 1] == t.dir(d).entries[i - 1]);
    }
}

/// After a node is linked, a directory holds what it held.
proof fn lemma_linked_holds(
    t: TreeView,
    d: NodeId,
    name: Seq<u8>,
    node: NodeView,
    p: NodeId,
    x: NodeId,
)
    requires
        can_link(t, d, name, node),
        t.is_dir(p),
        t.dir(p).holds(x),
    ensures
        t.linked(d, name, node).dir(p).holds(x),
{
    let e = EntryView { name, node: t.nodes.len() as NodeId };
    let k = rank(t.dir(d).entries, name);
    let t2 = t.linked(d, name, node);
    let i = choose|i: int| 0 <= i < t.dir(p).entries.len() && t.dir(p).entries[i].node == x;
    assert(t.dir_ok(d));
    lemma_with_entry(t.dir(d), e);
    lemma_linked_nodes(t, d, name, node, p);
    if p == d {
        if i < k {
            assert(t2.dir(p).entries[i].node == x);
        } else {
            assert(t2.dir(p).entries[i + 1].node == x);
        }
    } else {
        assert(t2.dir(p).entries[i].node == x);
    }
}

/// After a node is linked, every directory is in order.
proof fn lemma_linked_dir_ok(t: TreeView, d: NodeId, name: Seq<u8>, node: NodeView, x: NodeId)
    requires
        can_link(t, d, name, node),
        t.linked(d, name, node).is_dir(x),
    ensures
        t.linked(d, name, node).dir_ok(x),
{
    let n = t.nodes.len() as NodeId;
    let e = EntryView { name, node: n };
    let t2 = t.linked(d, name, node);
    let k = rank(t.dir(d).entries, name);
    assert(t.dir_ok(d));
    lemma_with_entry(t.dir(d), e);
    lemma_linked_nodes(t, d, name, node, x);
    lemma_linked_nodes(t, d, name, node, d);
    if x == n {
        assert(t2.dir(d).entries[k].node == n);
        assert(t2.dir(d).holds(n));
        assert(t2.dir(x).entries.len() == 0);
    } else {
        assert(t.is_dir(x));
        assert(t.dir_ok(x));
        assert(t2.dir(x).sorted());
        assert forall|i: int| 0 <= i < t2.dir(x).entries.len() implies is_plain_name(
            #[trigger] t2.dir(x).entries[i].name,
        ) by {
            lemma_linked_entry(t, d, name, node, x, i);
            if !(x == d && i == k) {
                let i0 = index_before(d, k, x, i);
                assert(t2.entry(x, i) == t.entry(x, i0));
                assert(is_plain_name(t.dir(x).entries[i0].name));
            }
        }
        assert(t2.dir(x).plain());
        assert forall|i: int| 0 <= i < t2.dir(x).entries.len() implies #[trigger] t2.entry_ok(
            x,
            i,
        ) by {
            lemma_linked_entry(t, d, name, node, x, i);
            if !(x == d && i == k) {
                let i0 = index_before(d, k, x, i);
                assert(t.entry_ok(x, i0));
                lemma_linked_nodes(t, d, name, node, t.entry(x, i0).node);
            }
        }
        match t.dir(x).parent {
            Some(p) => {
                lemma_linked_nodes(t, d, name, node, p);
                lemma_linked_holds(t, d, name, node, p, x);
            },
            None => {},
        }
    }
}

/// After a node is linked, two entries that name one node are one entry.
proof fn lemma_linked_owner(
    t: TreeView,
    d: NodeId,
    name: Seq<u8>,
    node: NodeView,
    d1: NodeId,
    i1: int,
    d2: NodeId,
    i2: int,
)
    requires
        can_link(t, d, name, node),
        t.linked(d, name, node).is_dir(d1),
        t.linked(d, name, node).is_dir(d2),
        0 <= i1 < t.linked(d, name, node).dir(d1).entries.len(),
        0 <= i2 < t.linked(d, name, node).dir(d2).entries.len(),
        t.linked(d, name, node).entry(d1, i1).node == t.linked(d, name, node).entry(d2, i2).node,
    ensures
        d1 == d2 && i1 == i2,
{
    let n = t.nodes.len() as NodeId;
    let k = rank(t.dir(d).entries, name);
    lemma_linked_nodes(t, d, name, node, d1);
    lemma_linked_nodes(t, d, name, node, d2);
    assert(t.is_dir(d1) && t.is_dir(d2)) by {
        assert(TreeView::fits(d, node));
    }
    lemma_linked_entry(t, d, name, node, d1, i1);
    lemma_linked_entry(t, d, name, node, d2, i2);
    let new1 = d1 == d && i1 == k;
    let new2 = d2 == d && i2 == k;
    let j1 = index_before(d, k, d1, i1);
    let j2 = index_before(d, k, d2, i2);
    if !new1 {
        assert(t.dir_ok(d1));
        assert(t.entry_ok(d1, j1));
    }
    if !new2 {
        assert(t.dir_ok(d2));
        assert(t.entry_ok(d2, j2));
    }
    if !new1 && !new2 {
        assert(t.entry(d1, j1).node == t.entry(d2, j2).node);
    }
}

/// A consistent tree stays consistent when a node that fits is linked under
/// a new name.
pub proof fn lemma_linked_wf(t: TreeView, d: NodeId, name: Seq<u8>, node: NodeView)
    requires
        t.wf(),
        t.nodes.len() < usize::MAX,
        t.is_dir(d),
        is_plain_name(name),
        !t.dir(d).has(name),
        TreeView::fits(d, node),
    ensures
        t.linked(d, name, node).wf(),
{
    let t2 = t.linked(d, name, node);
    lemma_linked_nodes(t, d, name, node, t.root);
    assert forall|x: NodeId| #[trigger] t2.is_dir(x) implies t2.dir_ok(x) by {
        lemma_linked_dir_ok(t, d, name, node, x);
    }
    assert(t2.single_owner()) by {
        assert forall|d1: NodeId, i1: int, d2: NodeId, i2: int|
            #![trigger t2.entry(d1, i1), t2.entry(d2, i2)]
            t2.is_dir(d1) && t2.is_dir(d2) && 0 <= i1 < t2.dir(d1).entries.len() && 0 <= i2
                < t2.dir(d2).entries.len() && t2.entry(d1, i1).node == t2.entry(
                d2,
                i2,
            ).node implies d1 == d2 && i1 == i2 by {
            lemma_linked_owner(t, d, name, node, d1, i1, d2, i2);
        }
    }
}

/// A consistent tree stays consistent when an entry is taken out together
/// with the node that it named, if that node is no directory with entries.
pub proof fn lemma_unlinked_wf(t: TreeView, d: NodeId, k: int)
    requires
        t.wf(),
        t.is_dir(d),
        0 <= k < t.dir(d).entries.len(),
        t.is_dir(t.entry(d, k).node) ==> t.dir(t.entry(d, k).node).entries.len() == 0,
    ensures
        t.unlinked(d, k).wf(),
        !t.unlinked(d, k).live(t.entry(d, k).node),
        t.entry(d, k).node != d,
        t.entry(d, k).node != t.root,
{
    let c = t.entry(d, k).node;
    let t2 = t.unlinked(d, k);
    let old_d = t.dir(d);
    let new_d = old_d.without(k);
    assert(t.dir_ok(d));
    assert(t.entry_ok(d, k));
    assert(t.dir_ok(t.root));
    lemma_without(old_d, k);
    assert(c != d);
    assert(c != t.root);
    assert(t2.dir(d) == new_d);
    assert forall|x: NodeId| t.live(x) && x != c implies t2.live(x) && (t.is_dir(x) <==> t2.is_dir(
        x,
    )) && (t.is_dir(x) ==> t2.dir(x).parent == t.dir(x).parent) by {}
    assert forall|x: NodeId, i: int|
        t2.is_dir(x) && 0 <= i < t2.dir(x).entries.len() implies (t.is_dir(x) && x != c && (if x
            == d {
            if i < k {
                t2.entry(x, i) == t.entry(x, i)
            } else {
                t2.entry(x, i) == t.entry(x, i + 1)
            }
        } else {
            t2.entry(x, i) == t.entry(x, i)
        })) by {}
    assert forall|p: NodeId, x: NodeId|
        t.is_dir(p) && p != c && x != c && t.dir(p).holds(x) implies t2.dir(p).holds(x) by {
        let i = choose|i: int| 0 <= i < t.dir(p).entries.len() && t.dir(p).entries[i].node == x;
        if p == d {
            if i < k {
                assert(new_d.entries[i].node == x);
            } else {
                assert(i > k);
                assert(new_d.entries[i - 1].node == x);
            }
        } else {
            assert(t2.dir(p).entries[i].node == x);
        }
    }
    assert forall|x: NodeId| #[trigger] t2.is_dir(x) implies t2.dir_ok(x) by {
        assert(t.is_dir(x));
        assert(t.dir_ok(x));
        assert(t2.dir(x).sorted());
        assert(t2.dir(x).plain()) by {
            assert forall|i: int| 0 <= i < t2.dir(x).entries.len() implies is_plain_name(
                #[trigger] t2.dir(x).entries[i].name,
            ) by {
                let i0 = if x == d && i >= k {
                    i + 1
                } else {
                    i
                };
                assert(t2.entry(x, i) == t.entry(x, i0));
            }
        }
        assert forall|i: int| 0 <= i < t2.dir(x).entries.len() implies #[trigger] t2.entry_ok(
            x,
            i,
        ) by {
            let i0 = if x == d && i >= k {
                i + 1
            } else {
                i
            };
            assert(t2.entry(x, i) == t.entry(x, i0));
            assert(t.entry_ok(x, i0));
            assert(t.entry(x, i0).node == t.entry(d, k).node ==> x == d && i0 == k);
        }
        match t.dir(x).parent {
            Some(p) => {
                assert(t.dir(p).holds(x));
                if p == c {
                    let i = choose|i: int|
                        0 <= i < t.dir(p).entries.len() && t.dir(p).entries[i].node == x;
                    assert(false);
                }
            },
            None => {},
        }
    }
    assert(t2.single_owner()) by {
        assert forall|d1: NodeId, i1: int, d2: NodeId, i2: int|
            #![trigger t2.entry(d1, i1), t2.entry(d2, i2)]
            t2.is_dir(d1) && t2.is_dir(d2) && 0 <= i1 < t2.dir(d1).entries.len() && 0 <= i2
                < t2.dir(d2).entries.len() && t2.entry(d1, i1).node == t2.entry(
                d2,
                i2,
            ).node implies d1 == d2 && i1 == i2 by {
            let j1 = if d1 == d && i1 >= k {
                i1 + 1
            } else {
                i1
            };
            let j2 = if d2 == d && i2 >= k {
                i2 + 1
            } else {
                i2
            };
            assert(t2.entry(d1, i1) == t.entry(d1, j1));
            assert(t2.entry(d2, i2) == t.entry(d2, j2));
            assert(t.entry(d1, j1).node == t.entry(d2, j2).node);
        }
    }
}

/// A consistent tree stays consistent when a node that is no directory gets
/// another content that is no directory.
pub proof fn lemma_with_node_wf(t: TreeView, id: NodeId, node: NodeView)
    requires
        t.wf(),
        t.live(id),
        !t.is_dir(id),
        !(node is Dir),
    ensures
        t.with_node(id, node).wf(),
{
    let t2 = t.with_node(id, node);
    assert forall|x: NodeId| #[trigger] t2.is_dir(x) implies t2.dir_ok(x) by {
        assert(t.is_dir(x));
        assert(t.dir_ok(x));
        assert forall|i: int| 0 <= i < t2.dir(x).entries.len() implies #[trigger] t2.entry_ok(
            x,
            i,
        ) by {
            assert(t.entry_ok(x, i));
        }
    }
    assert(t2.single_owner()) by {
        assert forall|d1: NodeId, i1: int, d2: NodeId, i2: int|
            #![trigger t2.entry(d1, i1), t2.entry(d2, i2)]
            t2.is_dir(d1) && t2.is_dir(d2) && 0 <= i1 < t2.dir(d1).entries.len() && 0 <= i2
                < t2.dir(d2).entries.len() && t2.entry(d1, i1).node == t2.entry(
                d2,
                i2,
            ).node implies d1 == d2 && i1 == i2 by {
            assert(t.entry(d1, i1).node == t.entry(d2, i2).node);
        }
    }
}

/// A consistent tree stays consistent when an entry is made to name a new
/// node that fits.
pub proof fn lemma_relinked_wf(t: TreeView, d: NodeId, k: int, node: NodeView)
    requires
        t.wf(),
        t.nodes.len() < usize::MAX,
        t.is_dir(d),
        0 <= k < t.dir(d).entries.len(),
        TreeView::fits(d, node),
    ensures
        t.relinked(d, k, node).wf(),
{
    let n = t.nodes.len() as NodeId;
    let c = t.entry(d, k).node;
    let e = EntryView { name: t.entry(d, k).name, node: n };
    let t2 = t.relinked(d, k, node);
    assert(t.dir_ok(d));
    assert(t.entry_ok(d, k));
    assert(t.dir_ok(t.root));
    assert(t.is_dir(c) ==> c != d && c != t.root) by {
        if t.is_dir(c) {
            assert(t.dir_ok(c));
        }
    }
    assert(t2.node(n) == node);
    assert(t2.dir(d).entries == t.dir(d).entries.update(k, e));
    assert(t2.dir(d).parent == t.dir(d).parent);
    assert forall|x: NodeId| t.live(x) implies t2.live(x) && (t.is_dir(x) <==> t2.is_dir(x)) && (
    t.is_dir(x) && x != d ==> t2.dir(x).entries == t.dir(x).entries) && (t.is_dir(x) && x != c
        ==> t2.dir(x).parent == t.dir(x).parent) && (t.is_dir(x) && x == c ==> t2.dir(x).parent
        is None) by {}
    assert forall|x: NodeId, i: int|
        t2.is_dir(x) && 0 <= i < t2.dir(x).entries.len() implies (x != n && t.is_dir(x) && 0 <= i
            < t.dir(x).entries.len() && (if x == d && i == k {
            t2.entry(x, i) == e
        } else {
            t2.entry(x, i) == t.entry(x, i)
        })) by {}
    assert forall|p: NodeId, x: NodeId|
        t.is_dir(p) && t.dir(p).holds(x) && x != c implies t2.dir(p).holds(x) by {
        let i = choose|i: int| 0 <= i < t.dir(p).entries.len() && t.dir(p).entries[i].node == x;
        assert(t2.entry(p, i) == t.entry(p, i));
        assert(t2.dir(p).entries[i].node == x);
    }
    assert forall|x: NodeId| #[trigger] t2.is_dir(x) implies t2.dir_ok(x) by {
        if x == n {
            assert(t2.entry(d, k) == e);
            assert(t2.dir(d).entries[k].node == n);
            assert(t2.dir(d).holds(n));
        } else {
            assert(t.is_dir(x));
            assert(t.dir_ok(x));
            assert(t2.dir(x).sorted()) by {
                assert forall|i: int, j: int| 0 <= i < j < t2.dir(x).entries.len() implies lex_lt(
                    #[trigger] t2.dir(x).entries[i].name,
                    #[trigger] t2.dir(x).entries[j].name,
                ) by {
                    assert(t2.entry(x, i).name == t.entry(x, i).name);
                    assert(t2.entry(x, j).name == t.entry(x, j).name);
                    assert(lex_lt(t.dir(x).entries[i].name, t.dir(x).entries[j].name));
                }
            }
            assert(t2.dir(x).plain()) by {
                assert forall|i: int| 0 <= i < t2.dir(x).entries.len() implies is_plain_name(
                    #[trigger] t2.dir(x).entries[i].name,
                ) by {
                    assert(t2.entry(x, i).name == t.entry(x, i).name);
                    assert(is_plain_name(t.dir(x).entries[i].name));
                }
            }
            assert forall|i: int| 0 <= i < t2.dir(x).entries.len() implies #[trigger] t2.entry_ok(
                x,
                i,
            ) by {
                if x == d && i == k {
                    assert(t2.entry(x, i) == e);
                } else {
                    assert(t2.entry(x, i) == t.entry(x, i));
                    assert(t.entry_ok(x, i));
                    assert(t.entry(x, i).node == t.entry(d, k).node ==> x == d && i == k);
                }
            }
            if x != c {
                match t.dir(x).parent {
                    Some(p) => {
                        assert(t.dir(p).holds(x));
                    },
                    None => {},
                }
            }
        }
    }
    assert(t2.single_owner()) by {
        assert forall|d1: NodeId, i1: int, d2: NodeId, i2: int|
            #![trigger t2.entry(d1, i1), t2.entry(d2, i2)]
            t2.is_dir(d1) && t2.is_dir(d2) && 0 <= i1 < t2.dir(d1).entries.len() && 0 <= i2
                < t2.dir(d2).entries.len() && t2.entry(d1, i1).node == t2.entry(
                d2,
                i2,
            ).node implies d1 == d2 && i1 == i2 by {
            let new1 = d1 == d && i1 == k;
            let new2 = d2 == d && i2 == k;
            if !new1 {
                assert(t2.entry(d1, i1) == t.entry(d1, i1));
                assert(t.dir_ok(d1));
                assert(t.entry_ok(d1, i1));
            }
            if !new2 {
                assert(t2.entry(d2, i2) == t.entry(d2, i2));
                assert(t.dir_ok(d2));
                assert(t.entry_ok(d2, i2));
            }
            if !new1 && !new2 {
                assert(t.entry(d1, i1).node == t.entry(d2, i2).node);
            }
        }
    }
}

} // verus!
