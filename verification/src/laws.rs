//! Laws that relate the operations of the library to one another.

use vstd::prelude::*;
use crate::devfs::{create_denied, remove_denied};
use crate::dir::{lemma_index_unique, lemma_with_entry, lemma_without, rank, EntryView, NodeId};
use crate::error::VfsError;
use crate::file::{read_bytes, resized, written};
use crate::path::{
    components, ends_open, is_plain_name, lemma_empty_head, lemma_split, lemma_split_leading_sep,
    lemma_split_plain, lemma_split_trailing_sep, same_spelling, split_head, split_rest, DOT, SEP,
};
use crate::structs::{entry_name, lemma_until_zero_at, VfsDirEntry, VfsNodeType};
use crate::consistency::{lemma_linked_wf, lemma_unlinked_wf};
use crate::model::{DoneView, FoundView, NodeRef, TreeView};

verus! {

/// Whether two lookups ended alike: with the same error, at the same node,
/// or both outside the filesystem with paths left over that differ in their
/// separators only.
pub open spec fn same_found(a: Result<FoundView, VfsError>, b: Result<FoundView, VfsError>) -> bool {
    match (a, b) {
        (Err(e1), Err(e2)) => e1 == e2,
        (Ok(FoundView::Node(x)), Ok(FoundView::Node(y))) => x == y,
        (Ok(FoundView::Outside(None)), Ok(FoundView::Outside(None))) => true,
        (Ok(FoundView::Outside(Some(r1))), Ok(FoundView::Outside(Some(r2)))) => same_spelling(
            r1,
            r2,
        ),
        _ => false,
    }
}

/// Two paths with the same components resolve alike from any node, however
/// many separators stand at their start and between their components,
/// provided that both end in a separator or neither does.
pub proof fn law_lookup_ignores_separators(t: TreeView, d: NodeId, p: Seq<u8>, q: Seq<u8>)
    requires
        same_spelling(p, q),
    ensures
        same_found(t.lookup(d, p), t.lookup(d, q)),
    decreases p.len() + q.len(),
{
    lemma_split(p);
    lemma_split(q);
    if t.check_dir(d) is Ok {
        let hp = split_head(p);
        let hq = split_head(q);
        if hp.len() == 0 {
            lemma_empty_head(p);
            if hq.len() > 0 {
                assert(components(q).len() > 0);
            }
            lemma_empty_head(q);
        } else {
            assert(components(p)[0] == hp);
            if hq.len() == 0 {
                lemma_empty_head(q);
            }
            assert(components(q)[0] == hq);
            assert(hp == hq);
            match (split_rest(p), split_rest(q)) {
                (None, None) => {},
                (Some(r1), Some(r2)) => {
                    assert(components(r1) =~= components(p).drop_first());
                    assert(components(r2) =~= components(q).drop_first());
                    law_lookup_ignores_separators(
                        t,
                        match t.step(d, hp) {
                            Ok(NodeRef::Inside(n)) => n,
                            _ => d,
                        },
                        r1,
                        r2,
                    );
                },
                (Some(r1), None) => {
                    assert(components(p).len() == 1);
                    assert(components(r1) =~= components(p).drop_first());
                    if split_head(r1).len() == 0 {
                        lemma_empty_head(r1);
                    }
                },
                (None, Some(r2)) => {
                    assert(components(q).len() == 1);
                    assert(components(r2) =~= components(q).drop_first());
                    if split_head(r2).len() == 0 {
                        lemma_empty_head(r2);
                    }
                },
            }
        }
    }
}

/// What a lookup yields for a path with one separator more at its end, in
/// terms of what it yields for the path: the same error, the same
/// directory, `NotADirectory` for a node that is no directory, and outside
/// the filesystem one separator more in what is left of the path.
pub open spec fn with_trailing_separator(t: TreeView, r: Result<FoundView, VfsError>) -> Result<
    FoundView,
    VfsError,
> {
    match r {
        Err(e) => Err(e),
        Ok(FoundView::Outside(None)) => Ok(FoundView::Outside(Some(Seq::empty()))),
        Ok(FoundView::Outside(Some(rest))) => Ok(FoundView::Outside(Some(rest + seq![SEP]))),
        Ok(FoundView::Node(n)) => if t.is_dir(n) {
            Ok(FoundView::Node(n))
        } else {
            Err(VfsError::NotADirectory)
        },
    }
}

/// In a consistent tree, a separator at the end of a path asks for a
/// directory: the path resolves as without the separator if that yields a
/// directory, and fails with `NotADirectory` if that yields another node.
pub proof fn law_lookup_trailing_separator(t: TreeView, d: NodeId, p: Seq<u8>)
    requires
        t.wf(),
        ends_open(p),
    ensures
        t.lookup(d, p + seq![SEP]) == with_trailing_separator(t, t.lookup(d, p)),
    decreases p.len(),
{
    lemma_split(p);
    if split_head(p).len() == 0 {
        lemma_empty_head(p);
    }
    lemma_split_trailing_sep(p);
    if t.check_dir(d) is Ok {
        assert(t.dir_ok(d));
        let h = split_head(p);
        match t.step(d, h) {
            Ok(NodeRef::Inside(n)) => {
                assert(t.live(n)) by {
                    if t.dir(d).has(h) {
                        assert(t.entry_ok(d, t.dir(d).index_of(h)));
                    }
                }
                match split_rest(p) {
                    None => {
                        lemma_split_plain(Seq::<u8>::empty());
                        assert(t.lookup(n, Seq::<u8>::empty()) == (if t.is_dir(n) {
                            Ok::<FoundView, VfsError>(FoundView::Node(n))
                        } else {
                            Err::<FoundView, VfsError>(VfsError::NotADirectory)
                        }));
                    },
                    Some(rest) => {
                        law_lookup_trailing_separator(t, n, rest);
                    },
                }
            },
            _ => {},
        }
    }
}

/// A separator more at the start of a path changes nothing of what the
/// path resolves to.
pub proof fn law_lookup_leading_separator(t: TreeView, d: NodeId, p: Seq<u8>)
    ensures
        t.lookup(d, seq![SEP] + p) == t.lookup(d, p),
{
    lemma_split_leading_sep(p);
}

/// From a directory, `.` resolves to the directory itself, and so does the
/// empty path.
pub proof fn law_lookup_dot(t: TreeView, d: NodeId)
    requires
        t.is_dir(d),
    ensures
        t.lookup(d, seq![DOT]) == Ok::<FoundView, VfsError>(FoundView::Node(d)),
        t.lookup(d, Seq::empty()) == Ok::<FoundView, VfsError>(FoundView::Node(d)),
{
    lemma_split_plain(seq![DOT]);
    lemma_split_plain(Seq::empty());
}

/// In a consistent tree, the name of an entry resolves to the node of the
/// entry from its directory, and from a directory that is an entry's node
/// `..` resolves back to the directory of the entry.
pub proof fn law_lookup_child_and_back(t: TreeView, d: NodeId, i: int)
    requires
        t.wf(),
        t.is_dir(d),
        0 <= i < t.dir(d).entries.len(),
    ensures
        t.lookup(d, t.entry(d, i).name) == Ok::<FoundView, VfsError>(
            FoundView::Node(t.entry(d, i).node),
        ),
        t.is_dir(t.entry(d, i).node) ==> t.lookup(t.entry(d, i).node, seq![DOT, DOT]) == Ok::<
            FoundView,
            VfsError,
        >(FoundView::Node(d)),
{
    let name = t.entry(d, i).name;
    let c = t.entry(d, i).node;
    assert(t.dir_ok(d));
    assert(t.entry_ok(d, i));
    assert(is_plain_name(name));
    lemma_split_plain(name);
    lemma_index_unique(t.dir(d), i);
    if t.is_dir(c) {
        lemma_split_plain(seq![DOT, DOT]);
        assert(t.dir(c).parent == Some(d));
    }
}

/// In a consistent tree, a lookup that ends at a node ends at one that is
/// there.
pub proof fn law_lookup_finds_nodes(t: TreeView, d: NodeId, p: Seq<u8>)
    requires
        t.wf(),
    ensures
        t.lookup(d, p) is Ok && t.lookup(d, p)->Ok_0 is Node ==> t.live(
            t.lookup(d, p)->Ok_0->Node_0,
        ),
    decreases p.len(),
{
    lemma_split(p);
    if t.check_dir(d) is Ok {
        assert(t.dir_ok(d));
        let h = split_head(p);
        match t.step(d, h) {
            Ok(NodeRef::Inside(n)) => {
                assert(t.live(n)) by {
                    if t.dir(d).has(h) {
                        assert(t.entry_ok(d, t.dir(d).index_of(h)));
                    }
                }
                match split_rest(p) {
                    None => {},
                    Some(rest) => {
                        law_lookup_finds_nodes(t, n, rest);
                    },
                }
            },
            _ => {},
        }
    }
}

/// In a consistent tree, a node that was created under a name is what the
/// name resolves to from its directory.
pub proof fn law_created_is_found(t: TreeView, d: NodeId, name: Seq<u8>, ty: VfsNodeType)
    requires
        t.wf(),
        t.nodes.len() < usize::MAX,
        t.create_node_check(d, name, ty) is Ok,
    ensures
        t.create_node(d, name, ty).wf(),
        t.create_node(d, name, ty).lookup(d, name) == Ok::<FoundView, VfsError>(
            FoundView::Node(t.nodes.len() as NodeId),
        ),
        t.create_node(d, name, ty).kind(t.nodes.len() as NodeId) == ty,
{
    let t2 = t.create_node(d, name, ty);
    let e = EntryView { name, node: t.nodes.len() as NodeId };
    assert(t.dir_ok(d));
    lemma_linked_wf(t, d, name, TreeView::fresh(d, ty));
    lemma_with_entry(t.dir(d), e);
    let k = rank(t.dir(d).entries, name);
    assert(t2.dir(d) == t.dir(d).with_entry(e));
    assert(t2.dir(d).entries[k] == e);
    lemma_index_unique(t2.dir(d), k);
    lemma_split_plain(name);
}

/// In a consistent tree, a name whose entry was removed resolves to
/// nothing from its directory, and the node that it named is gone.
pub proof fn law_removed_is_gone(t: TreeView, d: NodeId, name: Seq<u8>)
    requires
        t.wf(),
        is_plain_name(name),
        t.remove_node_check(d, name) is Ok,
    ensures
        t.remove_node(d, name).wf(),
        t.remove_node(d, name).lookup(d, name) == Err::<FoundView, VfsError>(VfsError::NotFound),
        !t.remove_node(d, name).live(t.dir(d).child(name)->0),
{
    let k = t.dir(d).index_of(name);
    assert(t.dir_ok(d));
    assert(t.entry_ok(d, k));
    lemma_unlinked_wf(t, d, k);
    lemma_without(t.dir(d), k);
    let t2 = t.remove_node(d, name);
    assert(t2.dir(d) == t.dir(d).without(k));
    lemma_split_plain(name);
}

/// In a consistent tree, a directory that has an entry cannot be removed,
/// and one that has none can.
pub proof fn law_remove_directory(t: TreeView, d: NodeId, i: int)
    requires
        t.wf(),
        t.is_dir(d),
        0 <= i < t.dir(d).entries.len(),
        t.is_dir(t.entry(d, i).node),
    ensures
        t.remove_node_check(d, t.entry(d, i).name) == (if t.dir(t.entry(d, i).node).entries.len()
            > 0 {
            Err::<(), VfsError>(VfsError::DirectoryNotEmpty)
        } else {
            Ok::<(), VfsError>(())
        }),
{
    assert(t.dir_ok(d));
    lemma_index_unique(t.dir(d), i);
}

/// What is written is read back: after `data` is written at `offset`, a
/// read at `offset` of as many bytes yields `data`, whatever the file held.
pub proof fn law_read_after_write(content: Seq<u8>, offset: int, data: Seq<u8>)
    requires
        0 <= offset,
    ensures
        read_bytes(written(content, offset, data), offset, data.len() as int) == data,
{
    assert(read_bytes(written(content, offset, data), offset, data.len() as int) =~= data);
}

/// A file that is written for the first time, from its start, holds what
/// was written and nothing else: a read from the start into a buffer that
/// is long enough yields exactly the data.
pub proof fn law_fresh_write_round_trip(data: Seq<u8>, want: int)
    requires
        want >= data.len(),
    ensures
        read_bytes(written(Seq::empty(), 0, data), 0, want) == data,
        written(Seq::empty(), 0, data) == data,
{
    assert(written(Seq::empty(), 0, data) =~= data);
    assert(read_bytes(written(Seq::empty(), 0, data), 0, want) =~= data);
}

/// A write beyond the end leaves a gap of zeros: written at `offset` into
/// an empty file, `data` ends the file, and every byte before it is zero.
pub proof fn law_sparse_write(offset: int, data: Seq<u8>)
    requires
        0 <= offset,
    ensures
        written(Seq::empty(), offset, data).len() == offset + data.len(),
        forall|i: int| 0 <= i < offset ==> written(Seq::empty(), offset, data)[i] == 0,
        written(Seq::empty(), offset, data).subrange(offset, offset + data.len()) == data,
{
    let w = written(Seq::empty(), offset, data);
    assert(w.subrange(offset, offset + data.len()) =~= data);
}

/// To truncate twice to the same size is to truncate once.
pub proof fn law_truncate_idempotent(content: Seq<u8>, size: int)
    requires
        0 <= size,
    ensures
        resized(resized(content, size), size) == resized(content, size),
        resized(content, size).len() == size,
{
    assert(resized(resized(content, size), size) =~= resized(content, size));
}

/// A device filesystem denies the creation and the removal of any single
/// component in any of its directories: of a name, and of the empty
/// component, `.` and `..` as well.
pub proof fn law_device_tree_denies(t: TreeView, d: NodeId, name: Seq<u8>)
    requires
        t.is_dir(d),
        forall|i: int| 0 <= i < name.len() ==> name[i] != SEP,
    ensures
        create_denied(t, d, name) == Err::<DoneView, VfsError>(
            VfsError::PermissionDenied,
        ),
        remove_denied(t, d, name) == Err::<DoneView, VfsError>(
            VfsError::PermissionDenied,
        ),
{
    lemma_split_plain(name);
}

/// In a device filesystem no creation and no removal ends as done in the
/// filesystem, whatever the path: where the walk reaches the last
/// component, both fail with `PermissionDenied`; where it does not, they
/// fail as the walk failed or end outside the filesystem.
pub proof fn law_device_tree_never_changes(t: TreeView, d: NodeId, path: Seq<u8>)
    ensures
        !(create_denied(t, d, path) is Ok && create_denied(t, d, path)->Ok_0 is Here),
        !(remove_denied(t, d, path) is Ok && remove_denied(t, d, path)->Ok_0 is Here),
        t.place(d, path) is Ok && t.place(d, path)->Ok_0 is At ==> create_denied(t, d, path)
            == Err::<DoneView, VfsError>(VfsError::PermissionDenied) && remove_denied(t, d, path)
            == Err::<DoneView, VfsError>(VfsError::PermissionDenied),
        create_denied(t, d, path) == remove_denied(t, d, path),
{
}

/// The pages of a listing follow one another: a read of `a + b` records
/// from `start` fills as many as a read of `a` records from `start` and a
/// read of `b` records from where that one ended, if it was full.
pub proof fn law_listing_pages(t: TreeView, d: NodeId, start: int, a: int, b: int)
    requires
        0 <= start,
        0 <= a,
        0 <= b,
    ensures
        t.listed_count(d, start, a + b) == t.listed_count(d, start, a) + (if t.listed_count(
            d,
            start,
            a,
        ) == a {
            t.listed_count(d, start + a, b)
        } else {
            0
        }),
        0 <= t.listed_count(d, start, a) <= a,
        start + t.listed_count(d, start, a) <= t.listing_len(d) || t.listed_count(d, start, a)
            == 0,
{
}

/// The name that a directory entry gives back is the name that it was made
/// of, cut to 63 bytes, provided that the name holds no zero byte.
pub proof fn law_entry_name_round_trip(e: VfsDirEntry, name: Seq<u8>, ty: VfsNodeType)
    requires
        e.records(name, ty),
        forall|i: int| 0 <= i < name.len() ==> name[i] != 0,
    ensures
        e.name() == entry_name(name),
{
    let kept = entry_name(name);
    lemma_until_zero_at(e.field(), kept.len() as int);
    assert(e.name() =~= kept);
}

} // verus!
