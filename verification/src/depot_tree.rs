//! A file system as a tree of named nodes.
use vstd::prelude::*;

use crate::path::PathView;

verus! {

/// Whether a path is `base` or lies below it.
pub open spec fn below(p: PathView, base: PathView) -> bool {
    p.absolute == base.absolute && base.parts.is_prefix_of(p.parts)
}

/// The path of `rel`, names from the outermost to the innermost, below `base`.
pub open spec fn at(base: PathView, rel: Seq<Seq<char>>) -> PathView {
    PathView { parts: base.parts + rel, ..base }
}

/// The path `p` below `from`, below `to` in its place.
pub open spec fn rebased(p: PathView, from: PathView, to: PathView) -> PathView {
    at(to, p.parts.skip(from.parts.len() as int))
}

/// What there is at a path.
pub ghost enum Node {
    Dir,
    File(Seq<u8>),
}

/// What there is at each path.
#[verifier::ext_equal]
pub ghost struct Tree {
    pub nodes: Map<PathView, Node>,
}

impl Tree {
    pub open spec fn has(self, p: PathView) -> bool {
        self.nodes.contains_key(p)
    }

    pub open spec fn is_dir(self, p: PathView) -> bool {
        self.has(p) && self.nodes[p] is Dir
    }

    pub open spec fn is_file(self, p: PathView) -> bool {
        self.has(p) && self.nodes[p] is File
    }

    /// What the file at a path holds.
    pub open spec fn content(self, p: PathView) -> Seq<u8> {
        self.nodes[p]->File_0
    }

    /// Whether everything lies in a directory.
    pub open spec fn rooted(self) -> bool {
        forall|p: PathView| #[trigger]
            self.has(p) && p.parts.len() > 0 ==> self.is_dir(p.parent())
    }

    /// Whether there is nothing at a path or below it.
    pub open spec fn free(self, base: PathView) -> bool {
        forall|p: PathView| #[trigger] self.has(p) ==> !below(p, base)
    }

    /// Whether a directory can be made at a path, and every one that it lies in.
    pub open spec fn makeable(self, p: PathView) -> bool {
        forall|d: PathView| #[trigger] self.has(d) && below(p, d) ==> self.is_dir(d)
    }

    /// With a directory at a path, and with every one that it lies in.
    pub open spec fn made(self, p: PathView) -> Tree {
        Tree {
            nodes: Map::new(
                |d: PathView| self.has(d) || below(p, d),
                |d: PathView|
                    if self.has(d) {
                        self.nodes[d]
                    } else {
                        Node::Dir
                    },
            ),
        }
    }

    /// Whether a directory can be renamed: there is one, and nothing is in its way.
    pub open spec fn renamable(self, from: PathView, to: PathView) -> bool {
        self.is_dir(from) && self.free(to)
    }

    /// With a directory, and all below it, under another path.
    pub open spec fn renamed(self, from: PathView, to: PathView) -> Tree {
        Tree {
            nodes: Map::new(
                |p: PathView|
                    if below(p, to) {
                        self.has(rebased(p, to, from))
                    } else {
                        self.has(p) && !below(p, from)
                    },
                |p: PathView|
                    if below(p, to) {
                        self.nodes[rebased(p, to, from)]
                    } else {
                        self.nodes[p]
                    },
            ),
        }
    }

    /// Whether a file can be moved: there is one, and where it is moved to there is a directory
    /// for it and none in its way.
    pub open spec fn movable(self, from: PathView, to: PathView) -> bool {
        self.is_file(from) && to.parts.len() > 0 && self.is_dir(to.parent()) && !self.is_dir(to)
    }

    /// With a file under another path.
    pub open spec fn moved(self, from: PathView, to: PathView) -> Tree {
        Tree { nodes: self.nodes.remove(from).insert(to, self.nodes[from]) }
    }

    /// Whether a directory can be removed: there is one, and it holds nothing.
    pub open spec fn removable(self, d: PathView) -> bool {
        self.is_dir(d) && forall|p: PathView| #[trigger] self.has(p) && below(p, d) ==> p == d
    }

    /// Without a directory.
    pub open spec fn removed(self, d: PathView) -> Tree {
        Tree { nodes: self.nodes.remove(d) }
    }
}

/// A path is below every path that it continues.
pub proof fn lemma_at(base: PathView, rel: Seq<Seq<char>>)
    ensures
        below(at(base, rel), base),
        at(base, rel).parts.skip(base.parts.len() as int) == rel,
        at(base, rel).parts.len() == base.parts.len() + rel.len(),
        rel.len() > 0 ==> at(base, rel).parent() == at(base, rel.drop_last()),
        rel.len() == 0 ==> at(base, rel) == base,
{
    let p = at(base, rel);
    assert(p.parts.subrange(0, base.parts.len() as int) =~= base.parts);
    assert(p.parts.skip(base.parts.len() as int) =~= rel);
    if rel.len() > 0 {
        assert(p.parts.drop_last() =~= base.parts + rel.drop_last());
    } else {
        assert(p.parts =~= base.parts);
    }
}

/// A path below another continues it.
pub proof fn lemma_below(p: PathView, base: PathView)
    requires
        below(p, base),
    ensures
        at(base, p.parts.skip(base.parts.len() as int)) == p,
{
    assert(base.parts + p.parts.skip(base.parts.len() as int) =~= p.parts);
}

/// What lies below a path below another lies below the other.
pub proof fn lemma_below_below(p: PathView, q: PathView, base: PathView)
    requires
        below(p, q),
        below(q, base),
    ensures
        below(p, base),
{
    assert forall|i: int| 0 <= i < base.parts.len() implies base.parts[i] == p.parts[i] by {
        assert(base.parts[i] == q.parts.subrange(0, base.parts.len() as int)[i]);
        assert(q.parts[i] == p.parts.subrange(0, q.parts.len() as int)[i]);
    }
    assert(base.parts =~= p.parts.subrange(0, base.parts.len() as int));
}

/// What lies below a path, but is not it, lies in something at it or below it.
pub proof fn lemma_below_parent(p: PathView, base: PathView)
    requires
        below(p, base),
        p != base,
    ensures
        p.parts.len() > base.parts.len(),
        below(p.parent(), base),
        below(p, p.parent()),
{
    if p.parts.len() == base.parts.len() {
        assert(p.parts.subrange(0, base.parts.len() as int) =~= p.parts);
        assert(p =~= base);
    }
    let q = p.parent();
    assert(q.parts.subrange(0, base.parts.len() as int) =~= p.parts.subrange(
        0,
        base.parts.len() as int,
    ));
    assert(q.parts =~= p.parts.subrange(0, q.parts.len() as int));
}

/// A path is below itself.
pub proof fn lemma_below_itself(p: PathView)
    ensures
        below(p, p),
{
    assert(p.parts.subrange(0, p.parts.len() as int) =~= p.parts);
}

/// Nothing is below both of two paths side by side.
pub proof fn lemma_apart(p: PathView, a: PathView, b: PathView)
    requires
        a.parts.len() == b.parts.len(),
        below(p, a),
        below(p, b),
    ensures
        a == b,
{
    assert(a.parts =~= b.parts);
}

/// What something lies in is a directory.
pub proof fn lemma_lies_in(tree: Tree, p: PathView, d: PathView)
    requires
        tree.rooted(),
        tree.has(p),
        below(p, d),
        p != d,
    ensures
        tree.is_dir(d),
    decreases p.parts.len(),
{
    lemma_below_parent(p, d);
    if p.parent() != d {
        lemma_lies_in(tree, p.parent(), d);
    }
}

/// A directory that can be made keeps the tree rooted.
pub proof fn lemma_made(tree: Tree, p: PathView)
    requires
        tree.rooted(),
        tree.makeable(p),
    ensures
        tree.made(p).rooted(),
        forall|d: PathView| below(p, d) ==> #[trigger] tree.made(p).is_dir(d),
{
    let after = tree.made(p);
    assert forall|d: PathView| below(p, d) implies #[trigger] after.is_dir(d) by {
        assert(tree.has(d) ==> tree.is_dir(d));
    }
    assert forall|q: PathView| #[trigger] after.has(q) && q.parts.len() > 0 implies after.is_dir(
        q.parent(),
    ) by {
        if tree.has(q) {
            assert(tree.is_dir(q.parent()));
        } else {
            let parent = q.parent();
            lemma_below_itself(q);
            assert(parent.parts.is_prefix_of(q.parts)) by {
                assert(parent.parts =~= q.parts.subrange(0, parent.parts.len() as int));
            }
            lemma_below_below(p, q, parent);
        }
    }
}

/// Where something is a directory already, making it changes nothing.
pub proof fn lemma_made_again(tree: Tree, p: PathView)
    requires
        tree.rooted(),
        tree.is_dir(p),
    ensures
        tree.makeable(p),
        tree.made(p) == tree,
{
    assert forall|d: PathView| below(p, d) implies #[trigger] tree.is_dir(d) by {
        if p != d {
            lemma_lies_in(tree, p, d);
        }
    }
    assert forall|d: PathView| #[trigger] tree.has(d) && below(p, d) implies tree.is_dir(d) by {}
    assert forall|d: PathView| #[trigger]
        tree.made(p).nodes.contains_key(d) == tree.nodes.contains_key(d) by {
        assert(below(p, d) ==> tree.is_dir(d));
    }
    assert(tree.made(p).nodes =~= tree.nodes);
}

/// A file that can be moved keeps the tree rooted.
pub proof fn lemma_moved(tree: Tree, from: PathView, to: PathView)
    requires
        tree.rooted(),
        tree.movable(from, to),
    ensures
        tree.moved(from, to).rooted(),
{
    let after = tree.moved(from, to);
    assert forall|p: PathView| #[trigger] after.has(p) && p.parts.len() > 0 implies after.is_dir(
        p.parent(),
    ) by {
        if p != to {
            assert(tree.has(p));
        }
        assert(tree.is_dir(p.parent()));
    }
}

/// A directory that can be removed keeps the tree rooted.
pub proof fn lemma_removed(tree: Tree, d: PathView)
    requires
        tree.rooted(),
        tree.removable(d),
    ensures
        tree.removed(d).rooted(),
{
    let after = tree.removed(d);
    assert forall|p: PathView| #[trigger] after.has(p) && p.parts.len() > 0 implies after.is_dir(
        p.parent(),
    ) by {
        assert(tree.has(p));
        assert(tree.is_dir(p.parent()));
        if p.parent() == d {
            assert(d.parts =~= p.parts.subrange(0, d.parts.len() as int));
            assert(below(p, d));
        }
    }
}

/// A renamed directory keeps the tree rooted, and what was below it is as it was.
pub proof fn lemma_renamed(tree: Tree, from: PathView, to: PathView)
    requires
        tree.rooted(),
        tree.renamable(from, to),
        from.parts.len() > 0,
        from.parts.len() == to.parts.len(),
        from.parent() == to.parent(),
        from != to,
    ensures
        tree.renamed(from, to).rooted(),
        tree.renamed(from, to).free(from),
        forall|rel: Seq<Seq<char>>| #[trigger]
            tree.renamed(from, to).has(at(to, rel)) <==> tree.has(at(from, rel)),
        forall|rel: Seq<Seq<char>>| #[trigger]
            tree.renamed(from, to).nodes[at(to, rel)] == tree.nodes[at(from, rel)] || !tree.has(
                at(from, rel),
            ),
        forall|p: PathView|
            !below(p, from) && !below(p, to) ==> (#[trigger] tree.renamed(from, to).has(p)
                <==> tree.has(p)),
        forall|p: PathView|
            !below(p, from) && !below(p, to) && tree.has(p) ==> #[trigger] tree.renamed(
                from,
                to,
            ).nodes[p] == tree.nodes[p],
{
    let after = tree.renamed(from, to);
    assert forall|rel: Seq<Seq<char>>| #[trigger]
        after.has(at(to, rel)) <==> tree.has(at(from, rel)) by {
        lemma_at(to, rel);
    }
    assert forall|rel: Seq<Seq<char>>| #[trigger]
        after.nodes[at(to, rel)] == tree.nodes[at(from, rel)] || !tree.has(at(from, rel)) by {
        lemma_at(to, rel);
        assert(after.has(at(to, rel)) <==> tree.has(at(from, rel)));
    }
    assert forall|p: PathView| #[trigger] after.has(p) implies !below(p, from) by {
        if below(p, from) && below(p, to) {
            lemma_apart(p, from, to);
        }
    }
    assert forall|p: PathView| #[trigger] after.has(p) && p.parts.len() > 0 implies after.is_dir(
        p.parent(),
    ) by {
        let parent = p.parent();
        if below(p, to) {
            let rel = p.parts.skip(to.parts.len() as int);
            lemma_below(p, to);
            lemma_at(to, rel);
            lemma_at(from, rel);
            assert(tree.has(at(from, rel)));
            assert(tree.is_dir(at(from, rel).parent()));
            if rel.len() > 0 {
                assert(after.has(at(to, rel.drop_last())));
                assert(after.nodes[at(to, rel.drop_last())] == tree.nodes[at(
                    from,
                    rel.drop_last(),
                )]);
            } else {
                assert(!below(parent, to));
                assert(!below(parent, from));
            }
        } else {
            assert(tree.has(p));
            assert(tree.is_dir(parent));
            assert(below(p, parent)) by {
                assert(parent.parts =~= p.parts.subrange(0, parent.parts.len() as int));
            }
            if below(parent, from) {
                lemma_below_below(p, parent, from);
            }
            if below(parent, to) {
                lemma_below_below(p, parent, to);
            }
        }
    }
}

} // verus!
