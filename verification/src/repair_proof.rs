//! What a repair keeps of the file system that it works on.
use vstd::prelude::*;

use crate::depot_tree::{
    at, below, lemma_apart, lemma_at, lemma_below, lemma_below_below, lemma_below_itself,
    lemma_below_parent, lemma_lies_in, lemma_made, lemma_made_again, lemma_moved, lemma_removed,
    lemma_renamed, Tree,
};
use crate::doctor::{RepairActionView, RepairEventView, RepairStep};
use crate::doctor_laws::law_set_aside_beside;
use crate::path::PathView;
use crate::repair_model::{answer, begun, played, refuses, step, unrefused, Scene, Setting, World};
use crate::report::{all_succeeded, OperationTypeView, OperationView, ReasonView, ReportView};

verus! {

/// Whether a file of the packages is no longer where it was set aside.
pub open spec fn gone(setting: Setting, tree: Tree, rel: Seq<Seq<char>>) -> bool {
    setting.full().is_file(at(setting.packages(), rel)) && !tree.has(at(setting.aside(), rel))
}

/// Whether what the file at a path holds is what a file that is gone held.
pub open spec fn came_from(
    setting: Setting,
    tree: Tree,
    rel: Seq<Seq<char>>,
    p: PathView,
) -> bool {
    gone(setting, tree, rel) && setting.full().content(at(setting.packages(), rel))
        == tree.content(p)
}

/// Whether it is on record that the file at a path could not be re-inserted.
pub open spec fn failure_on_record(operations: Seq<OperationView>, path: Seq<char>) -> bool {
    exists|reason: ReasonView| #[trigger]
        operations.contains(
            OperationView::Failure(OperationTypeView::ArchiveInsert(path), reason),
        )
}

/// The record that the archive at a path was re-inserted.
pub open spec fn inserted(path: PathView) -> OperationView {
    OperationView::Success(OperationTypeView::ArchiveInsert(path.text()))
}

/// What holds of the file system and of the record throughout.
#[verifier::opaque]
pub open spec fn stands(setting: Setting, tree: Tree, operations: Seq<OperationView>) -> bool {
    let full = setting.full();
    let packages = setting.packages();
    let aside = setting.aside();
    &&& tree.rooted()
    &&& tree.is_dir(packages)
    // What is set aside is as it was.
    &&& forall|rel: Seq<Seq<char>>| #[trigger]
        tree.has(at(aside, rel)) ==> full.has(at(packages, rel)) && tree.nodes[at(aside, rel)]
            == full.nodes[at(packages, rel)]
    // Every file of the packages is where it belongs and came from what was set aside.
    &&& forall|p: PathView| #[trigger]
        tree.is_file(p) && below(p, packages) ==> (setting.place)(tree.content(p)) == Some(p) && (
        exists|rel: Seq<Seq<char>>| #[trigger] came_from(setting, tree, rel, p))
    // What is gone has a file in its place and is on record.
    &&& forall|rel: Seq<Seq<char>>| #[trigger]
        gone(setting, tree, rel) ==> ((setting.place)(full.content(at(packages, rel))) matches Some(
            p,
        ) && tree.is_file(p) && operations.contains(inserted(p)))
    // All else is as it was.
    &&& forall|p: PathView|
        !below(p, packages) && !below(p, aside) ==> (#[trigger] tree.has(p) <==> full.has(p)) && (
        full.has(p) ==> tree.nodes[p] == full.nodes[p])
    // Where every file was in its place, no directory is new.
    &&& setting.settled() ==> forall|rel: Seq<Seq<char>>| #[trigger]
        tree.is_dir(at(packages, rel)) ==> full.is_dir(at(packages, rel))
}

/// Whether all but the first entries of the walk are there.
pub open spec fn unmet(setting: Setting, tree: Tree, walked: nat) -> bool {
    forall|i: int|
        walked <= i < setting.walk.len() ==> tree.has(
            at(setting.aside(), #[trigger] setting.walk[i]),
        )
}

/// Whether, of the first entries of the walk, every file that is not gone is on record.
pub open spec fn met(
    setting: Setting,
    tree: Tree,
    operations: Seq<OperationView>,
    walked: nat,
) -> bool {
    forall|i: int|
        0 <= i < walked && setting.full().is_file(at(setting.packages(), setting.walk[i])) && !gone(
            setting,
            tree,
            #[trigger] setting.walk[i],
        ) ==> failure_on_record(operations, setting.entry(i).text())
}

/// What holds of the file system and of the record once `walked` entries were dealt with.
pub open spec fn kept(
    setting: Setting,
    tree: Tree,
    operations: Seq<OperationView>,
    walked: nat,
) -> bool {
    &&& stands(setting, tree, operations)
    &&& unmet(setting, tree, walked)
    &&& met(setting, tree, operations, walked)
}

/// Whether every directory that was set aside is still there.
pub open spec fn whole(setting: Setting, tree: Tree) -> bool {
    forall|rel: Seq<Seq<char>>|
        setting.full().is_dir(at(setting.packages(), rel)) ==> #[trigger] tree.has(
            at(setting.aside(), rel),
        )
}

/// The directories among the first entries of the walk.
pub open spec fn dirs_among(setting: Setting, walked: nat) -> Seq<u64>
    decreases walked,
{
    if walked == 0 {
        Seq::empty()
    } else {
        let before = dirs_among(setting, (walked - 1) as nat);
        if setting.full().is_dir(at(setting.packages(), setting.walk[walked - 1])) {
            before.push((walked - 1) as u64)
        } else {
            before
        }
    }
}

/// What is on record once all of the first entries of the walk were dealt with and nothing
/// failed.
pub open spec fn record(setting: Setting, walked: nat) -> Seq<OperationView>
    decreases walked,
{
    if walked == 0 {
        seq![OperationView::Success(OperationTypeView::InitDepotFs(setting.depot.path))]
    } else {
        let before = record(setting, (walked - 1) as nat);
        let rel = setting.walk[walked - 1];
        if setting.full().is_file(at(setting.packages(), rel)) {
            before.push(inserted(at(setting.packages(), rel)))
        } else {
            before
        }
    }
}

/// Where the packages are and where they are set aside lie side by side, and nothing is below
/// both.
proof fn lemma_side_by_side(setting: Setting)
    requires
        setting.sound(),
    ensures
        setting.packages().parts.len() == setting.aside().parts.len(),
        setting.packages().parent() == setting.aside().parent(),
        forall|p: PathView|
            !(#[trigger] below(p, setting.packages()) && below(p, setting.aside())),
        setting.full().free(setting.aside()),
{
    let packages = setting.packages();
    let aside = setting.aside();
    law_set_aside_beside(packages, setting.start);
    assert forall|p: PathView| !(#[trigger] below(p, packages) && below(p, aside)) by {
        if below(p, packages) && below(p, aside) {
            lemma_apart(p, packages, aside);
        }
    }
    assert forall|p: PathView| #[trigger] setting.full().has(p) implies !below(p, aside) by {
        if setting.tree.has(p) {
        } else if below(p, aside) {
            assert(below(packages, p));
            assert(p.parts.len() == packages.parts.len());
            assert(packages.parts.subrange(0, p.parts.len() as int) =~= packages.parts);
            assert(p =~= packages);
            lemma_below_itself(packages);
        }
    }
}

/// Of two paths that something lies below, one lies below the other.
proof fn lemma_chain(p: PathView, a: PathView, b: PathView)
    requires
        below(p, a),
        below(p, b),
        a.parts.len() <= b.parts.len(),
    ensures
        below(b, a),
{
    assert(a.parts =~= b.parts.subrange(0, a.parts.len() as int)) by {
        assert forall|i: int| 0 <= i < a.parts.len() implies a.parts[i] == b.parts[i] by {
            assert(a.parts[i] == p.parts.subrange(0, a.parts.len() as int)[i]);
            assert(b.parts[i] == p.parts.subrange(0, b.parts.len() as int)[i]);
        }
    }
}

/// More on record does no harm.
#[verifier::spinoff_prover]
proof fn lemma_kept_grows(
    setting: Setting,
    tree: Tree,
    operations: Seq<OperationView>,
    more: OperationView,
    walked: nat,
)
    requires
        kept(setting, tree, operations, walked),
    ensures
        kept(setting, tree, operations.push(more), walked),
{
    reveal(stands);
    let after = operations.push(more);
    assert forall|op: OperationView| operations.contains(op) implies #[trigger] after.contains(
        op,
    ) by {
        let i = choose|i: int| 0 <= i < operations.len() && operations[i] == op;
        assert(after[i] == op);
    }
    assert forall|i: int|
        0 <= i < walked && setting.full().is_file(at(setting.packages(), setting.walk[i])) && !gone(
            setting,
            tree,
            #[trigger] setting.walk[i],
        ) implies failure_on_record(after, setting.entry(i).text()) by {
        let path = setting.entry(i).text();
        assert(failure_on_record(operations, path));
        let reason = choose|reason: ReasonView| #[trigger]
            operations.contains(
                OperationView::Failure(OperationTypeView::ArchiveInsert(path), reason),
            );
        assert(after.contains(
            OperationView::Failure(OperationTypeView::ArchiveInsert(path), reason),
        ));
    }
}

/// A file that stays where it was set aside, with that on record, was dealt with.
#[verifier::spinoff_prover]
proof fn lemma_passed_over(
    setting: Setting,
    tree: Tree,
    operations: Seq<OperationView>,
    reason: ReasonView,
    walked: nat,
)
    requires
        kept(setting, tree, operations, walked),
        walked < setting.walk.len(),
    ensures
        kept(
            setting,
            tree,
            operations.push(
                OperationView::Failure(
                    OperationTypeView::ArchiveInsert(setting.entry(walked as int).text()),
                    reason,
                ),
            ),
            walked + 1,
        ),
{
    let path = setting.entry(walked as int).text();
    let op = OperationView::Failure(OperationTypeView::ArchiveInsert(path), reason);
    lemma_kept_grows(setting, tree, operations, op, walked);
    let after = operations.push(op);
    assert(after[operations.len() as int] == op);
    assert(after.contains(op));
    assert(failure_on_record(after, path));
}

/// A directory was dealt with when it was met.
proof fn lemma_passed_through(
    setting: Setting,
    tree: Tree,
    operations: Seq<OperationView>,
    walked: nat,
)
    requires
        kept(setting, tree, operations, walked),
        walked < setting.walk.len(),
        !setting.full().is_file(at(setting.packages(), setting.walk[walked as int])),
    ensures
        kept(setting, tree, operations, walked + 1),
{
}

/// Making a directory for an archive keeps what holds.
#[verifier::spinoff_prover]
proof fn lemma_parent_made(
    setting: Setting,
    tree: Tree,
    operations: Seq<OperationView>,
    walked: nat,
    target: PathView,
)
    requires
        setting.sound(),
        kept(setting, tree, operations, walked),
        whole(setting, tree),
        walked < setting.walk.len(),
        setting.full().is_file(at(setting.packages(), setting.walk[walked as int])),
        (setting.place)(
            setting.full().content(at(setting.packages(), setting.walk[walked as int])),
        ) == Some(target),
        tree.makeable(target.parent()),
        setting.full().rooted(),
        setting.full().is_dir(setting.packages()),
    ensures
        kept(setting, tree.made(target.parent()), operations, walked),
        whole(setting, tree.made(target.parent())),
        tree.made(target.parent()).is_dir(target.parent()),
{
    reveal(stands);
    let full = setting.full();
    let packages = setting.packages();
    let aside = setting.aside();
    let parent = target.parent();
    let after = tree.made(parent);
    lemma_side_by_side(setting);
    lemma_made(tree, parent);
    lemma_below_itself(parent);
    lemma_below_parent(target, packages);
    assert forall|d: PathView| #[trigger] after.has(d) && !tree.has(d) implies below(
        d,
        packages,
    ) by {
        assert(below(parent, d));
        if d.parts.len() >= packages.parts.len() {
            lemma_chain(parent, packages, d);
        } else {
            lemma_chain(parent, d, packages);
            lemma_lies_in(tree, packages, d);
        }
    }
    assert forall|rel: Seq<Seq<char>>| #[trigger]
        after.has(at(aside, rel)) == tree.has(at(aside, rel)) by {
        lemma_at(aside, rel);
    }
    assert forall|rel: Seq<Seq<char>>| #[trigger]
        gone(setting, after, rel) == gone(setting, tree, rel) by {
        assert(after.has(at(aside, rel)) == tree.has(at(aside, rel)));
    }
    assert forall|i: int| walked <= i < setting.walk.len() implies after.has(
        at(aside, #[trigger] setting.walk[i]),
    ) by {}
    assert forall|p: PathView| #[trigger] after.is_file(p) && below(p, packages) implies (
    setting.place)(after.content(p)) == Some(p) && (exists|rel: Seq<Seq<char>>| #[trigger]
        came_from(setting, after, rel, p)) by {
        assert(tree.is_file(p));
        let rel = choose|rel: Seq<Seq<char>>| #[trigger] came_from(setting, tree, rel, p);
        assert(came_from(setting, after, rel, p));
    }
    assert forall|rel: Seq<Seq<char>>| #[trigger] gone(setting, after, rel) implies ((
    setting.place)(full.content(at(packages, rel))) matches Some(p) && after.is_file(p)
        && operations.contains(inserted(p))) by {
        assert(gone(setting, tree, rel));
    }
    assert forall|i: int|
        0 <= i < walked && full.is_file(at(packages, setting.walk[i])) && !gone(
            setting,
            after,
            #[trigger] setting.walk[i],
        ) implies failure_on_record(operations, setting.entry(i).text()) by {
        assert(!gone(setting, tree, setting.walk[i]));
    }
    if setting.settled() {
        lemma_made_again(setting.tree, packages);
        let rel = setting.walk[walked as int];
        let here = at(packages, rel);
        assert(setting.tree.is_file(here));
        lemma_at(packages, rel);
        assert(target == here);
        assert forall|rel: Seq<Seq<char>>| #[trigger]
            after.is_dir(at(packages, rel)) implies full.is_dir(at(packages, rel)) by {
            let d = at(packages, rel);
            if tree.has(d) {
                assert(tree.is_dir(d));
            } else {
                assert(below(parent, d));
                lemma_below_below(target, parent, d);
                lemma_lies_in(full, here, d);
            }
        }
    }
}

/// Moving an archive to where it belongs, with that on record, keeps what holds.
#[verifier::spinoff_prover]
proof fn lemma_archive_moved(
    setting: Setting,
    tree: Tree,
    operations: Seq<OperationView>,
    walked: nat,
    target: PathView,
)
    requires
        setting.sound(),
        kept(setting, tree, operations, walked),
        whole(setting, tree),
        walked < setting.walk.len(),
        setting.full().is_file(at(setting.packages(), setting.walk[walked as int])),
        (setting.place)(
            setting.full().content(at(setting.packages(), setting.walk[walked as int])),
        ) == Some(target),
        tree.movable(setting.entry(walked as int), target),
    ensures
        kept(
            setting,
            tree.moved(setting.entry(walked as int), target),
            operations.push(inserted(target)),
            walked + 1,
        ),
        whole(setting, tree.moved(setting.entry(walked as int), target)),
        gone(
            setting,
            tree.moved(setting.entry(walked as int), target),
            setting.walk[walked as int],
        ),
{
    reveal(stands);
    let full = setting.full();
    let packages = setting.packages();
    let aside = setting.aside();
    let here = setting.walk[walked as int];
    let from = setting.entry(walked as int);
    let after = tree.moved(from, target);
    let grown = operations.push(inserted(target));
    lemma_side_by_side(setting);
    lemma_moved(tree, from, target);
    lemma_below_itself(packages);
    lemma_kept_grows(setting, tree, operations, inserted(target), walked);
    lemma_at(aside, here);
    assert(grown[operations.len() as int] == inserted(target));
    assert(grown.contains(inserted(target)));
    assert forall|rel: Seq<Seq<char>>| #[trigger]
        after.has(at(aside, rel)) == (tree.has(at(aside, rel)) && rel != here) by {
        lemma_at(aside, rel);
    }
    assert forall|rel: Seq<Seq<char>>| #[trigger]
        gone(setting, after, rel) == (gone(setting, tree, rel) || rel == here) by {
        assert(after.has(at(aside, rel)) == (tree.has(at(aside, rel)) && rel != here));
    }
    assert forall|rel: Seq<Seq<char>>| #[trigger] after.has(at(aside, rel)) implies full.has(
        at(packages, rel),
    ) && after.nodes[at(aside, rel)] == full.nodes[at(packages, rel)] by {
        lemma_at(aside, rel);
        assert(tree.has(at(aside, rel)));
    }
    assert forall|i: int| walked + 1 <= i < setting.walk.len() implies after.has(
        at(aside, #[trigger] setting.walk[i]),
    ) by {
        assert(setting.walk[i] != here);
        assert(after.has(at(aside, setting.walk[i])) == tree.has(at(aside, setting.walk[i])));
    }
    assert forall|p: PathView| #[trigger] after.is_file(p) && below(p, packages) implies (
    setting.place)(after.content(p)) == Some(p) && (exists|rel: Seq<Seq<char>>| #[trigger]
        came_from(setting, after, rel, p)) by {
        if p == target {
            assert(came_from(setting, after, here, p));
        } else {
            assert(tree.is_file(p));
            let rel = choose|rel: Seq<Seq<char>>| #[trigger] came_from(setting, tree, rel, p);
            assert(gone(setting, after, rel));
            assert(came_from(setting, after, rel, p));
        }
    }
    assert forall|rel: Seq<Seq<char>>| #[trigger] gone(setting, after, rel) implies ((
    setting.place)(full.content(at(packages, rel))) matches Some(p) && after.is_file(p)
        && grown.contains(inserted(p))) by {
        if rel != here {
            assert(gone(setting, tree, rel));
        }
    }
    assert forall|i: int|
        0 <= i < walked + 1 && full.is_file(at(packages, setting.walk[i])) && !gone(
            setting,
            after,
            #[trigger] setting.walk[i],
        ) implies failure_on_record(grown, setting.entry(i).text()) by {
        assert(!gone(setting, tree, setting.walk[i]));
    }
    assert forall|rel: Seq<Seq<char>>| full.is_dir(at(packages, rel)) implies #[trigger] after.has(
        at(aside, rel),
    ) by {
        assert(tree.has(at(aside, rel)));
    }
    assert forall|p: PathView| !below(p, packages) && !below(p, aside) implies (
    #[trigger] after.has(p) <==> full.has(p)) && (full.has(p) ==> after.nodes[p]
        == full.nodes[p]) by {
        assert(tree.has(p) <==> full.has(p));
    }
    if setting.settled() {
        assert forall|rel: Seq<Seq<char>>| #[trigger]
            after.is_dir(at(packages, rel)) implies full.is_dir(at(packages, rel)) by {
            assert(tree.is_dir(at(packages, rel)));
        }
    }
    assert(from != packages);
    assert(after.is_dir(packages));
    assert(stands(setting, after, grown));
}

/// The packages are set aside as they are, and a fresh directory is made for them.
#[verifier::spinoff_prover]
proof fn lemma_shelved(setting: Setting, operations: Seq<OperationView>)
    requires
        setting.sound(),
        setting.full().rooted(),
        setting.full().is_dir(setting.packages()),
    ensures
        setting.full().renamable(setting.packages(), setting.aside()),
        setting.full().renamed(setting.packages(), setting.aside()).makeable(setting.packages()),
        ({
            let tree = setting.full().renamed(setting.packages(), setting.aside()).made(
                setting.packages(),
            );
            kept(setting, tree, operations, 0) && whole(setting, tree)
        }),
{
    reveal(stands);
    let full = setting.full();
    let packages = setting.packages();
    let aside = setting.aside();
    let shelved = full.renamed(packages, aside);
    let tree = shelved.made(packages);
    lemma_side_by_side(setting);
    lemma_renamed(full, packages, aside);
    lemma_below_itself(packages);
    assert forall|d: PathView| #[trigger] shelved.has(d) && below(
        packages,
        d,
    ) implies shelved.is_dir(d) by {
        assert(d != packages);
        lemma_lies_in(full, packages, d);
        lemma_below_parent(packages, d);
        assert(!below(d, packages));
        assert(!below(d, aside));
    }
    lemma_made(shelved, packages);
    assert forall|rel: Seq<Seq<char>>| #[trigger]
        tree.has(at(aside, rel)) == full.has(at(packages, rel)) by {
        lemma_at(aside, rel);
        let p = at(aside, rel);
        if below(packages, p) {
            assert(p.parts.len() == packages.parts.len());
            assert(packages.parts.subrange(0, p.parts.len() as int) =~= packages.parts);
            assert(p =~= packages);
        }
        assert(shelved.has(p) == full.has(at(packages, rel)));
    }
    assert forall|rel: Seq<Seq<char>>| #[trigger] tree.has(at(aside, rel)) implies full.has(
        at(packages, rel),
    ) && tree.nodes[at(aside, rel)] == full.nodes[at(packages, rel)] by {
        assert(shelved.has(at(aside, rel)));
        assert(shelved.nodes[at(aside, rel)] == full.nodes[at(packages, rel)]);
    }
    assert forall|i: int| 0 <= i < setting.walk.len() implies tree.has(
        at(aside, #[trigger] setting.walk[i]),
    ) by {
        assert(setting.walk.contains(setting.walk[i]));
    }
    assert forall|p: PathView| #[trigger] tree.has(p) && below(p, packages) implies p
        == packages by {
        assert(!shelved.has(p));
        assert(below(packages, p));
        if p != packages {
            lemma_below_parent(packages, p);
        }
    }
    assert forall|p: PathView| #[trigger] tree.is_file(p) && below(p, packages) implies (
    setting.place)(tree.content(p)) == Some(p) && (exists|rel: Seq<Seq<char>>| #[trigger]
        came_from(setting, tree, rel, p)) by {
        assert(tree.has(p));
        assert(tree.is_dir(packages));
    }
    assert forall|rel: Seq<Seq<char>>| !(#[trigger] gone(setting, tree, rel)) by {
        assert(tree.has(at(aside, rel)) == full.has(at(packages, rel)));
    }
    assert forall|p: PathView| !below(p, packages) && !below(p, aside) implies (
    #[trigger] tree.has(p) <==> full.has(p)) && (full.has(p) ==> tree.nodes[p] == full.nodes[p]) by {
        assert(shelved.has(p) <==> full.has(p));
        if below(packages, p) && p != packages {
            lemma_lies_in(full, packages, p);
        }
        if full.has(p) {
            assert(shelved.nodes[p] == full.nodes[p]);
        }
    }
    assert forall|rel: Seq<Seq<char>>| #[trigger] tree.is_dir(at(packages, rel)) implies full.is_dir(
        at(packages, rel),
    ) by {
        lemma_at(packages, rel);
        assert(tree.has(at(packages, rel)));
    }
}

/// The directories among the first entries, in order.
proof fn lemma_dirs_among(setting: Setting, walked: nat)
    requires
        walked <= setting.walk.len(),
        setting.walk.len() <= usize::MAX,
    ensures
        dirs_among(setting, walked).len() <= walked,
        forall|i: int|
            0 <= i < dirs_among(setting, walked).len() ==> (#[trigger] dirs_among(
                setting,
                walked,
            )[i]) < walked && setting.full().is_dir(
                at(setting.packages(), setting.walk[dirs_among(setting, walked)[i] as int]),
            ),
        forall|i: int, j: int|
            0 <= i < j < dirs_among(setting, walked).len() ==> (#[trigger] dirs_among(
                setting,
                walked,
            )[i]) < (#[trigger] dirs_among(setting, walked)[j]),
        forall|k: int|
            0 <= k < walked && setting.full().is_dir(
                at(setting.packages(), #[trigger] setting.walk[k]),
            ) ==> dirs_among(setting, walked).contains(k as u64),
    decreases walked,
{
    if walked > 0 {
        let n = (walked - 1) as nat;
        lemma_dirs_among(setting, n);
        let before = dirs_among(setting, n);
        let all = dirs_among(setting, walked);
        assert forall|k: int|
            0 <= k < walked && setting.full().is_dir(
                at(setting.packages(), #[trigger] setting.walk[k]),
            ) implies all.contains(k as u64) by {
            if k == n {
                assert(all[before.len() as int] == k as u64);
            } else {
                assert(before.contains(k as u64));
                let i = choose|i: int| 0 <= i < before.len() && before[i] == k as u64;
                assert(all[i] == k as u64);
            }
        }
    }
}

/// Removing a directory of what was set aside keeps what holds.
#[verifier::spinoff_prover]
proof fn lemma_directory_removed(
    setting: Setting,
    tree: Tree,
    operations: Seq<OperationView>,
    rel: Seq<Seq<char>>,
)
    requires
        setting.sound(),
        kept(setting, tree, operations, setting.walk.len()),
        setting.full().is_dir(at(setting.packages(), rel)),
        tree.removable(at(setting.aside(), rel)),
    ensures
        kept(setting, tree.removed(at(setting.aside(), rel)), operations, setting.walk.len()),
        forall|other: Seq<Seq<char>>| #[trigger]
            tree.removed(at(setting.aside(), rel)).has(at(setting.aside(), other)) <==> tree.has(
                at(setting.aside(), other),
            ) && other != rel,
{
    reveal(stands);
    let full = setting.full();
    let packages = setting.packages();
    let aside = setting.aside();
    let after = tree.removed(at(aside, rel));
    lemma_side_by_side(setting);
    lemma_removed(tree, at(aside, rel));
    lemma_below_itself(packages);
    lemma_at(aside, rel);
    assert forall|other: Seq<Seq<char>>| #[trigger]
        after.has(at(aside, other)) <==> tree.has(at(aside, other)) && other != rel by {
        lemma_at(aside, other);
    }
    assert forall|other: Seq<Seq<char>>| #[trigger]
        gone(setting, after, other) == gone(setting, tree, other) by {
        assert(after.has(at(aside, other)) <==> tree.has(at(aside, other)) && other != rel);
    }
    assert forall|other: Seq<Seq<char>>| #[trigger] after.has(at(aside, other)) implies full.has(
        at(packages, other),
    ) && after.nodes[at(aside, other)] == full.nodes[at(packages, other)] by {
        assert(tree.has(at(aside, other)));
    }
    assert forall|p: PathView| #[trigger] after.is_file(p) && below(p, packages) implies (
    setting.place)(after.content(p)) == Some(p) && (exists|rel: Seq<Seq<char>>| #[trigger]
        came_from(setting, after, rel, p)) by {
        assert(tree.is_file(p));
        let other = choose|other: Seq<Seq<char>>| #[trigger] came_from(setting, tree, other, p);
        assert(gone(setting, after, other));
        assert(came_from(setting, after, other, p));
    }
    assert forall|other: Seq<Seq<char>>| #[trigger] gone(setting, after, other) implies ((
    setting.place)(full.content(at(packages, other))) matches Some(p) && after.is_file(p)
        && operations.contains(inserted(p))) by {
        assert(gone(setting, tree, other));
    }
    assert forall|i: int|
        0 <= i < setting.walk.len() && full.is_file(at(packages, setting.walk[i])) && !gone(
            setting,
            after,
            #[trigger] setting.walk[i],
        ) implies failure_on_record(operations, setting.entry(i).text()) by {
        assert(!gone(setting, tree, setting.walk[i]));
    }
    assert forall|p: PathView| !below(p, packages) && !below(p, aside) implies (
    #[trigger] after.has(p) <==> full.has(p)) && (full.has(p) ==> after.nodes[p]
        == full.nodes[p]) by {
        assert(tree.has(p) <==> full.has(p));
    }
    if setting.settled() {
        assert forall|other: Seq<Seq<char>>| #[trigger]
            after.is_dir(at(packages, other)) implies full.is_dir(at(packages, other)) by {
            assert(tree.is_dir(at(packages, other)));
        }
    }
    assert(at(aside, rel) != packages);
    assert(after.is_dir(packages));
    assert(stands(setting, after, operations));
}

/// What a repair that is about to look at the next entry, or at work on one, knows.
pub open spec fn walking(setting: Setting, s: Scene, walked: nat) -> bool {
    &&& walked <= setting.walk.len()
    &&& s.doctor.directories == dirs_among(setting, walked)
    &&& !s.doctor.littered
    &&& kept(setting, s.world.tree, s.doctor.operations, walked)
    &&& whole(setting, s.world.tree)
    &&& setting.full().rooted()
    &&& setting.full().is_dir(setting.packages())
}

/// What a repair that has a file at hand knows.
pub open spec fn handling(setting: Setting, s: Scene) -> bool {
    &&& s.world.next > 0
    &&& s.world.next <= setting.walk.len()
    &&& s.doctor.entry == s.world.next - 1
    &&& s.doctor.entry_path == setting.entry(s.world.next - 1).text()
    &&& setting.full().is_file(at(setting.packages(), setting.walk[s.world.next - 1]))
    &&& walking(setting, s, (s.world.next - 1) as nat)
}

/// What the file at hand holds.
pub open spec fn in_hand(setting: Setting, s: Scene) -> Seq<u8> {
    setting.full().content(at(setting.packages(), setting.walk[s.world.next - 1]))
}

/// Whether the file at hand is an archive, and it is known where it belongs.
pub open spec fn located(setting: Setting, s: Scene) -> bool {
    &&& handling(setting, s)
    &&& (setting.place)(in_hand(setting, s)) == Some(s.world.target)
    &&& s.doctor.target == s.world.target.text()
}

/// What a repair that has `left` directories left to remove knows.
pub open spec fn clearing(setting: Setting, s: Scene, left: nat) -> bool {
    let dirs = dirs_among(setting, setting.walk.len());
    let tree = s.world.tree;
    &&& left <= dirs.len()
    &&& s.doctor.directories == dirs
    &&& kept(setting, tree, s.doctor.operations, setting.walk.len())
    &&& setting.full().rooted()
    &&& setting.full().is_dir(setting.packages())
    &&& s.doctor.littered ==> !all_succeeded(s.doctor.operations)
    &&& forall|i: int|
        0 <= i < left ==> tree.is_dir(setting.entry((#[trigger] dirs[i]) as int))
    &&& !s.doctor.littered ==> forall|rel: Seq<Seq<char>>|
        setting.full().is_dir(at(setting.packages(), rel)) && #[trigger] tree.has(
            at(setting.aside(), rel),
        ) ==> exists|i: int| 0 <= i < left && setting.walk[(#[trigger] dirs[i]) as int] == rel
}

/// What holds of a scene with a report.
pub open spec fn ended(setting: Setting, tree: Tree, report: ReportView) -> bool {
    &&& kept(setting, tree, report.operations, setting.walk.len())
    &&& report.start == setting.start
    &&& report.success == all_succeeded(report.operations)
    &&& report.success ==> tree.free(setting.aside())
}

/// What holds of every scene.
pub open spec fn holds(setting: Setting, s: Scene) -> bool {
    let d = s.doctor;
    let tree = s.world.tree;
    let packages = setting.packages();
    let aside = setting.aside();
    &&& d.depot == setting.depot
    &&& d.start == setting.start
    &&& d.packages_path == aside
    &&& match d.step {
        RepairStep::Idle => false,
        RepairStep::Stat => {
            &&& s.action == RepairActionView::Stat(setting.depot.path)
            &&& tree == setting.tree
            &&& s.world.next == 0
            &&& d.directories.len() == 0
            &&& !d.littered
        },
        RepairStep::MakePackages => {
            &&& s.action == RepairActionView::CreateDirAll(packages)
            &&& tree == setting.tree
            &&& s.world.next == 0
            &&& d.directories.len() == 0
            &&& !d.littered
        },
        RepairStep::Shelve => {
            &&& s.action == RepairActionView::Rename(packages, aside)
            &&& tree == setting.full()
            &&& tree.rooted()
            &&& tree.is_dir(packages)
            &&& s.world.next == 0
            &&& d.directories.len() == 0
            &&& !d.littered
        },
        RepairStep::Remake => {
            &&& s.action == RepairActionView::CreateDirAll(packages)
            &&& tree == setting.full().renamed(packages, aside)
            &&& setting.full().rooted()
            &&& setting.full().is_dir(packages)
            &&& s.world.next == 0
            &&& d.directories.len() == 0
            &&& !d.littered
        },
        RepairStep::Walk => {
            &&& s.action == RepairActionView::NextEntry || s.action == RepairActionView::Walk(aside)
            &&& walking(setting, s, s.world.next)
        },
        RepairStep::Ident => {
            &&& s.action == RepairActionView::ReadIdent(d.entry)
            &&& handling(setting, s)
        },
        RepairStep::Package => {
            &&& s.action == RepairActionView::ReadPackage(d.entry)
            &&& handling(setting, s)
            &&& (setting.place)(in_hand(setting, s)) is Some
        },
        RepairStep::Store => {
            &&& s.action == RepairActionView::Store(d.entry)
            &&& handling(setting, s)
            &&& (setting.place)(in_hand(setting, s)) is Some
        },
        RepairStep::Locate => {
            &&& s.action == RepairActionView::Locate(d.entry)
            &&& handling(setting, s)
            &&& (setting.place)(in_hand(setting, s)) is Some
        },
        RepairStep::MakeParent => {
            &&& s.action == RepairActionView::CreateParent(d.target)
            &&& located(setting, s)
        },
        RepairStep::Move => {
            &&& s.action == RepairActionView::Move(d.entry, d.target)
            &&& located(setting, s)
            &&& tree.is_dir(s.world.target.parent())
        },
        RepairStep::Cleanup(left) => {
            &&& left > 0
            &&& s.action == RepairActionView::RemoveDir(d.directories[left - 1])
            &&& clearing(setting, s, left as nat)
        },
        RepairStep::Finished => match s.action {
            RepairActionView::Finish(Ok(report)) => ended(setting, tree, report),
            RepairActionView::Finish(Err(_)) => true,
            _ => false,
        },
    }
}

/// An entry that was not met yet is where it was set aside, as it was.
proof fn lemma_next_entry(
    setting: Setting,
    tree: Tree,
    operations: Seq<OperationView>,
    walked: nat,
)
    requires
        setting.sound(),
        kept(setting, tree, operations, walked),
        walked < setting.walk.len(),
    ensures
        tree.has(setting.entry(walked as int)),
        tree.nodes[setting.entry(walked as int)] == setting.full().nodes[at(
            setting.packages(),
            setting.walk[walked as int],
        )],
        setting.full().has(at(setting.packages(), setting.walk[walked as int])),
{
    reveal(stands);
    assert(tree.has(at(setting.aside(), setting.walk[walked as int])));
}

/// A file at hand is where it was set aside, as it was.
proof fn lemma_in_hand(setting: Setting, s: Scene)
    requires
        setting.sound(),
        handling(setting, s),
    ensures
        s.world.tree.is_file(setting.entry(s.doctor.entry as int)),
        s.world.tree.content(setting.entry(s.doctor.entry as int)) == in_hand(setting, s),
{
    lemma_next_entry(
        setting,
        s.world.tree,
        s.doctor.operations,
        (s.world.next - 1) as nat,
    );
}

/// Where the removals begin, all that is left is what the walk met.
#[verifier::spinoff_prover]
proof fn lemma_clearing_begins(setting: Setting, s: Scene)
    requires
        setting.sound(),
        walking(setting, s, setting.walk.len()),
    ensures
        clearing(setting, s, dirs_among(setting, setting.walk.len()).len()),
{
    reveal(stands);
    let dirs = dirs_among(setting, setting.walk.len());
    let tree = s.world.tree;
    lemma_dirs_among(setting, setting.walk.len());
    assert forall|i: int| 0 <= i < dirs.len() implies tree.is_dir(
        setting.entry((#[trigger] dirs[i]) as int),
    ) by {
        assert(tree.has(at(setting.aside(), setting.walk[dirs[i] as int])));
    }
    assert forall|rel: Seq<Seq<char>>|
        setting.full().is_dir(at(setting.packages(), rel)) && #[trigger] tree.has(
            at(setting.aside(), rel),
        ) implies exists|i: int|
        0 <= i < dirs.len() && setting.walk[(#[trigger] dirs[i]) as int] == rel by {
        assert(setting.walk.contains(rel));
        let k = choose|k: int| 0 <= k < setting.walk.len() && setting.walk[k] == rel;
        assert(dirs.contains(k as u64));
        let i = choose|i: int| 0 <= i < dirs.len() && dirs[i] == k as u64;
        assert(setting.walk[dirs[i] as int] == rel);
    }
}

/// A scene with nothing left to remove is ready for the report.
#[verifier::spinoff_prover]
proof fn lemma_cleared(setting: Setting, s: Scene, report: ReportView)
    requires
        setting.sound(),
        clearing(setting, s, 0),
        s.doctor.start == setting.start,
        report.start == setting.start,
        report.operations == s.doctor.cleaned().operations,
        report.success == all_succeeded(report.operations),
    ensures
        ended(setting, s.world.tree, report),
{
    reveal(stands);
    let tree = s.world.tree;
    let operations = s.doctor.operations;
    if !s.doctor.littered && s.doctor.directories.len() > 0 {
        lemma_kept_grows(
            setting,
            tree,
            operations,
            report.operations.last(),
            setting.walk.len(),
        );
        assert(report.operations == operations.push(report.operations.last()));
    }
    if report.success {
        if s.doctor.littered {
            assert(false);
        }
        assert forall|p: PathView| #[trigger] tree.has(p) implies !below(p, setting.aside()) by {
            if below(p, setting.aside()) {
                let rel = p.parts.skip(setting.aside().parts.len() as int);
                lemma_below(p, setting.aside());
                assert(tree.has(at(setting.aside(), rel)));
                assert(setting.full().has(at(setting.packages(), rel)));
                if setting.full().is_file(at(setting.packages(), rel)) {
                    assert(setting.walk.contains(rel));
                    let k = choose|k: int| 0 <= k < setting.walk.len() && setting.walk[k] == rel;
                    assert(!gone(setting, tree, setting.walk[k]));
                    lemma_no_failure(report.operations, setting.entry(k).text());
                }
            }
        }
    }
}

/// Where nothing failed, no failure is on record.
proof fn lemma_no_failure(operations: Seq<OperationView>, path: Seq<char>)
    requires
        all_succeeded(operations),
    ensures
        !failure_on_record(operations, path),
{
}

/// A repair that begins meets what holds.
proof fn lemma_begun(setting: Setting)
    requires
        setting.sound(),
    ensures
        holds(setting, begun(setting)),
{
}

/// The preparation keeps what holds.
#[verifier::spinoff_prover]
proof fn lemma_prepares(setting: Setting, s: Scene, refusal: Option<RepairEventView>)
    requires
        setting.sound(),
        holds(setting, s),
        s.doctor.preparing(),
    ensures
        holds(setting, step(setting, s, refusal)),
{
    let after = step(setting, s, refusal);
    match s.doctor.step {
        RepairStep::MakePackages => {
            if s.world.tree.makeable(setting.packages()) {
                lemma_made(setting.tree, setting.packages());
                lemma_below_itself(setting.packages());
            }
        },
        RepairStep::Remake => {
            lemma_shelved(setting, after.doctor.operations);
            assert(after.doctor.directories =~= dirs_among(setting, 0));
        },
        _ => {},
    }
}

/// The walk keeps what holds.
#[verifier::spinoff_prover]
proof fn lemma_walks(setting: Setting, s: Scene, refusal: Option<RepairEventView>)
    requires
        setting.sound(),
        holds(setting, s),
        s.doctor.step == RepairStep::Walk,
    ensures
        holds(setting, step(setting, s, refusal)),
{
    let after = step(setting, s, refusal);
    let walked = s.world.next;
    if walked < setting.walk.len() {
        lemma_next_entry(setting, s.world.tree, s.doctor.operations, walked);
        if s.world.tree.is_dir(setting.entry(walked as int)) {
            lemma_passed_through(setting, s.world.tree, s.doctor.operations, walked);
        }
    } else {
        let n = dirs_among(setting, setting.walk.len()).len();
        lemma_dirs_among(setting, setting.walk.len());
        lemma_clearing_begins(setting, s);
        if n == 0 {
            lemma_cleared(setting, s, after.action->Finish_0->Ok_0);
        }
    }
}

/// Dealing with a file keeps what holds.
#[verifier::spinoff_prover]
proof fn lemma_handles(setting: Setting, s: Scene, refusal: Option<RepairEventView>)
    requires
        setting.sound(),
        holds(setting, s),
        handling(setting, s),
        match s.doctor.step {
            RepairStep::Ident | RepairStep::Package | RepairStep::Store | RepairStep::Locate
            | RepairStep::MakeParent | RepairStep::Move => true,
            _ => false,
        },
    ensures
        holds(setting, step(setting, s, refusal)),
{
    let after = step(setting, s, refusal);
    let walked = (s.world.next - 1) as nat;
    let tree = s.world.tree;
    let operations = s.doctor.operations;
    let target = s.world.target;
    lemma_in_hand(setting, s);
    if after.doctor.operations.len() > operations.len() && after.doctor.operations.last()
        is Failure {
        lemma_passed_over(
            setting,
            tree,
            operations,
            after.doctor.operations.last()->Failure_1,
            walked,
        );
    }
    match s.doctor.step {
        RepairStep::MakeParent => {
            if tree.makeable(target.parent()) {
                lemma_parent_made(setting, tree, operations, walked, target);
            }
        },
        RepairStep::Move => {
            if tree.movable(setting.entry(walked as int), target) {
                lemma_archive_moved(setting, tree, operations, walked, target);
            }
        },
        _ => {},
    }
}

/// With the last of the directories removed there is one less.
#[verifier::spinoff_prover]
proof fn lemma_removes(setting: Setting, s: Scene, after: Scene, left: nat)
    requires
        setting.sound(),
        clearing(setting, s, left),
        left > 0,
        ({
            let last = setting.entry(dirs_among(setting, setting.walk.len())[left - 1] as int);
            s.world.tree.removable(last) && after.world.tree == s.world.tree.removed(last)
        }),
        after.doctor == s.doctor,
    ensures
        clearing(setting, after, (left - 1) as nat),
{
    let dirs = dirs_among(setting, setting.walk.len());
    let id = dirs[left - 1];
    let rel = setting.walk[id as int];
    let tree = s.world.tree;
    lemma_dirs_among(setting, setting.walk.len());
    lemma_directory_removed(setting, tree, s.doctor.operations, rel);
    assert forall|i: int| 0 <= i < left - 1 implies after.world.tree.is_dir(
        setting.entry((#[trigger] dirs[i]) as int),
    ) by {
        assert(dirs[i] < id);
        assert(setting.walk[dirs[i] as int] != rel);
        assert(tree.is_dir(setting.entry(dirs[i] as int)));
        assert(after.world.tree.has(at(setting.aside(), setting.walk[dirs[i] as int])));
    }
    if !s.doctor.littered {
        assert forall|other: Seq<Seq<char>>|
            setting.full().is_dir(at(setting.packages(), other)) && #[trigger] after.world.tree.has(
                at(setting.aside(), other),
            ) implies exists|i: int|
            0 <= i < left - 1 && setting.walk[(#[trigger] dirs[i]) as int] == other by {
            assert(tree.has(at(setting.aside(), other)));
            let i = choose|i: int|
                0 <= i < left && setting.walk[(#[trigger] dirs[i]) as int] == other;
            assert(i != left - 1);
        }
    }
}

/// With the last of the directories given up there is one less.
#[verifier::spinoff_prover]
proof fn lemma_gives_up(setting: Setting, s: Scene, after: Scene, left: nat)
    requires
        clearing(setting, s, left),
        left > 0,
        after.doctor == s.doctor.not_removed(),
        after.world == s.world,
    ensures
        clearing(setting, after, (left - 1) as nat),
{
    let op = after.doctor.operations.last();
    lemma_kept_grows(setting, s.world.tree, s.doctor.operations, op, setting.walk.len());
    assert(after.doctor.operations == s.doctor.operations.push(op));
    assert(!(after.doctor.operations[s.doctor.operations.len() as int] is Success));
}

/// The cleaning up keeps what holds.
#[verifier::spinoff_prover]
proof fn lemma_clears(setting: Setting, s: Scene, refusal: Option<RepairEventView>)
    requires
        setting.sound(),
        holds(setting, s),
        s.doctor.step is Cleanup,
    ensures
        holds(setting, step(setting, s, refusal)),
{
    let after = step(setting, s, refusal);
    let left = s.doctor.step->Cleanup_0 as nat;
    let id = dirs_among(setting, setting.walk.len())[left - 1];
    let refused = refusal is Some && refuses(s.doctor, refusal->Some_0);
    if !refused && s.world.tree.removable(setting.entry(id as int)) {
        let between = Scene { world: after.world, ..s };
        lemma_removes(setting, s, between, left);
        lemma_clearing_goes_on(setting, between, after, (left - 1) as nat);
    } else {
        let between = Scene { doctor: s.doctor.not_removed(), ..s };
        lemma_gives_up(setting, s, between, left);
        lemma_clearing_goes_on(setting, between, after, (left - 1) as nat);
    }
}

/// With some directories left, the next is to be removed; with none, the report is handed out.
#[verifier::spinoff_prover]
proof fn lemma_clearing_goes_on(setting: Setting, s: Scene, after: Scene, left: nat)
    requires
        setting.sound(),
        clearing(setting, s, left),
        s.doctor.depot == setting.depot,
        s.doctor.start == setting.start,
        s.doctor.packages_path == setting.aside(),
        after.world == s.world,
        (after.doctor, after.action) == s.doctor.cleaning(left, setting.finish),
    ensures
        holds(setting, after),
{
    lemma_dirs_among(setting, setting.walk.len());
    if left == 0 {
        lemma_cleared(setting, s, after.action->Finish_0->Ok_0);
    } else {
        assert(clearing(setting, after, left));
    }
}

/// What holds of a scene holds of what becomes of it.
#[verifier::spinoff_prover]
proof fn lemma_step(setting: Setting, s: Scene, refusal: Option<RepairEventView>)
    requires
        setting.sound(),
        holds(setting, s),
    ensures
        holds(setting, step(setting, s, refusal)),
{
    if s.action is Finish {
    } else if s.doctor.preparing() {
        lemma_prepares(setting, s, refusal);
    } else if s.doctor.step == RepairStep::Walk {
        lemma_walks(setting, s, refusal);
    } else if s.doctor.step is Cleanup {
        lemma_clears(setting, s, refusal);
    } else {
        lemma_handles(setting, s, refusal);
    }
}

/// It holds of every scene of a repair, whatever is refused.
pub proof fn lemma_holds(setting: Setting, refusals: Seq<Option<RepairEventView>>)
    requires
        setting.sound(),
    ensures
        holds(setting, played(setting, refusals)),
    decreases refusals.len(),
{
    if refusals.len() == 0 {
        lemma_begun(setting);
    } else {
        lemma_holds(setting, refusals.drop_last());
        lemma_step(setting, played(setting, refusals.drop_last()), refusals.last());
    }
}

/// Whether nothing has failed so far.
pub open spec fn smooth(setting: Setting, s: Scene) -> bool {
    let d = s.doctor;
    &&& !d.blocked
    &&& !d.littered
    &&& match d.step {
        RepairStep::Walk => d.operations == record(setting, s.world.next),
        RepairStep::Ident | RepairStep::Package | RepairStep::Store | RepairStep::Locate
        | RepairStep::MakeParent | RepairStep::Move => d.operations == record(
            setting,
            (s.world.next - 1) as nat,
        ),
        RepairStep::Cleanup(_) => d.operations == record(setting, setting.walk.len()),
        RepairStep::Finished => s.action matches RepairActionView::Finish(Ok(report))
            && report.operations == record(setting, setting.walk.len()).push(
            OperationView::Success(OperationTypeView::CleanupTrash(setting.aside().text())),
        ),
        _ => d.operations.len() == 0,
    }
}

/// How much is left to do at most.
pub open spec fn effort(setting: Setting, s: Scene) -> nat {
    let rest = (8 * (setting.walk.len() - s.world.next) + setting.walk.len() + 2) as nat;
    match s.doctor.step {
        RepairStep::Idle => rest + 5,
        RepairStep::Stat => rest + 4,
        RepairStep::MakePackages => rest + 3,
        RepairStep::Shelve => rest + 2,
        RepairStep::Remake => rest + 1,
        RepairStep::Walk => rest,
        RepairStep::Ident => rest + 6,
        RepairStep::Package => rest + 5,
        RepairStep::Store => rest + 4,
        RepairStep::Locate => rest + 3,
        RepairStep::MakeParent => rest + 2,
        RepairStep::Move => rest + 1,
        RepairStep::Cleanup(left) => left as nat,
        RepairStep::Finished => 0,
    }
}

/// What a repair is told next.
pub open spec fn told(setting: Setting, s: Scene, refusal: Option<RepairEventView>) -> (
    World,
    RepairEventView,
) {
    match refusal {
        Some(event) if refuses(s.doctor, event) => (s.world, event),
        _ => answer(setting, s.world, s.action),
    }
}

/// A repair is told what it waits for.
#[verifier::spinoff_prover]
proof fn lemma_told(setting: Setting, s: Scene, refusal: Option<RepairEventView>)
    requires
        setting.sound(),
        holds(setting, s),
        !(s.action is Finish),
    ensures
        s.doctor.expects(told(setting, s, refusal).1),
        told(setting, s, refusal).0.next == if told(setting, s, refusal).1 is Entry {
            s.world.next + 1
        } else {
            s.world.next
        },
        told(setting, s, refusal).0.next <= setting.walk.len() || s.doctor.step is Cleanup,
        s.doctor.inv(),
        s.doctor.directories.len() <= setting.walk.len(),
{
    lemma_dirs_among(setting, setting.walk.len());
    if s.doctor.step == RepairStep::Walk {
        lemma_dirs_among(setting, s.world.next);
    } else if handling(setting, s) {
        lemma_dirs_among(setting, (s.world.next - 1) as nat);
    }
}

/// Every step leaves less to do.
#[verifier::spinoff_prover]
proof fn lemma_effort_step(setting: Setting, s: Scene, after: Scene, event: RepairEventView)
    requires
        setting.walk.len() <= usize::MAX,
        s.doctor.inv(),
        s.doctor.directories.len() <= setting.walk.len(),
        s.doctor.expects(event),
        (after.doctor, after.action) == s.doctor.repair_step(event, setting.finish),
        after.world.next == if event is Entry {
            s.world.next + 1
        } else {
            s.world.next
        },
        after.world.next <= setting.walk.len() || s.doctor.step is Cleanup,
    ensures
        effort(setting, after) < effort(setting, s),
{
}

/// Less is left to do from scene to scene, whatever is refused, until the repair has ended.
pub proof fn lemma_effort(setting: Setting, refusals: Seq<Option<RepairEventView>>, n: int)
    requires
        setting.sound(),
        0 <= n <= refusals.len(),
    ensures
        effort(setting, played(setting, refusals)) + (refusals.len() - n) <= effort(
            setting,
            played(setting, refusals.take(n)),
        ) || played(setting, refusals).action is Finish,
    decreases refusals.len(),
{
    if n == refusals.len() {
        assert(refusals.take(n) =~= refusals);
    } else {
        let before = refusals.drop_last();
        lemma_effort(setting, before, n);
        assert(before.take(n) =~= refusals.take(n));
        lemma_holds(setting, before);
        let s = played(setting, before);
        if !(s.action is Finish) {
            let event = told(setting, s, refusals.last()).1;
            lemma_told(setting, s, refusals.last());
            lemma_effort_step(setting, s, played(setting, refusals), event);
        }
    }
}

/// Nothing that goes on record where nothing fails is a failure.
pub proof fn lemma_record_succeeded(setting: Setting, walked: nat)
    ensures
        all_succeeded(record(setting, walked)),
    decreases walked,
{
    if walked > 0 {
        lemma_record_succeeded(setting, (walked - 1) as nat);
    }
}

/// The packages directory itself is met.
proof fn lemma_root_is_met(setting: Setting)
    requires
        setting.sound(),
        setting.full().is_dir(setting.packages()),
    ensures
        setting.walk.len() > 0,
        dirs_among(setting, setting.walk.len()).len() > 0,
{
    let root = Seq::<Seq<char>>::empty();
    lemma_at(setting.packages(), root);
    assert(setting.walk.contains(root));
    let k = choose|k: int| 0 <= k < setting.walk.len() && setting.walk[k] == root;
    lemma_dirs_among(setting, setting.walk.len());
    assert(dirs_among(setting, setting.walk.len()).contains(k as u64));
}

/// Where every file is in its place, an archive at hand belongs where it was.
proof fn lemma_belongs(setting: Setting, s: Scene)
    requires
        setting.sound(),
        setting.settled(),
        handling(setting, s),
    ensures
        (setting.place)(in_hand(setting, s)) == Some(
            at(setting.packages(), setting.walk[s.world.next - 1]),
        ),
{
    let here = at(setting.packages(), setting.walk[s.world.next - 1]);
    lemma_made_again(setting.tree, setting.packages());
    lemma_at(setting.packages(), setting.walk[s.world.next - 1]);
    assert(setting.tree.is_file(here));
}

/// Where every file is in its place, there is room for the archive at hand.
#[verifier::spinoff_prover]
proof fn lemma_room(setting: Setting, s: Scene)
    requires
        setting.sound(),
        setting.settled(),
        located(setting, s),
    ensures
        s.world.tree.makeable(s.world.target.parent()),
        !s.world.tree.is_dir(s.world.target),
        s.world.target.parts.len() > 0,
{
    reveal(stands);
    let full = setting.full();
    let packages = setting.packages();
    let tree = s.world.tree;
    let target = s.world.target;
    let parent = target.parent();
    lemma_belongs(setting, s);
    lemma_made_again(setting.tree, packages);
    lemma_below_parent(target, packages);
    assert forall|d: PathView| #[trigger] tree.has(d) && below(parent, d) implies tree.is_dir(
        d,
    ) by {
        lemma_below_below(target, parent, d);
        if d.parts.len() < packages.parts.len() {
            lemma_chain(parent, d, packages);
            lemma_lies_in(tree, packages, d);
        } else if tree.is_file(d) {
            lemma_chain(parent, packages, d);
            let rel = choose|rel: Seq<Seq<char>>| #[trigger] came_from(setting, tree, rel, d);
            lemma_at(packages, rel);
            assert(setting.tree.is_file(at(packages, rel)));
            assert(at(packages, rel) == d);
            lemma_lies_in(full, target, d);
        }
    }
}

/// Where no failure is on record, the last of the directories that are left is empty.
#[verifier::spinoff_prover]
proof fn lemma_empty(setting: Setting, s: Scene, left: nat)
    requires
        setting.sound(),
        clearing(setting, s, left),
        left > 0,
        !s.doctor.littered,
        all_succeeded(s.doctor.operations),
    ensures
        s.world.tree.removable(
            setting.entry(dirs_among(setting, setting.walk.len())[left - 1] as int),
        ),
{
    reveal(stands);
    let dirs = dirs_among(setting, setting.walk.len());
    let tree = s.world.tree;
    let aside = setting.aside();
    let rel = setting.walk[dirs[left - 1] as int];
    let d = at(aside, rel);
    lemma_dirs_among(setting, setting.walk.len());
    assert(tree.is_dir(setting.entry(dirs[left - 1] as int)));
    lemma_at(aside, rel);
    assert forall|p: PathView| #[trigger] tree.has(p) && below(p, d) implies p == d by {
        lemma_below_below(p, d, aside);
        let other = p.parts.skip(aside.parts.len() as int);
        lemma_below(p, aside);
        assert(tree.has(at(aside, other)));
        assert(setting.walk.contains(other));
        let k = choose|k: int| 0 <= k < setting.walk.len() && setting.walk[k] == other;
        if setting.full().is_file(at(setting.packages(), other)) {
            assert(!gone(setting, tree, setting.walk[k]));
            lemma_no_failure(s.doctor.operations, setting.entry(k).text());
        } else {
            let i = choose|i: int|
                0 <= i < left && setting.walk[(#[trigger] dirs[i]) as int] == other;
            assert(rel.is_prefix_of(other)) by {
                assert(rel =~= other.subrange(0, rel.len() as int)) by {
                    assert forall|j: int| 0 <= j < rel.len() implies rel[j] == other[j] by {
                        assert(d.parts[aside.parts.len() + j] == rel[j]);
                        assert(p.parts[aside.parts.len() + j] == other[j]);
                        assert(d.parts == p.parts.subrange(0, d.parts.len() as int));
                    }
                }
            }
            if i != left - 1 {
                assert(dirs[i] < dirs[left - 1]);
                assert(setting.walk[dirs[left - 1] as int].is_prefix_of(
                    setting.walk[dirs[i] as int],
                ));
            }
        }
    }
}

/// The preparation goes smoothly.
#[verifier::spinoff_prover]
proof fn lemma_prepares_smoothly(setting: Setting, s: Scene)
    requires
        setting.sound(),
        setting.settled(),
        setting.unblocked(),
        holds(setting, s),
        smooth(setting, s),
        s.doctor.preparing(),
    ensures
        smooth(setting, step(setting, s, None)),
{
    let after = step(setting, s, None);
    lemma_made_again(setting.tree, setting.packages());
    match s.doctor.step {
        RepairStep::Shelve | RepairStep::Remake => {
            lemma_shelved(setting, s.doctor.operations);
        },
        _ => {},
    }
    if s.doctor.step == RepairStep::Remake {
        assert(after.doctor.operations =~= record(setting, 0));
    }
}

/// The walk goes smoothly.
#[verifier::spinoff_prover]
proof fn lemma_walks_smoothly(setting: Setting, s: Scene)
    requires
        setting.sound(),
        holds(setting, s),
        smooth(setting, s),
        s.doctor.step == RepairStep::Walk,
    ensures
        smooth(setting, step(setting, s, None)),
{
    let walked = s.world.next;
    if walked < setting.walk.len() {
        lemma_next_entry(setting, s.world.tree, s.doctor.operations, walked);
    } else {
        lemma_root_is_met(setting);
        lemma_dirs_among(setting, setting.walk.len());
    }
}

/// Dealing with a file goes smoothly.
#[verifier::spinoff_prover]
proof fn lemma_handles_smoothly(setting: Setting, s: Scene)
    requires
        setting.sound(),
        setting.settled(),
        holds(setting, s),
        smooth(setting, s),
        handling(setting, s),
        match s.doctor.step {
            RepairStep::Ident | RepairStep::Package | RepairStep::Store | RepairStep::Locate
            | RepairStep::MakeParent | RepairStep::Move => true,
            _ => false,
        },
    ensures
        smooth(setting, step(setting, s, None)),
{
    lemma_in_hand(setting, s);
    lemma_belongs(setting, s);
    match s.doctor.step {
        RepairStep::MakeParent | RepairStep::Move => {
            lemma_room(setting, s);
        },
        _ => {},
    }
}

/// The cleaning up goes smoothly.
#[verifier::spinoff_prover]
proof fn lemma_clears_smoothly(setting: Setting, s: Scene)
    requires
        setting.sound(),
        holds(setting, s),
        smooth(setting, s),
        s.doctor.step is Cleanup,
    ensures
        smooth(setting, step(setting, s, None)),
{
    lemma_record_succeeded(setting, setting.walk.len());
    lemma_dirs_among(setting, setting.walk.len());
    lemma_root_is_met(setting);
    lemma_empty(setting, s, s.doctor.step->Cleanup_0 as nat);
}

/// Where every file is in its place and nothing is refused, nothing fails.
pub proof fn lemma_smooth(setting: Setting, n: nat)
    requires
        setting.sound(),
        setting.settled(),
        setting.unblocked(),
    ensures
        smooth(setting, played(setting, unrefused(n))),
    decreases n,
{
    if n > 0 {
        let m = (n - 1) as nat;
        lemma_smooth(setting, m);
        lemma_holds(setting, unrefused(m));
        assert(unrefused(n).drop_last() =~= unrefused(m));
        let s = played(setting, unrefused(m));
        if s.action is Finish {
        } else if s.doctor.preparing() {
            lemma_prepares_smoothly(setting, s);
        } else if s.doctor.step == RepairStep::Walk {
            lemma_walks_smoothly(setting, s);
        } else if s.doctor.step is Cleanup {
            lemma_clears_smoothly(setting, s);
        } else {
            lemma_handles_smoothly(setting, s);
        }
    }
}

/// What goes on record where nothing fails: one insertion for each file that is listed.
pub proof fn lemma_record(setting: Setting, walked: nat)
    requires
        walked <= setting.walk.len(),
    ensures
        record(setting, walked) == seq![
            OperationView::Success(OperationTypeView::InitDepotFs(setting.depot.path)),
        ] + setting.walk.take(walked as int).filter(setting.archive()).map_values(
            setting.insertion(),
        ),
    decreases walked,
{
    reveal(Seq::filter);
    let first = setting.walk.take(walked as int);
    let one = seq![OperationView::Success(OperationTypeView::InitDepotFs(setting.depot.path))];
    if walked == 0 {
        assert(first.filter(setting.archive()).map_values(setting.insertion()) =~= Seq::empty());
        assert(record(setting, walked) =~= one + Seq::empty());
    } else {
        let n = (walked - 1) as nat;
        lemma_record(setting, n);
        let before = setting.walk.take(n as int).filter(setting.archive());
        assert(first.drop_last() =~= setting.walk.take(n as int));
        if (setting.archive())(first.last()) {
            assert(first.filter(setting.archive()) == before.push(first.last()));
            assert(record(setting, walked) =~= one + before.push(first.last()).map_values(
                setting.insertion(),
            ));
        }
    }
}

/// A repair that has ended leaves every file of the packages in its place.
pub proof fn lemma_settles(setting: Setting, refusals: Seq<Option<RepairEventView>>, p: PathView)
    requires
        setting.sound(),
        played(setting, refusals).action matches RepairActionView::Finish(Ok(_)),
    ensures
        ({
            let tree = played(setting, refusals).world.tree;
            &&& tree.rooted()
            &&& tree.is_dir(setting.packages())
            &&& tree.is_file(p) && below(p, setting.packages()) ==> (setting.place)(
                tree.content(p),
            ) == Some(p)
        }),
{
    reveal(stands);
    lemma_holds(setting, refusals);
}

/// Whether a repair waits for something that it cannot do without.
pub open spec fn vital(step: RepairStep) -> bool {
    match step {
        RepairStep::MakePackages | RepairStep::Shelve | RepairStep::Remake | RepairStep::Store
        | RepairStep::Locate => true,
        _ => false,
    }
}

/// Whether one of the refusals is of something that the repair cannot do without.
pub open spec fn hinders(
    setting: Setting,
    refusals: Seq<Option<RepairEventView>>,
    i: int,
) -> bool {
    let doctor = played(setting, refusals.take(i)).doctor;
    refusals[i] matches Some(event) && vital(doctor.step) && refuses(doctor, event)
}

/// Whether any of the refusals is.
pub open spec fn hindered(setting: Setting, refusals: Seq<Option<RepairEventView>>) -> bool {
    exists|i: int| 0 <= i < refusals.len() && #[trigger] hinders(setting, refusals, i)
}

/// One more refusal hinders or leaves things as they were.
proof fn lemma_hindered(setting: Setting, refusals: Seq<Option<RepairEventView>>)
    requires
        refusals.len() > 0,
    ensures
        hindered(setting, refusals) <==> hindered(setting, refusals.drop_last()) || hinders(
            setting,
            refusals,
            refusals.len() - 1,
        ),
{
    let before = refusals.drop_last();
    assert forall|i: int| 0 <= i < before.len() implies #[trigger] hinders(setting, before, i)
        == hinders(setting, refusals, i) by {
        assert(before.take(i) =~= refusals.take(i));
    }
    if hindered(setting, before) {
        let i = choose|i: int| 0 <= i < before.len() && #[trigger] hinders(setting, before, i);
        assert(hinders(setting, refusals, i));
    }
    if hindered(setting, refusals) {
        let i = choose|i: int| 0 <= i < refusals.len() && #[trigger] hinders(setting, refusals, i);
        assert(i == refusals.len() - 1 || hinders(setting, before, i));
    }
}

/// A step leads to an error where something vital is refused, or the packages directory cannot
/// be made, and nowhere else.
#[verifier::spinoff_prover]
proof fn lemma_error_step(setting: Setting, s: Scene, refusal: Option<RepairEventView>)
    requires
        setting.sound(),
        holds(setting, s),
        !(s.action is Finish),
    ensures
        step(setting, s, refusal).action matches RepairActionView::Finish(Err(_)) <==> (
        refusal is Some && vital(s.doctor.step) && refuses(s.doctor, refusal->Some_0)) || (
        s.doctor.step == RepairStep::MakePackages && !setting.tree.makeable(setting.packages())),
{
    match s.doctor.step {
        RepairStep::Shelve | RepairStep::Remake => {
            lemma_shelved(setting, s.doctor.operations);
        },
        RepairStep::Locate => {
            lemma_in_hand(setting, s);
        },
        _ => {},
    }
}

/// A repair for which the packages directory can be made ends in an error where it is hindered and
/// nowhere else; one for which it cannot be made does so once it has tried.
pub proof fn lemma_errors(setting: Setting, refusals: Seq<Option<RepairEventView>>)
    requires
        setting.sound(),
    ensures
        ({
            let s = played(setting, refusals);
            let error = s.action matches RepairActionView::Finish(Err(_));
            if setting.tree.makeable(setting.packages()) {
                error <==> hindered(setting, refusals)
            } else if refusals.len() == 0 {
                s.doctor.step == RepairStep::Stat
            } else if refusals.len() == 1 {
                s.doctor.step == RepairStep::MakePackages
            } else {
                error
            }
        }),
    decreases refusals.len(),
{
    if refusals.len() > 0 {
        let before = refusals.drop_last();
        let s = played(setting, before);
        lemma_errors(setting, before);
        lemma_holds(setting, before);
        lemma_hindered(setting, refusals);
        assert(refusals.take(refusals.len() - 1) =~= before);
        if !(s.action is Finish) {
            lemma_error_step(setting, s, refusals.last());
        }
    }
}

} // verus!
