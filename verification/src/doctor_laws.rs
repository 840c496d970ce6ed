//! What holds of a repair as a whole.
use vstd::prelude::*;

use crate::depot_tree::{at, below, lemma_at, lemma_below, lemma_made_again};
use crate::doctor::{
    set_aside, DepotView, DoctorView, RepairActionView, RepairErrorView, RepairEventView,
    RepairStep,
};
use crate::number::{decimal_text, law_decimal_read_back};
use crate::path::PathView;
use crate::repair_model::{played, unrefused, Scene, Setting};
use crate::repair_proof::{
    came_from, failure_on_record, gone, hindered, holds, inserted, lemma_effort, lemma_errors,
    lemma_holds, lemma_record,
    lemma_record_succeeded, lemma_settles, lemma_smooth, record, smooth, stands,
};
use crate::report::{
    all_succeeded, OperationTypeView, OperationView, ReasonView, ReportBuilderView, ReportView,
};

verus! {

/// Every step of a repair keeps the invariant.
pub proof fn law_repair_keeps_invariant(d: DoctorView, event: RepairEventView, finish: u64)
    requires
        d.inv(),
        d.directories.len() <= usize::MAX,
        d.expects(event),
    ensures
        d.repair_step(event, finish).0.inv(),
{
}

/// What is on record stays on record, in order, until the report is handed out.
pub proof fn law_record_only_grows(d: DoctorView, event: RepairEventView, finish: u64)
    requires
        d.inv(),
        d.expects(event),
    ensures
        ({
            let (e, action) = d.repair_step(event, finish);
            (action matches RepairActionView::Finish(Ok(_))) || d.operations.is_prefix_of(
                e.operations,
            )
        }),
{
}

/// The report holds everything on record, and what the last event added to it; it is a success
/// exactly where none of it is a failure; and it tells when the repair started.
pub proof fn law_report_is_complete(
    d: DoctorView,
    event: RepairEventView,
    finish: u64,
    report: ReportView,
)
    requires
        d.inv(),
        d.expects(event),
        d.repair_step(event, finish).1 == RepairActionView::Finish(Ok(report)),
    ensures
        d.operations.is_prefix_of(report.operations),
        report.operations.len() <= d.operations.len() + 1,
        report.success == all_succeeded(report.operations),
        report.start == d.start,
        report.finish == finish,
{
}

/// Neither when the repair started, nor which depot it repairs, nor where the packages are set
/// aside ever changes.
pub proof fn law_repair_keeps_its_place(d: DoctorView, event: RepairEventView, finish: u64)
    requires
        d.inv(),
        d.expects(event),
    ensures
        ({
            let e = d.repair_step(event, finish).0;
            &&& e.start == d.start
            &&& e.depot == d.depot
            &&& e.packages_path == d.packages_path
        }),
{
}

/// Packages are set aside beside where they were.
pub proof fn law_set_aside_beside(packages_path: PathView, start: u64)
    ensures
        set_aside(packages_path, start).parent() == packages_path.parent(),
{
    assert(set_aside(packages_path, start).parent() =~= packages_path.parent());
}

/// Repairs that started at different times set packages aside in different places.
pub proof fn law_set_aside_apart(packages_path: PathView, a: u64, b: u64)
    requires
        a != b,
    ensures
        set_aside(packages_path, a) != set_aside(packages_path, b),
{
    if set_aside(packages_path, a) == set_aside(packages_path, b) {
        let prefix = "pkgs."@;
        let x = prefix + decimal_text(a as nat);
        let y = prefix + decimal_text(b as nat);
        assert(set_aside(packages_path, a).parts.last() == x);
        assert(set_aside(packages_path, b).parts.last() == y);
        assert(x.skip(prefix.len() as int) =~= decimal_text(a as nat));
        assert(y.skip(prefix.len() as int) =~= decimal_text(b as nat));
        law_decimal_read_back(a);
        law_decimal_read_back(b);
    }
}

/// The file system is prepared in order: the depot's path is looked at, the packages directory
/// is made sure of, it is set aside, it is made anew, and what was set aside is walked. What goes
/// on record is what was found in the way at the depot's path or, where that is nothing, that the
/// depot's file system was initialized.
pub proof fn law_preparation(
    depot: DepotView,
    report: ReportBuilderView,
    found: RepairEventView,
    finish: u64,
)
    requires
        found is Stat || found is Failed,
    ensures
        ({
            let d = DoctorView::fresh(depot, report);
            let (d1, a1) = d.repair_step(RepairEventView::Begin, finish);
            let (d2, a2) = d1.repair_step(found, finish);
            let (d3, a3) = d2.repair_step(RepairEventView::Done, finish);
            let (d4, a4) = d3.repair_step(RepairEventView::Done, finish);
            let (d5, a5) = d4.repair_step(RepairEventView::Done, finish);
            &&& a1 == RepairActionView::Stat(depot.path)
            &&& a2 == RepairActionView::CreateDirAll(depot.packages_path)
            &&& a3 == RepairActionView::Rename(depot.packages_path, d.packages_path)
            &&& a4 == RepairActionView::CreateDirAll(depot.packages_path)
            &&& a5 == RepairActionView::Walk(d.packages_path)
            &&& d5 == (DoctorView {
                step: RepairStep::Walk,
                ..match found {
                    RepairEventView::Stat { is_file, readonly } if is_file || readonly =>
                        d.inspected(is_file, readonly),
                    _ => d.recorded(
                        OperationView::Success(OperationTypeView::InitDepotFs(depot.path)),
                    ),
                }
            })
        }),
{
}

/// While the file system is prepared, the first refusal ends the repair, with that refusal.
pub proof fn law_preparation_fails(d: DoctorView, e: Seq<char>, finish: u64)
    requires
        d.step == RepairStep::MakePackages || d.step == RepairStep::Shelve || d.step
            == RepairStep::Remake,
    ensures
        d.repair_step(RepairEventView::Failed(e), finish).1 == RepairActionView::Finish(
            Err(RepairErrorView::IO(e)),
        ),
{
}

/// An archive that can be read is stored, moved to where it belongs, and put on record with
/// where it is now.
pub proof fn law_archive_is_reinserted(
    d: DoctorView,
    id: u64,
    path: Seq<char>,
    target: Seq<char>,
    finish: u64,
)
    requires
        d.step == RepairStep::Walk,
    ensures
        ({
            let done = RepairEventView::Done;
            let (d1, a1) = d.repair_step(
                RepairEventView::Entry { id, path, is_dir: false },
                finish,
            );
            let (d2, a2) = d1.repair_step(done, finish);
            let (d3, a3) = d2.repair_step(done, finish);
            let (d4, a4) = d3.repair_step(done, finish);
            let (d5, a5) = d4.repair_step(RepairEventView::Located(target), finish);
            let (d6, a6) = d5.repair_step(done, finish);
            let (d7, a7) = d6.repair_step(done, finish);
            &&& a1 == RepairActionView::ReadIdent(id)
            &&& a2 == RepairActionView::ReadPackage(id)
            &&& a3 == RepairActionView::Store(id)
            &&& a4 == RepairActionView::Locate(id)
            &&& a5 == RepairActionView::CreateParent(target)
            &&& a6 == RepairActionView::Move(id, target)
            &&& a7 == RepairActionView::NextEntry
            &&& d7.step == RepairStep::Walk
            &&& d7.directories == d.directories
            &&& d7.operations == d.operations.push(
                OperationView::Success(OperationTypeView::ArchiveInsert(target)),
            )
        }),
{
}

/// A file that is no archive, or whose metadata cannot be read, stays where it was set aside:
/// that goes on record, nothing is done with the file, and the next entry is asked for.
pub proof fn law_unreadable_stays(d: DoctorView, e: Seq<char>, finish: u64)
    requires
        d.step == RepairStep::Ident || d.step == RepairStep::Package,
    ensures
        ({
            let (after, action) = d.repair_step(RepairEventView::Failed(e), finish);
            &&& action == RepairActionView::NextEntry
            &&& after.operations == d.operations.push(
                OperationView::Failure(
                    OperationTypeView::ArchiveInsert(d.entry_path),
                    if d.step == RepairStep::Ident {
                        ReasonView::BadArchive
                    } else {
                        ReasonView::BadMetadata(e)
                    },
                ),
            )
            &&& after.directories == d.directories
        }),
{
}

/// An archive that cannot be put where it belongs goes on record, and the walk goes on: the next
/// entry is asked for.
pub proof fn law_immovable_is_passed_over(d: DoctorView, e: Seq<char>, finish: u64)
    requires
        d.step == RepairStep::MakeParent || d.step == RepairStep::Move,
    ensures
        ({
            let (after, action) = d.repair_step(RepairEventView::Failed(e), finish);
            &&& action == RepairActionView::NextEntry
            &&& after.step == RepairStep::Walk
            &&& after.operations == d.operations.push(
                OperationView::Failure(
                    OperationTypeView::ArchiveInsert(d.entry_path),
                    ReasonView::IO(e),
                ),
            )
            &&& after.directories == d.directories
        }),
{
}

/// The state of a repair after events.
pub open spec fn reached(d: DoctorView, events: Seq<RepairEventView>, finish: u64) -> DoctorView
    decreases events.len(),
{
    if events.len() == 0 {
        d
    } else {
        reached(d, events.drop_last(), finish).repair_step(events.last(), finish).0
    }
}

/// Whether a repair waits for each of these events in turn.
pub open spec fn possible(d: DoctorView, events: Seq<RepairEventView>, finish: u64) -> bool
    decreases events.len(),
{
    events.len() == 0 || (possible(d, events.drop_last(), finish) && reached(
        d,
        events.drop_last(),
        finish,
    ).expects(events.last()))
}

/// What came last to a repair that has an archive at hand.
pub open spec fn came_last(d: DoctorView, events: Seq<RepairEventView>) -> bool {
    let n = events.len();
    let entry = RepairEventView::Entry { id: d.entry, path: d.entry_path, is_dir: false };
    match d.step {
        RepairStep::Ident => n >= 1 && events[n - 1] == entry,
        RepairStep::Package => n >= 2 && events[n - 2] == entry && events[n - 1] is Done,
        RepairStep::Store => n >= 3 && events[n - 3] == entry && events[n - 2] is Done
            && events[n - 1] is Done,
        RepairStep::Locate => n >= 4 && events[n - 4] == entry && events[n - 3] is Done
            && events[n - 2] is Done && events[n - 1] is Done,
        RepairStep::MakeParent => n >= 5 && events[n - 5] == entry && events[n - 4] is Done
            && events[n - 3] is Done && events[n - 2] is Done && events[n - 1]
            == RepairEventView::Located(d.target),
        RepairStep::Move => n >= 6 && events[n - 6] == entry && events[n - 5] is Done && events[n
            - 4] is Done && events[n - 3] is Done && events[n - 2] == RepairEventView::Located(
            d.target,
        ) && events[n - 1] is Done,
        _ => true,
    }
}

/// What a repair waits for tells what came last.
proof fn lemma_came_last(d: DoctorView, events: Seq<RepairEventView>, finish: u64)
    requires
        d.step == RepairStep::Idle,
        possible(d, events, finish),
    ensures
        came_last(reached(d, events, finish), events),
    decreases events.len(),
{
    if events.len() > 0 {
        let before = events.drop_last();
        lemma_came_last(d, before, finish);
        assert(forall|i: int| 0 <= i < before.len() ==> before[i] == events[i]);
    }
}

/// Only a proper archive leaves where it was set aside: a file is moved only if right before its
/// identity was read, its metadata was read and stored, and it was found where it belongs, and
/// then it is moved to there.
pub proof fn law_only_archives_are_moved(
    d: DoctorView,
    events: Seq<RepairEventView>,
    event: RepairEventView,
    finish: u64,
    id: u64,
    target: Seq<char>,
)
    requires
        d.step == RepairStep::Idle,
        possible(d, events.push(event), finish),
        reached(d, events, finish).repair_step(event, finish).1 == RepairActionView::Move(
            id,
            target,
        ),
    ensures
        ({
            let n = events.len();
            &&& n >= 5
            &&& events[n - 5] matches RepairEventView::Entry { id: file, is_dir, .. } && file == id
                && !is_dir
            &&& events[n - 4] is Done
            &&& events[n - 3] is Done
            &&& events[n - 2] is Done
            &&& events[n - 1] == RepairEventView::Located(target)
        }),
{
    assert(events.push(event).drop_last() =~= events);
    lemma_came_last(d, events, finish);
}

/// The record of a cleaning up in which these removals were answered like this.
pub open spec fn cleanup_record(d: DoctorView, answers: Seq<RepairEventView>) -> Seq<OperationView>
    decreases answers.len(),
{
    if answers.len() == 0 {
        d.operations
    } else if answers.last() is Failed {
        cleanup_record(d, answers.drop_last()).push(
            OperationView::Failure(
                OperationTypeView::CleanupTrash(d.packages_path.text()),
                ReasonView::NotEmpty,
            ),
        )
    } else {
        cleanup_record(d, answers.drop_last())
    }
}

/// Whether each answer is that a directory was removed or was not.
pub open spec fn answered(answers: Seq<RepairEventView>) -> bool {
    forall|i: int|
        0 <= i < answers.len() ==> ((#[trigger] answers[i]) is Done || answers[i] is Failed)
}

/// Whether none of these is a failure.
pub open spec fn none_failed(answers: Seq<RepairEventView>) -> bool {
    forall|i: int| 0 <= i < answers.len() ==> !((#[trigger] answers[i]) is Failed)
}

/// When the walk ends, the directories are removed from the last one met to the first, whatever
/// becomes of each; each that cannot be removed goes on record, and where each could be, that
/// they were cleaned up does; and after that the report is handed out.
pub proof fn law_cleanup(d: DoctorView, answers: Seq<RepairEventView>, finish: u64)
    requires
        d.step == RepairStep::Walk,
        !d.littered,
        d.directories.len() <= usize::MAX,
        answers.len() <= d.directories.len(),
        answered(answers),
    ensures
        ({
            let n = d.directories.len();
            let k = answers.len();
            let record = cleanup_record(d, answers);
            let first = d.repair_step(RepairEventView::WalkEnd, finish);
            let last = if k == 0 {
                first
            } else {
                reached(first.0, answers.drop_last(), finish).repair_step(answers.last(), finish)
            };
            if k < n {
                &&& last.1 == RepairActionView::RemoveDir(d.directories[n - 1 - k])
                &&& last.0 == (DoctorView {
                    step: RepairStep::Cleanup((n - k) as usize),
                    operations: record,
                    littered: !none_failed(answers),
                    ..d
                })
            } else {
                let whole = if n > 0 && none_failed(answers) {
                    record.push(
                        OperationView::Success(
                            OperationTypeView::CleanupTrash(d.packages_path.text()),
                        ),
                    )
                } else {
                    record
                };
                last.1 == RepairActionView::Finish(
                    Ok(
                        ReportView {
                            start: d.start,
                            finish,
                            success: all_succeeded(whole),
                            operations: whole,
                        },
                    ),
                )
            }
        }),
    decreases answers.len(),
{
    let n = d.directories.len();
    let k = answers.len();
    let first = d.repair_step(RepairEventView::WalkEnd, finish);
    if k > 0 {
        let earlier = answers.drop_last();
        assert(forall|i: int| 0 <= i < earlier.len() ==> earlier[i] == answers[i]);
        assert(answered(earlier));
        assert(answers[k - 1] is Done || answers[k - 1] is Failed);
        law_cleanup(d, earlier, finish);
        assert(none_failed(answers) == (none_failed(earlier) && !(answers[k - 1] is Failed)));
        if k > 1 {
            assert(reached(first.0, earlier, finish) == reached(
                first.0,
                earlier.drop_last(),
                finish,
            ).repair_step(earlier.last(), finish).0);
        } else {
            assert(reached(first.0, earlier, finish) == first.0);
        }
    }
}

/// Whether a repair has ended with a success and left all as it was: the same files at the same
/// places below the packages directory, and all else untouched; on record, one insertion for each
/// of these files, between the initialization and the cleaning up; and nothing set aside.
pub open spec fn repaired_again(setting: Setting, s: Scene) -> bool {
    let before = setting.tree;
    let after = s.world.tree;
    let packages = setting.packages();
    let aside = setting.aside();
    &&& s.action matches RepairActionView::Finish(Ok(report)) && report.success && report.start
        == setting.start && report.operations == seq![
        OperationView::Success(OperationTypeView::InitDepotFs(setting.depot.path)),
    ] + setting.walk.filter(setting.archive()).map_values(setting.insertion()) + seq![
        OperationView::Success(OperationTypeView::CleanupTrash(aside.text())),
    ]
    &&& forall|p: PathView|
        below(p, packages) ==> (#[trigger] after.is_file(p) <==> before.is_file(p)) && (
        before.is_file(p) ==> after.content(p) == before.content(p))
    &&& forall|p: PathView|
        !below(p, packages) ==> (#[trigger] after.has(p) <==> before.has(p)) && (before.has(p)
            ==> after.nodes[p] == before.nodes[p])
    &&& after.free(aside)
}

/// A repair after a repair that has ended, with nothing touched between and nothing refused, ends
/// with a success and leaves all as it was. Each file of the packages is on record once: what the
/// walk lists it lists once, and what it lists of the files is all of them.
pub proof fn law_repair_again(
    first: Setting,
    refusals: Seq<Option<RepairEventView>>,
    second: Setting,
)
    requires
        first.sound(),
        played(first, refusals).action matches RepairActionView::Finish(Ok(_)),
        second.sound(),
        second.unblocked(),
        second.depot == first.depot,
        second.place == first.place,
        second.tree == played(first, refusals).world.tree,
    ensures
        exists|n: nat| repaired_again(second, #[trigger] played(second, unrefused(n))),
        second.walk.filter(second.archive()).no_duplicates(),
        forall|rel: Seq<Seq<char>>| #[trigger]
            second.walk.filter(second.archive()).contains(rel) <==> second.tree.is_file(
                at(second.packages(), rel),
            ),
{
    assert forall|p: PathView| #[trigger]
        second.tree.is_file(p) && below(p, second.packages()) implies (second.place)(
        second.tree.content(p),
    ) == Some(p) by {
        lemma_settles(first, refusals, p);
    }
    lemma_settles(first, refusals, first.packages());
    lemma_settled_again(second);
    lemma_files_listed(second);
}

/// Where every file is in its place, a repair in which nothing is refused leaves all as it was.
proof fn lemma_settled_again(setting: Setting)
    requires
        setting.sound(),
        setting.settled(),
        setting.unblocked(),
    ensures
        exists|n: nat| repaired_again(setting, #[trigger] played(setting, unrefused(n))),
{
    let n = 9 * setting.walk.len() + 6;
    let s = played(setting, unrefused(n));
    law_repair_ends(setting, unrefused(n));
    lemma_smooth(setting, n);
    lemma_holds(setting, unrefused(n));
    lemma_unchanged(setting, s);
}

/// A scene with a report in which nothing failed is as it was before.
proof fn lemma_unchanged(setting: Setting, s: Scene)
    requires
        setting.sound(),
        setting.settled(),
        s.action is Finish,
        holds(setting, s),
        smooth(setting, s),
    ensures
        repaired_again(setting, s),
{
    reveal(stands);
    let before = setting.tree;
    let after = s.world.tree;
    let packages = setting.packages();
    let aside = setting.aside();
    let report = s.action->Finish_0->Ok_0;
    let all = setting.walk.len();
    lemma_record(setting, all);
    assert(setting.walk.take(all as int) =~= setting.walk);
    lemma_record_succeeded(setting, all);
    assert(all_succeeded(report.operations));
    let cleaned = OperationView::Success(OperationTypeView::CleanupTrash(aside.text()));
    assert(report.operations =~= record(setting, all) + seq![cleaned]);
    lemma_made_again(before, packages);
    assert forall|p: PathView| #[trigger] after.is_file(p) && below(
        p,
        packages,
    ) implies before.is_file(p) && after.content(p) == before.content(p) by {
        let rel = choose|rel: Seq<Seq<char>>| #[trigger] came_from(setting, after, rel, p);
        lemma_at(packages, rel);
        assert(before.is_file(at(packages, rel)));
    }
    assert forall|p: PathView| #[trigger] before.is_file(p) && below(
        p,
        packages,
    ) implies after.is_file(p) by {
        let rel = p.parts.skip(packages.parts.len() as int);
        lemma_below(p, packages);
        lemma_at(aside, rel);
        assert(!after.has(at(aside, rel)));
        assert(gone(setting, after, rel));
    }
    assert forall|p: PathView| !below(p, packages) implies (#[trigger] after.has(p)
        <==> before.has(p)) && (before.has(p) ==> after.nodes[p] == before.nodes[p]) by {
        if below(p, aside) {
            assert(!after.has(p));
            assert(!before.has(p));
        }
    }
}

/// The files that the walk lists are the files of the packages, each once.
proof fn lemma_files_listed(setting: Setting)
    requires
        setting.sound(),
        setting.settled(),
    ensures
        setting.walk.filter(setting.archive()).no_duplicates(),
        forall|rel: Seq<Seq<char>>| #[trigger]
            setting.walk.filter(setting.archive()).contains(rel) <==> setting.tree.is_file(
                at(setting.packages(), rel),
            ),
{
    broadcast use vstd::seq_lib::group_filter_ensures;

    let files = setting.walk.filter(setting.archive());
    lemma_made_again(setting.tree, setting.packages());
    assert forall|rel: Seq<Seq<char>>| #[trigger]
        files.contains(rel) <==> setting.tree.is_file(at(setting.packages(), rel)) by {
        if setting.tree.is_file(at(setting.packages(), rel)) {
            assert(setting.walk.contains(rel));
            let k = choose|k: int| 0 <= k < setting.walk.len() && setting.walk[k] == rel;
            assert((setting.archive())(setting.walk[k]));
        }
        if files.contains(rel) {
            let k = choose|k: int| 0 <= k < files.len() && files[k] == rel;
            assert((setting.archive())(files[k]));
        }
    }
    assert(files.no_duplicates()) by {
        lemma_filtered_once(setting.walk, setting.archive());
    }
}

/// What is listed once is listed once among what is picked.
proof fn lemma_filtered_once<A>(all: Seq<A>, pred: spec_fn(A) -> bool)
    requires
        all.no_duplicates(),
    ensures
        all.filter(pred).no_duplicates(),
        forall|a: A| #[trigger] all.filter(pred).contains(a) ==> all.contains(a),
    decreases all.len(),
{
    reveal(Seq::filter);
    if all.len() > 0 {
        let before = all.drop_last();
        lemma_filtered_once(before, pred);
        assert forall|a: A| before.contains(a) implies all.contains(a) && a != all.last() by {
            let k = choose|k: int| 0 <= k < before.len() && before[k] == a;
            assert(all[k] == a);
        }
        let picked = before.filter(pred);
        if pred(all.last()) {
            assert(!picked.contains(all.last()));
            assert(all.contains(all.last()));
            assert forall|a: A| #[trigger] picked.push(all.last()).contains(a) implies all.contains(
                a,
            ) by {
                let k = choose|k: int|
                    0 <= k < picked.push(all.last()).len() && picked.push(all.last())[k] == a;
                if k < picked.len() {
                    assert(picked.contains(a));
                }
            }
        } else {
            assert forall|a: A| #[trigger] picked.contains(a) implies all.contains(a) by {
                assert(before.contains(a));
            }
        }
    }
}

/// Of a repair that has ended, whatever was refused on the way, every file of the packages is
/// accounted for. Either it is where it was set aside, as it was, and that it could not be
/// re-inserted is on record. Or it is on record that it was re-inserted, and there is an archive
/// where it belongs: its own, unless another one belongs there too.
pub proof fn law_every_file_is_accounted_for(
    setting: Setting,
    refusals: Seq<Option<RepairEventView>>,
    report: ReportView,
    rel: Seq<Seq<char>>,
)
    requires
        setting.sound(),
        played(setting, refusals).action == RepairActionView::Finish(Ok(report)),
        setting.tree.is_file(at(setting.packages(), rel)),
    ensures
        ({
            let after = played(setting, refusals).world.tree;
            let content = setting.tree.content(at(setting.packages(), rel));
            let aside = at(setting.aside(), rel);
            if after.has(aside) {
                &&& after.is_file(aside)
                &&& after.content(aside) == content
                &&& failure_on_record(report.operations, aside.text())
            } else {
                &&& (setting.place)(content) matches Some(target)
                &&& report.operations.contains(inserted(target))
                &&& after.is_file(target)
                &&& (setting.place)(after.content(target)) == Some(target)
                &&& (forall|other: Seq<Seq<char>>| #[trigger]
                    setting.tree.is_file(at(setting.packages(), other)) && (setting.place)(
                        setting.tree.content(at(setting.packages(), other)),
                    ) == Some(target) ==> other == rel) ==> after.content(target) == content
            }
        }),
{
    reveal(stands);
    lemma_holds(setting, refusals);
    let after = played(setting, refusals).world.tree;
    assert(setting.full().is_file(at(setting.packages(), rel)));
    if after.has(at(setting.aside(), rel)) {
        assert(setting.walk.contains(rel));
        let k = choose|k: int| 0 <= k < setting.walk.len() && setting.walk[k] == rel;
        assert(!gone(setting, after, setting.walk[k]));
    } else {
        assert(gone(setting, after, rel));
        let target = (setting.place)(setting.tree.content(at(setting.packages(), rel)))->Some_0;
        let other = choose|other: Seq<Seq<char>>| #[trigger]
            came_from(setting, after, other, target);
        assert(setting.tree.is_file(at(setting.packages(), other)));
    }
}

/// A repair that was a success leaves nothing where it set packages aside.
pub proof fn law_success_leaves_nothing_aside(
    setting: Setting,
    refusals: Seq<Option<RepairEventView>>,
    report: ReportView,
)
    requires
        setting.sound(),
        played(setting, refusals).action == RepairActionView::Finish(Ok(report)),
        report.success,
    ensures
        played(setting, refusals).world.tree.free(setting.aside()),
{
    lemma_holds(setting, refusals);
}

/// A repair comes to its end, whatever is refused on the way.
pub proof fn law_repair_ends(setting: Setting, refusals: Seq<Option<RepairEventView>>)
    requires
        setting.sound(),
        refusals.len() >= 9 * setting.walk.len() + 6,
    ensures
        played(setting, refusals).action is Finish,
{
    lemma_effort(setting, refusals, 0);
    assert(refusals.take(0).len() == 0);
    lemma_holds(setting, refusals);
}

/// No file is stored twice in a repair.
pub proof fn law_nothing_is_stored_twice(
    setting: Setting,
    refusals: Seq<Option<RepairEventView>>,
    earlier: int,
    id: u64,
)
    requires
        setting.sound(),
        0 <= earlier <= refusals.len(),
        played(setting, refusals.take(earlier)).action == RepairActionView::Store(id),
        played(setting, refusals).action == RepairActionView::Store(id),
    ensures
        earlier == refusals.len(),
{
    lemma_effort(setting, refusals, earlier);
    lemma_holds(setting, refusals);
    lemma_holds(setting, refusals.take(earlier));
}

/// A repair owes its report: with as many steps as it needs at most, it ends with one exactly
/// where the packages directory can be made and nothing is refused while the file system is
/// prepared, by the broker, or in finding out where an archive belongs. Whatever else is refused,
/// it reports. Where it does not, it ends with an error.
pub proof fn law_repair_reports(setting: Setting, refusals: Seq<Option<RepairEventView>>)
    requires
        setting.sound(),
        refusals.len() >= 9 * setting.walk.len() + 6,
    ensures
        (played(setting, refusals).action matches RepairActionView::Finish(Ok(_)))
            <==> setting.tree.makeable(setting.packages()) && !hindered(setting, refusals),
        played(setting, refusals).action is Finish,
{
    law_repair_ends(setting, refusals);
    lemma_errors(setting, refusals);
}

} // verus!
