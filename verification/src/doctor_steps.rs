//! What each event does to a repair, in full.
use vstd::prelude::*;

use crate::doctor::{
    set_aside, DepotUtil, DepotView, DoctorView, RepairAction, RepairActionView, RepairError,
    RepairErrorView, RepairEvent, RepairEventView, RepairStep,
};
use crate::doctor_laws::{possible, reached};
use crate::net::NetErrorView;
use crate::number::decimal_text;
use crate::path::PathView;
use crate::report::{
    OperationTypeView, OperationView, ReasonView, ReportBuilderView, ReportView,
};

verus! {

/// Packages are set aside under `pkgs.` and the time in decimal, in the directory that they are in.
pub proof fn law_set_aside_name(packages_path: PathView, start: u64)
    ensures
        set_aside(packages_path, start).absolute == packages_path.absolute,
        set_aside(packages_path, start).parts == (if packages_path.parts.len() > 0 {
            packages_path.parts.drop_last()
        } else {
            Seq::empty()
        }).push("pkgs."@ + decimal_text(start as nat)),
{
    if packages_path.parts.len() == 0 {
        assert(packages_path.parts =~= Seq::empty());
    }
}

/// A repair that has not begun has met no directory and found nothing in the way, and takes its
/// start and its record from the report that it goes on with.
pub proof fn law_repair_is_fresh(depot: DepotView, report: ReportBuilderView)
    ensures
        ({
            let d = DoctorView::fresh(depot, report);
            &&& d.start == report.start
            &&& d.operations == report.operations
            &&& d.depot == depot
            &&& d.packages_path == set_aside(depot.packages_path, report.start)
            &&& !d.blocked
            &&& !d.littered
            &&& d.directories.len() == 0
            &&& d.step == RepairStep::Idle
            &&& d.inv()
            &&& d.expects(RepairEventView::Begin)
        }),
{
}

/// What a look at the depot's path puts on record: that a file is there, exactly where one is, and
/// behind it that it cannot be written to, exactly where it cannot.
pub proof fn law_look_is_recorded(d: DoctorView, is_file: bool, readonly: bool, finish: u64)
    requires
        d.step == RepairStep::Stat,
    ensures
        ({
            let (t, action) = d.repair_step(RepairEventView::Stat { is_file, readonly }, finish);
            let init = OperationTypeView::InitDepotFs(d.depot.path);
            let exists_there = OperationView::Failure(init, ReasonView::FileExists);
            let read_only = OperationView::Failure(init, ReasonView::BadPermissions);
            &&& action == RepairActionView::CreateDirAll(d.depot.packages_path)
            &&& !is_file && !readonly ==> t.operations == d.operations
            &&& is_file && !readonly ==> t.operations == d.operations.push(exists_there)
            &&& !is_file && readonly ==> t.operations == d.operations.push(read_only)
            &&& is_file && readonly ==> t.operations == d.operations.push(exists_there).push(
                read_only,
            )
            &&& t == (DoctorView {
                step: RepairStep::MakePackages,
                operations: t.operations,
                blocked: d.blocked || is_file || readonly,
                ..d
            })
        }),
{
}

/// What every other event does while the file system is prepared. The depot's path is looked at; a
/// look that fails finds nothing; the packages directory is made sure of, renamed and made anew;
/// where nothing was in the way that goes on record; and the first refusal of these ends the
/// repair.
pub proof fn law_preparation_step(d: DoctorView, event: RepairEventView, finish: u64)
    requires
        d.expects(event),
    ensures
        ({
            let (t, action) = d.repair_step(event, finish);
            match (d.step, event) {
                (RepairStep::Idle, RepairEventView::Begin) => {
                    &&& action == RepairActionView::Stat(d.depot.path)
                    &&& t == (DoctorView { step: RepairStep::Stat, ..d })
                },
                (RepairStep::Stat, RepairEventView::Failed(_)) => {
                    &&& action == RepairActionView::CreateDirAll(d.depot.packages_path)
                    &&& t == (DoctorView { step: RepairStep::MakePackages, ..d })
                },
                (RepairStep::MakePackages, RepairEventView::Done) => {
                    &&& action == RepairActionView::Rename(
                        d.depot.packages_path,
                        d.packages_path,
                    )
                    &&& t == (DoctorView { step: RepairStep::Shelve, ..d })
                },
                (RepairStep::Shelve, RepairEventView::Done) => {
                    &&& action == RepairActionView::CreateDirAll(d.depot.packages_path)
                    &&& t == (DoctorView { step: RepairStep::Remake, ..d })
                },
                (RepairStep::Remake, RepairEventView::Done) => {
                    &&& action == RepairActionView::Walk(d.packages_path)
                    &&& t == (DoctorView {
                        step: RepairStep::Walk,
                        operations: if d.blocked {
                            d.operations
                        } else {
                            d.operations.push(
                                OperationView::Success(
                                    OperationTypeView::InitDepotFs(d.depot.path),
                                ),
                            )
                        },
                        ..d
                    })
                },
                (
                    RepairStep::MakePackages | RepairStep::Shelve | RepairStep::Remake,
                    RepairEventView::Failed(e),
                ) => {
                    &&& action == RepairActionView::Finish(Err(RepairErrorView::IO(e)))
                    &&& t == (DoctorView { step: RepairStep::Finished, ..d })
                },
                _ => true,
            }
        }),
{
}

/// What an entry of the walk does: a directory is remembered behind those met before, and a file is
/// taken in hand.
pub proof fn law_entry_step(d: DoctorView, id: u64, path: Seq<char>, is_dir: bool, finish: u64)
    requires
        d.step == RepairStep::Walk,
    ensures
        ({
            let (t, action) = d.repair_step(RepairEventView::Entry { id, path, is_dir }, finish);
            if is_dir {
                &&& action == RepairActionView::NextEntry
                &&& t == (DoctorView { directories: d.directories.push(id), ..d })
            } else {
                &&& action == RepairActionView::ReadIdent(id)
                &&& t == (DoctorView {
                    step: RepairStep::Ident,
                    entry: id,
                    entry_path: path,
                    ..d
                })
            }
        }),
{
}

/// What each event does to a file in hand, named by the entry that brought it. Its identity and its
/// metadata are read, the metadata is stored, it is found out where the archive belongs, and it is
/// moved there. Where one of these fails, that goes on record with the file's own path and the
/// walk goes on; only a refusal of the store, or not to find out where it belongs, ends the repair.
pub proof fn law_file_in_hand(
    d: DoctorView,
    id: u64,
    path: Seq<char>,
    target: Seq<char>,
    e: Seq<char>,
    refusal: NetErrorView,
    finish: u64,
)
    requires
        d.step == RepairStep::Walk,
    ensures
        ({
            let done = RepairEventView::Done;
            let failed = RepairEventView::Failed(e);
            let goes_on = |next: (DoctorView, RepairActionView), reason: ReasonView|
                next.1 == RepairActionView::NextEntry && next.0.step == RepairStep::Walk
                    && next.0.directories == d.directories && next.0.operations
                    == d.operations.push(
                    OperationView::Failure(OperationTypeView::ArchiveInsert(path), reason),
                );
            let (d1, a1) = d.repair_step(
                RepairEventView::Entry { id, path, is_dir: false },
                finish,
            );
            let (d2, a2) = d1.repair_step(done, finish);
            let (d3, a3) = d2.repair_step(done, finish);
            let (d4, a4) = d3.repair_step(done, finish);
            let (d5, a5) = d4.repair_step(RepairEventView::Located(target), finish);
            let (d6, a6) = d5.repair_step(done, finish);
            let (d7, a7) = d6.repair_step(done, finish);
            &&& a1 == RepairActionView::ReadIdent(id)
            &&& goes_on(d1.repair_step(failed, finish), ReasonView::BadArchive)
            &&& a2 == RepairActionView::ReadPackage(id)
            &&& goes_on(d2.repair_step(failed, finish), ReasonView::BadMetadata(e))
            &&& a3 == RepairActionView::Store(id)
            &&& d3.repair_step(RepairEventView::Refused(refusal), finish).1
                == RepairActionView::Finish(Err(RepairErrorView::NetError(refusal)))
            &&& a4 == RepairActionView::Locate(id)
            &&& d4.repair_step(failed, finish).1 == RepairActionView::Finish(
                Err(RepairErrorView::HabitatCore(e)),
            )
            &&& a5 == RepairActionView::CreateParent(target)
            &&& goes_on(d5.repair_step(failed, finish), ReasonView::IO(e))
            &&& a6 == RepairActionView::Move(id, target)
            &&& goes_on(d6.repair_step(failed, finish), ReasonView::IO(e))
            &&& a7 == RepairActionView::NextEntry
            &&& d7.operations == d.operations.push(
                OperationView::Success(OperationTypeView::ArchiveInsert(target)),
            )
        }),
{
}

/// What each event does to the state of a repair with a file in hand.
pub proof fn law_file_step(d: DoctorView, event: RepairEventView, finish: u64)
    requires
        d.expects(event),
    ensures
        ({
            let (t, action) = d.repair_step(event, finish);
            match (d.step, event) {
                (RepairStep::Ident, RepairEventView::Done) => {
                    &&& action == RepairActionView::ReadPackage(d.entry)
                    &&& t == (DoctorView { step: RepairStep::Package, ..d })
                },
                (RepairStep::Package, RepairEventView::Done) => {
                    &&& action == RepairActionView::Store(d.entry)
                    &&& t == (DoctorView { step: RepairStep::Store, ..d })
                },
                (RepairStep::Store, RepairEventView::Done) => {
                    &&& action == RepairActionView::Locate(d.entry)
                    &&& t == (DoctorView { step: RepairStep::Locate, ..d })
                },
                (RepairStep::Store, RepairEventView::Refused(e)) => {
                    &&& action == RepairActionView::Finish(Err(RepairErrorView::NetError(e)))
                    &&& t == (DoctorView { step: RepairStep::Finished, ..d })
                },
                (RepairStep::Locate, RepairEventView::Located(target)) => {
                    &&& action == RepairActionView::CreateParent(target)
                    &&& t == (DoctorView { step: RepairStep::MakeParent, target, ..d })
                },
                (RepairStep::Locate, RepairEventView::Failed(e)) => {
                    &&& action == RepairActionView::Finish(Err(RepairErrorView::HabitatCore(e)))
                    &&& t == (DoctorView { step: RepairStep::Finished, ..d })
                },
                (RepairStep::MakeParent, RepairEventView::Done) => {
                    &&& action == RepairActionView::Move(d.entry, d.target)
                    &&& t == (DoctorView { step: RepairStep::Move, ..d })
                },
                (RepairStep::Move, RepairEventView::Done) => {
                    &&& action == RepairActionView::NextEntry
                    &&& t == (DoctorView {
                        step: RepairStep::Walk,
                        operations: d.operations.push(
                            OperationView::Success(OperationTypeView::ArchiveInsert(d.target)),
                        ),
                        ..d
                    })
                },
                (
                    RepairStep::Ident | RepairStep::Package | RepairStep::MakeParent
                    | RepairStep::Move,
                    RepairEventView::Failed(e),
                ) => {
                    &&& action == RepairActionView::NextEntry
                    &&& t == (DoctorView {
                        step: RepairStep::Walk,
                        operations: d.operations.push(
                            OperationView::Failure(
                                OperationTypeView::ArchiveInsert(d.entry_path),
                                match d.step {
                                    RepairStep::Ident => ReasonView::BadArchive,
                                    RepairStep::Package => ReasonView::BadMetadata(e),
                                    _ => ReasonView::IO(e),
                                },
                            ),
                        ),
                        ..d
                    })
                },
                _ => true,
            }
        }),
{
}

/// What the end of the walk and each removal do. The directory met last of those that are left is
/// removed next; one that cannot be removed goes on record; and when none is left the report is
/// handed out, with everything on record, and behind it that the directories were cleaned up where
/// there was one and each could be removed.
pub proof fn law_removal_step(d: DoctorView, event: RepairEventView, finish: u64)
    requires
        d.inv(),
        d.expects(event),
        d.directories.len() <= usize::MAX,
        (d.step == RepairStep::Walk && event == RepairEventView::WalkEnd) || d.step is Cleanup,
    ensures
        ({
            let (t, action) = d.repair_step(event, finish);
            let trash = OperationTypeView::CleanupTrash(d.packages_path.text());
            let left = match d.step {
                RepairStep::Cleanup(n) => n - 1,
                _ => d.directories.len() as int,
            };
            let record = if event is Failed {
                d.operations.push(OperationView::Failure(trash, ReasonView::NotEmpty))
            } else {
                d.operations
            };
            let littered = d.littered || event is Failed;
            if left > 0 {
                &&& action == RepairActionView::RemoveDir(d.directories[left - 1])
                &&& t == (DoctorView {
                    step: RepairStep::Cleanup(left as usize),
                    operations: record,
                    littered,
                    ..d
                })
            } else {
                &&& action matches RepairActionView::Finish(Ok(report)) && report.start == d.start
                    && report.finish == finish && report.operations == if !littered
                    && d.directories.len() > 0 {
                    record.push(OperationView::Success(trash))
                } else {
                    record
                } && (report.success <==> !(exists|i: int|
                    0 <= i < report.operations.len() && #[trigger] report.operations[i]
                        is Failure))
                &&& t.step == RepairStep::Finished
            }
        }),
{
}

/// Whatever a repair asks for, it waits for each answer that there may be, until it has given its
/// outcome.
pub proof fn law_repair_waits_for_answers(
    d: DoctorView,
    event: RepairEventView,
    finish: u64,
    flags: (bool, bool),
    e: Seq<char>,
    refusal: NetErrorView,
    id: u64,
)
    requires
        d.inv(),
        d.directories.len() <= usize::MAX,
        d.expects(event),
    ensures
        ({
            let (t, action) = d.repair_step(event, finish);
            let done = t.expects(RepairEventView::Done);
            let failed = t.expects(RepairEventView::Failed(e));
            match action {
                RepairActionView::Stat(_) => t.expects(
                    RepairEventView::Stat { is_file: flags.0, readonly: flags.1 },
                ) && failed,
                RepairActionView::Walk(_) | RepairActionView::NextEntry => t.expects(
                    RepairEventView::Entry { id, path: e, is_dir: flags.0 },
                ) && t.expects(RepairEventView::WalkEnd),
                RepairActionView::Store(_) => done && t.expects(RepairEventView::Refused(refusal)),
                RepairActionView::Locate(_) => t.expects(RepairEventView::Located(e)) && failed,
                RepairActionView::Finish(_) => !done && !failed,
                _ => done && failed,
            }
        }),
{
}

/// A failure on record stays on record, where it is, and the report with it is no success.
pub proof fn law_failure_is_never_forgotten(
    d: DoctorView,
    event: RepairEventView,
    finish: u64,
    i: int,
)
    requires
        d.inv(),
        d.expects(event),
        0 <= i < d.operations.len(),
        d.operations[i] is Failure,
    ensures
        ({
            let (t, action) = d.repair_step(event, finish);
            match action {
                RepairActionView::Finish(Ok(report)) => i < report.operations.len()
                    && report.operations[i] == d.operations[i] && !report.success,
                _ => i < t.operations.len() && t.operations[i] == d.operations[i],
            }
        }),
{
    if let RepairActionView::Finish(Ok(report)) = d.repair_step(event, finish).1 {
        assert(!(report.operations[i] is Success));
    }
}

/// A repair goes on for as long as it waits for something, and a failure on record is on record
/// throughout.
proof fn lemma_failure_stays(
    d: DoctorView,
    events: Seq<RepairEventView>,
    event: RepairEventView,
    finish: u64,
    i: int,
)
    requires
        d.inv(),
        d.directories.len() + events.len() <= usize::MAX,
        possible(d, events.push(event), finish),
        0 <= i < d.operations.len(),
        d.operations[i] is Failure,
    ensures
        ({
            let t = reached(d, events, finish);
            &&& t.inv()
            &&& t.expects(event)
            &&& t.directories.len() <= d.directories.len() + events.len()
            &&& i < t.operations.len()
            &&& t.operations[i] == d.operations[i]
        }),
    decreases events.len(),
{
    assert(events.push(event).drop_last() =~= events);
    if events.len() > 0 {
        let before = events.drop_last();
        assert(before.push(events.last()) =~= events);
        lemma_failure_stays(d, before, events.last(), finish, i);
        let s = reached(d, before, finish);
        law_failure_is_never_forgotten(s, events.last(), finish, i);
    }
}

/// A repair that met a file at the depot's path, or a path that it cannot write to, is never a
/// success, whatever comes after.
pub proof fn law_blocked_is_no_success(
    depot: DepotView,
    builder: ReportBuilderView,
    is_file: bool,
    readonly: bool,
    events: Seq<RepairEventView>,
    event: RepairEventView,
    finish: u64,
    report: ReportView,
)
    requires
        is_file || readonly,
        events.len() <= usize::MAX,
        ({
            let begun = DoctorView::fresh(depot, builder).repair_step(
                RepairEventView::Begin,
                finish,
            ).0;
            let d = begun.repair_step(RepairEventView::Stat { is_file, readonly }, finish).0;
            &&& possible(d, events.push(event), finish)
            &&& reached(d, events, finish).repair_step(event, finish).1 == RepairActionView::Finish(
                Ok(report),
            )
        }),
    ensures
        !report.success,
        is_file ==> report.operations.contains(
            OperationView::Failure(
                OperationTypeView::InitDepotFs(depot.path),
                ReasonView::FileExists,
            ),
        ),
        readonly ==> report.operations.contains(
            OperationView::Failure(
                OperationTypeView::InitDepotFs(depot.path),
                ReasonView::BadPermissions,
            ),
        ),
{
    let fresh = DoctorView::fresh(depot, builder);
    let begun = fresh.repair_step(RepairEventView::Begin, finish).0;
    let d = begun.repair_step(RepairEventView::Stat { is_file, readonly }, finish).0;
    let t = reached(d, events, finish);
    let n = builder.operations.len() as int;
    law_look_is_recorded(begun, is_file, readonly, finish);
    lemma_failure_stays(d, events, event, finish, n);
    law_failure_is_never_forgotten(t, event, finish, n);
    if is_file && readonly {
        lemma_failure_stays(d, events, event, finish, n + 1);
        law_failure_is_never_forgotten(t, event, finish, n + 1);
    }
}

/// What a repair is told, and what depot it is of, is seen as it is.
pub proof fn law_repair_events_are_seen(depot: DepotUtil, event: RepairEvent)
    ensures
        depot@.path == depot.path@,
        depot@.packages_path == depot.packages_path@,
        match event {
            RepairEvent::Begin => event@ == RepairEventView::Begin,
            RepairEvent::Stat { is_file, readonly } => event@ matches RepairEventView::Stat {
                is_file: f,
                readonly: r,
            } && f == is_file && r == readonly,
            RepairEvent::Done => event@ == RepairEventView::Done,
            RepairEvent::Failed(e) => event@ == RepairEventView::Failed(e@),
            RepairEvent::Refused(e) => event@ matches RepairEventView::Refused(seen) && seen.code
                == e.code && seen.msg == e.msg@,
            RepairEvent::Entry { id, path, is_dir } => event@ matches RepairEventView::Entry {
                id: i,
                path: p,
                is_dir: d,
            } && i == id && p == path@ && d == is_dir,
            RepairEvent::WalkEnd => event@ == RepairEventView::WalkEnd,
            RepairEvent::Located(path) => event@ == RepairEventView::Located(path@),
        },
{
}

/// What a repair asks for, and what it ends with, is seen as it is.
pub proof fn law_repair_actions_are_seen(action: RepairAction, error: RepairError)
    ensures
        match action {
            RepairAction::Stat(path) => action@ == RepairActionView::Stat(path@),
            RepairAction::CreateDirAll(path) => action@ == RepairActionView::CreateDirAll(path@),
            RepairAction::Rename(from, to) => action@ == RepairActionView::Rename(from@, to@),
            RepairAction::Walk(path) => action@ == RepairActionView::Walk(path@),
            RepairAction::NextEntry => action@ == RepairActionView::NextEntry,
            RepairAction::ReadIdent(id) => action@ == RepairActionView::ReadIdent(id),
            RepairAction::ReadPackage(id) => action@ == RepairActionView::ReadPackage(id),
            RepairAction::Store(id) => action@ == RepairActionView::Store(id),
            RepairAction::Locate(id) => action@ == RepairActionView::Locate(id),
            RepairAction::CreateParent(path) => action@ == RepairActionView::CreateParent(path@),
            RepairAction::Move(id, path) => action@ == RepairActionView::Move(id, path@),
            RepairAction::RemoveDir(id) => action@ == RepairActionView::RemoveDir(id),
            RepairAction::Finish(Ok(report)) => action@ == RepairActionView::Finish(Ok(report@)),
            RepairAction::Finish(Err(e)) => action@ == RepairActionView::Finish(Err(e@)),
        },
        match error {
            RepairError::IO(e) => error@ == RepairErrorView::IO(e@),
            RepairError::NetError(e) => error@ == RepairErrorView::NetError(e@),
            RepairError::HabitatCore(e) => error@ == RepairErrorView::HabitatCore(e@),
        },
{
}

} // verus!
