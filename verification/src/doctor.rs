//! The depot's repair tool. It sets the packages aside, makes a fresh place for them, and puts
//! each archive that can be read back in, both into the metadata store and into its place in
//! the file system. What cannot be read stays set aside.
use vstd::prelude::*;
use vstd::string::*;

use crate::net::{NetError, NetErrorView};
use crate::number::{decimal, decimal_text};
use crate::path::{DepotPath, PathView};
use crate::report::{
    all_succeeded, Operation, OperationType, OperationTypeView, OperationView, Reason, ReasonView,
    Report, ReportBuilder, ReportBuilderView, ReportView,
};

verus! {

/// The depot to be repaired.
#[derive(Debug)]
pub struct DepotUtil {
    /// Where the depot is, as its configuration says.
    pub path: String,
    /// Where its packages are.
    pub packages_path: DepotPath,
}

/// What a `DepotUtil` names.
pub ghost struct DepotView {
    pub path: Seq<char>,
    pub packages_path: PathView,
}

impl View for DepotUtil {
    type V = DepotView;

    open spec fn view(&self) -> DepotView {
        DepotView { path: self.path@, packages_path: self.packages_path@ }
    }
}

/// Why a repair was given up.
#[derive(Debug)]
pub enum RepairError {
    /// The file system refused. Contains its own words.
    IO(String),
    /// The metadata store refused.
    NetError(NetError),
    /// The archive's target cannot be read. Contains the reader's own words.
    HabitatCore(String),
}

/// What a `RepairError` says.
pub ghost enum RepairErrorView {
    IO(Seq<char>),
    NetError(NetErrorView),
    HabitatCore(Seq<char>),
}

impl View for RepairError {
    type V = RepairErrorView;

    open spec fn view(&self) -> RepairErrorView {
        match self {
            RepairError::IO(e) => RepairErrorView::IO(e@),
            RepairError::NetError(e) => RepairErrorView::NetError(e@),
            RepairError::HabitatCore(e) => RepairErrorView::HabitatCore(e@),
        }
    }
}

/// How far a repair has come: what it waits for.
#[derive(Debug, Clone, Copy, PartialEq, Eq, Structural)]
pub enum RepairStep {
    /// Nothing: it has not begun.
    Idle,
    /// What there is at the depot's path.
    Stat,
    /// That there is a packages directory.
    MakePackages,
    /// That it is set aside.
    Shelve,
    /// That there is a fresh one.
    Remake,
    /// The next entry of what was set aside.
    Walk,
    /// The identity of an archive.
    Ident,
    /// The metadata of an archive.
    Package,
    /// That the metadata is stored.
    Store,
    /// Where the archive belongs.
    Locate,
    /// That there is a directory for it.
    MakeParent,
    /// That it is there.
    Move,
    /// That a directory is removed, with this many to go including it.
    Cleanup(usize),
    /// Nothing: it has ended.
    Finished,
}

/// Something that happened to a repair.
#[derive(Debug)]
pub enum RepairEvent {
    /// It begins.
    Begin,
    /// There is something at the depot's path.
    Stat { is_file: bool, readonly: bool },
    /// What was to be done is done.
    Done,
    /// What was to be done failed. Contains the words of who refused.
    Failed(String),
    /// The metadata store refused.
    Refused(NetError),
    /// The next entry: a number to speak of it by, its path in writing, and whether it is a
    /// directory.
    Entry { id: u64, path: String, is_dir: bool },
    /// There are no more entries.
    WalkEnd,
    /// The archive belongs at this path.
    Located(String),
}

/// What a `RepairEvent` says.
pub ghost enum RepairEventView {
    Begin,
    Stat { is_file: bool, readonly: bool },
    Done,
    Failed(Seq<char>),
    Refused(NetErrorView),
    Entry { id: u64, path: Seq<char>, is_dir: bool },
    WalkEnd,
    Located(Seq<char>),
}

impl View for RepairEvent {
    type V = RepairEventView;

    open spec fn view(&self) -> RepairEventView {
        match self {
            RepairEvent::Begin => RepairEventView::Begin,
            RepairEvent::Stat { is_file, readonly } => RepairEventView::Stat {
                is_file: *is_file,
                readonly: *readonly,
            },
            RepairEvent::Done => RepairEventView::Done,
            RepairEvent::Failed(e) => RepairEventView::Failed(e@),
            RepairEvent::Refused(e) => RepairEventView::Refused(e@),
            RepairEvent::Entry { id, path, is_dir } => RepairEventView::Entry {
                id: *id,
                path: path@,
                is_dir: *is_dir,
            },
            RepairEvent::WalkEnd => RepairEventView::WalkEnd,
            RepairEvent::Located(path) => RepairEventView::Located(path@),
        }
    }
}

/// What a repair needs next.
#[derive(Debug)]
pub enum RepairAction {
    /// Look at what there is at this path.
    Stat(String),
    /// Make this directory and those above it, as far as they are missing.
    CreateDirAll(DepotPath),
    /// Give the first path the name of the second.
    Rename(DepotPath, DepotPath),
    /// Begin to walk this directory, links not followed, and give its first entry.
    Walk(DepotPath),
    /// Give the next entry.
    NextEntry,
    /// Read the identity of the archive that this entry is.
    ReadIdent(u64),
    /// Read the metadata of the archive that this entry is.
    ReadPackage(u64),
    /// Store the metadata of the archive that this entry is.
    Store(u64),
    /// Find out where the archive that this entry is belongs.
    Locate(u64),
    /// Make the directory that holds this path and those above it, as far as they are missing.
    CreateParent(String),
    /// Move this entry to this path.
    Move(u64, String),
    /// Remove this entry, a directory.
    RemoveDir(u64),
    /// Nothing: this is the outcome.
    Finish(Result<Report, RepairError>),
}

/// What a `RepairAction` says.
pub ghost enum RepairActionView {
    Stat(Seq<char>),
    CreateDirAll(PathView),
    Rename(PathView, PathView),
    Walk(PathView),
    NextEntry,
    ReadIdent(u64),
    ReadPackage(u64),
    Store(u64),
    Locate(u64),
    CreateParent(Seq<char>),
    Move(u64, Seq<char>),
    RemoveDir(u64),
    Finish(Result<ReportView, RepairErrorView>),
}

impl View for RepairAction {
    type V = RepairActionView;

    open spec fn view(&self) -> RepairActionView {
        match self {
            RepairAction::Stat(path) => RepairActionView::Stat(path@),
            RepairAction::CreateDirAll(path) => RepairActionView::CreateDirAll(path@),
            RepairAction::Rename(from, to) => RepairActionView::Rename(from@, to@),
            RepairAction::Walk(path) => RepairActionView::Walk(path@),
            RepairAction::NextEntry => RepairActionView::NextEntry,
            RepairAction::ReadIdent(id) => RepairActionView::ReadIdent(*id),
            RepairAction::ReadPackage(id) => RepairActionView::ReadPackage(*id),
            RepairAction::Store(id) => RepairActionView::Store(*id),
            RepairAction::Locate(id) => RepairActionView::Locate(*id),
            RepairAction::CreateParent(path) => RepairActionView::CreateParent(path@),
            RepairAction::Move(id, path) => RepairActionView::Move(*id, path@),
            RepairAction::RemoveDir(id) => RepairActionView::RemoveDir(*id),
            RepairAction::Finish(Ok(report)) => RepairActionView::Finish(Ok(report@)),
            RepairAction::Finish(Err(e)) => RepairActionView::Finish(Err(e@)),
        }
    }
}

impl RepairActionView {
    /// When the repair ended, where this hands out its report.
    pub open spec fn ended(self) -> u64 {
        match self {
            RepairActionView::Finish(Ok(report)) => report.finish,
            _ => 0,
        }
    }
}

/// The state of a repair.
#[verifier::ext_equal]
pub ghost struct DoctorView {
    pub start: u64,
    pub operations: Seq<OperationView>,
    pub depot: DepotView,
    /// Where the packages are set aside.
    pub packages_path: PathView,
    /// Whether something at the depot's path is in the way.
    pub blocked: bool,
    /// Whether a directory could not be removed.
    pub littered: bool,
    /// The directories met so far, in the order of the walk.
    pub directories: Seq<u64>,
    /// The archive at hand.
    pub entry: u64,
    pub entry_path: Seq<char>,
    /// Where it belongs.
    pub target: Seq<char>,
    pub step: RepairStep,
}

/// Where packages are set aside by a repair that started at `start`: beside them, under a name
/// that tells when.
pub open spec fn set_aside(packages_path: PathView, start: u64) -> PathView {
    packages_path.parent().join("pkgs."@ + decimal_text(start as nat))
}

impl DoctorView {
    /// The state of a repair that has not begun.
    pub open spec fn fresh(depot: DepotView, report: ReportBuilderView) -> DoctorView {
        DoctorView {
            start: report.start,
            operations: report.operations,
            depot,
            packages_path: set_aside(depot.packages_path, report.start),
            blocked: false,
            littered: false,
            directories: Seq::empty(),
            entry: 0,
            entry_path: Seq::empty(),
            target: Seq::empty(),
            step: RepairStep::Idle,
        }
    }

    /// What holds of a repair at all times.
    pub open spec fn inv(self) -> bool {
        self.step matches RepairStep::Cleanup(left) ==> 0 < left <= self.directories.len()
    }

    /// Whether the repair is still preparing the file system.
    pub open spec fn preparing(self) -> bool {
        match self.step {
            RepairStep::Idle | RepairStep::Stat | RepairStep::MakePackages | RepairStep::Shelve
            | RepairStep::Remake => true,
            _ => false,
        }
    }

    /// Whether `event` is one that the repair waits for.
    pub open spec fn expects(self, event: RepairEventView) -> bool {
        match self.step {
            RepairStep::Idle => event is Begin,
            RepairStep::Stat => event is Stat || event is Failed,
            RepairStep::Walk => event is Entry || event is WalkEnd,
            RepairStep::Store => event is Done || event is Refused,
            RepairStep::Locate => event is Located || event is Failed,
            RepairStep::Finished => false,
            _ => event is Done || event is Failed,
        }
    }

    /// The repair waits for something else.
    pub open spec fn to(self, step: RepairStep, action: RepairActionView) -> (
        DoctorView,
        RepairActionView,
    ) {
        (DoctorView { step, ..self }, action)
    }

    /// The repair with one more operation on record.
    pub open spec fn recorded(self, op: OperationView) -> DoctorView {
        DoctorView { operations: self.operations.push(op), ..self }
    }

    /// The repair with one more failure on record.
    pub open spec fn failure(self, op: OperationTypeView, reason: ReasonView) -> DoctorView {
        self.recorded(OperationView::Failure(op, reason))
    }

    /// The repair is given up.
    pub open spec fn given_up(self, e: RepairErrorView) -> (DoctorView, RepairActionView) {
        self.to(RepairStep::Finished, RepairActionView::Finish(Err(e)))
    }

    /// What was found at the depot's path is put on record where it is in the way.
    pub open spec fn inspected(self, is_file: bool, readonly: bool) -> DoctorView {
        let init = OperationTypeView::InitDepotFs(self.depot.path);
        let one = if is_file {
            self.failure(init, ReasonView::FileExists)
        } else {
            self
        };
        let both = if readonly {
            one.failure(init, ReasonView::BadPermissions)
        } else {
            one
        };
        DoctorView { blocked: self.blocked || is_file || readonly, ..both }
    }

    /// The packages directory is made.
    pub open spec fn making(self, step: RepairStep) -> (DoctorView, RepairActionView) {
        self.to(step, RepairActionView::CreateDirAll(self.depot.packages_path))
    }

    /// What an event brings about while the file system is prepared: what is at the depot's
    /// path is looked at, the packages are set aside, and a fresh directory is made for them.
    pub open spec fn init_step(self, event: RepairEventView) -> (DoctorView, RepairActionView) {
        match (self.step, event) {
            (RepairStep::Idle, _) => self.to(
                RepairStep::Stat,
                RepairActionView::Stat(self.depot.path),
            ),
            (RepairStep::Stat, RepairEventView::Stat { is_file, readonly }) => self.inspected(
                is_file,
                readonly,
            ).making(RepairStep::MakePackages),
            (RepairStep::Stat, _) => self.making(RepairStep::MakePackages),
            (_, RepairEventView::Failed(e)) => self.given_up(RepairErrorView::IO(e)),
            (RepairStep::MakePackages, _) => self.to(
                RepairStep::Shelve,
                RepairActionView::Rename(self.depot.packages_path, self.packages_path),
            ),
            (RepairStep::Shelve, _) => self.making(RepairStep::Remake),
            _ => self.initialized().to(
                RepairStep::Walk,
                RepairActionView::Walk(self.packages_path),
            ),
        }
    }

    /// The file system has been prepared, which is put on record where nothing was in the way.
    pub open spec fn initialized(self) -> DoctorView {
        if self.blocked {
            self
        } else {
            self.recorded(OperationView::Success(OperationTypeView::InitDepotFs(self.depot.path)))
        }
    }

    /// The next entry is asked for.
    pub open spec fn walking(self) -> (DoctorView, RepairActionView) {
        self.to(RepairStep::Walk, RepairActionView::NextEntry)
    }

    /// No directory is left to remove, which is put on record where there was one and every one
    /// could be removed.
    pub open spec fn cleaned(self) -> DoctorView {
        if self.littered || self.directories.len() == 0 {
            self
        } else {
            self.recorded(
                OperationView::Success(OperationTypeView::CleanupTrash(self.packages_path.text())),
            )
        }
    }

    /// What is left of the directories is removed, the last one met first; then the repair has
    /// ended, at `finish`.
    pub open spec fn cleaning(self, left: nat, finish: u64) -> (DoctorView, RepairActionView) {
        if left > 0 {
            self.to(
                RepairStep::Cleanup(left as usize),
                RepairActionView::RemoveDir(self.directories[left - 1]),
            )
        } else {
            let operations = self.cleaned().operations;
            DoctorView { operations: Seq::empty(), ..self }.to(
                RepairStep::Finished,
                RepairActionView::Finish(
                    Ok(
                        ReportView {
                            start: self.start,
                            finish,
                            success: all_succeeded(operations),
                            operations,
                        },
                    ),
                ),
            )
        }
    }

    /// The record that a directory could not be removed.
    pub open spec fn not_removed(self) -> DoctorView {
        DoctorView { littered: true, ..self }.failure(
            OperationTypeView::CleanupTrash(self.packages_path.text()),
            ReasonView::NotEmpty,
        )
    }

    /// The record that the archive at hand could not be re-inserted.
    pub open spec fn not_inserted(self, reason: ReasonView) -> DoctorView {
        self.failure(OperationTypeView::ArchiveInsert(self.entry_path), reason)
    }

    /// What an event brings about while archives are re-inserted; `finish` is when the repair
    /// ends, if it does.
    pub open spec fn rebuild_step(self, event: RepairEventView, finish: u64) -> (
        DoctorView,
        RepairActionView,
    ) {
        match (self.step, event) {
            (RepairStep::Walk, RepairEventView::Entry { id, path, is_dir }) => if is_dir {
                DoctorView { directories: self.directories.push(id), ..self }.walking()
            } else {
                DoctorView { entry: id, entry_path: path, ..self }.to(
                    RepairStep::Ident,
                    RepairActionView::ReadIdent(id),
                )
            },
            (RepairStep::Walk, _) => self.cleaning(self.directories.len(), finish),
            (RepairStep::Ident, RepairEventView::Failed(_)) => self.not_inserted(
                ReasonView::BadArchive,
            ).walking(),
            (RepairStep::Ident, _) => self.to(
                RepairStep::Package,
                RepairActionView::ReadPackage(self.entry),
            ),
            (RepairStep::Package, RepairEventView::Failed(e)) => self.not_inserted(
                ReasonView::BadMetadata(e),
            ).walking(),
            (RepairStep::Package, _) => self.to(
                RepairStep::Store,
                RepairActionView::Store(self.entry),
            ),
            (RepairStep::Store, RepairEventView::Refused(e)) => self.given_up(
                RepairErrorView::NetError(e),
            ),
            (RepairStep::Store, _) => self.to(
                RepairStep::Locate,
                RepairActionView::Locate(self.entry),
            ),
            (RepairStep::Locate, RepairEventView::Located(path)) => DoctorView {
                target: path,
                ..self
            }.to(RepairStep::MakeParent, RepairActionView::CreateParent(path)),
            (RepairStep::Locate, RepairEventView::Failed(e)) => self.given_up(
                RepairErrorView::HabitatCore(e),
            ),
            (RepairStep::MakeParent, RepairEventView::Done) => self.to(
                RepairStep::Move,
                RepairActionView::Move(self.entry, self.target),
            ),
            (RepairStep::Move, RepairEventView::Done) => self.recorded(
                OperationView::Success(OperationTypeView::ArchiveInsert(self.target)),
            ).walking(),
            (RepairStep::MakeParent | RepairStep::Move, RepairEventView::Failed(e)) =>
                self.not_inserted(ReasonView::IO(e)).walking(),
            (RepairStep::Cleanup(left), RepairEventView::Failed(_)) =>
                self.not_removed().cleaning((left - 1) as nat, finish),
            (RepairStep::Cleanup(left), _) => self.cleaning((left - 1) as nat, finish),
            _ => self.walking(),
        }
    }

    /// What an event brings about; `finish` is when the repair ends, if it does.
    pub open spec fn repair_step(self, event: RepairEventView, finish: u64) -> (
        DoctorView,
        RepairActionView,
    ) {
        if self.preparing() {
            self.init_step(event)
        } else {
            self.rebuild_step(event, finish)
        }
    }
}

/// A repair at work.
pub struct Doctor {
    report: ReportBuilder,
    depot: DepotUtil,
    packages_path: DepotPath,
    blocked: bool,
    littered: bool,
    directories: Vec<u64>,
    entry: u64,
    entry_path: String,
    target: String,
    step: RepairStep,
}

impl View for Doctor {
    type V = DoctorView;

    closed spec fn view(&self) -> DoctorView {
        DoctorView {
            start: self.report@.start,
            operations: self.report@.operations,
            depot: self.depot@,
            packages_path: self.packages_path@,
            blocked: self.blocked,
            littered: self.littered,
            directories: self.directories@,
            entry: self.entry,
            entry_path: self.entry_path@,
            target: self.target@,
            step: self.step,
        }
    }
}

impl Doctor {
    /// A repair of `depot` that starts now.
    pub fn new(depot: DepotUtil) -> (doctor: Doctor)
        ensures
            doctor@ == DoctorView::fresh(
                depot@,
                ReportBuilderView { operations: Seq::empty(), start: doctor@.start },
            ),
            doctor@.inv(),
    {
        Doctor::reporting(depot, ReportBuilder::new())
    }

    /// A repair of `depot` that goes on with `report` and started when it did.
    pub fn reporting(depot: DepotUtil, report: ReportBuilder) -> (doctor: Doctor)
        ensures
            doctor@ == DoctorView::fresh(depot@, report@),
            doctor@.inv(),
    {
        let mut packages: DepotPath = depot.packages_path.copy();
        packages.pop();
        let mut name: String = "pkgs.".to_owned();
        name.append(decimal(report.start).as_str());
        packages.push(name);
        let doctor = Doctor {
            report,
            depot,
            packages_path: packages,
            blocked: false,
            littered: false,
            directories: Vec::new(),
            entry: 0,
            entry_path: String::new(),
            target: String::new(),
            step: RepairStep::Idle,
        };
        assert(doctor@ =~= DoctorView::fresh(depot@, report@));
        doctor
    }

    /// Deals with what happened to the repair and says what it needs next.
    pub fn run(&mut self, event: RepairEvent) -> (action: RepairAction)
        requires
            old(self)@.inv(),
            old(self)@.expects(event@),
        ensures
            exists|finish: u64|
                (final(self)@, action@) == #[trigger] old(self)@.repair_step(event@, finish),
            action@ matches RepairActionView::Finish(Ok(report)) ==> report.start <= report.finish,
            final(self)@.inv(),
    {
        match self.step {
            RepairStep::Idle | RepairStep::Stat | RepairStep::MakePackages | RepairStep::Shelve
            | RepairStep::Remake => {
                let action = self.init_fs(event);
                assert((self@, action@) == old(self)@.repair_step(event@, 0));
                action
            },
            _ => {
                let action = self.rebuild_metadata(event);
                proof {
                    let finish = choose|finish: u64|
                        (self@, action@) == #[trigger] old(self)@.rebuild_step(event@, finish);
                    assert((self@, action@) == old(self)@.repair_step(event@, finish));
                }
                action
            },
        }
    }

    /// Deals with what happened while the file system is prepared.
    pub fn init_fs(&mut self, event: RepairEvent) -> (action: RepairAction)
        requires
            old(self)@.preparing(),
            old(self)@.expects(event@),
        ensures
            (final(self)@, action@) == old(self)@.init_step(event@),
            final(self)@.inv(),
    {
        match (self.step, event) {
            (RepairStep::Idle, _) => {
                self.step = RepairStep::Stat;
                RepairAction::Stat(self.depot.path.clone())
            },
            (RepairStep::Stat, RepairEvent::Stat { is_file, readonly }) => {
                if is_file {
                    self.report.failure(
                        OperationType::InitDepotFs(self.depot.path.clone()),
                        Reason::FileExists,
                    );
                }
                if readonly {
                    self.report.failure(
                        OperationType::InitDepotFs(self.depot.path.clone()),
                        Reason::BadPermissions,
                    );
                }
                self.blocked = self.blocked || is_file || readonly;
                self.make(RepairStep::MakePackages)
            },
            (RepairStep::Stat, _) => self.make(RepairStep::MakePackages),
            (_, RepairEvent::Failed(e)) => self.give_up(RepairError::IO(e)),
            (RepairStep::MakePackages, _) => {
                self.step = RepairStep::Shelve;
                RepairAction::Rename(self.depot.packages_path.copy(), self.packages_path.copy())
            },
            (RepairStep::Shelve, _) => self.make(RepairStep::Remake),
            _ => {
                if !self.blocked {
                    self.report.success(OperationType::InitDepotFs(self.depot.path.clone()));
                }
                self.step = RepairStep::Walk;
                RepairAction::Walk(self.packages_path.copy())
            },
        }
    }

    /// Has the packages directory made.
    fn make(&mut self, step: RepairStep) -> (action: RepairAction)
        ensures
            (final(self)@, action@) == old(self)@.making(step),
    {
        self.step = step;
        RepairAction::CreateDirAll(self.depot.packages_path.copy())
    }

    /// Gives the repair up.
    fn give_up(&mut self, e: RepairError) -> (action: RepairAction)
        ensures
            (final(self)@, action@) == old(self)@.given_up(e@),
    {
        self.step = RepairStep::Finished;
        RepairAction::Finish(Err(e))
    }

    /// Asks for the next entry.
    fn walk(&mut self) -> (action: RepairAction)
        ensures
            (final(self)@, action@) == old(self)@.walking(),
    {
        self.step = RepairStep::Walk;
        RepairAction::NextEntry
    }

    /// Records that the archive at hand could not be re-inserted.
    fn not_inserted(&mut self, reason: Reason)
        ensures
            final(self)@ == old(self)@.not_inserted(reason@),
    {
        self.report.failure(OperationType::ArchiveInsert(self.entry_path.clone()), reason);
    }

    /// Removes the last of the directories that are left, or ends the repair.
    fn clean(&mut self, left: usize) -> (action: RepairAction)
        requires
            left <= old(self)@.directories.len(),
        ensures
            (final(self)@, action@) == old(self)@.cleaning(left as nat, action@.ended()),
            action@ matches RepairActionView::Finish(Ok(report)) ==> report.start <= report.finish,
            final(self)@.inv(),
    {
        if left > 0 {
            self.step = RepairStep::Cleanup(left);
            RepairAction::RemoveDir(self.directories[left - 1])
        } else {
            if !self.littered && self.directories.len() > 0 {
                self.report.success(OperationType::CleanupTrash(self.packages_path.text()));
            }
            self.step = RepairStep::Finished;
            let mut operations: Vec<Operation> = Vec::new();
            std::mem::swap(&mut operations, &mut self.report.operations);
            let builder = ReportBuilder { operations, start: self.report.start };
            let report: Report = builder.generate();
            assert(self@.operations =~= Seq::empty());
            RepairAction::Finish(Ok(report))
        }
    }

    /// Deals with what happened while archives are re-inserted.
    pub fn rebuild_metadata(&mut self, event: RepairEvent) -> (action: RepairAction)
        requires
            old(self)@.inv(),
            !old(self)@.preparing(),
            old(self)@.expects(event@),
        ensures
            exists|finish: u64|
                (final(self)@, action@) == #[trigger] old(self)@.rebuild_step(event@, finish),
            action@ matches RepairActionView::Finish(Ok(report)) ==> report.start <= report.finish,
            final(self)@.inv(),
    {
        let ghost before = self@;
        let ghost said = event@;
        let action = match (self.step, event) {
            (RepairStep::Walk, RepairEvent::Entry { id, path, is_dir }) => {
                if is_dir {
                    self.directories.push(id);
                    self.walk()
                } else {
                    self.entry = id;
                    self.entry_path = path;
                    self.step = RepairStep::Ident;
                    RepairAction::ReadIdent(id)
                }
            },
            (RepairStep::Walk, _) => {
                let left: usize = self.directories.len();
                self.clean(left)
            },
            (RepairStep::Ident, RepairEvent::Failed(_)) => {
                self.not_inserted(Reason::BadArchive);
                self.walk()
            },
            (RepairStep::Ident, _) => {
                self.step = RepairStep::Package;
                RepairAction::ReadPackage(self.entry)
            },
            (RepairStep::Package, RepairEvent::Failed(e)) => {
                self.not_inserted(Reason::BadMetadata(e));
                self.walk()
            },
            (RepairStep::Package, _) => {
                self.step = RepairStep::Store;
                RepairAction::Store(self.entry)
            },
            (RepairStep::Store, RepairEvent::Refused(e)) => self.give_up(RepairError::NetError(e)),
            (RepairStep::Store, _) => {
                self.step = RepairStep::Locate;
                RepairAction::Locate(self.entry)
            },
            (RepairStep::Locate, RepairEvent::Located(path)) => {
                self.target = path.clone();
                self.step = RepairStep::MakeParent;
                RepairAction::CreateParent(path)
            },
            (RepairStep::Locate, RepairEvent::Failed(e)) => self.give_up(
                RepairError::HabitatCore(e),
            ),
            (RepairStep::MakeParent, RepairEvent::Done) => {
                self.step = RepairStep::Move;
                RepairAction::Move(self.entry, self.target.clone())
            },
            (RepairStep::Move, RepairEvent::Done) => {
                self.report.success(OperationType::ArchiveInsert(self.target.clone()));
                self.walk()
            },
            (RepairStep::MakeParent | RepairStep::Move, RepairEvent::Failed(e)) => {
                self.not_inserted(Reason::IO(e));
                self.walk()
            },
            (RepairStep::Cleanup(left), RepairEvent::Failed(_)) => {
                self.littered = true;
                self.report.failure(
                    OperationType::CleanupTrash(self.packages_path.text()),
                    Reason::NotEmpty,
                );
                self.clean(left - 1)
            },
            (RepairStep::Cleanup(left), _) => self.clean(left - 1),
            _ => self.walk(),
        };
        assert((self@, action@) == before.rebuild_step(said, action@.ended()));
        action
    }
}

/// Begins a repair of `depot`: the repair, and what it needs first.
pub fn repair(depot: DepotUtil) -> (begun: (Doctor, RepairAction))
    ensures
        (begun.0@, begun.1@) == DoctorView::fresh(
            depot@,
            ReportBuilderView { operations: Seq::empty(), start: begun.0@.start },
        ).init_step(RepairEventView::Begin),
        begun.0@.inv(),
{
    let mut doctor = Doctor::new(depot);
    let action = doctor.run(RepairEvent::Begin);
    (doctor, action)
}

} // verus!
