//! The record of what a depot repair did.
use vstd::prelude::*;

verus! {

/// `time::get_time`: the time of the system's clock, as whole seconds since the epoch and the
/// nanoseconds beyond them, of which there are less than a second's. What the clock says is left
/// open; two readings need not even be in order.
#[verifier::external_body]
fn epoch_time() -> (now: (i64, i32))
    ensures
        0 <= now.1 < 1_000_000_000,
{
    let now = time::get_time();
    (now.sec, now.nsec)
}

/// The nanoseconds since the epoch, `sec` seconds and `nsec` nanoseconds after it: none before the
/// epoch, and no more than a `u64` can hold.
pub open spec fn nanoseconds_after(sec: int, nsec: int) -> int {
    let all = sec * 1_000_000_000 + nsec;
    if all < 0 {
        0
    } else if all > u64::MAX {
        u64::MAX as int
    } else {
        all
    }
}

/// A time in nanoseconds since the epoch.
pub fn nanoseconds(sec: i64, nsec: i32) -> (all: u64)
    ensures
        all == nanoseconds_after(sec as int, nsec as int),
        0 <= sec * 1_000_000_000 + nsec <= 0xffff_ffff_ffff_ffff ==> all == sec * 1_000_000_000
            + nsec,
{
    let all: i128 = sec as i128 * 1_000_000_000 + nsec as i128;
    if all < 0 {
        0
    } else if all > u64::MAX as i128 {
        u64::MAX
    } else {
        all as u64
    }
}

/// The time now, in nanoseconds since the epoch.
fn now() -> u64 {
    let (sec, nsec) = epoch_time();
    nanoseconds(sec, nsec)
}

/// One thing that a repair does.
#[derive(Debug)]
pub enum OperationType {
    /// Record of an archive being re-inserted into the datastore. Contains the filepath to the
    /// final location of the archive.
    ArchiveInsert(String),
    /// Record of cleaning up after the doctor has run. Contains the filepath of the trash which
    /// was cleaned.
    CleanupTrash(String),
    /// Record of initializing the depot's datastore filesystem. Contains the filepath of the new
    /// filesystem.
    InitDepotFs(String),
    /// Record of preparing the datastore for re-build. Contains the amount of records dropped from
    /// the entire datastore.
    TruncateDataStore(usize),
}

/// Why an operation failed.
#[derive(Debug)]
pub enum Reason {
    BadArchive,
    /// The archive's metadata cannot be read. Contains the reader's own words.
    BadMetadata(String),
    BadPermissions,
    /// The file system refused. Contains its own words.
    IO(String),
    FileExists,
    NotEmpty,
}

/// An operation and how it ended.
#[derive(Debug)]
pub enum Operation {
    Success(OperationType),
    Failure(OperationType, Reason),
}

/// What an `OperationType` says.
pub ghost enum OperationTypeView {
    ArchiveInsert(Seq<char>),
    CleanupTrash(Seq<char>),
    InitDepotFs(Seq<char>),
    TruncateDataStore(usize),
}

/// What a `Reason` says.
pub ghost enum ReasonView {
    BadArchive,
    BadMetadata(Seq<char>),
    BadPermissions,
    IO(Seq<char>),
    FileExists,
    NotEmpty,
}

/// What an `Operation` says.
pub ghost enum OperationView {
    Success(OperationTypeView),
    Failure(OperationTypeView, ReasonView),
}

impl View for OperationType {
    type V = OperationTypeView;

    open spec fn view(&self) -> OperationTypeView {
        match self {
            OperationType::ArchiveInsert(path) => OperationTypeView::ArchiveInsert(path@),
            OperationType::CleanupTrash(path) => OperationTypeView::CleanupTrash(path@),
            OperationType::InitDepotFs(path) => OperationTypeView::InitDepotFs(path@),
            OperationType::TruncateDataStore(n) => OperationTypeView::TruncateDataStore(*n),
        }
    }
}

impl View for Reason {
    type V = ReasonView;

    open spec fn view(&self) -> ReasonView {
        match self {
            Reason::BadArchive => ReasonView::BadArchive,
            Reason::BadMetadata(e) => ReasonView::BadMetadata(e@),
            Reason::BadPermissions => ReasonView::BadPermissions,
            Reason::IO(e) => ReasonView::IO(e@),
            Reason::FileExists => ReasonView::FileExists,
            Reason::NotEmpty => ReasonView::NotEmpty,
        }
    }
}

impl View for Operation {
    type V = OperationView;

    open spec fn view(&self) -> OperationView {
        match self {
            Operation::Success(op) => OperationView::Success(op@),
            Operation::Failure(op, reason) => OperationView::Failure(op@, reason@),
        }
    }
}

/// What a list of operations says.
pub open spec fn operations_view(operations: Seq<Operation>) -> Seq<OperationView> {
    operations.map_values(|op: Operation| op@)
}

/// Whether every operation succeeded.
pub open spec fn all_succeeded(operations: Seq<OperationView>) -> bool {
    forall|i: int| 0 <= i < operations.len() ==> #[trigger] operations[i] is Success
}

/// A struct containing the details of a repair run by `Doctor`.
#[derive(Debug)]
pub struct Report {
    /// Start time in nanoseconds since epoch.
    pub start: u64,
    /// Finish time in nanoseconds since epoch.
    pub finish: u64,
    /// True if the report contained no errors and false otherwise.
    pub success: bool,
    /// A complete list of operations in the order in which they were performed.
    pub operations: Vec<Operation>,
}

/// What a `Report` says.
pub ghost struct ReportView {
    pub start: u64,
    pub finish: u64,
    pub success: bool,
    pub operations: Seq<OperationView>,
}

impl View for Report {
    type V = ReportView;

    open spec fn view(&self) -> ReportView {
        ReportView {
            start: self.start,
            finish: self.finish,
            success: self.success,
            operations: operations_view(self.operations@),
        }
    }
}

impl Report {
    /// Duration in nanoseconds that the repair took to run.
    pub fn duration(&self) -> (duration: u64)
        requires
            self.start <= self.finish,
        ensures
            duration == self.finish - self.start,
    {
        self.finish - self.start
    }
}

/// The report of a repair that is still running.
pub struct ReportBuilder {
    pub operations: Vec<Operation>,
    pub start: u64,
}

/// What a `ReportBuilder` holds.
pub ghost struct ReportBuilderView {
    pub operations: Seq<OperationView>,
    pub start: u64,
}

impl View for ReportBuilder {
    type V = ReportBuilderView;

    open spec fn view(&self) -> ReportBuilderView {
        ReportBuilderView { operations: operations_view(self.operations@), start: self.start }
    }
}

impl Default for ReportBuilder {
    /// A report without operations that starts now.
    fn default() -> (builder: ReportBuilder)
        ensures
            builder@.operations == Seq::<OperationView>::empty(),
    {
        ReportBuilder::starting_at(now())
    }
}

impl ReportBuilder {
    /// A report without operations that starts now.
    pub fn new() -> (builder: ReportBuilder)
        ensures
            builder@.operations == Seq::<OperationView>::empty(),
    {
        ReportBuilder::default()
    }

    /// A report without operations that starts at `start`.
    pub fn starting_at(start: u64) -> (builder: ReportBuilder)
        ensures
            builder@ == (ReportBuilderView { operations: Seq::empty(), start }),
            builder.operations@.len() == 0,
            builder.start == start,
    {
        let builder = ReportBuilder { operations: Vec::new(), start };
        assert(builder@.operations =~= Seq::empty());
        builder
    }

    /// Record a successful operation.
    pub fn success(&mut self, operation: OperationType) -> (builder: &mut ReportBuilder)
        ensures
            builder@ == (ReportBuilderView {
                operations: old(self)@.operations.push(OperationView::Success(operation@)),
                ..old(self)@
            }),
            builder.operations@ == old(self).operations@.push(Operation::Success(operation)),
            builder.start == old(self).start,
            *final(self) == *final(builder),
    {
        self.add(Operation::Success(operation));
        self
    }

    /// Record a failed operation.
    pub fn failure(&mut self, operation: OperationType, reason: Reason) -> (builder:
        &mut ReportBuilder)
        ensures
            builder@ == (ReportBuilderView {
                operations: old(self)@.operations.push(
                    OperationView::Failure(operation@, reason@),
                ),
                ..old(self)@
            }),
            builder.operations@ == old(self).operations@.push(
                Operation::Failure(operation, reason),
            ),
            builder.start == old(self).start,
            *final(self) == *final(builder),
    {
        self.add(Operation::Failure(operation, reason));
        self
    }

    /// Consumes the report builder and returns a completed report. Where the clock was set back
    /// in between, the repair ended when it started.
    pub fn generate(self) -> (report: Report)
        ensures
            report@ == (ReportView {
                start: self@.start,
                finish: report.finish,
                success: all_succeeded(self@.operations),
                operations: self@.operations,
            }),
            report.start <= report.finish,
            report.start == self.start,
            report.operations == self.operations,
            report.success <==> forall|i: int|
                0 <= i < self.operations@.len() ==> #[trigger] self.operations@[i] is Success,
    {
        let now: u64 = now();
        let finish: u64 = if now < self.start {
            self.start
        } else {
            now
        };
        self.finished_at(finish)
    }

    /// The completed report of a repair that ended at `finish`.
    pub fn finished_at(self, finish: u64) -> (report: Report)
        ensures
            report@ == (ReportView {
                start: self@.start,
                finish,
                success: all_succeeded(self@.operations),
                operations: self@.operations,
            }),
            report.start == self.start,
            report.finish == finish,
            report.operations == self.operations,
            report.success <==> forall|i: int|
                0 <= i < self.operations@.len() ==> #[trigger] self.operations@[i] is Success,
    {
        let mut success = true;
        for i in 0..self.operations.len()
            invariant
                success == all_succeeded(self@.operations.take(i as int)),
        {
            let ghost before = self@.operations.take(i as int);
            let ghost after = self@.operations.take(i + 1);
            assert(after =~= before.push(self@.operations[i as int]));
            assert(after.last() == self.operations@[i as int]@);
            assert(all_succeeded(after) == (all_succeeded(before) && after.last() is Success)) by {
                assert(forall|j: int| 0 <= j < before.len() ==> before[j] == after[j]);
            }
            if !Self::check_success(&self.operations[i]) {
                success = false;
            }
        }
        assert(self@.operations.take(self.operations@.len() as int) =~= self@.operations);
        proof {
            law_record_is_seen(self.operations@);
        }
        Report { start: self.start, finish, success, operations: self.operations }
    }

    /// Appends an operation.
    pub fn add(&mut self, operation: Operation)
        ensures
            final(self)@ == (ReportBuilderView {
                operations: old(self)@.operations.push(operation@),
                ..old(self)@
            }),
            final(self).operations@ == old(self).operations@.push(operation),
            final(self).start == old(self).start,
    {
        self.operations.push(operation);
        assert(self@.operations =~= old(self)@.operations.push(operation@));
    }

    /// Whether an operation succeeded.
    pub fn check_success(op: &Operation) -> (success: bool)
        ensures
            success == (op@ is Success),
            success == (op is Success),
    {
        match op {
            Operation::Success(_) => true,
            Operation::Failure(_, _) => false,
        }
    }
}

/// Everything succeeded exactly where nothing failed, and one more operation leaves it so exactly
/// where it is no failure.
pub proof fn law_success_is_no_failure(operations: Seq<OperationView>, op: OperationView)
    ensures
        all_succeeded(operations) <==> !(exists|i: int|
            0 <= i < operations.len() && #[trigger] operations[i] is Failure),
        all_succeeded(Seq::empty()),
        all_succeeded(operations.push(op)) <==> all_succeeded(operations) && !(op is Failure),
{
    if all_succeeded(operations.push(op)) {
        assert forall|i: int| 0 <= i < operations.len() implies #[trigger] operations[i]
            is Success by {
            assert(operations.push(op)[i] is Success);
        }
        assert(operations.push(op)[operations.len() as int] is Success);
    }
}

/// A record is seen operation by operation, in order: which one, of what, and how it ended.
pub proof fn law_record_is_seen(operations: Seq<Operation>)
    ensures
        operations_view(operations).len() == operations.len(),
        forall|i: int|
            0 <= i < operations.len() ==> match #[trigger] operations[i] {
                Operation::Success(op) => operations_view(operations)[i] == OperationView::Success(
                    op@,
                ),
                Operation::Failure(op, reason) => operations_view(operations)[i]
                    == OperationView::Failure(op@, reason@),
            },
        all_succeeded(operations_view(operations)) <==> forall|i: int|
            0 <= i < operations.len() ==> #[trigger] operations[i] is Success,
{
    if all_succeeded(operations_view(operations)) {
        assert forall|i: int| 0 <= i < operations.len() implies #[trigger] operations[i]
            is Success by {
            assert(operations_view(operations)[i] is Success);
        }
    }
}

/// An operation, a reason, a report and its builder are seen as they are.
pub proof fn law_report_is_seen(
    op: OperationType,
    reason: Reason,
    report: Report,
    builder: ReportBuilder,
)
    ensures
        match op {
            OperationType::ArchiveInsert(path) => op@ == OperationTypeView::ArchiveInsert(path@),
            OperationType::CleanupTrash(path) => op@ == OperationTypeView::CleanupTrash(path@),
            OperationType::InitDepotFs(path) => op@ == OperationTypeView::InitDepotFs(path@),
            OperationType::TruncateDataStore(n) => op@ == OperationTypeView::TruncateDataStore(n),
        },
        match reason {
            Reason::BadArchive => reason@ == ReasonView::BadArchive,
            Reason::BadMetadata(words) => reason@ == ReasonView::BadMetadata(words@),
            Reason::BadPermissions => reason@ == ReasonView::BadPermissions,
            Reason::IO(words) => reason@ == ReasonView::IO(words@),
            Reason::FileExists => reason@ == ReasonView::FileExists,
            Reason::NotEmpty => reason@ == ReasonView::NotEmpty,
        },
        report@.start == report.start,
        report@.finish == report.finish,
        report@.success == report.success,
        report@.operations == operations_view(report.operations@),
        builder@.start == builder.start,
        builder@.operations == operations_view(builder.operations@),
{
}

/// A time is a thousand million nanoseconds for each second and the nanoseconds beyond, as far as
/// that is not before the epoch and fits.
pub proof fn law_nanoseconds(sec: int, nsec: int)
    ensures
        0 <= sec * 1_000_000_000 + nsec <= 0xffff_ffff_ffff_ffff ==> nanoseconds_after(sec, nsec)
            == sec * 1_000_000_000 + nsec,
        sec * 1_000_000_000 + nsec < 0 ==> nanoseconds_after(sec, nsec) == 0,
        sec * 1_000_000_000 + nsec > 0xffff_ffff_ffff_ffff ==> nanoseconds_after(sec, nsec)
            == 0xffff_ffff_ffff_ffff,
{
}

} // verus!
