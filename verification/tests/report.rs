use habitat_builder::report::{
    nanoseconds, Operation, OperationType, Reason, Report, ReportBuilder,
};

#[test]
fn a_report_holds_what_was_recorded_in_order() {
    let mut builder = ReportBuilder::starting_at(10);
    builder
        .success(OperationType::ArchiveInsert("a".to_string()))
        .failure(OperationType::CleanupTrash("b".to_string()), Reason::NotEmpty);
    builder.add(Operation::Success(OperationType::TruncateDataStore(3)));
    let report = builder.finished_at(25);
    assert_eq!(report.start, 10);
    assert_eq!(report.finish, 25);
    assert_eq!(report.duration(), 15);
    assert!(!report.success);
    assert_eq!(report.operations.len(), 3);
    assert!(matches!(&report.operations[0],
        Operation::Success(OperationType::ArchiveInsert(path)) if path == "a"));
    assert!(matches!(&report.operations[1],
        Operation::Failure(OperationType::CleanupTrash(path), Reason::NotEmpty) if path == "b"));
    assert!(matches!(&report.operations[2], Operation::Success(OperationType::TruncateDataStore(3))));
}

#[test]
fn a_report_without_failures_is_a_success() {
    assert!(ReportBuilder::starting_at(1).finished_at(1).success);
    let mut builder = ReportBuilder::new();
    builder.success(OperationType::InitDepotFs("p".to_string()));
    let report = builder.generate();
    assert!(report.success);
    assert_eq!(report.operations.len(), 1);
}

#[test]
fn operations_tell_whether_they_succeeded() {
    let good = Operation::Success(OperationType::TruncateDataStore(0));
    let bad = Operation::Failure(OperationType::TruncateDataStore(0), Reason::BadArchive);
    assert!(ReportBuilder::check_success(&good));
    assert!(!ReportBuilder::check_success(&bad));
}

#[test]
fn a_duration_is_the_time_between() {
    let report = Report { start: 3, finish: 3, success: true, operations: vec![] };
    assert_eq!(report.duration(), 0);
}

#[test]
fn times_are_nanoseconds_since_the_epoch() {
    assert_eq!(nanoseconds(0, 0), 0);
    assert_eq!(nanoseconds(1, 200_000_000), 1_200_000_000);
    assert_eq!(nanoseconds(1_500_000_000, 7), 1_500_000_000_000_000_007);
    assert_eq!(nanoseconds(-2, 800_000_000), 0);
    assert_eq!(nanoseconds(18_446_744_073, 709_551_615), u64::MAX);
    assert_eq!(nanoseconds(18_446_744_073, 709_551_616), u64::MAX);
    assert_eq!(nanoseconds(i64::MAX, 999_999_999), u64::MAX);
}

#[test]
fn a_report_starts_and_ends_on_the_epochs_clock() {
    let before = time::get_time();
    let report = ReportBuilder::new().generate();
    let after = time::get_time();
    let second: u64 = 1_000_000_000;
    assert!(report.start >= before.sec as u64 * second);
    assert!(report.start <= report.finish);
    assert!(report.finish < (after.sec as u64 + 1) * second);
}

#[test]
fn a_report_never_ends_before_it_starts() {
    let report = ReportBuilder::starting_at(u64::MAX).generate();
    assert_eq!(report.start, u64::MAX);
    assert_eq!(report.finish, u64::MAX);
    assert_eq!(report.duration(), 0);
    let report = ReportBuilder::new().generate();
    assert_eq!(report.duration(), report.finish - report.start);
}
