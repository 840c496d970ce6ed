use habitat_builder::doctor::{
    repair, DepotUtil, Doctor, RepairAction, RepairError, RepairEvent,
};
use habitat_builder::net::{ErrCode, NetError};
use habitat_builder::path::DepotPath;
use habitat_builder::report::{Operation, OperationType, Reason, Report, ReportBuilder};

fn path(absolute: bool, parts: &[&str]) -> DepotPath {
    DepotPath { absolute, parts: parts.iter().map(|part| part.to_string()).collect() }
}

fn depot() -> DepotUtil {
    DepotUtil {
        path: "/srv/depot".to_string(),
        packages_path: path(true, &["srv", "depot", "pkgs"]),
    }
}

fn doctor() -> Doctor {
    Doctor::reporting(depot(), ReportBuilder::starting_at(1507))
}

/// A repair that is about to walk what was set aside.
fn walking() -> Doctor {
    let mut doctor = doctor();
    doctor.run(RepairEvent::Begin);
    doctor.run(RepairEvent::Stat { is_file: false, readonly: false });
    doctor.run(RepairEvent::Done);
    doctor.run(RepairEvent::Done);
    doctor.run(RepairEvent::Done);
    doctor
}

fn entry(id: u64, path: &str, is_dir: bool) -> RepairEvent {
    RepairEvent::Entry { id, path: path.to_string(), is_dir }
}

fn report(action: RepairAction) -> Report {
    match action {
        RepairAction::Finish(Ok(report)) => report,
        other => panic!("{:?}", other),
    }
}

fn initialized(op: &Operation) {
    match op {
        Operation::Success(OperationType::InitDepotFs(path)) => assert_eq!(path, "/srv/depot"),
        other => panic!("{:?}", other),
    }
}

fn inserted(op: &Operation, target: &str) {
    match op {
        Operation::Success(OperationType::ArchiveInsert(path)) => assert_eq!(path, target),
        other => panic!("{:?}", other),
    }
}

fn cleaned_up(op: &Operation) {
    match op {
        Operation::Success(OperationType::CleanupTrash(path)) => {
            assert_eq!(path, "/srv/depot/pkgs.1507")
        }
        other => panic!("{:?}", other),
    }
}

#[test]
fn paths_are_taken_apart_and_written() {
    let mut p = path(true, &["srv", "depot", "pkgs"]);
    assert_eq!(p.text(), "/srv/depot/pkgs");
    p.pop();
    assert_eq!(p.text(), "/srv/depot");
    p.push("x".to_string());
    assert_eq!(p.copy().text(), "/srv/depot/x");
    let mut p = path(false, &["pkgs"]);
    assert_eq!(p.text(), "pkgs");
    p.pop();
    p.pop();
    assert_eq!(p.text(), "");
    assert_eq!(path(true, &[]).text(), "/");
}

#[test]
fn the_file_system_is_prepared_in_order() {
    let mut doctor = doctor();
    match doctor.run(RepairEvent::Begin) {
        RepairAction::Stat(path) => assert_eq!(path, "/srv/depot"),
        other => panic!("{:?}", other),
    }
    match doctor.run(RepairEvent::Failed("not there".to_string())) {
        RepairAction::CreateDirAll(path) => assert_eq!(path.text(), "/srv/depot/pkgs"),
        other => panic!("{:?}", other),
    }
    match doctor.run(RepairEvent::Done) {
        RepairAction::Rename(from, to) => {
            assert_eq!(from.text(), "/srv/depot/pkgs");
            assert_eq!(to.text(), "/srv/depot/pkgs.1507");
        }
        other => panic!("{:?}", other),
    }
    match doctor.run(RepairEvent::Done) {
        RepairAction::CreateDirAll(path) => assert_eq!(path.text(), "/srv/depot/pkgs"),
        other => panic!("{:?}", other),
    }
    match doctor.run(RepairEvent::Done) {
        RepairAction::Walk(path) => assert_eq!(path.text(), "/srv/depot/pkgs.1507"),
        other => panic!("{:?}", other),
    }
    let report = report(doctor.run(RepairEvent::WalkEnd));
    assert!(report.success);
    assert_eq!(report.operations.len(), 1);
    initialized(&report.operations[0]);
    assert_eq!(report.start, 1507);
}

#[test]
fn what_is_in_the_way_at_the_depots_path_is_recorded() {
    let mut doctor = doctor();
    doctor.run(RepairEvent::Begin);
    doctor.run(RepairEvent::Stat { is_file: true, readonly: true });
    doctor.run(RepairEvent::Done);
    doctor.run(RepairEvent::Done);
    doctor.run(RepairEvent::Done);
    let report = report(doctor.run(RepairEvent::WalkEnd));
    assert!(!report.success);
    assert_eq!(report.operations.len(), 2);
    match &report.operations[0] {
        Operation::Failure(OperationType::InitDepotFs(path), Reason::FileExists) => {
            assert_eq!(path, "/srv/depot")
        }
        other => panic!("{:?}", other),
    }
    match &report.operations[1] {
        Operation::Failure(OperationType::InitDepotFs(path), Reason::BadPermissions) => {
            assert_eq!(path, "/srv/depot")
        }
        other => panic!("{:?}", other),
    }
}

#[test]
fn a_refusal_while_preparing_ends_the_repair() {
    for done in 0..3 {
        let mut doctor = doctor();
        doctor.run(RepairEvent::Begin);
        doctor.run(RepairEvent::Stat { is_file: false, readonly: false });
        for _ in 0..done {
            doctor.run(RepairEvent::Done);
        }
        match doctor.run(RepairEvent::Failed("full".to_string())) {
            RepairAction::Finish(Err(RepairError::IO(e))) => assert_eq!(e, "full"),
            other => panic!("{:?}", other),
        }
    }
}

#[test]
fn an_archive_is_reinserted() {
    let mut doctor = walking();
    let action = doctor.run(entry(0, "/srv/depot/pkgs.1507", true));
    assert!(matches!(action, RepairAction::NextEntry));
    let action = doctor.run(entry(1, "/srv/depot/pkgs.1507/a.hart", false));
    assert!(matches!(action, RepairAction::ReadIdent(1)));
    assert!(matches!(doctor.run(RepairEvent::Done), RepairAction::ReadPackage(1)));
    assert!(matches!(doctor.run(RepairEvent::Done), RepairAction::Store(1)));
    assert!(matches!(doctor.run(RepairEvent::Done), RepairAction::Locate(1)));
    match doctor.run(RepairEvent::Located("/srv/depot/pkgs/a/1/a.hart".to_string())) {
        RepairAction::CreateParent(path) => assert_eq!(path, "/srv/depot/pkgs/a/1/a.hart"),
        other => panic!("{:?}", other),
    }
    match doctor.run(RepairEvent::Done) {
        RepairAction::Move(id, path) => {
            assert_eq!(id, 1);
            assert_eq!(path, "/srv/depot/pkgs/a/1/a.hart");
        }
        other => panic!("{:?}", other),
    }
    assert!(matches!(doctor.run(RepairEvent::Done), RepairAction::NextEntry));
    assert!(matches!(doctor.run(RepairEvent::WalkEnd), RepairAction::RemoveDir(0)));
    let report = report(doctor.run(RepairEvent::Done));
    assert!(report.success);
    assert_eq!(report.operations.len(), 3);
    initialized(&report.operations[0]);
    inserted(&report.operations[1], "/srv/depot/pkgs/a/1/a.hart");
    cleaned_up(&report.operations[2]);
}

#[test]
fn what_cannot_be_read_stays_and_is_recorded() {
    let mut doctor = walking();
    doctor.run(entry(1, "x", false));
    let action = doctor.run(RepairEvent::Failed("no archive".to_string()));
    assert!(matches!(action, RepairAction::NextEntry));
    doctor.run(entry(2, "y", false));
    doctor.run(RepairEvent::Done);
    let action = doctor.run(RepairEvent::Failed("no metadata".to_string()));
    assert!(matches!(action, RepairAction::NextEntry));
    let report = report(doctor.run(RepairEvent::WalkEnd));
    assert!(!report.success);
    assert_eq!(report.operations.len(), 3);
    initialized(&report.operations[0]);
    match &report.operations[1] {
        Operation::Failure(OperationType::ArchiveInsert(path), Reason::BadArchive) => {
            assert_eq!(path, "x")
        }
        other => panic!("{:?}", other),
    }
    match &report.operations[2] {
        Operation::Failure(OperationType::ArchiveInsert(path), Reason::BadMetadata(e)) => {
            assert_eq!(path, "y");
            assert_eq!(e, "no metadata");
        }
        other => panic!("{:?}", other),
    }
}

#[test]
fn a_refusal_of_the_store_ends_the_repair() {
    let mut doctor = walking();
    doctor.run(entry(1, "x", false));
    doctor.run(RepairEvent::Done);
    doctor.run(RepairEvent::Done);
    let refusal = NetError { code: ErrCode::Other(5), msg: "no".to_string() };
    match doctor.run(RepairEvent::Refused(refusal)) {
        RepairAction::Finish(Err(RepairError::NetError(e))) => {
            assert_eq!(e.code, ErrCode::Other(5));
            assert_eq!(e.msg, "no");
        }
        other => panic!("{:?}", other),
    }
}

#[test]
fn a_target_that_cannot_be_read_ends_the_repair() {
    let mut doctor = walking();
    doctor.run(entry(1, "x", false));
    doctor.run(RepairEvent::Done);
    doctor.run(RepairEvent::Done);
    doctor.run(RepairEvent::Done);
    match doctor.run(RepairEvent::Failed("no target".to_string())) {
        RepairAction::Finish(Err(RepairError::HabitatCore(e))) => assert_eq!(e, "no target"),
        other => panic!("{:?}", other),
    }
}

#[test]
fn an_archive_that_cannot_be_moved_is_passed_over() {
    for moved in [false, true] {
        let mut doctor = walking();
        doctor.run(entry(0, "d", true));
        doctor.run(entry(1, "x", false));
        doctor.run(RepairEvent::Done);
        doctor.run(RepairEvent::Done);
        doctor.run(RepairEvent::Done);
        doctor.run(RepairEvent::Located("t".to_string()));
        if moved {
            doctor.run(RepairEvent::Done);
        }
        let action = doctor.run(RepairEvent::Failed("full".to_string()));
        assert!(matches!(action, RepairAction::NextEntry));
        let action = doctor.run(entry(2, "y", false));
        assert!(matches!(action, RepairAction::ReadIdent(2)));
        doctor.run(RepairEvent::Done);
        doctor.run(RepairEvent::Done);
        doctor.run(RepairEvent::Done);
        doctor.run(RepairEvent::Located("u".to_string()));
        doctor.run(RepairEvent::Done);
        assert!(matches!(doctor.run(RepairEvent::Done), RepairAction::NextEntry));
        assert!(matches!(doctor.run(RepairEvent::WalkEnd), RepairAction::RemoveDir(0)));
        let report = report(doctor.run(RepairEvent::Failed("not empty".to_string())));
        assert!(!report.success);
        assert_eq!(report.operations.len(), 4);
        initialized(&report.operations[0]);
        match &report.operations[1] {
            Operation::Failure(OperationType::ArchiveInsert(path), Reason::IO(e)) => {
                assert_eq!(path, "x");
                assert_eq!(e, "full");
            }
            other => panic!("{:?}", other),
        }
        inserted(&report.operations[2], "u");
        match &report.operations[3] {
            Operation::Failure(OperationType::CleanupTrash(path), Reason::NotEmpty) => {
                assert_eq!(path, "/srv/depot/pkgs.1507")
            }
            other => panic!("{:?}", other),
        }
    }
}

#[test]
fn directories_are_removed_from_the_last_to_the_first() {
    let mut doctor = walking();
    for id in [10, 11, 12] {
        doctor.run(entry(id, "d", true));
    }
    assert!(matches!(doctor.run(RepairEvent::WalkEnd), RepairAction::RemoveDir(12)));
    assert!(matches!(doctor.run(RepairEvent::Done), RepairAction::RemoveDir(11)));
    let action = doctor.run(RepairEvent::Failed("not empty".to_string()));
    assert!(matches!(action, RepairAction::RemoveDir(10)));
    let report = report(doctor.run(RepairEvent::Failed("not empty".to_string())));
    assert!(!report.success);
    assert_eq!(report.operations.len(), 3);
    initialized(&report.operations[0]);
    for op in &report.operations[1..] {
        match op {
            Operation::Failure(OperationType::CleanupTrash(path), Reason::NotEmpty) => {
                assert_eq!(path, "/srv/depot/pkgs.1507")
            }
            other => panic!("{:?}", other),
        }
    }
}

#[test]
fn removing_every_directory_is_recorded_once() {
    let mut doctor = walking();
    for id in [10, 11] {
        doctor.run(entry(id, "d", true));
    }
    assert!(matches!(doctor.run(RepairEvent::WalkEnd), RepairAction::RemoveDir(11)));
    assert!(matches!(doctor.run(RepairEvent::Done), RepairAction::RemoveDir(10)));
    let report = report(doctor.run(RepairEvent::Done));
    assert!(report.success);
    assert_eq!(report.operations.len(), 2);
    initialized(&report.operations[0]);
    cleaned_up(&report.operations[1]);
}

#[test]
fn a_repair_begins_by_looking_at_the_depots_path() {
    let (mut doctor, action) = repair(depot());
    match action {
        RepairAction::Stat(path) => assert_eq!(path, "/srv/depot"),
        other => panic!("{:?}", other),
    }
    doctor.run(RepairEvent::Stat { is_file: false, readonly: false });
    let start = match doctor.run(RepairEvent::Done) {
        RepairAction::Rename(_, to) => {
            let text = to.text();
            text["/srv/depot/pkgs.".len()..].parse::<u64>().unwrap()
        }
        other => panic!("{:?}", other),
    };
    doctor.run(RepairEvent::Done);
    doctor.run(RepairEvent::Done);
    let report = report(doctor.run(RepairEvent::WalkEnd));
    assert_eq!(report.start, start);
    assert!(report.finish > 0);
}

#[test]
fn repairs_of_different_times_set_packages_aside_apart() {
    let aside = |start: u64| {
        let mut doctor = Doctor::reporting(depot(), ReportBuilder::starting_at(start));
        doctor.run(RepairEvent::Begin);
        doctor.run(RepairEvent::Stat { is_file: false, readonly: false });
        match doctor.run(RepairEvent::Done) {
            RepairAction::Rename(_, to) => to.text(),
            other => panic!("{:?}", other),
        }
    };
    assert_eq!(aside(0), "/srv/depot/pkgs.0");
    assert_eq!(aside(12), "/srv/depot/pkgs.12");
    assert_ne!(aside(1), aside(10));
}
