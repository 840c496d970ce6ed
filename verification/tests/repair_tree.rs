use std::collections::BTreeMap;

use habitat_builder::doctor::{DepotUtil, Doctor, RepairAction, RepairError, RepairEvent};
use habitat_builder::path::DepotPath;
use habitat_builder::report::{Operation, OperationType, Reason, Report, ReportBuilder};

/// Directories, and files with what they hold, by their paths.
type Nodes = BTreeMap<String, Option<String>>;

struct FileSystem {
    nodes: Nodes,
    /// Paths that nothing can be moved to.
    refused: Vec<String>,
    /// What was stored by the last repair, and how often it was told something.
    stored: Vec<u64>,
    steps: usize,
}

fn lies_below(path: &str, base: &str) -> bool {
    path == base || path.starts_with(&format!("{}/", base))
}

fn parent(path: &str) -> String {
    path[..path.rfind('/').unwrap()].to_string()
}

impl FileSystem {
    fn new(entries: &[(&str, Option<&str>)]) -> FileSystem {
        let mut nodes = Nodes::new();
        for (path, content) in entries {
            nodes.insert(path.to_string(), content.map(|text| text.to_string()));
        }
        FileSystem { nodes, refused: Vec::new(), stored: Vec::new(), steps: 0 }
    }

    fn make(&mut self, path: &str) -> RepairEvent {
        let mut made = String::new();
        for name in path.split('/').skip(1) {
            made = format!("{}/{}", made, name);
            match self.nodes.get(&made) {
                Some(Some(_)) => return RepairEvent::Failed("not a directory".to_string()),
                Some(None) => {}
                None => {
                    self.nodes.insert(made.clone(), None);
                }
            }
        }
        RepairEvent::Done
    }

    fn rename(&mut self, from: &str, to: &str) -> RepairEvent {
        if self.refused.iter().any(|path| path == to) || self.nodes.get(to) == Some(&None) {
            return RepairEvent::Failed("refused".to_string());
        }
        let mut nodes = Nodes::new();
        for (path, content) in &self.nodes {
            if lies_below(path, from) {
                nodes.insert(format!("{}{}", to, &path[from.len()..]), content.clone());
            } else if path != to {
                nodes.insert(path.clone(), content.clone());
            }
        }
        self.nodes = nodes;
        RepairEvent::Done
    }

    fn remove(&mut self, path: &str) -> RepairEvent {
        if self.nodes.keys().any(|other| other != path && lies_below(other, path)) {
            return RepairEvent::Failed("not empty".to_string());
        }
        self.nodes.remove(path);
        RepairEvent::Done
    }

    /// The files below the packages directory.
    fn files(&self) -> Nodes {
        let below = |path: &String| lies_below(path, "/srv/pkgs");
        self.nodes
            .iter()
            .filter(|(path, content)| below(path) && content.is_some())
            .map(|(path, content)| (path.clone(), content.clone()))
            .collect()
    }

    fn repair(&mut self, start: u64) -> Result<Report, RepairError> {
        let parts = vec!["srv".to_string(), "pkgs".to_string()];
        let packages_path = DepotPath { absolute: true, parts };
        let depot = DepotUtil { path: "/srv".to_string(), packages_path };
        let mut doctor = Doctor::reporting(depot, ReportBuilder::starting_at(start));
        let mut entries: Vec<String> = Vec::new();
        let mut next = 0;
        let mut action = doctor.run(RepairEvent::Begin);
        self.stored.clear();
        self.steps = 0;
        loop {
            if let RepairAction::Walk(path) = &action {
                let base = path.text();
                entries = self.nodes.keys().filter(|p| lies_below(p, &base)).cloned().collect();
            }
            let event = match action {
                RepairAction::Stat(_) => RepairEvent::Stat { is_file: false, readonly: false },
                RepairAction::CreateDirAll(path) => self.make(&path.text()),
                RepairAction::Rename(from, to) => self.rename(&from.text(), &to.text()),
                RepairAction::Walk(_) | RepairAction::NextEntry => {
                    if next < entries.len() {
                        next += 1;
                        let path = entries[next - 1].clone();
                        let is_dir = self.nodes[&path].is_none();
                        RepairEvent::Entry { id: (next - 1) as u64, path, is_dir }
                    } else {
                        RepairEvent::WalkEnd
                    }
                }
                RepairAction::ReadIdent(id) => match &self.nodes[&entries[id as usize]] {
                    Some(content) if content.starts_with("archive ") => RepairEvent::Done,
                    _ => RepairEvent::Failed("no archive".to_string()),
                },
                RepairAction::ReadPackage(_) => RepairEvent::Done,
                RepairAction::Store(id) => {
                    self.stored.push(id);
                    RepairEvent::Done
                }
                RepairAction::Locate(id) => {
                    let content = self.nodes[&entries[id as usize]].clone().unwrap();
                    let name = content["archive ".len()..].to_string();
                    RepairEvent::Located(format!("/srv/pkgs/{}/{}.hart", name, name))
                }
                RepairAction::CreateParent(target) => self.make(&parent(&target)),
                RepairAction::Move(id, target) => {
                    let from = entries[id as usize].clone();
                    self.rename(&from, &target)
                }
                RepairAction::RemoveDir(id) => {
                    let path = entries[id as usize].clone();
                    self.remove(&path)
                }
                RepairAction::Finish(result) => return result,
            };
            self.steps += 1;
            action = doctor.run(event);
        }
    }
}

fn inserted(operations: &[Operation]) -> Vec<String> {
    let mut paths = Vec::new();
    for op in operations {
        if let Operation::Success(OperationType::ArchiveInsert(path)) = op {
            paths.push(path.clone());
        }
    }
    paths
}

#[test]
fn a_repair_puts_every_archive_in_its_place() {
    let mut system = FileSystem::new(&[
        ("/srv", None),
        ("/srv/else", Some("kept")),
        ("/srv/pkgs", None),
        ("/srv/pkgs/old", None),
        ("/srv/pkgs/old/empty", None),
        ("/srv/pkgs/old/x", Some("archive a")),
        ("/srv/pkgs/y", Some("archive b")),
    ]);
    let report = system.repair(7).unwrap();
    assert!(report.success);
    let mut expected = Nodes::new();
    expected.insert("/srv/pkgs/a/a.hart".to_string(), Some("archive a".to_string()));
    expected.insert("/srv/pkgs/b/b.hart".to_string(), Some("archive b".to_string()));
    assert_eq!(system.files(), expected);
    assert_eq!(system.nodes["/srv/else"], Some("kept".to_string()));
    assert!(!system.nodes.keys().any(|path| lies_below(path, "/srv/pkgs.7")));
}

#[test]
fn a_second_repair_leaves_all_as_it_was() {
    let mut system = FileSystem::new(&[
        ("/srv", None),
        ("/srv/pkgs", None),
        ("/srv/pkgs/x", Some("archive a")),
        ("/srv/pkgs/y", Some("archive b")),
        ("/srv/pkgs/z", Some("archive c")),
    ]);
    assert!(system.repair(7).unwrap().success);
    let before = system.nodes.clone();
    let report = system.repair(8).unwrap();
    assert!(report.success);
    assert_eq!(system.nodes, before);
    assert_eq!(report.operations.len(), 5);
    assert!(matches!(&report.operations[0],
        Operation::Success(OperationType::InitDepotFs(path)) if path == "/srv"));
    assert_eq!(
        inserted(&report.operations),
        vec!["/srv/pkgs/a/a.hart", "/srv/pkgs/b/b.hart", "/srv/pkgs/c/c.hart"]
    );
    assert!(matches!(&report.operations[4],
        Operation::Success(OperationType::CleanupTrash(path)) if path == "/srv/pkgs.8"));
    assert!(!system.nodes.keys().any(|path| lies_below(path, "/srv/pkgs.8")));
}

#[test]
fn every_file_is_accounted_for() {
    let mut system = FileSystem::new(&[
        ("/srv", None),
        ("/srv/pkgs", None),
        ("/srv/pkgs/bad", Some("junk")),
        ("/srv/pkgs/u", Some("archive a")),
        ("/srv/pkgs/v", Some("archive b")),
        ("/srv/pkgs/w", Some("archive c")),
    ]);
    system.refused.push("/srv/pkgs/b/b.hart".to_string());
    let report = system.repair(7).unwrap();
    assert!(!report.success);
    let files = system.files();
    assert_eq!(files.len(), 2);
    assert_eq!(files["/srv/pkgs/a/a.hart"], Some("archive a".to_string()));
    assert_eq!(files["/srv/pkgs/c/c.hart"], Some("archive c".to_string()));
    assert_eq!(system.nodes["/srv/pkgs.7/bad"], Some("junk".to_string()));
    assert_eq!(system.nodes["/srv/pkgs.7/v"], Some("archive b".to_string()));
    assert_eq!(inserted(&report.operations), vec!["/srv/pkgs/a/a.hart", "/srv/pkgs/c/c.hart"]);
    assert!(matches!(&report.operations[1],
        Operation::Failure(OperationType::ArchiveInsert(path), Reason::BadArchive)
            if path == "/srv/pkgs.7/bad"));
    assert!(matches!(&report.operations[3],
        Operation::Failure(OperationType::ArchiveInsert(path), Reason::IO(_))
            if path == "/srv/pkgs.7/v"));
}

#[test]
fn a_repair_stores_nothing_twice_and_ends() {
    let mut system = FileSystem::new(&[
        ("/srv", None),
        ("/srv/pkgs", None),
        ("/srv/pkgs/bad", Some("junk")),
        ("/srv/pkgs/u", Some("archive a")),
        ("/srv/pkgs/v", Some("archive a")),
    ]);
    assert!(!system.repair(7).unwrap().success);
    assert_eq!(system.stored, vec![2, 3]);
    assert_eq!(system.steps, 4 + 4 + 1 + 2 * 6 + 1 + 1);
    assert!(system.steps <= 9 * 4 + 6);
    assert_eq!(system.files().len(), 1);
}

#[test]
fn a_repair_reports_unless_packages_cannot_be_made() {
    let mut system = FileSystem::new(&[("/srv", None), ("/srv/pkgs", Some("in the way"))]);
    match system.repair(7) {
        Err(RepairError::IO(e)) => assert_eq!(e, "not a directory"),
        other => panic!("{:?}", other),
    }
    let mut system = FileSystem::new(&[]);
    let report = system.repair(7).unwrap();
    assert!(report.success);
    assert_eq!(system.nodes, FileSystem::new(&[("/srv", None), ("/srv/pkgs", None)]).nodes);
}
