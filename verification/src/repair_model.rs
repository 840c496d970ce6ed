//! A repair together with the file system that it works on.
use vstd::prelude::*;

use crate::depot_tree::{at, below, Tree};
use crate::doctor::{set_aside, DepotView, DoctorView, RepairActionView, RepairEventView};
use crate::path::PathView;
use crate::report::{OperationTypeView, OperationView, ReportBuilderView};

verus! {

/// What a repair meets.
pub ghost struct Setting {
    pub depot: DepotView,
    /// When the repair starts and when it ends.
    pub start: u64,
    pub finish: u64,
    /// What there is before the repair.
    pub tree: Tree,
    /// What a look at the depot's path says.
    pub found: RepairEventView,
    /// The entries of a walk through the packages, as paths below them.
    pub walk: Seq<Seq<Seq<char>>>,
    /// Where a file that holds this belongs; nowhere, if it is no archive.
    pub place: spec_fn(Seq<u8>) -> Option<PathView>,
}

impl Setting {
    /// Where the packages are.
    pub open spec fn packages(self) -> PathView {
        self.depot.packages_path
    }

    /// Where they are set aside.
    pub open spec fn aside(self) -> PathView {
        set_aside(self.packages(), self.start)
    }

    /// What there is once the packages directory is made sure of.
    pub open spec fn full(self) -> Tree {
        self.tree.made(self.packages())
    }

    /// Whether the walk lists what is there below the packages directory: all of it, nothing
    /// twice, and every directory before what it holds.
    pub open spec fn lists(self) -> bool {
        &&& self.walk.no_duplicates()
        &&& forall|rel: Seq<Seq<char>>| #[trigger]
            self.walk.contains(rel) <==> self.full().has(at(self.packages(), rel))
        &&& forall|i: int, j: int|
            0 <= i < self.walk.len() && 0 <= j < self.walk.len() && i != j && (
            #[trigger] self.walk[i]).is_prefix_of(#[trigger] self.walk[j]) ==> i < j
        &&& self.walk.len() <= usize::MAX
    }

    /// Whether archives belong below the packages directory.
    pub open spec fn places(self) -> bool {
        forall|content: Seq<u8>|
            (#[trigger] (self.place)(content)) matches Some(p) ==> below(p, self.packages()) && p
                != self.packages()
    }

    /// Whether this is something that a repair can meet: packages lie in a directory, and nothing
    /// is where they are set aside.
    pub open spec fn sound(self) -> bool {
        &&& self.tree.rooted()
        &&& self.tree.free(self.aside())
        &&& self.packages().parts.len() > 0
        &&& self.packages() != self.aside()
        &&& self.found is Stat || self.found is Failed
        &&& self.lists()
        &&& self.places()
    }

    /// Whether nothing is in the way at the depot's path.
    pub open spec fn unblocked(self) -> bool {
        self.found matches RepairEventView::Stat { is_file, readonly } ==> !is_file && !readonly
    }

    /// Whether every file of the packages is an archive and where it belongs.
    pub open spec fn settled(self) -> bool {
        &&& self.tree.is_dir(self.packages())
        &&& forall|p: PathView| #[trigger]
            self.tree.is_file(p) && below(p, self.packages()) ==> (self.place)(
                self.tree.content(p),
            ) == Some(p)
    }

    /// Where an entry of the walk is met.
    pub open spec fn entry(self, id: int) -> PathView {
        at(self.aside(), self.walk[id])
    }

    /// Whether an entry of the walk is a file.
    pub open spec fn archive(self) -> spec_fn(Seq<Seq<char>>) -> bool {
        |rel: Seq<Seq<char>>| self.full().is_file(at(self.packages(), rel))
    }

    /// The record that a file of the packages is in its place.
    pub open spec fn insertion(self) -> spec_fn(Seq<Seq<char>>) -> OperationView {
        |rel: Seq<Seq<char>>|
            OperationView::Success(
                OperationTypeView::ArchiveInsert(at(self.packages(), rel).text()),
            )
    }
}

/// The world around a repair.
pub ghost struct World {
    pub tree: Tree,
    /// How many entries of the walk were handed out.
    pub next: nat,
    /// Where the archive at hand belongs.
    pub target: PathView,
}

/// What is done about an action, and what the repair is told.
pub open spec fn answer(setting: Setting, world: World, action: RepairActionView) -> (
    World,
    RepairEventView,
) {
    let tree = world.tree;
    let failed = (world, RepairEventView::Failed(Seq::empty()));
    match action {
        RepairActionView::Stat(_) => (world, setting.found),
        RepairActionView::CreateDirAll(path) => if tree.makeable(path) {
            (World { tree: tree.made(path), ..world }, RepairEventView::Done)
        } else {
            failed
        },
        RepairActionView::Rename(from, to) => if tree.renamable(from, to) {
            (World { tree: tree.renamed(from, to), ..world }, RepairEventView::Done)
        } else {
            failed
        },
        RepairActionView::Walk(_) | RepairActionView::NextEntry => if world.next
            < setting.walk.len() {
            let path = setting.entry(world.next as int);
            (
                World { next: world.next + 1, ..world },
                RepairEventView::Entry {
                    id: world.next as u64,
                    path: path.text(),
                    is_dir: tree.is_dir(path),
                },
            )
        } else {
            (world, RepairEventView::WalkEnd)
        },
        RepairActionView::ReadIdent(id) => if (setting.place)(
            tree.content(setting.entry(id as int)),
        ) is Some {
            (world, RepairEventView::Done)
        } else {
            failed
        },
        RepairActionView::ReadPackage(_) => (world, RepairEventView::Done),
        RepairActionView::Store(_) => (world, RepairEventView::Done),
        RepairActionView::Locate(id) => match (setting.place)(
            tree.content(setting.entry(id as int)),
        ) {
            Some(target) => (
                World { target, ..world },
                RepairEventView::Located(target.text()),
            ),
            None => failed,
        },
        RepairActionView::CreateParent(_) => if tree.makeable(world.target.parent()) {
            (World { tree: tree.made(world.target.parent()), ..world }, RepairEventView::Done)
        } else {
            failed
        },
        RepairActionView::Move(id, _) => if tree.movable(setting.entry(id as int), world.target) {
            (
                World { tree: tree.moved(setting.entry(id as int), world.target), ..world },
                RepairEventView::Done,
            )
        } else {
            failed
        },
        RepairActionView::RemoveDir(id) => if tree.removable(setting.entry(id as int)) {
            (World { tree: tree.removed(setting.entry(id as int)), ..world }, RepairEventView::Done)
        } else {
            failed
        },
        RepairActionView::Finish(_) => failed,
    }
}

/// A repair, what it asks for, and the world around it.
pub ghost struct Scene {
    pub doctor: DoctorView,
    pub action: RepairActionView,
    pub world: World,
}

/// The scene when a repair has begun.
pub open spec fn begun(setting: Setting) -> Scene {
    let report = ReportBuilderView { operations: Seq::empty(), start: setting.start };
    let (doctor, action) = DoctorView::fresh(setting.depot, report).repair_step(
        RepairEventView::Begin,
        setting.finish,
    );
    Scene {
        doctor,
        action,
        world: World { tree: setting.tree, next: 0, target: setting.packages() },
    }
}

/// Whether an event refuses what a repair asks for.
pub open spec fn refuses(doctor: DoctorView, event: RepairEventView) -> bool {
    (event is Failed || event is Refused) && doctor.expects(event)
}

/// What becomes of a scene. What the repair asks for is done where it can be, unless it is
/// refused, and then nothing is done.
pub open spec fn step(setting: Setting, s: Scene, refusal: Option<RepairEventView>) -> Scene {
    if s.action is Finish {
        s
    } else {
        let (world, event) = match refusal {
            Some(event) if refuses(s.doctor, event) => (s.world, event),
            _ => answer(setting, s.world, s.action),
        };
        let (doctor, action) = s.doctor.repair_step(event, setting.finish);
        Scene { doctor, action, world }
    }
}

/// The scene after as many steps as there are refusals, or none in the place of one.
pub open spec fn played(setting: Setting, refusals: Seq<Option<RepairEventView>>) -> Scene
    decreases refusals.len(),
{
    if refusals.len() == 0 {
        begun(setting)
    } else {
        step(setting, played(setting, refusals.drop_last()), refusals.last())
    }
}

/// As many steps in which nothing is refused.
pub open spec fn unrefused(n: nat) -> Seq<Option<RepairEventView>> {
    Seq::new(n, |i: int| None)
}

} // verus!
