use vstd::prelude::*;

use crate::mount::root_path;
use crate::vector::Vec;

verus! {

/// The path of the current working directory.
pub open spec fn dot_path() -> Seq<u8> {
    seq!['.' as u8]
}

/// One step of the root-switch procedure, for the surrounding program to
/// perform in order; the first failing step aborts the switch.
#[derive(Debug, PartialEq)]
pub enum SwitchStep {
    /// Change the working directory.
    Chdir(Vec<u8>),
    /// Move the mount at `source` onto `target`.
    MoveMount { source: Vec<u8>, target: Vec<u8> },
    /// Change the process root to the given path.
    Chroot(Vec<u8>),
    /// Swap the mount-namespace root: the new root is at `new_root`, the old
    /// one is left at `put_old`.
    PivotRoot { new_root: Vec<u8>, put_old: Vec<u8> },
    /// Lazily detach the mount at the given path.
    Detach(Vec<u8>),
    /// Replace the process image with the program at the given path.
    Exec(Vec<u8>),
}

/// The mathematical form of one switch step.
pub enum StepSpec {
    Chdir(Seq<u8>),
    MoveMount { source: Seq<u8>, target: Seq<u8> },
    Chroot(Seq<u8>),
    PivotRoot { new_root: Seq<u8>, put_old: Seq<u8> },
    Detach(Seq<u8>),
    Exec(Seq<u8>),
}

/// The mathematical form of an executable switch step.
pub open spec fn step_model(s: SwitchStep) -> StepSpec {
    match s {
        SwitchStep::Chdir(p) => StepSpec::Chdir(p@),
        SwitchStep::MoveMount { source, target } => StepSpec::MoveMount {
            source: source@,
            target: target@,
        },
        SwitchStep::Chroot(p) => StepSpec::Chroot(p@),
        SwitchStep::PivotRoot { new_root, put_old } => StepSpec::PivotRoot {
            new_root: new_root@,
            put_old: put_old@,
        },
        SwitchStep::Detach(p) => StepSpec::Detach(p@),
        SwitchStep::Exec(p) => StepSpec::Exec(p@),
    }
}

/// The mathematical form of a step sequence.
pub open spec fn steps_model(s: Seq<SwitchStep>) -> Seq<StepSpec> {
    s.map_values(|x: SwitchStep| step_model(x))
}

/// The ordered steps of the boot-protocol-correct root switch.
///
/// Both branches first enter the new root.  An initramfs cannot be unmounted,
/// so its branch moves the new root's mount onto `/` and re-roots with a
/// plain chroot; the pivot and the detach are never part of it.  An initrd is
/// a real, unmountable filesystem, so its branch pivots the mount-namespace
/// root and lazily detaches the old root, which the pivot left at the
/// working directory.  Both branches end by replacing the process image with
/// the init program.
pub open spec fn switch_plan(
    initramfs: bool,
    new_root: Seq<u8>,
    put_old: Seq<u8>,
    program: Seq<u8>,
) -> Seq<StepSpec> {
    if initramfs {
        seq![
            StepSpec::Chdir(new_root),
            StepSpec::MoveMount { source: new_root, target: root_path() },
            StepSpec::Chroot(dot_path()),
            StepSpec::Chdir(root_path()),
            StepSpec::Exec(program),
        ]
    } else {
        seq![
            StepSpec::Chdir(new_root),
            StepSpec::PivotRoot { new_root: dot_path(), put_old: put_old },
            StepSpec::Detach(dot_path()),
            StepSpec::Chdir(root_path()),
            StepSpec::Exec(program),
        ]
    }
}

/// Law: the initramfs branch is exactly chdir, move-mount onto `/`, chroot
/// into the working directory, chdir to `/`, exec — it never pivots and
/// never detaches.
pub proof fn lemma_initramfs_plan(new_root: Seq<u8>, put_old: Seq<u8>, program: Seq<u8>)
    ensures
        switch_plan(true, new_root, put_old, program) =~= seq![
            StepSpec::Chdir(new_root),
            StepSpec::MoveMount { source: new_root, target: root_path() },
            StepSpec::Chroot(dot_path()),
            StepSpec::Chdir(root_path()),
            StepSpec::Exec(program),
        ],
        forall|k: int|
            0 <= k < switch_plan(true, new_root, put_old, program).len()
                ==> !(#[trigger] switch_plan(true, new_root, put_old, program)[k] is PivotRoot)
                && !(switch_plan(true, new_root, put_old, program)[k] is Detach),
{
}

/// Law: the initrd branch is exactly chdir, pivot of the working directory
/// with the old root left at `put_old`, lazy detach of the old root at the
/// working directory, chdir to `/`, exec.
pub proof fn lemma_initrd_plan(new_root: Seq<u8>, put_old: Seq<u8>, program: Seq<u8>)
    ensures
        switch_plan(false, new_root, put_old, program) =~= seq![
            StepSpec::Chdir(new_root),
            StepSpec::PivotRoot { new_root: dot_path(), put_old: put_old },
            StepSpec::Detach(dot_path()),
            StepSpec::Chdir(root_path()),
            StepSpec::Exec(program),
        ],
        forall|k: int|
            0 <= k < switch_plan(false, new_root, put_old, program).len()
                ==> !(#[trigger] switch_plan(false, new_root, put_old, program)[k] is MoveMount)
                && !(switch_plan(false, new_root, put_old, program)[k] is Chroot),
{
}

/// Lays out the ordered steps of the root switch: via move and chroot on an
/// initramfs, via pivot and detach on an initrd.
pub fn switch_root(
    initramfs: bool,
    new_root: &Vec<u8>,
    put_old: &Vec<u8>,
    program: &Vec<u8>,
) -> (steps: Vec<SwitchStep>)
    ensures
        steps_model(steps@) == switch_plan(initramfs, new_root@, put_old@, program@),
{
    let mut steps: Vec<SwitchStep> = Vec::default();
    steps.push(SwitchStep::Chdir(new_root.copied()));
    if initramfs {
        let root = Vec::new(['/' as u8].as_slice());
        let dot = Vec::new(['.' as u8].as_slice());
        proof {
            assert(root@ =~= root_path());
            assert(dot@ =~= dot_path());
        }
        steps.push(SwitchStep::MoveMount { source: new_root.copied(), target: root });
        steps.push(SwitchStep::Chroot(dot));
    } else {
        let dot_pivot = Vec::new(['.' as u8].as_slice());
        let dot_detach = Vec::new(['.' as u8].as_slice());
        proof {
            assert(dot_pivot@ =~= dot_path());
            assert(dot_detach@ =~= dot_path());
        }
        steps.push(SwitchStep::PivotRoot { new_root: dot_pivot, put_old: put_old.copied() });
        steps.push(SwitchStep::Detach(dot_detach));
    }
    let root_again = Vec::new(['/' as u8].as_slice());
    proof {
        assert(root_again@ =~= root_path());
    }
    steps.push(SwitchStep::Chdir(root_again));
    steps.push(SwitchStep::Exec(program.copied()));
    proof {
        assert(steps_model(steps@) =~= switch_plan(initramfs, new_root@, put_old@, program@));
    }
    steps
}

} // verus!
