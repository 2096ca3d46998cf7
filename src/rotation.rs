//! The rotation executor's decisions and the retention policy.

use vstd::prelude::*;
use crate::planner::{RotatedFile, RotationResult};

verus! {

/// A rotation is due once the live file holds more than `max_size` bytes.
pub open spec fn must_rotate(position: nat, max_size: u64) -> bool {
    position > max_size
}

/// Whether the live file, `position` bytes long after a write, must rotate.
pub fn needs_rotation(position: u64, max_size: u64) -> (r: bool)
    ensures
        r == must_rotate(position as nat, max_size),
{
    position > max_size
}

/// How many of `len` archives must go so that at most `keep` remain.
pub open spec fn excess(len: nat, keep: nat) -> nat {
    if len > keep {
        (len - keep) as nat
    } else {
        0
    }
}

/// The archives to delete so that at most `max_files` remain: the oldest
/// ones, that is a prefix of the ascending sequence.
pub fn cleanup_rotations(max_files: u32, rotation_result: &RotationResult) -> (r: Vec<RotatedFile>)
    ensures
        r@ == rotation_result.existing_rotated@.take(
            excess(rotation_result.existing_rotated@.len(), max_files as nat) as int,
        ),
{
    let existing = &rotation_result.existing_rotated;
    let mut out: Vec<RotatedFile> = Vec::new();
    let count: usize = if existing.len() > max_files as usize {
        existing.len() - max_files as usize
    } else {
        0
    };
    let mut i: usize = 0;
    while i < count
        invariant
            count == excess(existing@.len(), max_files as nat),
            count <= existing@.len(),
            i <= count,
            out@ == existing@.take(i as int),
        decreases count - i,
    {
        out.push(existing[i].copy());
        assert(existing@.take(i + 1) =~= existing@.take(i as int).push(existing@[i as int]));
        i = i + 1;
    }
    out
}

/// What a rotation does, once the live file has grown past the threshold.
pub enum RotationStep {
    /// No archive is kept: delete these archives and empty the live file.
    Discard { remove: Vec<RotatedFile> },
    /// Delete these archives, copy the live file into `target`, then empty
    /// the live file.
    Archive { remove: Vec<RotatedFile>, target: RotatedFile },
}

/// `step` is what a rotation does under `plan` when `max_history` archives
/// are retained.
pub open spec fn is_step_of(max_history: u32, plan: RotationResult, step: RotationStep) -> bool {
    let ex = plan.existing_rotated@;
    match step {
        RotationStep::Discard { remove } => max_history == 0 && remove@ == ex,
        RotationStep::Archive { remove, target } => {
            &&& max_history > 0
            &&& remove@ == ex.take(excess(ex.len(), (max_history - 1) as nat) as int)
            &&& target == plan.next_rotation
        },
    }
}

/// The step of a rotation under `plan`: with no history, every archive goes
/// and nothing is archived; otherwise the oldest archives go until
/// `max_history - 1` remain, and the live file becomes the next archive.
pub fn rotation_step(max_history: u32, plan: &RotationResult) -> (r: RotationStep)
    ensures
        is_step_of(max_history, *plan, r),
{
    if max_history == 0 {
        let remove = cleanup_rotations(0, plan);
        assert(plan.existing_rotated@.take(plan.existing_rotated@.len() as int)
            =~= plan.existing_rotated@);
        RotationStep::Discard { remove }
    } else {
        let remove = cleanup_rotations(max_history - 1, plan);
        RotationStep::Archive { remove, target: plan.next_rotation.copy() }
    }
}

} // verus!

verus! {

/// One operation of a rotation on the file system.
pub enum RotationAction {
    /// Delete the archive at this path.
    Remove(String),
    /// Write the live file's archive contents to a new archive at this path.
    WriteArchive(String),
    /// Empty the live file and move its write position to the start.
    Truncate,
}

/// The paths of a sequence of archives, as removals.
pub open spec fn removals(files: Seq<RotatedFile>) -> Seq<RotationAction> {
    files.map_values(|f: RotatedFile| RotationAction::Remove(f.path))
}

/// The operations of a rotation step, in the order they are carried out:
/// the deletions, oldest first, then the new archive, if any, then the
/// truncation of the live file. The first one that fails ends the rotation.
pub open spec fn actions_of(step: RotationStep) -> Seq<RotationAction> {
    match step {
        RotationStep::Discard { remove } => removals(remove@).push(RotationAction::Truncate),
        RotationStep::Archive { remove, target } => removals(remove@).push(
            RotationAction::WriteArchive(target.path),
        ).push(RotationAction::Truncate),
    }
}

/// The operations that carry out `step`.
pub fn rotation_actions(step: &RotationStep) -> (r: Vec<RotationAction>)
    ensures
        r@ == actions_of(*step),
{
    let remove = match step {
        RotationStep::Discard { remove } => remove,
        RotationStep::Archive { remove, .. } => remove,
    };
    let mut out: Vec<RotationAction> = Vec::new();
    let mut i: usize = 0;
    while i < remove.len()
        invariant
            i <= remove@.len(),
            out@ == removals(remove@.take(i as int)),
        decreases remove@.len() - i,
    {
        out.push(RotationAction::Remove(remove[i].path.clone()));
        assert(remove@.take(i + 1) =~= remove@.take(i as int).push(remove@[i as int]));
        assert(removals(remove@.take(i + 1)) =~= removals(remove@.take(i as int)).push(
            RotationAction::Remove(remove@[i as int].path),
        ));
        i = i + 1;
    }
    assert(remove@.take(remove@.len() as int) =~= remove@);
    if let RotationStep::Archive { target, .. } = step {
        out.push(RotationAction::WriteArchive(target.path.clone()));
    }
    out.push(RotationAction::Truncate);
    out
}

} // verus!
