use vstd::prelude::*;
use crate::path::{target_of, target_path};
use crate::statistics::Outcome;

verus! {

/// What to do with one file whose new stem is known.
#[derive(Debug)]
pub enum RenameAction {
    /// The file already has its name.
    Skip,
    /// A dry run: report the move to the path, touch nothing.
    Preview(Vec<u8>),
    /// Move the file to the path.
    Move(Vec<u8>),
}

/// Which action a file at `path` gets for the stem `stem`.
pub open spec fn rename_decision(path: Seq<u8>, stem: Seq<u8>, is_dry_run: bool, a: RenameAction) -> bool {
    let t = target_of(path, stem);
    if t == path {
        a is Skip
    } else if is_dry_run {
        a matches RenameAction::Preview(p) && p@ == t
    } else {
        a matches RenameAction::Move(p) && p@ == t
    }
}

impl RenameAction {
    /// The outcome of the action; `moved` tells whether a move went through.
    pub open spec fn spec_outcome(&self, moved: bool) -> Outcome {
        match self {
            RenameAction::Skip => Outcome::Skipped,
            RenameAction::Preview(_) => Outcome::Renamed,
            RenameAction::Move(_) => if moved {
                Outcome::Renamed
            } else {
                Outcome::Failed
            },
        }
    }

    pub fn outcome(&self, moved: bool) -> (r: Outcome)
        ensures
            r == self.spec_outcome(moved),
    {
        match self {
            RenameAction::Skip => Outcome::Skipped,
            RenameAction::Preview(_) => Outcome::Renamed,
            RenameAction::Move(_) => if moved {
                Outcome::Renamed
            } else {
                Outcome::Failed
            },
        }
    }
}

fn same_bytes(a: &Vec<u8>, b: &Vec<u8>) -> (r: bool)
    ensures
        r == (a@ == b@),
{
    if a.len() != b.len() {
        return false;
    }
    let mut i: usize = 0;
    while i < a.len()
        invariant
            i <= a.len() == b.len(),
            forall|k: int| 0 <= k < i ==> a@[k] == b@[k],
        decreases a.len() - i,
    {
        if a[i] != b[i] {
            return false;
        }
        i = i + 1;
    }
    assert(a@ =~= b@);
    true
}

/// Decides how the file at `file_path` comes to the stem
/// `new_file_name_without_extension`: skipped where the name is already
/// right, else moved, or only previewed in a dry run.
pub fn rename_file(
    file_path: &Vec<u8>,
    new_file_name_without_extension: &Vec<u8>,
    is_dry_run: bool,
) -> (r: RenameAction)
    ensures
        rename_decision(file_path@, new_file_name_without_extension@, is_dry_run, r),
{
    let target = target_path(file_path, new_file_name_without_extension);
    if same_bytes(&target, file_path) {
        RenameAction::Skip
    } else if is_dry_run {
        RenameAction::Preview(target)
    } else {
        RenameAction::Move(target)
    }
}

} // verus!
