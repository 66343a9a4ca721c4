//! Moving the data of the application's former name into its own folder on first start.

use vstd::prelude::*;

verus! {

/// The folder name of the application's data.
pub const APP_NAME: &'static str = "AoiPlate";

/// The folder name the application's data had under its former name.
pub const LEGACY_APP_NAME: &'static str = "TodoLite";

/// Data is moved only on the first start after the rename: when the current folder
/// does not exist yet and the former one does.
pub fn should_migrate(current_exists: bool, legacy_exists: bool) -> (r: bool)
    ensures
        r == (!current_exists && legacy_exists),
{
    !current_exists && legacy_exists
}

/// The files moved from the former folder, in this order.
pub open spec fn migrated_file_names_text() -> Seq<Seq<char>> {
    seq!["todos.json"@, "config.json"@, "error.log"@]
}

pub fn migrated_file_names() -> (r: Vec<&'static str>)
    ensures
        r@.map_values(|n: &'static str| n@) == migrated_file_names_text(),
{
    let r = vec!["todos.json", "config.json", "error.log"];
    assert(r@.map_values(|n: &'static str| n@) =~= migrated_file_names_text());
    r
}

/// A file is moved when the former folder has it and the current one does not.
pub fn file_needs_move(from_exists: bool, to_exists: bool) -> (r: bool)
    ensures
        r == (from_exists && !to_exists),
{
    from_exists && !to_exists
}

/// The outcome of the move: whether any file moved, and one warning per failure.
pub struct MigrationReport {
    pub migrated: bool,
    pub warnings: Vec<String>,
}

/// The warning for a file that could not be moved.
pub open spec fn migration_warning_text(from: Seq<char>, to: Seq<char>, err: Seq<char>) -> Seq<char> {
    "migration warning: failed to move "@ + from + " -> "@ + to + ": "@ + err
}

impl MigrationReport {
    pub fn new() -> (r: MigrationReport)
        ensures
            !r.migrated,
            r.warnings@.len() == 0,
    {
        MigrationReport { migrated: false, warnings: Vec::new() }
    }

    /// A file moved.
    pub fn record_moved(&mut self)
        ensures
            final(self).migrated,
            final(self).warnings@ == old(self).warnings@,
    {
        self.migrated = true;
    }

    /// A file could not be moved; returns the warning, which is also kept.
    pub fn record_failure(&mut self, from: &str, to: &str, err: &str) -> (r: String)
        ensures
            r@ == migration_warning_text(from@, to@, err@),
            final(self).migrated == old(self).migrated,
            final(self).warnings@ == old(self).warnings@.push(r),
    {
        let mut warning = "migration warning: failed to move ".to_owned();
        warning.append(from);
        warning.append(" -> ");
        warning.append(to);
        warning.append(": ");
        warning.append(err);
        let kept = warning.clone();
        self.warnings.push(kept);
        warning
    }
}

} // verus!
