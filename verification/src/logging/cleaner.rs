//! Which log files are old enough to be removed.
use vstd::prelude::*;

verus! {

/// Nanoseconds in a day.
pub const NANOS_PER_DAY: i128 = 86_400_000_000_000;

/// The instant before which a log file is removed, `keep_days` days before `now`
/// (both in nanoseconds since the Unix epoch); none when nothing is to be removed
/// (`keep_days` is 0) or the instant cannot be represented.
pub open spec fn cutoff_of(now: int, keep_days: nat) -> Option<int> {
    if keep_days == 0 {
        None
    } else if now - keep_days * NANOS_PER_DAY < i128::MIN {
        None
    } else {
        Some(now - keep_days * NANOS_PER_DAY)
    }
}

/// The instant before which log files are removed, when any are.
pub fn retention_cutoff(now_nanos: i128, keep_days: u64) -> (r: Option<i128>)
    requires
        keep_days * 86400 <= u64::MAX,
    ensures
        match (r, cutoff_of(now_nanos as int, keep_days as nat)) {
            (Some(c), Some(e)) => c == e,
            (None, None) => true,
            _ => false,
        },
{
    if keep_days == 0 {
        return None;
    }
    let span: i128 = (keep_days as i128) * NANOS_PER_DAY;
    now_nanos.checked_sub(span)
}

/// What the cleaner does with one entry of the log directory.
#[derive(Clone, Copy, PartialEq, Eq, Structural, Debug)]
pub enum EntryAction {
    /// Clean the directory's own files (a project's folder).
    Descend,
    /// Remove the file.
    Remove,
    /// Leave the entry alone.
    Keep,
}

/// The cleaner looks one level deep: the application's log files lie directly in the
/// log directory, each project's command logs in a folder of its own. A file goes when
/// it was last modified before `cutoff`; one whose time cannot be read stays.
pub open spec fn entry_action_of(is_dir: bool, at_top: bool, modified: Option<i128>, cutoff: i128) -> EntryAction {
    if is_dir {
        if at_top {
            EntryAction::Descend
        } else {
            EntryAction::Keep
        }
    } else {
        match modified {
            Some(t) => if t < cutoff {
                EntryAction::Remove
            } else {
                EntryAction::Keep
            },
            None => EntryAction::Keep,
        }
    }
}

/// Decides what happens to one entry; `at_top` when it lies directly in the log
/// directory, `modified` its modification time in nanoseconds since the epoch.
pub fn entry_action(is_dir: bool, at_top: bool, modified: Option<i128>, cutoff: i128) -> (r: EntryAction)
    ensures
        r == entry_action_of(is_dir, at_top, modified, cutoff),
{
    if is_dir {
        if at_top {
            EntryAction::Descend
        } else {
            EntryAction::Keep
        }
    } else {
        match modified {
            Some(t) => if t < cutoff {
                EntryAction::Remove
            } else {
                EntryAction::Keep
            },
            None => EntryAction::Keep,
        }
    }
}

/// A file is removed exactly when its modification time lies more than `keep_days`
/// days before now, whether it lies in the log directory or in a project's folder.
pub proof fn lemma_old_files_go(now: i128, keep_days: u64, modified: i128, at_top: bool)
    requires
        cutoff_of(now as int, keep_days as nat) is Some,
    ensures
        (entry_action_of(false, at_top, Some(modified), cutoff_of(now as int, keep_days as nat)->0 as i128)
            == EntryAction::Remove) <==> modified < now - keep_days * NANOS_PER_DAY,
{
}

} // verus!
