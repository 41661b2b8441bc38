//! The command line: what the manager is asked to do before it serves.
use vstd::prelude::*;
use crate::text::{str_eq, views};

verus! {

/// What the command line asks for.
#[derive(Clone, Debug, PartialEq, Eq)]
pub enum CliAction {
    /// Nothing: the manager serves.
    Serve,
    /// The list of arguments.
    Help,
    /// A check of the configuration and of the sessions.
    Check,
    /// The usage of `backup`, which was given without a sound request.
    BackupUsage,
    /// The list of the files in the backup directory.
    BackupList,
    /// The removal of every file in the backup directory.
    BackupRemoveAll,
    /// The removal of one file in the backup directory.
    BackupRemove(String),
}

/// What the command line asks for, as a mathematical value.
pub enum CliActionView {
    Serve,
    Help,
    Check,
    BackupUsage,
    BackupList,
    BackupRemoveAll,
    BackupRemove(Seq<char>),
}

impl View for CliAction {
    type V = CliActionView;

    open spec fn view(&self) -> CliActionView {
        match *self {
            CliAction::Serve => CliActionView::Serve,
            CliAction::Help => CliActionView::Help,
            CliAction::Check => CliActionView::Check,
            CliAction::BackupUsage => CliActionView::BackupUsage,
            CliAction::BackupList => CliActionView::BackupList,
            CliAction::BackupRemoveAll => CliActionView::BackupRemoveAll,
            CliAction::BackupRemove(file) => CliActionView::BackupRemove(file@),
        }
    }
}

/// What `backup` and the arguments behind it ask for. `i` is the position
/// of `backup`.
pub open spec fn backup_action(args: Seq<Seq<char>>, i: int) -> CliActionView {
    if i + 1 < args.len() && args[i + 1] == "ls"@ {
        CliActionView::BackupList
    } else if i + 2 < args.len() && args[i + 1] == "rm"@ {
        if args[i + 2] == "all"@ {
            CliActionView::BackupRemoveAll
        } else {
            CliActionView::BackupRemove(args[i + 2])
        }
    } else {
        CliActionView::BackupUsage
    }
}

/// What the arguments from position `i` on ask for: the first of them that
/// is known decides, and those before it are passed over.
pub open spec fn action_from(args: Seq<Seq<char>>, i: int) -> CliActionView
    decreases args.len() - i,
{
    if i < 0 || i >= args.len() {
        CliActionView::Serve
    } else if args[i] == "help"@ {
        CliActionView::Help
    } else if args[i] == "check"@ {
        CliActionView::Check
    } else if args[i] == "backup"@ {
        backup_action(args, i)
    } else {
        action_from(args, i + 1)
    }
}

/// Reads the command line, whose first entry is the program itself.
pub fn parse_args(args: &Vec<String>) -> (action: CliAction)
    ensures
        action@ == action_from(views(args@), 1),
{
    let n = args.len();
    let mut i: usize = 1;
    while i < n
        invariant
            1 <= i,
            n == args.len(),
            action_from(views(args@), 1) == action_from(views(args@), i as int),
        decreases n - i,
    {
        let arg = args[i].as_str();
        if str_eq(arg, "help") {
            return CliAction::Help;
        }
        if str_eq(arg, "check") {
            return CliAction::Check;
        }
        if str_eq(arg, "backup") {
            if i < n - 1 {
                if str_eq(args[i + 1].as_str(), "ls") {
                    return CliAction::BackupList;
                }
                if i < n - 2 && str_eq(args[i + 1].as_str(), "rm") {
                    if str_eq(args[i + 2].as_str(), "all") {
                        return CliAction::BackupRemoveAll;
                    }
                    return CliAction::BackupRemove(args[i + 2].clone());
                }
            }
            return CliAction::BackupUsage;
        }
        i += 1;
    }
    CliAction::Serve
}

} // verus!
