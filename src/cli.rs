use vstd::prelude::*;

use crate::models::Priority;

verus! {

/// The command line: one subcommand, or none for the interactive screen.
pub struct Cli {
    pub command: Option<Commands>,
}

/// The subcommands.
pub enum Commands {
    /// Add a new task.
    Add {
        description: String,
        due_date: Option<String>,
        tags: Vec<String>,
        priority: Option<String>,
    },
    /// List the active tasks, maybe filtered by tags and sorted.
    List { sort_by_due_date: bool, tags: Option<Vec<String>>, sort_by_priority: bool },
    /// Reverse the last change.
    Undo,
    /// Mark a task completed.
    Done { id: u32 },
    /// Delete a task.
    Delete { id: u32 },
    /// Move the completed tasks to the archive.
    Archive,
    /// List the archive.
    ListArchived,
    /// The interactive screen.
    Tui,
}

/// What `str::to_lowercase` makes of a text.
pub uninterp spec fn lowercased(s: Seq<char>) -> Seq<char>;

/// Relies on std's `str::to_lowercase`: the lowercase form of the text, which
/// depends on the text alone.
pub assume_specification[ str::to_lowercase ](s: &str) -> (r: String)
    ensures
        r@ == lowercased(s@),
;

/// The priority a lowercase name stands for; any other name means `Low`.
pub open spec fn priority_named(l: Seq<char>) -> Priority {
    if l == "medium"@ {
        Priority::Medium
    } else if l == "high"@ {
        Priority::High
    } else {
        Priority::Low
    }
}

/// The priority a lowercase name stands for; see [`priority_named`].
pub fn priority_from_lowercase(l: &String) -> (r: Priority)
    ensures
        r == priority_named(l@),
{
    if *l == "medium".to_owned() {
        Priority::Medium
    } else if *l == "high".to_owned() {
        Priority::High
    } else {
        Priority::Low
    }
}

/// The priority a name stands for, in any letter case.
pub fn parse_priority(s: &str) -> (r: Priority)
    ensures
        r == priority_named(lowercased(s@)),
{
    let l = s.to_lowercase();
    priority_from_lowercase(&l)
}

} // verus!
