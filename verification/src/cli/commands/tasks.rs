//! The listing of tasks.
use vstd::prelude::*;

use crate::project::TaskRecord;
use crate::runtime_table;
use crate::text;

verus! {

/// What to do with the tasks.
#[derive(Debug, Clone, Copy, PartialEq, Eq, Structural)]
pub enum TasksCommand {
    /// List the rows of the tasks table.
    List,
}

/// What is printed of the tasks table.
pub open spec fn listing(tasks: Seq<TaskRecord>) -> Seq<Seq<char>> {
    if tasks.len() == 0 {
        seq!["No tasks recorded."@]
    } else {
        runtime_table::task_table(tasks)
    }
}

/// What is printed of the tasks table.
pub fn run(command: TasksCommand, tasks: &[TaskRecord]) -> (out: Vec<String>)
    ensures
        text::views(out@) == listing(tasks@),
{
    match command {
        TasksCommand::List => {
            if tasks.len() == 0 {
                text::one_text("No tasks recorded.")
            } else {
                runtime_table::task_lines(tasks)
            }
        },
    }
}

} // verus!
