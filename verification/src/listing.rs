//! The lines that show a task list to its user.

use vstd::prelude::*;
use crate::task::{models, Task, TaskModel};
use crate::text::{decimal, push_decimal};

verus! {

/// The mark in front of a task: crossed where it is completed.
pub open spec fn marker(completed: bool) -> Seq<char> {
    if completed {
        "[x]"@
    } else {
        "[ ]"@
    }
}

/// The line of one task: its mark, a space, its id, a colon and a space, its
/// description.
pub open spec fn task_line(t: TaskModel) -> Seq<char> {
    marker(t.completed) + " "@ + decimal(t.id) + ": "@ + t.description
}

/// Whether a task is shown: always where completed tasks are asked for, else
/// only while it is open.
pub open spec fn is_shown(t: TaskModel, all: bool) -> bool {
    all || !t.completed
}

/// The tasks that are shown, in the order of the list.
pub open spec fn shown(tasks: Seq<TaskModel>, all: bool) -> Seq<TaskModel> {
    tasks.filter(|t: TaskModel| is_shown(t, all))
}

/// What is printed for a list: one line for each task shown, or a single line
/// that says why there is none.
pub open spec fn listing(tasks: Seq<TaskModel>, all: bool) -> Seq<Seq<char>> {
    if shown(tasks, all).len() > 0 {
        shown(tasks, all).map_values(|t: TaskModel| task_line(t))
    } else if tasks.len() == 0 {
        seq!["No tasks found."@]
    } else {
        seq!["No tasks to show (use --all to include completed)."@]
    }
}

/// The texts of a sequence of strings.
pub open spec fn texts(lines: Seq<String>) -> Seq<Seq<char>> {
    Seq::new(lines.len(), |i: int| lines[i]@)
}

/// The line of one task.
pub fn render_task(task: &Task) -> (line: String)
    ensures
        line@ == task_line(task@),
{
    let mut line = String::from_str(if task.completed { "[x]" } else { "[ ]" });
    line.append(" ");
    push_decimal(&mut line, task.id);
    line.append(": ");
    line.append(task.description.as_str());
    assert(line@ =~= task_line(task@));
    line
}

/// The lines to print for `tasks`, in order. The list is only read.
pub fn list_tasks(tasks: &[Task], all: bool) -> (lines: Vec<String>)
    ensures
        texts(lines@) == listing(models(tasks@), all),
{
    let ghost all_models = models(tasks@);
    let ghost line_of = |t: TaskModel| task_line(t);
    let mut lines: Vec<String> = Vec::new();
    let mut i: usize = 0;
    while i < tasks.len()
        invariant
            i <= tasks.len(),
            all_models == models(tasks@),
            line_of == |t: TaskModel| task_line(t),
            texts(lines@) == shown(all_models.subrange(0, i as int), all).map_values(line_of),
        decreases tasks.len() - i,
    {
        proof {
            reveal(Seq::filter);
            assert(all_models.subrange(0, i + 1).drop_last() =~= all_models.subrange(0, i as int));
            assert(all_models.subrange(0, i + 1).last() == tasks@[i as int]@);
        }
        let task = &tasks[i];
        if all || !task.completed {
            let line = render_task(task);
            let ghost lines_before = lines@;
            let ghost shown_before = shown(all_models.subrange(0, i as int), all);
            lines.push(line);
            proof {
                let shown_now = shown(all_models.subrange(0, i + 1), all);
                assert(shown_now == shown_before.push(task@));
                assert(texts(lines_before).len() == shown_before.map_values(line_of).len());
                assert forall|k: int| 0 <= k < lines@.len() implies texts(lines@)[k]
                    == shown_now.map_values(line_of)[k] by {
                    if k < lines_before.len() {
                        assert(texts(lines_before)[k] == shown_before.map_values(line_of)[k]);
                    }
                }
                assert(texts(lines@) =~= shown_now.map_values(line_of));
            }
        }
        i += 1;
    }
    proof {
        assert(all_models.subrange(0, i as int) =~= all_models);
    }
    if lines.len() == 0 {
        if tasks.len() == 0 {
            lines.push(String::from_str("No tasks found."));
        } else {
            lines.push(String::from_str("No tasks to show (use --all to include completed)."));
        }
        assert(texts(lines@) =~= listing(all_models, all));
    }
    lines
}

} // verus!
