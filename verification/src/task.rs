//! Tasks, the task list and the operations on it.

use vstd::prelude::*;
use vstd::seq_lib::group_filter_ensures;
use crate::text::{decimal, lemma_trimmed, push_decimal, trim_str, trimmed};

verus! {

/// One entry of the task list.
#[derive(Debug)]
pub struct Task {
    pub id: u32,
    pub description: String,
    pub completed: bool,
}

/// The mathematical value of a task.
pub ghost struct TaskModel {
    pub id: nat,
    pub description: Seq<char>,
    pub completed: bool,
}

impl View for Task {
    type V = TaskModel;

    open spec fn view(&self) -> TaskModel {
        TaskModel { id: self.id as nat, description: self.description@, completed: self.completed }
    }
}

/// Why an operation on the task list was refused.
#[derive(Debug)]
pub enum TaskError {
    /// The description was empty once trimmed.
    Validation,
    /// No task of the list has this id.
    NotFound(u32),
}

impl TaskError {
    /// The text of the message that tells a user of the refusal.
    pub open spec fn message_text(self) -> Seq<char> {
        match self {
            TaskError::Validation => "Task description cannot be empty"@,
            TaskError::NotFound(id) => "No task with id "@ + decimal(id as nat),
        }
    }

    /// The message that tells a user of the refusal.
    pub fn message(&self) -> (s: String)
        ensures
            s@ == self.message_text(),
    {
        match self {
            TaskError::Validation => String::from_str("Task description cannot be empty"),
            TaskError::NotFound(id) => {
                let mut s = String::from_str("No task with id ");
                push_decimal(&mut s, *id);
                s
            },
        }
    }
}

/// The values of the tasks of a list, in order.
pub open spec fn models(tasks: Seq<Task>) -> Seq<TaskModel> {
    Seq::new(tasks.len(), |i: int| tasks[i]@)
}

/// No two tasks of the list share an id.
pub open spec fn unique_ids(tasks: Seq<Task>) -> bool {
    forall|i: int, j: int|
        0 <= i < tasks.len() && 0 <= j < tasks.len() && i != j ==> tasks[i].id != tasks[j].id
}

/// A task as the list holds it: a positive id, and a description that is
/// trimmed and not empty.
pub open spec fn valid_task(t: TaskModel) -> bool {
    &&& t.id >= 1
    &&& t.description.len() > 0
    &&& trimmed(t.description) == t.description
}

/// The list holds valid tasks only, each under an id of its own.
pub open spec fn valid_list(tasks: Seq<Task>) -> bool {
    &&& unique_ids(tasks)
    &&& forall|i: int| 0 <= i < tasks.len() ==> valid_task(#[trigger] tasks[i]@)
}

/// Some task of the list has the id `id`.
pub open spec fn has_id(tasks: Seq<Task>, id: u32) -> bool {
    exists|i: int| 0 <= i < tasks.len() && tasks[i].id == id
}

/// The largest id of the list, 0 for the empty list.
pub open spec fn max_id(tasks: Seq<Task>) -> nat
    decreases tasks.len(),
{
    if tasks.len() == 0 {
        0
    } else {
        let rest = max_id(tasks.drop_last());
        if tasks.last().id as nat > rest {
            tasks.last().id as nat
        } else {
            rest
        }
    }
}

/// `max_id` bounds every id of the list, and is 0 or the id of one of its tasks.
pub proof fn lemma_max_id(tasks: Seq<Task>)
    ensures
        forall|i: int| 0 <= i < tasks.len() ==> (#[trigger] tasks[i]).id as nat <= max_id(tasks),
        tasks.len() == 0 ==> max_id(tasks) == 0,
        tasks.len() > 0 ==> exists|i: int| 0 <= i < tasks.len() && tasks[i].id as nat == max_id(tasks),
        max_id(tasks) <= u32::MAX,
    decreases tasks.len(),
{
    if tasks.len() > 0 {
        let front = tasks.drop_last();
        lemma_max_id(front);
        assert forall|i: int| 0 <= i < tasks.len() implies (#[trigger] tasks[i]).id as nat
            <= max_id(tasks) by {
            if i < front.len() {
                assert(front[i] == tasks[i]);
            }
        }
        if tasks.last().id as nat > max_id(front) {
            assert(tasks[tasks.len() - 1].id as nat == max_id(tasks));
        } else if front.len() == 0 {
            assert(tasks[0].id as nat == max_id(tasks));
        } else {
            let k = choose|k: int| 0 <= k < front.len() && front[k].id as nat == max_id(front);
            assert(tasks[k].id as nat == max_id(tasks));
        }
    }
}

/// The largest id in `tasks`, 0 where there is none.
pub fn max_task_id(tasks: &Vec<Task>) -> (m: u32)
    ensures
        m as nat == max_id(tasks@),
{
    let mut m: u32 = 0;
    let mut i: usize = 0;
    while i < tasks.len()
        invariant
            i <= tasks.len(),
            m as nat == max_id(tasks@.subrange(0, i as int)),
        decreases tasks.len() - i,
    {
        assert(tasks@.subrange(0, i + 1).drop_last() =~= tasks@.subrange(0, i as int));
        if tasks[i].id > m {
            m = tasks[i].id;
        }
        i += 1;
    }
    assert(tasks@.subrange(0, i as int) =~= tasks@);
    m
}

/// Appends a task with the trimmed description, not completed, whose id is one
/// more than the largest id of the list. A description that is empty once
/// trimmed is refused and the list stays as it was. The largest id has to
/// leave room for one more.
pub fn add_task(tasks: &mut Vec<Task>, description: String) -> (r: Result<(), TaskError>)
    requires
        trimmed(description@).len() > 0 ==> max_id(old(tasks)@) < u32::MAX,
    ensures
        trimmed(description@).len() == 0 ==> r == Err::<(), TaskError>(TaskError::Validation)
            && final(tasks)@ == old(tasks)@,
        trimmed(description@).len() > 0 ==> r.is_ok()
            && final(tasks)@.len() == old(tasks)@.len() + 1
            && final(tasks)@.drop_last() == old(tasks)@
            && final(tasks)@.last()@ == (TaskModel {
                id: max_id(old(tasks)@) + 1,
                description: trimmed(description@),
                completed: false,
            }),
        trimmed(description@).len() > 0 ==> !has_id(old(tasks)@, final(tasks)@.last().id),
        unique_ids(old(tasks)@) ==> unique_ids(final(tasks)@),
        valid_list(old(tasks)@) ==> valid_list(final(tasks)@),
{
    let text = trim_str(description.as_str());
    if text.is_empty() {
        return Err(TaskError::Validation);
    }
    let next_id: u32 = max_task_id(tasks) + 1;
    let ghost before = tasks@;
    tasks.push(Task { id: next_id, description: text.to_owned(), completed: false });
    proof {
        lemma_max_id(before);
        lemma_trimmed(description@);
        assert(tasks@.drop_last() =~= before);
        assert(forall|i: int| 0 <= i < before.len() ==> tasks@[i] == before[i]);
        if has_id(before, next_id) {
            let k = choose|k: int| 0 <= k < before.len() && before[k].id == next_id;
            assert(before[k].id as nat <= max_id(before));
        }
    }
    Ok(())
}

/// `k` is the place of the first task of the list with the id `id`.
pub open spec fn is_first_with_id(tasks: Seq<Task>, id: u32, k: int) -> bool {
    &&& 0 <= k < tasks.len()
    &&& tasks[k].id == id
    &&& forall|j: int| 0 <= j < k ==> tasks[j].id != id
}

/// The list with the task at place `k` completed and nothing else changed.
pub open spec fn completed_at(tasks: Seq<Task>, k: int) -> Seq<Task> {
    tasks.update(
        k,
        Task { id: tasks[k].id, description: tasks[k].description, completed: true },
    )
}

/// Completes the first task with the id `id`. Where the list has no such task
/// the call is refused and the list stays as it was.
pub fn mark_done(tasks: &mut Vec<Task>, id: u32) -> (r: Result<(), TaskError>)
    ensures
        !has_id(old(tasks)@, id) ==> r == Err::<(), TaskError>(TaskError::NotFound(id))
            && final(tasks)@ == old(tasks)@,
        has_id(old(tasks)@, id) ==> r.is_ok() && exists|k: int|
            is_first_with_id(old(tasks)@, id, k) && final(tasks)@ == completed_at(
                old(tasks)@,
                k,
            ),
        unique_ids(old(tasks)@) ==> unique_ids(final(tasks)@),
        valid_list(old(tasks)@) ==> valid_list(final(tasks)@),
{
    let mut i: usize = 0;
    while i < tasks.len()
        invariant
            i <= tasks.len(),
            tasks@ == old(tasks)@,
            forall|j: int| 0 <= j < i ==> tasks@[j].id != id,
        decreases tasks.len() - i,
    {
        if tasks[i].id == id {
            tasks[i].completed = true;
            proof {
                assert(is_first_with_id(old(tasks)@, id, i as int));
                assert(tasks@ =~= completed_at(old(tasks)@, i as int));
                if valid_list(old(tasks)@) {
                    assert forall|j: int| 0 <= j < tasks@.len() implies valid_task(
                        #[trigger] tasks@[j]@,
                    ) by {
                        assert(valid_task(old(tasks)@[j]@));
                    }
                }
            }
            return Ok(());
        }
        i += 1;
    }
    Err(TaskError::NotFound(id))
}

/// The list without the tasks whose id is `id`, the others in their order.
pub open spec fn without_id(tasks: Seq<Task>, id: u32) -> Seq<Task> {
    tasks.filter(|t: Task| t.id != id)
}

/// Removal by id leaves no task with that id and keeps unique ids unique. It
/// changes nothing where no task has the id, and takes exactly one task away
/// where the ids are unique and one has it.
pub proof fn lemma_without_id(tasks: Seq<Task>, id: u32)
    ensures
        !has_id(without_id(tasks, id), id),
        without_id(tasks, id).len() <= tasks.len(),
        forall|i: int|
            0 <= i < without_id(tasks, id).len() ==> tasks.contains(
                #[trigger] without_id(tasks, id)[i],
            ),
        forall|i: int|
            0 <= i < tasks.len() && tasks[i].id != id ==> without_id(tasks, id).contains(
                #[trigger] tasks[i],
            ),
        !has_id(tasks, id) ==> without_id(tasks, id) == tasks,
        unique_ids(tasks) ==> unique_ids(without_id(tasks, id)),
        valid_list(tasks) ==> valid_list(without_id(tasks, id)),
        unique_ids(tasks) && has_id(tasks, id) ==> without_id(tasks, id).len() == tasks.len() - 1,
    decreases tasks.len(),
{
    let keep = |t: Task| t.id != id;
    let rest = without_id(tasks, id);
    broadcast use group_filter_ensures;

    reveal(Seq::filter);
    if tasks.len() > 0 {
        let front = tasks.drop_last();
        let last = tasks.last();
        let front_rest = without_id(front, id);
        lemma_without_id(front, id);
        assert(forall|i: int| 0 <= i < front.len() ==> front[i] == tasks[i]);
        if !has_id(tasks, id) {
            assert(!has_id(front, id)) by {
                if has_id(front, id) {
                    let k = choose|k: int| 0 <= k < front.len() && front[k].id == id;
                    assert(tasks[k].id == id);
                }
            }
            assert(tasks[tasks.len() - 1].id != id);
            assert(rest =~= tasks);
        }
        if unique_ids(tasks) {
            assert(unique_ids(front));
            if last.id != id {
                assert(rest == front_rest.push(last));
                assert forall|i: int, j: int|
                    0 <= i < rest.len() && 0 <= j < rest.len() && i != j implies rest[i].id
                    != rest[j].id by {
                    if i < front_rest.len() {
                        assert(front.contains(front_rest[i]));
                        let a = choose|a: int| 0 <= a < front.len() && front[a] == front_rest[i];
                        assert(tasks[a].id != tasks[tasks.len() - 1].id);
                    }
                    if j < front_rest.len() {
                        assert(front.contains(front_rest[j]));
                        let b = choose|b: int| 0 <= b < front.len() && front[b] == front_rest[j];
                        assert(tasks[b].id != tasks[tasks.len() - 1].id);
                    }
                }
                if has_id(tasks, id) {
                    let k = choose|k: int| 0 <= k < tasks.len() && tasks[k].id == id;
                    assert(front[k].id == id);
                }
            } else {
                assert(rest == front_rest);
                assert(!has_id(front, id)) by {
                    if has_id(front, id) {
                        let k = choose|k: int| 0 <= k < front.len() && front[k].id == id;
                        assert(tasks[k].id == tasks[tasks.len() - 1].id);
                    }
                }
            }
        }
    }
    if has_id(rest, id) {
        let k = choose|k: int| 0 <= k < rest.len() && rest[k].id == id;
        assert(keep(rest[k]));
    }
}

/// Ids are not handed out again to fill a gap: removing an id below the
/// largest leaves the largest as it was, so the next task added still gets
/// one more than it.
pub proof fn lemma_remove_below_max(tasks: Seq<Task>, id: u32)
    requires
        (id as nat) < max_id(tasks),
    ensures
        max_id(without_id(tasks, id)) == max_id(tasks),
{
    let rest = without_id(tasks, id);
    lemma_max_id(tasks);
    lemma_max_id(rest);
    lemma_without_id(tasks, id);
    let top = choose|k: int| 0 <= k < tasks.len() && tasks[k].id as nat == max_id(tasks);
    assert(rest.contains(tasks[top]));
    let kept = choose|k: int| 0 <= k < rest.len() && rest[k] == tasks[top];
    assert(rest[kept].id as nat <= max_id(rest));
    let best = choose|k: int| 0 <= k < rest.len() && rest[k].id as nat == max_id(rest);
    assert(tasks.contains(rest[best]));
    let source = choose|k: int| 0 <= k < tasks.len() && tasks[k] == rest[best];
    assert(tasks[source].id as nat <= max_id(tasks));
}

/// Removes every task with the id `id`. Where the list has no such task the
/// call is refused and the list stays as it was.
pub fn remove_task(tasks: &mut Vec<Task>, id: u32) -> (r: Result<(), TaskError>)
    ensures
        final(tasks)@ == without_id(old(tasks)@, id),
        has_id(old(tasks)@, id) ==> r.is_ok(),
        !has_id(old(tasks)@, id) ==> r == Err::<(), TaskError>(TaskError::NotFound(id))
            && final(tasks)@ == old(tasks)@,
        unique_ids(old(tasks)@) && has_id(old(tasks)@, id) ==> final(tasks)@.len() == old(
            tasks,
        )@.len() - 1,
        unique_ids(old(tasks)@) ==> unique_ids(final(tasks)@),
        valid_list(old(tasks)@) ==> valid_list(final(tasks)@),
        !has_id(final(tasks)@, id),
{
    let ghost before = tasks@;
    let mut i: usize = 0;
    let mut removed: bool = false;
    let ghost mut j: int = 0;
    while i < tasks.len()
        invariant
            0 <= j <= before.len(),
            i <= tasks.len(),
            tasks@ == without_id(before.subrange(0, j), id) + before.subrange(j, before.len() as int),
            i == without_id(before.subrange(0, j), id).len(),
            removed <==> has_id(before.subrange(0, j), id),
            !removed ==> tasks@ == before,
        decreases tasks.len() - i,
    {
        proof {
            assert(tasks@[i as int] == before.subrange(j, before.len() as int)[0]);
            assert(j < before.len());
            assert(before.subrange(0, j + 1).drop_last() =~= before.subrange(0, j));
            reveal(Seq::filter);
        }
        if tasks[i].id == id {
            tasks.remove(i);
            removed = true;
            proof {
                assert(before.subrange(0, j + 1)[j].id == id);
                assert(tasks@ =~= without_id(before.subrange(0, j + 1), id) + before.subrange(
                    j + 1,
                    before.len() as int,
                ));
            }
        } else {
            proof {
                assert(tasks@ =~= without_id(before.subrange(0, j + 1), id) + before.subrange(
                    j + 1,
                    before.len() as int,
                ));
                if has_id(before.subrange(0, j + 1), id) {
                    let front = before.subrange(0, j + 1);
                    let k = choose|k: int| 0 <= k < front.len() && front[k].id == id;
                    assert(before.subrange(0, j)[k].id == id);
                }
            }
            i += 1;
        }
        proof {
            j = j + 1;
        }
    }
    proof {
        assert(before.subrange(0, j) =~= before);
        assert(tasks@ =~= without_id(before, id));
    }
    proof {
        let after = without_id(before, id);
        assert({
            &&& !has_id(after, id)
            &&& (!has_id(before, id) ==> after == before)
            &&& (unique_ids(before) ==> unique_ids(after))
            &&& (valid_list(before) ==> valid_list(after))
            &&& (unique_ids(before) && has_id(before, id) ==> after.len() == before.len() - 1)
        }) by {
            lemma_without_id(before, id);
        }
    }
    if removed {
        Ok(())
    } else {
        Err(TaskError::NotFound(id))
    }
}

} // verus!
