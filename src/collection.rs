use vstd::prelude::*;
use crate::task::{Task, TaskData, TaskView};

verus! {

/// What a collection is to the contracts: its title and its tasks in order.
pub struct CollectionView {
    pub title: Seq<char>,
    pub tasks: Seq<TaskView>,
}

/// A named, ordered group of tasks.
pub struct Collection {
    pub title: String,
    pub tasks: Vec<Task>,
}

/// A collection as it is saved to disk.
pub struct CollectionData {
    pub title: String,
    pub tasks: Vec<TaskData>,
}

pub open spec fn task_views(s: Seq<Task>) -> Seq<TaskView> {
    s.map_values(|t: Task| t@)
}

pub open spec fn task_data_views(s: Seq<TaskData>) -> Seq<TaskView> {
    s.map_values(|t: TaskData| t@)
}

/// The tasks that are not completed, in their order.
pub open spec fn open_tasks(s: Seq<TaskView>) -> Seq<TaskView> {
    s.filter(|t: TaskView| !t.completed)
}

impl View for Collection {
    type V = CollectionView;

    open spec fn view(&self) -> CollectionView {
        CollectionView { title: self.title@, tasks: task_views(self.tasks@) }
    }
}

impl View for CollectionData {
    type V = CollectionView;

    open spec fn view(&self) -> CollectionView {
        CollectionView { title: self.title@, tasks: task_data_views(self.tasks@) }
    }
}

/// Removing a completed task from a sequence does not change its open tasks.
proof fn lemma_open_tasks_remove_completed(s: Seq<TaskView>, i: int)
    requires
        0 <= i < s.len(),
        s[i].completed,
    ensures
        open_tasks(s.remove(i)) == open_tasks(s),
{
    let a = s.subrange(0, i);
    let b = s.subrange(i + 1, s.len() as int);
    assert(s =~= a + seq![s[i]] + b);
    assert(s.remove(i) =~= a + b);
    let p = |t: TaskView| !t.completed;
    Seq::filter_distributes_over_add(a + seq![s[i]], b, p);
    Seq::filter_distributes_over_add(a, seq![s[i]], p);
    Seq::filter_distributes_over_add(a, b, p);
    assert(seq![s[i]].filter(p) =~= Seq::<TaskView>::empty()) by {
        reveal_with_fuel(Seq::filter, 2);
    }
    assert(a + Seq::<TaskView>::empty() =~= a);
}

/// A sequence with no completed task is its own open tasks.
pub proof fn lemma_open_tasks_of_open(s: Seq<TaskView>)
    requires
        forall|i: int| 0 <= i < s.len() ==> !#[trigger] s[i].completed,
    ensures
        open_tasks(s) == s,
    decreases s.len(),
{
    reveal_with_fuel(Seq::filter, 1);
    if s.len() > 0 {
        let t = s.drop_last();
        assert forall|i: int| 0 <= i < t.len() implies !#[trigger] t[i].completed by {
            assert(t[i] == s[i]);
        }
        lemma_open_tasks_of_open(t);
        assert(s =~= t.push(s.last()));
    } else {
        assert(s.filter(|t: TaskView| !t.completed) =~= s);
    }
}

impl Collection {
    pub fn new(title: String, tasks: Vec<Task>) -> (c: Collection)
        ensures
            c@ == (CollectionView { title: title@, tasks: task_views(tasks@) }),
    {
        Collection { title, tasks }
    }

    /// Appends a task at the end.
    pub fn append_task(&mut self, task: Task)
        ensures
            final(self)@ == (CollectionView { title: old(self)@.title, tasks: old(self)@.tasks.push(task@) }),
    {
        self.tasks.push(task);
        assert(task_views(self.tasks@) =~= task_views(old(self).tasks@).push(task@));
    }

    /// Flips the completion flag of the task at `position`.
    pub fn toggle_task(&mut self, position: usize)
        requires
            position < old(self)@.tasks.len(),
        ensures
            final(self)@ == (CollectionView {
                title: old(self)@.title,
                tasks: old(self)@.tasks.update(
                    position as int,
                    TaskView {
                        completed: !old(self)@.tasks[position as int].completed,
                        content: old(self)@.tasks[position as int].content,
                    },
                ),
            }),
    {
        let mut task = self.tasks.remove(position);
        task.toggle();
        self.tasks.insert(position, task);
        assert(task_views(self.tasks@) =~= task_views(old(self).tasks@).update(position as int, task@));
    }

    /// Removes every completed task and keeps the others in their order.
    pub fn remove_done_tasks(&mut self)
        ensures
            final(self)@ == (CollectionView { title: old(self)@.title, tasks: open_tasks(old(self)@.tasks) }),
    {
        let mut position: usize = 0;
        while position < self.tasks.len()
            invariant
                position <= self.tasks.len(),
                self.title@ == old(self).title@,
                open_tasks(self@.tasks) == open_tasks(old(self)@.tasks),
                forall|i: int| 0 <= i < position ==> !#[trigger] self.tasks@[i].completed,
            decreases self.tasks.len() - position,
        {
            if self.tasks[position].is_completed() {
                proof {
                    lemma_open_tasks_remove_completed(self@.tasks, position as int);
                }
                let ghost before = self.tasks@;
                self.tasks.remove(position);
                assert(task_views(self.tasks@) =~= task_views(before).remove(position as int));
            } else {
                position += 1;
            }
        }
        proof {
            assert forall|i: int| 0 <= i < self@.tasks.len() implies !#[trigger] self@.tasks[i].completed by {
                assert(self@.tasks[i] == self.tasks@[i]@);
            }
            lemma_open_tasks_of_open(self@.tasks);
        }
    }

    /// The data written to disk for the collection.
    pub fn to_collection_data(&self) -> (d: CollectionData)
        ensures
            d@ == self@,
    {
        let mut tasks: Vec<TaskData> = Vec::new();
        let mut i: usize = 0;
        while i < self.tasks.len()
            invariant
                i <= self.tasks.len(),
                task_data_views(tasks@) == task_views(self.tasks@.subrange(0, i as int)),
            decreases self.tasks.len() - i,
        {
            let ghost old_tasks = tasks@;
            let d = self.tasks[i].task_data();
            proof {
                assert(task_views(self.tasks@.subrange(0, i + 1)) =~= task_views(self.tasks@.subrange(0, i as int)).push(d@));
            }
            tasks.push(d);
            assert(task_data_views(tasks@) =~= task_data_views(old_tasks).push(d@));
            i += 1;
        }
        assert(self.tasks@.subrange(0, i as int) =~= self.tasks@);
        assert(task_data_views(tasks@) =~= task_views(self.tasks@));
        CollectionData { title: self.title.clone(), tasks }
    }

    /// The collection that saved data describes.
    pub fn from_collection_data(data: CollectionData) -> (c: Collection)
        ensures
            c@ == data@,
    {
        let CollectionData { title, tasks: records } = data;
        let mut tasks: Vec<Task> = Vec::new();
        let mut i: usize = 0;
        while i < records.len()
            invariant
                i <= records.len(),
                task_views(tasks@) == task_data_views(records@.subrange(0, i as int)),
            decreases records.len() - i,
        {
            let ghost old_tasks = tasks@;
            let r = &records[i];
            let t = Task::new(r.completed, r.content.clone());
            proof {
                assert(task_data_views(records@.subrange(0, i + 1)) =~= task_data_views(records@.subrange(0, i as int)).push(t@));
            }
            tasks.push(t);
            assert(task_views(tasks@) =~= task_views(old_tasks).push(t@));
            i += 1;
        }
        assert(records@.subrange(0, i as int) =~= records@);
        assert(task_views(tasks@) =~= task_data_views(records@));
        Collection { title, tasks }
    }
}

} // verus!
