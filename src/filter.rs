use vstd::prelude::*;
use vstd::string::*;
use crate::collection::task_views;
use crate::task::{Task, TaskView};

verus! {

/// Which tasks the window shows, as the settings store names it.
#[derive(Clone, Copy, Debug, PartialEq, Eq, Structural)]
pub enum FilterSetting {
    All,
    Open,
    Done,
}

/// A predicate over tasks; showing every task needs none.
#[derive(Clone, Copy, Debug, PartialEq, Eq, Structural)]
pub enum TaskFilter {
    Open,
    Done,
}

/// Whether a task is shown under a setting.
pub open spec fn shows(setting: FilterSetting, t: TaskView) -> bool {
    match setting {
        FilterSetting::All => true,
        FilterSetting::Open => !t.completed,
        FilterSetting::Done => t.completed,
    }
}

/// The predicate that a setting stands for.
pub open spec fn filter_of(setting: FilterSetting) -> Option<TaskFilter> {
    match setting {
        FilterSetting::All => None,
        FilterSetting::Open => Some(TaskFilter::Open),
        FilterSetting::Done => Some(TaskFilter::Done),
    }
}

/// The setting that a name in the settings store stands for, if any.
pub open spec fn setting_named(name: Seq<char>) -> Option<FilterSetting> {
    if name == "All"@ {
        Some(FilterSetting::All)
    } else if name == "Open"@ {
        Some(FilterSetting::Open)
    } else if name == "Done"@ {
        Some(FilterSetting::Done)
    } else {
        None
    }
}

/// The positions of the tasks of `s` that are shown under `setting`, in order.
pub open spec fn shown_positions(setting: FilterSetting, s: Seq<TaskView>) -> Seq<int>
    decreases s.len(),
{
    if s.len() == 0 {
        Seq::empty()
    } else {
        let before = shown_positions(setting, s.drop_last());
        if shows(setting, s.last()) {
            before.push(s.len() - 1)
        } else {
            before
        }
    }
}

/// The tasks of `s` that are shown under `setting`, in order.
pub open spec fn shown_tasks(setting: FilterSetting, s: Seq<TaskView>) -> Seq<TaskView> {
    s.filter(|t: TaskView| shows(setting, t))
}

impl TaskFilter {
    pub open spec fn accepts_spec(self, t: TaskView) -> bool {
        match self {
            TaskFilter::Open => !t.completed,
            TaskFilter::Done => t.completed,
        }
    }

    pub fn accepts(&self, task: &Task) -> (r: bool)
        ensures
            r == self.accepts_spec(task@),
    {
        match self {
            TaskFilter::Open => !task.is_completed(),
            TaskFilter::Done => task.is_completed(),
        }
    }
}

/// Whether two strings hold the same characters.
fn same_text(a: &str, b: &str) -> (r: bool)
    ensures
        r == (a@ == b@),
{
    let n = a.unicode_len();
    if n != b.unicode_len() {
        return false;
    }
    let mut i: usize = 0;
    while i < n
        invariant
            n == a@.len(),
            n == b@.len(),
            i <= n,
            a@.subrange(0, i as int) == b@.subrange(0, i as int),
        decreases n - i,
    {
        if a.get_char(i) != b.get_char(i) {
            assert(a@[i as int] != b@[i as int]);
            return false;
        }
        assert(a@.subrange(0, i + 1) =~= a@.subrange(0, i as int).push(a@[i as int]));
        assert(b@.subrange(0, i + 1) =~= b@.subrange(0, i as int).push(b@[i as int]));
        i += 1;
    }
    assert(a@ =~= a@.subrange(0, n as int));
    assert(b@ =~= b@.subrange(0, n as int));
    true
}

impl FilterSetting {
    /// Reads a setting from its name in the settings store; other names give `None`.
    pub fn from_name(name: &str) -> (r: Option<FilterSetting>)
        ensures
            r == setting_named(name@),
    {
        proof {
            reveal_strlit("All");
            reveal_strlit("Open");
            reveal_strlit("Done");
        }
        if same_text(name, "All") {
            Some(FilterSetting::All)
        } else if same_text(name, "Open") {
            Some(FilterSetting::Open)
        } else if same_text(name, "Done") {
            Some(FilterSetting::Done)
        } else {
            None
        }
    }

    /// The predicate over tasks for this setting: `None` for `All`.
    pub fn filter(&self) -> (r: Option<TaskFilter>)
        ensures
            r == filter_of(*self),
    {
        match self {
            FilterSetting::All => None,
            FilterSetting::Open => Some(TaskFilter::Open),
            FilterSetting::Done => Some(TaskFilter::Done),
        }
    }

    /// Whether `task` is shown under this setting.
    pub fn shows_task(&self, task: &Task) -> (r: bool)
        ensures
            r == shows(*self, task@),
    {
        match self.filter() {
            None => true,
            Some(f) => f.accepts(task),
        }
    }

    /// The positions in `tasks` of the tasks shown under this setting, in order.
    pub fn visible_positions(&self, tasks: &Vec<Task>) -> (r: Vec<usize>)
        ensures
            r@.map_values(|p: usize| p as int) == shown_positions(*self, task_views(tasks@)),
    {
        let mut r: Vec<usize> = Vec::new();
        let mut i: usize = 0;
        while i < tasks.len()
            invariant
                i <= tasks.len(),
                r@.map_values(|p: usize| p as int) == shown_positions(*self, task_views(tasks@.subrange(0, i as int))),
            decreases tasks.len() - i,
        {
            let ghost before = r@;
            let ghost s = task_views(tasks@.subrange(0, i + 1));
            assert(s.drop_last() =~= task_views(tasks@.subrange(0, i as int)));
            assert(s.last() == tasks@[i as int]@);
            if self.shows_task(&tasks[i]) {
                r.push(i);
                assert(r@.map_values(|p: usize| p as int) =~= before.map_values(|p: usize| p as int).push(i as int));
            }
            i += 1;
        }
        assert(tasks@.subrange(0, i as int) =~= tasks@);
        r
    }
}

/// Under `All` every task is shown; under `Open` or `Done` each task passes
/// exactly one of the two predicates, and the setting's predicate is the one
/// that decides whether it is shown.
pub proof fn lemma_filter_totality(setting: FilterSetting, t: TaskView)
    ensures
        TaskFilter::Open.accepts_spec(t) != TaskFilter::Done.accepts_spec(t),
        setting == FilterSetting::All ==> filter_of(setting) is None && shows(setting, t),
        setting != FilterSetting::All ==> filter_of(setting) is Some && filter_of(setting)->0.accepts_spec(t) == shows(setting, t),
{
}

/// Whether a task is shown depends on the setting and the task alone: the
/// shown tasks are exactly the tasks at the shown positions.
pub proof fn lemma_shown_positions(setting: FilterSetting, s: Seq<TaskView>)
    ensures
        shown_positions(setting, s).map_values(|p: int| s[p]) == shown_tasks(setting, s),
    decreases s.len(),
{
    reveal_with_fuel(Seq::filter, 1);
    if s.len() > 0 {
        let t = s.drop_last();
        lemma_shown_positions(setting, t);
        lemma_shown_positions_bounded(setting, t);
        let p = shown_positions(setting, t);
        assert(p.map_values(|q: int| s[q]) =~= p.map_values(|q: int| t[q]));
        if shows(setting, s.last()) {
            assert(p.push(s.len() - 1).map_values(|q: int| s[q]) =~= p.map_values(|q: int| s[q]).push(s.last()));
        }
    } else {
        assert(shown_tasks(setting, s) =~= Seq::<TaskView>::empty());
    }
}

proof fn lemma_shown_positions_bounded(setting: FilterSetting, s: Seq<TaskView>)
    ensures
        forall|k: int| 0 <= k < shown_positions(setting, s).len() ==> 0 <= #[trigger] shown_positions(setting, s)[k] < s.len(),
    decreases s.len(),
{
    if s.len() > 0 {
        let t = s.drop_last();
        lemma_shown_positions_bounded(setting, t);
        let p = shown_positions(setting, t);
        assert forall|k: int| 0 <= k < shown_positions(setting, s).len() implies 0 <= #[trigger] shown_positions(setting, s)[k] < s.len() by {
            if k < p.len() {
                assert(shown_positions(setting, s)[k] == p[k]);
            }
        }
    }
}

} // verus!
