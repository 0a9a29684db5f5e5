use vstd::prelude::*;
use crate::collection::{lemma_open_tasks_of_open, open_tasks, task_views, Collection, CollectionData, CollectionView};
use crate::filter::{filter_of, shown_positions, FilterSetting, TaskFilter};
use crate::task::{Task, TaskView};

verus! {

/// The page that the window's stack shows.
#[derive(Clone, Copy, Debug, PartialEq, Eq, Structural)]
pub enum Page {
    /// The collections and the tasks of the current one.
    Main,
    /// The hint shown while there is no collection.
    Placeholder,
}

/// What the window's state is to the contracts.
pub struct WindowView {
    pub collections: Seq<CollectionView>,
    /// The position of the current collection.
    pub current: Option<int>,
    pub filter: FilterSetting,
    /// Whether the detail pane with the current collection's tasks was asked for.
    pub show_content: bool,
}

pub open spec fn collection_views(s: Seq<Collection>) -> Seq<CollectionView> {
    s.map_values(|c: Collection| c@)
}

pub open spec fn collection_data_views(s: Seq<CollectionData>) -> Seq<CollectionView> {
    s.map_values(|c: CollectionData| c@)
}

/// The state of a window that has just been built.
pub open spec fn empty_window(filter: FilterSetting) -> WindowView {
    WindowView { collections: Seq::empty(), current: None, filter, show_content: false }
}

impl WindowView {
    /// One collection is current exactly when there is any, and it is one of them.
    pub open spec fn wf(self) -> bool {
        &&& (self.collections.len() == 0 <==> self.current is None)
        &&& (self.current matches Some(i) ==> 0 <= i < self.collections.len())
    }

    pub open spec fn has_current(self) -> bool {
        self.wf() && self.current is Some
    }

    pub open spec fn current_tasks(self) -> Seq<TaskView> {
        self.collections[self.current->0].tasks
    }

    /// The same state with the current collection's tasks replaced by `tasks`.
    pub open spec fn with_current_tasks(self, tasks: Seq<TaskView>) -> WindowView {
        let i = self.current->0;
        WindowView {
            collections: self.collections.update(i, CollectionView { title: self.collections[i].title, tasks }),
            ..self
        }
    }

    /// After a new, empty collection named `title` was created: it is last and current.
    pub open spec fn created(self, title: Seq<char>) -> WindowView {
        WindowView {
            collections: self.collections.push(CollectionView { title, tasks: Seq::empty() }),
            current: Some(self.collections.len() as int),
            show_content: true,
            ..self
        }
    }

    /// After the collection at position `i` was selected.
    pub open spec fn selected(self, i: int) -> WindowView {
        WindowView { current: Some(i), show_content: true, ..self }
    }

    /// After a task with `content` was added to the current collection.
    pub open spec fn task_added(self, content: Seq<char>) -> WindowView {
        self.with_current_tasks(self.current_tasks().push(TaskView { completed: false, content }))
    }

    /// After the completed tasks of the current collection were removed.
    pub open spec fn done_removed(self) -> WindowView {
        self.with_current_tasks(open_tasks(self.current_tasks()))
    }

    /// After the saved collections `data` were loaded: they follow the ones
    /// there were, and the first of them becomes current.
    pub open spec fn restored(self, data: Seq<CollectionView>) -> WindowView {
        WindowView {
            collections: self.collections + data,
            current: if data.len() > 0 {
                Some(self.collections.len() as int)
            } else {
                self.current
            },
            ..self
        }
    }

    pub open spec fn page(self) -> Page {
        if self.collections.len() > 0 {
            Page::Main
        } else {
            Page::Placeholder
        }
    }
}

/// A step that may change which collection is current.
pub enum SelectionStep {
    /// Create a collection with this title.
    Create(Seq<char>),
    /// Select the collection at this position.
    Select(int),
}

impl WindowView {
    /// The state after one step. The window refuses an empty title and a
    /// position that holds no collection, and then nothing changes.
    pub open spec fn step(self, step: SelectionStep) -> WindowView {
        match step {
            SelectionStep::Create(title) => if title.len() > 0 {
                self.created(title)
            } else {
                self
            },
            SelectionStep::Select(i) => if 0 <= i < self.collections.len() {
                self.selected(i)
            } else {
                self
            },
        }
    }

    /// The state after the steps, in order.
    pub open spec fn run(self, steps: Seq<SelectionStep>) -> WindowView
        decreases steps.len(),
    {
        if steps.len() == 0 {
            self
        } else {
            self.run(steps.drop_last()).step(steps.last())
        }
    }
}

/// After any sequence of creations and selections, starting from a
/// well-formed state (a new window is one), exactly one collection is
/// current when there is any, and none when there is none.
pub proof fn lemma_selection_invariant(start: WindowView, steps: Seq<SelectionStep>)
    requires
        start.wf(),
    ensures
        start.run(steps).wf(),
        start.run(steps).collections.len() > 0 <==> start.run(steps).current is Some,
        start.run(steps).current matches Some(i) ==> 0 <= i < start.run(steps).collections.len(),
    decreases steps.len(),
{
    if steps.len() > 0 {
        lemma_selection_invariant(start, steps.drop_last());
    }
}

/// Removing the completed tasks a second time changes nothing more.
pub proof fn lemma_remove_done_idempotent(s: WindowView)
    requires
        s.has_current(),
    ensures
        s.done_removed().done_removed() == s.done_removed(),
{
    let kept = open_tasks(s.current_tasks());
    broadcast use vstd::seq_lib::group_filter_ensures;
    lemma_open_tasks_of_open(kept);
    let once = s.done_removed();
    assert(once.current_tasks() == kept);
    assert(once.done_removed().collections =~= once.collections);
}

/// Loading into a new window the records that a window saved gives back its
/// collections, titles and tasks in the same order, with the first one current.
pub proof fn lemma_round_trip(saved: WindowView, filter: FilterSetting)
    requires
        saved.wf(),
    ensures
        empty_window(filter).restored(saved.collections).collections == saved.collections,
        empty_window(filter).restored(saved.collections).wf(),
        empty_window(filter).restored(saved.collections).current == (if saved.collections.len() > 0 {
            Some(0int)
        } else {
            None
        }),
{
    assert(Seq::<CollectionView>::empty() + saved.collections =~= saved.collections);
}

/// The state behind the main window: the collections, the current one, and
/// the filter that picks the tasks to show.
pub struct TodoWindow {
    collections: Vec<Collection>,
    current: Option<usize>,
    filter: FilterSetting,
    show_content: bool,
}

impl View for TodoWindow {
    type V = WindowView;

    closed spec fn view(&self) -> WindowView {
        WindowView {
            collections: collection_views(self.collections@),
            current: match self.current {
                Some(i) => Some(i as int),
                None => None,
            },
            filter: self.filter,
            show_content: self.show_content,
        }
    }
}

impl TodoWindow {
    /// A window with no collection yet.
    pub fn new(filter: FilterSetting) -> (w: TodoWindow)
        ensures
            w@ == empty_window(filter),
            w@.wf(),
    {
        let w = TodoWindow { collections: Vec::new(), current: None, filter, show_content: false };
        assert(w@.collections =~= Seq::<CollectionView>::empty());
        w
    }

    pub fn collections(&self) -> (r: &Vec<Collection>)
        ensures
            collection_views(r@) == self@.collections,
    {
        &self.collections
    }

    /// The position of the current collection, to select its row.
    pub fn current_index(&self) -> (r: Option<usize>)
        ensures
            r is Some == self@.current is Some,
            r is Some ==> r->0 as int == self@.current->0,
    {
        self.current
    }

    pub fn current_collection(&self) -> (r: &Collection)
        requires
            self@.has_current(),
        ensures
            r@ == self@.collections[self@.current->0],
    {
        let i = self.current.unwrap();
        &self.collections[i]
    }

    /// The tasks of the current collection.
    pub fn tasks(&self) -> (r: &Vec<Task>)
        requires
            self@.has_current(),
        ensures
            task_views(r@) == self@.current_tasks(),
    {
        &self.current_collection().tasks
    }

    pub fn filter_setting(&self) -> (r: FilterSetting)
        ensures
            r == self@.filter,
    {
        self.filter
    }

    /// The predicate that picks the shown tasks: `None` shows them all.
    pub fn filter(&self) -> (r: Option<TaskFilter>)
        ensures
            r == filter_of(self@.filter),
    {
        self.filter.filter()
    }

    /// Takes a new filter setting; no task changes.
    pub fn set_filter(&mut self, setting: FilterSetting)
        ensures
            final(self)@ == (WindowView { filter: setting, ..old(self)@ }),
    {
        self.filter = setting;
    }

    pub fn content_shown(&self) -> (r: bool)
        ensures
            r == self@.show_content,
    {
        self.show_content
    }

    /// The page to show: the main one once there is a collection.
    pub fn page(&self) -> (r: Page)
        ensures
            r == self@.page(),
    {
        if self.collections.len() > 0 {
            Page::Main
        } else {
            Page::Placeholder
        }
    }

    /// The task list is shown when the current collection has a task.
    pub fn task_list_visible(&self) -> (r: bool)
        requires
            self@.has_current(),
        ensures
            r == (self@.current_tasks().len() > 0),
    {
        self.tasks().len() > 0
    }

    /// The positions in the current collection of the tasks that the filter shows.
    pub fn visible_positions(&self) -> (r: Vec<usize>)
        requires
            self@.has_current(),
        ensures
            r@.map_values(|p: usize| p as int) == shown_positions(self@.filter, self@.current_tasks()),
    {
        self.filter.visible_positions(self.tasks())
    }

    /// Whether the dialog for a new collection may create one from `text`.
    pub fn create_response_enabled(text: &str) -> (r: bool)
        ensures
            r == (text@.len() > 0),
    {
        !text.is_empty()
    }

    /// Makes the collection at `index` current and asks for its tasks to be shown.
    pub fn select_collection(&mut self, index: usize)
        requires
            old(self)@.wf(),
            index < old(self)@.collections.len(),
        ensures
            final(self)@ == old(self)@.selected(index as int),
            final(self)@.wf(),
    {
        self.current = Some(index);
        self.show_content = true;
    }

    /// Ends the dialog for a new collection: `None` is its cancel, and nothing
    /// changes. A non-empty title adds an empty collection, which becomes
    /// current; an empty one is refused.
    pub fn new_collection(&mut self, response: Option<String>) -> (created: bool)
        requires
            old(self)@.wf(),
        ensures
            final(self)@.wf(),
            created == (response matches Some(t) && t@.len() > 0),
            created ==> final(self)@ == old(self)@.created(response->0@),
            !created ==> final(self)@ == old(self)@,
    {
        match response {
            None => false,
            Some(title) => {
                if !Self::create_response_enabled(title.as_str()) {
                    return false;
                }
                let collection = Collection::new(title, Vec::new());
                assert(collection@.tasks =~= Seq::<TaskView>::empty());
                self.collections.push(collection);
                self.current = Some(self.collections.len() - 1);
                self.show_content = true;
                assert(collection_views(self.collections@) =~= collection_views(old(self).collections@).push(collection@));
                true
            },
        }
    }

    /// Adds an open task with `content` to the current collection; empty
    /// content adds nothing.
    pub fn new_task(&mut self, content: String) -> (added: bool)
        requires
            old(self)@.has_current(),
        ensures
            final(self)@.wf(),
            added == (content@.len() > 0),
            added ==> final(self)@ == old(self)@.task_added(content@),
            !added ==> final(self)@ == old(self)@,
    {
        if content.as_str().is_empty() {
            return false;
        }
        let ghost cont = content@;
        let i = self.current.unwrap();
        let task = Task::new(false, content);
        self.collections[i].append_task(task);
        assert(collection_views(self.collections@) =~= old(self)@.task_added(cont).collections);
        true
    }

    /// Flips the completion flag of the task at `position` in the current collection.
    pub fn toggle_task(&mut self, position: usize)
        requires
            old(self)@.has_current(),
            position < old(self)@.current_tasks().len(),
        ensures
            final(self)@.wf(),
            final(self)@ == old(self)@.with_current_tasks(
                old(self)@.current_tasks().update(
                    position as int,
                    TaskView {
                        completed: !old(self)@.current_tasks()[position as int].completed,
                        content: old(self)@.current_tasks()[position as int].content,
                    },
                ),
            ),
    {
        let i = self.current.unwrap();
        let ghost t = old(self)@.current_tasks()[position as int];
        self.collections[i].toggle_task(position);
        assert(collection_views(self.collections@) =~= old(self)@.with_current_tasks(
            old(self)@.current_tasks().update(position as int, TaskView { completed: !t.completed, content: t.content }),
        ).collections);
    }

    /// Removes the completed tasks of the current collection, keeping the
    /// others in their order.
    pub fn remove_done_tasks(&mut self)
        requires
            old(self)@.has_current(),
        ensures
            final(self)@.wf(),
            final(self)@ == old(self)@.done_removed(),
    {
        let i = self.current.unwrap();
        self.collections[i].remove_done_tasks();
        assert(collection_views(self.collections@) =~= old(self)@.done_removed().collections);
    }

    /// The records to save for every collection, in order.
    pub fn backup_data(&self) -> (r: Vec<CollectionData>)
        ensures
            collection_data_views(r@) == self@.collections,
    {
        let mut r: Vec<CollectionData> = Vec::new();
        let mut i: usize = 0;
        while i < self.collections.len()
            invariant
                i <= self.collections.len(),
                collection_data_views(r@) == collection_views(self.collections@.subrange(0, i as int)),
            decreases self.collections.len() - i,
        {
            let ghost before = r@;
            let d = self.collections[i].to_collection_data();
            proof {
                assert(collection_views(self.collections@.subrange(0, i + 1))
                    =~= collection_views(self.collections@.subrange(0, i as int)).push(d@));
            }
            r.push(d);
            assert(collection_data_views(r@) =~= collection_data_views(before).push(d@));
            i += 1;
        }
        assert(self.collections@.subrange(0, i as int) =~= self.collections@);
        r
    }

    /// Loads saved collections after the ones there are; the first of them
    /// becomes current.
    pub fn restore_data(&mut self, data: Vec<CollectionData>)
        requires
            old(self)@.wf(),
        ensures
            final(self)@ == old(self)@.restored(collection_data_views(data@)),
            final(self)@.wf(),
    {
        let first = self.collections.len();
        let mut rest = data;
        let ghost all = collection_data_views(rest@);
        let mut loaded: usize = 0;
        assert(all.len() == rest.len());
        while rest.len() > 0
            invariant
                loaded <= all.len() <= usize::MAX,
                first <= self.collections.len(),
                collection_views(self.collections@) == old(self)@.collections + all.subrange(0, loaded as int),
                collection_data_views(rest@) == all.subrange(loaded as int, all.len() as int),
                self.current == old(self).current,
                self.filter == old(self).filter,
                self.show_content == old(self).show_content,
                old(self)@.collections.len() == first,
            decreases rest.len(),
        {
            let ghost before = self.collections@;
            let ghost left = rest@;
            assert(collection_data_views(left).len() == left.len());
            assert(loaded < all.len());
            let d = rest.remove(0);
            assert(collection_data_views(rest@) =~= all.subrange(loaded + 1, all.len() as int)) by {
                assert(rest@ =~= left.subrange(1, left.len() as int));
                assert(collection_data_views(left) == all.subrange(loaded as int, all.len() as int));
                assert forall|k: int| 0 <= k < rest@.len() implies #[trigger] collection_data_views(rest@)[k] == all[loaded + 1 + k] by {
                    assert(rest@[k] == left[k + 1]);
                    assert(collection_data_views(left)[k + 1] == all[loaded + 1 + k]);
                }
            }
            assert(d@ == all[loaded as int]) by {
                assert(d == left[0]);
                assert(collection_data_views(left)[0] == all.subrange(loaded as int, all.len() as int)[0]);
            }
            let c = Collection::from_collection_data(d);
            self.collections.push(c);
            assert(collection_views(self.collections@) =~= collection_views(before).push(c@));
            assert(all.subrange(0, loaded + 1) =~= all.subrange(0, loaded as int).push(all[loaded as int]));
            loaded += 1;
        }
        assert(loaded == all.len()) by {
            assert(collection_data_views(rest@).len() == 0);
        }
        assert(all.subrange(0, loaded as int) =~= all);
        if loaded > 0 {
            self.current = Some(first);
        }
    }
}

} // verus!
