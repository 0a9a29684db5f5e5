use todo::{Collection, CollectionData, FilterSetting, Page, Task, TaskData, TaskFilter, TodoWindow};

fn task(completed: bool, content: &str) -> Task {
    Task::new(completed, content.to_string())
}

fn window_with(tasks: Vec<Task>, filter: FilterSetting) -> TodoWindow {
    let mut w = TodoWindow::new(filter);
    assert!(w.new_collection(Some("List".to_string())));
    for t in tasks {
        let done = t.completed;
        assert!(w.new_task(t.content));
        if done {
            let last = w.tasks().len() - 1;
            w.toggle_task(last);
        }
    }
    w
}

fn contents(tasks: &[Task]) -> Vec<(bool, String)> {
    tasks.iter().map(|t| (t.completed, t.content.clone())).collect()
}

fn visible_contents(w: &TodoWindow) -> Vec<String> {
    w.visible_positions().iter().map(|&p| w.tasks()[p].content.clone()).collect()
}

#[test]
fn start_without_saved_file_then_create_collection() {
    let mut w = TodoWindow::new(FilterSetting::All);
    w.restore_data(Vec::new());
    assert_eq!(w.page(), Page::Placeholder);
    assert_eq!(w.current_index(), None);
    assert!(w.collections().is_empty());
    assert!(!w.content_shown());

    assert!(w.new_collection(Some("Work".to_string())));
    assert_eq!(w.page(), Page::Main);
    assert_eq!(w.current_index(), Some(0));
    assert_eq!(w.collections().len(), 1);
    assert_eq!(w.current_collection().title, "Work");
    assert!(w.tasks().is_empty());
    assert!(!w.task_list_visible());
    assert!(w.content_shown());
}

#[test]
fn remove_done_tasks_keeps_open_ones_in_order() {
    let mut w = window_with(vec![task(true, "a"), task(false, "b"), task(true, "c")], FilterSetting::All);
    w.remove_done_tasks();
    assert_eq!(contents(w.tasks()), vec![(false, "b".to_string())]);
}

#[test]
fn remove_done_tasks_twice_is_once() {
    let mut w = window_with(
        vec![task(false, "a"), task(true, "b"), task(true, "c"), task(false, "d"), task(true, "e")],
        FilterSetting::All,
    );
    w.remove_done_tasks();
    let once = contents(w.tasks());
    w.remove_done_tasks();
    assert_eq!(contents(w.tasks()), once);
    assert_eq!(once, vec![(false, "a".to_string()), (false, "d".to_string())]);
}

#[test]
fn remove_done_tasks_on_empty_and_all_done() {
    let mut w = window_with(vec![], FilterSetting::All);
    w.remove_done_tasks();
    assert!(w.tasks().is_empty());
    let mut w = window_with(vec![task(true, "x"), task(true, "y")], FilterSetting::All);
    w.remove_done_tasks();
    assert!(w.tasks().is_empty());
}

#[test]
fn filter_open_then_done_leaves_tasks_alone() {
    let mut w = window_with(vec![task(true, "x"), task(false, "y")], FilterSetting::Open);
    let before = contents(w.tasks());
    assert_eq!(visible_contents(&w), vec!["y".to_string()]);
    w.set_filter(FilterSetting::Done);
    assert_eq!(visible_contents(&w), vec!["x".to_string()]);
    assert_eq!(contents(w.tasks()), before);
    w.set_filter(FilterSetting::All);
    assert_eq!(w.visible_positions(), vec![0, 1]);
}

#[test]
fn empty_task_is_not_added() {
    let mut w = window_with(vec![task(false, "a")], FilterSetting::All);
    assert!(!w.new_task(String::new()));
    assert_eq!(w.tasks().len(), 1);
}

#[test]
fn whitespace_task_is_added_open() {
    let mut w = window_with(vec![], FilterSetting::All);
    assert!(w.new_task("  ".to_string()));
    assert_eq!(contents(w.tasks()), vec![(false, "  ".to_string())]);
    assert!(w.task_list_visible());
}

#[test]
fn toggle_task_flips_only_that_task() {
    let mut w = window_with(vec![task(false, "a"), task(false, "b")], FilterSetting::All);
    w.toggle_task(1);
    assert_eq!(contents(w.tasks()), vec![(false, "a".to_string()), (true, "b".to_string())]);
    w.toggle_task(1);
    assert_eq!(contents(w.tasks()), vec![(false, "a".to_string()), (false, "b".to_string())]);
}

#[test]
fn cancelled_or_empty_collection_changes_nothing() {
    let mut w = TodoWindow::new(FilterSetting::All);
    assert!(!w.new_collection(None));
    assert!(!w.new_collection(Some(String::new())));
    assert_eq!(w.current_index(), None);
    assert_eq!(w.page(), Page::Placeholder);
    assert!(!w.content_shown());
}

#[test]
fn create_response_needs_text() {
    assert!(!TodoWindow::create_response_enabled(""));
    assert!(TodoWindow::create_response_enabled(" "));
    assert!(TodoWindow::create_response_enabled("Home"));
}

#[test]
fn selection_follows_creation_and_selection() {
    let mut w = TodoWindow::new(FilterSetting::All);
    assert!(w.new_collection(Some("A".to_string())));
    assert!(w.new_collection(Some("B".to_string())));
    assert_eq!(w.current_index(), Some(1));
    w.select_collection(0);
    assert_eq!(w.current_index(), Some(0));
    assert_eq!(w.current_collection().title, "A");
    assert!(w.new_task("in A".to_string()));
    assert!(w.new_collection(Some("C".to_string())));
    assert_eq!(w.current_index(), Some(2));
    assert!(w.tasks().is_empty());
    assert_eq!(w.collections()[0].tasks.len(), 1);
    assert_eq!(w.collections()[1].tasks.len(), 0);
}

#[test]
fn saved_records_load_back_the_same() {
    let mut w = TodoWindow::new(FilterSetting::All);
    assert!(w.new_collection(Some("Work".to_string())));
    assert!(w.new_task("report".to_string()));
    assert!(w.new_task("mail".to_string()));
    w.toggle_task(0);
    assert!(w.new_collection(Some("Home".to_string())));
    assert!(w.new_collection(Some("Empty".to_string())));
    assert!(w.new_task("dishes".to_string()));

    let data = w.backup_data();
    assert_eq!(data.len(), 3);
    assert_eq!(data[0].title, "Work");
    assert_eq!(data[0].tasks.len(), 2);
    assert!(data[0].tasks[0].completed);
    assert_eq!(data[0].tasks[1].content, "mail");

    let mut loaded = TodoWindow::new(FilterSetting::Open);
    loaded.restore_data(data);
    assert_eq!(loaded.current_index(), Some(0));
    assert_eq!(loaded.page(), Page::Main);
    assert_eq!(loaded.collections().len(), w.collections().len());
    for (a, b) in loaded.collections().iter().zip(w.collections().iter()) {
        assert_eq!(a.title, b.title);
        assert_eq!(contents(&a.tasks), contents(&b.tasks));
    }
}

#[test]
fn restore_appends_and_makes_first_loaded_current() {
    let mut w = TodoWindow::new(FilterSetting::All);
    assert!(w.new_collection(Some("Old".to_string())));
    let records = vec![
        CollectionData { title: "X".to_string(), tasks: vec![TaskData { completed: true, content: "t".to_string() }] },
        CollectionData { title: "Y".to_string(), tasks: vec![] },
    ];
    w.restore_data(records);
    assert_eq!(w.collections().len(), 3);
    assert_eq!(w.current_index(), Some(1));
    assert_eq!(w.current_collection().title, "X");
    assert_eq!(contents(w.tasks()), vec![(true, "t".to_string())]);
}

#[test]
fn collection_record_round_trip() {
    let c = Collection::new("Groceries".to_string(), vec![task(false, "milk"), task(true, "bread")]);
    let d = c.to_collection_data();
    assert_eq!(d.title, "Groceries");
    let back = Collection::from_collection_data(d);
    assert_eq!(back.title, "Groceries");
    assert_eq!(contents(&back.tasks), vec![(false, "milk".to_string()), (true, "bread".to_string())]);
    let t = Task::from_task_data(back.tasks[1].task_data());
    assert!(t.is_completed());
    assert_eq!(t.content, "bread");
}

#[test]
fn setting_names() {
    assert_eq!(FilterSetting::from_name("All"), Some(FilterSetting::All));
    assert_eq!(FilterSetting::from_name("Open"), Some(FilterSetting::Open));
    assert_eq!(FilterSetting::from_name("Done"), Some(FilterSetting::Done));
    assert_eq!(FilterSetting::from_name("all"), None);
    assert_eq!(FilterSetting::from_name(""), None);
    assert_eq!(FilterSetting::from_name("Done "), None);
}

#[test]
fn each_task_passes_exactly_one_predicate() {
    assert_eq!(FilterSetting::All.filter(), None);
    assert_eq!(FilterSetting::Open.filter(), Some(TaskFilter::Open));
    assert_eq!(FilterSetting::Done.filter(), Some(TaskFilter::Done));
    for t in [task(false, "o"), task(true, "d")] {
        assert_ne!(TaskFilter::Open.accepts(&t), TaskFilter::Done.accepts(&t));
        assert!(FilterSetting::All.shows_task(&t));
        assert_eq!(FilterSetting::Open.shows_task(&t), !t.completed);
        assert_eq!(FilterSetting::Done.shows_task(&t), t.completed);
    }
}

#[test]
fn window_filter_follows_setting() {
    let mut w = TodoWindow::new(FilterSetting::Done);
    assert_eq!(w.filter(), Some(TaskFilter::Done));
    w.set_filter(FilterSetting::All);
    assert_eq!(w.filter_setting(), FilterSetting::All);
    assert_eq!(w.filter(), None);
}

#[test]
fn task_setters() {
    let mut t = task(false, "a");
    t.set_completed(true);
    assert!(t.is_completed());
    t.toggle();
    assert!(!t.is_completed());
    assert_eq!(t.content, "a");
}
