use fls::{
    has_distinct_paths, Action, File, FileDeleteError, Fls, Key, KeyEvent, Message, Mode, OpenError, SearchMode,
    SettingsInputKind, Task, View, MAX_SCORE,
};

fn entry(dir: &str, name: &str, is_dir: bool) -> File {
    File::new(
        name.to_string(),
        1,
        format!("{}/{}", dir, name),
        dir.to_string(),
        is_dir,
    )
}

fn loaded(names: &[(&str, bool)]) -> Fls {
    let (mut app, task) = Fls::new("/home/u".to_string());
    assert!(matches!(task, Task::GetFiles(ref p, 0) if p == "/home/u"));
    let files = names.iter().map(|(n, d)| entry("/home/u", n, *d)).collect();
    let tasks = app.update(Message::FilesLoaded(0, files));
    assert!(tasks.is_empty());
    app
}

fn names(app: &Fls) -> Vec<String> {
    app.files().into_iter().map(|f| f.data.name).collect()
}

fn press(key_code: Key) -> Message {
    Message::KeyEvent(KeyEvent::KeyPressed { key_code, ctrl: false })
}

fn hover_ok(app: &Fls) -> bool {
    let n = app.visible_count();
    if n == 0 {
        app.hovered == 0
    } else {
        app.hovered < n
    }
}

#[test]
fn new_controller_is_normal_and_empty() {
    let (app, _) = Fls::new("/tmp".to_string());
    assert_eq!(app.mode, Mode::Normal);
    assert!(app.search_term.is_empty());
    assert_eq!(app.hovered, 0);
    assert!(!app.should_exit);
    assert_eq!(app.visible_count(), 0);
    assert_eq!(app.generation, 0);
    assert!(matches!(app.curr_view, View::MainView));
}

#[test]
fn listing_installs_everything_visible() {
    let app = loaded(&[("a.txt", false), ("b.txt", false), ("notes", true)]);
    assert_eq!(names(&app), vec!["a.txt", "b.txt", "notes"]);
    assert!(app.files().iter().all(|f| f.curr_score == MAX_SCORE && !f.selected));
    assert_eq!(app.hovered, 0);
}

#[test]
fn search_example_filters_and_restores() {
    let mut app = loaded(&[("a.txt", false), ("b.txt", false), ("notes", true)]);
    assert_eq!(names(&app), vec!["a.txt", "b.txt", "notes"]);
    assert_eq!(app.hovered, 0);
    app.take_action(Action::AddToSearch('b'));
    assert_eq!(names(&app), vec!["b.txt"]);
    assert_eq!(app.hovered, 0);
    app.take_action(Action::PopFromSearch);
    assert_eq!(names(&app), vec!["a.txt", "b.txt", "notes"]);
    assert_eq!(app.hovered, 0);
}

#[test]
fn pop_on_empty_term_is_harmless() {
    let mut app = loaded(&[("a", false), ("b", false)]);
    app.take_action(Action::Down);
    app.take_action(Action::PopFromSearch);
    assert!(app.search_term.is_empty());
    assert_eq!(app.visible_count(), 2);
    assert_eq!(app.hovered, 1);
}

#[test]
fn clearing_term_restores_all_at_max() {
    let mut app = loaded(&[("alpha", false), ("beta", false), ("gamma", false)]);
    app.take_action(Action::NewMode(Mode::Search(SearchMode::Regular)));
    app.take_action(Action::AddToSearch('b'));
    assert_eq!(app.visible_count(), 1);
    app.take_action(Action::NewMode(Mode::Normal));
    assert!(app.search_term.is_empty());
    assert_eq!(app.visible_count(), 3);
    assert!(app.files().iter().all(|f| f.curr_score == MAX_SCORE));
}

#[test]
fn down_and_up_clamp() {
    let mut app = loaded(&[("a", false), ("b", false), ("c", false)]);
    app.take_action(Action::Up);
    assert_eq!(app.hovered, 0);
    app.take_action(Action::Down);
    assert_eq!(app.hovered, 1);
    app.take_action(Action::Down);
    assert_eq!(app.hovered, 2);
    app.take_action(Action::Down);
    assert_eq!(app.hovered, 2);
    app.take_action(Action::Up);
    assert_eq!(app.hovered, 1);
}

#[test]
fn moves_on_empty_store_do_nothing() {
    let (mut app, _) = Fls::new("/tmp".to_string());
    app.take_action(Action::Down);
    assert_eq!(app.hovered, 0);
    app.take_action(Action::Up);
    assert_eq!(app.hovered, 0);
    assert!(app.take_action(Action::Open).is_empty());
    assert!(app.take_action(Action::Delete).is_empty());
    app.take_action(Action::ToggleCurrent);
    assert_eq!(app.visible_count(), 0);
}

#[test]
fn hover_stays_in_range_over_a_session() {
    let mut app = loaded(&[("a", false), ("b", false), ("bb", false), ("c", false)]);
    let actions = vec![
        Action::Down,
        Action::Down,
        Action::Down,
        Action::Down,
        Action::AddToSearch('b'),
        Action::Down,
        Action::Down,
        Action::ToggleCurrent,
        Action::Delete,
        Action::Up,
        Action::PopFromSearch,
        Action::Down,
        Action::Down,
        Action::Down,
        Action::Delete,
        Action::NewMode(Mode::Normal),
        Action::Up,
    ];
    for a in actions {
        app.take_action(a);
        assert!(hover_ok(&app));
    }
}

#[test]
fn deleting_hovered_waits_for_result() {
    let mut app = loaded(&[("a", false), ("b", true), ("c", false)]);
    app.take_action(Action::Down);
    assert_eq!(app.hovered, 1);
    let tasks = app.take_action(Action::Delete);
    assert_eq!(tasks.len(), 1);
    assert!(matches!(tasks[0], Task::Delete(ref p, true) if p == "/home/u/b"));
    assert_eq!(app.visible_count(), 3);

    let mut failed = loaded(&[("a", false), ("b", true), ("c", false)]);
    failed.take_action(Action::Down);
    failed.update(Message::FileDeleteResult(Err(FileDeleteError("/home/u/b".to_string()))));
    assert_eq!(failed.visible_count(), 3);
    assert_eq!(failed.hovered, 1);
    assert_eq!(failed.delete_failures.len(), 1);
    assert_eq!(failed.delete_failures[0].0, "/home/u/b");

    app.update(Message::FileDeleteResult(Ok("/home/u/b".to_string())));
    assert_eq!(app.visible_count(), 2);
    assert!(app.hovered <= 1);
    assert!(app.files().iter().all(|f| f.data.path != "/home/u/b"));
    assert!(app.delete_failures.is_empty());
}

#[test]
fn deleting_last_row_clamps_hover() {
    let mut app = loaded(&[("a", false), ("b", false), ("c", false)]);
    app.take_action(Action::Down);
    app.take_action(Action::Down);
    app.take_action(Action::Delete);
    app.update(Message::FileDeleteResult(Ok("/home/u/c".to_string())));
    assert_eq!(app.visible_count(), 2);
    assert_eq!(app.hovered, 1);
}

fn batch_with(order: &[usize]) -> Vec<String> {
    let mut app = loaded(&[("a", false), ("b", false), ("c", false), ("d", false), ("e", false)]);
    app.take_action(Action::Down);
    app.take_action(Action::ToggleCurrent);
    app.take_action(Action::Down);
    app.take_action(Action::Down);
    app.take_action(Action::ToggleCurrent);
    let tasks = app.take_action(Action::Delete);
    let paths: Vec<String> = tasks
        .iter()
        .map(|t| match t {
            Task::Delete(p, false) => p.clone(),
            _ => panic!("expected a delete"),
        })
        .collect();
    assert_eq!(paths, vec!["/home/u/b", "/home/u/d"]);
    assert_eq!(names(&app), vec!["a", "c", "e"]);
    for &i in order {
        app.update(Message::FileDeleteResult(Ok(paths[i].clone())));
        assert!(hover_ok(&app));
    }
    names(&app)
}

#[test]
fn batch_delete_is_order_free() {
    assert_eq!(batch_with(&[0, 1]), vec!["a", "c", "e"]);
    assert_eq!(batch_with(&[1, 0]), vec!["a", "c", "e"]);
}

#[test]
fn batch_delete_failure_keeps_others() {
    let mut app = loaded(&[("a", false), ("b", false), ("c", false)]);
    app.take_action(Action::ToggleCurrent);
    app.take_action(Action::Down);
    app.take_action(Action::ToggleCurrent);
    let tasks = app.take_action(Action::Delete);
    assert_eq!(tasks.len(), 2);
    app.update(Message::FileDeleteResult(Err(FileDeleteError("/home/u/b".to_string()))));
    app.update(Message::FileDeleteResult(Ok("/home/u/a".to_string())));
    assert_eq!(names(&app), vec!["c"]);
    assert_eq!(app.delete_failures.len(), 1);
    assert_eq!(app.hovered, 0);
}

#[test]
fn stale_listing_is_dropped() {
    let mut app = loaded(&[("x", true), ("f.txt", false)]);
    let opened = app.take_action(Action::Open);
    let g1 = match &opened[..] {
        [Task::GetFiles(p, g)] => {
            assert_eq!(p, "/home/u/x");
            *g
        }
        _ => panic!("expected a listing"),
    };
    assert_eq!(app.current_dir, "/home/u/x");
    let up = app.take_action(Action::UpDir);
    let g2 = match &up[..] {
        [Task::GetFiles(p, g)] => {
            assert_eq!(p, "/home/u");
            *g
        }
        _ => panic!("expected a listing"),
    };
    assert_ne!(g1, g2);
    app.update(Message::FilesLoaded(g1, vec![entry("/home/u/x", "inner", false)]));
    assert_eq!(app.visible_count(), 0);
    app.update(Message::FilesLoaded(g2, vec![entry("/home/u", "x", true)]));
    assert_eq!(names(&app), vec!["x"]);
}

#[test]
fn opening_a_file_asks_the_opener() {
    let mut app = loaded(&[("x", true), ("f.txt", false)]);
    app.take_action(Action::Down);
    let tasks = app.take_action(Action::Open);
    assert!(matches!(&tasks[..], [Task::Open(p)] if p == "/home/u/f.txt"));
    assert_eq!(app.current_dir, "/home/u");
    assert_eq!(app.visible_count(), 2);
    app.update(Message::FileOpenResult(Err(OpenError("/home/u/f.txt".to_string()))));
    assert_eq!(app.open_failures.len(), 1);
    assert_eq!(app.visible_count(), 2);
    assert_eq!(app.hovered, 1);
}

#[test]
fn navigation_resets_state() {
    let mut app = loaded(&[("x", true), ("f.txt", false)]);
    app.take_action(Action::NewMode(Mode::Search(SearchMode::Regular)));
    app.take_action(Action::AddToSearch('x'));
    let tasks = app.take_action(Action::Open);
    assert_eq!(tasks.len(), 1);
    assert_eq!(app.mode, Mode::Normal);
    assert!(app.search_term.is_empty());
    assert_eq!(app.hovered, 0);
    assert_eq!(app.generation, 1);
    assert_eq!(app.visible_count(), 0);
}

#[test]
fn up_from_root_does_nothing() {
    let (mut app, _) = Fls::new("/".to_string());
    assert!(app.take_action(Action::UpDir).is_empty());
    assert_eq!(app.current_dir, "/");
    assert_eq!(app.generation, 0);
}

#[test]
fn listing_failure_marks_directory() {
    let (mut app, _) = Fls::new("/locked".to_string());
    app.update(Message::ListingFailed(7));
    assert!(!app.unreadable);
    app.update(Message::ListingFailed(0));
    assert!(app.unreadable);
    assert_eq!(app.visible_count(), 0);
}

#[test]
fn keys_drive_search_mode() {
    let mut app = loaded(&[("a.txt", false), ("b.txt", false), ("notes", true)]);
    app.update(press(Key::Slash));
    assert_eq!(app.mode, Mode::Search(SearchMode::Regular));
    app.update(Message::KeyEvent(KeyEvent::CharacterReceived('b')));
    app.update(Message::KeyEvent(KeyEvent::CharacterReceived('1')));
    assert_eq!(app.search_term, vec!['b']);
    assert_eq!(names(&app), vec!["b.txt"]);
    app.update(press(Key::Enter));
    assert_eq!(app.mode, Mode::Normal);
    assert_eq!(app.search_term, vec!['b']);
    assert_eq!(names(&app), vec!["b.txt"]);
    app.update(press(Key::S));
    app.update(press(Key::Backspace));
    assert!(app.search_term.is_empty());
    app.update(Message::KeyEvent(KeyEvent::CharacterReceived('n')));
    assert_eq!(names(&app), vec!["notes"]);
    app.update(press(Key::Escape));
    assert_eq!(app.mode, Mode::Normal);
    assert!(app.search_term.is_empty());
    assert_eq!(app.visible_count(), 3);
}

#[test]
fn quit_stops_input() {
    let mut app = loaded(&[("a", false), ("b", false)]);
    app.update(press(Key::Q));
    assert!(app.should_exit);
    app.update(press(Key::E));
    assert_eq!(app.hovered, 0);
}

#[test]
fn settings_screen_edits_colors() {
    let mut app = loaded(&[("a", false)]);
    app.update(Message::KeyEvent(KeyEvent::KeyPressed { key_code: Key::S, ctrl: true }));
    assert!(matches!(app.curr_view, View::Settings(_)));
    assert_eq!(app.mode, Mode::Normal);
    app.update(Message::ColorInput(SettingsInputKind::PrimaryColor, "#112233".to_string()));
    app.update(Message::ColorInput(SettingsInputKind::SecondaryColor, "#445566".to_string()));
    let tasks = app.update(Message::SubmitColor(SettingsInputKind::SecondaryColor));
    assert!(matches!(&tasks[..], [Task::SetColor(SettingsInputKind::SecondaryColor, t)] if t == "#445566"));
    app.update(press(Key::E));
    assert_eq!(app.hovered, 0);
    app.update(Message::KeyEvent(KeyEvent::KeyPressed { key_code: Key::S, ctrl: true }));
    assert!(matches!(app.curr_view, View::MainView));
    assert!(app.update(Message::SubmitColor(SettingsInputKind::PrimaryColor)).is_empty());
}

#[test]
fn navigate_stamps_new_generation() {
    let mut app = loaded(&[("a", false)]);
    app.take_action(Action::ToggleCurrent);
    app.update(Message::FileOpenResult(Err(OpenError("/home/u/a".to_string()))));
    let tasks = app.navigate("/srv".to_string());
    assert!(matches!(&tasks[..], [Task::GetFiles(p, 1)] if p == "/srv"));
    assert_eq!(app.current_dir, "/srv");
    assert_eq!(app.generation, 1);
    assert_eq!(app.visible_count(), 0);
    assert!(app.open_failures.is_empty());
    app.update(Message::FilesLoaded(0, vec![entry("/home/u", "old", false)]));
    assert_eq!(app.visible_count(), 0);
    app.update(Message::FilesLoaded(1, vec![entry("/srv", "new", false)]));
    assert_eq!(names(&app), vec!["new"]);
}

#[test]
fn quit_survives_navigation() {
    let mut app = loaded(&[("x", true), ("f.txt", false)]);
    app.take_action(Action::Quit);
    let tasks = app.take_action(Action::Open);
    assert_eq!(tasks.len(), 1);
    assert_eq!(app.current_dir, "/home/u/x");
    assert!(app.should_exit);
    app.take_action(Action::UpDir);
    assert!(app.should_exit);
}

#[test]
fn listing_with_shared_paths_is_refused() {
    let mut app = loaded(&[("a", false), ("b", false)]);
    app.take_action(Action::Down);
    let twice = vec![entry("/home/u", "c", false), entry("/home/u", "c", false)];
    assert!(!has_distinct_paths(&twice));
    app.update(Message::FilesLoaded(0, twice));
    assert!(app.unreadable);
    assert_eq!(names(&app), vec!["a", "b"]);
    assert_eq!(app.hovered, 1);
    app.update(Message::FilesLoaded(0, vec![entry("/home/u", "c", false)]));
    assert!(!app.unreadable);
    assert_eq!(names(&app), vec!["c"]);
}

#[test]
fn distinct_path_check() {
    assert!(has_distinct_paths(&vec![]));
    assert!(has_distinct_paths(&vec![entry("/d", "a", false), entry("/d", "b", true)]));
    assert!(!has_distinct_paths(&vec![
        entry("/d", "a", false),
        entry("/d", "b", false),
        entry("/d", "a", true),
    ]));
}
