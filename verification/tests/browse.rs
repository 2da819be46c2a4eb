use nv::app::{Action, InputMode, Key, UIApp};
use nv::cli::{check_open_or_mark, Mode};
use nv::layout::{cursor_at, cursor_position, help_message, project_labels};
use nv::projects::Project;
use nv::shell::editor_command;

fn two() -> Vec<Project> {
    vec![
        Project::new("/a".to_string(), "alpha".to_string()),
        Project::new("/b".to_string(), "beta".to_string()),
    ]
}

fn shown(app: &UIApp) -> Vec<(String, String)> {
    app.projects().iter().map(|p| (p.title.clone(), p.path.clone())).collect()
}

fn pair(title: &str, path: &str) -> (String, String) {
    (title.to_string(), path.to_string())
}

fn typed(text: &str) -> UIApp {
    let mut app = UIApp::new(two());
    for c in text.chars() {
        assert!(matches!(app.handle_key(Key::Char(c)), Action::Refilter));
        app.filter_projects(two());
    }
    app
}

#[test]
fn starts_editing_with_everything_shown() {
    let app = UIApp::new(two());
    assert_eq!(app.input(), "");
    assert_eq!(app.input_mode(), InputMode::Editing);
    assert_eq!(app.log(), "");
    assert_eq!(shown(&app), vec![pair("alpha", "/a"), pair("beta", "/b")]);
}

#[test]
fn typing_al_selects_alpha_and_enter_launches_it() {
    let mut app = typed("al");
    assert_eq!(app.input(), "al");
    assert_eq!(shown(&app), vec![pair("alpha", "/a")]);
    match app.handle_key(Key::Enter) {
        Action::Launch(path) => assert_eq!(path, "/a"),
        other => panic!("unexpected: {:?}", other),
    }
    assert_eq!(app.input_mode(), InputMode::Editing);
}

#[test]
fn empty_input_shows_the_whole_catalog() {
    let mut app = UIApp::new(Vec::new());
    app.filter_projects(two());
    assert_eq!(shown(&app), vec![pair("alpha", "/a"), pair("beta", "/b")]);
}

#[test]
fn enter_with_nothing_shown_launches_nothing() {
    let mut app = typed("zz");
    assert!(app.projects().is_empty());
    assert!(matches!(app.handle_key(Key::Enter), Action::Continue));
    assert_eq!(app.log(), "No project found");
    assert_eq!(app.input_mode(), InputMode::Editing);
    assert_eq!(app.input(), "zz");
    assert!(matches!(app.handle_key(Key::Char('a')), Action::Refilter));
}

#[test]
fn backspace_takes_the_last_character() {
    let mut app = typed("bex");
    assert!(app.projects().is_empty());
    assert!(matches!(app.handle_key(Key::Backspace), Action::Refilter));
    assert_eq!(app.input(), "be");
    app.filter_projects(two());
    assert_eq!(shown(&app), vec![pair("beta", "/b")]);
}

#[test]
fn backspace_on_empty_input_changes_nothing() {
    let mut app = UIApp::new(two());
    assert!(matches!(app.handle_key(Key::Backspace), Action::Refilter));
    assert_eq!(app.input(), "");
}

#[test]
fn filter_is_case_sensitive() {
    let app = typed("AL");
    assert!(app.projects().is_empty());
}

#[test]
fn esc_while_editing_goes_to_normal_and_asks_for_the_catalog() {
    let mut app = typed("al");
    assert!(matches!(app.handle_key(Key::Esc), Action::Reload));
    assert_eq!(app.input_mode(), InputMode::Normal);
    app.show_all(two());
    assert_eq!(shown(&app), vec![pair("alpha", "/a"), pair("beta", "/b")]);
    assert_eq!(app.input(), "al");
}

#[test]
fn esc_in_normal_mode_quits() {
    let mut app = UIApp::new(two());
    app.handle_key(Key::Esc);
    assert!(matches!(app.handle_key(Key::Esc), Action::Quit));
}

#[test]
fn i_starts_editing() {
    let mut app = UIApp::new(two());
    app.handle_key(Key::Esc);
    assert!(matches!(app.handle_key(Key::Char('x')), Action::Continue));
    assert_eq!(app.input_mode(), InputMode::Normal);
    assert_eq!(app.input(), "");
    assert!(matches!(app.handle_key(Key::Char('i')), Action::Continue));
    assert_eq!(app.input_mode(), InputMode::Editing);
    assert_eq!(app.input(), "");
}

#[test]
fn up_goes_to_normal_and_logs_the_path() {
    let mut app = typed("be");
    assert!(matches!(app.handle_key(Key::Up), Action::Continue));
    assert_eq!(app.input_mode(), InputMode::Normal);
    assert_eq!(app.log(), "/b");
}

#[test]
fn up_with_nothing_shown_logs_not_found() {
    let mut app = typed("zz");
    app.handle_key(Key::Up);
    assert_eq!(app.input_mode(), InputMode::Normal);
    assert_eq!(app.log(), "No project found");
}

#[test]
fn enter_in_normal_mode_logs_the_title() {
    let mut app = typed("et");
    app.handle_key(Key::Esc);
    app.show_all(two());
    assert!(matches!(app.handle_key(Key::Enter), Action::Continue));
    assert_eq!(app.log(), "beta");
    assert_eq!(app.input_mode(), InputMode::Normal);
}

#[test]
fn enter_in_normal_mode_without_a_match_logs_not_found() {
    let mut app = typed("zz");
    app.handle_key(Key::Esc);
    app.show_all(two());
    assert!(matches!(app.handle_key(Key::Enter), Action::Continue));
    assert_eq!(app.log(), "No project found");
}

#[test]
fn other_keys_change_nothing() {
    let mut app = typed("al");
    assert!(matches!(app.handle_key(Key::Other), Action::Continue));
    assert_eq!(app.input(), "al");
    assert_eq!(app.input_mode(), InputMode::Editing);
    app.handle_key(Key::Esc);
    for key in [Key::Other, Key::Up, Key::Backspace] {
        assert!(matches!(app.handle_key(key), Action::Continue));
        assert_eq!(app.input_mode(), InputMode::Normal);
        assert_eq!(app.input(), "al");
        assert_eq!(app.log(), "");
    }
}

#[test]
fn get_input_project_finds_the_first_match() {
    let mut app = typed("a");
    assert_eq!(shown(&app), vec![pair("alpha", "/a"), pair("beta", "/b")]);
    let found = app.get_input_project().map(|p| p.title.clone());
    assert_eq!(found, Some("alpha".to_string()));
    assert_eq!(app.log(), "/a");
}

#[test]
fn get_input_project_skips_what_does_not_match() {
    let mut app = typed("et");
    app.show_all(two());
    let found = app.get_input_project().map(|p| p.path.clone());
    assert_eq!(found, Some("/b".to_string()));
    assert_eq!(app.log(), "/b");
}

#[test]
fn get_input_project_without_a_match() {
    let mut app = typed("q");
    app.show_all(two());
    assert!(app.get_input_project().is_none());
    assert_eq!(app.log(), "No project found");
}

#[test]
fn launch_success_quits() {
    let mut app = typed("al");
    app.handle_key(Key::Enter);
    assert!(matches!(app.launch_finished(true), Action::Quit));
    assert_eq!(app.log(), "");
}

#[test]
fn launch_failure_is_logged_and_the_loop_goes_on() {
    let mut app = typed("al");
    app.handle_key(Key::Enter);
    assert!(matches!(app.launch_finished(false), Action::Continue));
    assert_eq!(app.log(), "No project found");
    assert_eq!(app.input_mode(), InputMode::Editing);
    assert_eq!(shown(&app), vec![pair("alpha", "/a")]);
}

#[test]
fn editor_command_for_a_path() {
    assert_eq!(editor_command("/home/u/proj"), "cd /home/u/proj && nvim .");
    assert_eq!(editor_command("a b; c"), "cd a b; c && nvim .");
    assert_eq!(editor_command(""), "cd  && nvim .");
}

#[test]
fn two_arguments_mean_mark() {
    assert_eq!(check_open_or_mark(3), Mode::Mark);
    assert_eq!(check_open_or_mark(1), Mode::Open);
    assert_eq!(check_open_or_mark(0), Mode::Open);
    assert_eq!(check_open_or_mark(2), Mode::Open);
    assert_eq!(check_open_or_mark(4), Mode::Open);
}

#[test]
fn help_line_in_normal_mode() {
    let spans = help_message(InputMode::Normal);
    let expected: Vec<(String, bool)> = [
        ("Press ", false),
        ("ESC", true),
        (" to exit, ", false),
        ("i", true),
        (" to navigate to project.", false),
    ]
    .iter()
    .map(|(t, b)| (t.to_string(), *b))
    .collect();
    assert_eq!(spans, expected);
}

#[test]
fn help_line_while_editing() {
    let spans = help_message(InputMode::Editing);
    let expected: Vec<(String, bool)> = [
        ("Press ", false),
        ("Esc", true),
        (" to stop editing, ", false),
        ("Enter", true),
        (" to record the message", false),
    ]
    .iter()
    .map(|(t, b)| (t.to_string(), *b))
    .collect();
    assert_eq!(spans, expected);
}

#[test]
fn first_label_is_starred() {
    let lines = project_labels(&two());
    assert_eq!(lines, vec!["[ * ] alpha - /a".to_string(), "[ ] beta - /b".to_string()]);
    assert!(project_labels(&Vec::new()).is_empty());
}

#[test]
fn cursor_goes_one_past_the_text() {
    assert_eq!(cursor_at(2, 3, 0), Some((3, 4)));
    assert_eq!(cursor_at(2, 3, 5), Some((8, 4)));
    assert_eq!(cursor_at(0, 0, 65534), Some((65535, 1)));
}

#[test]
fn cursor_off_the_screen_is_none() {
    assert_eq!(cursor_at(0, 0, 65535), None);
    assert_eq!(cursor_at(65535, 0, 0), None);
    assert_eq!(cursor_at(1, 0, 65534), None);
    assert_eq!(cursor_at(0, 65535, 0), None);
    assert_eq!(cursor_at(0, 0, usize::MAX), None);
}

#[test]
fn cursor_counts_columns_not_characters() {
    let mut app = UIApp::new(Vec::new());
    for c in "a日本".chars() {
        app.handle_key(Key::Char(c));
    }
    assert_eq!(cursor_position(&app, 2, 3), Some((8, 4)));
}

#[test]
fn cursor_is_hidden_in_normal_mode() {
    let mut app = typed("al");
    assert_eq!(cursor_position(&app, 2, 3), Some((5, 4)));
    app.handle_key(Key::Esc);
    assert_eq!(cursor_position(&app, 2, 3), None);
}
