//! The interactive side: what is on screen, and what each key does to it.
//! The loop that reads keys, draws and starts the editor stays with the
//! caller; every decision it needs is made here.

use crate::projects::{
    entries, filter_by_title, lemma_visible_settles, title_contains, visible, Entry, Project,
};
use crate::text::{contains_text, is_substring};
use vstd::prelude::*;
use vstd::string::StringExecFns;

verus! {

/// Whether keys navigate or edit the input.
#[derive(Clone, Copy, Debug, PartialEq, Eq, Structural)]
pub enum InputMode {
    Normal,
    Editing,
}

/// A key press, as far as the launcher tells keys apart.
#[derive(Clone, Copy, Debug, PartialEq, Eq, Structural)]
pub enum Key {
    Char(char),
    Enter,
    Esc,
    Backspace,
    Up,
    Other,
}

/// What the caller is asked to do after a key, as plain data.
pub enum Step {
    Continue,
    Refilter,
    Reload,
    Launch(Seq<char>),
    Quit,
}

/// What the caller is asked to do after a key.
#[derive(Debug)]
pub enum Action {
    /// Draw again and wait for the next key.
    Continue,
    /// Read the catalog and hand it to `filter_projects`.
    Refilter,
    /// Read the catalog and hand it to `show_all`.
    Reload,
    /// Open the editor in this path, then report to `launch_finished`.
    Launch(String),
    /// Leave the loop.
    Quit,
}

impl View for Action {
    type V = Step;

    open spec fn view(&self) -> Step {
        match self {
            Action::Continue => Step::Continue,
            Action::Refilter => Step::Refilter,
            Action::Reload => Step::Reload,
            Action::Launch(path) => Step::Launch(path@),
            Action::Quit => Step::Quit,
        }
    }
}

/// What is on screen, as plain data.
pub struct Screen {
    pub input: Seq<char>,
    pub mode: InputMode,
    pub projects: Seq<Entry>,
    pub log: Seq<char>,
}

/// The state of the interactive launcher.
pub struct UIApp {
    input: String,
    input_mode: InputMode,
    projects: Vec<Project>,
    log: String,
}

impl View for UIApp {
    type V = Screen;

    closed spec fn view(&self) -> Screen {
        Screen {
            input: self.input@,
            mode: self.input_mode,
            projects: entries(self.projects@),
            log: self.log@,
        }
    }
}

/// The status shown when nothing can be opened.
pub open spec fn not_found_notice() -> Seq<char> {
    "No project found"@
}

/// The current selection of a shown list under an input: the first
/// project whose title contains the input.
pub open spec fn selection(projects: Seq<Entry>, input: Seq<char>) -> Option<Entry> {
    let matching = visible(projects, input);
    if matching.len() > 0 {
        Some(matching[0])
    } else {
        None
    }
}

/// Where `i` is the first position of `projects` whose title contains
/// `input`, that project is the selection.
pub proof fn lemma_first_match_is_selection(projects: Seq<Entry>, input: Seq<char>, i: int)
    requires
        0 <= i < projects.len(),
        is_substring(input, projects[i].title),
        forall|j: int| 0 <= j < i ==> !is_substring(input, #[trigger] projects[j].title),
    ensures
        selection(projects, input) == Some(projects[i]),
{
    let pred = title_contains(input);
    let head = projects.take(i);
    let rest = projects.skip(i + 1);
    lemma_none_visible(head, input);
    head.lemma_filter_push(projects[i], pred);
    assert(head.push(projects[i]) + rest =~= projects);
    Seq::filter_distributes_over_add(head.push(projects[i]), rest, pred);
    assert(visible(projects, input)[0] == projects[i]);
}

/// After the list has been filtered by the input, the selection is the
/// first project shown, and there is none exactly when nothing is shown.
pub proof fn lemma_selection_is_first_shown(catalog: Seq<Entry>, input: Seq<char>)
    ensures
        selection(visible(catalog, input), input) == if visible(catalog, input).len() > 0 {
            Some(visible(catalog, input)[0])
        } else {
            None
        },
{
    lemma_visible_settles(catalog, input);
}

/// Where no title of `projects` contains `input`, nothing is visible.
pub proof fn lemma_none_visible(projects: Seq<Entry>, input: Seq<char>)
    requires
        forall|j: int| 0 <= j < projects.len() ==> !is_substring(input, #[trigger] projects[j].title),
    ensures
        visible(projects, input).len() == 0,
    decreases projects.len(),
{
    reveal(Seq::filter);
    if projects.len() > 0 {
        lemma_none_visible(projects.drop_last(), input);
    }
}

impl UIApp {
    /// The launcher as it starts: editing an empty input, all of
    /// `projects` shown, nothing logged.
    pub fn new(projects: Vec<Project>) -> (app: UIApp)
        ensures
            app@ == (Screen {
                input: Seq::empty(),
                mode: InputMode::Editing,
                projects: entries(projects@),
                log: Seq::empty(),
            }),
    {
        UIApp { input: String::new(), input_mode: InputMode::Editing, projects, log: String::new() }
    }

    /// The text typed so far.
    pub fn input(&self) -> (text: &str)
        ensures
            text@ == self@.input,
    {
        self.input.as_str()
    }

    /// The current mode.
    pub fn input_mode(&self) -> (mode: InputMode)
        ensures
            mode == self@.mode,
    {
        self.input_mode
    }

    /// The projects shown, the selection first.
    pub fn projects(&self) -> (shown: &Vec<Project>)
        ensures
            entries(shown@) == self@.projects,
    {
        &self.projects
    }

    /// The status line.
    pub fn log(&self) -> (text: &str)
        ensures
            text@ == self@.log,
    {
        self.log.as_str()
    }

    /// Shows of `catalog` what the input selects: the projects whose
    /// title contains it, in the catalog's order.
    pub fn filter_projects(&mut self, catalog: Vec<Project>)
        ensures
            final(self)@ == (Screen {
                projects: visible(entries(catalog@), old(self)@.input),
                ..old(self)@
            }),
    {
        self.projects = filter_by_title(&catalog, self.input.as_str());
    }

    /// Shows all of `catalog`, whatever the input holds.
    pub fn show_all(&mut self, catalog: Vec<Project>)
        ensures
            final(self)@ == (Screen { projects: entries(catalog@), ..old(self)@ }),
    {
        self.projects = catalog;
    }

    /// Looks up the selection among the projects shown and logs its path,
    /// or that there is none.
    pub fn get_input_project(&mut self) -> (found: Option<&Project>)
        ensures
            final(self)@ == (Screen {
                log: match selection(old(self)@.projects, old(self)@.input) {
                    Some(entry) => entry.path,
                    None => not_found_notice(),
                },
                ..old(self)@
            }),
            match found {
                Some(project) => selection(old(self)@.projects, old(self)@.input) == Some(
                    project@,
                ),
                None => selection(old(self)@.projects, old(self)@.input) is None,
            },
    {
        let ghost shown = entries(self.projects@);
        let mut i: usize = 0;
        while i < self.projects.len()
            invariant
                i <= self.projects.len(),
                *self == *old(self),
                shown == entries(self.projects@),
                forall|j: int| 0 <= j < i ==> !is_substring(self.input@, #[trigger] shown[j].title),
            decreases self.projects.len() - i,
        {
            if contains_text(self.projects[i].title.as_str(), self.input.as_str()) {
                proof {
                    assert(shown[i as int] == self.projects[i as int]@);
                    lemma_first_match_is_selection(shown, self.input@, i as int);
                }
                self.log = self.projects[i].path.clone();
                return Some(&self.projects[i]);
            }
            proof {
                assert(shown[i as int] == self.projects[i as int]@);
            }
            i += 1;
        }
        proof {
            lemma_none_visible(shown, self.input@);
        }
        self.log = String::from_str("No project found");
        None
    }
}

/// The input after Backspace: its last character is gone, if it had one.
pub open spec fn without_last(input: Seq<char>) -> Seq<char> {
    if input.len() > 0 {
        input.drop_last()
    } else {
        input
    }
}

/// What a key does: the screen after it, and what the caller is asked for.
///
/// In normal mode `i` starts editing, Enter logs the selection's title and
/// Esc leaves. While editing, a character or Backspace changes the input
/// and asks for the list to be filtered again, Enter asks for the first
/// project shown to be opened, Up goes back to normal mode and logs the
/// selection's path, and Esc goes back to normal mode and asks for the
/// whole catalog. Every other key changes nothing.
pub open spec fn after_key(screen: Screen, key: Key) -> (Screen, Step) {
    match screen.mode {
        InputMode::Normal => match key {
            Key::Char(c) => if c == 'i' {
                (Screen { mode: InputMode::Editing, ..screen }, Step::Continue)
            } else {
                (screen, Step::Continue)
            },
            Key::Enter => (
                Screen {
                    log: match selection(screen.projects, screen.input) {
                        Some(entry) => entry.title,
                        None => not_found_notice(),
                    },
                    ..screen
                },
                Step::Continue,
            ),
            Key::Esc => (screen, Step::Quit),
            _ => (screen, Step::Continue),
        },
        InputMode::Editing => match key {
            Key::Char(c) => (Screen { input: screen.input.push(c), ..screen }, Step::Refilter),
            Key::Backspace => (
                Screen { input: without_last(screen.input), ..screen },
                Step::Refilter,
            ),
            Key::Enter => if screen.projects.len() > 0 {
                (screen, Step::Launch(screen.projects[0].path))
            } else {
                (Screen { log: not_found_notice(), ..screen }, Step::Continue)
            },
            Key::Up => (
                Screen {
                    mode: InputMode::Normal,
                    log: match selection(screen.projects, screen.input) {
                        Some(entry) => entry.path,
                        None => not_found_notice(),
                    },
                    ..screen
                },
                Step::Continue,
            ),
            Key::Esc => (Screen { mode: InputMode::Normal, ..screen }, Step::Reload),
            Key::Other => (screen, Step::Continue),
        },
    }
}

/// What the end of a launch does: success leaves the loop, failure is
/// logged and the loop goes on.
pub open spec fn after_launch(screen: Screen, succeeded: bool) -> (Screen, Step) {
    if succeeded {
        (screen, Step::Quit)
    } else {
        (Screen { log: not_found_notice(), ..screen }, Step::Continue)
    }
}

impl UIApp {
    /// Takes one key press.
    pub fn handle_key(&mut self, key: Key) -> (action: Action)
        ensures
            (final(self)@, action@) == after_key(old(self)@, key),
    {
        match self.input_mode {
            InputMode::Normal => match key {
                Key::Char(c) => {
                    if c == 'i' {
                        self.input_mode = InputMode::Editing;
                    }
                    Action::Continue
                },
                Key::Enter => {
                    let title = match self.get_input_project() {
                        Some(project) => Some(project.title.clone()),
                        None => None,
                    };
                    match title {
                        Some(title) => {
                            self.log = title;
                        },
                        None => {
                            self.log = String::from_str("No project found");
                        },
                    }
                    Action::Continue
                },
                Key::Esc => Action::Quit,
                _ => Action::Continue,
            },
            InputMode::Editing => match key {
                Key::Char(c) => {
                    self.input.push(c);
                    Action::Refilter
                },
                Key::Backspace => {
                    self.input.pop();
                    Action::Refilter
                },
                Key::Enter => {
                    if self.projects.len() > 0 {
                        assert(entries(self.projects@)[0] == self.projects[0]@);
                        Action::Launch(self.projects[0].path.clone())
                    } else {
                        self.log = String::from_str("No project found");
                        Action::Continue
                    }
                },
                Key::Up => {
                    self.input_mode = InputMode::Normal;
                    self.get_input_project();
                    Action::Continue
                },
                Key::Esc => {
                    self.input_mode = InputMode::Normal;
                    Action::Reload
                },
                Key::Other => Action::Continue,
            },
        }
    }

    /// Takes the outcome of the launch that `handle_key` asked for.
    pub fn launch_finished(&mut self, succeeded: bool) -> (action: Action)
        ensures
            (final(self)@, action@) == after_launch(old(self)@, succeeded),
    {
        if succeeded {
            Action::Quit
        } else {
            self.log = String::from_str("No project found");
            Action::Continue
        }
    }
}

} // verus!
