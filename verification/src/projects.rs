//! The catalog: project entries, the rule that a path is recorded once,
//! and the title filter.

use crate::format::{
    catalog_of, catalog_text, catalog_to_text, projects_from_records, reading, CatalogError, Fault,
};
use crate::json::{json_records, parse_records};
use crate::text::{contains_text, is_substring};
use vstd::prelude::*;
use vstd::string::StringExecFns;

verus! {

/// What a project is, mathematically: a title and a path, both plain text.
pub struct Entry {
    pub title: Seq<char>,
    pub path: Seq<char>,
}

/// One record of the catalog.
#[derive(Debug)]
pub struct Project {
    pub path: String,
    pub title: String,
}

impl View for Project {
    type V = Entry;

    open spec fn view(&self) -> Entry {
        Entry { title: self.title@, path: self.path@ }
    }
}

impl Clone for Project {
    fn clone(&self) -> (copy: Project)
        ensures
            copy@ == self@,
    {
        Project { path: self.path.clone(), title: self.title.clone() }
    }
}

impl Project {
    /// A project at `path`, shown as `title`.
    pub fn new(path: String, title: String) -> (project: Project)
        ensures
            project.path == path,
            project.title == title,
            project@ == (Entry { title: title@, path: path@ }),
    {
        Project { path, title }
    }
}

/// The entries that a list of projects stands for, in order.
pub open spec fn entries(projects: Seq<Project>) -> Seq<Entry> {
    projects.map_values(|p: Project| p@)
}

/// Some entry of `catalog` is recorded at `path`.
pub open spec fn has_path(catalog: Seq<Entry>, path: Seq<char>) -> bool {
    exists|i: int| 0 <= i < catalog.len() && #[trigger] catalog[i].path == path
}

/// The catalog after recording `entry`: unchanged where its path is already
/// there, else with `entry` added at the end.
pub open spec fn recorded(catalog: Seq<Entry>, entry: Entry) -> Seq<Entry> {
    if has_path(catalog, entry.path) {
        catalog
    } else {
        catalog.push(entry)
    }
}

/// The path that a command-line argument names: `.` stands for the working
/// directory, anything else for itself.
pub open spec fn resolved_path(path: Seq<char>, working_dir: Seq<char>) -> Seq<char> {
    if path == seq!['.'] {
        working_dir
    } else {
        path
    }
}

/// Whether the argument is the literal `.`, so that the caller knows it has
/// to look up the working directory.
pub fn names_working_dir(path: &String) -> (dot: bool)
    ensures
        dot == (path@ == seq!['.']),
{
    proof {
        reveal_strlit(".");
    }
    let dot = String::from_str(".");
    assert(dot@ =~= seq!['.']);
    *path == dot
}

/// The project that the two arguments of a mark request describe.
pub fn get_project(path: String, title: String, working_dir: &str) -> (project: Project)
    ensures
        project@ == (Entry { title: title@, path: resolved_path(path@, working_dir@) }),
{
    if names_working_dir(&path) {
        Project::new(String::from_str(working_dir), title)
    } else {
        Project::new(path, title)
    }
}

/// Whether some project of `projects` is recorded at `path`.
pub fn contains_path(projects: &Vec<Project>, path: &String) -> (found: bool)
    ensures
        found == has_path(entries(projects@), path@),
{
    let mut i: usize = 0;
    while i < projects.len()
        invariant
            i <= projects.len(),
            forall|j: int| 0 <= j < i ==> (#[trigger] entries(projects@)[j]).path != path@,
        decreases projects.len() - i,
    {
        if projects[i].path == *path {
            assert(entries(projects@)[i as int].path == path@);
            return true;
        }
        i += 1;
    }
    false
}

/// The catalog that a non-empty file text holds.
pub open spec fn parsed_catalog(text: Seq<char>) -> Result<Seq<Entry>, Fault> {
    match json_records(text) {
        None => Err(Fault::Malformed),
        Some(records) => catalog_of(records),
    }
}

/// The catalog as a reader sees it: empty where there is no file.
pub open spec fn loaded(contents: Option<Seq<char>>) -> Result<Seq<Entry>, Fault> {
    match contents {
        None => Ok(Seq::empty()),
        Some(text) => parsed_catalog(text),
    }
}

/// The catalog as a writer sees it: empty where the file is empty.
pub open spec fn stored(contents: Seq<char>) -> Result<Seq<Entry>, Fault> {
    if contents.len() == 0 {
        Ok(Seq::empty())
    } else {
        parsed_catalog(contents)
    }
}

/// The notice for a path that is already recorded.
pub open spec fn duplicate_notice(path: Seq<char>) -> Seq<char> {
    "Project with path - "@ + path + " already exist"@
}

/// How a request to record a project ended.
#[derive(Debug)]
pub enum Written {
    /// The project was added; this is the whole new text of the file.
    Saved(String),
    /// The path was there already; the file stays as it is, and this is the
    /// notice for the user.
    AlreadyPresent(String),
}

/// Reads the text of a catalog file.
pub fn parse_catalog(text: &str) -> (result: Result<Vec<Project>, CatalogError>)
    ensures
        reading(result) == parsed_catalog(text@),
{
    match parse_records(text) {
        Ok(records) => projects_from_records(&records),
        Err(_) => Err(CatalogError::Malformed),
    }
}

/// The catalog: empty where the file does not exist (`None`), else what
/// the file's text holds.
pub fn read_projects(contents: Option<&str>) -> (result: Result<Vec<Project>, CatalogError>)
    ensures
        reading(result) == loaded(
            match contents {
                Some(text) => Some(text@),
                None => None,
            },
        ),
{
    match contents {
        None => {
            let projects: Vec<Project> = Vec::new();
            assert(entries(projects@) =~= Seq::empty());
            Ok(projects)
        },
        Some(text) => parse_catalog(text),
    }
}

/// Records `project` in the catalog whose file holds `contents` (empty
/// for a new file). A path is recorded once: where it is there already,
/// nothing is to be written.
pub fn write_json(project: Project, contents: &str) -> (result: Result<Written, CatalogError>)
    ensures
        match stored(contents@) {
            Err(fault) => result matches Err(error) && error@ == fault,
            Ok(catalog) => if has_path(catalog, project@.path) {
                result matches Ok(Written::AlreadyPresent(notice)) && notice@ == duplicate_notice(
                    project@.path,
                )
            } else {
                result matches Ok(Written::Saved(text)) && text@ == catalog_text(
                    recorded(catalog, project@),
                )
            },
        },
{
    let mut projects: Vec<Project> = Vec::new();
    if contents.is_empty() {
        assert(entries(projects@) =~= Seq::empty());
    } else {
        match parse_catalog(contents) {
            Ok(found) => {
                projects = found;
            },
            Err(error) => {
                return Err(error);
            },
        }
    }
    let ghost catalog = entries(projects@);
    if contains_path(&projects, &project.path) {
        let mut notice = String::from_str("Project with path - ");
        notice.append(project.path.as_str());
        notice.append(" already exist");
        return Ok(Written::AlreadyPresent(notice));
    }
    projects.push(project);
    assert(entries(projects@) =~= catalog.push(project@));
    Ok(Written::Saved(catalog_to_text(&projects)))
}

/// Carries out a mark request: the project that the two arguments
/// describe is recorded in the catalog whose file holds `contents`.
pub fn mark(path: String, title: String, working_dir: &str, contents: &str) -> (result: Result<
    Written,
    CatalogError,
>)
    ensures
        match stored(contents@) {
            Err(fault) => result matches Err(error) && error@ == fault,
            Ok(catalog) => {
                let entry = Entry { title: title@, path: resolved_path(path@, working_dir@) };
                if has_path(catalog, entry.path) {
                    result matches Ok(Written::AlreadyPresent(notice)) && notice@
                        == duplicate_notice(entry.path)
                } else {
                    result matches Ok(Written::Saved(text)) && text@ == catalog_text(
                        recorded(catalog, entry),
                    )
                }
            },
        },
{
    let project = get_project(path, title, working_dir);
    write_json(project, contents)
}

/// The test that the filter applies: the title contains the input, case
/// and all.
pub open spec fn title_contains(input: Seq<char>) -> spec_fn(Entry) -> bool {
    |entry: Entry| is_substring(input, entry.title)
}

/// The visible part of `catalog` under `input`: the entries whose title
/// contains it, in the catalog's order.
pub open spec fn visible(catalog: Seq<Entry>, input: Seq<char>) -> Seq<Entry> {
    catalog.filter(title_contains(input))
}

/// The projects of `catalog` whose title contains `input`, in order.
pub fn filter_by_title(catalog: &Vec<Project>, input: &str) -> (shown: Vec<Project>)
    ensures
        entries(shown@) == visible(entries(catalog@), input@),
{
    let ghost all = entries(catalog@);
    let mut shown: Vec<Project> = Vec::new();
    let mut i: usize = 0;
    proof {
        assert(all.take(0) =~= Seq::empty());
        reveal(Seq::filter);
        assert(entries(shown@) =~= all.take(0).filter(title_contains(input@)));
    }
    while i < catalog.len()
        invariant
            i <= catalog.len(),
            all == entries(catalog@),
            entries(shown@) == all.take(i as int).filter(title_contains(input@)),
        decreases catalog.len() - i,
    {
        let ghost before = entries(shown@);
        proof {
            assert(all[i as int] == catalog[i as int]@);
            assert(all.take(i + 1) =~= all.take(i as int).push(all[i as int]));
            all.take(i as int).lemma_filter_push(all[i as int], title_contains(input@));
        }
        if contains_text(catalog[i].title.as_str(), input) {
            let project = catalog[i].clone();
            shown.push(project);
            proof {
                assert(entries(shown@) =~= before.push(all[i as int]));
            }
        }
        i += 1;
    }
    proof {
        assert(all.take(i as int) =~= all);
    }
    shown
}

/// `at` lists, in rising order, exactly the positions of `catalog` whose
/// title contains `input`, and `shown` holds the entries at those
/// positions.
pub open spec fn picks_matching(
    at: Seq<int>,
    catalog: Seq<Entry>,
    input: Seq<char>,
    shown: Seq<Entry>,
) -> bool {
    &&& at.len() == shown.len()
    &&& forall|k: int|
        0 <= k < at.len() ==> 0 <= #[trigger] at[k] < catalog.len() && shown[k] == catalog[at[k]]
    &&& forall|k: int, l: int| 0 <= k < l < at.len() ==> #[trigger] at[k] < #[trigger] at[l]
    &&& forall|i: int|
        0 <= i < catalog.len() ==> (is_substring(input, #[trigger] catalog[i].title)
            <==> at.contains(i))
}

/// The visible part is exactly the subsequence of the catalog whose
/// titles contain the input: it holds the entries at the matching
/// positions, all of them and no others, in the catalog's order. The
/// positions are handed back.
pub proof fn lemma_visible_is_matching_subsequence(catalog: Seq<Entry>, input: Seq<char>) -> (at:
    Seq<int>)
    ensures
        picks_matching(at, catalog, input, visible(catalog, input)),
    decreases catalog.len(),
{
    reveal(Seq::filter);
    if catalog.len() == 0 {
        Seq::empty()
    } else {
        let front = catalog.drop_last();
        let last = catalog.len() - 1;
        let front_at = lemma_visible_is_matching_subsequence(front, input);
        let at = if is_substring(input, catalog.last().title) {
            front_at.push(last)
        } else {
            front_at
        };
        assert forall|i: int| 0 <= i < catalog.len() implies (is_substring(
            input,
            #[trigger] catalog[i].title,
        ) <==> at.contains(i)) by {
            if i < last {
                assert(front[i] == catalog[i]);
                if front_at.contains(i) {
                    let k = choose|k: int| 0 <= k < front_at.len() && front_at[k] == i;
                    assert(at[k] == i);
                }
                if at.contains(i) {
                    let k = choose|k: int| 0 <= k < at.len() && at[k] == i;
                    assert(front_at[k] == i);
                }
            } else {
                if is_substring(input, catalog.last().title) {
                    assert(at[front_at.len() as int] == last);
                }
                if at.contains(i) {
                    let k = choose|k: int| 0 <= k < at.len() && at[k] == i;
                    if k < front_at.len() {
                        assert(front_at[k] < front.len());
                    }
                }
            }
        }
        at
    }
}

/// With an empty input the whole catalog is visible, in its order.
pub proof fn lemma_empty_input_shows_all(catalog: Seq<Entry>)
    ensures
        visible(catalog, Seq::empty()) == catalog,
    decreases catalog.len(),
{
    reveal(Seq::filter);
    if catalog.len() > 0 {
        lemma_empty_input_shows_all(catalog.drop_last());
        let title = catalog.last().title;
        let nothing = Seq::<char>::empty();
        assert(title.subrange(0int, 0int + nothing.len()) =~= nothing);
        assert(is_substring(nothing, title));
        assert(catalog.drop_last().push(catalog.last()) =~= catalog);
    }
}

/// Filtering what is visible by the same input changes nothing: every
/// entry shown contains the input.
pub proof fn lemma_visible_settles(catalog: Seq<Entry>, input: Seq<char>)
    ensures
        visible(visible(catalog, input), input) == visible(catalog, input),
        forall|k: int|
            0 <= k < visible(catalog, input).len() ==> is_substring(
                input,
                #[trigger] visible(catalog, input)[k].title,
            ),
    decreases catalog.len(),
{
    reveal(Seq::filter);
    if catalog.len() > 0 {
        let front = catalog.drop_last();
        lemma_visible_settles(front, input);
        if is_substring(input, catalog.last().title) {
            visible(front, input).lemma_filter_push(catalog.last(), title_contains(input));
        }
    }
}

/// Recording an entry whose path is already in the catalog leaves the
/// catalog as it is, so recording the same entry twice is recording it
/// once.
pub proof fn lemma_record_is_idempotent(catalog: Seq<Entry>, entry: Entry)
    ensures
        has_path(catalog, entry.path) ==> recorded(catalog, entry) == catalog,
        recorded(recorded(catalog, entry), entry) == recorded(catalog, entry),
{
    if !has_path(catalog, entry.path) {
        let grown = catalog.push(entry);
        assert(grown[catalog.len() as int].path == entry.path);
    }
}

/// Recording an entry with a new path and looking at the catalog again
/// shows exactly one more entry, the one recorded, after the entries
/// that were there, and its path is then taken.
pub proof fn lemma_record_adds_one(catalog: Seq<Entry>, entry: Entry)
    requires
        !has_path(catalog, entry.path),
    ensures
        recorded(catalog, entry).len() == catalog.len() + 1,
        recorded(catalog, entry).last() == entry,
        recorded(catalog, entry).drop_last() == catalog,
        has_path(recorded(catalog, entry), entry.path),
{
    let grown = catalog.push(entry);
    assert(grown.drop_last() =~= catalog);
    assert(grown[catalog.len() as int].path == entry.path);
}

/// No two entries of `catalog` are recorded at the same path.
pub open spec fn paths_distinct(catalog: Seq<Entry>) -> bool {
    forall|i: int, j: int|
        0 <= i < j < catalog.len() ==> (#[trigger] catalog[i]).path != (#[trigger] catalog[j]).path
}

/// Recording keeps a catalog of distinct paths one: afterwards the
/// entry's path is recorded, every path that was recorded still is, and
/// no path is recorded twice.
pub proof fn lemma_record_keeps_paths_distinct(catalog: Seq<Entry>, entry: Entry)
    requires
        paths_distinct(catalog),
    ensures
        paths_distinct(recorded(catalog, entry)),
        has_path(recorded(catalog, entry), entry.path),
        forall|path: Seq<char>|
            has_path(catalog, path) ==> #[trigger] has_path(recorded(catalog, entry), path),
{
    let after = recorded(catalog, entry);
    if !has_path(catalog, entry.path) {
        assert(after[catalog.len() as int].path == entry.path);
        assert forall|i: int, j: int| 0 <= i < j < after.len() implies (#[trigger] after[i]).path
            != (#[trigger] after[j]).path by {
            if j == catalog.len() {
                assert(catalog[i].path != entry.path);
            } else {
                assert(catalog[i].path != catalog[j].path);
            }
        }
    }
    assert forall|path: Seq<char>| has_path(catalog, path) implies #[trigger] has_path(
        after,
        path,
    ) by {
        let i = choose|i: int| 0 <= i < catalog.len() && #[trigger] catalog[i].path == path;
        assert(after[i].path == path);
    }
}

} // verus!
