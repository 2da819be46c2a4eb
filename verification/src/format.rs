//! The catalog's file format: a JSON list of objects, each with exactly the
//! keys `title` and `path`. Reading goes from parsed records to projects;
//! writing frames quoted texts into the list.

use crate::json::{json_string_text, quote_text};
use crate::projects::{Entry, Project};
use vstd::prelude::*;
use vstd::string::StringExecFns;

verus! {

/// Why a catalog could not be read, as plain data.
pub enum Fault {
    /// The text is not a JSON list of objects with text values.
    Malformed,
    /// An object holds this key, which is neither `title` nor `path`.
    InvalidKey(Seq<char>),
    /// An object lacks `title` or `path`.
    MissingField,
}

/// Why a catalog could not be read.
#[derive(Debug)]
pub enum CatalogError {
    Malformed,
    InvalidKey(String),
    MissingField,
}

impl View for CatalogError {
    type V = Fault;

    open spec fn view(&self) -> Fault {
        match self {
            CatalogError::Malformed => Fault::Malformed,
            CatalogError::InvalidKey(key) => Fault::InvalidKey(key@),
            CatalogError::MissingField => Fault::MissingField,
        }
    }
}

impl CatalogError {
    /// The message for this error.
    pub fn message(&self) -> (text: String)
        ensures
            text@ == match self@ {
                Fault::Malformed => "Malformed catalog"@,
                Fault::InvalidKey(key) => "Invalid key: "@ + key,
                Fault::MissingField => "Missing title or path"@,
            },
    {
        match self {
            CatalogError::Malformed => String::from_str("Malformed catalog"),
            CatalogError::InvalidKey(key) => {
                let mut text = String::from_str("Invalid key: ");
                text.append(key.as_str());
                text
            },
            CatalogError::MissingField => String::from_str("Missing title or path"),
        }
    }
}

/// One parsed object: its key and value pairs.
pub type Record = Seq<(Seq<char>, Seq<char>)>;

/// A key that no entry has.
pub open spec fn is_foreign_key(key: Seq<char>) -> bool {
    key != "title"@ && key != "path"@
}

/// The value that `record` gives `key`: that of the last pair with this
/// key, `None` where there is no such pair.
pub open spec fn field(record: Record, key: Seq<char>) -> Option<Seq<char>>
    decreases record.len(),
{
    if record.len() == 0 {
        None
    } else if record.last().0 == key {
        Some(record.last().1)
    } else {
        field(record.drop_last(), key)
    }
}

/// The first key of `record`, from position `from` on, that no entry has.
pub open spec fn foreign_key_from(record: Record, from: int) -> Option<Seq<char>>
    decreases record.len() - from,
{
    if from < 0 || from >= record.len() {
        None
    } else if is_foreign_key(record[from].0) {
        Some(record[from].0)
    } else {
        foreign_key_from(record, from + 1)
    }
}

/// The entry that `record` describes. A foreign key is refused first, then
/// a missing field.
pub open spec fn entry_of(record: Record) -> Result<Entry, Fault> {
    match foreign_key_from(record, 0) {
        Some(key) => Err(Fault::InvalidKey(key)),
        None => match (field(record, "title"@), field(record, "path"@)) {
            (Some(title), Some(path)) => Ok(Entry { title, path }),
            _ => Err(Fault::MissingField),
        },
    }
}

/// The catalog that `records` describe: every record's entry in order, or
/// the fault of the first record that has one.
pub open spec fn catalog_of(records: Seq<Record>) -> Result<Seq<Entry>, Fault>
    decreases records.len(),
{
    if records.len() == 0 {
        Ok(Seq::empty())
    } else {
        match catalog_of(records.drop_last()) {
            Err(fault) => Err(fault),
            Ok(catalog) => match entry_of(records.last()) {
                Err(fault) => Err(fault),
                Ok(entry) => Ok(catalog.push(entry)),
            },
        }
    }
}

/// A result of reading, as plain data.
pub open spec fn reading(result: Result<Vec<Project>, CatalogError>) -> Result<Seq<Entry>, Fault> {
    match result {
        Ok(projects) => Ok(crate::projects::entries(projects@)),
        Err(error) => Err(error@),
    }
}

/// Reads one parsed object as a project.
pub fn project_from_record(record: &Vec<(String, String)>) -> (result: Result<
    Project,
    CatalogError,
>)
    ensures
        match result {
            Ok(project) => entry_of(record.deep_view()) == Ok::<Entry, Fault>(project@),
            Err(error) => entry_of(record.deep_view()) == Err::<Entry, Fault>(error@),
        },
{
    let ghost pairs = record.deep_view();
    let title_key = String::from_str("title");
    let path_key = String::from_str("path");
    let mut title: Option<String> = None;
    let mut path: Option<String> = None;
    let mut i: usize = 0;
    proof {
        reveal_strlit("title");
        reveal_strlit("path");
        assert("title"@.len() != "path"@.len());
        assert(pairs.take(0) =~= Seq::empty());
    }
    while i < record.len()
        invariant
            i <= record.len(),
            pairs == record.deep_view(),
            pairs.len() == record.len(),
            title_key@ == "title"@,
            path_key@ == "path"@,
            "title"@ != "path"@,
            foreign_key_from(pairs, 0) == foreign_key_from(pairs, i as int),
            title.is_some() == field(pairs.take(i as int), "title"@).is_some(),
            title matches Some(t) ==> field(pairs.take(i as int), "title"@) == Some(t@),
            path.is_some() == field(pairs.take(i as int), "path"@).is_some(),
            path matches Some(p) ==> field(pairs.take(i as int), "path"@) == Some(p@),
        decreases record.len() - i,
    {
        let key = &record[i].0;
        let value = &record[i].1;
        proof {
            assert(pairs[i as int] == (key@, value@));
            assert(pairs.take(i + 1).drop_last() =~= pairs.take(i as int));
            assert(pairs.take(i + 1).last() == pairs[i as int]);
        }
        if *key == title_key {
            title = Some(value.clone());
        } else if *key == path_key {
            path = Some(value.clone());
        } else {
            return Err(CatalogError::InvalidKey(key.clone()));
        }
        i += 1;
    }
    proof {
        assert(pairs.take(i as int) =~= pairs);
    }
    match (title, path) {
        (Some(title), Some(path)) => Ok(Project::new(path, title)),
        _ => Err(CatalogError::MissingField),
    }
}

/// Once a fault shows in the first `k` records, it is the fault of the
/// whole list.
pub proof fn lemma_fault_stays(records: Seq<Record>, k: int)
    requires
        0 <= k <= records.len(),
        catalog_of(records.take(k)) is Err,
    ensures
        catalog_of(records) == catalog_of(records.take(k)),
    decreases records.len() - k,
{
    if k == records.len() {
        assert(records.take(k) =~= records);
    } else {
        assert(records.take(k + 1).drop_last() =~= records.take(k));
        lemma_fault_stays(records, k + 1);
    }
}

/// Reads a list of parsed objects as projects, in order.
pub fn projects_from_records(records: &Vec<Vec<(String, String)>>) -> (result: Result<
    Vec<Project>,
    CatalogError,
>)
    ensures
        reading(result) == catalog_of(records.deep_view()),
{
    let ghost parsed = records.deep_view();
    let mut projects: Vec<Project> = Vec::new();
    let mut i: usize = 0;
    proof {
        assert(parsed.take(0) =~= Seq::empty());
        assert(crate::projects::entries(projects@) =~= Seq::empty());
    }
    while i < records.len()
        invariant
            i <= records.len(),
            parsed == records.deep_view(),
            parsed.len() == records.len(),
            catalog_of(parsed.take(i as int)) == Ok::<Seq<Entry>, Fault>(
                crate::projects::entries(projects@),
            ),
        decreases records.len() - i,
    {
        let ghost before = crate::projects::entries(projects@);
        proof {
            assert(parsed[i as int] == records[i as int].deep_view());
            assert(parsed.take(i + 1).drop_last() =~= parsed.take(i as int));
            assert(parsed.take(i + 1).last() == parsed[i as int]);
        }
        match project_from_record(&records[i]) {
            Ok(project) => {
                projects.push(project);
                proof {
                    assert(crate::projects::entries(projects@) =~= before.push(project@));
                }
            },
            Err(error) => {
                proof {
                    lemma_fault_stays(parsed, i + 1);
                }
                return Err(error);
            },
        }
        i += 1;
    }
    proof {
        assert(parsed.take(i as int) =~= parsed);
    }
    Ok(projects)
}

/// One object of the list, around the two quoted texts.
pub open spec fn entry_frame(title_text: Seq<char>, path_text: Seq<char>) -> Seq<char> {
    "{\"title\":"@ + title_text + ",\"path\":"@ + path_text + "}"@
}

/// The items with a comma between each two.
pub open spec fn comma_separated(items: Seq<Seq<char>>) -> Seq<char>
    decreases items.len(),
{
    if items.len() == 0 {
        Seq::empty()
    } else if items.len() == 1 {
        items[0]
    } else {
        comma_separated(items.drop_last()) + ","@ + items.last()
    }
}

/// The list, in brackets, around its items.
pub open spec fn list_frame(items: Seq<Seq<char>>) -> Seq<char> {
    "["@ + comma_separated(items) + "]"@
}

/// The object written for an entry: title first, then path.
pub open spec fn entry_text(entry: Entry) -> Seq<char> {
    entry_frame(json_string_text(entry.title), json_string_text(entry.path))
}

/// The text of the file that holds `catalog`.
pub open spec fn catalog_text(catalog: Seq<Entry>) -> Seq<char> {
    list_frame(catalog.map_values(|entry: Entry| entry_text(entry)))
}

/// Frames two quoted texts as one object of the list.
pub fn frame_entry(title_text: &str, path_text: &str) -> (text: String)
    ensures
        text@ == entry_frame(title_text@, path_text@),
{
    let mut text = String::from_str("{\"title\":");
    text.append(title_text);
    text.append(",\"path\":");
    text.append(path_text);
    text.append("}");
    text
}

/// Frames the objects as the list.
pub fn frame_list(items: &Vec<String>) -> (text: String)
    ensures
        text@ == list_frame(items.deep_view()),
{
    let ghost all = items.deep_view();
    let mut text = String::from_str("[");
    let mut i: usize = 0;
    proof {
        assert(all.take(0) =~= Seq::empty());
        assert("["@ + comma_separated(all.take(0)) =~= "["@);
    }
    while i < items.len()
        invariant
            i <= items.len(),
            all == items.deep_view(),
            all.len() == items.len(),
            text@ == "["@ + comma_separated(all.take(i as int)),
        decreases items.len() - i,
    {
        proof {
            assert(all[i as int] == items[i as int]@);
            assert(all.take(i + 1).drop_last() =~= all.take(i as int));
            assert(all.take(i + 1).last() == all[i as int]);
        }
        if i > 0 {
            text.append(",");
            text.append(items[i].as_str());
            proof {
                assert(text@ =~= "["@ + comma_separated(all.take(i + 1)));
            }
        } else {
            text.append(items[i].as_str());
            proof {
                assert(all.take(1)[0] == all[0]);
                assert(text@ =~= "["@ + comma_separated(all.take(i + 1)));
            }
        }
        i += 1;
    }
    proof {
        assert(all.take(i as int) =~= all);
    }
    text.append("]");
    text
}

/// The JSON string literal for a text.
pub fn quoted(text: &str) -> (literal: String)
    ensures
        literal@ == json_string_text(text@),
{
    match quote_text(text) {
        Ok(literal) => literal,
        Err(_) => unreached(),
    }
}

/// Writes the catalog as the text of its file.
pub fn catalog_to_text(projects: &Vec<Project>) -> (text: String)
    ensures
        text@ == catalog_text(crate::projects::entries(projects@)),
{
    let ghost catalog = crate::projects::entries(projects@);
    let ghost texts = catalog.map_values(|entry: Entry| entry_text(entry));
    let mut items: Vec<String> = Vec::new();
    let mut i: usize = 0;
    while i < projects.len()
        invariant
            i <= projects.len(),
            catalog == crate::projects::entries(projects@),
            texts == catalog.map_values(|entry: Entry| entry_text(entry)),
            items.deep_view() =~= texts.take(i as int),
        decreases projects.len() - i,
    {
        let ghost before = items.deep_view();
        let title_text = quoted(projects[i].title.as_str());
        let path_text = quoted(projects[i].path.as_str());
        let item = frame_entry(title_text.as_str(), path_text.as_str());
        proof {
            assert(catalog[i as int] == projects[i as int]@);
            assert(item@ == texts[i as int]);
        }
        items.push(item);
        proof {
            assert(items.deep_view() =~= before.push(item@));
            assert(items.deep_view() =~= texts.take(i + 1));
        }
        i += 1;
    }
    proof {
        assert(texts.take(i as int) =~= texts);
    }
    frame_list(&items)
}

} // verus!
