//! The decisions of the pattern generation command: which tag to use, what to
//! offer the picker, what its outcome means, and what is printed.
use vstd::prelude::*;

use crate::assoc::{assoc, find_key, key_view, keys_distinct, lemma_assoc_dom, lemma_assoc_get, str_set, str_views};
use crate::attributes::{CollectState, TagCounts, file_map_view};
use crate::collect::{sort_keys, sort_unique, sorted_patterns, sorted_strs};
use crate::picker::{AttributeRow, FileRow, SearchData, SearchOutcome, SearchSelection};
use crate::text::trim_text;
use crate::text::trim;

verus! {

/// Why pattern generation stopped without output.
#[derive(Clone, Debug, PartialEq, Eq)]
pub enum GenerateError {
    /// `--yes` was given without a tag, so no picker may be shown.
    TagRequired,
    /// No file of the tree carries the attribute.
    NoAttributes,
    /// The user declined in the picker.
    Aborted,
    /// A file was picked where a tag was asked for.
    UnexpectedFileSelection,
    /// Nothing was picked and the query is blank.
    NoTagSelected,
    /// No file carries a token that satisfies the tag.
    NoMatch,
}

impl GenerateError {
    /// A message for the user.
    pub fn message(&self) -> (r: &'static str)
        ensures
            r@.len() > 0,
    {
        let r = match self {
            GenerateError::TagRequired =>
                "tag argument is required when using --yes; run without --yes to select interactively",
            GenerateError::NoAttributes => "no attributes found; ensure .gitattributes files define the attribute",
            GenerateError::Aborted => "aborted by user",
            GenerateError::UnexpectedFileSelection => "unexpected file selection; please select a tag",
            GenerateError::NoTagSelected => "no tag selected",
            GenerateError::NoMatch => "no matching attribute entries found for tag",
        };
        proof {
            reveal_strlit("tag argument is required when using --yes; run without --yes to select interactively");
            reveal_strlit("no attributes found; ensure .gitattributes files define the attribute");
            reveal_strlit("aborted by user");
            reveal_strlit("unexpected file selection; please select a tag");
            reveal_strlit("no tag selected");
            reveal_strlit("no matching attribute entries found for tag");
        }
        r
    }
}

/// The tag given on the command line; `None` asks for the picker, which
/// `--yes` forbids.
pub fn tag_to_use(tag: Option<String>, auto_yes: bool) -> (r: Result<Option<String>, GenerateError>)
    ensures
        tag is Some ==> r == Ok::<Option<String>, GenerateError>(tag),
        tag is None && auto_yes ==> r == Err::<Option<String>, GenerateError>(GenerateError::TagRequired),
        tag is None && !auto_yes ==> r == Ok::<Option<String>, GenerateError>(None),
{
    match tag {
        Some(t) => Ok(Some(t)),
        None => if auto_yes {
            Err(GenerateError::TagRequired)
        } else {
            Ok(None)
        },
    }
}

/// Rows for the given tag counts, one per tag, in ascending tag order.
fn rows_of(entries: &Vec<(String, usize)>) -> (r: Vec<AttributeRow>)
    requires
        keys_distinct(key_view(entries@)),
    ensures
        r@.len() == entries@.len(),
        sorted_strs(r@.map_values(|a: AttributeRow| a.name@)),
        r@.map_values(|a: AttributeRow| a.name@).to_set() == assoc(key_view(entries@)).dom(),
        forall|i: int|
            0 <= i < r@.len() ==> assoc(key_view(entries@))[#[trigger] r@[i].name@] == r@[i].count,
{
    let keys = sort_keys(entries);
    let mut rows: Vec<AttributeRow> = Vec::new();
    let mut i: usize = 0;
    while i < keys.len()
        invariant
            keys_distinct(key_view(entries@)),
            str_set(keys@) == assoc(key_view(entries@)).dom(),
            keys@.len() == entries@.len(),
            sorted_strs(str_views(keys@)),
            i <= keys@.len(),
            rows@.len() == i,
            forall|j: int| 0 <= j < i ==> #[trigger] rows@[j].name@ == keys@[j]@,
            forall|j: int|
                0 <= j < i ==> assoc(key_view(entries@))[#[trigger] rows@[j].name@] == rows@[j].count,
        decreases keys@.len() - i,
    {
        let k = &keys[i];
        proof {
            assert(str_views(keys@)[i as int] == k@);
            assert(str_set(keys@).contains(k@));
            lemma_assoc_dom(key_view(entries@), k@);
        }
        match find_key(entries, k.as_str()) {
            Some(p) => {
                proof {
                    lemma_assoc_get(key_view(entries@), p as int);
                }
                rows.push(AttributeRow::new(k.clone(), entries[p].1));
            },
            None => {
                proof {
                    let q = choose|q: int| 0 <= q < key_view(entries@).len() && #[trigger] key_view(entries@)[q].0 == k@;
                    assert(false);
                }
            },
        }
        i = i + 1;
    }
    proof {
        assert(rows@.map_values(|a: AttributeRow| a.name@) =~= str_views(keys@));
    }
    rows
}

/// The tags found, as picker rows in ascending tag order; an error when none was found.
pub fn attribute_rows(counts: TagCounts) -> (r: Result<Vec<AttributeRow>, GenerateError>)
    requires
        counts.wf(),
    ensures
        (r is Err) == (counts@.dom() == Set::<Seq<char>>::empty()),
        r is Err ==> r == Err::<Vec<AttributeRow>, GenerateError>(GenerateError::NoAttributes),
        r matches Ok(rows) ==> {
            &&& sorted_strs(rows@.map_values(|a: AttributeRow| a.name@))
            &&& rows@.map_values(|a: AttributeRow| a.name@).to_set() == counts@.dom()
            &&& forall|i: int| 0 <= i < rows@.len() ==> counts@[#[trigger] rows@[i].name@] == rows@[i].count
        },
{
    if counts.is_empty() {
        return Err(GenerateError::NoAttributes);
    }
    let entries = counts.into_inner();
    Ok(rows_of(&entries))
}

/// The tag that the picker's outcome names: the picked tag, or else the
/// trimmed query when it is not blank.
pub fn tag_from_outcome(outcome: &SearchOutcome) -> (r: Result<String, GenerateError>)
    ensures
        !outcome.accepted ==> r == Err::<String, GenerateError>(GenerateError::Aborted),
        outcome.accepted ==> match outcome.selection {
            Some(SearchSelection::Attribute(a)) => r matches Ok(t) && t@ == a.name@,
            Some(SearchSelection::File(_)) => r == Err::<String, GenerateError>(
                GenerateError::UnexpectedFileSelection,
            ),
            None => if trim(outcome.query@).len() == 0 {
                r == Err::<String, GenerateError>(GenerateError::NoTagSelected)
            } else {
                r matches Ok(t) && t@ == trim(outcome.query@)
            },
        },
{
    if !outcome.accepted {
        return Err(GenerateError::Aborted);
    }
    match &outcome.selection {
        Some(SearchSelection::Attribute(a)) => Ok(a.name.clone()),
        Some(SearchSelection::File(_)) => Err(GenerateError::UnexpectedFileSelection),
        None => {
            let q = trim_text(outcome.query.as_str());
            if q.unicode_len() == 0 {
                Err(GenerateError::NoTagSelected)
            } else {
                Ok(q)
            }
        },
    }
}

/// The patterns to print, in ascending order, each once; an error when no
/// file matched.
pub fn patterns_to_emit(state: &CollectState) -> (r: Result<Vec<String>, GenerateError>)
    requires
        state.wf(),
    ensures
        (r is Err) == (state@.matches.len() == 0),
        r is Err ==> r == Err::<Vec<String>, GenerateError>(GenerateError::NoMatch),
        r matches Ok(v) ==> {
            &&& str_set(v@) == state@.patterns
            &&& str_views(v@).no_duplicates()
            &&& sorted_strs(str_views(v@))
        },
{
    if state.matches.len() == 0 {
        return Err(GenerateError::NoMatch);
    }
    Ok(sorted_patterns(state))
}

/// Whether the preview picker is shown before printing: only when the tag came
/// from the command line and `--yes` was not given.
pub fn preview_needed(auto_yes: bool, tag_was_interactive: bool) -> (r: bool)
    ensures
        r == (!auto_yes && !tag_was_interactive),
{
    !auto_yes && !tag_was_interactive
}

/// The data for the tag picker: the tags found, under a context label.
pub fn tag_picker_data(rows: Vec<AttributeRow>, context: String) -> (r: SearchData)
    ensures
        r.context == Some(context),
        r.initial_query is None,
        r.attributes == rows,
        r.files@.len() == 0,
{
    SearchData::new().with_context(context).with_attributes(rows)
}

/// Rows for the collected files, one per pattern in ascending order, each
/// with its tokens in ascending order.
fn file_rows_of(entries: &Vec<(String, Vec<String>)>) -> (r: Vec<FileRow>)
    requires
        keys_distinct(file_map_view(entries@)),
        forall|i: int|
            0 <= i < entries@.len() ==> str_views((#[trigger] entries@[i]).1@).no_duplicates(),
    ensures
        sorted_strs(r@.map_values(|f: FileRow| f.path@)),
        r@.map_values(|f: FileRow| f.path@).to_set() == assoc(file_map_view(entries@)).dom(),
        forall|i: int|
            0 <= i < r@.len() ==> str_set((#[trigger] r@[i]).tags@) == assoc(
                file_map_view(entries@),
            )[r@[i].path@] && sorted_strs(str_views(r@[i].tags@)),
{
    let ghost fv = file_map_view(entries@);
    proof {
        assert(key_view(entries@).map_values(|e: (Seq<char>, Vec<String>)| e.0) =~= fv.map_values(
            |e: (Seq<char>, Set<Seq<char>>)| e.0,
        ));
        assert forall|a: int, b: int| 0 <= a < b < key_view(entries@).len() implies #[trigger] key_view(entries@)[a].0
            != #[trigger] key_view(entries@)[b].0 by {
            assert(key_view(entries@)[a].0 == fv[a].0 && key_view(entries@)[b].0 == fv[b].0);
        }
        assert forall|x: Seq<char>| assoc(key_view(entries@)).contains_key(x) <==> assoc(fv).contains_key(x) by {
            lemma_assoc_dom(key_view(entries@), x);
            lemma_assoc_dom(fv, x);
            if assoc(fv).contains_key(x) {
                let q = choose|q: int| 0 <= q < fv.len() && #[trigger] fv[q].0 == x;
                assert(key_view(entries@)[q].0 == x);
            }
            if assoc(key_view(entries@)).contains_key(x) {
                let q = choose|q: int| 0 <= q < key_view(entries@).len() && #[trigger] key_view(entries@)[q].0 == x;
                assert(fv[q].0 == x);
            }
        }
        assert(assoc(key_view(entries@)).dom() =~= assoc(fv).dom());
    }
    let keys = sort_keys(entries);
    let mut rows: Vec<FileRow> = Vec::new();
    let mut i: usize = 0;
    while i < keys.len()
        invariant
            fv == file_map_view(entries@),
            keys_distinct(fv),
            forall|q: int|
                0 <= q < entries@.len() ==> str_views((#[trigger] entries@[q]).1@).no_duplicates(),
            str_set(keys@) == assoc(fv).dom(),
            sorted_strs(str_views(keys@)),
            i <= keys@.len(),
            rows@.len() == i,
            forall|j: int| 0 <= j < i ==> #[trigger] rows@[j].path@ == keys@[j]@,
            forall|j: int|
                0 <= j < i ==> str_set((#[trigger] rows@[j]).tags@) == assoc(fv)[rows@[j].path@]
                    && sorted_strs(str_views(rows@[j].tags@)),
        decreases keys@.len() - i,
    {
        let k = &keys[i];
        proof {
            assert(str_views(keys@)[i as int] == k@);
            assert(str_set(keys@).contains(k@));
            lemma_assoc_dom(fv, k@);
        }
        match find_key(entries, k.as_str()) {
            Some(p) => {
                proof {
                    assert(fv[p as int].0 == k@);
                    lemma_assoc_get(fv, p as int);
                }
                let mut tags = entries[p].1.clone();
                proof {
                    assert(str_views(tags@) =~= str_views(entries@[p as int].1@)) by {
                        assert forall|a: int| 0 <= a < tags@.len() implies tags@[a]@ == entries@[p as int].1@[a]@ by {
                            assert(cloned::<String>(entries@[p as int].1@[a], tags@[a]));
                        }
                    }
                }
                sort_unique(&mut tags);
                rows.push(FileRow::new(k.clone(), tags));
            },
            None => {
                proof {
                    let q = choose|q: int| 0 <= q < fv.len() && #[trigger] fv[q].0 == k@;
                    assert(key_view(entries@)[q].0 == k@);
                    assert(false);
                }
            },
        }
        i = i + 1;
    }
    proof {
        assert(rows@.map_values(|f: FileRow| f.path@) =~= str_views(keys@));
    }
    rows
}

/// The data for the preview picker: every matched tag with its count and
/// every matched pattern with its tags, under a context label, with the tag
/// as the initial query.
pub fn preview_data(state: &CollectState, context: String, query: String) -> (r: SearchData)
    requires
        state.wf(),
    ensures
        r.context == Some(context),
        r.initial_query == Some(query),
        sorted_strs(r.attributes@.map_values(|a: AttributeRow| a.name@)),
        r.attributes@.map_values(|a: AttributeRow| a.name@).to_set() == state@.tag_counts.dom(),
        forall|i: int|
            0 <= i < r.attributes@.len() ==> state@.tag_counts[#[trigger] r.attributes@[i].name@]
                == r.attributes@[i].count,
        sorted_strs(r.files@.map_values(|f: FileRow| f.path@)),
        r.files@.map_values(|f: FileRow| f.path@).to_set() == state@.file_map.dom(),
        forall|i: int|
            0 <= i < r.files@.len() ==> str_set((#[trigger] r.files@[i]).tags@)
                == state@.file_map[r.files@[i].path@],
{
    let attributes = rows_of(&state.tag_counts);
    let files = file_rows_of(&state.file_map);
    SearchData::new().with_context(context).with_initial_query(query).with_attributes(attributes).with_files(files)
}

} // verus!
