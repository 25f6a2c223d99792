//! The data handed to the interactive picker and the outcome it hands back.
use vstd::prelude::*;

use crate::assoc::str_views;
use crate::submodule::{join_parts, join_sep};
use crate::text::{decimal, decimal_text, push_char};

verus! {

/// A tag with the number of files that carry it.
#[derive(Clone, Debug, PartialEq, Eq)]
pub struct AttributeRow {
    pub name: String,
    pub count: usize,
}

impl AttributeRow {
    pub fn new(name: String, count: usize) -> (r: Self)
        ensures
            r.name@ == name@,
            r.count == count,
    {
        AttributeRow { name, count }
    }
}

/// A file pattern with its tags.
#[derive(Clone, Debug, PartialEq, Eq)]
pub struct FileRow {
    pub path: String,
    pub tags: Vec<String>,
}

impl FileRow {
    pub fn new(path: String, tags: Vec<String>) -> (r: Self)
        ensures
            r.path@ == path@,
            r.tags@ == tags@,
    {
        FileRow { path, tags }
    }
}

/// What the user picked.
#[derive(Clone, Debug, PartialEq, Eq)]
pub enum SearchSelection {
    Attribute(AttributeRow),
    File(FileRow),
}

/// The picker's layout: tags and files.
#[derive(Clone, Debug, Default)]
pub struct UiConfig;

impl UiConfig {
    pub fn tags_and_files() -> Self {
        UiConfig
    }
}

/// The rows offered to the picker, with a context label and an initial query.
#[derive(Clone, Debug)]
pub struct SearchData {
    pub context: Option<String>,
    pub initial_query: Option<String>,
    pub attributes: Vec<AttributeRow>,
    pub files: Vec<FileRow>,
}

impl SearchData {
    pub fn new() -> (r: Self)
        ensures
            r.context is None,
            r.initial_query is None,
            r.attributes@.len() == 0,
            r.files@.len() == 0,
    {
        SearchData { context: None, initial_query: None, attributes: Vec::new(), files: Vec::new() }
    }

    pub fn with_context(self, context: String) -> (r: Self)
        ensures
            r.context == Some(context),
            r.initial_query == self.initial_query,
            r.attributes == self.attributes,
            r.files == self.files,
    {
        SearchData { context: Some(context), ..self }
    }

    pub fn with_initial_query(self, query: String) -> (r: Self)
        ensures
            r.initial_query == Some(query),
            r.context == self.context,
            r.attributes == self.attributes,
            r.files == self.files,
    {
        SearchData { initial_query: Some(query), ..self }
    }

    pub fn with_attributes(self, attributes: Vec<AttributeRow>) -> (r: Self)
        ensures
            r.attributes == attributes,
            r.context == self.context,
            r.initial_query == self.initial_query,
            r.files == self.files,
    {
        SearchData { attributes, ..self }
    }

    pub fn with_files(self, files: Vec<FileRow>) -> (r: Self)
        ensures
            r.files == files,
            r.context == self.context,
            r.initial_query == self.initial_query,
            r.attributes == self.attributes,
    {
        SearchData { files, ..self }
    }
}

/// A picker session to run: its data, layout and input title.
#[derive(Clone, Debug)]
pub struct SearchUi {
    pub data: SearchData,
    pub ui_config: UiConfig,
    pub input_title: Option<String>,
}

impl SearchUi {
    pub fn new(data: SearchData) -> (r: Self)
        ensures
            r.data == data,
            r.input_title is None,
    {
        SearchUi { data, ui_config: UiConfig, input_title: None }
    }

    pub fn with_ui_config(self, ui_config: UiConfig) -> (r: Self)
        ensures
            r.data == self.data,
            r.input_title == self.input_title,
    {
        SearchUi { ui_config, ..self }
    }

    pub fn with_input_title(self, title: String) -> (r: Self)
        ensures
            r.data == self.data,
            r.input_title == Some(title),
    {
        SearchUi { input_title: Some(title), ..self }
    }

    /// Themes are not offered by this picker: the session is returned unchanged.
    pub fn with_theme_name(self, _name: &str) -> (r: Self)
        ensures
            r == self,
    {
        self
    }
}

/// What the picker returned: whether the user accepted, the final query, and
/// the selected row.
#[derive(Clone, Debug)]
pub struct SearchOutcome {
    pub accepted: bool,
    pub query: String,
    pub selection: Option<SearchSelection>,
}

/// One row as the picker shows it, and what picking it selects.
#[derive(Clone, Debug)]
pub struct PickerEntry {
    pub render: String,
    pub selection: SearchSelection,
}

/// The icon in front of tag rows.
pub const ATTRIBUTE_ICON: char = '\u{f02a2}';

/// The icon for files that have no icon of their own.
pub const GENERIC_FILE_ICON: char = '\u{f0214}';

/// How a tag row reads: `<icon> <name>  (<count> matches)`.
pub open spec fn attribute_line(name: Seq<char>, count: nat) -> Seq<char> {
    seq![ATTRIBUTE_ICON, ' '] + name + seq![' ', ' ', '('] + decimal(count) + seq![
        ' ',
        'm',
        'a',
        't',
        'c',
        'h',
        'e',
        's',
        ')',
    ]
}

/// The icon shown for a file whose icon lookup gave `c`: the generic file
/// icon stands in for the lookup's `*` fallback.
pub open spec fn shown_icon(c: char) -> char {
    if c == '*' {
        GENERIC_FILE_ICON
    } else {
        c
    }
}

/// How a file row reads: `<icon> <path>`, then `  [<tags>]` when it has tags.
pub open spec fn file_line(icon: char, path: Seq<char>, tags: Seq<Seq<char>>) -> Seq<char> {
    let head = seq![shown_icon(icon), ' '] + path;
    if tags.len() == 0 {
        head
    } else {
        head + seq![' ', ' ', '['] + join_sep(tags, seq![',', ' ']) + seq![']']
    }
}

/// The text of a tag row.
pub fn attribute_text(name: &str, count: usize) -> (r: String)
    ensures
        r@ == attribute_line(name@, count as nat),
{
    let mut r = String::new();
    push_char(&mut r, ATTRIBUTE_ICON);
    r.append(" ");
    r.append(name);
    r.append("  (");
    let digits = decimal_text(count);
    r.append(digits.as_str());
    r.append(" matches)");
    proof {
        reveal_strlit(" ");
        reveal_strlit("  (");
        reveal_strlit(" matches)");
        assert(r@ =~= attribute_line(name@, count as nat));
    }
    r
}

/// The text of a file row, given the icon that the lookup gave for its path.
pub fn file_text(icon: char, path: &str, tags: &Vec<String>) -> (r: String)
    ensures
        r@ == file_line(icon, path@, str_views(tags@)),
{
    let mut r = String::new();
    let shown = if icon == '*' {
        GENERIC_FILE_ICON
    } else {
        icon
    };
    push_char(&mut r, shown);
    r.append(" ");
    r.append(path);
    proof {
        reveal_strlit(" ");
    }
    if tags.len() > 0 {
        r.append("  [");
        let joined = join_parts(tags, ", ");
        r.append(joined.as_str());
        r.append("]");
        proof {
            reveal_strlit("  [");
            reveal_strlit(", ");
            reveal_strlit("]");
            assert(", "@ =~= seq![',', ' ']);
            assert(tags@.map_values(|c: String| c@) =~= str_views(tags@));
        }
    }
    proof {
        assert(r@ =~= file_line(icon, path@, str_views(tags@)));
    }
    r
}

/// Relies on devicons' `FileIcon::from`: the icon character for a path. It
/// looks the file name and extension up in its tables and, failing that,
/// asks the file system whether the path is a directory, so nothing is
/// promised of the result.
#[verifier::external_body]
fn icon_for(path: &str) -> (r: char)
{
    devicons::FileIcon::from(path).icon
}

/// The picker's rows: the tags first, then the files, each with what picking it selects.
pub fn build_entries(data: SearchData) -> (r: Vec<PickerEntry>)
    ensures
        r@.len() == data.attributes@.len() + data.files@.len(),
        forall|i: int|
            0 <= i < data.attributes@.len() ==> (#[trigger] r@[i]).render@ == attribute_line(
                data.attributes@[i].name@,
                data.attributes@[i].count as nat,
            ) && r@[i].selection == SearchSelection::Attribute(data.attributes@[i]),
        exists|icons: Seq<char>|
            #![trigger icons.len()]
            icons.len() == data.files@.len() && forall|j: int|
                0 <= j < data.files@.len() ==> (#[trigger] r@[data.attributes@.len() + j]).render@
                    == file_line(icons[j], data.files@[j].path@, str_views(data.files@[j].tags@))
                    && r@[data.attributes@.len() + j].selection == SearchSelection::File(
                    data.files@[j],
                ),
{
    let ghost attrs = data.attributes@;
    let ghost files = data.files@;
    let SearchData { context: _, initial_query: _, attributes, files: file_rows } = data;
    let mut attributes = attributes;
    let mut file_rows = file_rows;
    let na = attributes.len();
    let nf = file_rows.len();
    let mut entries: Vec<PickerEntry> = Vec::new();
    let mut i: usize = 0;
    while attributes.len() > 0
        invariant
            attrs == data.attributes@,
            files == data.files@,
            i <= attrs.len(),
            attrs.len() == na,
            attributes@ == attrs.subrange(i as int, attrs.len() as int),
            entries@.len() == i,
            forall|k: int|
                0 <= k < i ==> (#[trigger] entries@[k]).render@ == attribute_line(
                    attrs[k].name@,
                    attrs[k].count as nat,
                ) && entries@[k].selection == SearchSelection::Attribute(attrs[k]),
        decreases attributes@.len(),
    {
        assert(i < attrs.len());
        let a = attributes.remove(0);
        proof {
            assert(a == attrs[i as int]);
            assert(attributes@ =~= attrs.subrange(i + 1, attrs.len() as int));
        }
        let render = attribute_text(a.name.as_str(), a.count);
        entries.push(PickerEntry { render, selection: SearchSelection::Attribute(a) });
        i = i + 1;
    }
    let n = i;
    let mut j: usize = 0;
    let ghost mut icons: Seq<char> = Seq::empty();
    while file_rows.len() > 0
        invariant
            attrs == data.attributes@,
            files == data.files@,
            n == attrs.len(),
            j <= files.len(),
            files.len() == nf,
            icons.len() == j,
            file_rows@ == files.subrange(j as int, files.len() as int),
            entries@.len() == n + j,
            forall|k: int|
                0 <= k < n ==> (#[trigger] entries@[k]).render@ == attribute_line(
                    attrs[k].name@,
                    attrs[k].count as nat,
                ) && entries@[k].selection == SearchSelection::Attribute(attrs[k]),
            forall|q: int|
                0 <= q < j ==> (#[trigger] entries@[n + q]).render@ == file_line(
                    icons[q],
                    files[q].path@,
                    str_views(files[q].tags@),
                ) && entries@[n + q].selection == SearchSelection::File(files[q]),
        decreases file_rows@.len(),
    {
        assert(j < files.len());
        let f = file_rows.remove(0);
        proof {
            assert(f == files[j as int]);
            assert(file_rows@ =~= files.subrange(j + 1, files.len() as int));
        }
        let icon = icon_for(f.path.as_str());
        let render = file_text(icon, f.path.as_str(), &f.tags);
        entries.push(PickerEntry { render, selection: SearchSelection::File(f) });
        proof {
            icons = icons.push(icon);
        }
        j = j + 1;
    }
    proof {
        assert(j == files.len());
        assert forall|q: int|
            0 <= q < data.files@.len() implies (#[trigger] entries@[data.attributes@.len() + q]).render@
                == file_line(icons[q], data.files@[q].path@, str_views(data.files@[q].tags@))
                && entries@[data.attributes@.len() + q].selection == SearchSelection::File(
                data.files@[q],
            ) by {
            assert(entries@[n + q] == entries@[data.attributes@.len() + q]);
        }
    }
    entries
}

} // verus!
