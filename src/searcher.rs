//! The data of the standalone searcher: facet and file rows, the labels of
//! its two panes, and the outcome of a search.
use vstd::prelude::*;

use crate::assoc::str_views;
use crate::collect::{sort_strings, sorted_strs};
use crate::submodule::{join_parts, join_sep};

verus! {

/// A facet (a tag) with the number of files that carry it.
#[derive(Clone, Debug)]
pub struct FacetRow {
    pub name: String,
    pub count: usize,
}

impl FacetRow {
    pub fn new(name: String, count: usize) -> (r: Self)
        ensures
            r.name@ == name@,
            r.count == count,
    {
        FacetRow { name, count }
    }
}

/// The text that the matcher searches for a file: its path, then its tags
/// after a space when it has any.
pub open spec fn search_text_of(path: Seq<char>, display_tags: Seq<char>) -> Seq<char> {
    if display_tags.len() == 0 {
        path
    } else {
        path + seq![' '] + display_tags
    }
}

/// A file with its tags in ascending order, the tags as displayed, and the
/// text the matcher searches.
#[derive(Clone, Debug)]
pub struct FileRow {
    pub path: String,
    pub tags: Vec<String>,
    pub display_tags: String,
    pub search_text: String,
}

impl FileRow {
    /// The row for `path` and `tags`: the tags sorted, joined by `, ` for display.
    pub fn new(path: String, tags: Vec<String>) -> (r: Self)
        ensures
            r.path@ == path@,
            str_views(r.tags@).to_multiset() == str_views(tags@).to_multiset(),
            sorted_strs(str_views(r.tags@)),
            r.display_tags@ == join_sep(str_views(r.tags@), seq![',', ' ']),
            r.search_text@ == search_text_of(path@, r.display_tags@),
    {
        let mut sorted = tags;
        sort_strings(&mut sorted);
        proof {
            reveal_strlit(", ");
            assert(", "@ =~= seq![',', ' ']);
        }
        let display = join_parts(&sorted, ", ");
        proof {
            assert(sorted@.map_values(|c: String| c@) =~= str_views(sorted@));
        }
        let search = if display.unicode_len() == 0 {
            path.clone()
        } else {
            let mut t = path.clone();
            t.append(" ");
            t.append(display.as_str());
            proof {
                reveal_strlit(" ");
                assert(" "@ =~= seq![' ']);
            }
            t
        };
        FileRow { path, tags: sorted, display_tags: display, search_text: search }
    }

    /// The path and the displayed tags, as the matcher searches them.
    pub fn search_text(&self) -> (r: &str)
        ensures
            r@ == self.search_text@,
    {
        self.search_text.as_str()
    }
}

/// The labels of one pane.
#[derive(Clone, Debug)]
pub struct PaneUiConfig {
    pub mode_title: String,
    pub hint: String,
    pub table_title: String,
    pub count_label: String,
}

impl PaneUiConfig {
    pub fn new(mode_title: &str, hint: &str, table_title: &str, count_label: &str) -> (r: Self)
        ensures
            r.mode_title@ == mode_title@,
            r.hint@ == hint@,
            r.table_title@ == table_title@,
            r.count_label@ == count_label@,
    {
        PaneUiConfig {
            mode_title: mode_title.to_owned(),
            hint: hint.to_owned(),
            table_title: table_title.to_owned(),
            count_label: count_label.to_owned(),
        }
    }
}

/// The labels of the searcher: the filter's label, both panes, and the detail panel's title.
#[derive(Clone, Debug)]
pub struct UiConfig {
    pub filter_label: String,
    pub facets: PaneUiConfig,
    pub files: PaneUiConfig,
    pub detail_panel_title: String,
}

impl Default for UiConfig {
    /// Labels for searching generic facets and files.
    fn default() -> (r: Self)
        ensures
            r.filter_label@ == "Filter facets"@,
            r.facets.mode_title@ == "Facet search"@,
            r.files.mode_title@ == "File search"@,
            r.detail_panel_title@ == "Selection details"@,
    {
        UiConfig::facets_and_files()
    }
}

impl UiConfig {
    /// Labels for searching generic facets and files.
    pub fn facets_and_files() -> (r: Self)
        ensures
            r.filter_label@ == "Filter facets"@,
            r.facets.mode_title@ == "Facet search"@,
            r.files.mode_title@ == "File search"@,
            r.detail_panel_title@ == "Selection details"@,
    {
        UiConfig {
            filter_label: "Filter facets".to_owned(),
            facets: PaneUiConfig::new(
                "Facet search",
                "Type to filter facets. Press Tab to view files.",
                "Matching facets",
                "Facets",
            ),
            files: PaneUiConfig::new(
                "File search",
                "Type to filter files. Press Tab to view facets.",
                "Matching files",
                "Files",
            ),
            detail_panel_title: "Selection details".to_owned(),
        }
    }

    /// Labels for searching tags and tagged files.
    pub fn tags_and_files() -> (r: Self)
        ensures
            r.filter_label@ == "Filter tag"@,
            r.facets.mode_title@ == "Tag search"@,
            r.facets.hint@ == "Type to filter tags. Press Tab to view files."@,
            r.facets.table_title@ == "Matching tags"@,
            r.facets.count_label@ == "Tags"@,
            r.files.mode_title@ == "File search"@,
            r.files.hint@ == "Type to filter files by path or tag. Press Tab to view tags."@,
            r.files.table_title@ == "Matching files"@,
            r.files.count_label@ == "Files"@,
            r.detail_panel_title@ == "Selection details"@,
    {
        UiConfig {
            filter_label: "Filter tag".to_owned(),
            facets: PaneUiConfig::new(
                "Tag search",
                "Type to filter tags. Press Tab to view files.",
                "Matching tags",
                "Tags",
            ),
            files: PaneUiConfig::new(
                "File search",
                "Type to filter files by path or tag. Press Tab to view tags.",
                "Matching files",
                "Files",
            ),
            detail_panel_title: "Selection details".to_owned(),
        }
    }
}

/// Which pane is searched.
#[derive(Clone, Copy, Debug, PartialEq, Eq)]
pub enum SearchMode {
    Facets,
    Files,
}

/// The labels of the pane that `mode` shows.
pub open spec fn pane_of(mode: SearchMode, ui: UiConfig) -> PaneUiConfig {
    match mode {
        SearchMode::Facets => ui.facets,
        SearchMode::Files => ui.files,
    }
}

impl SearchMode {
    fn pane(self, ui: &UiConfig) -> (r: &PaneUiConfig)
        ensures
            *r == pane_of(self, *ui),
    {
        match self {
            SearchMode::Facets => &ui.facets,
            SearchMode::Files => &ui.files,
        }
    }

    pub fn title(self, ui: &UiConfig) -> (r: &str)
        ensures
            r@ == pane_of(self, *ui).mode_title@,
    {
        self.pane(ui).mode_title.as_str()
    }

    pub fn hint(self, ui: &UiConfig) -> (r: &str)
        ensures
            r@ == pane_of(self, *ui).hint@,
    {
        self.pane(ui).hint.as_str()
    }

    pub fn table_title(self, ui: &UiConfig) -> (r: &str)
        ensures
            r@ == pane_of(self, *ui).table_title@,
    {
        self.pane(ui).table_title.as_str()
    }

    pub fn count_label(self, ui: &UiConfig) -> (r: &str)
        ensures
            r@ == pane_of(self, *ui).count_label@,
    {
        self.pane(ui).count_label.as_str()
    }
}

/// The rows to search, with an optional context label and an initial query.
pub struct SearchData {
    pub context_label: Option<String>,
    pub initial_query: String,
    pub facets: Vec<FacetRow>,
    pub files: Vec<FileRow>,
}

impl SearchData {
    pub fn new() -> (r: Self)
        ensures
            r.context_label is None,
            r.initial_query@.len() == 0,
            r.facets@.len() == 0,
            r.files@.len() == 0,
    {
        SearchData {
            context_label: None,
            initial_query: String::new(),
            facets: Vec::new(),
            files: Vec::new(),
        }
    }

    pub fn with_context(self, label: String) -> (r: Self)
        ensures
            r.context_label == Some(label),
            r.initial_query == self.initial_query,
            r.facets == self.facets,
            r.files == self.files,
    {
        SearchData { context_label: Some(label), ..self }
    }

    pub fn with_initial_query(self, query: String) -> (r: Self)
        ensures
            r.initial_query == query,
            r.context_label == self.context_label,
            r.facets == self.facets,
            r.files == self.files,
    {
        SearchData { initial_query: query, ..self }
    }

    pub fn with_facets(self, facets: Vec<FacetRow>) -> (r: Self)
        ensures
            r.facets == facets,
            r.context_label == self.context_label,
            r.initial_query == self.initial_query,
            r.files == self.files,
    {
        SearchData { facets, ..self }
    }

    pub fn with_files(self, files: Vec<FileRow>) -> (r: Self)
        ensures
            r.files == files,
            r.context_label == self.context_label,
            r.initial_query == self.initial_query,
            r.facets == self.facets,
    {
        SearchData { files, ..self }
    }
}

/// What was selected.
#[derive(Clone, Debug)]
pub enum SearchSelection {
    Facet(FacetRow),
    File(FileRow),
}

/// Whether the search was accepted, what was selected, and the final query.
#[derive(Clone, Debug)]
pub struct SearchOutcome {
    pub accepted: bool,
    pub selection: Option<SearchSelection>,
    pub query: String,
}

impl SearchOutcome {
    /// The selected file, when a file was selected.
    pub fn selected_file(&self) -> (r: Option<&FileRow>)
        ensures
            match self.selection {
                Some(SearchSelection::File(f)) => r == Some(&f),
                _ => r is None,
            },
    {
        match &self.selection {
            Some(SearchSelection::File(file)) => Some(file),
            _ => None,
        }
    }

    /// The selected facet, when a facet was selected.
    pub fn selected_facet(&self) -> (r: Option<&FacetRow>)
        ensures
            match self.selection {
                Some(SearchSelection::Facet(f)) => r == Some(&f),
                _ => r is None,
            },
    {
        match &self.selection {
            Some(SearchSelection::Facet(facet)) => Some(facet),
            _ => None,
        }
    }
}

} // verus!
