//! Attribute states, tag tokens, and the two aggregates a traversal fills:
//! tag statistics and the collected matches for one target tag.
use vstd::prelude::*;

use crate::assoc::{
    assoc, find_key, insert_str, key_view, keys_distinct, lemma_assoc_dom,
    lemma_assoc_get, lemma_assoc_update, lemma_push_distinct, str_set, str_views,
};
use crate::text::{contains_text, has_substring, same_text, split_tokens, tokens_of};

verus! {

/// The resolved state of the selected attribute on one file.
pub enum AttrState {
    /// No rule mentions the attribute.
    Unspecified,
    /// A rule unsets it (`-attr`).
    Unset,
    /// A rule sets it without a value (`attr`): the file belongs to every tag.
    Enabled,
    /// A rule gives it a value (`attr=a,b`): a comma-separated list of tags.
    Value(String),
}

/// The sentinel token under which files with the attribute merely set are recorded.
pub open spec fn global_token() -> Seq<char> {
    seq!['g', 'l', 'o', 'b', 'a', 'l']
}

/// The tokens that a file in state `st` carries.
pub open spec fn state_tokens(st: AttrState) -> Seq<Seq<char>> {
    match st {
        AttrState::Enabled => seq![global_token()],
        AttrState::Value(v) => tokens_of(v@),
        _ => Seq::empty(),
    }
}

/// A token satisfies the user's tag filter: it is the sentinel or contains the tag.
pub open spec fn token_selected(token: Seq<char>, tag: Seq<char>) -> bool {
    token == global_token() || has_substring(token, tag)
}

/// A count raised by one, held at the largest `usize`.
pub open spec fn bump(n: usize) -> usize {
    if n < usize::MAX {
        (n + 1) as usize
    } else {
        n
    }
}

/// The count of `t` in `m`, zero when absent.
pub open spec fn count_in(m: Map<Seq<char>, usize>, t: Seq<char>) -> usize {
    if m.contains_key(t) {
        m[t]
    } else {
        0
    }
}

/// Counts `m` after one more occurrence of `t`.
pub open spec fn counts_record(m: Map<Seq<char>, usize>, t: Seq<char>) -> Map<Seq<char>, usize> {
    m.insert(t, bump(count_in(m, t)))
}

/// The tags recorded for `p` in `m`, empty when absent.
pub open spec fn tags_in(m: Map<Seq<char>, Set<Seq<char>>>, p: Seq<char>) -> Set<Seq<char>> {
    if m.contains_key(p) {
        m[p]
    } else {
        Set::empty()
    }
}

/// Whether `token` is the sentinel token.
pub fn is_global(token: &str) -> (r: bool)
    ensures
        r == (token@ == global_token()),
{
    proof {
        reveal_strlit("global");
        assert("global"@ =~= global_token());
    }
    same_text(token, "global")
}

/// Whether `token` satisfies the filter `tag`.
pub fn token_matches(token: &str, tag: &str) -> (r: bool)
    ensures
        r == token_selected(token@, tag@),
{
    is_global(token) || contains_text(token, tag)
}

/// The tokens that a file in state `st` carries.
pub fn tokens_for_state(st: &AttrState) -> (r: Vec<String>)
    ensures
        str_views(r@) == state_tokens(*st),
{
    match st {
        AttrState::Enabled => {
            let g = "global".to_owned();
            let mut r: Vec<String> = Vec::new();
            r.push(g);
            proof {
                reveal_strlit("global");
                assert("global"@ =~= global_token());
                assert(str_views(r@) =~= seq![global_token()]);
            }
            r
        },
        AttrState::Value(v) => split_tokens(v.as_str()),
        _ => {
            let r: Vec<String> = Vec::new();
            proof {
                assert(str_views(r@) =~= Seq::<Seq<char>>::empty());
            }
            r
        },
    }
}

/// Statistics about the tags found: how many times each token occurred.
pub struct TagCounts {
    entries: Vec<(String, usize)>,
}

impl View for TagCounts {
    type V = Map<Seq<char>, usize>;

    closed spec fn view(&self) -> Map<Seq<char>, usize> {
        assoc(key_view(self.entries@))
    }
}

impl TagCounts {
    /// The entries hold each token once.
    pub closed spec fn wf(&self) -> bool {
        keys_distinct(key_view(self.entries@))
    }

    pub fn new() -> (r: Self)
        ensures
            r.wf(),
            r@ == Map::<Seq<char>, usize>::empty(),
    {
        TagCounts { entries: Vec::new() }
    }

    /// Records one occurrence of `tag`.
    pub fn record(&mut self, tag: &str)
        requires
            old(self).wf(),
        ensures
            final(self).wf(),
            final(self)@ == counts_record(old(self)@, tag@),
    {
        let ghost kv = key_view(self.entries@);
        match find_key(&self.entries, tag) {
            Some(i) => {
                let n = self.entries[i].1;
                let m = if n < usize::MAX {
                    n + 1
                } else {
                    n
                };
                self.entries[i].1 = m;
                proof {
                    lemma_assoc_get(kv, i as int);
                    lemma_assoc_update(kv, i as int, m);
                    assert(key_view(self.entries@) =~= kv.update(i as int, (kv[i as int].0, m)));
                }
            },
            None => {
                self.entries.push((tag.to_owned(), 1));
                proof {
                    lemma_assoc_dom(kv, tag@);
                    lemma_push_distinct(kv, tag@, 1usize);
                    assert(key_view(self.entries@) =~= kv.push((tag@, 1usize)));
                }
            },
        }
    }

    /// Whether no tag was found.
    pub fn is_empty(&self) -> (r: bool)
        ensures
            r == (self@.dom() == Set::<Seq<char>>::empty()),
    {
        proof {
            if self.entries@.len() > 0 {
                lemma_assoc_dom(key_view(self.entries@), key_view(self.entries@)[0].0);
            } else {
                assert(self@ =~= Map::<Seq<char>, usize>::empty());
            }
        }
        self.entries.len() == 0
    }

    /// The tags and their counts, each tag once, in the order first seen.
    pub fn into_inner(self) -> (r: Vec<(String, usize)>)
        requires
            self.wf(),
        ensures
            keys_distinct(key_view(r@)),
            assoc(key_view(r@)) == self@,
    {
        self.entries
    }
}

/// The abstract content of a [`CollectState`].
pub struct CollectModel {
    pub matches: Seq<(Seq<char>, Seq<char>)>,
    pub patterns: Set<Seq<char>>,
    pub tag_counts: Map<Seq<char>, usize>,
    pub file_map: Map<Seq<char>, Set<Seq<char>>>,
}

/// The empty aggregate.
pub open spec fn empty_model() -> CollectModel {
    CollectModel {
        matches: Seq::empty(),
        patterns: Set::empty(),
        tag_counts: Map::empty(),
        file_map: Map::empty(),
    }
}

/// The aggregate after recording `token` for `pattern` under the filter `tag`.
pub open spec fn record_model(
    m: CollectModel,
    pattern: Seq<char>,
    token: Seq<char>,
    tag: Seq<char>,
) -> CollectModel {
    if token_selected(token, tag) {
        CollectModel {
            matches: m.matches.push((pattern, token)),
            patterns: m.patterns.insert(pattern),
            tag_counts: counts_record(m.tag_counts, token),
            file_map: m.file_map.insert(pattern, tags_in(m.file_map, pattern).insert(token)),
        }
    } else {
        m
    }
}

/// The files and tags collected for one target tag.
pub struct CollectState {
    /// Every recorded (pattern, token) pair, in traversal order.
    pub matches: Vec<(String, String)>,
    /// The distinct patterns, in the order first recorded.
    pub patterns: Vec<String>,
    /// For each token, the number of files recorded under it.
    pub tag_counts: Vec<(String, usize)>,
    /// For each pattern, its distinct tokens.
    pub file_map: Vec<(String, Vec<String>)>,
}

/// The file map with each token list seen as a set.
pub open spec fn file_map_view(s: Seq<(String, Vec<String>)>) -> Seq<(Seq<char>, Set<Seq<char>>)> {
    s.map_values(|e: (String, Vec<String>)| (e.0@, str_set(e.1@)))
}

impl View for CollectState {
    type V = CollectModel;

    open spec fn view(&self) -> CollectModel {
        CollectModel {
            matches: self.matches@.map_values(|e: (String, String)| (e.0@, e.1@)),
            patterns: str_set(self.patterns@),
            tag_counts: assoc(key_view(self.tag_counts@)),
            file_map: assoc(file_map_view(self.file_map@)),
        }
    }
}

impl CollectState {
    /// Patterns and keys are held once each, and the patterns are the file map's keys.
    pub open spec fn wf(&self) -> bool {
        &&& str_views(self.patterns@).no_duplicates()
        &&& keys_distinct(key_view(self.tag_counts@))
        &&& keys_distinct(file_map_view(self.file_map@))
        &&& forall|i: int|
            0 <= i < self.file_map@.len() ==> str_views(
                (#[trigger] self.file_map@[i]).1@,
            ).no_duplicates()
        &&& str_set(self.patterns@) == assoc(file_map_view(self.file_map@)).dom()
    }

    pub fn new() -> (r: Self)
        ensures
            r.wf(),
            r@ == empty_model(),
    {
        let r = CollectState {
            matches: Vec::new(),
            patterns: Vec::new(),
            tag_counts: Vec::new(),
            file_map: Vec::new(),
        };
        proof {
            assert(r@.matches =~= Seq::<(Seq<char>, Seq<char>)>::empty());
            assert(str_set(r.patterns@) =~= Set::<Seq<char>>::empty());
            assert(assoc(file_map_view(r.file_map@)) =~= Map::<Seq<char>, Set<Seq<char>>>::empty());
        }
        r
    }

    /// Adds `token` to the tags of `pattern` in the file map.
    fn add_file_tag(&mut self, pattern: &str, token: &str)
        requires
            keys_distinct(file_map_view(old(self).file_map@)),
            forall|i: int|
                0 <= i < old(self).file_map@.len() ==> str_views(
                    (#[trigger] old(self).file_map@[i]).1@,
                ).no_duplicates(),
        ensures
            keys_distinct(file_map_view(final(self).file_map@)),
            forall|i: int|
                0 <= i < final(self).file_map@.len() ==> str_views(
                    (#[trigger] final(self).file_map@[i]).1@,
                ).no_duplicates(),
            assoc(file_map_view(final(self).file_map@)) == ({
                let m = assoc(file_map_view(old(self).file_map@));
                m.insert(pattern@, tags_in(m, pattern@).insert(token@))
            }),
            final(self).matches == old(self).matches,
            final(self).patterns == old(self).patterns,
            final(self).tag_counts == old(self).tag_counts,
    {
        let ghost fv = file_map_view(self.file_map@);
        let ghost m = assoc(fv);
        let ghost old_fm = self.file_map@;
        match find_key(&self.file_map, pattern) {
            Some(i) => {
                proof {
                    assert(fv[i as int].0 == key_view(self.file_map@)[i as int].0);
                    lemma_assoc_get(fv, i as int);
                }
                let ghost before = self.file_map@[i as int].1;
                insert_str(&mut self.file_map[i].1, token);
                proof {
                    let s2 = str_set(self.file_map@[i as int].1@);
                    lemma_assoc_update(fv, i as int, s2);
                    assert(file_map_view(self.file_map@) =~= fv.update(i as int, (fv[i as int].0, s2)));
                    assert forall|j: int|
                        0 <= j < self.file_map@.len() implies str_views(
                            (#[trigger] self.file_map@[j]).1@,
                        ).no_duplicates() by {
                        if j != i {
                            assert(self.file_map@[j] == old_fm[j]);
                        }
                    }
                }
            },
            None => {
                let mut tags: Vec<String> = Vec::new();
                insert_str(&mut tags, token);
                self.file_map.push((pattern.to_owned(), tags));
                proof {
                    assert forall|j: int| 0 <= j < fv.len() implies #[trigger] fv[j].0 != pattern@ by {
                        assert(fv[j].0 == key_view(old_fm)[j].0);
                    }
                    lemma_assoc_dom(fv, pattern@);
                    assert(str_set(Seq::<String>::empty()) =~= Set::<Seq<char>>::empty());
                    lemma_push_distinct(fv, pattern@, str_set(tags@));
                    assert(file_map_view(self.file_map@) =~= fv.push((pattern@, str_set(tags@))));
                    assert forall|j: int|
                        0 <= j < self.file_map@.len() implies str_views(
                            (#[trigger] self.file_map@[j]).1@,
                        ).no_duplicates() by {
                        if j < old_fm.len() {
                            assert(self.file_map@[j] == old_fm[j]);
                        }
                    }
                }
            },
        }
    }

    /// Records `token` for `pattern` when it satisfies the filter `user_tag`:
    /// appends the match, adds the pattern, counts the token and adds it to
    /// the pattern's tags. Otherwise nothing changes.
    pub fn record_match(&mut self, pattern: &str, token: &str, user_tag: &str)
        requires
            old(self).wf(),
        ensures
            final(self).wf(),
            final(self)@ == record_model(old(self)@, pattern@, token@, user_tag@),
    {
        if token_matches(token, user_tag) {
            let ghost m0 = self@;
            self.matches.push((pattern.to_owned(), token.to_owned()));
            insert_str(&mut self.patterns, pattern);
            let mut counts = TagCounts { entries: Vec::new() };
            std::mem::swap(&mut counts.entries, &mut self.tag_counts);
            counts.record(token);
            std::mem::swap(&mut counts.entries, &mut self.tag_counts);
            self.add_file_tag(pattern, token);
            proof {
                assert(self@.matches =~= m0.matches.push((pattern@, token@)));
                assert(self@.file_map.dom() =~= m0.file_map.dom().insert(pattern@));
            }
        }
    }
}

} // verus!
