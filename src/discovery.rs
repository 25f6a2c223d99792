//! Finding configuration values in a JSON document, breadth first: the first
//! object that holds every required key, and the first string value of a key.
use vstd::prelude::*;

use crate::assoc::{key_view, str_views};
use crate::cmd::opt_view;
use crate::config::{Config, ConfigError, Overrides};
use crate::text::same_text;

verus! {

/// A JSON value as the search reads it: arrays and objects refer to the
/// values they hold by their position in the document.
pub enum JsonValue {
    /// `null`, a boolean or a number.
    Scalar,
    Text(String),
    Array(Vec<usize>),
    Object(Vec<(String, usize)>),
}

/// A JSON document: its values, the root first.
pub struct JsonDoc {
    pub nodes: Vec<JsonValue>,
}

/// The values that node `i` holds, in order: an array's items, an object's
/// values in key order.
pub open spec fn children(d: Seq<JsonValue>, i: int) -> Seq<int> {
    if 0 <= i < d.len() {
        match d[i] {
            JsonValue::Array(items) => items@.map_values(|x: usize| x as int),
            JsonValue::Object(entries) => entries@.map_values(|e: (String, usize)| e.1 as int),
            _ => Seq::empty(),
        }
    } else {
        Seq::empty()
    }
}

/// The level after `level` in breadth-first order: the children of its nodes, in order.
pub open spec fn next_level(d: Seq<JsonValue>, level: Seq<int>) -> Seq<int>
    decreases level.len(),
{
    if level.len() == 0 {
        Seq::empty()
    } else {
        next_level(d, level.drop_last()) + children(d, level.last())
    }
}

/// The position of the first of the first `n` entries whose key is `key`.
pub open spec fn first_key_pos(kv: Seq<(Seq<char>, usize)>, key: Seq<char>, n: int) -> Option<int>
    decreases n,
{
    if n <= 0 || n > kv.len() {
        None
    } else {
        match first_key_pos(kv, key, n - 1) {
            Some(q) => Some(q),
            None => if kv[n - 1].0 == key {
                Some(n - 1)
            } else {
                None
            },
        }
    }
}

/// The entry of an object for `key`: the first one with that key.
pub open spec fn entry_for(entries: Seq<(String, usize)>, key: Seq<char>) -> Option<int> {
    first_key_pos(key_view(entries), key, entries.len() as int)
}

/// Node `i` is an object that holds every key of `keys`.
pub open spec fn has_keys(d: Seq<JsonValue>, i: int, keys: Seq<Seq<char>>) -> bool {
    0 <= i < d.len() && match d[i] {
        JsonValue::Object(entries) => forall|k: int|
            0 <= k < keys.len() ==> (#[trigger] entry_for(entries@, keys[k])) is Some,
        _ => false,
    }
}

/// The string that object node `i` holds under `key`.
pub open spec fn text_at(d: Seq<JsonValue>, i: int, key: Seq<char>) -> Option<Seq<char>> {
    if 0 <= i < d.len() {
        match d[i] {
            JsonValue::Object(entries) => match entry_for(entries@, key) {
                Some(q) => {
                    let v = entries@[q].1 as int;
                    if 0 <= v < d.len() {
                        match d[v] {
                            JsonValue::Text(s) => Some(s@),
                            _ => None,
                        }
                    } else {
                        None
                    }
                },
                None => None,
            },
            _ => None,
        }
    } else {
        None
    }
}

/// The first node of `level` that is an object with every key.
pub open spec fn first_with_keys(d: Seq<JsonValue>, level: Seq<int>, keys: Seq<Seq<char>>) -> Option<int>
    decreases level.len(),
{
    if level.len() == 0 {
        None
    } else {
        match first_with_keys(d, level.drop_last(), keys) {
            Some(i) => Some(i),
            None => if has_keys(d, level.last(), keys) {
                Some(level.last())
            } else {
                None
            },
        }
    }
}

/// The first string under `key` among the objects of `level`.
pub open spec fn first_text(d: Seq<JsonValue>, level: Seq<int>, key: Seq<char>) -> Option<Seq<char>>
    decreases level.len(),
{
    if level.len() == 0 {
        None
    } else {
        match first_text(d, level.drop_last(), key) {
            Some(s) => Some(s),
            None => text_at(d, level.last(), key),
        }
    }
}

/// Breadth first from `level` at `depth`: the first object with every key. A
/// document of `n` values has no level deeper than `n` below the root when
/// each value is held after the one that holds it, so the search stops there.
pub open spec fn search_keys(d: Seq<JsonValue>, level: Seq<int>, depth: nat, keys: Seq<Seq<char>>) -> Option<int>
    decreases d.len() - depth,
{
    if depth >= d.len() || level.len() == 0 {
        None
    } else {
        match first_with_keys(d, level, keys) {
            Some(i) => Some(i),
            None => search_keys(d, next_level(d, level), depth + 1, keys),
        }
    }
}

/// Breadth first from `level` at `depth`: the first string under `key`.
pub open spec fn search_text(d: Seq<JsonValue>, level: Seq<int>, depth: nat, key: Seq<char>) -> Option<Seq<char>>
    decreases d.len() - depth,
{
    if depth >= d.len() || level.len() == 0 {
        None
    } else {
        match first_text(d, level, key) {
            Some(s) => Some(s),
            None => search_text(d, next_level(d, level), depth + 1, key),
        }
    }
}

proof fn lemma_first_with_keys_prefix(d: Seq<JsonValue>, level: Seq<int>, m: int, keys: Seq<Seq<char>>)
    requires
        0 <= m <= level.len(),
        first_with_keys(d, level.take(m), keys) is Some,
    ensures
        first_with_keys(d, level, keys) == first_with_keys(d, level.take(m), keys),
    decreases level.len() - m,
{
    if m < level.len() {
        assert(level.take(m + 1).drop_last() =~= level.take(m));
        lemma_first_with_keys_prefix(d, level, m + 1, keys);
    } else {
        assert(level.take(m) =~= level);
    }
}

proof fn lemma_first_text_prefix(d: Seq<JsonValue>, level: Seq<int>, m: int, key: Seq<char>)
    requires
        0 <= m <= level.len(),
        first_text(d, level.take(m), key) is Some,
    ensures
        first_text(d, level, key) == first_text(d, level.take(m), key),
    decreases level.len() - m,
{
    if m < level.len() {
        assert(level.take(m + 1).drop_last() =~= level.take(m));
        lemma_first_text_prefix(d, level, m + 1, key);
    } else {
        assert(level.take(m) =~= level);
    }
}

/// The position of an object's entry for `key`: the first one with that key.
fn entry_position(entries: &Vec<(String, usize)>, key: &str) -> (r: Option<usize>)
    ensures
        match r {
            Some(q) => q < entries@.len() && entry_for(entries@, key@) == Some(q as int),
            None => entry_for(entries@, key@) is None,
        },
{
    let ghost kv = key_view(entries@);
    let mut q: usize = 0;
    while q < entries.len()
        invariant
            kv == key_view(entries@),
            q <= entries@.len(),
            first_key_pos(kv, key@, q as int) is None,
        decreases entries@.len() - q,
    {
        if same_text(entries[q].0.as_str(), key) {
            proof {
                assert(kv[q as int].0 == key@);
                assert(first_key_pos(kv, key@, q + 1) == Some(q as int));
                lemma_first_key_prefix(kv, key@, q + 1);
            }
            return Some(q);
        }
        q = q + 1;
    }
    None
}

proof fn lemma_first_key_prefix(kv: Seq<(Seq<char>, usize)>, key: Seq<char>, m: int)
    requires
        0 <= m <= kv.len(),
        first_key_pos(kv, key, m) is Some,
    ensures
        first_key_pos(kv, key, kv.len() as int) == first_key_pos(kv, key, m),
    decreases kv.len() - m,
{
    if m < kv.len() {
        lemma_first_key_prefix(kv, key, m + 1);
    }
}

/// Whether node `i` is an object that holds every key of `keys`.
fn holds_keys(doc: &JsonDoc, i: usize, keys: &Vec<String>) -> (r: bool)
    ensures
        r == has_keys(doc.nodes@, i as int, str_views(keys@)),
{
    if i >= doc.nodes.len() {
        return false;
    }
    match &doc.nodes[i] {
        JsonValue::Object(entries) => {
            let mut k: usize = 0;
            while k < keys.len()
                invariant
                    i < doc.nodes@.len(),
                    doc.nodes@[i as int] == JsonValue::Object(*entries),
                    k <= keys@.len(),
                    forall|j: int| 0 <= j < k ==> (#[trigger] entry_for(entries@, keys@[j]@)) is Some,
                decreases keys@.len() - k,
            {
                if entry_position(entries, keys[k].as_str()).is_none() {
                    proof {
                        assert(str_views(keys@)[k as int] == keys@[k as int]@);
                        assert(entry_for(entries@, str_views(keys@)[k as int]) is None);
                    }
                    return false;
                }
                k = k + 1;
            }
            proof {
                assert forall|j: int| 0 <= j < str_views(keys@).len() implies (#[trigger] entry_for(
                    entries@,
                    str_views(keys@)[j],
                )) is Some by {
                    assert(str_views(keys@)[j] == keys@[j]@);
                }
            }
            true
        },
        _ => false,
    }
}

/// The string that object node `i` holds under `key`.
fn text_of(doc: &JsonDoc, i: usize, key: &str) -> (r: Option<String>)
    ensures
        match r {
            Some(s) => text_at(doc.nodes@, i as int, key@) == Some(s@),
            None => text_at(doc.nodes@, i as int, key@) is None,
        },
{
    if i >= doc.nodes.len() {
        return None;
    }
    match &doc.nodes[i] {
        JsonValue::Object(entries) => match entry_position(entries, key) {
            Some(q) => {
                let v = entries[q].1;
                if v < doc.nodes.len() {
                    match &doc.nodes[v] {
                        JsonValue::Text(s) => Some(s.clone()),
                        _ => None,
                    }
                } else {
                    None
                }
            },
            None => None,
        },
        _ => None,
    }
}

/// The values that node `i` holds, appended to `out`.
fn push_children(doc: &JsonDoc, i: usize, out: &mut Vec<usize>)
    ensures
        final(out)@.map_values(|x: usize| x as int) == old(out)@.map_values(|x: usize| x as int)
            + children(doc.nodes@, i as int),
{
    let ghost start = out@.map_values(|x: usize| x as int);
    if i >= doc.nodes.len() {
        assert(out@.map_values(|x: usize| x as int) =~= start + Seq::<int>::empty());
        return;
    }
    match &doc.nodes[i] {
        JsonValue::Array(items) => {
            let mut k: usize = 0;
            while k < items.len()
                invariant
                    k <= items@.len(),
                    out@.map_values(|x: usize| x as int) == start + items@.map_values(|x: usize| x as int).take(k as int),
                decreases items@.len() - k,
            {
                out.push(items[k]);
                proof {
                    assert(items@.map_values(|x: usize| x as int).take(k + 1) =~= items@.map_values(|x: usize| x as int).take(k as int).push(items@[k as int] as int));
                    assert(out@.map_values(|x: usize| x as int) =~= (start + items@.map_values(|x: usize| x as int).take(k as int)).push(items@[k as int] as int));
                }
                k = k + 1;
            }
            assert(items@.map_values(|x: usize| x as int).take(items@.len() as int) =~= items@.map_values(|x: usize| x as int));
        },
        JsonValue::Object(entries) => {
            let mut k: usize = 0;
            while k < entries.len()
                invariant
                    k <= entries@.len(),
                    out@.map_values(|x: usize| x as int) == start + entries@.map_values(|e: (String, usize)| e.1 as int).take(k as int),
                decreases entries@.len() - k,
            {
                out.push(entries[k].1);
                proof {
                    assert(entries@.map_values(|e: (String, usize)| e.1 as int).take(k + 1) =~= entries@.map_values(|e: (String, usize)| e.1 as int).take(k as int).push(entries@[k as int].1 as int));
                    assert(out@.map_values(|x: usize| x as int) =~= (start + entries@.map_values(|e: (String, usize)| e.1 as int).take(k as int)).push(entries@[k as int].1 as int));
                }
                k = k + 1;
            }
            assert(entries@.map_values(|e: (String, usize)| e.1 as int).take(entries@.len() as int) =~= entries@.map_values(|e: (String, usize)| e.1 as int));
        },
        _ => {
            assert(out@.map_values(|x: usize| x as int) =~= start + Seq::<int>::empty());
        },
    }
}

/// The next level of a breadth-first walk.
fn next_of(doc: &JsonDoc, level: &Vec<usize>) -> (r: Vec<usize>)
    ensures
        r@.map_values(|x: usize| x as int) == next_level(doc.nodes@, level@.map_values(|x: usize| x as int)),
{
    let ghost lv = level@.map_values(|x: usize| x as int);
    let mut out: Vec<usize> = Vec::new();
    let mut j: usize = 0;
    while j < level.len()
        invariant
            lv == level@.map_values(|x: usize| x as int),
            j <= level@.len(),
            out@.map_values(|x: usize| x as int) == next_level(doc.nodes@, lv.take(j as int)),
        decreases level@.len() - j,
    {
        push_children(doc, level[j], &mut out);
        proof {
            assert(lv.take(j + 1).drop_last() =~= lv.take(j as int));
            assert(lv.take(j + 1).last() == level@[j as int] as int);
        }
        j = j + 1;
    }
    assert(lv.take(level@.len() as int) =~= lv);
    out
}

/// The first object, breadth first from the root, that holds every key of `keys`.
pub fn first_object_with_keys(doc: &JsonDoc, keys: &Vec<String>) -> (r: Option<usize>)
    ensures
        match r {
            Some(i) => search_keys(doc.nodes@, seq![0int], 0, str_views(keys@)) == Some(i as int),
            None => search_keys(doc.nodes@, seq![0int], 0, str_views(keys@)) is None,
        },
{
    let ghost d = doc.nodes@;
    let ghost ks = str_views(keys@);
    let n = doc.nodes.len();
    let mut level: Vec<usize> = Vec::new();
    level.push(0);
    let mut depth: usize = 0;
    proof {
        assert(level@.map_values(|x: usize| x as int) =~= seq![0int]);
    }
    while depth < n && level.len() > 0
        invariant
            d == doc.nodes@,
            ks == str_views(keys@),
            n == d.len(),
            depth <= n,
            search_keys(d, seq![0int], 0, ks) == search_keys(d, level@.map_values(|x: usize| x as int), depth as nat, ks),
        decreases n - depth,
    {
        let ghost lv = level@.map_values(|x: usize| x as int);
        let mut j: usize = 0;
        while j < level.len()
            invariant
                lv == level@.map_values(|x: usize| x as int),
                ks == str_views(keys@),
                d == doc.nodes@,
                n == d.len(),
                depth < n,
                lv.len() > 0,
                search_keys(d, seq![0int], 0, ks) == search_keys(d, lv, depth as nat, ks),
                j <= level@.len(),
                first_with_keys(d, lv.take(j as int), ks) is None,
            decreases level@.len() - j,
        {
            if holds_keys(doc, level[j], keys) {
                proof {
                    assert(lv.take(j + 1).drop_last() =~= lv.take(j as int));
                    assert(lv.take(j + 1).last() == level@[j as int] as int);
                    lemma_first_with_keys_prefix(d, lv, j + 1, ks);
                }
                return Some(level[j]);
            }
            proof {
                assert(lv.take(j + 1).drop_last() =~= lv.take(j as int));
                assert(lv.take(j + 1).last() == level@[j as int] as int);
            }
            j = j + 1;
        }
        proof {
            assert(lv.take(level@.len() as int) =~= lv);
        }
        level = next_of(doc, &level);
        depth = depth + 1;
    }
    None
}

/// The first string under `key`, breadth first from the root.
pub fn first_value_for_key(doc: &JsonDoc, key: &str) -> (r: Option<String>)
    ensures
        match r {
            Some(s) => search_text(doc.nodes@, seq![0int], 0, key@) == Some(s@),
            None => search_text(doc.nodes@, seq![0int], 0, key@) is None,
        },
{
    let ghost d = doc.nodes@;
    let n = doc.nodes.len();
    let mut level: Vec<usize> = Vec::new();
    level.push(0);
    let mut depth: usize = 0;
    proof {
        assert(level@.map_values(|x: usize| x as int) =~= seq![0int]);
    }
    while depth < n && level.len() > 0
        invariant
            d == doc.nodes@,
            n == d.len(),
            depth <= n,
            search_text(d, seq![0int], 0, key@) == search_text(d, level@.map_values(|x: usize| x as int), depth as nat, key@),
        decreases n - depth,
    {
        let ghost lv = level@.map_values(|x: usize| x as int);
        let mut j: usize = 0;
        while j < level.len()
            invariant
                lv == level@.map_values(|x: usize| x as int),
                d == doc.nodes@,
                n == d.len(),
                depth < n,
                lv.len() > 0,
                search_text(d, seq![0int], 0, key@) == search_text(d, lv, depth as nat, key@),
                j <= level@.len(),
                first_text(d, lv.take(j as int), key@) is None,
            decreases level@.len() - j,
        {
            let found = text_of(doc, level[j], key);
            proof {
                assert(lv.take(j + 1).drop_last() =~= lv.take(j as int));
                assert(lv.take(j + 1).last() == level@[j as int] as int);
            }
            match found {
                Some(s) => {
                    proof {
                        lemma_first_text_prefix(d, lv, j + 1, key@);
                    }
                    return Some(s);
                },
                None => {},
            }
            j = j + 1;
        }
        proof {
            assert(lv.take(level@.len() as int) =~= lv);
        }
        level = next_of(doc, &level);
        depth = depth + 1;
    }
    None
}

/// The keys that a configuration object must hold.
pub open spec fn required_keys() -> Seq<Seq<char>> {
    seq!["SUBMODULE_NAME"@, "SUBMODULE_PATH"@, "SUBMODULE_URL"@, "SUBMODULE_BRANCH"@, "PROJECT_TAG"@]
}

/// The keys that a configuration object must hold.
pub fn required_key_names() -> (r: Vec<String>)
    ensures
        str_views(r@) == required_keys(),
{
    let mut r: Vec<String> = Vec::new();
    r.push("SUBMODULE_NAME".to_owned());
    r.push("SUBMODULE_PATH".to_owned());
    r.push("SUBMODULE_URL".to_owned());
    r.push("SUBMODULE_BRANCH".to_owned());
    r.push("PROJECT_TAG".to_owned());
    assert(str_views(r@) =~= required_keys());
    r
}

/// The string that object node `obj` holds under `key`; an error when it holds none.
pub fn get_string(doc: &JsonDoc, obj: usize, key: &str) -> (r: Result<String, ConfigError>)
    ensures
        match r {
            Ok(s) => text_at(doc.nodes@, obj as int, key@) == Some(s@),
            Err(e) => text_at(doc.nodes@, obj as int, key@) is None && e == ConfigError::MissingKey,
        },
{
    match text_of(doc, obj, key) {
        Some(s) => Ok(s),
        None => Err(ConfigError::MissingKey),
    }
}

/// The base configuration that a document holds: the first object, breadth
/// first, with every required key, read as strings; the optional mirror is
/// its `SHARED_MIRROR_PATH` string. `Ok(None)` when no object has the keys.
pub fn base_config(doc: &JsonDoc, config_file: &str, work_repo: &str) -> (r: Result<Option<Config>, ConfigError>)
    ensures
        search_keys(doc.nodes@, seq![0int], 0, required_keys()) is None ==> r == Ok::<Option<Config>, ConfigError>(None),
        search_keys(doc.nodes@, seq![0int], 0, required_keys()) matches Some(i) ==> {
            let d = doc.nodes@;
            let all = text_at(d, i, "SUBMODULE_NAME"@) is Some && text_at(d, i, "SUBMODULE_PATH"@) is Some
                && text_at(d, i, "SUBMODULE_URL"@) is Some && text_at(d, i, "SUBMODULE_BRANCH"@) is Some
                && text_at(d, i, "PROJECT_TAG"@) is Some;
            &&& !all ==> r == Err::<Option<Config>, ConfigError>(ConfigError::MissingKey)
            &&& all ==> (r matches Ok(Some(c)) && Some(c.submodule_name@) == text_at(d, i, "SUBMODULE_NAME"@)
                && Some(c.submodule_path@) == text_at(d, i, "SUBMODULE_PATH"@)
                && Some(c.submodule_url@) == text_at(d, i, "SUBMODULE_URL"@)
                && Some(c.submodule_branch@) == text_at(d, i, "SUBMODULE_BRANCH"@)
                && Some(c.project_tag@) == text_at(d, i, "PROJECT_TAG"@)
                && opt_view(c.shared_mirror_path) == text_at(d, i, "SHARED_MIRROR_PATH"@)
                && c.submodule_path_relative@.len() == 0
                && c.config_file@ == config_file@ && c.work_repo@ == work_repo@)
        },
{
    let keys = required_key_names();
    let found = first_object_with_keys(doc, &keys);
    let i = match found {
        Some(i) => i,
        None => {
            return Ok(None);
        },
    };
    let name = get_string(doc, i, "SUBMODULE_NAME")?;
    let path = get_string(doc, i, "SUBMODULE_PATH")?;
    let url = get_string(doc, i, "SUBMODULE_URL")?;
    let branch = get_string(doc, i, "SUBMODULE_BRANCH")?;
    let tag = get_string(doc, i, "PROJECT_TAG")?;
    let mirror = text_of(doc, i, "SHARED_MIRROR_PATH");
    Ok(
        Some(
            Config {
                submodule_name: name,
                submodule_path: path,
                submodule_path_relative: String::new(),
                submodule_url: url,
                submodule_branch: branch,
                project_tag: tag,
                shared_mirror_path: mirror,
                config_file: config_file.to_owned(),
                work_repo: work_repo.to_owned(),
            },
        ),
    )
}

/// The overrides that a local file holds: the first `SUBMODULE_URL` and the
/// first `SHARED_MIRROR_PATH` strings, breadth first.
pub fn local_overrides(doc: &JsonDoc) -> (r: Overrides)
    ensures
        opt_view(r.submodule_url) == search_text(doc.nodes@, seq![0int], 0, "SUBMODULE_URL"@),
        opt_view(r.shared_mirror_path) == search_text(doc.nodes@, seq![0int], 0, "SHARED_MIRROR_PATH"@),
{
    Overrides {
        submodule_url: first_value_for_key(doc, "SUBMODULE_URL"),
        shared_mirror_path: first_value_for_key(doc, "SHARED_MIRROR_PATH"),
    }
}

} // verus!
