//! The key store: a mapping from slot names to text that is written out as
//! one JSON document after every change.

use crate::dict::Dict;
use crate::json::{json_map_text, render_string_map};
use crate::utils::{dict_of_json, json_to_dict};
use vstd::prelude::*;

verus! {

/// What the store holds under `key`.
pub open spec fn lookup(store: Map<Seq<char>, Seq<char>>, key: Seq<char>) -> Option<Seq<char>> {
    if store.contains_key(key) {
        Some(store[key])
    } else {
        None
    }
}

/// The store after `value` was set under `key`.
pub open spec fn after_set(
    store: Map<Seq<char>, Seq<char>>,
    key: Seq<char>,
    value: Seq<char>,
) -> Map<Seq<char>, Seq<char>> {
    store.insert(key, value)
}

/// The store after `key` was deleted.
pub open spec fn after_delete(store: Map<Seq<char>, Seq<char>>, key: Seq<char>) -> Map<
    Seq<char>,
    Seq<char>,
> {
    store.remove(key)
}

/// The store after the content of its backing location was read into it.
/// Empty content, which stands for a missing location too, leaves the store
/// as it was; content that is no JSON object of strings gives an empty store.
pub open spec fn loaded(before: Map<Seq<char>, Seq<char>>, content: Seq<char>) -> Map<
    Seq<char>,
    Seq<char>,
> {
    if content.len() == 0 {
        before
    } else {
        dict_of_json(content)
    }
}

/// The store that a fresh process has after reading `content`.
pub open spec fn reopened(content: Seq<char>) -> Map<Seq<char>, Seq<char>> {
    loaded(Map::empty(), content)
}

/// A value that was set is what a lookup returns, and a deleted key is absent.
pub proof fn lemma_store_idempotence(
    store: Map<Seq<char>, Seq<char>>,
    key: Seq<char>,
    value: Seq<char>,
)
    ensures
        lookup(after_set(store, key, value), key) == Some(value),
        lookup(after_delete(store, key), key) == None::<Seq<char>>,
{
}

/// A write to one key leaves every other key as it was.
pub proof fn lemma_store_frame(
    store: Map<Seq<char>, Seq<char>>,
    key: Seq<char>,
    value: Seq<char>,
    other: Seq<char>,
)
    requires
        other != key,
    ensures
        lookup(after_set(store, key, value), other) == lookup(store, other),
        lookup(after_delete(store, key), other) == lookup(store, other),
{
}

/// The key store of one secrets manager.
pub struct FileKeyValueStorage {
    config_file_location: String,
    data: Dict,
}

impl View for FileKeyValueStorage {
    type V = Map<Seq<char>, Seq<char>>;

    closed spec fn view(&self) -> Map<Seq<char>, Seq<char>> {
        self.data@
    }
}

impl FileKeyValueStorage {
    /// The location that backs the store.
    pub closed spec fn location(&self) -> Seq<char> {
        self.config_file_location@
    }

    /// The location of a store that was given none.
    pub open spec fn default_location() -> Seq<char> {
        "client-config.json"@
    }

    /// An empty store for the given location, or for the default one. What
    /// the location holds is handed to `load`.
    pub fn new(config_file_location: Option<&str>) -> (r: Self)
        ensures
            r@ == Map::<Seq<char>, Seq<char>>::empty(),
            r.location() == match config_file_location {
                Some(location) => location@,
                None => Self::default_location(),
            },
    {
        let location = match config_file_location {
            Some(location) => location.to_owned(),
            None => "client-config.json".to_owned(),
        };
        FileKeyValueStorage { config_file_location: location, data: Dict::new() }
    }

    /// Takes in the content of the backing location.
    pub fn load(&mut self, content: &str)
        ensures
            final(self)@ == loaded(old(self)@, content@),
            final(self).location() == old(self).location(),
    {
        if !content.is_empty() {
            self.data = json_to_dict(content);
        }
    }

    /// The location that backs the store.
    pub fn config_file_location(&self) -> (r: &str)
        ensures
            r@ == self.location(),
    {
        self.config_file_location.as_str()
    }

    /// The value of the slot `key`.
    pub fn get(&self, key: &str) -> (r: Option<&String>)
        ensures
            match lookup(self@, key@) {
                Some(value) => r is Some && r->Some_0@ == value,
                None => r is None,
            },
    {
        self.data.get(key)
    }

    /// Sets the slot `key` and returns the document to persist, which holds
    /// the whole store after the change.
    #[must_use]
    pub fn set(&mut self, key: &str, value: String) -> (document: String)
        ensures
            final(self)@ == after_set(old(self)@, key@, value@),
            final(self).location() == old(self).location(),
            document@ == json_map_text(final(self)@),
            reopened(document@) == final(self)@,
    {
        let mut data = Dict::new();
        std::mem::swap(&mut data, &mut self.data);
        data.insert(key, value);
        self.data = data;
        self.save()
    }

    /// Deletes the slot `key` and returns the document to persist, which
    /// holds the whole store after the change.
    #[must_use]
    pub fn delete(&mut self, key: &str) -> (document: String)
        ensures
            final(self)@ == after_delete(old(self)@, key@),
            final(self).location() == old(self).location(),
            document@ == json_map_text(final(self)@),
            reopened(document@) == final(self)@,
    {
        let mut data = Dict::new();
        std::mem::swap(&mut data, &mut self.data);
        data.remove(key);
        self.data = data;
        self.save()
    }

    /// The document that holds the whole store. A fresh store that loads it
    /// has the same mapping.
    pub fn save(&self) -> (document: String)
        ensures
            document@ == json_map_text(self@),
            reopened(document@) == self@,
    {
        render_string_map(self.data.as_entries())
    }
}

} // verus!
