//! Descriptive metadata attached to templates and outputs.  It never takes
//! part in a digest.

use vstd::prelude::*;

verus! {

/// A number of an extension value.
#[derive(Debug, Clone, Copy)]
pub enum JsonNumber {
    /// A non-negative integer.
    PosInt(u64),
    /// A negative integer.
    NegInt(i64),
    /// A number with a fraction or an exponent, held as the bit pattern of
    /// the double-precision value.
    Float(u64),
}

/// A value of the open extension map.
#[derive(Debug)]
pub enum JsonValue {
    Null,
    Bool(bool),
    Number(JsonNumber),
    String(String),
    Array(Vec<JsonValue>),
    Object(Vec<(String, JsonValue)>),
}

impl Clone for JsonValue {
    fn clone(&self) -> (copy: JsonValue)
        decreases self,
    {
        match self {
            JsonValue::Null => JsonValue::Null,
            JsonValue::Bool(b) => JsonValue::Bool(*b),
            JsonValue::Number(n) => JsonValue::Number(*n),
            JsonValue::String(s) => JsonValue::String(s.clone()),
            JsonValue::Array(items) => {
                let mut copies: Vec<JsonValue> = Vec::new();
                let mut i: usize = 0;
                while i < items.len()
                    invariant
                        i <= items@.len(),
                        decreases_to!(self => items),
                    decreases items@.len() - i,
                {
                    proof {
                        vstd::std_specs::vec::axiom_vec_index_decreases(*items, i as int);
                    }
                    copies.push(items[i].clone());
                    i = i + 1;
                }
                JsonValue::Array(copies)
            },
            JsonValue::Object(fields) => {
                let mut copies: Vec<(String, JsonValue)> = Vec::new();
                let mut i: usize = 0;
                while i < fields.len()
                    invariant
                        i <= fields@.len(),
                        decreases_to!(self => fields),
                    decreases fields@.len() - i,
                {
                    proof {
                        vstd::std_specs::vec::axiom_vec_index_decreases(*fields, i as int);
                    }
                    copies.push((fields[i].0.clone(), fields[i].1.clone()));
                    i = i + 1;
                }
                JsonValue::Object(copies)
            },
        }
    }
}

/// The map that a list of entries stands for.  Where a key occurs more than
/// once, its last entry counts.
pub open spec fn entries_map(entries: Seq<(String, JsonValue)>) -> Map<Seq<char>, JsonValue>
    decreases entries.len(),
{
    if entries.len() == 0 {
        Map::empty()
    } else {
        entries_map(entries.drop_last()).insert(entries.last().0@, entries.last().1)
    }
}

/// No key occurs in two entries.
pub open spec fn distinct_keys(entries: Seq<(String, JsonValue)>) -> bool {
    forall|i: int, j: int| 0 <= i < j < entries.len() ==> entries[i].0@ != entries[j].0@
}

/// A key that no entry holds is not in the map.
pub proof fn lemma_entries_map_absent(entries: Seq<(String, JsonValue)>, key: Seq<char>)
    requires
        forall|j: int| 0 <= j < entries.len() ==> (#[trigger] entries[j]).0@ != key,
    ensures
        !entries_map(entries).contains_key(key),
    decreases entries.len(),
{
    if entries.len() > 0 {
        lemma_entries_map_absent(entries.drop_last(), key);
    }
}

/// The map holds, for a key, the value of the key's last entry; and to put
/// another value into that entry is to insert it into the map.
pub proof fn lemma_entries_map_last(
    entries: Seq<(String, JsonValue)>,
    at: int,
    entry: (String, JsonValue),
)
    requires
        0 <= at < entries.len(),
        entry.0@ == entries[at].0@,
        forall|j: int| at < j < entries.len() ==> (#[trigger] entries[j]).0@ != entry.0@,
    ensures
        entries_map(entries).contains_key(entry.0@),
        entries_map(entries)[entry.0@] == entries[at].1,
        entries_map(entries.update(at, entry)) == entries_map(entries).insert(entry.0@, entry.1),
    decreases entries.len(),
{
    let updated = entries.update(at, entry);
    if at == entries.len() - 1 {
        assert(updated.drop_last() =~= entries.drop_last());
        assert(entries_map(updated) =~= entries_map(entries).insert(entry.0@, entry.1));
    } else {
        lemma_entries_map_last(entries.drop_last(), at, entry);
        assert(updated.drop_last() =~= entries.drop_last().update(at, entry));
        assert(updated.last() == entries.last());
        assert(entries_map(updated) =~= entries_map(entries).insert(entry.0@, entry.1));
    }
}

/// A standard label and color, and an open map of further fields.
#[derive(Debug, Clone)]
pub struct TemplateMetadata {
    /// A label.
    pub label: Option<String>,
    /// The further fields.  The map that they stand for is `entries_map` of
    /// this list.
    pub extra: Vec<(String, JsonValue)>,
    /// A color to render with.
    pub color: Option<String>,
}

/// The mathematical value of a [`TemplateMetadata`].
pub struct TemplateMetadataView {
    pub label: Option<Seq<char>>,
    pub extra: Map<Seq<char>, JsonValue>,
    pub color: Option<Seq<char>>,
}

impl TemplateMetadataView {
    /// The metadata without label, color and further fields.
    pub open spec fn empty() -> TemplateMetadataView {
        TemplateMetadataView {
            label: None::<Seq<char>>,
            extra: Map::<Seq<char>, JsonValue>::empty(),
            color: None::<Seq<char>>,
        }
    }
}

/// The characters of an optional string.
pub open spec fn text_view(text: Option<String>) -> Option<Seq<char>> {
    match text {
        Some(s) => Some(s@),
        None => None,
    }
}

impl View for TemplateMetadata {
    type V = TemplateMetadataView;

    open spec fn view(&self) -> TemplateMetadataView {
        TemplateMetadataView {
            label: text_view(self.label),
            extra: entries_map(self.extra@),
            color: text_view(self.color),
        }
    }
}

/// Metadata with a label, a color or a further field is not the empty one.
pub proof fn lemma_metadata_not_empty(metadata: TemplateMetadata)
    requires
        metadata.label is Some || metadata.color is Some || metadata.extra@.len() > 0,
    ensures
        metadata@ != TemplateMetadataView::empty(),
{
    if metadata.extra@.len() > 0 {
        assert(metadata@.extra.contains_key(metadata.extra@.last().0@));
    }
}

/// The index of the last entry with `key`, if there is one.
fn find_last(entries: &Vec<(String, JsonValue)>, key: &String) -> (found: Option<usize>)
    ensures
        match found {
            Some(at) => at < entries@.len() && entries@[at as int].0@ == key@ && forall|j: int|
                at < j < entries@.len() ==> (#[trigger] entries@[j]).0@ != key@,
            None => forall|j: int| 0 <= j < entries@.len() ==> (#[trigger] entries@[j]).0@ != key@,
        },
{
    let mut i: usize = entries.len();
    while i > 0
        invariant
            i <= entries@.len(),
            forall|j: int| i <= j < entries@.len() ==> (#[trigger] entries@[j]).0@ != key@,
        decreases i,
    {
        i = i - 1;
        if entries[i].0 == *key {
            return Some(i);
        }
    }
    None
}

impl TemplateMetadata {
    /// The empty metadata.
    pub fn new() -> (metadata: TemplateMetadata)
        ensures
            metadata@ == TemplateMetadataView::empty(),
            metadata.label is None,
            metadata.color is None,
            metadata.extra@.len() == 0,
    {
        TemplateMetadata { color: None, label: None, extra: Vec::new() }
    }

    /// Whether this is the empty metadata: no label, no color and no further
    /// field.
    pub fn is_empty(&self) -> (empty: bool)
        ensures
            empty == (self@ == TemplateMetadataView::empty()),
            empty == (self.label is None && self.color is None && self.extra@.len() == 0),
    {
        proof {
            if self.extra@.len() > 0 {
                assert(self@.extra.contains_key(self.extra@.last().0@));
            } else {
                assert(self@.extra =~= Map::<Seq<char>, JsonValue>::empty());
            }
        }
        self.label.is_none() && self.color.is_none() && self.extra.len() == 0
    }

    /// Whether there is nothing here worth persisting: true of the empty
    /// metadata only.
    pub fn skip_serializing(&self) -> (skip: bool)
        ensures
            skip == (self@ == TemplateMetadataView::empty()),
    {
        self.is_empty()
    }

    /// Sets the further field `key` to `value` and hands out the value that
    /// the field had.
    pub fn insert_extra(&mut self, key: String, value: JsonValue) -> (previous: Option<JsonValue>)
        ensures
            final(self)@.extra == old(self)@.extra.insert(key@, value),
            final(self).label == old(self).label,
            final(self).color == old(self).color,
            previous == (if old(self)@.extra.contains_key(key@) {
                Some(old(self)@.extra[key@])
            } else {
                None
            }),
            distinct_keys(old(self).extra@) ==> distinct_keys(final(self).extra@),
    {
        let ghost before = self.extra@;
        match find_last(&self.extra, &key) {
            Some(at) => {
                let replaced = self.extra.remove(at);
                self.extra.insert(at, (key, value));
                proof {
                    lemma_entries_map_last(before, at as int, (key, value));
                    assert(self.extra@ =~= before.update(at as int, (key, value)));
                }
                Some(replaced.1)
            },
            None => {
                self.extra.push((key, value));
                proof {
                    lemma_entries_map_absent(before, key@);
                    assert(self.extra@.drop_last() =~= before);
                }
                None
            },
        }
    }

    /// The value of the further field `key`, if it is set.
    pub fn get_extra(&self, key: &String) -> (value: Option<&JsonValue>)
        ensures
            match value {
                Some(v) => self@.extra.contains_key(key@) && *v == self@.extra[key@],
                None => !self@.extra.contains_key(key@),
            },
    {
        match find_last(&self.extra, key) {
            Some(at) => {
                proof {
                    lemma_entries_map_last(self.extra@, at as int, self.extra@[at as int]);
                }
                Some(&self.extra[at].1)
            },
            None => {
                proof {
                    lemma_entries_map_absent(self.extra@, key@);
                }
                None
            },
        }
    }
}

} // verus!
