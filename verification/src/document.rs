//! A parsed document as a tree of values, and the operations that read and
//! set the entries of its mappings without disturbing their order.

use crate::text::str_equal;
use vstd::prelude::*;

verus! {

/// A YAML value of the `serde_yaml` crate.
#[verifier::external_type_specification]
#[verifier::external_body]
pub struct ExYamlValue(serde_yaml::Value);

/// A YAML number of the `serde_yaml` crate. The library carries numbers
/// as they come and never looks into them.
#[verifier::external_type_specification]
#[verifier::external_body]
pub struct ExYamlNumber(serde_yaml::Number);

/// The error of the `serde_yaml` crate.
#[verifier::external_type_specification]
#[verifier::external_body]
pub struct ExYamlError(serde_yaml::Error);

/// A value of a document.
#[derive(Debug, PartialEq)]
pub enum YamlValue {
    Null,
    Bool(bool),
    Number(serde_yaml::Number),
    String(String),
    Sequence(Vec<YamlValue>),
    /// The entries of a mapping, in the order of the document.
    Mapping(Vec<(YamlValue, YamlValue)>),
    /// A value under a tag.
    Tagged(String, Box<YamlValue>),
}

/// What a value holds, as a mathematical tree.
pub ghost enum Node {
    Null,
    Bool(bool),
    Number(serde_yaml::Number),
    String(Seq<char>),
    Sequence(Seq<Node>),
    Mapping(Seq<(Node, Node)>),
    Tagged(Seq<char>, Box<Node>),
}

impl YamlValue {
    /// The tree that the value holds.
    pub open spec fn model(self) -> Node
        decreases self,
    {
        match self {
            YamlValue::Null => Node::Null,
            YamlValue::Bool(b) => Node::Bool(b),
            YamlValue::Number(n) => Node::Number(n),
            YamlValue::String(s) => Node::String(s@),
            YamlValue::Sequence(items) => Node::Sequence(
                Seq::new(
                    items@.len(),
                    |i: int|
                        if 0 <= i < items@.len() {
                            items@[i].model()
                        } else {
                            Node::Null
                        },
                ),
            ),
            YamlValue::Mapping(entries) => Node::Mapping(entry_models(entries@)),
            YamlValue::Tagged(tag, inner) => Node::Tagged(tag@, Box::new(inner.model())),
        }
    }
}

/// The trees of the keys and values of the entries of a mapping.
pub open spec fn entry_models(entries: Seq<(YamlValue, YamlValue)>) -> Seq<(Node, Node)>
    decreases entries,
{
    Seq::new(
        entries.len(),
        |i: int|
            if 0 <= i < entries.len() {
                (entries[i].0.model(), entries[i].1.model())
            } else {
                (Node::Null, Node::Null)
            },
    )
}

/// The entries of a mapping, also where the mapping stands under tags;
/// none for any other value.
pub open spec fn entries_of(node: Node) -> Option<Seq<(Node, Node)>>
    decreases node,
{
    match node {
        Node::Mapping(entries) => Some(entries),
        Node::Tagged(_, inner) => entries_of(*inner),
        _ => None,
    }
}

/// A mapping, possibly under tags, with other entries under the same tags.
pub open spec fn replace_entries(node: Node, entries: Seq<(Node, Node)>) -> Node
    decreases node,
{
    match node {
        Node::Tagged(tag, inner) => Node::Tagged(tag, Box::new(replace_entries(*inner, entries))),
        _ => Node::Mapping(entries),
    }
}

/// The place of the first entry with the given text as its key, or the
/// number of entries where there is none.
pub open spec fn key_index(entries: Seq<(Node, Node)>, key: Seq<char>) -> int
    decreases entries.len(),
{
    if entries.len() == 0 {
        0
    } else if entries.first().0 == Node::String(key) {
        0
    } else {
        1 + key_index(entries.drop_first(), key)
    }
}

/// The entries after a key has been given a value: the first entry with
/// the key takes the value and keeps its place; where there is none, a new
/// entry goes to the end.
pub open spec fn put_entry(entries: Seq<(Node, Node)>, key: Seq<char>, value: Node) -> Seq<
    (Node, Node),
> {
    let at = key_index(entries, key);
    if at < entries.len() {
        entries.update(at, (entries[at].0, value))
    } else {
        entries.push((Node::String(key), value))
    }
}

/// The value that a mapping gives to a text key; none where the value is no
/// mapping or has no such key.
pub open spec fn get(node: Node, key: Seq<char>) -> Option<Node> {
    match entries_of(node) {
        Some(entries) => if key_index(entries, key) < entries.len() {
            Some(entries[key_index(entries, key)].1)
        } else {
            None
        },
        None => None,
    }
}

/// A mapping after a text key has been given a value.
pub open spec fn put(node: Node, key: Seq<char>, value: Node) -> Node {
    match entries_of(node) {
        Some(entries) => replace_entries(node, put_entry(entries, key, value)),
        None => node,
    }
}

/// The value at the end of a path of keys; none where a key does not
/// resolve.
pub open spec fn at_path(node: Node, path: Seq<Seq<char>>) -> Option<Node>
    decreases path.len(),
{
    if path.len() == 0 {
        Some(node)
    } else {
        match get(node, path.first()) {
            Some(child) => at_path(child, path.drop_first()),
            None => None,
        }
    }
}

/// The first key index lies within the entries exactly when some entry has
/// the key; the entry there has it, and none before.
pub proof fn lemma_key_index(entries: Seq<(Node, Node)>, key: Seq<char>)
    ensures
        0 <= key_index(entries, key) <= entries.len(),
        key_index(entries, key) < entries.len() ==> entries[key_index(entries, key)].0
            == Node::String(key),
        forall|i: int|
            0 <= i < key_index(entries, key) ==> (#[trigger] entries[i]).0 != Node::String(key),
    decreases entries.len(),
{
    if entries.len() > 0 && entries.first().0 != Node::String(key) {
        let rest = entries.drop_first();
        lemma_key_index(rest, key);
        let at = key_index(rest, key);
        if at < rest.len() {
            assert(entries[at + 1] == rest[at]);
        }
        assert forall|i: int| 0 <= i < at + 1 implies (#[trigger] entries[i]).0 != Node::String(
            key,
        ) by {
            if i > 0 {
                assert(rest[i - 1] == entries[i]);
            }
        }
    }
}

/// An index at which the key stands, with no entry of that key before it,
/// is the first key index.
pub proof fn lemma_key_index_is(entries: Seq<(Node, Node)>, key: Seq<char>, at: int)
    requires
        0 <= at <= entries.len(),
        at < entries.len() ==> entries[at].0 == Node::String(key),
        forall|i: int| 0 <= i < at ==> (#[trigger] entries[i]).0 != Node::String(key),
    ensures
        key_index(entries, key) == at,
{
    lemma_key_index(entries, key);
    let found = key_index(entries, key);
    if found < at {
        assert(entries[found].0 != Node::String(key));
    }
}

/// A mapping under tags is, with its own entries put back, itself; with
/// other entries it has those entries.
pub proof fn lemma_replace_entries(node: Node, entries: Seq<(Node, Node)>)
    requires
        entries_of(node) is Some,
    ensures
        entries_of(replace_entries(node, entries)) == Some(entries),
        replace_entries(node, entries_of(node)->0) == node,
    decreases node,
{
    match node {
        Node::Tagged(tag, inner) => {
            lemma_replace_entries(*inner, entries);
        },
        _ => {},
    }
}

/// After a key has been given a value, the mapping gives that value for the
/// key, and for every other key what it gave before.
pub proof fn lemma_get_after_put(node: Node, key: Seq<char>, value: Node, other: Seq<char>)
    requires
        entries_of(node) is Some,
    ensures
        entries_of(put(node, key, value)) is Some,
        get(put(node, key, value), other) == if other == key {
            Some(value)
        } else {
            get(node, other)
        },
{
    let entries = entries_of(node)->0;
    let after = put_entry(entries, key, value);
    lemma_replace_entries(node, after);
    lemma_key_index(entries, key);
    lemma_key_index(entries, other);
    let at = key_index(entries, key);
    let at_other = key_index(entries, other);
    if other == key {
        assert forall|i: int| 0 <= i < at implies (#[trigger] after[i]).0 != Node::String(key) by {
            assert(entries[i].0 != Node::String(key));
        }
        lemma_key_index_is(after, key, at);
    } else {
        assert forall|i: int| 0 <= i < at_other implies (#[trigger] after[i]).0 != Node::String(
            other,
        ) by {
            assert(entries[i].0 != Node::String(other));
        }
        if at_other < entries.len() {
            lemma_key_index_is(after, other, at_other);
        } else {
            assert forall|i: int| 0 <= i < after.len() implies (#[trigger] after[i]).0
                != Node::String(other) by {
                if i < entries.len() {
                    assert(entries[i].0 != Node::String(other));
                }
            }
            lemma_key_index_is(after, other, after.len() as int);
        }
    }
}

/// Giving a key a value leaves the keys of the mapping in their order: the
/// keys are those from before, with the new key at the end where the
/// mapping lacked it; and every entry of another key is as it was.
pub proof fn lemma_put_keeps_order(entries: Seq<(Node, Node)>, key: Seq<char>, value: Node)
    ensures
        get_keys(put_entry(entries, key, value)) == if key_index(entries, key) < entries.len() {
            get_keys(entries)
        } else {
            get_keys(entries).push(Node::String(key))
        },
        forall|i: int|
            0 <= i < entries.len() && (#[trigger] entries[i]).0 != Node::String(key)
                ==> put_entry(entries, key, value)[i] == entries[i],
{
    lemma_key_index(entries, key);
    let after = put_entry(entries, key, value);
    if key_index(entries, key) < entries.len() {
        assert(get_keys(after) =~= get_keys(entries));
    } else {
        assert(get_keys(after) =~= get_keys(entries).push(Node::String(key)));
    }
}

/// The keys of the entries of a mapping, in order.
pub open spec fn get_keys(entries: Seq<(Node, Node)>) -> Seq<Node> {
    entries.map_values(|entry: (Node, Node)| entry.0)
}

impl YamlValue {
    /// Whether the value is a mapping, possibly under tags.
    pub fn is_mapping(&self) -> (r: bool)
        ensures
            r == entries_of(self.model()) is Some,
        decreases self,
    {
        match self {
            YamlValue::Mapping(_) => true,
            YamlValue::Tagged(_, inner) => inner.is_mapping(),
            _ => false,
        }
    }

    /// The value that the mapping gives to a text key.
    pub fn get(&self, key: &str) -> (r: Option<&YamlValue>)
        ensures
            r is Some == get(self.model(), key@) is Some,
            r matches Some(value) ==> get(self.model(), key@) == Some(value.model()),
        decreases self,
    {
        match self {
            YamlValue::Mapping(entries) => match find_key(entries, key) {
                Some(at) => Some(&entries[at].1),
                None => None,
            },
            YamlValue::Tagged(_, inner) => inner.get(key),
            _ => None,
        }
    }

    /// The text of a text value.
    pub fn as_str(&self) -> (r: Option<&str>)
        ensures
            r is Some == self is String,
            r matches Some(text) ==> self.model() == Node::String(text@),
    {
        match self {
            YamlValue::String(text) => Some(text.as_str()),
            _ => None,
        }
    }

    /// The items of a sequence.
    pub fn as_sequence(&self) -> (r: Option<&Vec<YamlValue>>)
        ensures
            r is Some == self is Sequence,
            r matches Some(items) ==> *self == YamlValue::Sequence(*items),
    {
        match self {
            YamlValue::Sequence(items) => Some(items),
            _ => None,
        }
    }

    /// A mapping with one entry, from a text key to a text value.
    pub fn single_entry(key: &str, value: &str) -> (r: YamlValue)
        ensures
            r.model() == Node::Mapping(seq![(Node::String(key@), Node::String(value@))]),
    {
        let mut entries: Vec<(YamlValue, YamlValue)> = Vec::new();
        entries.push((YamlValue::String(key.to_string()), YamlValue::String(value.to_string())));
        let r = YamlValue::Mapping(entries);
        assert(entry_models(entries@) =~= seq![(Node::String(key@), Node::String(value@))]);
        r
    }

    /// Gives a text key of the mapping a value. The first entry with the key
    /// takes the value and keeps its place; where there is none, a new entry
    /// goes to the end. A value that is no mapping is left as it is, and
    /// the result says so.
    pub fn set(&mut self, key: &str, value: YamlValue) -> (r: bool)
        ensures
            r == entries_of(old(self).model()) is Some,
            final(self).model() == put(old(self).model(), key@, value.model()),
        decreases *old(self),
    {
        match self {
            YamlValue::Mapping(entries) => {
                let ghost before = entry_models(entries@);
                let ghost tree = value.model();
                match find_key(entries, key) {
                    Some(at) => {
                        entries[at].1 = value;
                        assert(entry_models(entries@) =~= before.update(
                            at as int,
                            (before[at as int].0, tree),
                        ));
                    },
                    None => {
                        entries.push((YamlValue::String(key.to_string()), value));
                        assert(entry_models(entries@) =~= before.push((Node::String(key@), tree)));
                    },
                }
                true
            },
            YamlValue::Tagged(_, inner) => inner.set(key, value),
            _ => false,
        }
    }

    /// A copy of the value.
    #[verifier::loop_isolation(false)]
    pub fn duplicate(&self) -> (r: YamlValue)
        ensures
            r.model() == self.model(),
        decreases self,
    {
        match self {
            YamlValue::Null => YamlValue::Null,
            YamlValue::Bool(b) => YamlValue::Bool(*b),
            YamlValue::Number(n) => YamlValue::Number(clone_number(n)),
            YamlValue::String(s) => YamlValue::String(s.clone()),
            YamlValue::Sequence(items) => {
                let mut copies: Vec<YamlValue> = Vec::new();
                let mut i: usize = 0;
                while i < items.len()
                    invariant
                        i <= items.len(),
                        copies@.len() == i,
                        forall|j: int| 0 <= j < i ==> (#[trigger] copies@[j]).model() == items@[j].model(),
                    decreases items.len() - i,
                {
                    assert(decreases_to!(items => items[i as int]));
                    copies.push(items[i].duplicate());
                    i += 1;
                }
                let r = YamlValue::Sequence(copies);
                assert(r.model()->Sequence_0 =~= self.model()->Sequence_0);
                r
            },
            YamlValue::Mapping(entries) => {
                let mut copies: Vec<(YamlValue, YamlValue)> = Vec::new();
                let mut i: usize = 0;
                while i < entries.len()
                    invariant
                        i <= entries.len(),
                        copies@.len() == i,
                        forall|j: int|
                            0 <= j < i ==> (#[trigger] copies@[j]).0.model()
                                == entries@[j].0.model() && copies@[j].1.model()
                                == entries@[j].1.model(),
                    decreases entries.len() - i,
                {
                    assert(decreases_to!(entries => entries[i as int]));
                    copies.push((entries[i].0.duplicate(), entries[i].1.duplicate()));
                    i += 1;
                }
                assert(entry_models(copies@) =~= entry_models(entries@));
                YamlValue::Mapping(copies)
            },
            YamlValue::Tagged(tag, inner) => YamlValue::Tagged(tag.clone(), Box::new(inner.duplicate())),
        }
    }
}

/// The place of the first entry with the given text as its key.
pub fn find_key(entries: &Vec<(YamlValue, YamlValue)>, key: &str) -> (r: Option<usize>)
    ensures
        r matches Some(at) ==> at < entries.len() && at == key_index(entry_models(entries@), key@),
        r is None ==> key_index(entry_models(entries@), key@) == entries.len(),
{
    let mut i: usize = 0;
    while i < entries.len()
        invariant
            i <= entries.len(),
            forall|j: int|
                0 <= j < i ==> (#[trigger] entry_models(entries@)[j]).0 != Node::String(key@),
        decreases entries.len() - i,
    {
        let same = match &entries[i].0 {
            YamlValue::String(text) => str_equal(text.as_str(), key),
            _ => false,
        };
        if same {
            proof {
                assert(entry_models(entries@)[i as int].0 == Node::String(key@));
                lemma_key_index_is(entry_models(entries@), key@, i as int);
            }
            return Some(i);
        }
        assert(entry_models(entries@)[i as int].0 != Node::String(key@));
        i += 1;
    }
    proof {
        lemma_key_index_is(entry_models(entries@), key@, entries.len() as int);
    }
    None
}

/// `clone` of `serde_yaml::Number`. The contract claims that the copy is
/// the same number.
#[verifier::external_body]
fn clone_number(number: &serde_yaml::Number) -> (r: serde_yaml::Number)
    ensures
        r == *number,
{
    number.clone()
}

/// Whether no tag of a tree is empty.
pub open spec fn tags_named(node: Node) -> bool
    decreases node,
{
    match node {
        Node::Sequence(items) => forall|i: int|
            0 <= i < items.len() ==> tags_named(#[trigger] items[i]),
        Node::Mapping(entries) => forall|i: int|
            0 <= i < entries.len() ==> tags_named((#[trigger] entries[i]).0) && tags_named(
                entries[i].1,
            ),
        Node::Tagged(tag, inner) => tag.len() > 0 && tags_named(*inner),
        _ => true,
    }
}

/// The text that the `serde_yaml` crate renders a tree as; none where it
/// renders none.
pub uninterp spec fn rendered_yaml(tree: Node) -> Option<Seq<char>>;

/// A tagged value of the `serde_yaml` crate, its tag made by `Tag::new`.
/// `Tag::new` panics on an empty tag, so the tag may not be empty.
#[verifier::external_body]
fn tagged_outside(tag: &String, value: serde_yaml::Value) -> serde_yaml::Value
    requires
        tag@.len() > 0,
{
    let tag = serde_yaml::value::Tag::new(tag);
    serde_yaml::Value::Tagged(Box::new(serde_yaml::value::TaggedValue { tag, value }))
}

/// The value of the `serde_yaml` crate that holds what a value of the
/// library holds: the same variant with the same content.
#[verifier::external_body]
fn to_outside(value: &YamlValue) -> serde_yaml::Value
    requires
        tags_named(value.model()),
{
    match value {
        YamlValue::Null => serde_yaml::Value::Null,
        YamlValue::Bool(b) => serde_yaml::Value::Bool(*b),
        YamlValue::Number(n) => serde_yaml::Value::Number(n.clone()),
        YamlValue::String(s) => serde_yaml::Value::String(s.clone()),
        YamlValue::Sequence(v) => serde_yaml::Value::Sequence(v.iter().map(to_outside).collect()),
        YamlValue::Mapping(v) => serde_yaml::Value::Mapping(
            v.iter().map(|e| (to_outside(&e.0), to_outside(&e.1))).collect(),
        ),
        YamlValue::Tagged(tag, inner) => tagged_outside(tag, to_outside(inner)),
    }
}

/// The tree that the `serde_yaml` crate reads a text as; none where it
/// reads none, as for a text that is no YAML or that holds more than one
/// document.
pub uninterp spec fn parsed_yaml(text: Seq<char>) -> Option<Node>;

/// The value of the library that holds what a value of the `serde_yaml`
/// crate holds: the same variant with the same content, a tag as its
/// `Display` writes it. The contract claims that no tag comes out empty:
/// `Display` writes an exclamation mark first.
#[verifier::external_body]
fn from_outside(value: &serde_yaml::Value) -> (r: YamlValue)
    ensures
        tags_named(r.model()),
{
    match value {
        serde_yaml::Value::Null => YamlValue::Null,
        serde_yaml::Value::Bool(b) => YamlValue::Bool(*b),
        serde_yaml::Value::Number(n) => YamlValue::Number(n.clone()),
        serde_yaml::Value::String(s) => YamlValue::String(s.clone()),
        serde_yaml::Value::Sequence(v) => YamlValue::Sequence(v.iter().map(from_outside).collect()),
        serde_yaml::Value::Mapping(m) => YamlValue::Mapping(
            m.iter().map(|(k, v)| (from_outside(k), from_outside(v))).collect(),
        ),
        serde_yaml::Value::Tagged(t) => YamlValue::Tagged(
            t.tag.to_string(),
            Box::new(from_outside(&t.value)),
        ),
    }
}

/// `serde_yaml::from_str`, for a value of that crate, which is handed on
/// as the value of the library that holds the same. The contract names the
/// tree that comes out, and claims that an error comes out exactly where
/// the crate reads no tree.
#[verifier::external_body]
fn yaml_from_str(text: &str) -> (r: Result<YamlValue, serde_yaml::Error>)
    ensures
        r matches Ok(document) ==> parsed_yaml(text@) == Some(document.model()) && tags_named(
            document.model(),
        ),
        r is Err ==> parsed_yaml(text@) is None,
{
    match serde_yaml::from_str::<serde_yaml::Value>(text) {
        Ok(value) => Ok(from_outside(&value)),
        Err(e) => Err(e),
    }
}

/// `to_string` of `serde_yaml::Error`: what the error says.
#[verifier::external_body]
fn error_text(error: &serde_yaml::Error) -> String {
    error.to_string()
}

/// `serde_yaml::to_string`, on the value of that crate that holds what the
/// document holds. The contract names the text that comes out, and claims
/// that an error comes out exactly where the crate renders no text.
#[verifier::external_body]
fn yaml_to_string(document: &YamlValue) -> (r: Result<String, serde_yaml::Error>)
    requires
        tags_named(document.model()),
    ensures
        r matches Ok(text) ==> rendered_yaml(document.model()) == Some(text@),
        r is Err ==> rendered_yaml(document.model()) is None,
{
    serde_yaml::to_string(&to_outside(document))
}

impl YamlValue {
    /// Whether no tag of the value is empty.
    pub fn has_named_tags(&self) -> (r: bool)
        ensures
            r == tags_named(self.model()),
        decreases self,
    {
        match self {
            YamlValue::Sequence(items) => {
                let r = all_named(items, 0);
                proof {
                    let tree = self.model();
                    let nodes = tree->Sequence_0;
                    assert(tags_named(tree) == forall|i: int|
                        0 <= i < nodes.len() ==> tags_named(#[trigger] nodes[i]));
                    if r {
                        assert forall|i: int| 0 <= i < nodes.len() implies tags_named(
                            #[trigger] nodes[i],
                        ) by {
                            assert(tags_named(items@[i].model()));
                        }
                    }
                    if tags_named(tree) {
                        assert forall|i: int| 0 <= i < items@.len() implies tags_named(
                            (#[trigger] items@[i]).model(),
                        ) by {
                            assert(tags_named(nodes[i]));
                        }
                    }
                }
                r
            },
            YamlValue::Mapping(entries) => {
                let r = entries_named(entries, 0);
                proof {
                    let tree = self.model();
                    let nodes = tree->Mapping_0;
                    assert(nodes == entry_models(entries@));
                    assert(tags_named(tree) == forall|i: int|
                        0 <= i < nodes.len() ==> tags_named((#[trigger] nodes[i]).0)
                            && tags_named(nodes[i].1));
                    if r {
                        assert forall|i: int| 0 <= i < nodes.len() implies tags_named(
                            (#[trigger] nodes[i]).0,
                        ) && tags_named(nodes[i].1) by {
                            assert(tags_named(entries@[i].0.model()));
                        }
                    }
                    if tags_named(tree) {
                        assert forall|i: int| 0 <= i < entries@.len() implies tags_named(
                            (#[trigger] entries@[i]).0.model(),
                        ) && tags_named(entries@[i].1.model()) by {
                            assert(tags_named(nodes[i].0));
                        }
                    }
                }
                r
            },
            YamlValue::Tagged(tag, inner) => {
                let named = tag.as_str().unicode_len() > 0;
                let rest = inner.has_named_tags();
                proof {
                    let tree = self.model();
                    assert(tree->Tagged_0 == tag@);
                    assert(*tree->Tagged_1 == inner.model());
                    assert(tags_named(tree) == (tag@.len() > 0 && tags_named(inner.model())));
                }
                named && rest
            },
            _ => true,
        }
    }

    /// Reads a document from its text. Where the text is no document, the
    /// result says what is wrong with it.
    pub fn parse(text: &str) -> (r: Result<YamlValue, String>)
        ensures
            r is Ok == parsed_yaml(text@) is Some,
            r matches Ok(document) ==> parsed_yaml(text@) == Some(document.model())
                && tags_named(document.model()),
    {
        match yaml_from_str(text) {
            Ok(document) => Ok(document),
            Err(e) => Err(error_text(&e)),
        }
    }

    /// The text of a document. A document with an empty tag has no text,
    /// nor has one that the renderer gives up on.
    pub fn render(&self) -> (r: Option<String>)
        ensures
            r is Some == (tags_named(self.model()) && rendered_yaml(self.model()) is Some),
            r matches Some(text) ==> rendered_yaml(self.model()) == Some(text@),
    {
        if !self.has_named_tags() {
            return None;
        }
        match yaml_to_string(self) {
            Ok(text) => Some(text),
            Err(_) => None,
        }
    }
}

/// Whether no tag of the items from `from` on is empty.
fn all_named(items: &Vec<YamlValue>, from: usize) -> (r: bool)
    requires
        from <= items.len(),
    ensures
        r == forall|i: int| from <= i < items@.len() ==> tags_named((#[trigger] items@[i]).model()),
    decreases items, items.len() - from,
{
    if from == items.len() {
        true
    } else {
        assert(decreases_to!(items => items[from as int]));
        let first = items[from].has_named_tags();
        let rest = all_named(items, from + 1);
        first && rest
    }
}

/// Whether no tag of the entries from `from` on is empty.
fn entries_named(entries: &Vec<(YamlValue, YamlValue)>, from: usize) -> (r: bool)
    requires
        from <= entries.len(),
    ensures
        r == forall|i: int|
            from <= i < entries@.len() ==> tags_named((#[trigger] entries@[i]).0.model())
                && tags_named(entries@[i].1.model()),
    decreases entries, entries.len() - from,
{
    if from == entries.len() {
        true
    } else {
        assert(decreases_to!(entries => entries[from as int]));
        let key = entries[from].0.has_named_tags();
        let value = entries[from].1.has_named_tags();
        let rest = entries_named(entries, from + 1);
        key && value && rest
    }
}

} // verus!
