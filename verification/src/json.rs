//! A dynamically typed JSON tree and its mathematical model.
//!
//! Documents are kept as loosely typed trees so that fields this library does
//! not know about survive a read-modify-write cycle. Every contract is stated
//! over [`JsonModel`], in which an object is a finite map from key to value.

use crate::order::{insert_unique, lists, texts};
use vstd::prelude::*;

verus! {

/// The mathematical value of a JSON number.
pub enum NumberModel {
    /// A non-negative integer.
    Unsigned(u64),
    /// An integer held as signed.
    Negative(i64),
    /// Any other number, by its decimal text.
    Decimal(Seq<char>),
}

/// The mathematical value of a JSON tree.
pub enum JsonModel {
    Null,
    Bool(bool),
    Number(NumberModel),
    Str(Seq<char>),
    Array(Seq<JsonModel>),
    Object(Map<Seq<char>, JsonModel>),
}

/// The decimal text of a number that is no integer of 64 bits.
///
/// The text is kept out of reach: a value of this type is made only where a
/// document is read, from the text that the JSON library itself writes for
/// the number it read. So the text is always one that the library reads back
/// as that number when the document is written.
#[derive(Debug)]
pub struct DecimalText {
    text: String,
}

/// A JSON number as the library stores it.
#[derive(Debug)]
pub enum JsonNumber {
    /// A non-negative integer.
    Unsigned(u64),
    /// An integer held as signed.
    Negative(i64),
    /// Any other number, held as its decimal text.
    Decimal(DecimalText),
}

impl DecimalText {
    /// The text.
    pub closed spec fn view(&self) -> Seq<char> {
        self.text@
    }

    /// Keeps the text that the JSON library wrote for a number it read.
    pub(crate) fn of_rendering(text: String) -> (r: DecimalText)
        ensures
            r@ == text@,
    {
        DecimalText { text }
    }

    /// The text.
    pub fn as_str(&self) -> (r: &str)
        ensures
            r@ == self@,
    {
        self.text.as_str()
    }

    /// A copy of this text.
    pub fn duplicate(&self) -> (r: DecimalText)
        ensures
            r@ == self@,
    {
        DecimalText { text: self.text.clone() }
    }
}

/// A JSON tree.
///
/// An object is a list of entries. Where a key occurs more than once the last
/// entry is the one that counts, so every value of this type has a model.
#[derive(Debug)]
pub enum Json {
    Null,
    Bool(bool),
    Number(JsonNumber),
    Str(String),
    Array(Vec<Json>),
    Object(Vec<(String, Json)>),
}

impl JsonModel {
    /// The member under `key`, if this is an object that has one.
    pub open spec fn get(self, key: Seq<char>) -> Option<JsonModel> {
        match self {
            JsonModel::Object(m) => if m.contains_key(key) {
                Some(m[key])
            } else {
                None
            },
            _ => None,
        }
    }

    /// The value reached by following `path` from this node.
    pub open spec fn at(self, path: Seq<Seq<char>>) -> Option<JsonModel>
        decreases path.len(),
    {
        if path.len() == 0 {
            Some(self)
        } else {
            match self.get(path[0]) {
                Some(child) => child.at(path.drop_first()),
                None => None,
            }
        }
    }

    /// This object with `key` bound to `value`; anything but an object is
    /// left as it is.
    pub open spec fn with(self, key: Seq<char>, value: JsonModel) -> JsonModel {
        match self {
            JsonModel::Object(m) => JsonModel::Object(m.insert(key, value)),
            _ => self,
        }
    }

    /// The keys of this object; empty for anything else.
    pub open spec fn keys(self) -> Set<Seq<char>> {
        match self {
            JsonModel::Object(m) => m.dom(),
            _ => Set::empty(),
        }
    }

    /// The text of this node, if it is a string.
    pub open spec fn as_text(self) -> Option<Seq<char>> {
        match self {
            JsonModel::Str(s) => Some(s),
            _ => None,
        }
    }

    /// The value of this node, if it is a boolean.
    pub open spec fn as_bool(self) -> Option<bool> {
        match self {
            JsonModel::Bool(b) => Some(b),
            _ => None,
        }
    }

    /// The value of this node, if it is a non-negative integer.
    pub open spec fn as_u64(self) -> Option<u64> {
        match self {
            JsonModel::Number(NumberModel::Unsigned(n)) => Some(n),
            _ => None,
        }
    }

    /// The items of this node, if it is an array.
    pub open spec fn as_items(self) -> Option<Seq<JsonModel>> {
        match self {
            JsonModel::Array(items) => Some(items),
            _ => None,
        }
    }

    /// The object without members.
    pub open spec fn empty_object() -> JsonModel {
        JsonModel::Object(Map::empty())
    }
}

/// `get` lifted to an optional node.
pub open spec fn get_in(node: Option<JsonModel>, key: Seq<char>) -> Option<JsonModel> {
    match node {
        Some(n) => n.get(key),
        None => None,
    }
}

/// The map that a list of entries stands for: later entries override earlier
/// ones with the same key.
pub open spec fn entries_model(s: Seq<(String, Json)>) -> Map<Seq<char>, JsonModel>
    decreases s, 0nat,
{
    if s.len() == 0 {
        Map::empty()
    } else {
        entries_model(s.drop_last()).insert(s.last().0@, s.last().1.view())
    }
}

/// The models of a list of trees, item by item.
pub open spec fn items_model(s: Seq<Json>) -> Seq<JsonModel>
    decreases s, 0nat,
{
    Seq::new(
        s.len(),
        |i: int|
            if 0 <= i < s.len() {
                s[i].view()
            } else {
                JsonModel::Null
            },
    )
}

impl JsonNumber {
    /// The mathematical value of this number.
    pub open spec fn view(&self) -> NumberModel {
        match self {
            JsonNumber::Unsigned(n) => NumberModel::Unsigned(*n),
            JsonNumber::Negative(n) => NumberModel::Negative(*n),
            JsonNumber::Decimal(s) => NumberModel::Decimal(s@),
        }
    }

    /// A copy of this number.
    pub fn duplicate(&self) -> (r: JsonNumber)
        ensures
            r@ == self@,
    {
        match self {
            JsonNumber::Unsigned(n) => JsonNumber::Unsigned(*n),
            JsonNumber::Negative(n) => JsonNumber::Negative(*n),
            JsonNumber::Decimal(s) => JsonNumber::Decimal(s.duplicate()),
        }
    }
}

/// Whether `i` is the last position of `s` whose key is `key`.
pub open spec fn is_last_match(s: Seq<(String, Json)>, key: Seq<char>, i: int) -> bool {
    &&& 0 <= i < s.len()
    &&& s[i].0@ == key
    &&& forall|j: int| i < j < s.len() ==> (#[trigger] s[j]).0@ != key
}

/// A key is bound by a list of entries exactly when some entry carries it.
pub proof fn lemma_entries_keys(s: Seq<(String, Json)>, key: Seq<char>)
    ensures
        entries_model(s).contains_key(key) <==> exists|i: int|
            0 <= i < s.len() && (#[trigger] s[i]).0@ == key,
    decreases s.len(),
{
    if s.len() > 0 {
        let front = s.drop_last();
        lemma_entries_keys(front, key);
        if entries_model(s).contains_key(key) {
            if s.last().0@ == key {
                assert(s[s.len() - 1].0@ == key);
            } else {
                let i = choose|i: int| 0 <= i < front.len() && (#[trigger] front[i]).0@ == key;
                assert(s[i].0@ == key);
            }
        }
        if exists|i: int| 0 <= i < s.len() && (#[trigger] s[i]).0@ == key {
            let i = choose|i: int| 0 <= i < s.len() && (#[trigger] s[i]).0@ == key;
            if i < s.len() - 1 {
                assert(front[i].0@ == key);
            }
        }
    }
}

/// The value bound to a key is that of its last entry.
pub proof fn lemma_entries_last_match(s: Seq<(String, Json)>, key: Seq<char>, i: int)
    requires
        is_last_match(s, key, i),
    ensures
        entries_model(s).contains_key(key),
        entries_model(s)[key] == s[i].1@,
    decreases s.len(),
{
    if i < s.len() - 1 {
        let front = s.drop_last();
        assert(s[s.len() - 1].0@ != key);
        assert forall|j: int| i < j < front.len() implies (#[trigger] front[j]).0@ != key by {
            assert(s[j].0@ != key);
        }
        lemma_entries_last_match(front, key, i);
    }
}

/// Lists that agree entry by entry, up to the models of keys and values, stand
/// for the same map.
pub proof fn lemma_entries_congruent(s: Seq<(String, Json)>, t: Seq<(String, Json)>)
    requires
        s.len() == t.len(),
        forall|i: int|
            0 <= i < s.len() ==> (#[trigger] s[i]).0@ == t[i].0@ && s[i].1@ == t[i].1@,
    ensures
        entries_model(s) == entries_model(t),
    decreases s.len(),
{
    if s.len() > 0 {
        let sf = s.drop_last();
        let tf = t.drop_last();
        assert forall|i: int| 0 <= i < sf.len() implies (#[trigger] sf[i]).0@ == tf[i].0@ && sf[i].1@
            == tf[i].1@ by {
            assert(s[i].0@ == t[i].0@ && s[i].1@ == t[i].1@);
        }
        lemma_entries_congruent(sf, tf);
        assert(s[s.len() - 1].0@ == t[s.len() - 1].0@ && s[s.len() - 1].1@ == t[s.len() - 1].1@);
    }
}

/// Replacing the value of the last entry that carries a key rebinds that key
/// and nothing else.
pub proof fn lemma_entries_replace(s: Seq<(String, Json)>, i: int, entry: (String, Json))
    requires
        is_last_match(s, entry.0@, i),
    ensures
        entries_model(s.update(i, entry)) == entries_model(s).insert(entry.0@, entry.1@),
    decreases s.len(),
{
    let t = s.update(i, entry);
    if i == s.len() - 1 {
        assert(t.drop_last() == s.drop_last());
        assert(entries_model(t) == entries_model(s.drop_last()).insert(entry.0@, entry.1@));
        assert(entries_model(s) == entries_model(s.drop_last()).insert(s.last().0@, s.last().1@));
        assert(entries_model(t) =~= entries_model(s).insert(entry.0@, entry.1@));
    } else {
        let front = s.drop_last();
        assert(s[s.len() - 1].0@ != entry.0@);
        assert forall|j: int| i < j < front.len() implies (#[trigger] front[j]).0@ != entry.0@ by {
            assert(s[j].0@ != entry.0@);
        }
        lemma_entries_replace(front, i, entry);
        assert(t.drop_last() == front.update(i, entry));
        assert(t.last() == s.last());
        assert(entries_model(t) =~= entries_model(s).insert(entry.0@, entry.1@));
    }
}

impl Json {
    /// The mathematical value of this tree.
    pub open spec fn view(&self) -> JsonModel
        decreases self, 1nat,
    {
        match self {
            Json::Null => JsonModel::Null,
            Json::Bool(b) => JsonModel::Bool(*b),
            Json::Number(n) => JsonModel::Number(n@),
            Json::Str(s) => JsonModel::Str(s@),
            Json::Array(items) => JsonModel::Array(items_model(items@)),
            Json::Object(entries) => JsonModel::Object(entries_model(entries@)),
        }
    }

    /// An object without members.
    pub fn empty_object() -> (r: Json)
        ensures
            r@ == JsonModel::empty_object(),
    {
        Json::Object(Vec::new())
    }

    /// A string node holding `text`.
    pub fn text(text: &str) -> (r: Json)
        ensures
            r@ == JsonModel::Str(text@),
    {
        Json::Str(text.to_owned())
    }

    /// A number node holding `n`.
    pub fn unsigned(n: u64) -> (r: Json)
        ensures
            r@ == JsonModel::Number(NumberModel::Unsigned(n)),
    {
        Json::Number(JsonNumber::Unsigned(n))
    }

    /// Whether this node is an object.
    pub fn is_object(&self) -> (r: bool)
        ensures
            r == (self@ is Object),
    {
        match self {
            Json::Object(_) => true,
            _ => false,
        }
    }

    /// The text of this node, if it is a string.
    pub fn as_str(&self) -> (r: Option<&str>)
        ensures
            match self@.as_text() {
                Some(s) => r is Some && r.unwrap()@ == s,
                None => r is None,
            },
    {
        match self {
            Json::Str(s) => Some(s.as_str()),
            _ => None,
        }
    }

    /// The value of this node, if it is a boolean.
    pub fn as_bool(&self) -> (r: Option<bool>)
        ensures
            r == self@.as_bool(),
    {
        match self {
            Json::Bool(b) => Some(*b),
            _ => None,
        }
    }

    /// The value of this node, if it is a non-negative integer.
    pub fn as_u64(&self) -> (r: Option<u64>)
        ensures
            r == self@.as_u64(),
    {
        match self {
            Json::Number(JsonNumber::Unsigned(n)) => Some(*n),
            _ => None,
        }
    }

    /// The items of this node, if it is an array.
    pub fn as_array(&self) -> (r: Option<&Vec<Json>>)
        ensures
            match self@.as_items() {
                Some(items) => r is Some && items_model(r.unwrap()@) == items,
                None => r is None,
            },
    {
        match self {
            Json::Array(items) => Some(items),
            _ => None,
        }
    }

    /// The entries of this object, in the order in which they are stored.
    pub fn as_object(&self) -> (r: Option<&Vec<(String, Json)>>)
        ensures
            match self@ {
                JsonModel::Object(m) => r is Some && entries_model(r.unwrap()@) == m,
                _ => r is None,
            },
    {
        match self {
            Json::Object(entries) => Some(entries),
            _ => None,
        }
    }

    /// The member under `key`, if this is an object that has one.
    pub fn get(&self, key: &str) -> (r: Option<&Json>)
        ensures
            match self@.get(key@) {
                Some(member) => r is Some && r.unwrap()@ == member,
                None => r is None,
            },
    {
        match self {
            Json::Object(entries) => {
                match find_last(entries, key) {
                    Some(i) => {
                        proof {
                            lemma_entries_last_match(entries@, key@, i as int);
                        }
                        Some(&entries[i].1)
                    },
                    None => {
                        proof {
                            lemma_entries_keys(entries@, key@);
                        }
                        None
                    },
                }
            },
            _ => None,
        }
    }

    /// Binds `key` to `value` in this object, replacing what was bound to it.
    /// Anything but an object is left as it is.
    pub fn insert(&mut self, key: &str, value: Json)
        ensures
            final(self)@ == old(self)@.with(key@, value@),
    {
        match self {
            Json::Object(entries) => {
                let found = find_last(entries, key);
                let entry = (key.to_owned(), value);
                match found {
                    Some(i) => {
                        proof {
                            lemma_entries_replace(entries@, i as int, entry);
                        }
                        entries[i] = entry;
                    },
                    None => {
                        assert(entries@.push(entry).drop_last() == entries@);
                        entries.push(entry);
                    },
                }
            },
            _ => {},
        }
    }

    /// A structural copy of this tree.
    pub fn duplicate(&self) -> (r: Json)
        ensures
            r@ == self@,
        decreases self,
    {
        match self {
            Json::Null => Json::Null,
            Json::Bool(b) => Json::Bool(*b),
            Json::Number(n) => Json::Number(n.duplicate()),
            Json::Str(s) => Json::Str(s.clone()),
            Json::Array(items) => {
                let mut out: Vec<Json> = Vec::new();
                let mut i: usize = 0;
                while i < items.len()
                    invariant
                        i <= items.len(),
                        out.len() == i,
                        self matches Json::Array(own) && own == items,
                        forall|j: int| 0 <= j < i ==> (#[trigger] out[j])@ == items[j]@,
                    decreases items.len() - i,
                {
                    out.push(items[i].duplicate());
                    i += 1;
                }
                assert(items_model(out@) =~= items_model(items@));
                Json::Array(out)
            },
            Json::Object(entries) => {
                let mut out: Vec<(String, Json)> = Vec::new();
                let mut i: usize = 0;
                while i < entries.len()
                    invariant
                        i <= entries.len(),
                        out.len() == i,
                        self matches Json::Object(own) && own == entries,
                        forall|j: int|
                            0 <= j < i ==> (#[trigger] out[j]).0@ == entries[j].0@ && out[j].1@
                                == entries[j].1@,
                    decreases entries.len() - i,
                {
                    out.push((entries[i].0.clone(), entries[i].1.duplicate()));
                    i += 1;
                }
                proof {
                    lemma_entries_congruent(out@, entries@);
                }
                Json::Object(out)
            },
        }
    }
}

/// The model of an optional node.
pub open spec fn opt_model(node: Option<&Json>) -> Option<JsonModel> {
    match node {
        Some(n) => Some(n@),
        None => None,
    }
}

/// The keys of an optional node: those of the object it is, none otherwise.
pub open spec fn keys_in(node: Option<JsonModel>) -> Set<Seq<char>> {
    match node {
        Some(n) => n.keys(),
        None => Set::empty(),
    }
}

/// The member of `node` under `key`, where there is a node, it is an object
/// and it has such a member.
pub fn child<'a>(node: Option<&'a Json>, key: &str) -> (r: Option<&'a Json>)
    ensures
        opt_model(r) == get_in(opt_model(node), key@),
{
    match node {
        Some(n) => n.get(key),
        None => None,
    }
}

/// The keys of `node`, in order and each once; none where there is no node
/// or it is not an object.
pub fn sorted_keys(node: Option<&Json>) -> (r: Vec<String>)
    ensures
        lists(texts(r@), keys_in(opt_model(node))),
{
    let mut out: Vec<String> = Vec::new();
    assert(texts(out@).to_set() =~= Set::<Seq<char>>::empty());
    match node {
        Some(Json::Object(entries)) => {
            let mut i: usize = 0;
            assert(Set::new(
                |k: Seq<char>| exists|j: int| 0 <= j < 0 && (#[trigger] entries[j]).0@ == k,
            ) =~= Set::<Seq<char>>::empty());
            while i < entries.len()
                invariant
                    i <= entries.len(),
                    lists(
                        texts(out@),
                        Set::new(
                            |k: Seq<char>|
                                exists|j: int| 0 <= j < i && (#[trigger] entries[j]).0@ == k,
                        ),
                    ),
                decreases entries.len() - i,
            {
                let ghost seen = Set::new(
                    |k: Seq<char>| exists|j: int| 0 <= j < i && (#[trigger] entries[j]).0@ == k,
                );
                let ghost next = Set::new(
                    |k: Seq<char>|
                        exists|j: int| 0 <= j < i + 1 && (#[trigger] entries[j]).0@ == k,
                );
                insert_unique(&mut out, entries[i].0.clone());
                proof {
                    assert forall|k: Seq<char>| next.contains(k) <==> seen.insert(
                        entries[i as int].0@,
                    ).contains(k) by {
                        if seen.contains(k) {
                            let j = choose|j: int| 0 <= j < i && (#[trigger] entries[j]).0@ == k;
                            assert(0 <= j < i + 1 && entries[j].0@ == k);
                        }
                        if k == entries[i as int].0@ {
                            assert(0 <= i < i + 1 && entries[i as int].0@ == k);
                        }
                    }
                    assert(next =~= seen.insert(entries[i as int].0@));
                }
                i += 1;
            }
            proof {
                let all = Set::new(
                    |k: Seq<char>| exists|j: int| 0 <= j < i && (#[trigger] entries[j]).0@ == k,
                );
                assert forall|k: Seq<char>| all.contains(k) <==> entries_model(
                    entries@,
                ).dom().contains(k) by {
                    lemma_entries_keys(entries@, k);
                }
                assert(all =~= entries_model(entries@).dom());
            }
        },
        _ => {},
    }
    out
}

/// The last position in `entries` whose key is `key`.
pub fn find_last(entries: &Vec<(String, Json)>, key: &str) -> (r: Option<usize>)
    ensures
        match r {
            Some(i) => is_last_match(entries@, key@, i as int),
            None => forall|j: int| 0 <= j < entries.len() ==> (#[trigger] entries[j]).0@ != key@,
        },
{
    let wanted = key.to_owned();
    let mut i: usize = entries.len();
    while i > 0
        invariant
            i <= entries.len(),
            wanted@ == key@,
            forall|j: int| i <= j < entries.len() ==> (#[trigger] entries[j]).0@ != key@,
        decreases i,
    {
        i -= 1;
        if entries[i].0 == wanted {
            return Some(i);
        }
    }
    None
}

} // verus!
