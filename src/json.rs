use vstd::prelude::*;

verus! {

broadcast use vstd::std_specs::vec::group_vec_axioms, vstd::seq::axiom_seq_subrange_decreases;

/// A JSON number as the protocol carries it.
#[derive(Debug, Clone, PartialEq, Eq)]
pub enum JsonNumber {
    /// A non-negative integer.
    PosInt(u64),
    /// A negative integer.
    NegInt(i64),
    /// A floating-point number, held as its shortest decimal text (`42.5`,
    /// `1e20`), which reads back as the same binary64 value.
    Float(String),
}

impl JsonNumber {
    /// A copy of this number.
    pub fn duplicate(&self) -> (r: JsonNumber)
        ensures
            r == *self,
    {
        match self {
            JsonNumber::PosInt(u) => JsonNumber::PosInt(*u),
            JsonNumber::NegInt(i) => JsonNumber::NegInt(*i),
            JsonNumber::Float(s) => JsonNumber::Float(s.clone()),
        }
    }

    /// The mathematical value of this number.
    pub open spec fn view(&self) -> NumberValue {
        match self {
            JsonNumber::PosInt(u) => NumberValue::PosInt(*u),
            JsonNumber::NegInt(i) => NumberValue::NegInt(*i),
            JsonNumber::Float(s) => NumberValue::Float(s@),
        }
    }
}

/// The mathematical value of a [`JsonNumber`].
pub enum NumberValue {
    PosInt(u64),
    NegInt(i64),
    Float(Seq<char>),
}

/// An untyped JSON tree, as received from or sent to the adapter.
///
/// A mapping keeps its entries in order; a lookup by key takes the last
/// entry with that key, as serde_json's map keeps the last of repeated keys.
#[derive(Debug, PartialEq)]
pub enum JsonTree {
    Null,
    Bool(bool),
    Number(JsonNumber),
    Text(String),
    Array(Vec<JsonTree>),
    Object(Vec<(String, JsonTree)>),
}

/// The mathematical value of a [`JsonTree`]: strings become character
/// sequences, vectors become sequences.
pub enum JsonValue {
    Null,
    Bool(bool),
    Number(NumberValue),
    Text(Seq<char>),
    Array(Seq<JsonValue>),
    Object(Seq<(Seq<char>, JsonValue)>),
}

impl JsonTree {
    /// The mathematical value of this tree.
    pub open spec fn view(&self) -> JsonValue
        decreases self,
    {
        match self {
            JsonTree::Null => JsonValue::Null,
            JsonTree::Bool(b) => JsonValue::Bool(*b),
            JsonTree::Number(n) => JsonValue::Number(n@),
            JsonTree::Text(s) => JsonValue::Text(s@),
            JsonTree::Array(items) => JsonValue::Array(items_view(items@)),
            JsonTree::Object(entries) => JsonValue::Object(entries_view(entries@)),
        }
    }
}

/// The values of a sequence of trees, in order.
pub open spec fn items_view(items: Seq<JsonTree>) -> Seq<JsonValue>
    decreases items,
{
    if items.len() == 0 {
        Seq::empty()
    } else {
        let front = items.subrange(0, items.len() - 1);
        items_view(front).push(items[items.len() - 1].view())
    }
}

/// The keys and values of a sequence of mapping entries, in order.
pub open spec fn entries_view(entries: Seq<(String, JsonTree)>) -> Seq<(Seq<char>, JsonValue)>
    decreases entries,
{
    if entries.len() == 0 {
        Seq::empty()
    } else {
        let front = entries.subrange(0, entries.len() - 1);
        let last = entries[entries.len() - 1];
        entries_view(front).push((last.0@, last.1.view()))
    }
}

/// The view of a sequence of trees holds the view of each, in order.
pub proof fn lemma_items_view(items: Seq<JsonTree>)
    ensures
        items_view(items).len() == items.len(),
        forall|k: int| 0 <= k < items.len() ==> #[trigger] items_view(items)[k] == items[k]@,
    decreases items.len(),
{
    if items.len() > 0 {
        lemma_items_view(items.subrange(0, items.len() - 1));
    }
}

/// The view of a sequence of entries holds the view of each, in order.
pub broadcast proof fn lemma_entries_view(entries: Seq<(String, JsonTree)>)
    ensures
        #[trigger] entries_view(entries).len() == entries.len(),
        forall|k: int|
            0 <= k < entries.len() ==> #[trigger] entries_view(entries)[k] == (
            entries[k].0@,
            entries[k].1@,
        ),
    decreases entries.len(),
{
    if entries.len() > 0 {
        lemma_entries_view(entries.subrange(0, entries.len() - 1));
    }
}

/// The value of the last entry of `entries` whose key is `key`.
pub open spec fn entry_value(entries: Seq<(Seq<char>, JsonValue)>, key: Seq<char>) -> Option<
    JsonValue,
>
    decreases entries.len(),
{
    if entries.len() == 0 {
        None
    } else if entries.last().0 == key {
        Some(entries.last().1)
    } else {
        entry_value(entries.drop_last(), key)
    }
}

/// The value under `key` when `v` is a mapping; nothing for any other value.
pub open spec fn child(v: JsonValue, key: Seq<char>) -> Option<JsonValue> {
    match v {
        JsonValue::Object(entries) => entry_value(entries, key),
        _ => None,
    }
}

/// When no entry after `j` has the key, the lookup is decided at `j`; a
/// `j` of -1 means that no entry has it.
pub proof fn lemma_entry_value_at(entries: Seq<(Seq<char>, JsonValue)>, key: Seq<char>, j: int)
    requires
        -1 <= j < entries.len(),
        forall|k: int| j < k < entries.len() ==> entries[k].0 != key,
        j >= 0 ==> entries[j].0 == key,
    ensures
        entry_value(entries, key) == (if j >= 0 {
            Some(entries[j].1)
        } else {
            None::<JsonValue>
        }),
    decreases entries.len(),
{
    if entries.len() > 0 && j < entries.len() - 1 {
        let front = entries.drop_last();
        assert forall|k: int| j < k < front.len() implies front[k].0 != key by {
            assert(front[k] == entries[k]);
        }
        if j >= 0 {
            assert(front[j] == entries[j]);
        }
        lemma_entry_value_at(front, key, j);
    }
}

/// Moves out of `t` the value under `key`, if `t` is a mapping that has one.
pub fn take_child(t: JsonTree, key: &String) -> (r: Option<JsonTree>)
    ensures
        match child(t@, key@) {
            Some(v) => r is Some && r->0@ == v,
            None => r is None,
        },
{
    match t {
        JsonTree::Object(entries) => {
            let mut entries = entries;
            let ghost ev = entries_view(entries@);
            proof {
                lemma_entries_view(entries@);
            }
            assert(t@ == JsonValue::Object(ev));
            let n = entries.len();
            let mut j: usize = n;
            while j > 0
                invariant
                    n == entries.len(),
                    j <= n,
                    ev.len() == n,
                    t@ == JsonValue::Object(ev),
                    forall|k: int| 0 <= k < n ==> ev[k] == (#[trigger] entries@[k].0@, entries@[k].1@),
                    forall|k: int| j <= k < n ==> ev[k].0 != key@,
                decreases j,
            {
                j -= 1;
                if entries[j].0 == *key {
                    proof {
                        lemma_entry_value_at(ev, key@, j as int);
                    }
                    let (_, v) = entries.remove(j);
                    assert(v@ == ev[j as int].1);
                    return Some(v);
                }
            }
            proof {
                lemma_entry_value_at(ev, key@, -1);
            }
            None
        },
        _ => None,
    }
}

/// The value under `key` in `t`, if `t` is a mapping that has one.
pub fn get<'a>(t: &'a JsonTree, key: &String) -> (r: Option<&'a JsonTree>)
    ensures
        match child(t@, key@) {
            Some(v) => r is Some && r->0@ == v,
            None => r is None,
        },
{
    match t {
        JsonTree::Object(entries) => {
            let ghost ev = entries_view(entries@);
            proof {
                lemma_entries_view(entries@);
            }
            let n = entries.len();
            let mut j: usize = n;
            while j > 0
                invariant
                    n == entries.len(),
                    j <= n,
                    ev.len() == n,
                    t@ == JsonValue::Object(ev),
                    forall|k: int| 0 <= k < n ==> ev[k] == (#[trigger] entries@[k].0@, entries@[k].1@),
                    forall|k: int| j <= k < n ==> ev[k].0 != key@,
                decreases j,
            {
                j -= 1;
                if entries[j].0 == *key {
                    proof {
                        lemma_entry_value_at(ev, key@, j as int);
                    }
                    return Some(&entries[j].1);
                }
            }
            proof {
                lemma_entry_value_at(ev, key@, -1);
            }
            None
        },
        _ => None,
    }
}

} // verus!
