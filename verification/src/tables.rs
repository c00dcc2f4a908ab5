//! Tables from names to values: the content map of a world, and the read-only
//! side tables that say of which type a block is and what a legacy block
//! carries.

use vstd::prelude::*;
use vstd::utf8::{encode_utf8, encode_utf8_decode_utf8};

verus! {

/// Whether two texts are the same.
pub fn str_eq(a: &str, b: &str) -> (r: bool)
    ensures
        r == (a@ == b@),
{
    let left = a.as_bytes();
    let right = b.as_bytes();
    proof {
        encode_utf8_decode_utf8(a@);
        encode_utf8_decode_utf8(b@);
    }
    if left.len() != right.len() {
        return false;
    }
    let mut i: usize = 0;
    while i < left.len()
        invariant
            i <= left@.len(),
            left@.len() == right@.len(),
            left@ == encode_utf8(a@),
            right@ == encode_utf8(b@),
            forall|j: int| 0 <= j < i ==> left@[j] == right@[j],
        decreases left@.len() - i,
    {
        if left[i] != right[i] {
            return false;
        }
        i += 1;
    }
    assert(left@ =~= right@);
    true
}

/// Whether the UTF-8 form of `text` begins with the UTF-8 form of `prefix`.
pub open spec fn begins_with(text: Seq<char>, prefix: Seq<char>) -> bool {
    encode_utf8(prefix).is_prefix_of(encode_utf8(text))
}

/// Whether `text` begins with `prefix`, byte for byte.
pub fn str_begins_with(text: &str, prefix: &str) -> (r: bool)
    ensures
        r == begins_with(text@, prefix@),
{
    let whole = text.as_bytes();
    let head = prefix.as_bytes();
    if head.len() > whole.len() {
        return false;
    }
    let mut i: usize = 0;
    while i < head.len()
        invariant
            i <= head@.len(),
            head@.len() <= whole@.len(),
            head@ == encode_utf8(prefix@),
            whole@ == encode_utf8(text@),
            forall|j: int| 0 <= j < i ==> head@[j] == whole@[j],
        decreases head@.len() - i,
    {
        if head[i] != whole[i] {
            assert(whole@.subrange(0, head@.len() as int)[i as int] != head@[i as int]);
            return false;
        }
        i += 1;
    }
    assert(head@ =~= whole@.subrange(0, head@.len() as int));
    true
}

/// The index of the last of `keys` that equals `key`.
pub open spec fn last_index(keys: Seq<Seq<char>>, key: Seq<char>) -> Option<int>
    decreases keys.len(),
{
    if keys.len() == 0 {
        None
    } else if keys.last() == key {
        Some(keys.len() - 1)
    } else {
        last_index(keys.drop_last(), key)
    }
}

/// What `last_index` finds is an index of `keys`, and holds `key`.
pub proof fn lemma_last_index(keys: Seq<Seq<char>>, key: Seq<char>)
    ensures
        last_index(keys, key) matches Some(i) ==> 0 <= i < keys.len() && keys[i] == key,
    decreases keys.len(),
{
    if keys.len() > 0 && keys.last() != key {
        lemma_last_index(keys.drop_last(), key);
    }
}

/// One named entry of a table.
#[derive(Debug, Clone)]
pub struct Entry<V> {
    pub name: String,
    pub value: V,
}

/// A table from names to values, in the order in which the entries were
/// added. Where a name occurs more than once, its last entry counts.
#[derive(Debug, Clone)]
pub struct Table<V> {
    pub entries: Vec<Entry<V>>,
}

impl<V: DeepView> DeepView for Table<V> {
    type V = Seq<(Seq<char>, V::V)>;

    open spec fn deep_view(&self) -> Seq<(Seq<char>, V::V)> {
        Seq::new(
            self.entries@.len(),
            |i: int| (self.entries@[i].name@, self.entries@[i].value.deep_view()),
        )
    }
}

impl<V> Table<V> {
    /// The names of the entries, in order.
    pub open spec fn keys(&self) -> Seq<Seq<char>> {
        Seq::new(self.entries@.len(), |i: int| self.entries@[i].name@)
    }

    /// The index of the entry that counts for `key`.
    pub open spec fn index_of(&self, key: Seq<char>) -> Option<int> {
        last_index(self.keys(), key)
    }

    pub fn new() -> (t: Table<V>)
        ensures
            t.entries@.len() == 0,
    {
        Table { entries: Vec::new() }
    }

    /// Adds an entry; it counts from now on for its name.
    pub fn insert(&mut self, name: String, value: V)
        ensures
            final(self).entries@ == old(self).entries@.push(Entry { name, value }),
            final(self).index_of(name@) == Some(old(self).entries@.len() as int),
    {
        self.entries.push(Entry { name, value });
        assert(self.keys().last() == name@);
    }

    /// Finds the entry that counts for `key`.
    pub fn find(&self, key: &str) -> (r: Option<usize>)
        ensures
            r matches Some(i) ==> self.index_of(key@) == Some(i as int) && i < self.entries@.len()
                && self.entries@[i as int].name@ == key@,
            r is None ==> self.index_of(key@) is None,
    {
        let mut i: usize = self.entries.len();
        proof {
            assert(self.keys().subrange(0, i as int) =~= self.keys());
        }
        while i > 0
            invariant
                i <= self.entries@.len(),
                last_index(self.keys(), key@) == last_index(
                    self.keys().subrange(0, i as int),
                    key@,
                ),
            decreases i,
        {
            i -= 1;
            let ghost prefix = self.keys().subrange(0, i + 1);
            assert(prefix.last() == self.entries@[i as int].name@);
            assert(prefix.drop_last() =~= self.keys().subrange(0, i as int));
            if str_eq(self.entries[i].name.as_str(), key) {
                return Some(i);
            }
        }
        None
    }
}

/// Which sub-records a block without an extended header carries.
#[derive(Debug, Clone, Copy, PartialEq, Eq, Structural)]
pub struct BlockParam {
    pub has_items: bool,
    pub has_power: bool,
    pub has_liquids: bool,
}

impl Default for BlockParam {
    fn default() -> (r: BlockParam)
        ensures
            !r.has_items,
            !r.has_power,
            !r.has_liquids,
    {
        BlockParam { has_items: false, has_power: false, has_liquids: false }
    }
}

impl DeepView for BlockParam {
    type V = BlockParam;

    open spec fn deep_view(&self) -> BlockParam {
        *self
    }
}

/// The names of the entries of a table, in order.
pub open spec fn keys_of<V>(t: Seq<(Seq<char>, V)>) -> Seq<Seq<char>> {
    Seq::new(t.len(), |i: int| t[i].0)
}

/// The value that a table has for `key`: that of the last entry under the
/// name, if there is one.
pub open spec fn lookup<V>(t: Seq<(Seq<char>, V)>, key: Seq<char>) -> Option<V> {
    match last_index(keys_of(t), key) {
        Some(i) => Some(t[i].1),
        None => None,
    }
}

/// What `find` returns for a key is what `lookup` gives on the table's view.
pub proof fn lemma_table_lookup<V: DeepView>(t: &Table<V>, key: Seq<char>)
    ensures
        keys_of(t.deep_view()) == t.keys(),
        lookup(t.deep_view(), key) == match t.index_of(key) {
            Some(i) => Some(t.entries@[i].value.deep_view()),
            None => None,
        },
{
    assert(keys_of(t.deep_view()) =~= t.keys());
    lemma_last_index(t.keys(), key);
}

/// What the side tables hold, as plain mathematical values.
pub struct TablesView {
    pub content_types: Seq<Seq<char>>,
    pub block_types: Seq<(Seq<char>, Seq<char>)>,
    pub block_params: Seq<(Seq<char>, BlockParam)>,
}

/// What a content map holds, as plain mathematical values: for each category
/// its name and the names of its entries.
pub type ContentView = Seq<(Seq<char>, Seq<Seq<char>>)>;

/// The read-only side tables that decoding leans on.
#[derive(Debug, Clone)]
pub struct Tables {
    /// The names of the content categories, by their index on the wire.
    pub content_types: Vec<String>,
    /// The type of each block, by the block's name.
    pub block_types: Table<String>,
    /// The sub-records of each block without an extended header, by the
    /// block's name.
    pub block_params: Table<BlockParam>,
}

impl DeepView for Tables {
    type V = TablesView;

    open spec fn deep_view(&self) -> TablesView {
        TablesView {
            content_types: self.content_types.deep_view(),
            block_types: self.block_types.deep_view(),
            block_params: self.block_params.deep_view(),
        }
    }
}

/// The names that the protocol's numeric ids stand for, one list for each
/// content category; an id is an index into the list of its category.
pub type ContentMap = Table<Vec<String>>;

} // verus!
