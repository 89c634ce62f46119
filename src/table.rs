//! The remote table: an ordered mapping from remote names to remote ids,
//! kept in an `indexmap::IndexMap` so that insertion order is preserved.
use indexmap::IndexMap;
use vstd::prelude::*;

use crate::remote::{valid_id, valid_name, RemoteId, RemoteName};

verus! {

#[verifier::external_type_specification]
#[verifier::external_body]
#[verifier::reject_recursive_types(K)]
#[verifier::reject_recursive_types(V)]
#[verifier::reject_recursive_types(S)]
pub struct ExIndexMap<K, V, S>(IndexMap<K, V, S>);

/// The (key, value) pairs of a map, in the map's order.
pub uninterp spec fn index_map_entries(m: IndexMap<String, String>) -> Seq<(Seq<char>, Seq<char>)>;

/// Every key occurs at most once.
pub open spec fn unique_keys(e: Seq<(Seq<char>, Seq<char>)>) -> bool {
    forall|i: int, j: int|
        0 <= i < e.len() && 0 <= j < e.len() && #[trigger] e[i].0 == #[trigger] e[j].0 ==> i == j
}

pub open spec fn has_key(e: Seq<(Seq<char>, Seq<char>)>, k: Seq<char>) -> bool {
    exists|i: int| 0 <= i < e.len() && #[trigger] e[i].0 == k
}

/// The position of `k` in `e`, when `has_key(e, k)`.
pub open spec fn key_pos(e: Seq<(Seq<char>, Seq<char>)>, k: Seq<char>) -> int {
    choose|i: int| 0 <= i < e.len() && #[trigger] e[i].0 == k
}

/// `e` with `k` bound to `v`: the value is replaced in place when `k` is
/// present, otherwise the pair is appended.
pub open spec fn inserted(e: Seq<(Seq<char>, Seq<char>)>, k: Seq<char>, v: Seq<char>) -> Seq<
    (Seq<char>, Seq<char>),
> {
    if has_key(e, k) {
        e.update(key_pos(e, k), (k, v))
    } else {
        e.push((k, v))
    }
}

/// `e` without the pair of key `k`, the others in their order.
pub open spec fn removed(e: Seq<(Seq<char>, Seq<char>)>, k: Seq<char>) -> Seq<
    (Seq<char>, Seq<char>),
> {
    if has_key(e, k) {
        e.remove(key_pos(e, k))
    } else {
        e
    }
}

/// The value bound to `k`, if any.
pub open spec fn lookup(e: Seq<(Seq<char>, Seq<char>)>, k: Seq<char>) -> Option<Seq<char>> {
    if has_key(e, k) {
        Some(e[key_pos(e, k)].1)
    } else {
        None
    }
}

/// Relies on `IndexMap::new`: a new map is empty.
#[verifier::external_body]
fn map_new() -> (m: IndexMap<String, String>)
    ensures
        index_map_entries(m) == Seq::<(Seq<char>, Seq<char>)>::empty(),
{
    IndexMap::new()
}

/// Relies on `IndexMap::len`: the number of pairs.
#[verifier::external_body]
fn map_len(m: &IndexMap<String, String>) -> (r: usize)
    ensures
        r == index_map_entries(*m).len(),
{
    m.len()
}

/// Relies on `IndexMap::insert`: an existing key keeps its place and takes
/// the new value; a new key is placed last.
#[verifier::external_body]
fn map_insert(m: &mut IndexMap<String, String>, k: String, v: String)
    requires
        unique_keys(index_map_entries(*old(m))),
    ensures
        index_map_entries(*final(m)) == inserted(index_map_entries(*old(m)), k@, v@),
{
    m.insert(k, v);
}

/// Relies on `IndexMap::shift_remove`: removes the pair of key `k`, shifting
/// the pairs after it, and returns its value.
#[verifier::external_body]
fn map_shift_remove(m: &mut IndexMap<String, String>, k: &str) -> (r: Option<String>)
    requires
        unique_keys(index_map_entries(*old(m))),
    ensures
        index_map_entries(*final(m)) == removed(index_map_entries(*old(m)), k@),
        r is Some <==> has_key(index_map_entries(*old(m)), k@),
        r matches Some(v) ==> Some(v@) == lookup(index_map_entries(*old(m)), k@),
{
    m.shift_remove(k)
}

/// Relies on `IndexMap::get`: the value of key `k`, if present.
#[verifier::external_body]
fn map_get<'a>(m: &'a IndexMap<String, String>, k: &str) -> (r: Option<&'a String>)
    requires
        unique_keys(index_map_entries(*m)),
    ensures
        r is Some <==> has_key(index_map_entries(*m), k@),
        r matches Some(v) ==> Some(v@) == lookup(index_map_entries(*m), k@),
{
    m.get(k)
}

/// Relies on `IndexMap::contains_key`: whether key `k` is present.
#[verifier::external_body]
fn map_contains_key(m: &IndexMap<String, String>, k: &str) -> (r: bool)
    ensures
        r == has_key(index_map_entries(*m), k@),
{
    m.contains_key(k)
}

/// Relies on `IndexMap::get_index`: the pair at position `i`.
#[verifier::external_body]
fn map_get_index<'a>(m: &'a IndexMap<String, String>, i: usize) -> (r: Option<
    (&'a String, &'a String),
>)
    ensures
        r is Some <==> i < index_map_entries(*m).len(),
        r matches Some(p) ==> p.0@ == index_map_entries(*m)[i as int].0,
        r matches Some(p) ==> p.1@ == index_map_entries(*m)[i as int].1,
{
    m.get_index(i)
}

/// Relies on `IndexMap`'s `Clone`: the copy holds the same pairs in the same order.
#[verifier::external_body]
fn map_clone(m: &IndexMap<String, String>) -> (r: IndexMap<String, String>)
    ensures
        index_map_entries(r) == index_map_entries(*m),
{
    m.clone()
}

/// An ordered table from remote names to remote ids.
#[derive(Debug)]
pub struct RemoteTable {
    map: IndexMap<String, String>,
}

/// Every key is a valid name and every value a valid id; keys are unique.
pub open spec fn table_ok(e: Seq<(Seq<char>, Seq<char>)>) -> bool {
    &&& unique_keys(e)
    &&& forall|i: int| 0 <= i < e.len() ==> valid_name(#[trigger] e[i].0) && valid_id(e[i].1)
}

impl RemoteTable {
    /// The pairs, in table order.
    pub closed spec fn view(&self) -> Seq<(Seq<char>, Seq<char>)> {
        index_map_entries(self.map)
    }

    pub open spec fn wf(&self) -> bool {
        table_ok(self@)
    }

    /// An empty table.
    pub fn new() -> (r: RemoteTable)
        ensures
            r.wf(),
            r@ == Seq::<(Seq<char>, Seq<char>)>::empty(),
    {
        RemoteTable { map: map_new() }
    }

    pub fn len(&self) -> (r: usize)
        ensures
            r == self@.len(),
    {
        map_len(&self.map)
    }

    /// Binds `name` to `id`, in place when `name` is present, else last.
    pub fn insert(&mut self, name: RemoteName, id: RemoteId)
        requires
            old(self).wf(),
        ensures
            final(self).wf(),
            final(self)@ == inserted(old(self)@, name@, id@),
    {
        let k = name.to_string();
        let v = id.to_string();
        let ghost e = self@;
        map_insert(&mut self.map, k, v);
        proof {
            lemma_inserted_ok(e, k@, v@);
        }
    }

    /// Removes the pair of `name`; returns its id, or `None` when absent.
    pub fn shift_remove(&mut self, name: &RemoteName) -> (r: Option<RemoteId>)
        requires
            old(self).wf(),
        ensures
            final(self).wf(),
            final(self)@ == removed(old(self)@, name@),
            r is Some <==> has_key(old(self)@, name@),
            r matches Some(v) ==> Some(v@) == lookup(old(self)@, name@),
    {
        let ghost e = self@;
        let r = map_shift_remove(&mut self.map, name.as_str());
        proof {
            lemma_removed_ok(e, name@);
        }
        match r {
            Some(v) => {
                proof {
                    let p = key_pos(e, name@);
                    assert(valid_id(e[p].1));
                }
                Some(RemoteId::from_checked(v))
            },
            None => None,
        }
    }

    /// The id bound to `name`, if any.
    pub fn get(&self, name: &RemoteName) -> (r: Option<RemoteId>)
        requires
            self.wf(),
        ensures
            r is Some <==> has_key(self@, name@),
            r matches Some(v) ==> Some(v@) == lookup(self@, name@),
    {
        match map_get(&self.map, name.as_str()) {
            Some(v) => {
                proof {
                    let p = key_pos(self@, name@);
                    assert(valid_id(self@[p].1));
                }
                Some(RemoteId::from_checked(v.clone()))
            },
            None => None,
        }
    }

    pub fn contains_key(&self, name: &RemoteName) -> (r: bool)
        ensures
            r == has_key(self@, name@),
    {
        map_contains_key(&self.map, name.as_str())
    }

    /// The pair at position `i`.
    pub fn get_index(&self, i: usize) -> (r: (RemoteName, RemoteId))
        requires
            self.wf(),
            i < self@.len(),
        ensures
            r.0@ == self@[i as int].0,
            r.1@ == self@[i as int].1,
    {
        let p = map_get_index(&self.map, i);
        let (k, v) = p.unwrap();
        (RemoteName::from_checked(k.clone()), RemoteId::from_checked(v.clone()))
    }

    /// A table with the same pairs in the same order.
    pub fn snapshot(&self) -> (r: RemoteTable)
        requires
            self.wf(),
        ensures
            r.wf(),
            r@ == self@,
    {
        RemoteTable { map: map_clone(&self.map) }
    }
}

pub proof fn lemma_inserted_ok(e: Seq<(Seq<char>, Seq<char>)>, k: Seq<char>, v: Seq<char>)
    requires
        table_ok(e),
        valid_name(k),
        valid_id(v),
    ensures
        table_ok(inserted(e, k, v)),
{
    let r = inserted(e, k, v);
    if has_key(e, k) {
        let p = key_pos(e, k);
        assert forall|i: int, j: int|
            0 <= i < r.len() && 0 <= j < r.len() && #[trigger] r[i].0 == #[trigger] r[j].0 implies i
            == j by {
            assert(r[i].0 == e[i].0);
            assert(r[j].0 == e[j].0);
        }
    } else {
        assert forall|i: int, j: int|
            0 <= i < r.len() && 0 <= j < r.len() && #[trigger] r[i].0 == #[trigger] r[j].0 implies i
            == j by {
            if i < e.len() && j == e.len() {
                assert(e[i].0 == k);
            }
            if j < e.len() && i == e.len() {
                assert(e[j].0 == k);
            }
        }
    }
}

pub proof fn lemma_removed_ok(e: Seq<(Seq<char>, Seq<char>)>, k: Seq<char>)
    requires
        table_ok(e),
    ensures
        table_ok(removed(e, k)),
{
    if has_key(e, k) {
        let p = key_pos(e, k);
        let r = e.remove(p);
        assert forall|i: int, j: int|
            0 <= i < r.len() && 0 <= j < r.len() && #[trigger] r[i].0 == #[trigger] r[j].0 implies i
            == j by {
            let ii = if i < p { i } else { i + 1 };
            let jj = if j < p { j } else { j + 1 };
            assert(r[i] == e[ii]);
            assert(r[j] == e[jj]);
        }
        assert forall|i: int| 0 <= i < r.len() implies valid_name(#[trigger] r[i].0) && valid_id(
            r[i].1,
        ) by {
            let ii = if i < p { i } else { i + 1 };
            assert(r[i] == e[ii]);
            assert(valid_name(e[ii].0) && valid_id(e[ii].1));
        }
    }
}

} // verus!
