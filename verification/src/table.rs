//! Tables and sets keyed by small integers.

use vstd::prelude::*;

use crate::chain::{Chain, Same};

verus! {

/// A table that keeps every entry it was given; the newest of a key counts.
pub struct Table<V> {
    pub log: Chain<(u32, Option<V>)>,
}

/// What the newest entry of `key` holds.
pub open spec fn newest<V>(log: Chain<(u32, Option<V>)>, key: u32) -> Option<V>
    decreases log,
{
    match log {
        Chain::Empty => None,
        Chain::Link(link) => if link.item.0 == key {
            link.item.1
        } else {
            newest(link.rest, key)
        },
    }
}

fn find_newest<V>(log: &Chain<(u32, Option<V>)>, key: u32) -> (value: Option<&V>)
    ensures
        match value {
            Some(found) => newest(*log, key) == Some(*found),
            None => newest(*log, key) is None,
        },
{
    let mut current: &Chain<(u32, Option<V>)> = log;
    loop
        invariant
            newest(*current, key) == newest(*log, key),
        decreases current,
    {
        match current {
            Chain::Empty => {
                return None;
            },
            Chain::Link(link) => {
                if link.item.0 == key {
                    return match &link.item.1 {
                        Some(value) => Some(value),
                        None => None,
                    };
                }
                current = &link.rest;
            },
        }
    }
}

impl<V> Table<V> {
    pub open spec fn empty() -> Table<V> {
        Table { log: Chain::Empty }
    }

    /// The value of `key`.
    pub open spec fn lookup(self, key: u32) -> Option<V> {
        newest(self.log, key)
    }

    /// The table after `key` was given a value.
    pub open spec fn inserted(self, key: u32, value: V) -> Table<V> {
        Table { log: self.log.pushed((key, Some(value))) }
    }

    /// The table as a map.
    pub open spec fn map(self) -> Map<u32, V> {
        Map::new(|key: u32| self.lookup(key) is Some, |key: u32| self.lookup(key)->0)
    }

    pub fn new() -> (table: Self)
        ensures
            table == Table::<V>::empty(),
    {
        Table { log: Chain::new() }
    }

    pub fn get(&self, key: u32) -> (value: Option<&V>)
        ensures
            match value {
                Some(found) => self.lookup(key) == Some(*found),
                None => self.lookup(key) is None,
            },
    {
        find_newest(&self.log, key)
    }

    pub fn insert(&mut self, key: u32, value: V)
        ensures
            *final(self) == old(self).inserted(key, value),
    {
        self.log.push((key, Some(value)));
    }
}

impl<V> Clone for Table<V> {
    fn clone(&self) -> (copy: Self)
        ensures
            copy == *self,
    {
        Table { log: self.log.clone() }
    }
}

/// A table gives back the value that was last inserted for a key, and an
/// insertion changes no other key.
pub proof fn law_table_reads_last_insert<V>(table: Table<V>, key: u32, value: V)
    ensures
        table.inserted(key, value).map() == table.map().insert(key, value),
{
    assert(table.inserted(key, value).map() =~= table.map().insert(key, value));
}

impl Same for u32 {
    fn same(&self, other: &Self) -> (equal: bool) {
        *self == *other
    }
}

/// Whether `id` is among `ids`.
pub open spec fn has_id(ids: Chain<u32>, id: u32) -> bool
    decreases ids,
{
    match ids {
        Chain::Empty => false,
        Chain::Link(link) => link.item == id || has_id(link.rest, id),
    }
}

/// The ids with `id` in its place, once.
pub open spec fn id_inserted(ids: Chain<u32>, id: u32) -> Chain<u32>
    decreases ids,
{
    match ids {
        Chain::Empty => ids.pushed(id),
        Chain::Link(link) => if link.item < id {
            ids.pushed(id)
        } else if link.item == id {
            ids
        } else {
            id_inserted(link.rest, id).pushed(link.item)
        },
    }
}

/// The ids without `id`.
pub open spec fn id_removed(ids: Chain<u32>, id: u32) -> Chain<u32>
    decreases ids,
{
    match ids {
        Chain::Empty => ids,
        Chain::Link(link) => if link.item == id {
            id_removed(link.rest, id)
        } else {
            id_removed(link.rest, id).pushed(link.item)
        },
    }
}

/// The ids of both lists, each once and in order.
pub open spec fn ids_united(left: Chain<u32>, right: Chain<u32>) -> Chain<u32>
    decreases right,
{
    match right {
        Chain::Empty => left,
        Chain::Link(link) => id_inserted(ids_united(left, link.rest), link.item),
    }
}

pub fn contains_id(ids: &Chain<u32>, id: u32) -> (has: bool)
    ensures
        has == has_id(*ids, id),
{
    let mut current: &Chain<u32> = ids;
    loop
        invariant
            has_id(*current, id) == has_id(*ids, id),
        decreases current,
    {
        match current {
            Chain::Empty => {
                return false;
            },
            Chain::Link(link) => {
                if link.item == id {
                    return true;
                }
                current = &link.rest;
            },
        }
    }
}

pub fn insert_id(ids: &Chain<u32>, id: u32) -> (result: Chain<u32>)
    ensures
        result == id_inserted(*ids, id),
    decreases ids,
{
    match ids {
        Chain::Empty => ids.clone().with(id),
        Chain::Link(link) => if link.item < id {
            ids.clone().with(id)
        } else if link.item == id {
            ids.clone()
        } else {
            insert_id(&link.rest, id).with(link.item)
        },
    }
}

pub fn remove_id(ids: &Chain<u32>, id: u32) -> (result: Chain<u32>)
    ensures
        result == id_removed(*ids, id),
    decreases ids,
{
    match ids {
        Chain::Empty => Chain::new(),
        Chain::Link(link) => if link.item == id {
            remove_id(&link.rest, id)
        } else {
            remove_id(&link.rest, id).with(link.item)
        },
    }
}

pub fn unite_ids(left: &Chain<u32>, right: &Chain<u32>) -> (result: Chain<u32>)
    ensures
        result == ids_united(*left, *right),
    decreases right,
{
    match right {
        Chain::Empty => left.clone(),
        Chain::Link(link) => insert_id(&unite_ids(left, &link.rest), link.item),
    }
}

/// An insertion adds one id and keeps the others.
pub proof fn law_insert_id(ids: Chain<u32>, id: u32, other: u32)
    ensures
        has_id(id_inserted(ids, id), other) == (other == id || has_id(ids, other)),
    decreases ids,
{
    if ids is Link {
        law_insert_id(ids.without_last(), id, other);
    }
}

/// A removal takes one id away and keeps the others.
pub proof fn law_remove_id(ids: Chain<u32>, id: u32, other: u32)
    ensures
        has_id(id_removed(ids, id), other) == (other != id && has_id(ids, other)),
    decreases ids,
{
    if ids is Link {
        law_remove_id(ids.without_last(), id, other);
    }
}

/// A union has the ids of either list.
pub proof fn law_unite_ids(left: Chain<u32>, right: Chain<u32>, id: u32)
    ensures
        has_id(ids_united(left, right), id) == (has_id(left, id) || has_id(right, id)),
    decreases right,
{
    if right is Link {
        law_unite_ids(left, right.without_last(), id);
        law_insert_id(ids_united(left, right.without_last()), right->0.item, id);
    }
}

} // verus!
