use vstd::prelude::*;
use std::collections::HashMap;
use crate::model::Item;

verus! {

broadcast use vstd::std_specs::hash::group_hash_axioms;

/// The item with identifier `id` that comes last in `items`, if any.
pub open spec fn find_item(items: Seq<Item>, id: u32) -> Option<Item>
    decreases items.len(),
{
    if items.len() == 0 {
        None
    } else if items.last().id == id {
        Some(items.last())
    } else {
        find_item(items.drop_last(), id)
    }
}

/// A documentation graph: its items in the order they were given, and the
/// identifier of its root module. Where two items share an identifier, the
/// later one is the one that lookups find.
pub struct Crate {
    root: u32,
    items: Vec<Item>,
    positions: HashMap<u32, usize>,
}

impl Crate {
    pub closed spec fn root_id(&self) -> u32 {
        self.root
    }

    /// The items, in the order they were given.
    pub closed spec fn item_list(&self) -> Seq<Item> {
        self.items@
    }

    /// The item that a lookup of `id` finds.
    pub open spec fn lookup(&self, id: u32) -> Option<Item> {
        find_item(self.item_list(), id)
    }

    pub closed spec fn wf(&self) -> bool {
        &&& forall|id: u32| #[trigger]
            self.positions@.contains_key(id) <==> find_item(self.items@, id) is Some
        &&& forall|id: u32| #[trigger]
            self.positions@.contains_key(id) ==> {
                &&& self.positions@[id] < self.items@.len()
                &&& find_item(self.items@, id) == Some(self.items@[self.positions@[id] as int])
            }
    }

    /// Builds the graph over `items`, rooted at `root`.
    pub fn new(root: u32, items: Vec<Item>) -> (r: Crate)
        ensures
            r.wf(),
            r.root_id() == root,
            r.item_list() == items@,
    {
        let mut positions: HashMap<u32, usize> = HashMap::new();
        let mut i: usize = 0;
        while i < items.len()
            invariant
                i <= items.len(),
                forall|id: u32| #[trigger]
                    positions@.contains_key(id) <==> find_item(
                        items@.subrange(0, i as int),
                        id,
                    ) is Some,
                forall|id: u32| #[trigger]
                    positions@.contains_key(id) ==> {
                        &&& positions@[id] < i
                        &&& find_item(items@.subrange(0, i as int), id) == Some(
                            items@[positions@[id] as int],
                        )
                    },
            decreases items.len() - i,
        {
            let id = items[i].id;
            proof {
                assert(items@.subrange(0, i + 1).drop_last() =~= items@.subrange(0, i as int));
            }
            positions.insert(id, i);
            i = i + 1;
        }
        proof {
            assert(items@.subrange(0, items@.len() as int) =~= items@);
        }
        Crate { root, items, positions }
    }

    /// The item with identifier `id`.
    pub fn get(&self, id: u32) -> (r: Option<&Item>)
        requires
            self.wf(),
        ensures
            match r {
                Some(it) => self.lookup(id) == Some(*it),
                None => self.lookup(id) is None,
            },
    {
        match self.positions.get(&id) {
            Some(p) => Some(&self.items[*p]),
            None => None,
        }
    }

    pub fn root(&self) -> (r: u32)
        ensures
            r == self.root_id(),
    {
        self.root
    }

    pub fn items(&self) -> (r: &Vec<Item>)
        ensures
            r@ == self.item_list(),
    {
        &self.items
    }
}

/// Whether `id` occurs in `ids`.
pub fn contains_id(ids: &Vec<u32>, id: u32) -> (r: bool)
    ensures
        r == ids@.contains(id),
{
    let mut i: usize = 0;
    while i < ids.len()
        invariant
            i <= ids.len(),
            forall|j: int| 0 <= j < i ==> ids@[j] != id,
        decreases ids.len() - i,
    {
        if ids[i] == id {
            return true;
        }
        i = i + 1;
    }
    false
}

} // verus!
