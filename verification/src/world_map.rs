use crate::cell_key::{cell_key, cell_of_key, is_cell, key_of, lemma_keys_and_cells};
use std::collections::HashMap;
use vstd::prelude::*;

verus! {

broadcast use vstd::std_specs::hash::group_hash_axioms;

/// The hexes of the world that are known: which entity stands on which cell.
/// An entity is held by its number. The view maps each known cell to its
/// entity.
#[derive(Debug)]
pub struct WorldMap {
    grid: HashMap<u64, u64>,
}

impl View for WorldMap {
    type V = Map<(int, int), u64>;

    closed spec fn view(&self) -> Map<(int, int), u64> {
        Map::new(
            |p: (int, int)| is_cell(p.0, p.1) && self.grid@.contains_key(cell_key(p.0, p.1) as u64),
            |p: (int, int)| self.grid@[cell_key(p.0, p.1) as u64],
        )
    }
}

impl WorldMap {
    /// A world of which nothing is known yet.
    pub fn new() -> (map: WorldMap)
        ensures
            map@ == Map::<(int, int), u64>::empty(),
    {
        let map = WorldMap { grid: HashMap::new() };
        assert(map@ =~= Map::<(int, int), u64>::empty());
        map
    }

    /// Puts `entity` on the cell `pos`, in place of what stood there.
    pub fn insert(&mut self, pos: (i32, i32), entity: u64)
        ensures
            final(self)@ == old(self)@.insert((pos.0 as int, pos.1 as int), entity),
    {
        let k: u64 = key_of(pos.0, pos.1);
        self.grid.insert(k, entity);
        assert(self@ =~= old(self)@.insert((pos.0 as int, pos.1 as int), entity));
    }

    /// The entity on the cell `pos`, if one is known.
    pub fn get(&self, pos: (i32, i32)) -> (entity: Option<u64>)
        ensures
            entity.is_some() == self@.contains_key((pos.0 as int, pos.1 as int)),
            entity.is_some() ==> entity.unwrap() == self@[(pos.0 as int, pos.1 as int)],
    {
        let k: u64 = key_of(pos.0, pos.1);
        match self.grid.get(&k) {
            Some(entity) => Some(*entity),
            None => None,
        }
    }

    /// Forgets every cell.
    pub fn clear(&mut self)
        ensures
            final(self)@ == Map::<(int, int), u64>::empty(),
    {
        self.grid.clear();
        assert(self@ =~= Map::<(int, int), u64>::empty());
    }

    /// The number of known cells.
    pub fn count(&self) -> (n: usize)
        ensures
            self@.dom().finite(),
            n == self@.dom().len(),
    {
        proof {
            let keys = self.grid@.dom();
            let decode = |k: u64| cell_of_key(k);
            assert forall|j: u64, k: u64| #[trigger] decode(j) == #[trigger] decode(k) implies j
                == k by {
                lemma_keys_and_cells(0, 0, j);
                lemma_keys_and_cells(0, 0, k);
            }
            assert(vstd::relations::injective_on(decode, keys));
            assert forall|p: (int, int)| keys.map(decode).contains(p) == self@.dom().contains(
                p,
            ) by {
                if keys.map(decode).contains(p) {
                    let k = choose|k: u64| keys.contains(k) && decode(k) == p;
                    lemma_keys_and_cells(0, 0, k);
                }
                if self@.dom().contains(p) {
                    lemma_keys_and_cells(p.0, p.1, 0);
                    let k = cell_key(p.0, p.1) as u64;
                    assert(keys.contains(k) && decode(k) == p);
                }
            }
            assert(keys.map(decode) =~= self@.dom());
            vstd::set_lib::lemma_map_size(keys, self@.dom(), decode);
        }
        self.grid.len()
    }
}

} // verus!
