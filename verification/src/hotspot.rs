//! Hotspots: the point of a cursor image that counts as the click point.

use std::collections::HashMap;
use vstd::prelude::*;
use vstd::std_specs::hash::*;

verus! {

broadcast use vstd::std_specs::hash::group_hash_axioms;

/// Hotspot data for a cursor.
///
/// A hotspot is a pair of `(x, y)` coordinates, where `(0, 0)` is the top-left
/// corner of the cursor's image. Each frame has the hotspot that `overrides`
/// gives for its index, and `default` where `overrides` has no entry for it.
#[derive(Debug)]
pub struct CursorHotspots {
    /// The hotspot of every frame without an entry in `overrides`.
    pub default: (u16, u16),
    /// The hotspots of single frames, by frame index.
    pub overrides: HashMap<usize, (u16, u16)>,
}

impl CursorHotspots {
    /// The hotspot that a frame index resolves to.
    pub open spec fn spec_get_or_default(&self, index: usize) -> (u16, u16) {
        if self.overrides@.contains_key(index) {
            self.overrides@[index]
        } else {
            self.default
        }
    }

    /// Returns the hotspot for the given frame index: its entry in
    /// `overrides` if it has one, else the `default` hotspot.
    pub fn get_or_default(&self, index: usize) -> (hotspot: (u16, u16))
        ensures
            hotspot == self.spec_get_or_default(index),
    {
        match self.overrides.get(&index) {
            Some(hotspot) => *hotspot,
            None => self.default,
        }
    }

    /// The frame that a cursor image is made of, and its hotspot: the frame
    /// at `index`, or the first frame where no index is given.
    pub fn select(&self, index: Option<usize>) -> (r: (usize, (u16, u16)))
        ensures
            r.0 == (match index {
                Some(index) => index,
                None => 0,
            }),
            r.1 == self.spec_get_or_default(r.0),
    {
        let index = match index {
            Some(index) => index,
            None => 0,
        };
        (index, self.get_or_default(index))
    }

    /// Hotspots with an override for each index below `hotspots.len()`, taken
    /// from `hotspots` in order, and a default of `(0, 0)` that no such index
    /// falls back to.
    pub fn from_frames(hotspots: &Vec<(u16, u16)>) -> (r: CursorHotspots)
        ensures
            r.default == (0u16, 0u16),
            forall|i: usize| r.overrides@.contains_key(i) <==> i < hotspots@.len(),
            forall|i: usize| i < hotspots@.len() ==> r.overrides@[i] == hotspots@[i as int],
    {
        let mut overrides: HashMap<usize, (u16, u16)> = HashMap::new();
        let mut i: usize = 0;
        while i < hotspots.len()
            invariant
                i <= hotspots@.len(),
                forall|k: usize| overrides@.contains_key(k) <==> k < i,
                forall|k: usize| k < i ==> overrides@[k] == hotspots@[k as int],
            decreases hotspots@.len() - i,
        {
            overrides.insert(i, hotspots[i]);
            i += 1;
        }
        CursorHotspots { default: (0, 0), overrides }
    }
}

impl Clone for CursorHotspots {
    fn clone(&self) -> (r: Self)
        ensures
            r.default == self.default,
            r.overrides@ == self.overrides@,
    {
        CursorHotspots { default: self.default, overrides: self.overrides.clone() }
    }
}

impl Default for CursorHotspots {
    /// A default hotspot of `(0, 0)` and no overrides.
    fn default() -> (r: Self)
        ensures
            r.default == (0u16, 0u16),
            r.overrides@ == Map::<usize, (u16, u16)>::empty(),
    {
        CursorHotspots { default: (0, 0), overrides: HashMap::new() }
    }
}

} // verus!
