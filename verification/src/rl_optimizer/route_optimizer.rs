//! States and actions of route learning: where a packet is, where it goes,
//! how good the path looks, and which hop comes next.
use vstd::prelude::*;
use crate::text::str_eq;

verus! {

/// A node, a destination, and the path quality in tenths (0 to 10).
#[derive(Clone, Debug, PartialEq, Eq, Hash)]
pub struct RouteState {
    pub current_node: String,
    pub destination: String,
    pub quality_bucket: u8,
}

/// Two states that agree in every field, the names by their text.
pub open spec fn same_state(a: RouteState, b: RouteState) -> bool {
    a.current_node@ == b.current_node@ && a.destination@ == b.destination@ && a.quality_bucket == b.quality_bucket
}

/// The index that the first entry for state `s` gives, if there is one.
pub open spec fn state_index(map: Seq<(RouteState, usize)>, s: RouteState) -> Option<usize>
    decreases map.len(),
{
    if map.len() == 0 {
        None
    } else if same_state(map[0].0, s) {
        Some(map[0].1)
    } else {
        state_index(map.drop_first(), s)
    }
}

impl RouteState {
    /// The index of this state in a table of states and their indices.
    pub fn to_index(&self, state_map: &Vec<(RouteState, usize)>) -> (r: Option<usize>)
        ensures
            r == state_index(state_map@, *self),
    {
        let mut i: usize = 0;
        proof {
            assert(state_map@.skip(0) =~= state_map@);
        }
        while i < state_map.len()
            invariant
                0 <= i <= state_map@.len(),
                state_index(state_map@, *self) == state_index(state_map@.skip(i as int), *self),
            decreases state_map.len() - i,
        {
            proof {
                assert(state_map@.skip(i as int).drop_first() =~= state_map@.skip(i + 1));
            }
            let e = &state_map[i];
            if str_eq(e.0.current_node.as_str(), self.current_node.as_str()) && str_eq(
                e.0.destination.as_str(),
                self.destination.as_str(),
            ) && e.0.quality_bucket == self.quality_bucket {
                return Some(e.1);
            }
            i = i + 1;
        }
        None
    }
}

/// The next hop to take.
#[derive(Clone, Debug, PartialEq, Eq)]
pub struct RouteAction {
    pub next_hop: String,
}

impl RouteAction {
    /// The action of going to `next_hop`.
    pub fn new(next_hop: String) -> (a: RouteAction)
        ensures
            a.next_hop == next_hop,
    {
        RouteAction { next_hop }
    }
}

} // verus!
