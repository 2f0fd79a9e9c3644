//! Merge joins over sequences whose keys come in strictly increasing order.
//!
//! Each join consumes two ordered sequences in one forward pass and is itself
//! an ordered sequence, so joins compose.

mod join;
mod laws;
mod merge;
mod ordered;
mod peekable;
mod source;

pub use join::{InnerJoinMapIterator, InnerJoinMapSetIterator, InnerJoinSetIterator, OuterJoinIterator};
pub use laws::{
    inner_join_map_law, inner_join_map_set_law, inner_join_set_law, outer_join_law,
    three_way_join_law,
};
pub use merge::{increasing, intersect, join_maps, keys_of, outer_join_maps, restrict};
pub use ordered::{EntryIterator, KeyIterator, OrderedMapIterator, OrderedSetIterator};
pub use peekable::PeekableEntries;
pub use source::{VecMapIterator, VecSetIterator};
