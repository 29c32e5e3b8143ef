//! A lazy sequence-transformation primitive: `FlatMap` wraps a pull-based
//! outer sequence and a mapping from outer items to inner sequences, and
//! yields every item of every inner sequence, in order, pulling and mapping
//! only as much as each request needs.

mod adapter;
mod lazy;
mod sources;

pub use adapter::flat_map;
pub use adapter::lemma_empty_outer_exhausts;
pub use adapter::FlatMap;
pub use lazy::flatten_all;
pub use lazy::lemma_empty_expansion_transparent;
pub use lazy::lemma_exhaustion_terminal;
pub use lazy::lemma_flatten_all_concat;
pub use lazy::lemma_flatten_all_is_map_then_flatten;
pub use lazy::lemma_flatten_all_singleton;
pub use lazy::lemma_flatten_all_skips_empty_expansions;
pub use lazy::pull_step;
pub use lazy::Mapper;
pub use lazy::PullIterator;
pub use sources::CharsMapper;
pub use sources::NestedCharsMapper;
pub use sources::StringChars;
pub use sources::VecIter;
