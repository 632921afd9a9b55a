//! The synchronized iterators: five variants that pair a cursor over the
//! occupancy index with a traversal of the backing store, so that only slots
//! the index certifies as occupied are ever read.

pub mod into_iter;
pub mod into_values;
pub mod iter_mut;
pub mod iter_ref;
pub mod values_mut;

pub use into_iter::IntoIter;
pub use into_values::IntoValues;
pub use iter_mut::IterMut;
pub use iter_ref::Iter;
pub use values_mut::ValuesMut;
