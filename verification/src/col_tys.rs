//! The four column types of the store.
//!
//! All columns of one store are indexed by a shared row index; every filter
//! takes and returns row-index bitmaps, and every gather reads rows in
//! ascending bitmap order.

use vstd::prelude::*;

use internment::ArcIntern;

pub mod str_col;
pub mod tag_col;
pub mod ts_col;
pub mod val_col;

verus! {

/// An interned, cheaply cloneable string handle.
pub type Str = ArcIntern<String>;

} // verus!
