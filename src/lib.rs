//! Price-bounded trade routing: order-book decoding, per-venue trade
//! simulation, route folding and the bounded maximum-input search.

pub mod errors;
pub mod math;
pub mod order_book;
pub mod slab;
pub mod token;
pub mod fees;
pub mod dex;
pub mod route;
