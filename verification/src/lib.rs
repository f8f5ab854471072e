//! A verified limit-order-book engine: per-exchange books with a dual
//! heap + index-map store per side, a cross-exchange multi-book with
//! directed spreads and arbitrage counting, and the pure translation
//! layer that exchange adapters use to drive the books.

pub mod clients;
pub mod containers;
pub mod data_types;
pub mod decimal;
pub mod multi_book;
pub mod order_book;
pub mod relay;
