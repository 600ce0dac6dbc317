//! Data, state and decision logic of a small desktop GUI toolkit: observable
//! values, element style properties, the editing and event logic of the stock
//! elements, and the bookkeeping of a window's event loop. Drawing and the
//! windowing system live outside this library.
pub mod data;
pub mod elements;
pub mod gui;
mod text;
