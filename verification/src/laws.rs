//! What the library promises, stated of its inputs and results: how texts are
//! taken apart, where each setting comes from, what is made of stored rows, and
//! how the program answers. Every law holds of all inputs that it admits.

pub mod records;
pub mod service;
pub mod settings;
pub mod texts;
pub mod values;
pub mod views;
