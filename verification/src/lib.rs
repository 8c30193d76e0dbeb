//! Helper functions for a text-templating engine: the value model and its
//! truthiness, the argument binder, the helper registry, and the logic, math,
//! string and date helpers built on them.

pub mod binder;
pub mod customhelper;
pub mod date;
pub mod fault;
pub mod math;
pub mod ops;
pub mod registry;
pub mod signature;
pub mod sprig;
pub mod text;
pub mod value;
