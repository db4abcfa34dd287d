//! The Latin data consumed by the engine: the nominal axes with their
//! declension tables, and the verbal axes.

pub mod conjugation;
pub mod declension;
