//! Range, height and update logic of the Wardogs artillery calculator.

pub mod board;
pub mod ink;
pub mod range;
pub mod terrain;
pub mod text;
pub mod update;
pub mod version;
