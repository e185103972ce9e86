//! Delete files: grouping them by sequence number and finding those that apply to a
//! data file.
pub mod position;
pub mod equality;
pub mod index;
