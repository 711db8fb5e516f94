pub mod ty;
pub mod expr;
pub mod ctx;
pub mod jit;
pub mod sheet;
