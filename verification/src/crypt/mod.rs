pub mod asymmetric;
pub mod primitives;
pub mod symmetric;
pub mod utils;
