pub mod cut;
pub mod progress;
pub mod probe;
pub mod concat;
