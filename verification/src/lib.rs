pub mod digits;
pub mod mesh;
pub mod parse;
pub mod pipeline;
