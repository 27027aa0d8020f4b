pub mod chars;
pub mod dom;
pub mod laws;
pub mod markdown;
pub mod model;
pub mod parse;
