pub mod collector;
pub mod constants;
pub mod docstring;
pub mod engine;
pub mod laws;
pub mod params;
pub mod position;
pub mod render;
pub mod rules;
pub mod suppress;
pub mod syntax;
pub mod text;
