pub mod diagnostic;
pub mod order;
pub mod render;
pub mod reporter;
pub mod text;
pub mod session;
pub mod rules;
pub mod engine;
pub mod pipeline;
pub mod laws;
