pub mod render_context;
pub mod text;
