pub mod chars;
pub mod diagram;
pub mod example;
pub mod laws;
pub mod model;
pub mod parsing;
pub mod pattern;
pub mod rendering;
pub mod theme;
