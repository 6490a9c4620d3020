pub mod document;
pub mod interaction;
pub mod participant;
