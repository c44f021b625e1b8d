pub mod pagination;
pub mod spotify;
