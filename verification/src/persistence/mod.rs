pub mod entities;
