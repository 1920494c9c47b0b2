pub mod namespace;
