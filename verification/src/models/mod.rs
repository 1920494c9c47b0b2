pub mod context;
pub mod namespace;
pub mod resource;
pub mod vm_image;
