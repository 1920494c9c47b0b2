use vstd::prelude::*;

verus! {

/// A virtual machine image as a row of the image table.
///
/// An image is a file that holds the disk of a virtual machine. A `Base`
/// image stands alone; a `Snapshot` image is made from a base image, which is
/// then its parent. `created_at` counts microseconds since the Unix epoch.
#[derive(Clone, Debug, PartialEq, Eq)]
pub struct VmImageDbModel {
    /// The name of the virtual machine image
    pub name: String,
    /// The created at date
    pub created_at: i64,
    /// The kind of the virtual machine image (Base, Snapshot)
    pub kind: String,
    /// The path of the virtual machine image
    pub path: String,
    /// The format of the virtual machine image
    pub format: String,
    /// The actual size of the virtual machine image
    pub size_actual: i64,
    /// The virtual size of the virtual machine image
    pub size_virtual: i64,
    /// The parent of the virtual machine image
    pub parent: Option<String>,
}

/// The sizes to write over those of an image row.
#[derive(Clone, Copy, Debug, PartialEq, Eq)]
pub struct VmImageUpdateDbModel {
    /// The actual size of the virtual machine image
    pub size_actual: i64,
    /// The virtual size of the virtual machine image
    pub size_virtual: i64,
}

/// What `qemu-img info` reports of an image file.
#[derive(Clone, Debug, PartialEq, Eq)]
pub struct QemuImgInfo {
    /// The format of the virtual machine image
    pub format: String,
    /// The virtual size of the virtual machine image
    pub virtual_size: i64,
    /// The actual size of the virtual machine image
    pub actual_size: i64,
}

/// A virtual machine image as callers see it: the row without its parent.
#[derive(Clone, Debug, PartialEq, Eq)]
pub struct VmImage {
    pub name: String,
    pub created_at: i64,
    pub path: String,
    pub kind: String,
    pub format: String,
    pub size_actual: i64,
    pub size_virtual: i64,
}

impl From<VmImageDbModel> for VmImage {
    fn from(db_model: VmImageDbModel) -> (image: VmImage) {
        VmImage {
            name: db_model.name,
            created_at: db_model.created_at,
            path: db_model.path,
            kind: db_model.kind,
            format: db_model.format,
            size_actual: db_model.size_actual,
            size_virtual: db_model.size_virtual,
        }
    }
}

impl vstd::std_specs::convert::FromSpecImpl<VmImageDbModel> for VmImage {
    open spec fn obeys_from_spec() -> bool {
        true
    }

    open spec fn from_spec(db_model: VmImageDbModel) -> VmImage {
        VmImage {
            name: db_model.name,
            created_at: db_model.created_at,
            path: db_model.path,
            kind: db_model.kind,
            format: db_model.format,
            size_actual: db_model.size_actual,
            size_virtual: db_model.size_virtual,
        }
    }
}

impl QemuImgInfo {
    /// The sizes that the report gives, as an update of the image's row.
    pub fn sizes(&self) -> (update: VmImageUpdateDbModel)
        ensures
            update.size_actual == self.actual_size,
            update.size_virtual == self.virtual_size,
    {
        VmImageUpdateDbModel { size_actual: self.actual_size, size_virtual: self.virtual_size }
    }
}

} // verus!
