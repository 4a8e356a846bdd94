//! Where the application keeps its data during development.

use vstd::prelude::*;

verus! {

/// The directory under the project root that is used when none is set.
pub const DEV_DATA_DIR: &'static str = ".dev-data";

/// The environment variable that sets the directory.
pub const DATA_DIR_ENV: &'static str = "ZMK_BATTERY_CENTER_DATA_DIR";

/// A data directory: a path, and whether it is to be taken from the project
/// root.
#[derive(Clone, Debug, PartialEq, Eq)]
pub struct DataDir {
    /// Whether `path` is to be joined to the project root.
    pub under_project_root: bool,
    pub path: String,
}

/// The mathematical content of a [`DataDir`].
pub struct DataDirModel {
    pub under_project_root: bool,
    pub path: Seq<char>,
}

impl View for DataDir {
    type V = DataDirModel;

    open spec fn view(&self) -> DataDirModel {
        DataDirModel { under_project_root: self.under_project_root, path: self.path@ }
    }
}

/// The directory that is used, where `configured` is the value of the
/// environment variable, if it is set, and `absolute` says whether that
/// value is an absolute path.
pub open spec fn data_dir_of(configured: Option<String>, absolute: bool) -> DataDirModel {
    match configured {
        Some(path) => DataDirModel { under_project_root: !absolute, path: path@ },
        None => DataDirModel { under_project_root: true, path: DEV_DATA_DIR@ },
    }
}

/// Chooses the data directory for development: the configured one, taken
/// from the project root unless it is absolute, or the default one under
/// the project root.
pub fn dev_data_dir(configured: Option<String>, absolute: bool) -> (dir: DataDir)
    ensures
        dir@ == data_dir_of(configured, absolute),
{
    match configured {
        Some(path) => DataDir { under_project_root: !absolute, path },
        None => DataDir { under_project_root: true, path: DEV_DATA_DIR.to_string() },
    }
}

} // verus!
