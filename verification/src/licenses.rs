//! The licenses of the packages that the application is built from: the
//! records shown in its about view, and where their files are looked for.

use vstd::prelude::*;

verus! {

/// The license of one JavaScript package.
#[derive(Clone, Debug, PartialEq, Eq)]
pub struct JsLicense {
    pub name: String,
    pub version: String,
    pub license: Option<String>,
    pub repository: Option<String>,
    pub publisher: Option<String>,
    pub path: Option<String>,
    pub license_text: Option<String>,
}

/// The license of one Rust package.
#[derive(Clone, Debug, PartialEq, Eq)]
pub struct CargoLicense {
    pub name: String,
    pub version: String,
    pub license: Option<String>,
    pub authors: Option<Vec<String>>,
    pub repository: Option<String>,
    pub license_text: Option<String>,
}

/// All licenses, by the kind of package.
#[derive(Clone, Debug, PartialEq, Eq)]
pub struct LicensesData {
    pub js_licenses: Vec<JsLicense>,
    pub cargo_licenses: Vec<CargoLicense>,
}

/// A place where the license files may lie.
#[derive(Clone, Copy, Debug, PartialEq, Eq, Structural)]
pub enum LicensesDir {
    /// The resource directory of the bundled application.
    Resources,
    /// The directory `licenses` under the resource directory.
    ResourcesSubdirectory,
    /// The directory `licenses` beside the sources, during development.
    Development,
}

/// Which of the places hold the file of the JavaScript licenses.
#[derive(Clone, Copy, Debug, PartialEq, Eq, Structural)]
pub struct LicensesProbe {
    /// Whether the application has a resource directory.
    pub has_resources: bool,
    /// Whether the file lies in the resource directory.
    pub in_resources: bool,
    /// Whether the file lies in `licenses` under the resource directory.
    pub in_resources_subdirectory: bool,
    /// Whether the file lies in `licenses` beside the sources.
    pub in_development: bool,
}

/// The place that is used: the first that holds the file, the resource
/// directory before its subdirectory before the development directory.
pub open spec fn chosen_dir(probe: LicensesProbe) -> Option<LicensesDir> {
    if probe.has_resources && probe.in_resources {
        Some(LicensesDir::Resources)
    } else if probe.has_resources && probe.in_resources_subdirectory {
        Some(LicensesDir::ResourcesSubdirectory)
    } else if probe.in_development {
        Some(LicensesDir::Development)
    } else {
        None
    }
}

/// Chooses the place from which the licenses are read, or nothing when the
/// file lies in none.
pub fn choose_licenses_dir(probe: LicensesProbe) -> (dir: Option<LicensesDir>)
    ensures
        dir == chosen_dir(probe),
{
    if probe.has_resources && probe.in_resources {
        Some(LicensesDir::Resources)
    } else if probe.has_resources && probe.in_resources_subdirectory {
        Some(LicensesDir::ResourcesSubdirectory)
    } else if probe.in_development {
        Some(LicensesDir::Development)
    } else {
        None
    }
}

/// Puts the licenses together: the JavaScript licenses, followed by those
/// that were added by hand where there are any, and the Rust licenses.
pub fn merge_licenses(
    js_licenses: Vec<JsLicense>,
    manual_licenses: Option<Vec<JsLicense>>,
    cargo_licenses: Vec<CargoLicense>,
) -> (data: LicensesData)
    ensures
        data.js_licenses@ == js_licenses@ + match manual_licenses {
            Some(manual) => manual@,
            None => Seq::empty(),
        },
        data.cargo_licenses@ == cargo_licenses@,
{
    let mut all = js_licenses;
    match manual_licenses {
        Some(manual) => {
            let mut manual = manual;
            all.append(&mut manual);
        },
        None => {
            proof {
                assert(all@ + Seq::<JsLicense>::empty() =~= all@);
            }
        },
    }
    LicensesData { js_licenses: all, cargo_licenses }
}

} // verus!
