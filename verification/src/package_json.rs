//! The project manifest contract: a manifest may name a package manager
//! either as a `name@exact-version` string or as an explicit name/version
//! pair; whichever form is present, the version must be exact.

use vstd::prelude::*;

use crate::errors::Error;
use crate::range::ComparatorView;
use crate::specifier::{
    spec_parse_name, spec_parse_selector, spec_parse_spec, SelectorView, Spec, SpecVersion,
    SpecView,
};

verus! {

/// The fields of a project manifest this library reads.
#[derive(Clone, Debug, PartialEq, Eq)]
pub struct PackageJson {
    pub package_manager: Option<String>,
    pub dev_engines: Option<DevEngines>,
}

#[derive(Clone, Debug, PartialEq, Eq)]
pub struct DevEngines {
    pub package_manager: Option<DevEnginesPackageManager>,
}

#[derive(Clone, Debug, PartialEq, Eq)]
pub struct DevEnginesPackageManager {
    pub name: String,
    pub version: Option<String>,
}

/// A manifest reduced to its executable entry points.
#[derive(Clone, Debug, PartialEq, Eq)]
pub struct PackageJsonBinOnly {
    pub bin: Vec<(String, String)>,
}

/// The explicit name/version pair, when the manifest carries one.
pub open spec fn dev_pm(p: PackageJson) -> Option<(Seq<char>, Option<Seq<char>>)> {
    match p.dev_engines {
        Some(d) => match d.package_manager {
            Some(pm) => Some(
                (
                    pm.name@,
                    match pm.version {
                        Some(v) => Some(v@),
                        None => None,
                    },
                ),
            ),
            None => None,
        },
        None => None,
    }
}

/// What the manifest's fields denote: the explicit pair wins over the
/// single-string form; an absent version means any version; a non-exact
/// version from either source is a configuration error.
pub open spec fn spec_manifest_spec(p: PackageJson) -> Result<Option<SpecView>, ()> {
    match dev_pm(p) {
        Some((nm, ver)) => match spec_parse_name(nm) {
            None => Err(()),
            Some(n) => {
                let sel = match ver {
                    Some(s) => spec_parse_selector(s),
                    None => SelectorView::Req(Seq::<ComparatorView>::empty()),
                };
                if sel is Exact {
                    Ok(Some(SpecView { name: n, version: sel }))
                } else {
                    Err(())
                }
            },
        },
        None => match p.package_manager {
            Some(s) => match spec_parse_spec(s@) {
                None => Err(()),
                Some(sp) => if sp.version is Exact {
                    Ok(Some(sp))
                } else {
                    Err(())
                },
            },
            None => Ok(None),
        },
    }
}

impl PackageJson {
    /// The specifier this manifest configures, exactly as
    /// [`spec_manifest_spec`]; `None` when it configures nothing.
    pub fn spec(&self) -> (r: Result<Option<Spec>, Error>)
        ensures
            r is Ok <==> spec_manifest_spec(*self) is Ok,
            r matches Ok(o) ==> match (o, spec_manifest_spec(*self)) {
                (Some(sp), Ok(Some(sv))) => sp@ == sv,
                (None, Ok(None)) => true,
                _ => false,
            },
            r matches Err(e) ==> e is InvalidSpecifier,
    {
        if let Some(d) = &self.dev_engines {
            if let Some(pm) = &d.package_manager {
                let name = match crate::specifier::SpecName::parse(pm.name.as_str()) {
                    Some(n) => n,
                    None => {
                        return Err(Error::InvalidSpecifier { input: pm.name.clone() });
                    },
                };
                let version = match &pm.version {
                    Some(s) => SpecVersion::parse(s.as_str()),
                    None => SpecVersion::default_any(),
                };
                if !version.is_exact() {
                    return Err(
                        Error::InvalidSpecifier {
                            input: match &pm.version {
                                Some(s) => s.clone(),
                                None => String::new(),
                            },
                        },
                    );
                }
                return Ok(Some(Spec { name, version }));
            }
        }
        if let Some(s) = &self.package_manager {
            let sp = match Spec::parse(s.as_str()) {
                Ok(sp) => sp,
                Err(e) => { return Err(e) },
            };
            if !sp.version.is_exact() {
                return Err(Error::InvalidSpecifier { input: s.clone() });
            }
            return Ok(Some(sp));
        }
        Ok(None)
    }
}

} // verus!
