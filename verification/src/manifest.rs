//! Manifests: the list of applications a project wants, and how to get them.
use vstd::prelude::*;

verus! {

/// A project's manifest.
#[derive(Debug)]
pub struct OmniManifest {
    pub project: String,
    pub description: Option<String>,
    pub apps: Vec<OmniApp>,
    pub meta: Option<MetaInfo>,
}

/// An application wanted by a manifest, and the box to get it from.
#[derive(Debug)]
pub struct OmniApp {
    pub name: String,
    pub box_type: String,
    pub version: Option<String>,
    pub source: Option<String>,
}

/// Facts about a manifest.
#[derive(Debug)]
pub struct MetaInfo {
    pub created_by: Option<String>,
    pub created_on: Option<String>,
    pub distro_fallback: Option<bool>,
}

impl OmniManifest {
    /// Whether an application whose box cannot be used falls back to the
    /// system's native package manager; off unless the manifest says so.
    pub open spec fn fallback_spec(&self) -> bool {
        match self.meta {
            Some(m) => m.distro_fallback == Some(true),
            None => false,
        }
    }

    /// Whether the native package manager is the fallback.
    pub fn distro_fallback(&self) -> (r: bool)
        ensures
            r == self.fallback_spec(),
    {
        match &self.meta {
            Some(m) => match m.distro_fallback {
                Some(b) => b,
                None => false,
            },
            None => false,
        }
    }
}

} // verus!
