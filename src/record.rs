//! One installed crate: its name, installed version, where it was installed
//! from, and what the registry reports about it.

use vstd::prelude::*;
use crate::date::{publication_date, published_date};
use crate::version::{is_newer_version, version_increases};

verus! {

/// Where an installed crate came from. The carried text is the repository
/// reported by the registry for `Cratesio` (empty until resolution), the
/// repository URL for `Git` and the directory for `Local`.
pub enum CrateKind {
    Cratesio(String),
    Git(String),
    Local(String),
}

/// The mathematical value of a `CrateKind`.
pub enum KindModel {
    Cratesio(Seq<char>),
    Git(Seq<char>),
    Local(Seq<char>),
}

impl View for CrateKind {
    type V = KindModel;

    open spec fn view(&self) -> KindModel {
        match self {
            CrateKind::Cratesio(s) => KindModel::Cratesio(s@),
            CrateKind::Git(s) => KindModel::Git(s@),
            CrateKind::Local(s) => KindModel::Local(s@),
        }
    }
}

/// The text carried by a provenance, whatever its variant.
pub open spec fn kind_text(k: KindModel) -> Seq<char> {
    match k {
        KindModel::Cratesio(s) => s,
        KindModel::Git(s) => s,
        KindModel::Local(s) => s,
    }
}

/// The label of a provenance: "crates.io", "git" or "local".
pub open spec fn kind_label(k: KindModel) -> Seq<char> {
    match k {
        KindModel::Cratesio(_) => "crates.io"@,
        KindModel::Git(_) => "git"@,
        KindModel::Local(_) => "local"@,
    }
}

impl CrateKind {
    /// The text carried by this provenance.
    pub fn full_string(&self) -> (r: &String)
        ensures
            r@ == kind_text(self@),
    {
        match self {
            CrateKind::Cratesio(p) => p,
            CrateKind::Git(p) => p,
            CrateKind::Local(p) => p,
        }
    }

    /// The label under which this provenance is shown.
    pub fn label(&self) -> (r: &'static str)
        ensures
            r@ == kind_label(self@),
    {
        match self {
            CrateKind::Cratesio(_) => "crates.io",
            CrateKind::Git(_) => "git",
            CrateKind::Local(_) => "local",
        }
    }
}

/// The mathematical value of a `CrateInfo`.
pub struct CrateModel {
    pub name: Seq<char>,
    pub current: Seq<char>,
    pub online: Option<Seq<char>>,
    pub updated_at: Option<Seq<char>>,
    pub kind: KindModel,
}

/// The view of an optional string.
pub open spec fn opt_view(o: Option<String>) -> Option<Seq<char>> {
    match o {
        Some(s) => Some(s@),
        None => None,
    }
}

/// One installed crate. `online` (the newest published version) and
/// `updated_at` (its publication date) stay `None` until the crate is
/// resolved against the registry.
pub struct CrateInfo {
    name: String,
    current: String,
    online: Option<String>,
    updated_at: Option<String>,
    kind: CrateKind,
}

impl View for CrateInfo {
    type V = CrateModel;

    closed spec fn view(&self) -> CrateModel {
        CrateModel {
            name: self.name@,
            current: self.current@,
            online: opt_view(self.online),
            updated_at: opt_view(self.updated_at),
            kind: self.kind@,
        }
    }
}

/// Whether a crate would be reinstalled: it came from the registry, has been
/// resolved, and its newest version is strictly later than the installed one.
pub open spec fn upgradable(c: CrateModel) -> bool {
    &&& c.kind is Cratesio
    &&& c.online is Some
    &&& version_increases(c.current, c.online->0)
}

/// What the registry answered for one crate: the fields of the `crate` object
/// of its JSON body, each `None` where absent or not a string.
pub struct InfoJson {
    pub newest_version: Option<String>,
    pub repository: Option<String>,
    pub updated_at: Option<String>,
}

/// Whether a registry answer names a newest version.
pub open spec fn lookup_succeeded(lookup: Option<InfoJson>) -> bool {
    lookup matches Some(info) && info.newest_version is Some
}

/// The record that resolution makes of `c` given the registry's answer
/// (`None` when the lookup failed). A crate that did not come from the
/// registry gets "-" for its newest version and date. A registry crate whose
/// lookup failed, or whose answer names no newest version, stays as it was.
/// Otherwise it takes the newest version, the repository ("-" when absent) and
/// the publication date ("-" when absent or not ISO 8601).
pub open spec fn resolved_model(c: CrateModel, lookup: Option<InfoJson>) -> CrateModel {
    if !(c.kind is Cratesio) {
        CrateModel { online: Some("-"@), updated_at: Some("-"@), ..c }
    } else if !lookup_succeeded(lookup) {
        c
    } else {
        let info = lookup->0;
        CrateModel {
            online: Some(info.newest_version->0@),
            updated_at: Some(
                match info.updated_at {
                    Some(t) => match published_date(t@) {
                        Some(d) => d,
                        None => "-"@,
                    },
                    None => "-"@,
                },
            ),
            kind: KindModel::Cratesio(
                match info.repository {
                    Some(r) => r@,
                    None => "-"@,
                },
            ),
            ..c
        }
    }
}

fn dash() -> (r: String)
    ensures
        r@ == "-"@,
{
    "-".to_string()
}

impl CrateInfo {
    /// A crate as the listing shows it, not yet resolved.
    pub fn new(name: String, current: String, kind: CrateKind) -> (r: CrateInfo)
        ensures
            r@ == (CrateModel { name: name@, current: current@, online: None, updated_at: None, kind: kind@ }),
    {
        CrateInfo { name, current, online: None, updated_at: None, kind }
    }

    /// Whether this crate came from the registry.
    pub fn is_from_cratesio(&self) -> (r: bool)
        ensures
            r == self@.kind is Cratesio,
    {
        match self.kind {
            CrateKind::Cratesio(_) => true,
            _ => false,
        }
    }

    /// Whether this crate would be reinstalled; never true for a crate that
    /// is not from the registry, is unresolved, or carries a version text that
    /// is not a semantic version.
    pub fn is_upgradable(&self) -> (r: bool)
        ensures
            r == upgradable(self@),
            self@.online == Some(self@.current) ==> !r,
    {
        match &self.online {
            Some(online) => self.is_from_cratesio() && is_newer_version(
                self.current.as_str(),
                online.as_str(),
            ),
            None => false,
        }
    }

    /// This crate resolved against the registry's answer.
    pub fn resolved(self, lookup: Option<InfoJson>) -> (r: CrateInfo)
        ensures
            r@ == resolved_model(self@, lookup),
    {
        if !self.is_from_cratesio() {
            return CrateInfo { online: Some(dash()), updated_at: Some(dash()), ..self };
        }
        match lookup {
            Some(info) => match info.newest_version {
                Some(newest) => {
                    let updated_at = match info.updated_at {
                        Some(t) => match publication_date(t.as_str()) {
                            Some(d) => d,
                            None => dash(),
                        },
                        None => dash(),
                    };
                    let repository = match info.repository {
                        Some(r) => r,
                        None => dash(),
                    };
                    CrateInfo {
                        online: Some(newest),
                        updated_at: Some(updated_at),
                        kind: CrateKind::Cratesio(repository),
                        ..self
                    }
                },
                None => self,
            },
            None => self,
        }
    }

    /// The crate's name.
    pub fn name(&self) -> (r: &String)
        ensures
            r@ == self@.name,
    {
        &self.name
    }

    /// The installed version, without its leading 'v'.
    pub fn current(&self) -> (r: &String)
        ensures
            r@ == self@.current,
    {
        &self.current
    }

    /// The newest published version, once resolved.
    pub fn online(&self) -> (r: &Option<String>)
        ensures
            opt_view(*r) == self@.online,
    {
        &self.online
    }

    /// The date of the newest publication, once resolved.
    pub fn updated_at(&self) -> (r: &Option<String>)
        ensures
            opt_view(*r) == self@.updated_at,
    {
        &self.updated_at
    }

    /// Where the crate was installed from.
    pub fn kind(&self) -> (r: &CrateKind)
        ensures
            r@ == self@.kind,
    {
        &self.kind
    }
}

} // verus!
