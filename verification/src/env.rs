//! Which region the program talks to, decided from its options, and what
//! to do about a variable of the environment that may need a default.
//! Reading and setting the environment is left to the caller.

use vstd::prelude::*;
use vstd::string::*;
use crate::record::opt_text;

verus! {

/// A region to talk to.
#[derive(Debug, PartialEq, Eq)]
pub enum RegionChoice {
    /// The region called `name`, reached at `endpoint`.
    Custom { name: String, endpoint: String },
    /// The region called by its usual name, at its usual endpoint.
    Named(String),
    /// The region that the environment is set up for.
    Default,
}

/// The region to talk to, and whether the credentials for a local service
/// are to be given defaults.
#[derive(Debug, PartialEq, Eq)]
pub struct Resolution {
    pub region: RegionChoice,
    pub local_credentials: bool,
}

/// What a [`RegionChoice`] holds.
pub enum RegionChoiceView {
    Custom { name: Seq<char>, endpoint: Seq<char> },
    Named(Seq<char>),
    Default,
}

impl View for RegionChoice {
    type V = RegionChoiceView;

    open spec fn view(&self) -> RegionChoiceView {
        match self {
            RegionChoice::Custom { name, endpoint } => RegionChoiceView::Custom {
                name: name@,
                endpoint: endpoint@,
            },
            RegionChoice::Named(name) => RegionChoiceView::Named(name@),
            RegionChoice::Default => RegionChoiceView::Default,
        }
    }
}

/// The name that a region with only an endpoint goes by.
pub open spec fn local_name() -> Seq<char> {
    "local"@
}

/// The region that the options ask for. With a region and an endpoint, the
/// region at that endpoint; with a region alone, the region by its name;
/// with an endpoint alone, a region called `local` at that endpoint; with
/// neither, the default.
pub open spec fn resolved(region: Option<Seq<char>>, endpoint: Option<Seq<char>>)
    -> RegionChoiceView {
    match (region, endpoint) {
        (Some(name), Some(endpoint)) => RegionChoiceView::Custom { name, endpoint },
        (Some(name), None) => RegionChoiceView::Named(name),
        (None, Some(endpoint)) => RegionChoiceView::Custom { name: local_name(), endpoint },
        (None, None) => RegionChoiceView::Default,
    }
}

/// Decides the region from the options. The credentials get defaults
/// exactly where an endpoint is given and no region.
pub fn resolve_region(aws_region: Option<String>, aws_endpoint_url: Option<String>) -> (r:
    Resolution)
    ensures
        r.region@ == resolved(opt_text(aws_region), opt_text(aws_endpoint_url)),
        r.local_credentials == (aws_region is None && aws_endpoint_url is Some),
{
    match (aws_region, aws_endpoint_url) {
        (Some(name), Some(endpoint)) => Resolution {
            region: RegionChoice::Custom { name, endpoint },
            local_credentials: false,
        },
        (Some(name), None) => Resolution {
            region: RegionChoice::Named(name),
            local_credentials: false,
        },
        (None, Some(endpoint)) => Resolution {
            region: RegionChoice::Custom { name: String::from_str("local"), endpoint },
            local_credentials: true,
        },
        (None, None) => Resolution { region: RegionChoice::Default, local_credentials: false },
    }
}

/// What was found under a variable of the environment.
#[derive(Debug, PartialEq, Eq)]
pub enum Lookup {
    /// The variable is set to this value.
    Present(String),
    /// The variable is not set.
    NotPresent,
    /// The variable is set to what is no text.
    NotUnicode,
}

/// What to do about a variable that may need a default.
#[derive(Debug, PartialEq, Eq)]
pub enum VarStep {
    /// The variable is set: its value stands.
    Keep(String),
    /// The variable is to be set to this value, which then stands.
    Assign(String),
    /// The variable cannot be read.
    Fail,
}

/// Decides what to do about a variable, given what was found under it and
/// the default `val`: a value that is there stays, a variable that is not
/// set gets the default, and one that cannot be read is an error.
pub fn default_var_step(found: Lookup, val: &str) -> (r: VarStep)
    ensures
        match found {
            Lookup::Present(value) => r == VarStep::Keep(value),
            Lookup::NotPresent => r matches VarStep::Assign(value) && value@ == val@,
            Lookup::NotUnicode => r == VarStep::Fail,
        },
{
    match found {
        Lookup::Present(value) => VarStep::Keep(value),
        Lookup::NotPresent => VarStep::Assign(String::from_str(val)),
        Lookup::NotUnicode => VarStep::Fail,
    }
}

} // verus!
