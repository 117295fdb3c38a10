//! Resource identity and payload.
//!
//! Prompts and partials are addressed by (name, variant): two refs name
//! the same logical resource exactly when their names and variants
//! agree, an absent variant being the distinguished default. The
//! version is not part of the identity: it is the content fingerprint
//! of the source, used for optimistic staleness checks.

use vstd::prelude::*;

use crate::part::opt_str_view;

verus! {

/// The model of a resource reference.
pub struct RefV {
    pub name: Seq<char>,
    pub variant: Option<Seq<char>>,
    pub version: Option<Seq<char>>,
}

/// The model of a resource payload.
pub struct ResourceDataV {
    pub resource_ref: RefV,
    pub source: Seq<char>,
}

/// A reference to a prompt: its name, an optional variant, and an
/// optional version fingerprint.
#[derive(Debug, Clone, PartialEq)]
pub struct PromptRef {
    pub name: String,
    pub variant: Option<String>,
    pub version: Option<String>,
}

/// A reference to a partial, addressed exactly like a prompt.
#[derive(Debug, Clone, PartialEq)]
pub struct PartialRef {
    pub name: String,
    pub variant: Option<String>,
    pub version: Option<String>,
}

/// A prompt payload: its reference and the raw template source,
/// frontmatter included.
#[derive(Debug, Clone, PartialEq)]
pub struct PromptData {
    pub prompt_ref: PromptRef,
    pub source: String,
}

/// A partial payload: its reference and the raw fragment source.
#[derive(Debug, Clone, PartialEq)]
pub struct PartialData {
    pub partial_ref: PartialRef,
    pub source: String,
}

impl View for PromptRef {
    type V = RefV;

    open spec fn view(&self) -> RefV {
        RefV {
            name: self.name@,
            variant: opt_str_view(self.variant),
            version: opt_str_view(self.version),
        }
    }
}

impl View for PartialRef {
    type V = RefV;

    open spec fn view(&self) -> RefV {
        RefV {
            name: self.name@,
            variant: opt_str_view(self.variant),
            version: opt_str_view(self.version),
        }
    }
}

impl View for PromptData {
    type V = ResourceDataV;

    open spec fn view(&self) -> ResourceDataV {
        ResourceDataV { resource_ref: self.prompt_ref@, source: self.source@ }
    }
}

impl View for PartialData {
    type V = ResourceDataV;

    open spec fn view(&self) -> ResourceDataV {
        ResourceDataV { resource_ref: self.partial_ref@, source: self.source@ }
    }
}

impl PromptRef {
    /// A reference to the default variant of the named prompt, with no
    /// version pinned.
    pub fn new(name: &str) -> (r: Self)
        ensures
            r@ == (RefV { name: name@, variant: None, version: None }),
    {
        PromptRef { name: name.to_owned(), variant: None, version: None }
    }

    /// The same reference, narrowed to the given variant.
    pub fn with_variant(self, variant: &str) -> (r: Self)
        ensures
            r@ == (RefV { variant: Some(variant@), ..self@ }),
    {
        PromptRef { variant: Some(variant.to_owned()), ..self }
    }

    /// The same reference, pinned to the given version fingerprint.
    pub fn with_version(self, version: &str) -> (r: Self)
        ensures
            r@ == (RefV { version: Some(version@), ..self@ }),
    {
        PromptRef { version: Some(version.to_owned()), ..self }
    }
}

impl PartialRef {
    /// A reference to the default variant of the named partial, with no
    /// version pinned.
    pub fn new(name: &str) -> (r: Self)
        ensures
            r@ == (RefV { name: name@, variant: None, version: None }),
    {
        PartialRef { name: name.to_owned(), variant: None, version: None }
    }

    /// The same reference, narrowed to the given variant.
    pub fn with_variant(self, variant: &str) -> (r: Self)
        ensures
            r@ == (RefV { variant: Some(variant@), ..self@ }),
    {
        PartialRef { variant: Some(variant.to_owned()), ..self }
    }

    /// The same reference, pinned to the given version fingerprint.
    pub fn with_version(self, version: &str) -> (r: Self)
        ensures
            r@ == (RefV { version: Some(version@), ..self@ }),
    {
        PartialRef { version: Some(version.to_owned()), ..self }
    }
}

} // verus!
