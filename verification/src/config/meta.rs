//! Rule metadata: the identity a host shows for a site's rule.

use vstd::prelude::*;
use crate::types::MediaType;

verus! {

/// The identity of a rule: what the host shows and keys on.
#[derive(Debug, Clone, PartialEq)]
pub struct Meta {
    /// The rule's display name.
    pub name: String,
    /// Who wrote the rule.
    pub author: String,
    /// The rule's own version.
    pub version: String,
    /// The rule-format version the rule was written for.
    pub spec_version: String,
    /// The site's domain.
    pub domain: String,
    /// The kind of media the rule extracts.
    pub media_type: MediaType,
    /// What the rule is for, in prose.
    pub description: Option<String>,
    /// The site's text encoding, when not UTF-8.
    pub encoding: Option<String>,
    /// An icon for the host to show.
    pub icon_url: Option<String>,
}

} // verus!
