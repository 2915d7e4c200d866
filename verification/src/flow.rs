//! Flows and reusable components: the bundles of pipelines a rule runs.

use vstd::prelude::*;
use vstd::string::StringExecFns;
use crate::jsonval::JsonValue;
use crate::pipeline::Pipeline;
use crate::types::FilterGroup;

verus! {

/// The behaviour every flow offers.
pub trait FlowTrait {
    /// What the flow is for, in prose.
    fn description(&self) -> Option<&String>;

    /// The flow's pipeline.
    fn pipeline(&self) -> &Pipeline;

    /// The flow's pipeline, for editing.
    fn pipeline_mut(&mut self) -> &mut Pipeline;

    /// The flow kind's name.
    fn flow_type(&self) -> &'static str;
}

/// A reusable sub-pipeline with named inputs and defaults, callable from
/// any other pipeline.
#[derive(Debug, PartialEq)]
pub struct Component {
    /// What the component does, in prose.
    pub description: Option<String>,
    /// Declared inputs with their default values.
    pub inputs: Option<Vec<(String, JsonValue)>>,
    /// The component's pipeline.
    pub pipeline: Pipeline,
}

/// How a login flow authenticates.
#[derive(Debug, Clone, Copy, PartialEq, Eq, Structural)]
pub enum LoginType {
    /// A name and a password.
    Password,
    /// Pasted cookies.
    Cookie,
    /// A bearer token.
    Token,
    /// An OAuth dance.
    OAuth,
    /// A captcha gate.
    Captcha,
}

impl Default for LoginType {
    /// Password login is assumed when nothing is declared.
    fn default() -> (r: Self)
        ensures
            r == LoginType::Password,
    {
        LoginType::Password
    }
}

/// What a credential field holds.
#[derive(Debug, Clone, Copy, PartialEq, Eq, Structural)]
pub enum CredentialFieldType {
    /// Plain text.
    Text,
    /// A hidden password.
    Password,
    /// A mail address.
    Email,
    /// Several lines, such as pasted cookies.
    Textarea,
}

impl Default for CredentialFieldType {
    /// Plain text is assumed when nothing is declared.
    fn default() -> (r: Self)
        ensures
            r == CredentialFieldType::Text,
    {
        CredentialFieldType::Text
    }
}

/// One credential a login flow asks the user for.
#[derive(Debug, Clone, PartialEq)]
pub struct CredentialField {
    /// The field's key in the login pipeline.
    pub key: String,
    /// The field's display name.
    pub label: String,
    /// What the field holds.
    pub field_type: CredentialFieldType,
    /// Whether the user must fill it.
    pub required: bool,
    /// A hint shown in the empty field.
    pub placeholder: Option<String>,
}

/// The login flow: how a rule authenticates against its site.
#[derive(Debug, PartialEq)]
pub struct LoginFlow {
    /// What the flow is for, in prose.
    pub description: Option<String>,
    /// How the flow authenticates.
    pub login_type: LoginType,
    /// The credentials asked of the user.
    pub credentials: Option<Vec<CredentialField>>,
    /// A pipeline that reports whether a session is already signed in.
    pub check_login: Option<Pipeline>,
    /// The login pipeline.
    pub pipeline: Pipeline,
}

impl FlowTrait for LoginFlow {
    /// What the flow is for, in prose.
    fn description(&self) -> Option<&String> {
        self.description.as_ref()
    }

    /// The flow's pipeline.
    fn pipeline(&self) -> &Pipeline {
        &self.pipeline
    }

    /// The flow's pipeline, for editing.
    fn pipeline_mut(&mut self) -> &mut Pipeline {
        &mut self.pipeline
    }

    /// The flow kind's name.
    fn flow_type(&self) -> &'static str {
        "login"
    }
}

/// How listings page.
#[derive(Debug, Clone, Copy, PartialEq, Eq, Structural)]
pub enum PaginationType {
    /// Numbered pages.
    PageNumber,
    /// An offset parameter.
    Offset,
    /// An opaque cursor.
    Cursor,
    /// A growing page.
    LoadMore,
}

impl Default for PaginationType {
    /// Numbered pages are assumed when nothing is declared.
    fn default() -> (r: Self)
        ensures
            r == PaginationType::PageNumber,
    {
        PaginationType::PageNumber
    }
}

/// How a flow walks pages.
#[derive(Debug, Clone, PartialEq)]
pub struct PaginationConfig {
    /// How the site pages.
    pub pagination_type: PaginationType,
    /// The first page's number.
    pub start_page: u32,
    /// How many items one page holds, where it matters.
    pub page_size: Option<u32>,
    /// How many pages to walk at most.
    pub max_pages: Option<u32>,
    /// The page parameter's name in the URL template.
    pub page_param: String,
}

/// The first page's number when nothing is declared.
pub fn default_start_page() -> (r: u32)
    ensures
        r == 1,
{
    1
}

/// The page parameter's name when nothing is declared.
pub fn default_page_param() -> (r: String)
    ensures
        r@ == "page"@,
{
    String::from_str("page")
}

/// The list flow: discovery and browsing.
#[derive(Debug, PartialEq)]
pub struct ListFlow {
    /// What the flow is for, in prose.
    pub description: Option<String>,
    /// How the listing pages.
    pub pagination: Option<PaginationConfig>,
    /// The filters the listing offers.
    pub filters: Option<Vec<FilterGroup>>,
    /// The listing pipeline.
    pub pipeline: Pipeline,
}

impl FlowTrait for ListFlow {
    /// What the flow is for, in prose.
    fn description(&self) -> Option<&String> {
        self.description.as_ref()
    }

    /// The flow's pipeline.
    fn pipeline(&self) -> &Pipeline {
        &self.pipeline
    }

    /// The flow's pipeline, for editing.
    fn pipeline_mut(&mut self) -> &mut Pipeline {
        &mut self.pipeline
    }

    /// The flow kind's name.
    fn flow_type(&self) -> &'static str {
        "list"
    }
}

/// The detail flow: one item's full record.
#[derive(Debug, PartialEq)]
pub struct DetailFlow {
    /// What the flow is for, in prose.
    pub description: Option<String>,
    /// The detail pipeline.
    pub pipeline: Pipeline,
}

impl FlowTrait for DetailFlow {
    /// What the flow is for, in prose.
    fn description(&self) -> Option<&String> {
        self.description.as_ref()
    }

    /// The flow's pipeline.
    fn pipeline(&self) -> &Pipeline {
        &self.pipeline
    }

    /// The flow's pipeline, for editing.
    fn pipeline_mut(&mut self) -> &mut Pipeline {
        &mut self.pipeline
    }

    /// The flow kind's name.
    fn flow_type(&self) -> &'static str {
        "detail"
    }
}

/// The search flow.
#[derive(Debug, PartialEq)]
pub struct SearchFlow {
    /// What the flow is for, in prose.
    pub description: Option<String>,
    /// How results page.
    pub pagination: Option<PaginationConfig>,
    /// The filters the search offers.
    pub filters: Option<Vec<FilterGroup>>,
    /// The search pipeline.
    pub pipeline: Pipeline,
}

impl FlowTrait for SearchFlow {
    /// What the flow is for, in prose.
    fn description(&self) -> Option<&String> {
        self.description.as_ref()
    }

    /// The flow's pipeline.
    fn pipeline(&self) -> &Pipeline {
        &self.pipeline
    }

    /// The flow's pipeline, for editing.
    fn pipeline_mut(&mut self) -> &mut Pipeline {
        &mut self.pipeline
    }

    /// The flow kind's name.
    fn flow_type(&self) -> &'static str {
        "search"
    }
}

} // verus!
