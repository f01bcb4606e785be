//! Data exchanged with the Portainer API and with the tools' callers.
//!
//! Response models mirror the JSON objects Portainer returns, parameter
//! structs carry the arguments of each tool, and body structs are what
//! the library asks to be sent as a JSON request body.

use vstd::prelude::*;

use crate::wire::JsonValue;

verus! {

// ── Response models ──────────────────────────────────────────────────────────

/// An environment variable of a stack as Portainer reports it.
#[derive(Debug, Clone)]
pub struct EnvVar {
    pub name: Option<String>,
    pub value: Option<String>,
}

/// The contents of an [`EnvVar`].
pub struct EnvVarView {
    pub name: Option<Seq<char>>,
    pub value: Option<Seq<char>>,
}

impl View for EnvVar {
    type V = EnvVarView;

    open spec fn view(&self) -> EnvVarView {
        EnvVarView { name: self.name.deep_view(), value: self.value.deep_view() }
    }
}

impl Default for EnvVar {
    fn default() -> (r: Self)
        ensures
            r@ == (EnvVarView { name: None, value: None }),
    {
        EnvVar { name: None, value: None }
    }
}

/// Git source of a stack deployed from a repository.
#[derive(Debug, Clone)]
pub struct GitConfig {
    pub url: String,
    pub reference_name: String,
    pub config_file_path: String,
    pub config_hash: String,
}

/// The contents of a [`GitConfig`].
pub struct GitConfigView {
    pub url: Seq<char>,
    pub reference_name: Seq<char>,
    pub config_file_path: Seq<char>,
    pub config_hash: Seq<char>,
}

impl View for GitConfig {
    type V = GitConfigView;

    open spec fn view(&self) -> GitConfigView {
        GitConfigView {
            url: self.url@,
            reference_name: self.reference_name@,
            config_file_path: self.config_file_path@,
            config_hash: self.config_hash@,
        }
    }
}

impl Default for GitConfig {
    fn default() -> (r: Self)
        ensures
            r@ == (GitConfigView {
                url: Seq::empty(),
                reference_name: Seq::empty(),
                config_file_path: Seq::empty(),
                config_hash: Seq::empty(),
            }),
    {
        GitConfig {
            url: String::new(),
            reference_name: String::new(),
            config_file_path: String::new(),
            config_hash: String::new(),
        }
    }
}

/// A Docker Compose stack managed by Portainer.
#[derive(Debug, Clone)]
pub struct Stack {
    pub id: i64,
    pub name: String,
    pub stack_type: i64,
    pub endpoint_id: i64,
    pub status: i64,
    pub created_by: String,
    pub creation_date: i64,
    pub updated_by: String,
    pub update_date: i64,
    pub env: Vec<EnvVar>,
    pub git_config: Option<GitConfig>,
    pub stack_file_version: i64,
    pub webhook: String,
    pub entry_point: String,
    pub project_path: String,
}

/// The contents of a [`Stack`].
pub struct StackView {
    pub id: i64,
    pub name: Seq<char>,
    pub stack_type: i64,
    pub endpoint_id: i64,
    pub status: i64,
    pub created_by: Seq<char>,
    pub creation_date: i64,
    pub updated_by: Seq<char>,
    pub update_date: i64,
    pub env: Seq<EnvVarView>,
    pub git_config: Option<GitConfigView>,
    pub stack_file_version: i64,
    pub webhook: Seq<char>,
    pub entry_point: Seq<char>,
    pub project_path: Seq<char>,
}

/// The contents of a sequence of environment variables.
pub open spec fn env_view(env: Seq<EnvVar>) -> Seq<EnvVarView> {
    env.map_values(|v: EnvVar| v@)
}

/// The contents of a sequence of stacks.
pub open spec fn stacks_view(stacks: Seq<Stack>) -> Seq<StackView> {
    stacks.map_values(|s: Stack| s@)
}

impl View for Stack {
    type V = StackView;

    open spec fn view(&self) -> StackView {
        StackView {
            id: self.id,
            name: self.name@,
            stack_type: self.stack_type,
            endpoint_id: self.endpoint_id,
            status: self.status,
            created_by: self.created_by@,
            creation_date: self.creation_date,
            updated_by: self.updated_by@,
            update_date: self.update_date,
            env: env_view(self.env@),
            git_config: match self.git_config {
                Some(g) => Some(g@),
                None => None,
            },
            stack_file_version: self.stack_file_version,
            webhook: self.webhook@,
            entry_point: self.entry_point@,
            project_path: self.project_path@,
        }
    }
}

impl StackView {
    /// The stack that a missing JSON object stands for: zero numbers, empty
    /// text, no environment and no git source.
    pub open spec fn empty() -> StackView {
        StackView {
            id: 0,
            name: Seq::empty(),
            stack_type: 0,
            endpoint_id: 0,
            status: 0,
            created_by: Seq::empty(),
            creation_date: 0,
            updated_by: Seq::empty(),
            update_date: 0,
            env: Seq::empty(),
            git_config: None,
            stack_file_version: 0,
            webhook: Seq::empty(),
            entry_point: Seq::empty(),
            project_path: Seq::empty(),
        }
    }
}

impl Default for Stack {
    fn default() -> (r: Self)
        ensures
            r@ == StackView::empty(),
    {
        let r = Stack {
            id: 0,
            name: String::new(),
            stack_type: 0,
            endpoint_id: 0,
            status: 0,
            created_by: String::new(),
            creation_date: 0,
            updated_by: String::new(),
            update_date: 0,
            env: Vec::new(),
            git_config: None,
            stack_file_version: 0,
            webhook: String::new(),
            entry_point: String::new(),
            project_path: String::new(),
        };
        assert(env_view(r.env@) =~= Seq::<EnvVarView>::empty());
        r
    }
}

/// A Portainer environment (endpoint) that stacks are deployed to.
#[derive(Debug, Clone)]
pub struct Endpoint {
    pub id: i64,
    pub name: String,
    pub endpoint_type: i64,
    pub url: String,
    pub status: i64,
    pub group_id: i64,
}

impl Default for Endpoint {
    fn default() -> (r: Self)
        ensures
            r.id == 0 && r.name@ == Seq::<char>::empty() && r.endpoint_type == 0 && r.url@
                == Seq::<char>::empty() && r.status == 0 && r.group_id == 0,
    {
        Endpoint {
            id: 0,
            name: String::new(),
            endpoint_type: 0,
            url: String::new(),
            status: 0,
            group_id: 0,
        }
    }
}

/// The compose file of a stack.
#[derive(Debug, Clone)]
pub struct StackFileResponse {
    pub stack_file_content: String,
}

impl Default for StackFileResponse {
    fn default() -> (r: Self)
        ensures
            r.stack_file_content@ == Seq::<char>::empty(),
    {
        StackFileResponse { stack_file_content: String::new() }
    }
}

// ── Tool parameters ─────────────────────────────────────────────────────────

/// Parameters for listing stacks.
#[derive(Debug)]
pub struct ListStacksParams {
    /// Optional JSON filter string, e.g. {"SwarmID":"abc","EndpointID":1}.
    pub filters: Option<String>,
}

/// Parameters for getting a single stack.
#[derive(Debug)]
pub struct GetStackParams {
    /// Stack identifier.
    pub id: i64,
}

/// Parameters for retrieving a stack's compose file content.
#[derive(Debug)]
pub struct GetStackFileParams {
    /// Stack identifier.
    pub id: i64,
    /// Stack file version maintained by Portainer.
    pub version: Option<i64>,
    /// Git repository commit hash. If provided alongside version, this takes precedence.
    pub commit_hash: Option<String>,
}

/// Parameters for creating a new standalone compose stack from a string.
#[derive(Debug)]
pub struct CreateStackParams {
    /// Environment/endpoint identifier where the stack will be deployed.
    pub endpoint_id: i64,
    /// Name of the stack.
    pub name: String,
    /// Content of the docker-compose Stack file.
    pub stack_file_content: String,
    /// Optional environment variables as a list of {name, value} objects.
    pub env: Option<Vec<EnvVarInput>>,
    /// Optional webhook UUID for triggering redeployment.
    pub webhook: Option<String>,
}

/// Parameters for updating an existing stack.
#[derive(Debug)]
pub struct UpdateStackParams {
    /// Stack identifier.
    pub id: i64,
    /// Environment/endpoint identifier.
    pub endpoint_id: i64,
    /// New content of the Stack file.
    pub stack_file_content: Option<String>,
    /// Environment variables.
    pub env: Option<Vec<EnvVarInput>>,
    /// Prune services no longer referenced.
    pub prune: Option<bool>,
    /// Force repull images and redeploy.
    pub pull_image: Option<bool>,
    /// Stack file version to rollback to.
    pub rollback_to: Option<i64>,
}

/// Parameters for deleting a stack.
#[derive(Debug)]
pub struct DeleteStackParams {
    /// Stack identifier.
    pub id: i64,
    /// Environment/endpoint identifier.
    pub endpoint_id: i64,
    /// Whether to remove associated volumes.
    pub remove_volumes: Option<bool>,
}

/// Parameters for starting a stopped stack.
#[derive(Debug)]
pub struct StartStackParams {
    /// Stack identifier.
    pub id: i64,
    /// Environment/endpoint identifier.
    pub endpoint_id: i64,
}

/// Parameters for stopping a running stack.
#[derive(Debug)]
pub struct StopStackParams {
    /// Stack identifier.
    pub id: i64,
    /// Environment/endpoint identifier.
    pub endpoint_id: i64,
}

/// Parameters for redeploying a git-based stack.
#[derive(Debug)]
pub struct RedeployGitStackParams {
    /// Stack identifier.
    pub id: i64,
    /// Environment/endpoint identifier (required for legacy stacks).
    pub endpoint_id: Option<i64>,
    /// Environment variables.
    pub env: Option<Vec<EnvVarInput>>,
    /// Prune services no longer referenced.
    pub prune: Option<bool>,
    /// Git reference name (branch/tag) to deploy.
    pub repository_reference_name: Option<String>,
    /// Force repull images and redeploy.
    pub pull_image: Option<bool>,
}

/// Parameters for listing environments/endpoints.
#[derive(Debug)]
pub struct ListEndpointsParams {
    /// Start searching from this index.
    pub start: Option<i64>,
    /// Limit results to this number.
    pub limit: Option<i64>,
    /// Sort by field: Name, Group, Status.
    pub sort: Option<String>,
    /// Sort order: 1 for asc, 2 for desc.
    pub order: Option<i64>,
}

/// A JSON request body handed to the generic request tool.
///
/// A body that is itself a JSON string is kept apart, since callers often
/// pass a whole JSON document encoded as a string.
#[derive(Debug)]
pub enum JsonBody {
    /// The body was a JSON string with this text.
    Str(String),
    /// Any other JSON value.
    Other(JsonValue),
}

/// Parameters for making a generic Portainer API request.
#[derive(Debug)]
pub struct GenericRequestParams {
    /// HTTP method (GET, POST, PUT, DELETE, PATCH).
    pub method: String,
    /// API path after /api/, e.g. "status" or "endpoints/1/docker/containers/json".
    pub path: String,
    /// Optional JSON request body.
    pub body: Option<JsonBody>,
    /// Optional query string parameters, as name/value pairs.
    pub query_params: Option<Vec<(String, String)>>,
}

/// Parameters for troubleshooting a stack.
#[derive(Debug)]
pub struct TroubleshootStackParams {
    /// Stack identifier.
    pub stack_id: i64,
}

/// Parameters for the deploy guide prompt.
#[derive(Debug)]
pub struct DeployGuideParams {
    /// Environment/endpoint identifier to deploy to.
    pub endpoint_id: i64,
}

/// An environment variable with name and value.
#[derive(Debug, Clone)]
pub struct EnvVarInput {
    /// Variable name.
    pub name: String,
    /// Variable value.
    pub value: String,
}

// ── Request bodies ──────────────────────────────────────────────────────────

/// Body of the request that creates a standalone stack.
#[derive(Debug)]
pub struct CreateStackBody {
    pub name: String,
    pub stack_file_content: String,
    pub env: Option<Vec<EnvVarInput>>,
    pub webhook: Option<String>,
}

/// Body of the request that updates a stack.
#[derive(Debug)]
pub struct UpdateStackBody {
    pub stack_file_content: Option<String>,
    pub env: Option<Vec<EnvVarInput>>,
    pub prune: Option<bool>,
    pub pull_image: Option<bool>,
    pub rollback_to: Option<i64>,
}

/// Body of the request that redeploys a git-based stack.
#[derive(Debug)]
pub struct RedeployGitStackBody {
    pub env: Option<Vec<EnvVarInput>>,
    pub prune: Option<bool>,
    pub repository_reference_name: Option<String>,
    pub pull_image: Option<bool>,
}

} // verus!
