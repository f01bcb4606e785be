//! The logic of the MCP tools: how each tool's parameters become the
//! arguments of a client operation, and the texts the tools answer with.

use vstd::prelude::*;

use crate::models::{
    CreateStackBody, CreateStackParams, RedeployGitStackBody, RedeployGitStackParams,
    UpdateStackBody, UpdateStackParams,
};
use crate::text::{int_decimal, owned, push_int_decimal, push_str};

verus! {

/// The `create_stack` tool's parameters as the endpoint to deploy to and
/// the request body.
pub fn create_stack_body(params: CreateStackParams) -> (r: (i64, CreateStackBody))
    ensures
        r.0 == params.endpoint_id,
        r.1 == (CreateStackBody {
            name: params.name,
            stack_file_content: params.stack_file_content,
            env: params.env,
            webhook: params.webhook,
        }),
{
    (
        params.endpoint_id,
        CreateStackBody {
            name: params.name,
            stack_file_content: params.stack_file_content,
            env: params.env,
            webhook: params.webhook,
        },
    )
}

/// The `update_stack` tool's parameters as the stack, its endpoint and the
/// request body.
pub fn update_stack_body(params: UpdateStackParams) -> (r: (i64, i64, UpdateStackBody))
    ensures
        r.0 == params.id,
        r.1 == params.endpoint_id,
        r.2 == (UpdateStackBody {
            stack_file_content: params.stack_file_content,
            env: params.env,
            prune: params.prune,
            pull_image: params.pull_image,
            rollback_to: params.rollback_to,
        }),
{
    (
        params.id,
        params.endpoint_id,
        UpdateStackBody {
            stack_file_content: params.stack_file_content,
            env: params.env,
            prune: params.prune,
            pull_image: params.pull_image,
            rollback_to: params.rollback_to,
        },
    )
}

/// The `redeploy_git_stack` tool's parameters as the stack, its optional
/// endpoint and the request body.
pub fn redeploy_git_stack_body(params: RedeployGitStackParams) -> (r: (i64, Option<i64>, RedeployGitStackBody))
    ensures
        r.0 == params.id,
        r.1 == params.endpoint_id,
        r.2 == (RedeployGitStackBody {
            env: params.env,
            prune: params.prune,
            repository_reference_name: params.repository_reference_name,
            pull_image: params.pull_image,
        }),
{
    (
        params.id,
        params.endpoint_id,
        RedeployGitStackBody {
            env: params.env,
            prune: params.prune,
            repository_reference_name: params.repository_reference_name,
            pull_image: params.pull_image,
        },
    )
}

/// The answer of the `delete_stack` tool once the stack is gone.
pub open spec fn deleted_text(id: i64) -> Seq<char> {
    "Stack "@ + int_decimal(id as int) + " deleted successfully."@
}

/// The confirmation that a stack was deleted.
pub fn delete_confirmation(id: i64) -> (r: String)
    ensures
        r@ == deleted_text(id),
{
    let mut r = owned("Stack ");
    push_int_decimal(&mut r, id);
    push_str(&mut r, " deleted successfully.");
    r
}

} // verus!
