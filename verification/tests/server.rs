use portainer_mcp::models::{
    CreateStackParams, EnvVarInput, RedeployGitStackParams, UpdateStackParams,
};
use portainer_mcp::server::{
    create_stack_body, delete_confirmation, redeploy_git_stack_body, update_stack_body,
};

#[test]
fn create_params_become_body() {
    let (eid, body) = create_stack_body(CreateStackParams {
        endpoint_id: 3,
        name: "web".to_string(),
        stack_file_content: "services: {}".to_string(),
        env: Some(vec![EnvVarInput { name: "A".to_string(), value: "1".to_string() }]),
        webhook: None,
    });
    assert_eq!(eid, 3);
    assert_eq!(body.name, "web");
    assert_eq!(body.stack_file_content, "services: {}");
    assert_eq!(body.env.unwrap()[0].value, "1");
    assert!(body.webhook.is_none());
}

#[test]
fn update_params_become_body() {
    let (id, eid, body) = update_stack_body(UpdateStackParams {
        id: 9,
        endpoint_id: 2,
        stack_file_content: Some("x".to_string()),
        env: None,
        prune: Some(true),
        pull_image: Some(false),
        rollback_to: Some(4),
    });
    assert_eq!((id, eid), (9, 2));
    assert_eq!(body.stack_file_content.as_deref(), Some("x"));
    assert_eq!(body.prune, Some(true));
    assert_eq!(body.pull_image, Some(false));
    assert_eq!(body.rollback_to, Some(4));
}

#[test]
fn redeploy_params_become_body() {
    let (id, eid, body) = redeploy_git_stack_body(RedeployGitStackParams {
        id: 5,
        endpoint_id: None,
        env: None,
        prune: None,
        repository_reference_name: Some("refs/heads/main".to_string()),
        pull_image: Some(true),
    });
    assert_eq!((id, eid), (5, None));
    assert_eq!(body.repository_reference_name.as_deref(), Some("refs/heads/main"));
    assert_eq!(body.pull_image, Some(true));
}

#[test]
fn delete_confirmation_text() {
    assert_eq!(delete_confirmation(12), "Stack 12 deleted successfully.");
    assert_eq!(delete_confirmation(-1), "Stack -1 deleted successfully.");
}
