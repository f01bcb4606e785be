use portainer_mcp::client::{
    check_response, create_stack_request, delete_stack_request, get_stack_file_request,
    get_stack_request, header_value_text, list_endpoints_request, list_stacks_request,
    raw_request, raw_response, redeploy_git_stack_request, start_stack_request, status_line,
    stop_stack_request, update_stack_request, ApiRequest, ClientConfig, RequestBody,
    ResponseBody,
};
use portainer_mcp::models::{CreateStackBody, JsonBody, RedeployGitStackBody, UpdateStackBody};
use portainer_mcp::text::int_to_string;

fn pairs(req: &ApiRequest) -> Vec<(&str, &str)> {
    req.query.iter().map(|(k, v)| (k.as_str(), v.as_str())).collect()
}

#[test]
fn config_defaults_and_trailing_slashes() {
    let c = ClientConfig::from_env("key".to_string(), None, None);
    assert_eq!(c.base_url, "http://localhost:9000");
    assert_eq!(c.api_key, "key");
    assert!(!c.insecure);
    let c = ClientConfig::from_env("k".to_string(), Some("https://p.example:9443//"), Some("true"));
    assert_eq!(c.base_url, "https://p.example:9443");
    assert!(c.insecure);
    let c = ClientConfig::from_env("k".to_string(), Some("http://h"), Some("1"));
    assert!(c.insecure);
    let c = ClientConfig::from_env("k".to_string(), Some("http://h"), Some("TRUE"));
    assert!(!c.insecure);
    let c = ClientConfig::from_env("k".to_string(), Some("http://h"), Some("yes"));
    assert!(!c.insecure);
}

#[test]
fn url_for_joins_base_and_path() {
    let c = ClientConfig::from_env("k".to_string(), Some("http://h:9000/"), None);
    assert_eq!(c.url_for("stacks"), "http://h:9000/api/stacks");
    assert_eq!(c.url_for("//system/status"), "http://h:9000/api/system/status");
    assert_eq!(c.url_for("/stacks"), c.url_for("stacks"));
}

#[test]
fn list_stacks_with_and_without_filter() {
    let r = list_stacks_request(None);
    assert_eq!(r.method, "GET");
    assert_eq!(r.path, "stacks");
    assert!(r.query.is_empty());
    assert!(r.body.is_none());
    let r = list_stacks_request(Some("{\"EndpointID\":1}"));
    assert_eq!(pairs(&r), vec![("filters", "{\"EndpointID\":1}")]);
}

#[test]
fn stack_paths_and_queries() {
    let r = get_stack_request(42);
    assert_eq!((r.method.as_str(), r.path.as_str()), ("GET", "stacks/42"));
    let r = get_stack_file_request(3, Some(2), Some("abc"));
    assert_eq!(r.path, "stacks/3/file");
    assert_eq!(pairs(&r), vec![("version", "2"), ("commitHash", "abc")]);
    let r = get_stack_file_request(3, None, None);
    assert!(r.query.is_empty());
    let r = start_stack_request(5, 1);
    assert_eq!((r.method.as_str(), r.path.as_str()), ("POST", "stacks/5/start"));
    assert_eq!(pairs(&r), vec![("endpointId", "1")]);
    let r = stop_stack_request(5, 1);
    assert_eq!((r.method.as_str(), r.path.as_str()), ("POST", "stacks/5/stop"));
    let r = delete_stack_request(-9, 2, Some(true));
    assert_eq!((r.method.as_str(), r.path.as_str()), ("DELETE", "stacks/-9"));
    assert_eq!(pairs(&r), vec![("endpointId", "2"), ("removeVolumes", "true")]);
    let r = delete_stack_request(9, 2, Some(false));
    assert_eq!(pairs(&r), vec![("endpointId", "2"), ("removeVolumes", "false")]);
    let r = delete_stack_request(9, 2, None);
    assert_eq!(pairs(&r), vec![("endpointId", "2")]);
}

#[test]
fn requests_with_bodies() {
    let body = CreateStackBody {
        name: "web".to_string(),
        stack_file_content: "services: {}".to_string(),
        env: None,
        webhook: None,
    };
    let r = create_stack_request(1, body);
    assert_eq!(r.method, "POST");
    assert_eq!(r.path, "stacks/create/standalone/string");
    assert_eq!(pairs(&r), vec![("endpointId", "1")]);
    match r.body {
        Some(RequestBody::CreateStack(b)) => assert_eq!(b.name, "web"),
        _ => panic!("expected a create body"),
    }
    let body = UpdateStackBody {
        stack_file_content: None,
        env: None,
        prune: Some(true),
        pull_image: None,
        rollback_to: None,
    };
    let r = update_stack_request(4, 1, body);
    assert_eq!((r.method.as_str(), r.path.as_str()), ("PUT", "stacks/4"));
    assert!(matches!(r.body, Some(RequestBody::UpdateStack(_))));
    let body = RedeployGitStackBody {
        env: None,
        prune: None,
        repository_reference_name: Some("main".to_string()),
        pull_image: None,
    };
    let r = redeploy_git_stack_request(4, None, body);
    assert_eq!((r.method.as_str(), r.path.as_str()), ("PUT", "stacks/4/git/redeploy"));
    assert!(r.query.is_empty());
    let body = RedeployGitStackBody { env: None, prune: None, repository_reference_name: None, pull_image: None };
    let r = redeploy_git_stack_request(4, Some(8), body);
    assert_eq!(pairs(&r), vec![("endpointId", "8")]);
}

#[test]
fn list_endpoints_query_order() {
    let r = list_endpoints_request(Some(0), Some(10), Some("Name"), Some(2));
    assert_eq!(r.path, "endpoints");
    assert_eq!(
        pairs(&r),
        vec![("start", "0"), ("limit", "10"), ("sort", "Name"), ("order", "2")]
    );
    let r = list_endpoints_request(None, Some(5), None, None);
    assert_eq!(pairs(&r), vec![("limit", "5")]);
}

#[test]
fn raw_request_uppercases_and_checks_method() {
    let r = raw_request("get", "system/status", None, None).unwrap();
    assert_eq!(r.method, "GET");
    assert_eq!(r.path, "system/status");
    assert!(r.query.is_empty());
    assert!(r.body.is_none());
    let e = raw_request("bad method", "x", None, None).unwrap_err();
    assert_eq!(e, "invalid HTTP method: invalid HTTP method");
    assert!(raw_request("", "x", None, None).is_err());
    let r = raw_request(
        "patch",
        "x",
        None,
        Some(vec![("a".to_string(), "1".to_string())]),
    )
    .unwrap();
    assert_eq!(r.method, "PATCH");
    assert_eq!(pairs(&r), vec![("a", "1")]);
}

#[test]
fn raw_request_body_handling() {
    let r = raw_request("POST", "x", Some(JsonBody::Str("{\"a\":1}".to_string())), None).unwrap();
    match r.body {
        Some(RequestBody::Json(v)) => assert_eq!(v["a"], 1),
        _ => panic!("expected the decoded document"),
    }
    let r = raw_request("POST", "x", Some(JsonBody::Str("not json".to_string())), None).unwrap();
    match r.body {
        Some(RequestBody::JsonString(s)) => assert_eq!(s, "not json"),
        _ => panic!("expected the string kept"),
    }
    let v = serde_json::Value::Bool(true);
    let r = raw_request("POST", "x", Some(JsonBody::Other(v)), None).unwrap();
    match r.body {
        Some(RequestBody::Json(v)) => assert_eq!(v, serde_json::Value::Bool(true)),
        _ => panic!("expected the value kept"),
    }
}

#[test]
fn check_response_by_status() {
    assert_eq!(check_response(200, "ok".to_string()), Ok("ok".to_string()));
    assert_eq!(check_response(204, String::new()), Ok(String::new()));
    assert_eq!(
        check_response(404, "gone".to_string()),
        Err("Portainer API error (HTTP 404 Not Found): gone".to_string())
    );
    assert_eq!(
        check_response(301, "moved".to_string()),
        Err("Portainer API error (HTTP 301 Moved Permanently): moved".to_string())
    );
    assert_eq!(
        check_response(599, "x".to_string()),
        Err("Portainer API error (HTTP 599 <unknown status code>): x".to_string())
    );
}

#[test]
fn status_lines() {
    assert_eq!(status_line(200), "200 OK");
    assert_eq!(status_line(500), "500 Internal Server Error");
    assert_eq!(status_line(999), "999 <unknown status code>");
}

#[test]
fn header_values() {
    assert_eq!(header_value_text(&b"application/json".to_vec()), "application/json");
    assert_eq!(header_value_text(&b"a\tb".to_vec()), "a\tb");
    assert_eq!(header_value_text(&vec![0xff, 0x41]), "<binary>");
    assert_eq!(header_value_text(&vec![]), "");
}

#[test]
fn raw_response_reads_json_or_text() {
    let r = raw_response(
        200,
        vec![("content-type".to_string(), b"text/plain".to_vec())],
        "{\"Version\":\"2.27.3\"}".to_string(),
    );
    assert_eq!(r.status_code, 200);
    assert_eq!(r.headers, vec![("content-type".to_string(), "text/plain".to_string())]);
    match r.body {
        ResponseBody::Json(v) => assert!(v["Version"].is_string()),
        _ => panic!("expected JSON"),
    }
    let r = raw_response(500, vec![], "oops".to_string());
    match r.body {
        ResponseBody::Text(t) => assert_eq!(t, "oops"),
        _ => panic!("expected text"),
    }
}

#[test]
fn decimal_forms() {
    assert_eq!(int_to_string(0), "0");
    assert_eq!(int_to_string(1234567), "1234567");
    assert_eq!(int_to_string(-5), "-5");
    assert_eq!(int_to_string(i64::MIN), i64::MIN.to_string());
    assert_eq!(int_to_string(i64::MAX), i64::MAX.to_string());
}

#[test]
fn different_stacks_different_paths() {
    assert_ne!(get_stack_request(1).path, get_stack_request(10).path);
    assert_ne!(get_stack_request(-1).path, get_stack_request(1).path);
    assert_ne!(start_stack_request(12, 1).path, start_stack_request(1, 1).path);
}

#[test]
fn string_body_sent_as_its_parsed_document() {
    let text = "{\"Name\":\"web\",\"Items\":[1,2,{\"x\":null}]}";
    let r = raw_request("put", "x", Some(JsonBody::Str(text.to_string())), None).unwrap();
    let expected: serde_json::Value = serde_json::from_str(text).unwrap();
    match r.body {
        Some(RequestBody::Json(v)) => assert_eq!(v, expected),
        _ => panic!("expected the decoded document"),
    }
}

#[test]
fn reply_body_is_the_parsed_text() {
    let text = "[{\"Id\":1,\"Name\":\"local\"},{\"Id\":2}]";
    let r = raw_response(200, vec![], text.to_string());
    let expected: serde_json::Value = serde_json::from_str(text).unwrap();
    match r.body {
        ResponseBody::Json(v) => assert_eq!(v, expected),
        _ => panic!("expected JSON"),
    }
    let r = raw_response(404, vec![], "null".to_string());
    match r.body {
        ResponseBody::Json(v) => assert_eq!(v, serde_json::Value::Null),
        _ => panic!("expected JSON"),
    }
}

#[test]
fn prepared_request_carries_url_and_api_key() {
    let c = ClientConfig::from_env("secret-key".to_string(), Some("http://h:9000/"), None);
    assert_eq!(
        c.headers(),
        vec![("X-API-KEY".to_string(), "secret-key".to_string())]
    );
    let r = c.prepare(delete_stack_request(3, 1, Some(true)));
    assert_eq!(r.method, "DELETE");
    assert_eq!(r.url, "http://h:9000/api/stacks/3");
    assert_eq!(r.headers, vec![("X-API-KEY".to_string(), "secret-key".to_string())]);
    assert_eq!(
        r.query,
        vec![
            ("endpointId".to_string(), "1".to_string()),
            ("removeVolumes".to_string(), "true".to_string())
        ]
    );
    assert!(r.body.is_none());
    let r = c.prepare(raw_request("get", "/system/status", None, None).unwrap());
    assert_eq!(r.url, "http://h:9000/api/system/status");
}
