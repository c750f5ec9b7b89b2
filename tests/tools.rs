use archgw::path::Parameter;
use archgw::tools::{compute_request_path_body, filter_tool_params, HttpMethod, ToolArg};
use serde_yaml::Value;

fn tool_params(yaml: &str) -> Option<Vec<(String, ToolArg)>> {
    let value: Option<serde_yaml::Mapping> = serde_yaml::from_str(yaml).unwrap();
    value.map(|m| {
        m.iter()
            .map(|(k, v)| {
                let arg = match v {
                    Value::String(s) => ToolArg::Text(s.clone()),
                    Value::Number(n) => ToolArg::Number(n.to_string()),
                    Value::Bool(b) => ToolArg::Bool(*b),
                    Value::Null => ToolArg::Null,
                    other => ToolArg::Compound(serde_json::to_string(other).unwrap()),
                };
                (k.as_str().unwrap().to_string(), arg)
            })
            .collect()
    })
}

fn country_param() -> Parameter {
    Parameter {
        name: "country".to_string(),
        parameter_type: None,
        description: "test target".to_string(),
        required: None,
        enum_values: None,
        default: Some("US".to_string()),
        in_path: None,
        format: None,
    }
}

#[test]
fn test_compute_request_path_body() {
    let endpoint_path = "/cluster.open-cluster-management.io/v1/managedclusters/{cluster_name}";
    let tool_params = tool_params(
        r#"
      cluster_name: test1
      hello: hello world
      "#,
    );
    let prompt_target_params = vec![country_param()];
    let http_method = HttpMethod::Get;
    let (path, body) = compute_request_path_body(
        endpoint_path,
        &tool_params,
        &prompt_target_params,
        &http_method,
    )
    .unwrap();
    assert_eq!(
        path,
        "/cluster.open-cluster-management.io/v1/managedclusters/test1?hello=hello%20world&country=US"
    );
    assert_eq!(body, None);
}

#[test]
fn test_compute_request_path_body_empty_params() {
    let endpoint_path = "/cluster.open-cluster-management.io/v1/managedclusters/";
    let tool_params = tool_params(r#"{}"#);
    let prompt_target_params = vec![country_param()];
    let http_method = HttpMethod::Get;
    let (path, body) = compute_request_path_body(
        endpoint_path,
        &tool_params,
        &prompt_target_params,
        &http_method,
    )
    .unwrap();
    assert_eq!(
        path,
        "/cluster.open-cluster-management.io/v1/managedclusters/?country=US"
    );
    assert_eq!(body, None);
}

#[test]
fn test_compute_request_path_body_override_default_val() {
    let endpoint_path = "/cluster.open-cluster-management.io/v1/managedclusters/";
    let tool_params = tool_params(
        r#"
      country: UK
      "#,
    );
    let prompt_target_params = vec![country_param()];
    let http_method = HttpMethod::Get;
    let (path, body) = compute_request_path_body(
        endpoint_path,
        &tool_params,
        &prompt_target_params,
        &http_method,
    )
    .unwrap();
    assert_eq!(
        path,
        "/cluster.open-cluster-management.io/v1/managedclusters/?country=UK"
    );
    assert_eq!(body, None);
}

#[test]
fn get_templating_scenario() {
    let args = Some(vec![
        ("cluster_name".to_string(), ToolArg::Text("test1".to_string())),
        ("hello".to_string(), ToolArg::Text("hello world".to_string())),
    ]);
    let (path, body) =
        compute_request_path_body("/mc/{cluster_name}", &args, &[country_param()], &HttpMethod::Get).unwrap();
    assert_eq!(path, "/mc/test1?hello=hello%20world&country=US");
    assert_eq!(body, None);
}

#[test]
fn post_templating_scenario() {
    let args = Some(vec![("country".to_string(), ToolArg::Text("UK".to_string()))]);
    let (path, body) =
        compute_request_path_body("/mc/", &args, &[country_param()], &HttpMethod::Post).unwrap();
    assert_eq!(path, "/mc/");
    let body: serde_json::Value = serde_json::from_str(&body.unwrap()).unwrap();
    assert_eq!(body, serde_json::from_str::<serde_json::Value>(r#"{"country":"UK"}"#).unwrap());
}

#[test]
fn post_body_takes_template_query_pairs() {
    let args = Some(vec![("a".to_string(), ToolArg::Number("1".to_string()))]);
    let (path, body) = compute_request_path_body("/p?x=y", &args, &[], &HttpMethod::Post).unwrap();
    assert_eq!(path, "/p");
    assert_eq!(body.unwrap(), r#"{"a":"1","x":"y"}"#);
}

#[test]
fn missing_placeholder_scenario() {
    let args = Some(vec![("bar".to_string(), ToolArg::Text("qux".to_string()))]);
    let r = compute_request_path_body("/foo/{bar}/baz/{qux}", &args, &[], &HttpMethod::Get);
    assert_eq!(r, Err("Missing value for parameter `qux`".to_string()));
}

#[test]
fn only_scalar_arguments_are_kept() {
    let args = tool_params(
        r#"
      a: text
      b: 3
      c: true
      d: [1, 2]
      e: null
      "#,
    );
    assert_eq!(
        filter_tool_params(&args),
        vec![
            ("a".to_string(), "text".to_string()),
            ("b".to_string(), "3".to_string()),
            ("c".to_string(), "true".to_string())
        ]
    );
    assert_eq!(filter_tool_params(&None), vec![]);
}
