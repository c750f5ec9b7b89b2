use std::collections::HashMap;

use archgw::path::{replace_params_in_path, Parameter};

fn as_map(v: Vec<(String, String)>) -> HashMap<String, String> {
    v.into_iter().collect()
}

fn replace(
    path: &str,
    params: &Vec<(String, String)>,
    prompt_target_params: &Vec<Parameter>,
) -> Result<(String, String, HashMap<String, String>), String> {
    replace_params_in_path(path, params, prompt_target_params).map(|(p, q, l)| (p, q, as_map(l)))
}

fn country_param() -> Parameter {
    Parameter {
        name: "country".to_string(),
        parameter_type: None,
        description: "test target".to_string(),
        required: None,
        enum_values: None,
        default: Some("US".to_string()),
        in_path: None,
        format: None,
    }
}

#[test]
fn test_replace_path() {
    let path = "/cluster.open-cluster-management.io/v1/managedclusters/{cluster_name}";
    let params = vec![
        ("cluster_name".to_string(), "test1".to_string()),
        ("hello".to_string(), "hello world".to_string()),
    ]
    .into_iter()
    .collect();
    let prompt_target_params = vec![country_param()];

    let out_params: HashMap<String, String> = vec![
        ("country".to_string(), "US".to_string()),
        ("hello".to_string(), "hello%20world".to_string()),
    ]
    .into_iter()
    .collect();
    assert_eq!(
        replace(path, &params, &prompt_target_params),
        Ok((
            "/cluster.open-cluster-management.io/v1/managedclusters/test1".to_string(),
            "hello=hello%20world&country=US".to_string(),
            out_params.clone()
        ))
    );

    let out_params = HashMap::new();
    let prompt_target_params = vec![];
    let path = "/cluster.open-cluster-management.io/v1/managedclusters";
    let params = vec![].into_iter().collect();
    assert_eq!(
        replace(path, &params, &prompt_target_params),
        Ok((
            "/cluster.open-cluster-management.io/v1/managedclusters".to_string(),
            "".to_string(),
            out_params
        ))
    );

    let path = "/foo/{bar}/baz";
    let params = vec![("bar".to_string(), "qux".to_string())]
        .into_iter()
        .collect();
    assert_eq!(
        replace(path, &params, &prompt_target_params),
        Ok(("/foo/qux/baz".to_string(), "".to_string(), HashMap::new()))
    );

    let path = "/foo/{bar}/baz/{qux}";
    let params = vec![
        ("bar".to_string(), "qux".to_string()),
        ("qux".to_string(), "quux".to_string()),
    ]
    .into_iter()
    .collect();
    assert_eq!(
        replace(path, &params, &prompt_target_params),
        Ok((
            "/foo/qux/baz/quux".to_string(),
            "".to_string(),
            HashMap::new()
        ))
    );

    let path = "/foo/{bar}/baz/{qux}?hello=world";
    let params = vec![
        ("bar".to_string(), "qux".to_string()),
        ("qux".to_string(), "quux".to_string()),
    ]
    .into_iter()
    .collect();
    assert_eq!(
        replace(path, &params, &prompt_target_params),
        Ok((
            "/foo/qux/baz/quux".to_string(),
            "hello=world".to_string(),
            HashMap::new()
        ))
    );

    let path = "/foo/{bar}/baz/{qux}?hello={hello}";
    let params = vec![
        ("bar".to_string(), "qux".to_string()),
        ("qux".to_string(), "quux".to_string()),
        ("hello".to_string(), "hello world".to_string()),
    ]
    .into_iter()
    .collect();
    assert_eq!(
        replace(path, &params, &prompt_target_params),
        Ok((
            "/foo/qux/baz/quux".to_string(),
            "hello=hello%20world".to_string(),
            HashMap::new()
        ))
    );

    let path = "/foo/{bar}/baz/{qux}";
    let params = vec![("bar".to_string(), "qux".to_string())]
        .into_iter()
        .collect();
    assert_eq!(
        replace(path, &params, &prompt_target_params),
        Err("Missing value for parameter `qux`".to_string())
    );
}

#[test]
fn missing_placeholder_names_the_first_gap() {
    let params = vec![("bar".to_string(), "qux".to_string())];
    let r = replace_params_in_path("/foo/{bar}/baz/{qux}", &params, &[]);
    assert_eq!(r, Err("Missing value for parameter `qux`".to_string()));
}

#[test]
fn placeholder_values_are_percent_encoded() {
    let params = vec![("name".to_string(), "a b/ü{".to_string())];
    let (path, query, left) = replace_params_in_path("/x/{name}", &params, &[]).unwrap();
    assert_eq!(path, "/x/a%20b%2F%C3%BC%7B");
    assert_eq!(query, "");
    assert!(left.is_empty());
    assert!(!path.contains('{') && !path.contains('}'));
}

#[test]
fn leftovers_hold_each_unused_value_once() {
    let params = vec![
        ("id".to_string(), "7".to_string()),
        ("q".to_string(), "a&b".to_string()),
        ("q".to_string(), "second".to_string()),
    ];
    let declared = vec![
        country_param(),
        Parameter {
            name: "empty".to_string(),
            parameter_type: None,
            description: String::new(),
            required: None,
            enum_values: None,
            default: Some(String::new()),
            in_path: None,
            format: None,
        },
    ];
    let (path, query, left) = replace_params_in_path("/items/{id}", &params, &declared).unwrap();
    assert_eq!(path, "/items/7");
    assert_eq!(query, "q=a%26b&country=US");
    assert_eq!(
        left,
        vec![
            ("q".to_string(), "a%26b".to_string()),
            ("country".to_string(), "US".to_string())
        ]
    );
}

#[test]
fn templating_a_result_again_changes_nothing() {
    let params = vec![("cluster_name".to_string(), "test1".to_string())];
    let (path, _, _) = replace_params_in_path("/mc/{cluster_name}", &params, &[]).unwrap();
    let again = replace_params_in_path(&path, &vec![], &[]).unwrap();
    assert_eq!(again, (path, String::new(), vec![]));
}
