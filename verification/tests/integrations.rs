use desktop_host::integrations::{
    api_secret_key, basic_credentials, check_api_profile, plan_api_request, plan_request_headers, request_headers,
    validate_plugin_id, ApiError, HttpMethod, PluginError,
};

#[test]
fn secret_keys() {
    assert_eq!(api_secret_key("api-7"), "api-profile:api-7");
}

#[test]
fn profile_checks() {
    assert_eq!(check_api_profile(" ", "https://a.com", "none", 5000, ""), Err(ApiError::MissingName));
    assert_eq!(check_api_profile("x", "https://a.com", "oauth", 5000, ""), Err(ApiError::BadAuthType));
    assert_eq!(check_api_profile("x", "not a url", "none", 5000, ""), Err(ApiError::BadBaseUrl));
    assert_eq!(check_api_profile("x", "http://a.com", "none", 5000, ""), Err(ApiError::NotHttps));
    assert_eq!(check_api_profile("x", "https://a.com", "none", 5000, "b.com, c.com"), Err(ApiError::HostNotAllowed));
    assert_eq!(check_api_profile("x", "https://a.com", "none", 999, ""), Err(ApiError::BadTimeout));
    assert_eq!(check_api_profile("x", "https://a.com/v1", "bearer", 5000, "").unwrap(), "a.com");
    assert_eq!(check_api_profile("x", "https://a.com", "basic", 120000, "b.com, a.com ").unwrap(), "b.com, a.com ");
}

#[test]
fn request_plans() {
    assert_eq!(plan_api_request(false, "https://a.com/", "x", "a.com", "GET").unwrap_err(), ApiError::Disabled);
    assert_eq!(plan_api_request(true, "::", "x", "a.com", "GET").unwrap_err(), ApiError::StoredBaseUrlInvalid);
    assert_eq!(plan_api_request(true, "https://a.com/", "//evil.com/x", "a.com", "GET").unwrap().url, "https://a.com/evil.com/x");
    assert_eq!(plan_api_request(true, "https://a.com/", "https://b.com/", "a.com", "GET").unwrap_err(), ApiError::TargetNotAllowed);
    assert_eq!(plan_api_request(true, "https://a.com/", "x", "a.com", "TRACE").unwrap_err(), ApiError::BadMethod);
    let plan = plan_api_request(true, "https://a.com/api/", "/v1/items", "a.com", "post").unwrap();
    assert_eq!(plan.url, "https://a.com/api/v1/items");
    assert_eq!(plan.method, HttpMethod::Post);
    let plan = plan_api_request(true, "https://a.com/", "x", "a.com", "po\u{17f}t").unwrap();
    assert_eq!(plan.method, HttpMethod::Post);
    assert_eq!(plan_api_request(true, "https://a.com/", "x", "a.com", "Delete").unwrap().method, HttpMethod::Delete);
}

#[test]
fn headers_from_json_text() {
    assert_eq!(plan_request_headers(&None).unwrap(), vec![]);
    assert_eq!(plan_request_headers(&Some("{oops".into())).unwrap_err(), ApiError::BadHeadersJson);
    assert_eq!(plan_request_headers(&Some("[1, 2]".into())).unwrap(), vec![]);
    assert_eq!(
        plan_request_headers(&Some(r#"{"X-Trace":"1","X-Num":2}"#.into())).unwrap(),
        vec![("X-Trace".to_string(), "1".to_string())]
    );
    assert_eq!(plan_request_headers(&Some(r#"{"Cookie":"a"}"#.into())).unwrap_err(), ApiError::SensitiveHeader(0));
    assert_eq!(plan_request_headers(&Some(r#"{"HOST":5}"#.into())).unwrap_err(), ApiError::SensitiveHeader(0));
}

#[test]
fn headers_and_basic_secrets() {
    let headers = vec![("X-Trace".to_string(), Some("1".to_string())), ("X-Num".to_string(), None)];
    assert_eq!(request_headers(&headers).unwrap(), vec![("X-Trace".to_string(), "1".to_string())]);
    let bad = vec![("X-A".to_string(), None), ("Authorization".to_string(), Some("t".to_string()))];
    assert_eq!(request_headers(&bad).unwrap_err(), ApiError::SensitiveHeader(1));
    assert_eq!(request_headers(&vec![("COOKIE".to_string(), None)]).unwrap_err(), ApiError::SensitiveHeader(0));
    assert_eq!(basic_credentials("user:pa:ss").unwrap(), ("user".to_string(), "pa:ss".to_string()));
    assert_eq!(basic_credentials("nocolon").unwrap_err(), ApiError::BadBasicSecret);
}

#[test]
fn plugin_ids() {
    assert_eq!(validate_plugin_id("report-pack_1.2"), Ok(()));
    assert_eq!(validate_plugin_id(""), Err(PluginError::BadId));
    assert_eq!(validate_plugin_id("../etc"), Err(PluginError::BadId));
    assert_eq!(validate_plugin_id(&"a".repeat(81)), Err(PluginError::BadId));
    assert_eq!(validate_plugin_id(&"a".repeat(80)), Ok(()));
}
