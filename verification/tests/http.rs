use yal::http::{
    get_fields, plan_request, post_json_fields, response_header_pairs, response_table, scalar_table, valid_method,
    BodyCollector, HttpError, HttpLimits, LuaScalar, RequestBody, RequestFields, RequestOptions,
};
use yal::kv::KvStore;

fn fields(method: Option<&str>) -> RequestFields {
    RequestFields {
        method: method.map(|m| m.to_string()),
        url: "https://example.com".to_string(),
        headers: vec![("A".to_string(), "1".to_string()), ("A".to_string(), "2".to_string())],
        query: vec![],
        timeout_ms: None,
        max_body_bytes: Some(10),
        max_redirects: None,
        body: Some("text".to_string()),
        body_bytes: Some(vec![1, 2]),
        json: None,
        save_to: None,
    }
}

#[test]
fn default_limits() {
    let l = HttpLimits::default();
    assert_eq!(l.max_concurrent, 16);
    assert_eq!(l.default_timeout_ms, 10_000);
    assert_eq!(l.default_max_body_bytes, 4 * 1024 * 1024);
    assert_eq!(l.default_max_redirects, 5);
}

#[test]
fn methods() {
    assert!(valid_method("GET"));
    assert!(valid_method("patch"));
    assert!(valid_method("X-CUSTOM"));
    assert!(!valid_method(""));
    assert!(!valid_method("GE T"));
    assert!(!valid_method("B\u{e4}D"));
}

#[test]
fn request_defaults_and_body_choice() {
    let limits = HttpLimits::default();
    let plan = match plan_request(fields(None), &limits) {
        Ok(p) => p,
        Err(_) => panic!("a GET request is valid"),
    };
    assert_eq!(plan.method, "GET");
    assert_eq!(plan.url, "https://example.com");
    assert_eq!(plan.timeout_ms, 10_000);
    assert_eq!(plan.max_body_bytes, 10);
    assert_eq!(plan.max_redirects, 5);
    assert!(plan.uses_shared_client(&limits));
    assert_eq!(plan.headers.get("A"), Some(&"2".to_string()));
    assert!(matches!(plan.body, RequestBody::Text(ref t) if t == "text"));
    let mut defaults: KvStore<String> = KvStore::new();
    defaults.set("A".to_string(), "0".to_string());
    defaults.set("U".to_string(), "ua".to_string());
    let out = plan.outgoing_headers(&defaults);
    assert_eq!(
        out,
        vec![
            ("A".to_string(), "0".to_string()),
            ("U".to_string(), "ua".to_string()),
            ("A".to_string(), "2".to_string()),
        ]
    );
}

#[test]
fn invalid_method_is_refused() {
    match plan_request(fields(Some("BAD METHOD")), &HttpLimits::default()) {
        Err(e) => {
            assert_eq!(e, HttpError::InvalidMethod);
            assert_eq!(e.message(), "invalid HTTP method");
        },
        Ok(_) => panic!("the method has a space"),
    }
}

#[test]
fn scalar_tables() {
    let t = scalar_table(vec![
        (LuaScalar::Text("k".to_string()), LuaScalar::Boolean(true)),
        (LuaScalar::Integer(3), LuaScalar::Integer(-4)),
    ]);
    assert_eq!(
        t,
        Ok(vec![("k".to_string(), "true".to_string()), ("3".to_string(), "-4".to_string())])
    );
    let bad_key = scalar_table(vec![(LuaScalar::Boolean(true), LuaScalar::Other)]);
    assert_eq!(bad_key, Err(HttpError::KeyNotScalar));
    assert_eq!(HttpError::KeyNotScalar.message(), "header/query keys must be string/number");
    let bad_value = scalar_table(vec![(LuaScalar::Text("k".to_string()), LuaScalar::Other)]);
    assert_eq!(bad_value, Err(HttpError::ValueNotScalar));
    assert_eq!(HttpError::ValueNotScalar.message(), "header/query values must be scalar");
}

#[test]
fn body_limit() {
    let mut c = BodyCollector::new(5, true);
    assert_eq!(c.push_chunk(&[1, 2, 3]), Ok(()));
    assert_eq!(c.push_chunk(&[4, 5, 6]), Err(HttpError::BodyTooLarge));
    assert_eq!(c.size(), 3);
    assert_eq!(c.push_chunk(&[4, 5]), Ok(()));
    assert_eq!(c.size(), 5);
    assert_eq!(c.into_body(), vec![1, 2, 3, 4, 5]);
    assert_eq!(HttpError::BodyTooLarge.message(), "body exceeds max_body_bytes");

    let mut f = BodyCollector::new(4, false);
    assert_eq!(f.push_chunk(&[9, 9, 9]), Ok(()));
    assert_eq!(f.size(), 3);
    assert_eq!(f.push_chunk(&[9, 9]), Err(HttpError::BodyTooLarge));
    assert!(f.into_body().is_empty());
}

#[test]
fn response_headers() {
    let pairs = response_header_pairs(vec![
        ("content-type".to_string(), Some("text/plain".to_string())),
        ("x-bin".to_string(), None),
    ]);
    assert_eq!(
        pairs,
        vec![("content-type".to_string(), "text/plain".to_string()), ("x-bin".to_string(), String::new())]
    );
}

fn no_opts() -> RequestOptions {
    RequestOptions {
        method: None,
        url: None,
        headers: None,
        query: None,
        timeout_ms: None,
        max_body_bytes: None,
        max_redirects: None,
        body: None,
        body_bytes: None,
        json: None,
        save_to: None,
    }
}

#[test]
fn get_sets_method_and_url() {
    let f = get_fields("https://a.test".to_string(), None);
    assert_eq!(f.method.as_deref(), Some("GET"));
    assert_eq!(f.url, "https://a.test");
    assert!(f.headers.is_empty() && f.query.is_empty());
    assert!(f.json.is_none() && f.body.is_none() && f.timeout_ms.is_none());
    let plan = plan_request(f, &HttpLimits::default()).unwrap();
    assert_eq!(plan.method, "GET");
    assert_eq!(plan.timeout_ms, 10_000);
}

#[test]
fn get_options_win() {
    let mut o = no_opts();
    o.method = Some("HEAD".to_string());
    o.timeout_ms = Some(5);
    o.headers = Some(vec![("X".to_string(), "1".to_string())]);
    let f = get_fields("https://a.test".to_string(), Some(o));
    assert_eq!(f.method.as_deref(), Some("HEAD"));
    assert_eq!(f.url, "https://a.test");
    assert_eq!(f.timeout_ms, Some(5));
    assert_eq!(f.headers, vec![("X".to_string(), "1".to_string())]);
    let mut u = no_opts();
    u.url = Some("https://b.test".to_string());
    assert_eq!(get_fields("https://a.test".to_string(), Some(u)).url, "https://b.test");
}

#[test]
fn post_json_sets_method_url_and_body() {
    let v = serde_json::Value::Bool(true);
    let f = post_json_fields("https://a.test/p".to_string(), v.clone(), None);
    assert_eq!(f.method.as_deref(), Some("POST"));
    assert_eq!(f.url, "https://a.test/p");
    assert_eq!(f.json, Some(v.clone()));
    let plan = plan_request(f, &HttpLimits::default()).unwrap();
    assert!(matches!(plan.body, RequestBody::Json(ref j) if *j == v));
    let mut o = no_opts();
    o.json = Some(serde_json::Value::Null);
    o.max_redirects = Some(0);
    let g = post_json_fields("https://a.test/p".to_string(), v, Some(o));
    assert_eq!(g.json, Some(serde_json::Value::Null));
    assert_eq!(g.max_redirects, Some(0));
}

#[test]
fn response_tables() {
    let r = response_table(
        200,
        vec![("a".to_string(), "1".to_string()), ("a".to_string(), "2".to_string()), ("b".to_string(), "3".to_string())],
        b"ok".to_vec(),
    );
    assert_eq!(r.status, 200);
    assert_eq!(r.headers.get("a").map(|s| s.as_str()), Some("2"));
    assert_eq!(r.headers.get("b").map(|s| s.as_str()), Some("3"));
    assert_eq!(r.headers.len(), 2);
    assert_eq!(r.body, Some(b"ok".to_vec()));
    let empty = response_table(204, vec![], vec![]);
    assert_eq!(empty.status, 204);
    assert!(empty.body.is_none());
    assert_eq!(empty.headers.len(), 0);
}
