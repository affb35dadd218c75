use node_inject::frames::{poll_value, write_json, JsonMember, JsonValue};
use node_inject::process::{find_process, ProcessInfo};
use node_inject::protocol::{
    decimal_text, domain_listing, manifest_url, poll_expression, protocol_url, select_debug_url,
    DebugManifest, Domain, DomainCommand, DomainCommandParam, ManifestError, MethodCall, Param,
    ParamValue, RequestCounter, RuntimeEval,
};

fn param_json(v: &ParamValue) -> serde_json::Value {
    match v {
        ParamValue::String(s) => serde_json::Value::String(s.clone()),
        ParamValue::Bool(b) => serde_json::Value::Bool(*b),
    }
}

fn call_json(c: &MethodCall) -> serde_json::Value {
    let mut params = serde_json::Map::new();
    for p in &c.params {
        params.insert(p.name.clone(), param_json(&p.value));
    }
    let mut obj = serde_json::Map::new();
    obj.insert("id".to_string(), serde_json::Value::from(c.id as u64));
    obj.insert("method".to_string(), serde_json::Value::String(c.method.clone()));
    obj.insert("params".to_string(), serde_json::Value::Object(params));
    serde_json::Value::Object(obj)
}

#[test]
fn eval_request_round_trip() {
    let mut counter = RequestCounter::new();
    let eval = RuntimeEval::new(&mut counter, "1+1");
    let text = serde_json::to_string(&call_json(&eval.0)).unwrap();
    let v: serde_json::Value = serde_json::from_str(&text).unwrap();
    assert_eq!(v["method"], "Runtime.evaluate");
    assert_eq!(v["params"]["expression"], "1+1");
    assert_eq!(v["params"]["awaitPromise"], true);
    assert_eq!(v["params"]["includeCommandLineAPI"], true);
    assert_eq!(v["params"]["allowUnsafeEvalBlockedByCSP"], true);
    assert_eq!(v["id"], 0);
}

#[test]
fn request_ids_count_up_from_zero() {
    let mut counter = RequestCounter::new();
    let a = RuntimeEval::new(&mut counter, "1");
    let b = RuntimeEval::poll(&mut counter, "x");
    let c = MethodCall::new(
        &mut counter,
        "Runtime.enable".to_string(),
        vec![Param { name: "k".to_string(), value: ParamValue::Bool(false) }],
    );
    let d = RuntimeEval::poll(&mut counter, "x");
    assert_eq!((a.0.id, b.0.id, c.id, d.0.id), (0, 1, 2, 3));
    assert_eq!(counter.next, 4);
    assert_eq!(c.method, "Runtime.enable");
}

#[test]
fn poll_request_stringifies_the_variable() {
    assert_eq!(poll_expression("x"), "JSON.stringify(x)");
    let mut counter = RequestCounter::new();
    let r = RuntimeEval::poll(&mut counter, "x");
    assert_eq!(r.0.method, "Runtime.evaluate");
    assert_eq!(r.0.params[3].value, ParamValue::String("JSON.stringify(x)".to_string()));
}

fn obj(members: Vec<(&str, JsonValue)>) -> JsonValue {
    JsonValue::Object(
        members.into_iter().map(|(k, v)| JsonMember { key: k.to_string(), value: v }).collect(),
    )
}

fn result_frame(inner: Vec<(&str, JsonValue)>) -> JsonValue {
    obj(vec![("id", JsonValue::Number("3".to_string())), ("result", obj(vec![("result", obj(inner))]))])
}

#[test]
fn absent_value_decodes_to_empty_text() {
    let frame = result_frame(vec![("type", JsonValue::Str("undefined".to_string()))]);
    assert_eq!(poll_value(&frame), Some(String::new()));
}

#[test]
fn present_values_decode_to_text() {
    let s = result_frame(vec![("value", JsonValue::Str("{\"a\":1}".to_string()))]);
    assert_eq!(poll_value(&s), Some("{\"a\":1}".to_string()));
    let n = result_frame(vec![("value", JsonValue::Number("12.5".to_string()))]);
    assert_eq!(poll_value(&n), Some("12.5".to_string()));
    let b = result_frame(vec![("value", JsonValue::Bool(false))]);
    assert_eq!(poll_value(&b), Some("false".to_string()));
    let z = result_frame(vec![("value", JsonValue::Null)]);
    assert_eq!(poll_value(&z), Some(String::new()));
}

#[test]
fn other_frames_carry_no_value() {
    let event = obj(vec![("method", JsonValue::Str("Runtime.consoleAPICalled".to_string()))]);
    assert_eq!(poll_value(&event), None);
    let flat = obj(vec![("result", obj(vec![("result", JsonValue::Null)]))]);
    assert_eq!(poll_value(&flat), None);
}

fn command(name: &str, params: Option<Vec<&str>>) -> DomainCommand {
    DomainCommand {
        name: name.to_string(),
        parameters: params.map(|ps| {
            ps.into_iter().map(|p| DomainCommandParam { name: p.to_string() }).collect()
        }),
    }
}

#[test]
fn command_display_forms() {
    assert_eq!(command("evaluate", Some(vec!["expression"])).display(), ".evaluate(expression)");
    assert_eq!(command("f", Some(vec!["a", "b", "c"])).display(), ".f(a, b, c)");
    assert_eq!(command("enable", None).display(), ".enable()");
    assert_eq!(command("g", Some(vec![])).display(), ".g()");
}

#[test]
fn domain_listing_lines() {
    let domains = vec![
        Domain {
            domain: "Runtime".to_string(),
            commands: vec![command("evaluate", Some(vec!["expression"])), command("enable", None)],
        },
        Domain { domain: "Debugger".to_string(), commands: vec![] },
    ];
    assert_eq!(
        domain_listing(&domains),
        vec!["* Runtime", "  .evaluate(expression)", "  .enable()", "* Debugger"]
    );
}

#[test]
fn first_manifest_url_is_taken() {
    let ms = vec![
        DebugManifest { ws_debugger_url: "ws://127.0.0.1:9229/a".to_string() },
        DebugManifest { ws_debugger_url: "ws://127.0.0.1:9229/b".to_string() },
    ];
    assert_eq!(select_debug_url(&ms), Ok("ws://127.0.0.1:9229/a".to_string()));
    assert_eq!(select_debug_url(&vec![]), Err(ManifestError::NoManifest));
}

#[test]
fn urls_and_decimal() {
    assert_eq!(decimal_text(0), "0");
    assert_eq!(decimal_text(7), "7");
    assert_eq!(decimal_text(9229), "9229");
    assert_eq!(decimal_text(65535), "65535");
    assert_eq!(manifest_url(9229), "http://127.0.0.1:9229/json");
    assert_eq!(protocol_url(80), "http://127.0.0.1:80/json/protocol");
}

#[test]
fn process_search() {
    let ps = vec![
        ProcessInfo { pid: 5, description: "bash /bin/bash".to_string() },
        ProcessInfo { pid: 9, description: "Code Helper /Applications/Code.app".to_string() },
        ProcessInfo { pid: 11, description: "code /usr/bin/code".to_string() },
    ];
    assert_eq!(find_process(&ps, "code", 1), Some(9));
    assert_eq!(find_process(&ps, "code", 9), Some(11));
    assert_eq!(find_process(&ps, "node", 1), None);
}

#[test]
fn process_search_ignores_case_of_filter() {
    let ps = vec![
        ProcessInfo { pid: 3, description: "bash /bin/bash".to_string() },
        ProcessInfo { pid: 4, description: "node /usr/bin/node [\"app.js\"]".to_string() },
    ];
    assert_eq!(find_process(&ps, "NODE", 1), Some(4));
    assert_eq!(find_process(&ps, "NoDe", 4), None);
}

#[test]
fn poll_request_keeps_the_eval_flags() {
    let mut counter = RequestCounter::new();
    let r = RuntimeEval::poll(&mut counter, "x");
    let names: Vec<&str> = r.0.params.iter().map(|p| p.name.as_str()).collect();
    assert_eq!(names, vec!["awaitPromise", "includeCommandLineAPI", "allowUnsafeEvalBlockedByCSP", "expression"]);
    for p in &r.0.params[..3] {
        assert_eq!(p.value, ParamValue::Bool(true));
    }
}

#[test]
fn compound_values_decode_to_json_text() {
    let arr = result_frame(vec![("value", JsonValue::Array(vec![]))]);
    assert_eq!(poll_value(&arr), Some("[]".to_string()));
    let nested = obj(vec![
        (
            "a",
            JsonValue::Array(vec![
                JsonValue::Number("1".to_string()),
                JsonValue::Str("x\"y".to_string()),
            ]),
        ),
        ("b", JsonValue::Null),
        ("c", JsonValue::Bool(true)),
    ]);
    let frame = result_frame(vec![("value", nested)]);
    assert_eq!(poll_value(&frame), Some("{\"a\":[1,\"x\\\"y\"],\"b\":null,\"c\":true}".to_string()));
}

#[test]
fn json_text_escapes_like_serde_json() {
    let s = "tab\t nl\n cr\r bs\\ q\" bell\u{7} ff\u{c} bsp\u{8} \u{1f} é✓";
    let mut out = String::from(">");
    write_json(&JsonValue::Str(s.to_string()), &mut out);
    assert_eq!(out, format!(">{}", serde_json::to_string(s).unwrap()));
    let mut out = String::new();
    write_json(&obj(vec![("k\n", JsonValue::Array(vec![JsonValue::Null, obj(vec![])]))]), &mut out);
    assert_eq!(out, "{\"k\\n\":[null,{}]}");
}
