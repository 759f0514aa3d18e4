use lycan::cap_calls::{
    execute, file_work, finish_lambert, finish_radial, finish_scale, hex, horizons_answer,
    net_work, readable_size, response_size, room_for_row, sql_value_to_cap, FileWork, Kernel,
    NetWork, SqlValue, Step,
};
use lycan::cap_value::CapValue;
use lycan::capabilities::{get, json_catalog, names};
use lycan::context::{new_published_buffer, ExecutionContext, ExecutionPolicy, SelectionMode};
use lycan::json::{Json, Number};
use lycan::json_text::parse_json_text;
use lycan::number::Real;
use lycan::sandbox::{
    admit_path, check_network_sandbox, host_of, is_private_ip, judge_host, resolve_sandbox_path,
    Addr, Gate, HostFacts, PathFacts, Place,
};

fn num(x: f64) -> Real {
    Real { bits: x.to_bits() }
}

fn value(r: Real) -> f64 {
    f64::from_bits(r.bits)
}

fn text(s: &str) -> CapValue {
    CapValue::Str(s.to_string())
}

fn context(published: bool) -> ExecutionContext {
    ExecutionContext {
        policy: None,
        input: None,
        working_dir: None,
        selection_mode: SelectionMode::Greedy,
        selection_epsilon: num(0.10),
        published: if published { Some(new_published_buffer()) } else { None },
    }
}

fn publish(args: Vec<CapValue>, ctx: Option<&mut ExecutionContext>) -> Result<CapValue, String> {
    match execute("runtime.publish", &args, ctx.as_deref())? {
        Step::Publish(name, value) => {
            if let Some(c) = ctx {
                c.publish(name, value);
            }
            Ok(CapValue::Null)
        }
        other => panic!("unexpected step {other:?}"),
    }
}

fn done(name: &str, args: Vec<CapValue>) -> Result<CapValue, String> {
    match execute(name, &args, None)? {
        Step::Done(v) => Ok(v),
        other => panic!("unexpected step {other:?}"),
    }
}

#[test]
fn runtime_publish_roundtrips_each_supported_type() {
    let mut ctx = context(true);
    publish(vec![text("forecast"), CapValue::Float(num(142.7))], Some(&mut ctx))
        .expect("publish float");
    publish(vec![text("recommended_count"), CapValue::Int(7)], Some(&mut ctx)).expect("publish int");
    publish(vec![text("policy"), text("forecast_match")], Some(&mut ctx)).expect("publish str");
    publish(vec![text("override"), CapValue::Bool(true)], Some(&mut ctx)).expect("publish bool");
    publish(vec![text("unset"), CapValue::Null], Some(&mut ctx)).expect("publish null");

    let map = ctx.published.as_ref().expect("buffer present");
    assert_eq!(map.get("forecast").and_then(|v| v.as_real()).map(value), Some(142.7));
    assert_eq!(map.get("recommended_count").and_then(|v| v.as_u64()), Some(7));
    assert_eq!(map.get("policy").and_then(|v| v.as_str()), Some("forecast_match"));
    assert_eq!(map.get("override").and_then(|v| v.as_bool()), Some(true));
    assert!(matches!(map.get("unset"), Some(Json::Null)));
    let keys: Vec<&String> = map.entries.iter().map(|e| &e.0).collect();
    let mut sorted = keys.clone();
    sorted.sort();
    assert_eq!(keys, sorted);
}

#[test]
fn runtime_publish_overwrites_same_key() {
    let mut ctx = context(true);
    publish(vec![text("k"), CapValue::Int(1)], Some(&mut ctx)).unwrap();
    publish(vec![text("k"), CapValue::Int(2)], Some(&mut ctx)).unwrap();
    let buf = ctx.published.as_ref().unwrap();
    assert!(matches!(buf.get("k"), Some(Json::Num(Number::Natural(2)))));
}

#[test]
fn runtime_publish_is_noop_when_buffer_absent() {
    let mut ctx = context(false);
    let r = publish(vec![text("forecast"), CapValue::Float(num(1.0))], Some(&mut ctx));
    assert!(matches!(r, Ok(CapValue::Null)));
    assert!(ctx.published.is_none());
}

#[test]
fn runtime_publish_noop_with_no_context() {
    let r = publish(vec![text("forecast"), CapValue::Float(num(1.0))], None);
    assert!(matches!(r, Ok(CapValue::Null)));
}

#[test]
fn runtime_publish_rejects_array_values() {
    let mut ctx = context(true);
    let xs = CapValue::Array(vec![CapValue::Int(1), CapValue::Int(2)]);
    match publish(vec![text("xs"), xs], Some(&mut ctx)) {
        Err(msg) => assert!(msg.to_lowercase().contains("array"), "got: {msg}"),
        Ok(_) => panic!("expected error for array value"),
    }
}

#[test]
fn runtime_publish_rejects_non_finite_float() {
    let mut ctx = context(true);
    let r = publish(vec![text("nan"), CapValue::Float(num(f64::NAN))], Some(&mut ctx));
    assert!(r.is_err(), "NaN must be rejected");
    let r2 = publish(vec![text("inf"), CapValue::Float(num(f64::INFINITY))], Some(&mut ctx));
    assert!(r2.is_err(), "Infinity must be rejected");
}

#[test]
fn runtime_publish_requires_two_args() {
    let mut ctx = context(true);
    assert!(publish(vec![text("only_name")], Some(&mut ctx)).is_err());
}

#[test]
fn runtime_publish_registered_in_catalog() {
    assert!(get("runtime.publish").is_some());
    assert!(names().iter().any(|n| *n == "runtime.publish"));
}

#[test]
fn catalogue_is_json() {
    let all = parse_json_text(&json_catalog()).unwrap();
    let items = all.as_array().unwrap();
    assert_eq!(items.len(), names().len());
    for (item, name) in items.iter().zip(names()) {
        assert_eq!(item.str_at("name"), Some(name));
        assert!(get(name).is_some());
    }
    assert!(get("no.such").is_none());
}

#[test]
fn unknown_capabilities_are_told() {
    assert_eq!(
        execute("no.such", &vec![], None).unwrap_err(),
        "unknown capability 'no.such'"
    );
}

#[test]
fn effects_are_denied_by_policy() {
    let mut policy = ExecutionPolicy::default();
    policy.allow_file_read = false;
    policy.allow_network = false;
    let ctx = ExecutionContext::with_policy(policy);
    assert_eq!(
        execute("file.readText", &vec![text("a")], Some(&ctx)).unwrap_err(),
        "capability=file.readText effect=file_read denied by policy"
    );
    assert_eq!(
        execute("http.get", &vec![text("http://a.b")], Some(&ctx)).unwrap_err(),
        "capability=http.get effect=network denied by policy"
    );
    assert!(matches!(
        execute("stats.max", &vec![CapValue::Array(vec![CapValue::Int(1)])], Some(&ctx)),
        Ok(Step::Done(CapValue::Float(r))) if value(r) == 1.0
    ));
}

#[test]
fn json_is_read_by_path() {
    let doc = "{\"a\": {\"b\": [10, 2.5, \"x\", null, {\"k\": 1}]}, \"s\": \"h\u{e9}\"}";
    let at = |path: &str| done("json.get", vec![text(doc), text(path)]);
    assert!(matches!(at("a.b.0"), Ok(CapValue::Int(10))));
    assert!(matches!(at("$.a.b.1"), Ok(CapValue::Float(r)) if value(r) == 2.5));
    assert!(matches!(at("a.b.2"), Ok(CapValue::Str(s)) if s == "x"));
    assert!(matches!(at("a.b.3"), Ok(CapValue::Null)));
    assert!(matches!(at("a.b.4"), Ok(CapValue::Str(s)) if s == "{\"k\":1}"));
    assert_eq!(at("a.c").unwrap_err(), "json.get path 'a.c' not found");
    let len = |path: &str| done("json.len", vec![text(doc), text(path)]);
    assert!(matches!(len("a.b"), Ok(CapValue::Int(5))));
    assert!(matches!(len("s"), Ok(CapValue::Int(2))));
    assert!(matches!(len("$"), Ok(CapValue::Int(2))));
    assert_eq!(len("a.b.0").unwrap_err(), "json.len cannot measure number");
    let has = |path: &str| done("json.has", vec![text(doc), text(path)]);
    assert!(matches!(has("a.b.7"), Ok(CapValue::Bool(false))));
    assert!(matches!(has("a.b"), Ok(CapValue::Bool(true))));
    let wrong = done("json.has", vec![text("{"), text("a")]).unwrap_err();
    assert!(wrong.starts_with("json.has invalid JSON: "), "got {wrong}");
}

#[test]
fn arguments_are_checked() {
    assert_eq!(
        execute("json.get", &vec![text("{}")], None).unwrap_err(),
        "json.get expects 2 arguments, got 1"
    );
    assert_eq!(
        execute("json.get", &vec![CapValue::Int(1), text("a")], None).unwrap_err(),
        "json.get argument 1 must be string, got int"
    );
    assert_eq!(
        execute("stats.mean", &vec![CapValue::Array(vec![])], None).unwrap_err(),
        "stats.mean requires a non-empty numeric array"
    );
    assert_eq!(
        execute("stats.mean", &vec![CapValue::Array(vec![CapValue::Null])], None).unwrap_err(),
        "stats.mean array item 1 must be number, got null"
    );
    assert_eq!(
        execute("http.get", &vec![text("ftp://x")], None).unwrap_err(),
        "http.get only accepts http:// or https:// URLs"
    );
    assert_eq!(
        execute("nav.norm3", &vec![CapValue::Int(1), CapValue::Null, CapValue::Int(1)], None)
            .unwrap_err(),
        "nav.norm3 argument 2 must be number, got null"
    );
}

#[test]
fn arithmetic_is_left_to_the_host() {
    let list = CapValue::Array(vec![CapValue::Int(3), CapValue::Float(num(1.5))]);
    match execute("stats.percentile", &vec![list, CapValue::Int(50)], None) {
        Ok(Step::Compute(Kernel::Percentile(sorted, p))) => {
            let sorted: Vec<f64> = sorted.into_iter().map(value).collect();
            assert_eq!(sorted, vec![1.5, 3.0]);
            assert_eq!(value(p), 50.0);
        }
        other => panic!("unexpected {other:?}"),
    }
    let scale = vec![CapValue::Int(950), CapValue::Int(100), CapValue::Int(2), CapValue::Int(8)];
    assert!(matches!(
        execute("ops.autoScaleRecommend", &scale, None),
        Ok(Step::Compute(Kernel::Scale(_, _, 2, 8)))
    ));
    assert!(matches!(finish_scale(num(10.0), 2, 8), CapValue::Int(8)));
    assert!(matches!(finish_scale(num(f64::NAN), 2, 8), CapValue::Int(2)));
    assert!(matches!(finish_scale(num(5.0), 2, 8), CapValue::Int(5)));
    assert_eq!(
        finish_radial(num(0.0), num(1.0)).unwrap_err(),
        "nav.radialVelocity requires non-zero position"
    );
    match finish_lambert(&vec![num(1.0); 6], true) {
        CapValue::Array(v) => {
            assert_eq!(v.len(), 7);
            assert!(matches!(&v[6], CapValue::Float(r) if value(*r) == 1.0));
        }
        other => panic!("unexpected {other:?}"),
    }
}

#[test]
fn inputs_are_read_by_path() {
    let doc = parse_json_text("{\"user\": {\"tags\": [\"a\", \"b\"]}}").unwrap();
    let ctx = ExecutionContext::with_input(CapValue::from_json(&doc));
    let at = |path: &str| match execute("runtime.inputGet", &vec![text(path)], Some(&ctx)) {
        Ok(Step::Done(v)) => v,
        other => panic!("unexpected {other:?}"),
    };
    assert!(matches!(at("user.tags.1"), CapValue::Str(s) if s == "b"));
    assert!(matches!(at("user.name"), CapValue::Null));
    assert!(matches!(at("user.tags.9"), CapValue::Null));
}

#[test]
fn file_work_is_told() {
    assert!(matches!(file_work("file.exists", &vec![text("a")]), Ok(FileWork::Exists)));
    assert!(matches!(
        file_work("file.writeText", &vec![text("a"), text("b")]),
        Ok(FileWork::WriteText(s)) if s == "b"
    ));
    let big = "x".repeat(1024 * 1024 + 1);
    assert_eq!(
        file_work("file.writeText", &vec![text("a"), text(&big)]).unwrap_err(),
        "file.writeText refuses contents larger than 1048576 bytes"
    );
    assert!(matches!(
        file_work("sql.sqliteQuery", &vec![text("db"), text("  SELECT 1")]),
        Ok(FileWork::Query(_))
    ));
    assert_eq!(
        file_work("sql.sqliteQuery", &vec![text("db"), text("DROP TABLE t")]).unwrap_err(),
        "sql.sqliteQuery only allows SELECT, WITH, or PRAGMA statements"
    );
    assert!(readable_size(1024 * 1024).is_ok());
    assert_eq!(
        readable_size(1024 * 1024 + 1).unwrap_err(),
        "file.readText refuses files larger than 1048576 bytes"
    );
}

#[test]
fn rows_hold_what_the_database_gives() {
    assert!(matches!(sql_value_to_cap(&SqlValue::Null), CapValue::Null));
    assert!(matches!(sql_value_to_cap(&SqlValue::Integer(-4)), CapValue::Int(-4)));
    assert!(matches!(
        sql_value_to_cap(&SqlValue::Text(vec![b'a', 0xFF])),
        CapValue::Str(s) if s == "a\u{FFFD}"
    ));
    assert!(matches!(
        sql_value_to_cap(&SqlValue::Blob(vec![0x0A, 0xFF])),
        CapValue::Str(s) if s == "0aff"
    ));
    assert_eq!(hex(&[0, 255, 16]), "00ff10");
    assert!(room_for_row(999));
    assert!(!room_for_row(1000));
}

#[test]
fn requests_are_told() {
    assert!(matches!(
        net_work("http.get", &vec![text("https://a.b/c")]),
        Ok(NetWork::Get(u)) if u == "https://a.b/c"
    ));
    let whole = vec![text("499"), text("2020-01-01"), text("2020-02-01"), CapValue::Int(1)];
    assert!(matches!(
        net_work("nav.horizonsVectors", &whole),
        Ok(NetWork::Horizons(_, _, _, _, Some(s))) if s == "1d"
    ));
    let half =
        vec![text("499"), text("2020-01-01"), text("2020-02-01"), CapValue::Float(num(0.5))];
    assert!(matches!(
        net_work("nav.horizonsVectors", &half),
        Ok(NetWork::Horizons(_, _, _, d, None)) if value(d) == 0.5
    ));
    assert!(response_size("http.get", 1024 * 1024).is_ok());
    assert_eq!(
        response_size("http.get", 1024 * 1024 + 1).unwrap_err(),
        "http.get refuses responses larger than 1048576 bytes"
    );
    let fault = parse_json_text("{\"error\": \"no body\"}").unwrap();
    assert_eq!(horizons_answer(&fault, "n").unwrap_err(), "n Horizons error: no body");
    let none = parse_json_text("{}").unwrap();
    assert_eq!(
        horizons_answer(&none, "n").unwrap_err(),
        "n Horizons response missing result text"
    );
}

fn confined(root: Option<&str>, dir: Option<&str>) -> ExecutionContext {
    let mut policy = ExecutionPolicy::default();
    policy.file_root = root.map(|s| s.to_string());
    policy.allowed_hosts = vec!["api.example.com".to_string(), "*.wild.org".to_string()];
    let mut ctx = ExecutionContext::with_policy(policy);
    ctx.working_dir = dir.map(|s| s.to_string());
    ctx
}

#[test]
fn paths_stay_inside_their_root() {
    let ctx = confined(Some("/data"), None);
    let place = |p: &str| resolve_sandbox_path(Some(&ctx), p, "file.readText");
    match place("a/b.txt") {
        Ok(Place::Confined { root, target }) => {
            assert_eq!(root, "/data");
            assert_eq!(target, "/data/a/b.txt");
        }
        other => panic!("unexpected {other:?}"),
    }
    assert_eq!(
        place("/etc/passwd").unwrap_err(),
        "capability=file.readText: absolute paths denied by sandbox"
    );
    assert_eq!(
        place("../x").unwrap_err(),
        "capability=file.readText: path traversal denied by sandbox"
    );
    assert_eq!(
        resolve_sandbox_path(Some(&confined(None, None)), "a", "file.exists").unwrap_err(),
        "capability=file.exists: no file_root or working_dir configured"
    );
    assert!(matches!(
        resolve_sandbox_path(None, "/any", "file.exists"),
        Ok(Place::Free(p)) if p == "/any"
    ));
}

#[test]
fn links_may_not_lead_out() {
    let facts = |target: &str| PathFacts {
        root: Ok("/data".to_string()),
        exists: true,
        target: Ok(target.to_string()),
        parent: None,
        file_name: None,
    };
    assert_eq!(
        admit_path("/data/a", "file.writeText", &facts("/data/a")).unwrap(),
        "/data/a"
    );
    assert_eq!(
        admit_path("/data/a", "file.writeText", &facts("/database/a")).unwrap_err(),
        "capability=file.writeText: path escapes sandbox"
    );
    let fresh = PathFacts {
        root: Ok("/data".to_string()),
        exists: false,
        target: Err("absent".to_string()),
        parent: Some((true, Ok("/data/real".to_string()))),
        file_name: Some("n.txt".to_string()),
    };
    assert_eq!(
        admit_path("/data/link/n.txt", "file.writeText", &fresh).unwrap(),
        "/data/real/n.txt"
    );
    let orphan = PathFacts { parent: Some((false, Err("absent".to_string()))), ..fresh };
    assert_eq!(
        admit_path("/data/x/n.txt", "file.writeText", &orphan).unwrap_err(),
        "capability=file.writeText: parent directory does not exist"
    );
}

#[test]
fn hosts_are_checked() {
    let ctx = confined(None, None);
    let gate = |url: &str| check_network_sandbox(Some(&ctx), url, "http.get");
    assert!(matches!(gate("https://api.example.com/x"), Ok(Gate::Ask(h)) if h == "api.example.com"));
    assert!(matches!(gate("https://a.wild.org"), Ok(Gate::Ask(_))));
    assert!(matches!(gate("https://wild.org"), Ok(Gate::Ask(_))));
    assert_eq!(
        gate("https://evil-api.example.com").unwrap_err(),
        "capability=http.get: host 'evil-api.example.com' not in allowed_hosts"
    );
    assert!(matches!(check_network_sandbox(None, "https://x", "http.get"), Ok(Gate::Open)));
    let closed = ExecutionContext::with_policy(ExecutionPolicy::default());
    let wrong = check_network_sandbox(Some(&closed), "https://x", "http.get").unwrap_err();
    assert!(wrong.starts_with("capability=http.get: no allowed_hosts configured"), "got {wrong}");
    assert_eq!(host_of("http://[::1]:80/a"), "::1");
    assert_eq!(host_of("http://h:81/a/b"), "h");
}

#[test]
fn private_addresses_are_refused() {
    for private in [
        Addr::V4([127, 0, 0, 1]),
        Addr::V4([10, 1, 2, 3]),
        Addr::V4([172, 16, 0, 1]),
        Addr::V4([172, 31, 0, 1]),
        Addr::V4([192, 168, 1, 1]),
        Addr::V4([169, 254, 0, 9]),
        Addr::V4([0, 0, 0, 0]),
        Addr::V4([255, 255, 255, 255]),
        Addr::V6([0, 0, 0, 0, 0, 0, 0, 1]),
        Addr::V6([0xfd00, 0, 0, 0, 0, 0, 0, 1]),
        Addr::V6([0xfe80, 0, 0, 0, 0, 0, 0, 1]),
    ] {
        assert!(is_private_ip(&private), "{private:?}");
    }
    assert!(!is_private_ip(&Addr::V4([172, 32, 0, 1])));
    assert!(!is_private_ip(&Addr::V4([8, 8, 8, 8])));
    let facts = HostFacts::Resolved(vec![
        (Addr::V4([8, 8, 8, 8]), "8.8.8.8".to_string()),
        (Addr::V4([10, 0, 0, 1]), "10.0.0.1".to_string()),
    ]);
    let wrong = judge_host("http.get", "h", &facts).unwrap_err();
    assert!(wrong.contains("host 'h' resolves to private IP 10.0.0.1"), "got {wrong}");
    assert!(judge_host("http.get", "h", &HostFacts::Unresolved).is_ok());
}
