use std::cell::RefCell;

use yggdre::command::Captured;
use yggdre::json::{JsonEntry, JsonValue};
use yggdre::machine::{CreateFailure, Host, Machine};
use yggdre::net::SocketAddress;
use yggdre::node::{get_node_status, node_status_from, NodeQuery};

/// A machine for tests: each action is answered by a closure and written to
/// `log`, in order.
struct Fake<'a> {
    log: &'a RefCell<Vec<String>>,
    run: Box<dyn Fn(String, Vec<String>) -> Result<Captured, String> + 'a>,
    copy: Box<dyn Fn(String, String) -> Result<(), String> + 'a>,
    write: Box<dyn Fn(String, String) -> Result<(), String> + 'a>,
    create: Box<dyn Fn(String, String) -> Result<(), CreateFailure> + 'a>,
    stage: Box<dyn Fn(String) -> Result<String, String> + 'a>,
    resolve: Box<dyn Fn(String, u16) -> Result<Vec<SocketAddress>, String> + 'a>,
    connect: Box<dyn Fn(SocketAddress) -> Result<u128, String> + 'a>,
}

/// A machine on which every action is unexpected.
fn fake(log: &RefCell<Vec<String>>) -> Fake<'_> {
    Fake {
        log,
        run: Box::new(|p, a| panic!("unexpected run of {p} {a:?}")),
        copy: Box::new(|f, t| panic!("unexpected copy of {f} to {t}")),
        write: Box::new(|p, _| panic!("unexpected write of {p}")),
        create: Box::new(|p, _| panic!("unexpected creation of {p}")),
        stage: Box::new(|_| panic!("unexpected staging")),
        resolve: Box::new(|h, p| panic!("unexpected lookup of {h}:{p}")),
        connect: Box::new(|a| panic!("unexpected connection to {}", a.ip.text)),
    }
}

impl Machine for Fake<'_> {
    fn run(&self, program: String, args: Vec<String>) -> Result<Captured, String> {
        self.log.borrow_mut().push(format!("run {} {}", program, args.join(" ")));
        (self.run)(program, args)
    }
    fn copy(&self, from: String, to: String) -> Result<(), String> {
        self.log.borrow_mut().push(format!("copy {from} {to}"));
        (self.copy)(from, to)
    }
    fn write(&self, path: String, contents: String) -> Result<(), String> {
        self.log.borrow_mut().push(format!("write {path}"));
        (self.write)(path, contents)
    }
    fn create(&self, path: String, contents: String) -> Result<(), CreateFailure> {
        self.log.borrow_mut().push(format!("create {path}"));
        (self.create)(path, contents)
    }
    fn stage(&self, contents: String) -> Result<String, String> {
        self.log.borrow_mut().push("stage".to_string());
        (self.stage)(contents)
    }
    fn unstage(&self, path: String) {
        self.log.borrow_mut().push(format!("unstage {path}"));
    }
    fn resolve(&self, host: String, port: u16) -> Result<Vec<SocketAddress>, String> {
        self.log.borrow_mut().push(format!("resolve {host}:{port}"));
        (self.resolve)(host, port)
    }
    fn connect(&self, address: SocketAddress) -> Result<u128, String> {
        self.log.borrow_mut().push(format!("connect {}:{}", address.ip.text, address.port));
        (self.connect)(address)
    }
}

/// The actions in `log` so far, each up to its first space.
fn kinds(log: &RefCell<Vec<String>>) -> Vec<String> {
    log.borrow().iter().map(|e| e.split(' ').next().unwrap_or("").to_string()).collect()
}

fn s(text: &str) -> JsonValue {
    JsonValue::Str(text.to_string())
}

fn obj(members: Vec<(&str, JsonValue)>) -> JsonValue {
    JsonValue::Object(
        members
            .into_iter()
            .map(|(key, value)| JsonEntry { key: key.to_string(), value })
            .collect(),
    )
}

fn self_answer() -> JsonValue {
    obj(vec![(
        "response",
        obj(vec![
            ("build_name", s("yggdrasil")),
            ("build_version", s("0.5.12")),
            ("address", s("200:1234::1")),
            ("subnet", s("300:1234::/64")),
            ("key", s("deadbeef")),
            ("coords", JsonValue::Array(vec![JsonValue::Number("1".to_string())])),
        ]),
    )])
}

fn peers_answer() -> JsonValue {
    obj(vec![("response", obj(vec![("peers", JsonValue::Array(vec![JsonValue::Null, JsonValue::Null]))]))])
}

#[test]
fn node_status_from_answers() {
    let st = node_status_from(true, NodeQuery::Answered { self_value: self_answer(), peers_value: peers_answer() }, &compact);
    assert!(st.process_running);
    assert!(st.admin_api_ok);
    assert_eq!(st.error, None);
    assert_eq!(st.build_name, Some("yggdrasil".to_string()));
    assert_eq!(st.build_version, Some("0.5.12".to_string()));
    assert_eq!(st.ipv6_address, Some("200:1234::1".to_string()));
    assert_eq!(st.subnet, Some("300:1234::/64".to_string()));
    assert_eq!(st.public_key, Some("deadbeef".to_string()));
    assert_eq!(st.coords, Some("[1]".to_string()));
    assert_eq!(st.peer_count, 2);
    match st.self_info {
        Some(JsonValue::Object(members)) => assert_eq!(members[0].key, "build_name"),
        _ => panic!("expected the inner response"),
    }
}

#[test]
fn node_status_from_failures() {
    let st = node_status_from(false, NodeQuery::CtlMissing, &compact);
    assert!(!st.admin_api_ok);
    assert_eq!(st.error, Some("yggdrasilctl not found".to_string()));
    assert_eq!(st.peer_count, 0);
    assert!(st.self_info.is_none());
    let st = node_status_from(true, NodeQuery::Failed("boom".to_string()), &compact);
    assert!(st.process_running);
    assert_eq!(st.error, Some("boom".to_string()));
}

/// Writes the JSON arrays of numbers that these tests show.
fn compact(value: JsonValue) -> String {
    match value {
        JsonValue::Number(n) => n,
        JsonValue::Array(items) => format!("[{}]", items.into_iter().map(compact).collect::<Vec<_>>().join(",")),
        _ => "?".to_string(),
    }
}

fn parse(text: String) -> Result<JsonValue, String> {
    match text.as_str() {
        "self" => Ok(self_answer()),
        "peers" => Ok(peers_answer()),
        other => Err(format!("expected value at line 1 column 1 ({other})")),
    }
}

#[test]
fn get_node_status_asks_ctl_without_privileges() {
    let log = RefCell::new(Vec::new());
    let is_file = |p: String| p == "/home/u/bin/yggdrasilctl";
    let run = |_: String, args: Vec<String>| {
        let answer = if args[1] == "getSelf" { "self" } else { "peers" };
        Ok(Captured { success: true, stdout: answer.to_string(), stderr: String::new() })
    };
    let mut host = Host::new(Fake { run: Box::new(run), ..fake(&log) });
    let st = get_node_status(false, true, &vec!["/home/u/bin".to_string()], &is_file, &parse, &compact, &mut host).unwrap();
    assert!(st.admin_api_ok);
    assert_eq!(st.peer_count, 2);
    assert_eq!(
        log.borrow().clone(),
        vec!["run /home/u/bin/yggdrasilctl -json getSelf", "run /home/u/bin/yggdrasilctl -json getPeers"]
    );
}

#[test]
fn get_node_status_with_privileges_uses_fixed_locations() {
    let log = RefCell::new(Vec::new());
    let is_file = |p: String| p == "/home/u/bin/yggdrasilctl";
    let mut host = Host::new(fake(&log));
    let st = get_node_status(true, false, &vec!["/home/u/bin".to_string()], &is_file, &parse, &compact, &mut host).unwrap();
    assert!(!st.admin_api_ok);
    assert_eq!(st.error, Some("yggdrasilctl not found".to_string()));
    assert!(log.borrow().is_empty());
    let is_file = |p: String| p == "/usr/local/bin/yggdrasilctl";
    let run = |_: String, _: Vec<String>| {
        Ok(Captured { success: true, stdout: "self\n__YGGDRE_SPLIT__\npeers".to_string(), stderr: String::new() })
    };
    let mut host = Host::new(Fake { run: Box::new(run), ..fake(&log) });
    let st = get_node_status(true, true, &vec![], &is_file, &parse, &compact, &mut host).unwrap();
    assert!(st.admin_api_ok);
    assert_eq!(st.build_version, Some("0.5.12".to_string()));
    assert_eq!(log.borrow().len(), 1);
    assert!(log.borrow()[0].starts_with("run /usr/bin/osascript -e "));
}

#[test]
fn get_node_status_reports_failures() {
    let log = RefCell::new(Vec::new());
    let is_file = |_: String| true;
    let failing = |_: String, _: Vec<String>| {
        Ok(Captured { success: false, stdout: String::new(), stderr: "admin socket refused".to_string() })
    };
    let mut host = Host::new(Fake { run: Box::new(failing), ..fake(&log) });
    let st = get_node_status(false, true, &vec![], &is_file, &parse, &compact, &mut host).unwrap();
    assert!(!st.admin_api_ok);
    assert_eq!(st.error, Some("admin socket refused".to_string()));
    let garbled = |_: String, args: Vec<String>| {
        let answer = if args[1] == "getSelf" { "junk" } else { "peers" };
        Ok(Captured { success: true, stdout: answer.to_string(), stderr: String::new() })
    };
    let mut host = Host::new(Fake { run: Box::new(garbled), ..fake(&log) });
    match get_node_status(false, true, &vec![], &is_file, &parse, &compact, &mut host) {
        Err(e) => assert_eq!(e, "Could not parse getSelf JSON: expected value at line 1 column 1 (junk)"),
        Ok(_) => panic!("expected a parse error"),
    }
    let garbled = |_: String, args: Vec<String>| {
        let answer = if args[1] == "getSelf" { "self" } else { "junk" };
        Ok(Captured { success: true, stdout: answer.to_string(), stderr: String::new() })
    };
    let mut host = Host::new(Fake { run: Box::new(garbled), ..fake(&log) });
    match get_node_status(false, true, &vec![], &is_file, &parse, &compact, &mut host) {
        Err(e) => assert_eq!(e, "Could not parse getPeers JSON: expected value at line 1 column 1 (junk)"),
        Ok(_) => panic!("expected a parse error"),
    }
}
