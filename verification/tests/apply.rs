use std::cell::RefCell;
use std::collections::BTreeMap;

use yggdre::apply::{apply_peers_admin, apply_peers_to_config, write_peers_direct};
use yggdre::command::Captured;
use yggdre::json::{JsonEntry, JsonValue};
use yggdre::machine::{CreateFailure, Host, Machine};
use yggdre::net::{IpAddress, IpKind, SocketAddress};

/// A machine for tests: each action is answered by a closure and written to
/// `log`, in order.
struct Fake<'a> {
    log: &'a RefCell<Vec<String>>,
    run: Box<dyn Fn(String, Vec<String>) -> Result<Captured, String> + 'a>,
    copy: Box<dyn Fn(String, String) -> Result<(), String> + 'a>,
    write: Box<dyn Fn(String, String) -> Result<(), String> + 'a>,
    create: Box<dyn Fn(String, String) -> Result<(), CreateFailure> + 'a>,
    stage: Box<dyn Fn(String) -> Result<String, String> + 'a>,
    resolve: Box<dyn Fn(String, u16) -> Result<Vec<SocketAddress>, String> + 'a>,
    connect: Box<dyn Fn(SocketAddress) -> Result<u128, String> + 'a>,
}

/// A machine on which every action is unexpected.
fn fake(log: &RefCell<Vec<String>>) -> Fake<'_> {
    Fake {
        log,
        run: Box::new(|p, a| panic!("unexpected run of {p} {a:?}")),
        copy: Box::new(|f, t| panic!("unexpected copy of {f} to {t}")),
        write: Box::new(|p, _| panic!("unexpected write of {p}")),
        create: Box::new(|p, _| panic!("unexpected creation of {p}")),
        stage: Box::new(|_| panic!("unexpected staging")),
        resolve: Box::new(|h, p| panic!("unexpected lookup of {h}:{p}")),
        connect: Box::new(|a| panic!("unexpected connection to {}", a.ip.text)),
    }
}

impl Machine for Fake<'_> {
    fn run(&self, program: String, args: Vec<String>) -> Result<Captured, String> {
        self.log.borrow_mut().push(format!("run {} {}", program, args.join(" ")));
        (self.run)(program, args)
    }
    fn copy(&self, from: String, to: String) -> Result<(), String> {
        self.log.borrow_mut().push(format!("copy {from} {to}"));
        (self.copy)(from, to)
    }
    fn write(&self, path: String, contents: String) -> Result<(), String> {
        self.log.borrow_mut().push(format!("write {path}"));
        (self.write)(path, contents)
    }
    fn create(&self, path: String, contents: String) -> Result<(), CreateFailure> {
        self.log.borrow_mut().push(format!("create {path}"));
        (self.create)(path, contents)
    }
    fn stage(&self, contents: String) -> Result<String, String> {
        self.log.borrow_mut().push("stage".to_string());
        (self.stage)(contents)
    }
    fn unstage(&self, path: String) {
        self.log.borrow_mut().push(format!("unstage {path}"));
    }
    fn resolve(&self, host: String, port: u16) -> Result<Vec<SocketAddress>, String> {
        self.log.borrow_mut().push(format!("resolve {host}:{port}"));
        (self.resolve)(host, port)
    }
    fn connect(&self, address: SocketAddress) -> Result<u128, String> {
        self.log.borrow_mut().push(format!("connect {}:{}", address.ip.text, address.port));
        (self.connect)(address)
    }
}

/// The actions in `log` so far, each up to its first space.
fn kinds(log: &RefCell<Vec<String>>) -> Vec<String> {
    log.borrow().iter().map(|e| e.split(' ').next().unwrap_or("").to_string()).collect()
}

fn ok(stdout: &str) -> Result<Captured, String> {
    Ok(Captured { success: true, stdout: stdout.to_string(), stderr: String::new() })
}

fn parse(text: String) -> Result<JsonValue, String> {
    if text.trim() == "{\"IfName\":\"auto\"}" {
        Ok(JsonValue::Object(vec![JsonEntry { key: "IfName".to_string(), value: JsonValue::Str("auto".to_string()) }]))
    } else if text.trim() == "[]" {
        Ok(JsonValue::Array(vec![]))
    } else {
        Err("expected value".to_string())
    }
}

/// Writes a JSON value compactly; enough for these tests.
fn render(value: JsonValue) -> Result<String, String> {
    fn write(value: &JsonValue, out: &mut String) {
        match value {
            JsonValue::Null => out.push_str("null"),
            JsonValue::Bool(b) => out.push_str(if *b { "true" } else { "false" }),
            JsonValue::Number(n) => out.push_str(n),
            JsonValue::Str(s) => out.push_str(&format!("{s:?}")),
            JsonValue::Array(items) => {
                out.push('[');
                for (i, item) in items.iter().enumerate() {
                    if i > 0 {
                        out.push(',');
                    }
                    write(item, out);
                }
                out.push(']');
            }
            JsonValue::Object(members) => {
                out.push('{');
                for (i, m) in members.iter().enumerate() {
                    if i > 0 {
                        out.push(',');
                    }
                    out.push_str(&format!("{:?}:", m.key));
                    write(&m.value, out);
                }
                out.push('}');
            }
        }
    }
    let mut out = String::new();
    write(&value, &mut out);
    Ok(out)
}

fn not_link(_: String) -> Result<bool, String> {
    Ok(false)
}

fn no_canon(_: String) -> Option<String> {
    None
}

fn public_ip(host: String) -> Option<IpAddress> {
    if host == "8.8.8.8" {
        Some(IpAddress { kind: IpKind::V4(8, 8, 8, 8), text: host })
    } else if host == "10.0.0.1" {
        Some(IpAddress { kind: IpKind::V4(10, 0, 0, 1), text: host })
    } else {
        None
    }
}

#[test]
fn direct_write_backs_up_and_writes_peers() {
    let log = RefCell::new(Vec::new());
    let files = RefCell::new(BTreeMap::new());
    files.borrow_mut().insert("/etc/yggdrasil.conf".to_string(), "{\"IfName\":\"auto\"}".to_string());
    let is_file = |p: String| p == "/usr/local/bin/yggdrasil";
    let run = |_: String, _: Vec<String>| ok("{\"IfName\":\"auto\"}\n");
    let copy = |from: String, to: String| {
        let body = files.borrow().get(&from).cloned().ok_or("missing".to_string())?;
        files.borrow_mut().insert(to, body);
        Ok(())
    };
    let write = |path: String, contents: String| {
        files.borrow_mut().insert(path, contents);
        Ok(())
    };
    let mut host = Host::new(Fake { run: Box::new(run), copy: Box::new(copy), write: Box::new(write), ..fake(&log) });
    let peers = vec!["tls://8.8.8.8:443".to_string()];
    let backup = write_peers_direct("/etc/yggdrasil.conf", &peers, &vec![], &not_link, &is_file, &parse, &render, &mut host)
        .unwrap();
    assert!(backup.starts_with("/etc/yggdrasil.conf.yggdre-backup."));
    let files = files.borrow().clone();
    assert_eq!(files[&backup], "{\"IfName\":\"auto\"}");
    assert_eq!(files["/etc/yggdrasil.conf"], "{\"IfName\":\"auto\",\"Peers\":[\"tls://8.8.8.8:443\"]}\n");
    assert_eq!(
        log.borrow().clone(),
        vec![
            "run /usr/local/bin/yggdrasil -normaliseconf -json -useconffile /etc/yggdrasil.conf".to_string(),
            format!("copy /etc/yggdrasil.conf {backup}"),
            "write /etc/yggdrasil.conf".to_string(),
        ]
    );
}

#[test]
fn direct_write_failures_leave_file_alone() {
    let log = RefCell::new(Vec::new());
    let copy = |_: String, _: String| Err("Permission denied (os error 13)".to_string());
    let is_file = |_: String| true;
    let run = |_: String, _: Vec<String>| ok("{\"IfName\":\"auto\"}");
    let mut host = Host::new(Fake { run: Box::new(run), copy: Box::new(copy), ..fake(&log) });
    let peers = vec!["tcp://8.8.8.8:1".to_string()];
    let r = write_peers_direct("/etc/yggdrasil.conf", &peers, &vec![], &not_link, &is_file, &parse, &render, &mut host);
    let e = r.unwrap_err();
    assert!(e.starts_with("Could not create backup `/etc/yggdrasil.conf.yggdre-backup."));
    assert!(e.ends_with("`: Permission denied (os error 13)"));
    assert_eq!(kinds(&log), vec!["run", "copy"]);
    let no_ygg = |_: String| false;
    let log = RefCell::new(Vec::new());
    let mut host = Host::new(fake(&log));
    assert_eq!(
        write_peers_direct("/etc/yggdrasil.conf", &peers, &vec![], &not_link, &no_ygg, &parse, &render, &mut host),
        Err("yggdrasil binary not found".to_string())
    );
    let link = |_: String| Ok(true);
    assert_eq!(
        write_peers_direct("/etc/yggdrasil.conf", &peers, &vec![], &link, &is_file, &parse, &render, &mut host),
        Err("Refusing to modify symlinked config path `/etc/yggdrasil.conf`".to_string())
    );
    assert!(log.borrow().is_empty());
    let array = |_: String, _: Vec<String>| ok("[]");
    let mut host = Host::new(Fake { run: Box::new(array), ..fake(&log) });
    assert_eq!(
        write_peers_direct("/etc/yggdrasil.conf", &peers, &vec![], &not_link, &is_file, &parse, &render, &mut host),
        Err("Normalised config is not a JSON object.".to_string())
    );
    let junk = |_: String, _: Vec<String>| ok("junk");
    let mut host = Host::new(Fake { run: Box::new(junk), ..fake(&log) });
    assert_eq!(
        write_peers_direct("/etc/yggdrasil.conf", &peers, &vec![], &not_link, &is_file, &parse, &render, &mut host),
        Err("Could not parse normalised config JSON: expected value".to_string())
    );
    assert_eq!(kinds(&log), vec!["run", "run"]);
}

#[test]
fn admin_write_stages_and_installs() {
    let log = RefCell::new(Vec::new());
    let scripts = RefCell::new(Vec::new());
    let staged = RefCell::new(Vec::new());
    let is_file = |p: String| p == "/opt/homebrew/bin/yggdrasil";
    let run = |_: String, args: Vec<String>| {
        scripts.borrow_mut().push(args[1].clone());
        if args[1].contains("-normaliseconf") {
            ok("{\"IfName\":\"auto\"}")
        } else {
            ok("/etc/yggdrasil.conf.yggdre-backup.1700000000\n")
        }
    };
    let stage = |contents: String| {
        staged.borrow_mut().push(contents);
        Ok("/tmp/yggdre-config-1/yggdrasil.conf.json".to_string())
    };
    let mut host = Host::new(Fake { run: Box::new(run), stage: Box::new(stage), ..fake(&log) });
    let peers = vec!["tls://8.8.8.8:443".to_string()];
    let backup = apply_peers_admin("/etc/yggdrasil.conf", &peers, true, &not_link, &is_file, &parse, &render, &mut host);
    assert_eq!(backup, Ok("/etc/yggdrasil.conf.yggdre-backup.1700000000".to_string()));
    assert_eq!(staged.borrow().clone(), vec!["{\"IfName\":\"auto\",\"Peers\":[\"tls://8.8.8.8:443\"]}"]);
    assert_eq!(kinds(&log), vec!["run", "stage", "run", "unstage"]);
    assert_eq!(log.borrow()[3], "unstage /tmp/yggdre-config-1/yggdrasil.conf.json");
    let scripts = scripts.borrow().clone();
    assert_eq!(scripts.len(), 2);
    assert!(scripts[0].contains("'\\\\''/opt/homebrew/bin/yggdrasil'\\\\'' -normaliseconf -json -useconffile '\\\\''/etc/yggdrasil.conf'\\\\''"));
    assert!(scripts[1].contains("/usr/bin/install -m"));
    assert!(scripts[1].ends_with("; /bin/launchctl kickstart -k system/yggdrasil'\" with administrator privileges"));
}

#[test]
fn admin_write_unstages_even_when_install_fails() {
    let log = RefCell::new(Vec::new());
    let is_file = |_: String| true;
    let run = |_: String, args: Vec<String>| {
        if args[1].contains("-normaliseconf") {
            ok("{\"IfName\":\"auto\"}")
        } else {
            Ok(Captured { success: false, stdout: String::new(), stderr: "User canceled.".to_string() })
        }
    };
    let stage = |_: String| Ok("/tmp/s/yggdrasil.conf.json".to_string());
    let mut host = Host::new(Fake { run: Box::new(run), stage: Box::new(stage), ..fake(&log) });
    let peers = vec!["tls://8.8.8.8:443".to_string()];
    let r = apply_peers_admin("/etc/yggdrasil.conf", &peers, false, &not_link, &is_file, &parse, &render, &mut host);
    assert_eq!(r, Err("User canceled.".to_string()));
    assert_eq!(kinds(&log), vec!["run", "stage", "run", "unstage"]);
    assert_eq!(log.borrow()[3], "unstage /tmp/s/yggdrasil.conf.json");
    let silent = |_: String, args: Vec<String>| {
        if args[1].contains("-normaliseconf") {
            ok("{\"IfName\":\"auto\"}")
        } else {
            ok("done\n")
        }
    };
    let mut host = Host::new(Fake { run: Box::new(silent), stage: Box::new(stage), ..fake(&log) });
    let r = apply_peers_admin("/etc/yggdrasil.conf", &peers, false, &not_link, &is_file, &parse, &render, &mut host);
    assert_eq!(r, Err("Admin apply completed, but backup path was not reported.".to_string()));
    let refused = |_: String| Err("No space left on device (os error 28)".to_string());
    let log = RefCell::new(Vec::new());
    let mut host = Host::new(Fake { run: Box::new(silent), stage: Box::new(refused), ..fake(&log) });
    let r = apply_peers_admin("/etc/yggdrasil.conf", &peers, false, &not_link, &is_file, &parse, &render, &mut host);
    assert_eq!(r, Err("No space left on device (os error 28)".to_string()));
    assert_eq!(kinds(&log), vec!["run", "stage"]);
}

#[test]
fn apply_peers_refuses_before_writing() {
    let log = RefCell::new(Vec::new());
    let is_file = |_: String| true;
    let apply = |path: &str, peers: Vec<&str>| {
        let peers: Vec<String> = peers.into_iter().map(|p| p.to_string()).collect();
        let mut host = Host::new(fake(&log));
        apply_peers_to_config(
            path, &peers, false, true, &vec![], &public_ip, &not_link, &no_canon, &is_file, &parse, &render, &mut host,
        )
        .map(|r| r.message)
    };
    assert_eq!(apply("/etc/yggdrasil.conf", vec![]), Err("Select at least one peer before applying config.".to_string()));
    assert_eq!(
        apply("/etc/yggdrasil.conf", vec!["tcp://10.0.0.1:1"]),
        Err("Refusing private, loopback, link-local, multicast, or unspecified peer target `10.0.0.1` from `tcp://10.0.0.1:1`".to_string())
    );
    assert_eq!(
        apply("/tmp/x.conf", vec!["tcp://8.8.8.8:1"]),
        Err("Refusing to modify unknown config path `/tmp/x.conf`. Use a standard Yggdrasil config location.".to_string())
    );
    assert!(log.borrow().is_empty());
}

#[test]
fn apply_peers_direct_then_restart() {
    let log = RefCell::new(Vec::new());
    let is_file = |p: String| p == "/usr/bin/yggdrasil";
    let run = |program: String, _: Vec<String>| {
        if program == "/bin/launchctl" {
            ok("")
        } else {
            ok("{\"IfName\":\"auto\"}")
        }
    };
    let copy = |_: String, _: String| Ok(());
    let write = |_: String, _: String| Ok(());
    let make = || Host::new(Fake { run: Box::new(run), copy: Box::new(copy), write: Box::new(write), ..fake(&log) });
    let peers = vec!["tcp://8.8.8.8:9001".to_string()];
    let mut host = make();
    let r = apply_peers_to_config(
        "/etc/yggdrasil.conf", &peers, false, true, &vec![], &public_ip, &not_link, &no_canon, &is_file, &parse,
        &render, &mut host,
    )
    .unwrap();
    assert_eq!(r.message, "Peers written; daemon restart requested.");
    assert!(r.backup_path.unwrap().starts_with("/etc/yggdrasil.conf.yggdre-backup."));
    assert_eq!(kinds(&log), vec!["run", "copy", "write", "run"]);
    assert_eq!(log.borrow()[3], "run /bin/launchctl kickstart -k system/yggdrasil");
    let mut host = make();
    let r = apply_peers_to_config(
        "/etc/yggdrasil.conf", &peers, false, false, &vec![], &public_ip, &not_link, &no_canon, &is_file, &parse,
        &render, &mut host,
    )
    .unwrap();
    assert_eq!(r.message, "Peers written.");
    assert_eq!(log.borrow().len(), 7);
}

#[test]
fn apply_peers_resolves_names_before_writing() {
    let log = RefCell::new(Vec::new());
    let is_file = |_: String| true;
    let resolve = |_: String, _: u16| Ok(vec![SocketAddress {
        ip: IpAddress { kind: IpKind::V4(10, 1, 2, 3), text: "10.1.2.3".to_string() },
        port: 1,
        flowinfo: 0,
        scope_id: 0,
    }]);
    let mut host = Host::new(Fake { resolve: Box::new(resolve), ..fake(&log) });
    let peers = vec!["tcp://peer.example.org:1".to_string()];
    let r = apply_peers_to_config(
        "/etc/yggdrasil.conf", &peers, false, false, &vec![], &public_ip, &not_link, &no_canon, &is_file, &parse,
        &render, &mut host,
    );
    assert!(r.is_err());
    assert_eq!(log.borrow().clone(), vec!["resolve peer.example.org:1"]);
}

#[test]
fn apply_peers_with_privileges_reports_backup() {
    let log = RefCell::new(Vec::new());
    let is_file = |_: String| true;
    let run = |_: String, args: Vec<String>| {
        if args[1].contains("-normaliseconf") {
            ok("{\"IfName\":\"auto\"}")
        } else {
            ok("/etc/yggdrasil.conf.yggdre-backup.42\n")
        }
    };
    let stage = |_: String| Ok("/tmp/s/c.json".to_string());
    let peers = vec!["tcp://8.8.8.8:9001".to_string()];
    for (restart, message) in [
        (false, "Peers written with admin privileges."),
        (true, "Peers written with admin privileges; daemon restart requested."),
    ] {
        let mut host = Host::new(Fake { run: Box::new(run), stage: Box::new(stage), ..fake(&log) });
        let r = apply_peers_to_config(
            "/etc/yggdrasil.conf", &peers, true, restart, &vec![], &public_ip, &not_link, &no_canon, &is_file,
            &parse, &render, &mut host,
        )
        .unwrap();
        assert_eq!(r.backup_path, Some("/etc/yggdrasil.conf.yggdre-backup.42".to_string()));
        assert_eq!(r.message, message);
    }
    assert_eq!(kinds(&log), vec!["run", "stage", "run", "unstage", "run", "stage", "run", "unstage"]);
}
