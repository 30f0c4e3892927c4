use std::cell::RefCell;

use yggdre::binaries::{binary_info, binary_version, command_version, find_binary, find_brew, find_fixed_binary, join_path_str};
use yggdre::command::Captured;
use yggdre::machine::{CreateFailure, Host, Machine};
use yggdre::net::SocketAddress;

/// A machine for tests: each action is answered by a closure and written to
/// `log`, in order.
struct Fake<'a> {
    log: &'a RefCell<Vec<String>>,
    run: Box<dyn Fn(String, Vec<String>) -> Result<Captured, String> + 'a>,
    copy: Box<dyn Fn(String, String) -> Result<(), String> + 'a>,
    write: Box<dyn Fn(String, String) -> Result<(), String> + 'a>,
    create: Box<dyn Fn(String, String) -> Result<(), CreateFailure> + 'a>,
    stage: Box<dyn Fn(String) -> Result<String, String> + 'a>,
    resolve: Box<dyn Fn(String, u16) -> Result<Vec<SocketAddress>, String> + 'a>,
    connect: Box<dyn Fn(SocketAddress) -> Result<u128, String> + 'a>,
}

/// A machine on which every action is unexpected.
fn fake(log: &RefCell<Vec<String>>) -> Fake<'_> {
    Fake {
        log,
        run: Box::new(|p, a| panic!("unexpected run of {p} {a:?}")),
        copy: Box::new(|f, t| panic!("unexpected copy of {f} to {t}")),
        write: Box::new(|p, _| panic!("unexpected write of {p}")),
        create: Box::new(|p, _| panic!("unexpected creation of {p}")),
        stage: Box::new(|_| panic!("unexpected staging")),
        resolve: Box::new(|h, p| panic!("unexpected lookup of {h}:{p}")),
        connect: Box::new(|a| panic!("unexpected connection to {}", a.ip.text)),
    }
}

impl Machine for Fake<'_> {
    fn run(&self, program: String, args: Vec<String>) -> Result<Captured, String> {
        self.log.borrow_mut().push(format!("run {} {}", program, args.join(" ")));
        (self.run)(program, args)
    }
    fn copy(&self, from: String, to: String) -> Result<(), String> {
        self.log.borrow_mut().push(format!("copy {from} {to}"));
        (self.copy)(from, to)
    }
    fn write(&self, path: String, contents: String) -> Result<(), String> {
        self.log.borrow_mut().push(format!("write {path}"));
        (self.write)(path, contents)
    }
    fn create(&self, path: String, contents: String) -> Result<(), CreateFailure> {
        self.log.borrow_mut().push(format!("create {path}"));
        (self.create)(path, contents)
    }
    fn stage(&self, contents: String) -> Result<String, String> {
        self.log.borrow_mut().push("stage".to_string());
        (self.stage)(contents)
    }
    fn unstage(&self, path: String) {
        self.log.borrow_mut().push(format!("unstage {path}"));
    }
    fn resolve(&self, host: String, port: u16) -> Result<Vec<SocketAddress>, String> {
        self.log.borrow_mut().push(format!("resolve {host}:{port}"));
        (self.resolve)(host, port)
    }
    fn connect(&self, address: SocketAddress) -> Result<u128, String> {
        self.log.borrow_mut().push(format!("connect {}:{}", address.ip.text, address.port));
        (self.connect)(address)
    }
}

/// The actions in `log` so far, each up to its first space.
fn kinds(log: &RefCell<Vec<String>>) -> Vec<String> {
    log.borrow().iter().map(|e| e.split(' ').next().unwrap_or("").to_string()).collect()
}

fn captured(success: bool, stdout: &str, stderr: &str) -> Captured {
    Captured { success, stdout: stdout.to_string(), stderr: stderr.to_string() }
}

#[test]
fn join_path_follows_path_buf() {
    assert_eq!(join_path_str("/usr/bin", "yggdrasil"), "/usr/bin/yggdrasil");
    assert_eq!(join_path_str("/usr/bin/", "yggdrasil"), "/usr/bin/yggdrasil");
    assert_eq!(join_path_str("", "yggdrasil"), "yggdrasil");
    assert_eq!(join_path_str("/usr/bin", "/abs/tool"), "/abs/tool");
}

#[test]
fn find_fixed_binary_asks_fixed_locations_in_order() {
    let asked = RefCell::new(Vec::new());
    let is_file = |p: String| {
        asked.borrow_mut().push(p.clone());
        p == "/usr/bin/yggdrasil"
    };
    assert_eq!(find_fixed_binary("yggdrasil", &is_file), Some("/usr/bin/yggdrasil".to_string()));
    assert_eq!(
        asked.borrow().clone(),
        vec!["/usr/local/bin/yggdrasil", "/opt/homebrew/bin/yggdrasil", "/usr/bin/yggdrasil"]
    );
    let none = |_: String| false;
    assert_eq!(find_fixed_binary("yggdrasil", &none), None);
}

#[test]
fn find_brew_prefers_apple_silicon_location() {
    let both = |_: String| true;
    assert_eq!(find_brew(&both), Some("/opt/homebrew/bin/brew".to_string()));
    let intel = |p: String| p == "/usr/local/bin/brew";
    assert_eq!(find_brew(&intel), Some("/usr/local/bin/brew".to_string()));
    let none = |_: String| false;
    assert_eq!(find_brew(&none), None);
}

#[test]
fn find_binary_searches_path_then_fixed_locations_once_each() {
    let asked = RefCell::new(Vec::new());
    let is_file = |p: String| {
        asked.borrow_mut().push(p.clone());
        p == "/bin/yggdrasil"
    };
    let path = vec!["/home/u/bin".to_string(), "/usr/bin".to_string(), "/home/u/bin/".to_string()];
    assert_eq!(find_binary("yggdrasil", &path, &is_file), Some("/bin/yggdrasil".to_string()));
    assert_eq!(
        asked.borrow().clone(),
        vec![
            "/home/u/bin/yggdrasil",
            "/usr/bin/yggdrasil",
            "/usr/local/bin/yggdrasil",
            "/opt/homebrew/bin/yggdrasil",
            "/bin/yggdrasil"
        ]
    );
}

#[test]
fn find_binary_prefers_path_entries() {
    let is_file = |p: String| p == "/custom/yggdrasil" || p == "/usr/local/bin/yggdrasil";
    let path = vec!["/custom".to_string()];
    assert_eq!(find_binary("yggdrasil", &path, &is_file), Some("/custom/yggdrasil".to_string()));
    let none = |_: String| false;
    assert_eq!(find_binary("yggdrasil", &vec![], &none), None);
}

#[test]
fn command_version_combines_and_trims_output() {
    let log = RefCell::new(Vec::new());
    let run = |_: String, _: Vec<String>| Ok(captured(true, "Build name: yggdrasil\n", "Build version: 0.5.12\n"));
    let mut host = Host::new(Fake { run: Box::new(run), ..fake(&log) });
    assert_eq!(
        command_version("/usr/bin/yggdrasil", "--version", &mut host),
        Some("Build name: yggdrasil\nBuild version: 0.5.12".to_string())
    );
    assert_eq!(log.borrow().clone(), vec!["run /usr/bin/yggdrasil --version"]);
    let silent = |_: String, _: Vec<String>| Ok(captured(false, " \n", ""));
    let mut host = Host::new(Fake { run: Box::new(silent), ..fake(&log) });
    assert_eq!(command_version("/usr/bin/yggdrasil", "--version", &mut host), None);
    let broken = |_: String, _: Vec<String>| Err("no such file".to_string());
    let mut host = Host::new(Fake { run: Box::new(broken), ..fake(&log) });
    assert_eq!(command_version("/usr/bin/yggdrasil", "--version", &mut host), None);
}

#[test]
fn binary_version_tries_usual_flag_then_other() {
    let log = RefCell::new(Vec::new());
    let run = |_: String, a: Vec<String>| {
        if a[0] == "--version" {
            Ok(captured(true, "0.5.12", ""))
        } else {
            Ok(captured(false, "", ""))
        }
    };
    let mut host = Host::new(Fake { run: Box::new(run), ..fake(&log) });
    assert_eq!(binary_version("/usr/bin/yggdrasilctl", "yggdrasilctl", &mut host), Some("0.5.12".to_string()));
    assert_eq!(
        log.borrow().clone(),
        vec!["run /usr/bin/yggdrasilctl -version", "run /usr/bin/yggdrasilctl --version"]
    );
    let log = RefCell::new(Vec::new());
    let run = |_: String, _: Vec<String>| Ok(captured(true, "v", ""));
    let mut host = Host::new(Fake { run: Box::new(run), ..fake(&log) });
    assert_eq!(binary_version("/usr/bin/yggdrasil", "yggdrasil", &mut host), Some("v".to_string()));
    assert_eq!(log.borrow().clone(), vec!["run /usr/bin/yggdrasil --version"]);
}

#[test]
fn binary_info_reports_path_and_version() {
    let log = RefCell::new(Vec::new());
    let is_file = |p: String| p == "/usr/local/bin/yggdrasil";
    let run = |_: String, _: Vec<String>| Ok(captured(true, "0.5.12\n", ""));
    let mut host = Host::new(Fake { run: Box::new(run), ..fake(&log) });
    let info = binary_info("yggdrasil", &vec![], &is_file, &mut host);
    assert_eq!(info.path, Some("/usr/local/bin/yggdrasil".to_string()));
    assert_eq!(info.version, Some("0.5.12".to_string()));
    assert_eq!(log.borrow().clone(), vec!["run /usr/local/bin/yggdrasil --version"]);
}

#[test]
fn binary_info_runs_nothing_when_not_found() {
    let log = RefCell::new(Vec::new());
    let none = |_: String| false;
    let mut host = Host::new(fake(&log));
    let info = binary_info("yggdrasil", &vec![], &none, &mut host);
    assert_eq!(info.path, None);
    assert_eq!(info.version, None);
    assert!(log.borrow().is_empty());
}
