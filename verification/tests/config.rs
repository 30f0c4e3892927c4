use std::cell::RefCell;

use yggdre::binaries::BinaryInfo;
use yggdre::config::{
    config_candidate_paths, config_candidates, ensure_known_config_path, ensure_known_config_path_for_setup, reject_symlink,
    same_components, same_path, ConfigCandidate, PathAccess,
};
use yggdre::environment::{detect_environment, environment_from};
use yggdre::command::Captured;
use yggdre::launchd::LaunchdStatus;
use yggdre::machine::{CreateFailure, Host, Machine};
use yggdre::net::SocketAddress;

/// A machine for tests: each action is answered by a closure and written to
/// `log`, in order.
struct Fake<'a> {
    log: &'a RefCell<Vec<String>>,
    run: Box<dyn Fn(String, Vec<String>) -> Result<Captured, String> + 'a>,
    copy: Box<dyn Fn(String, String) -> Result<(), String> + 'a>,
    write: Box<dyn Fn(String, String) -> Result<(), String> + 'a>,
    create: Box<dyn Fn(String, String) -> Result<(), CreateFailure> + 'a>,
    stage: Box<dyn Fn(String) -> Result<String, String> + 'a>,
    resolve: Box<dyn Fn(String, u16) -> Result<Vec<SocketAddress>, String> + 'a>,
    connect: Box<dyn Fn(SocketAddress) -> Result<u128, String> + 'a>,
}

/// A machine on which every action is unexpected.
fn fake(log: &RefCell<Vec<String>>) -> Fake<'_> {
    Fake {
        log,
        run: Box::new(|p, a| panic!("unexpected run of {p} {a:?}")),
        copy: Box::new(|f, t| panic!("unexpected copy of {f} to {t}")),
        write: Box::new(|p, _| panic!("unexpected write of {p}")),
        create: Box::new(|p, _| panic!("unexpected creation of {p}")),
        stage: Box::new(|_| panic!("unexpected staging")),
        resolve: Box::new(|h, p| panic!("unexpected lookup of {h}:{p}")),
        connect: Box::new(|a| panic!("unexpected connection to {}", a.ip.text)),
    }
}

impl Machine for Fake<'_> {
    fn run(&self, program: String, args: Vec<String>) -> Result<Captured, String> {
        self.log.borrow_mut().push(format!("run {} {}", program, args.join(" ")));
        (self.run)(program, args)
    }
    fn copy(&self, from: String, to: String) -> Result<(), String> {
        self.log.borrow_mut().push(format!("copy {from} {to}"));
        (self.copy)(from, to)
    }
    fn write(&self, path: String, contents: String) -> Result<(), String> {
        self.log.borrow_mut().push(format!("write {path}"));
        (self.write)(path, contents)
    }
    fn create(&self, path: String, contents: String) -> Result<(), CreateFailure> {
        self.log.borrow_mut().push(format!("create {path}"));
        (self.create)(path, contents)
    }
    fn stage(&self, contents: String) -> Result<String, String> {
        self.log.borrow_mut().push("stage".to_string());
        (self.stage)(contents)
    }
    fn unstage(&self, path: String) {
        self.log.borrow_mut().push(format!("unstage {path}"));
    }
    fn resolve(&self, host: String, port: u16) -> Result<Vec<SocketAddress>, String> {
        self.log.borrow_mut().push(format!("resolve {host}:{port}"));
        (self.resolve)(host, port)
    }
    fn connect(&self, address: SocketAddress) -> Result<u128, String> {
        self.log.borrow_mut().push(format!("connect {}:{}", address.ip.text, address.port));
        (self.connect)(address)
    }
}

/// The actions in `log` so far, each up to its first space.
fn kinds(log: &RefCell<Vec<String>>) -> Vec<String> {
    log.borrow().iter().map(|e| e.split(' ').next().unwrap_or("").to_string()).collect()
}

fn no_canon(_: String) -> Option<String> {
    None
}

fn not_link(_: String) -> Result<bool, String> {
    Ok(false)
}

#[test]
fn standard_locations_in_order() {
    assert_eq!(
        config_candidate_paths(),
        vec![
            "/etc/yggdrasil.conf",
            "/etc/yggdrasil/yggdrasil.conf",
            "/usr/local/etc/yggdrasil.conf",
            "/opt/homebrew/etc/yggdrasil.conf"
        ]
    );
}

#[test]
fn same_components_ignores_redundant_separators() {
    assert!(same_components("/etc//yggdrasil.conf", "/etc/yggdrasil.conf"));
    assert!(same_components("/etc/./yggdrasil.conf", "/etc/yggdrasil.conf"));
    assert!(same_components("/etc/yggdrasil.conf/", "/etc/yggdrasil.conf"));
    assert!(!same_components("/etc/../etc/yggdrasil.conf", "/etc/yggdrasil.conf"));
    assert!(!same_components("etc/yggdrasil.conf", "/etc/yggdrasil.conf"));
}

#[test]
fn same_path_uses_canonical_forms() {
    assert!(same_path("/etc/yggdrasil.conf", "/etc/yggdrasil.conf", &no_canon));
    let canon = |p: String| {
        if p == "/private/etc/yggdrasil.conf" || p == "/etc/yggdrasil.conf" {
            Some("/private/etc/yggdrasil.conf".to_string())
        } else {
            None
        }
    };
    assert!(same_path("/private/etc/yggdrasil.conf", "/etc/yggdrasil.conf", &canon));
    assert!(!same_path("/tmp/other.conf", "/etc/yggdrasil.conf", &canon));
}

#[test]
fn reject_symlink_cases() {
    assert_eq!(reject_symlink("/etc/yggdrasil.conf", &not_link), Ok(()));
    let link = |_: String| Ok(true);
    assert_eq!(
        reject_symlink("/etc/yggdrasil.conf", &link),
        Err("Refusing to modify symlinked config path `/etc/yggdrasil.conf`".to_string())
    );
    let missing = |_: String| Err("No such file or directory (os error 2)".to_string());
    assert_eq!(
        reject_symlink("/etc/yggdrasil.conf", &missing),
        Err("Could not inspect config path `/etc/yggdrasil.conf`: No such file or directory (os error 2)".to_string())
    );
}

#[test]
fn ensure_known_config_path_cases() {
    assert_eq!(ensure_known_config_path("/etc/yggdrasil.conf", &not_link, &no_canon), Ok(()));
    assert_eq!(ensure_known_config_path("/opt/homebrew/etc/yggdrasil.conf", &not_link, &no_canon), Ok(()));
    assert_eq!(
        ensure_known_config_path("etc/yggdrasil.conf", &not_link, &no_canon),
        Err("Config path must be absolute: `etc/yggdrasil.conf`".to_string())
    );
    assert_eq!(
        ensure_known_config_path("/tmp/evil.conf", &not_link, &no_canon),
        Err("Refusing to modify unknown config path `/tmp/evil.conf`. Use a standard Yggdrasil config location.".to_string())
    );
    let link = |_: String| Ok(true);
    assert_eq!(
        ensure_known_config_path("/etc/yggdrasil.conf", &link, &no_canon),
        Err("Refusing to modify symlinked config path `/etc/yggdrasil.conf`".to_string())
    );
}

#[test]
fn ensure_known_config_path_for_setup_cases() {
    let absent = |_: String| false;
    assert_eq!(
        ensure_known_config_path_for_setup("/usr/local/etc/yggdrasil.conf", &absent, &not_link, &no_canon),
        Ok(())
    );
    assert_eq!(
        ensure_known_config_path_for_setup("/tmp/new.conf", &absent, &not_link, &no_canon),
        Err("Refusing to create unknown config path `/tmp/new.conf`. Use a standard Yggdrasil config location.".to_string())
    );
    assert_eq!(
        ensure_known_config_path_for_setup("relative.conf", &absent, &not_link, &no_canon),
        Err("Config path must be absolute: `relative.conf`".to_string())
    );
    let present = |_: String| true;
    assert_eq!(
        ensure_known_config_path_for_setup("/tmp/new.conf", &present, &not_link, &no_canon),
        Err("Refusing to modify unknown config path `/tmp/new.conf`. Use a standard Yggdrasil config location.".to_string())
    );
}

fn candidate(path: &str, exists: bool, readable: bool) -> ConfigCandidate {
    ConfigCandidate { path: path.to_string(), exists, readable, writable: false, parent_writable: false }
}

fn info(path: Option<&str>) -> BinaryInfo {
    BinaryInfo { path: path.map(|p| p.to_string()), version: None }
}

fn launchd(found: bool) -> LaunchdStatus {
    LaunchdStatus { label: "yggdrasil".to_string(), found, state: None, pid: None, path: None }
}

#[test]
fn detect_environment_chooses_existing_config_and_notes() {
    let env = environment_from(
        "macos".to_string(),
        "aarch64".to_string(),
        info(None),
        info(Some("/usr/local/bin/yggdrasilctl")),
        vec![
            candidate("/etc/yggdrasil.conf", false, false),
            candidate("/usr/local/etc/yggdrasil.conf", true, false),
            candidate("/opt/homebrew/etc/yggdrasil.conf", true, true),
        ],
        true,
        launchd(false),
    );
    assert_eq!(env.config_path, Some("/usr/local/etc/yggdrasil.conf".to_string()));
    assert_eq!(
        env.notes,
        vec![
            "yggdrasil binary not found in PATH or Homebrew locations.",
            "Config exists but is protected by macOS permissions. Enable admin prompt for apply/read actions.",
            "Yggdrasil process is running, but launchd label system/yggdrasil was not found."
        ]
    );
    assert_eq!(env.os, "macos");
    assert!(env.process_running);
}

#[test]
fn detect_environment_falls_back_to_first_candidate() {
    let env = environment_from(
        "macos".to_string(),
        "x86_64".to_string(),
        info(Some("/usr/local/bin/yggdrasil")),
        info(None),
        vec![candidate("/etc/yggdrasil.conf", false, false), candidate("/usr/local/etc/yggdrasil.conf", false, false)],
        false,
        launchd(false),
    );
    assert_eq!(env.config_path, Some("/etc/yggdrasil.conf".to_string()));
    assert_eq!(env.notes, vec!["yggdrasilctl binary not found; node inspection will be limited."]);
    let env = environment_from(
        "macos".to_string(),
        "x86_64".to_string(),
        info(Some("/a")),
        info(Some("/b")),
        vec![],
        true,
        launchd(true),
    );
    assert_eq!(env.config_path, None);
    assert!(env.notes.is_empty());
}

fn access(path: String) -> PathAccess {
    let here = path == "/opt/homebrew/etc/yggdrasil.conf";
    PathAccess { exists: here, readable: here, writable: false, parent_writable: path.starts_with("/opt") }
}

#[test]
fn config_candidates_describe_standard_locations() {
    let cands = config_candidates(&access);
    let paths: Vec<&str> = cands.iter().map(|c| c.path.as_str()).collect();
    assert_eq!(paths, config_candidate_paths());
    assert!(cands[3].exists && cands[3].readable && cands[3].parent_writable);
    assert!(!cands[0].exists && !cands[0].parent_writable);
}

#[test]
fn detect_environment_looks_at_the_machine() {
    let log = RefCell::new(Vec::new());
    let is_file = |p: String| p == "/opt/homebrew/bin/yggdrasil" || p == "/opt/homebrew/bin/yggdrasilctl";
    let run = |program: String, _: Vec<String>| {
        if program == "/bin/launchctl" {
            Ok(Captured { success: false, stdout: String::new(), stderr: "not found".to_string() })
        } else {
            Ok(Captured { success: true, stdout: "0.5.12".to_string(), stderr: String::new() })
        }
    };
    let running = || true;
    let mut host = Host::new(Fake { run: Box::new(run), ..fake(&log) });
    let env = detect_environment(
        "macos".to_string(),
        "aarch64".to_string(),
        &vec![],
        &is_file,
        &access,
        &running,
        &mut host,
    );
    assert_eq!(
        log.borrow().clone(),
        vec![
            "run /opt/homebrew/bin/yggdrasil --version",
            "run /opt/homebrew/bin/yggdrasilctl -version",
            "run /bin/launchctl print system/yggdrasil",
        ]
    );
    assert_eq!(env.yggdrasil.path, Some("/opt/homebrew/bin/yggdrasil".to_string()));
    assert_eq!(env.yggdrasilctl.version, Some("0.5.12".to_string()));
    assert_eq!(env.config_path, Some("/opt/homebrew/etc/yggdrasil.conf".to_string()));
    assert!(env.process_running);
    assert!(!env.launchd.found);
    assert_eq!(
        env.notes,
        vec!["Yggdrasil process is running, but launchd label system/yggdrasil was not found."]
    );
}
