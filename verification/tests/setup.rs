use std::cell::RefCell;

use yggdre::command::Captured;
use yggdre::machine::{CreateFailure, Host, Machine};
use yggdre::net::SocketAddress;
use yggdre::setup::{
    create_default_config, install_launchd_service, install_yggdrasil_with_brew, open_config_location,
    restart_yggdrasil,
};

/// A machine for tests: each action is answered by a closure and written to
/// `log`, in order.
struct Fake<'a> {
    log: &'a RefCell<Vec<String>>,
    run: Box<dyn Fn(String, Vec<String>) -> Result<Captured, String> + 'a>,
    copy: Box<dyn Fn(String, String) -> Result<(), String> + 'a>,
    write: Box<dyn Fn(String, String) -> Result<(), String> + 'a>,
    create: Box<dyn Fn(String, String) -> Result<(), CreateFailure> + 'a>,
    stage: Box<dyn Fn(String) -> Result<String, String> + 'a>,
    resolve: Box<dyn Fn(String, u16) -> Result<Vec<SocketAddress>, String> + 'a>,
    connect: Box<dyn Fn(SocketAddress) -> Result<u128, String> + 'a>,
}

/// A machine on which every action is unexpected.
fn fake(log: &RefCell<Vec<String>>) -> Fake<'_> {
    Fake {
        log,
        run: Box::new(|p, a| panic!("unexpected run of {p} {a:?}")),
        copy: Box::new(|f, t| panic!("unexpected copy of {f} to {t}")),
        write: Box::new(|p, _| panic!("unexpected write of {p}")),
        create: Box::new(|p, _| panic!("unexpected creation of {p}")),
        stage: Box::new(|_| panic!("unexpected staging")),
        resolve: Box::new(|h, p| panic!("unexpected lookup of {h}:{p}")),
        connect: Box::new(|a| panic!("unexpected connection to {}", a.ip.text)),
    }
}

impl Machine for Fake<'_> {
    fn run(&self, program: String, args: Vec<String>) -> Result<Captured, String> {
        self.log.borrow_mut().push(format!("run {} {}", program, args.join(" ")));
        (self.run)(program, args)
    }
    fn copy(&self, from: String, to: String) -> Result<(), String> {
        self.log.borrow_mut().push(format!("copy {from} {to}"));
        (self.copy)(from, to)
    }
    fn write(&self, path: String, contents: String) -> Result<(), String> {
        self.log.borrow_mut().push(format!("write {path}"));
        (self.write)(path, contents)
    }
    fn create(&self, path: String, contents: String) -> Result<(), CreateFailure> {
        self.log.borrow_mut().push(format!("create {path}"));
        (self.create)(path, contents)
    }
    fn stage(&self, contents: String) -> Result<String, String> {
        self.log.borrow_mut().push("stage".to_string());
        (self.stage)(contents)
    }
    fn unstage(&self, path: String) {
        self.log.borrow_mut().push(format!("unstage {path}"));
    }
    fn resolve(&self, host: String, port: u16) -> Result<Vec<SocketAddress>, String> {
        self.log.borrow_mut().push(format!("resolve {host}:{port}"));
        (self.resolve)(host, port)
    }
    fn connect(&self, address: SocketAddress) -> Result<u128, String> {
        self.log.borrow_mut().push(format!("connect {}:{}", address.ip.text, address.port));
        (self.connect)(address)
    }
}

/// The actions in `log` so far, each up to its first space.
fn kinds(log: &RefCell<Vec<String>>) -> Vec<String> {
    log.borrow().iter().map(|e| e.split(' ').next().unwrap_or("").to_string()).collect()
}

fn ok(stdout: &str) -> Result<Captured, String> {
    Ok(Captured { success: true, stdout: stdout.to_string(), stderr: String::new() })
}

fn failed(stderr: &str) -> Result<Captured, String> {
    Ok(Captured { success: false, stdout: String::new(), stderr: stderr.to_string() })
}

fn not_link(_: String) -> Result<bool, String> {
    Ok(false)
}

fn no_canon(_: String) -> Option<String> {
    None
}

#[test]
fn restart_with_and_without_privileges() {
    let log = RefCell::new(Vec::new());
    let run = |_: String, _: Vec<String>| ok("");
    let mut host = Host::new(Fake { run: Box::new(run), ..fake(&log) });
    let r = restart_yggdrasil(true, &mut host).unwrap();
    assert_eq!(r.message, "Yggdrasil restart requested through launchd.");
    assert_eq!(r.backup_path, None);
    restart_yggdrasil(false, &mut host).unwrap();
    assert_eq!(log.borrow().len(), 2);
    assert!(log.borrow()[0].starts_with("run /usr/bin/osascript -e "));
    assert_eq!(log.borrow()[1], "run /bin/launchctl kickstart -k system/yggdrasil");
    let denied = |_: String, _: Vec<String>| failed("not permitted");
    let mut host = Host::new(Fake { run: Box::new(denied), ..fake(&log) });
    assert_eq!(restart_yggdrasil(false, &mut host).map(|r| r.message), Err("not permitted".to_string()));
}

#[test]
fn brew_install_skips_installed_yggdrasil() {
    let log = RefCell::new(Vec::new());
    let is_file = |p: String| p == "/usr/local/bin/yggdrasil";
    let mut host = Host::new(fake(&log));
    let r = install_yggdrasil_with_brew(&vec![], &is_file, &mut host).unwrap();
    assert_eq!(r.message, "Yggdrasil already installed at /usr/local/bin/yggdrasil.");
    assert!(log.borrow().is_empty());
}

#[test]
fn brew_install_runs_homebrew() {
    let log = RefCell::new(Vec::new());
    let is_file = |p: String| p == "/opt/homebrew/bin/brew";
    let run = |_: String, _: Vec<String>| ok("");
    let mut host = Host::new(Fake { run: Box::new(run), ..fake(&log) });
    let r = install_yggdrasil_with_brew(&vec![], &is_file, &mut host).unwrap();
    assert_eq!(r.message, "Yggdrasil installed with Homebrew.");
    assert_eq!(log.borrow().clone(), vec!["run /opt/homebrew/bin/brew install yggdrasil"]);
    let failing = |_: String, _: Vec<String>| failed("Error: No available formula");
    let mut host = Host::new(Fake { run: Box::new(failing), ..fake(&log) });
    assert_eq!(
        install_yggdrasil_with_brew(&vec![], &is_file, &mut host).map(|r| r.message),
        Err("Error: No available formula".to_string())
    );
    let nothing = |_: String| false;
    let log = RefCell::new(Vec::new());
    let mut host = Host::new(fake(&log));
    assert_eq!(
        install_yggdrasil_with_brew(&vec![], &nothing, &mut host).map(|r| r.message),
        Err("Homebrew not found. Install Yggdrasil from https://github.com/yggdrasil-network/yggdrasil-go/releases/latest or install Homebrew first.".to_string())
    );
    assert!(log.borrow().is_empty());
}

#[test]
fn create_config_without_privileges() {
    let log = RefCell::new(Vec::new());
    let created = RefCell::new(Vec::new());
    let absent = |_: String| false;
    let is_file = |p: String| p == "/usr/local/bin/yggdrasil";
    let run = |_: String, _: Vec<String>| ok("{\"Peers\":[]}\n");
    let create = |path: String, contents: String| {
        created.borrow_mut().push((path, contents));
        Ok(())
    };
    let mut host = Host::new(Fake { run: Box::new(run), create: Box::new(create), ..fake(&log) });
    let r = create_default_config(
        "/usr/local/etc/yggdrasil.conf", false, &vec![], &absent, &not_link, &no_canon, &is_file, &mut host,
    )
    .unwrap();
    assert_eq!(r.message, "Created config: /usr/local/etc/yggdrasil.conf");
    assert_eq!(
        created.borrow().clone(),
        vec![("/usr/local/etc/yggdrasil.conf".to_string(), "{\"Peers\":[]}\n".to_string())]
    );
    assert_eq!(
        log.borrow().clone(),
        vec!["run /usr/local/bin/yggdrasil -genconf", "create /usr/local/etc/yggdrasil.conf"]
    );
}

#[test]
fn create_config_failures() {
    let log = RefCell::new(Vec::new());
    let absent = |_: String| false;
    let is_file = |_: String| true;
    let run = |_: String, _: Vec<String>| ok("{}");
    let taken = |_: String, _: String| Err(CreateFailure::Create("File exists (os error 17)".to_string()));
    let mut host = Host::new(Fake { run: Box::new(run), create: Box::new(taken), ..fake(&log) });
    assert_eq!(
        create_default_config("/etc/yggdrasil.conf", false, &vec![], &absent, &not_link, &no_canon, &is_file, &mut host)
            .map(|r| r.message),
        Err("Could not create config `/etc/yggdrasil.conf`: File exists (os error 17)".to_string())
    );
    let full = |_: String, _: String| Err(CreateFailure::Write("No space left on device".to_string()));
    let mut host = Host::new(Fake { run: Box::new(run), create: Box::new(full), ..fake(&log) });
    assert_eq!(
        create_default_config("/etc/yggdrasil.conf", false, &vec![], &absent, &not_link, &no_canon, &is_file, &mut host)
            .map(|r| r.message),
        Err("Could not write config `/etc/yggdrasil.conf`: No space left on device".to_string())
    );
    let failing = |_: String, _: Vec<String>| failed("genconf failed");
    let log = RefCell::new(Vec::new());
    let mut host = Host::new(Fake { run: Box::new(failing), ..fake(&log) });
    assert_eq!(
        create_default_config("/etc/yggdrasil.conf", false, &vec![], &absent, &not_link, &no_canon, &is_file, &mut host)
            .map(|r| r.message),
        Err("genconf failed".to_string())
    );
    assert_eq!(kinds(&log), vec!["run"]);
    let log = RefCell::new(Vec::new());
    let mut host = Host::new(fake(&log));
    assert_eq!(
        create_default_config("/tmp/c.conf", false, &vec![], &absent, &not_link, &no_canon, &is_file, &mut host)
            .map(|r| r.message),
        Err("Refusing to create unknown config path `/tmp/c.conf`. Use a standard Yggdrasil config location.".to_string())
    );
    let present = |_: String| true;
    assert_eq!(
        create_default_config("/etc/yggdrasil.conf", false, &vec![], &present, &not_link, &no_canon, &is_file, &mut host)
            .map(|r| r.message),
        Ok("Config already exists: /etc/yggdrasil.conf".to_string())
    );
    let none = |_: String| false;
    assert_eq!(
        create_default_config("/etc/yggdrasil.conf", false, &vec![], &absent, &not_link, &no_canon, &none, &mut host)
            .map(|r| r.message),
        Err("yggdrasil binary not found".to_string())
    );
    assert!(log.borrow().is_empty());
}

#[test]
fn create_config_with_privileges() {
    let log = RefCell::new(Vec::new());
    let absent = |_: String| false;
    let is_file = |p: String| p == "/usr/local/bin/yggdrasil";
    let run = |program: String, args: Vec<String>| {
        assert_eq!(program, "/usr/bin/osascript");
        assert!(args[1].contains("umask 077"));
        assert!(args[1].contains(" -genconf > "));
        ok("Created config: /etc/yggdrasil.conf\n")
    };
    let mut host = Host::new(Fake { run: Box::new(run), ..fake(&log) });
    let r = create_default_config("/etc/yggdrasil.conf", true, &vec![], &absent, &not_link, &no_canon, &is_file, &mut host)
        .unwrap();
    assert_eq!(r.message, "Created config: /etc/yggdrasil.conf");
    assert_eq!(kinds(&log), vec!["run"]);
}

#[test]
fn launchd_service_needs_privileges_and_fixed_binary() {
    let log = RefCell::new(Vec::new());
    let is_file = |p: String| p == "/usr/local/bin/yggdrasil";
    let run = |_: String, args: Vec<String>| {
        assert!(args[1].contains("/Library/LaunchDaemons/yggdrasil.plist"));
        assert!(args[1].contains("/bin/launchctl bootstrap system"));
        ok("Installed launchd daemon: /Library/LaunchDaemons/yggdrasil.plist\n")
    };
    let mut host = Host::new(Fake { run: Box::new(run), ..fake(&log) });
    let r = install_launchd_service("/etc/yggdrasil.conf", true, &not_link, &no_canon, &is_file, &mut host).unwrap();
    assert_eq!(r.message, "Installed launchd daemon: /Library/LaunchDaemons/yggdrasil.plist");
    assert_eq!(kinds(&log), vec!["run"]);
    let log = RefCell::new(Vec::new());
    let mut host = Host::new(fake(&log));
    assert_eq!(
        install_launchd_service("/etc/yggdrasil.conf", false, &not_link, &no_canon, &is_file, &mut host).map(|r| r.message),
        Err("Installing a LaunchDaemon requires macOS admin privileges.".to_string())
    );
    let none = |_: String| false;
    assert_eq!(
        install_launchd_service("/etc/yggdrasil.conf", true, &not_link, &no_canon, &none, &mut host).map(|r| r.message),
        Err("yggdrasil binary not found in fixed system/Homebrew locations".to_string())
    );
    assert_eq!(
        install_launchd_service("/tmp/x.conf", true, &not_link, &no_canon, &is_file, &mut host).map(|r| r.message),
        Err("Refusing to modify unknown config path `/tmp/x.conf`. Use a standard Yggdrasil config location.".to_string())
    );
    assert!(log.borrow().is_empty());
}

#[test]
fn open_config_location_reveals_existing_files() {
    let log = RefCell::new(Vec::new());
    let present = |_: String| true;
    let run = |_: String, _: Vec<String>| ok("");
    let mut host = Host::new(Fake { run: Box::new(run), ..fake(&log) });
    let r = open_config_location("/etc/yggdrasil.conf", &present, &mut host).unwrap();
    assert_eq!(r.message, "Revealed /etc/yggdrasil.conf in Finder.");
    assert_eq!(log.borrow().clone(), vec!["run /usr/bin/open -R /etc/yggdrasil.conf"]);
    let absent = |_: String| false;
    assert_eq!(
        open_config_location("/etc/nothing.conf", &absent, &mut host).map(|r| r.message),
        Err("Config path does not exist: /etc/nothing.conf".to_string())
    );
    assert_eq!(log.borrow().len(), 1);
}
