use std::cell::RefCell;

use yggdre::command::{
    join_output, restart_direct, run_privileged_shell, run_yggdrasilctl_pair, run_yggdrasilctl_pair_admin,
    Captured,
};
use yggdre::launchd::{launchd_plist, launchd_status, parse_launchd_string};
use yggdre::machine::{CreateFailure, Host, Machine};
use yggdre::net::SocketAddress;

/// A machine for tests: each action is answered by a closure and written to
/// `log`, in order.
struct Fake<'a> {
    log: &'a RefCell<Vec<String>>,
    run: Box<dyn Fn(String, Vec<String>) -> Result<Captured, String> + 'a>,
    copy: Box<dyn Fn(String, String) -> Result<(), String> + 'a>,
    write: Box<dyn Fn(String, String) -> Result<(), String> + 'a>,
    create: Box<dyn Fn(String, String) -> Result<(), CreateFailure> + 'a>,
    stage: Box<dyn Fn(String) -> Result<String, String> + 'a>,
    resolve: Box<dyn Fn(String, u16) -> Result<Vec<SocketAddress>, String> + 'a>,
    connect: Box<dyn Fn(SocketAddress) -> Result<u128, String> + 'a>,
}

/// A machine on which every action is unexpected.
fn fake(log: &RefCell<Vec<String>>) -> Fake<'_> {
    Fake {
        log,
        run: Box::new(|p, a| panic!("unexpected run of {p} {a:?}")),
        copy: Box::new(|f, t| panic!("unexpected copy of {f} to {t}")),
        write: Box::new(|p, _| panic!("unexpected write of {p}")),
        create: Box::new(|p, _| panic!("unexpected creation of {p}")),
        stage: Box::new(|_| panic!("unexpected staging")),
        resolve: Box::new(|h, p| panic!("unexpected lookup of {h}:{p}")),
        connect: Box::new(|a| panic!("unexpected connection to {}", a.ip.text)),
    }
}

impl Machine for Fake<'_> {
    fn run(&self, program: String, args: Vec<String>) -> Result<Captured, String> {
        self.log.borrow_mut().push(format!("run {} {}", program, args.join(" ")));
        (self.run)(program, args)
    }
    fn copy(&self, from: String, to: String) -> Result<(), String> {
        self.log.borrow_mut().push(format!("copy {from} {to}"));
        (self.copy)(from, to)
    }
    fn write(&self, path: String, contents: String) -> Result<(), String> {
        self.log.borrow_mut().push(format!("write {path}"));
        (self.write)(path, contents)
    }
    fn create(&self, path: String, contents: String) -> Result<(), CreateFailure> {
        self.log.borrow_mut().push(format!("create {path}"));
        (self.create)(path, contents)
    }
    fn stage(&self, contents: String) -> Result<String, String> {
        self.log.borrow_mut().push("stage".to_string());
        (self.stage)(contents)
    }
    fn unstage(&self, path: String) {
        self.log.borrow_mut().push(format!("unstage {path}"));
    }
    fn resolve(&self, host: String, port: u16) -> Result<Vec<SocketAddress>, String> {
        self.log.borrow_mut().push(format!("resolve {host}:{port}"));
        (self.resolve)(host, port)
    }
    fn connect(&self, address: SocketAddress) -> Result<u128, String> {
        self.log.borrow_mut().push(format!("connect {}:{}", address.ip.text, address.port));
        (self.connect)(address)
    }
}

/// The actions in `log` so far, each up to its first space.
fn kinds(log: &RefCell<Vec<String>>) -> Vec<String> {
    log.borrow().iter().map(|e| e.split(' ').next().unwrap_or("").to_string()).collect()
}

fn captured(success: bool, stdout: &str, stderr: &str) -> Captured {
    Captured { success, stdout: stdout.to_string(), stderr: stderr.to_string() }
}

#[test]
fn join_output_cases() {
    assert_eq!(join_output(captured(false, "  ", "\n")), "Command failed without output.");
    assert_eq!(join_output(captured(false, " out \n", "")), "out");
    assert_eq!(join_output(captured(false, "", " err ")), "err");
    assert_eq!(join_output(captured(false, "out\n", "\nerr")), "out\nerr");
}

#[test]
fn privileged_shell_wraps_script_for_osascript() {
    let log = RefCell::new(Vec::new());
    let calls = RefCell::new(Vec::new());
    let run = |program: String, args: Vec<String>| {
        calls.borrow_mut().push((program, args));
        Ok(captured(true, "done\n", ""))
    };
    let mut host = Host::new(Fake { run: Box::new(run), ..fake(&log) });
    let out = run_privileged_shell("echo 'hi'", &mut host);
    assert_eq!(out, Ok("done\n".to_string()));
    let calls = calls.borrow().clone();
    assert_eq!(calls.len(), 1);
    assert_eq!(calls[0].0, "/usr/bin/osascript");
    assert_eq!(
        calls[0].1,
        vec![
            "-e".to_string(),
            "do shell script \"/bin/sh -c 'set -eu; echo '\\\\''hi'\\\\'''\" with administrator privileges"
                .to_string()
        ]
    );
}

#[test]
fn privileged_shell_reports_failures() {
    let log = RefCell::new(Vec::new());
    let failing = |_: String, _: Vec<String>| Ok(captured(false, "", "User canceled."));
    let mut host = Host::new(Fake { run: Box::new(failing), ..fake(&log) });
    assert_eq!(run_privileged_shell("true", &mut host), Err("User canceled.".to_string()));
    let unstartable = |_: String, _: Vec<String>| Err("Could not run `/usr/bin/osascript`: gone".to_string());
    let mut host = Host::new(Fake { run: Box::new(unstartable), ..fake(&log) });
    assert_eq!(
        run_privileged_shell("true", &mut host),
        Err("Could not run `/usr/bin/osascript`: gone".to_string())
    );
    assert_eq!(kinds(&log), vec!["run", "run"]);
}

#[test]
fn restart_direct_kickstarts_the_daemon() {
    let log = RefCell::new(Vec::new());
    let run = |_: String, _: Vec<String>| Ok(captured(true, "", ""));
    let mut host = Host::new(Fake { run: Box::new(run), ..fake(&log) });
    assert_eq!(restart_direct(&mut host), Ok(()));
    assert_eq!(log.borrow().clone(), vec!["run /bin/launchctl kickstart -k system/yggdrasil"]);
    let denied = |_: String, _: Vec<String>| Ok(captured(false, "", "Operation not permitted"));
    let mut host = Host::new(Fake { run: Box::new(denied), ..fake(&log) });
    assert_eq!(restart_direct(&mut host), Err("Operation not permitted".to_string()));
}

#[test]
fn ctl_pair_asks_self_then_peers() {
    let log = RefCell::new(Vec::new());
    let run = |_: String, args: Vec<String>| {
        let answer = if args[1] == "getSelf" { "{\"self\":1}" } else { "{\"peers\":[]}" };
        Ok(captured(true, answer, ""))
    };
    let mut host = Host::new(Fake { run: Box::new(run), ..fake(&log) });
    let pair = run_yggdrasilctl_pair("/usr/local/bin/yggdrasilctl", &mut host);
    assert_eq!(pair, Ok(("{\"self\":1}".to_string(), "{\"peers\":[]}".to_string())));
    assert_eq!(
        log.borrow().clone(),
        vec!["run /usr/local/bin/yggdrasilctl -json getSelf", "run /usr/local/bin/yggdrasilctl -json getPeers"]
    );
}

#[test]
fn ctl_pair_stops_at_first_failure() {
    let log = RefCell::new(Vec::new());
    let run = |_: String, _: Vec<String>| Ok(captured(false, "", "connection refused"));
    let mut host = Host::new(Fake { run: Box::new(run), ..fake(&log) });
    assert_eq!(run_yggdrasilctl_pair("/usr/bin/yggdrasilctl", &mut host), Err("connection refused".to_string()));
    assert_eq!(log.borrow().clone(), vec!["run /usr/bin/yggdrasilctl -json getSelf"]);
}

#[test]
fn ctl_pair_reports_failed_peers_request() {
    let log = RefCell::new(Vec::new());
    let run = |_: String, args: Vec<String>| {
        if args[1] == "getSelf" {
            Ok(captured(true, "{}", ""))
        } else {
            Ok(captured(false, "", "peers unavailable"))
        }
    };
    let mut host = Host::new(Fake { run: Box::new(run), ..fake(&log) });
    assert_eq!(run_yggdrasilctl_pair("/usr/bin/yggdrasilctl", &mut host), Err("peers unavailable".to_string()));
    assert_eq!(log.borrow().len(), 2);
}

#[test]
fn ctl_pair_admin_splits_output() {
    let log = RefCell::new(Vec::new());
    let scripts = RefCell::new(Vec::new());
    let run = |_: String, args: Vec<String>| {
        scripts.borrow_mut().push(args[1].clone());
        Ok(captured(true, "{\"a\":1}\r\n__YGGDRE_SPLIT__\r\n{\"b\":2}\r\n", ""))
    };
    let mut host = Host::new(Fake { run: Box::new(run), ..fake(&log) });
    let pair = run_yggdrasilctl_pair_admin("/opt/homebrew/bin/yggdrasilctl", &mut host);
    assert_eq!(pair, Ok(("{\"a\":1}".to_string(), "{\"b\":2}".to_string())));
    let script = &scripts.borrow().clone()[0];
    assert!(script.contains("-json getSelf"));
    assert!(script.contains("-json getPeers"));
    let no_split = |_: String, _: Vec<String>| Ok(captured(true, "{}", ""));
    let mut host = Host::new(Fake { run: Box::new(no_split), ..fake(&log) });
    assert_eq!(
        run_yggdrasilctl_pair_admin("/usr/bin/yggdrasilctl", &mut host),
        Err("Admin yggdrasilctl output did not contain expected separator.".to_string())
    );
    assert_eq!(kinds(&log), vec!["run", "run"]);
}

#[test]
fn parse_launchd_string_finds_first_matching_line() {
    let source = "system/yggdrasil = {\n\tactive count = 1\n\tpath = /Library/LaunchDaemons/yggdrasil.plist\n\tstate = running\n\tpid = 4242\n\tstate = later\n}";
    assert_eq!(parse_launchd_string(source, "state = "), Some("running".to_string()));
    assert_eq!(
        parse_launchd_string(source, "path = "),
        Some("/Library/LaunchDaemons/yggdrasil.plist".to_string())
    );
    assert_eq!(parse_launchd_string(source, "pid = "), Some("4242".to_string()));
    assert_eq!(parse_launchd_string(source, "missing = "), None);
    assert_eq!(parse_launchd_string("", "state = "), None);
}

#[test]
fn launchd_status_reads_state_pid_and_path() {
    let log = RefCell::new(Vec::new());
    let run = |_: String, _: Vec<String>| {
        Ok(captured(true, "\tstate = running\n\tpid = 77\n\tpath = /Library/LaunchDaemons/yggdrasil.plist\n", ""))
    };
    let mut host = Host::new(Fake { run: Box::new(run), ..fake(&log) });
    let status = launchd_status(&mut host);
    assert_eq!(log.borrow().clone(), vec!["run /bin/launchctl print system/yggdrasil"]);
    assert_eq!(status.label, "yggdrasil");
    assert!(status.found);
    assert_eq!(status.state, Some("running".to_string()));
    assert_eq!(status.pid, Some(77));
    assert_eq!(status.path, Some("/Library/LaunchDaemons/yggdrasil.plist".to_string()));
}

#[test]
fn launchd_status_when_missing_or_unrunnable() {
    let log = RefCell::new(Vec::new());
    let missing = |_: String, _: Vec<String>| Ok(captured(false, "", "Could not find service"));
    let mut host = Host::new(Fake { run: Box::new(missing), ..fake(&log) });
    let status = launchd_status(&mut host);
    assert!(!status.found);
    assert_eq!(status.state, None);
    assert_eq!(status.pid, None);
    assert_eq!(status.path, None);
    let broken = |_: String, _: Vec<String>| Err("Could not run `/bin/launchctl`: denied".to_string());
    let mut host = Host::new(Fake { run: Box::new(broken), ..fake(&log) });
    let status = launchd_status(&mut host);
    assert!(!status.found);
    assert_eq!(status.path, Some("Could not run `/bin/launchctl`: denied".to_string()));
    let odd_pid = |_: String, _: Vec<String>| Ok(captured(true, "pid = -\n", ""));
    let mut host = Host::new(Fake { run: Box::new(odd_pid), ..fake(&log) });
    assert_eq!(launchd_status(&mut host).pid, None);
}

#[test]
fn launchd_plist_escapes_paths() {
    let plist = launchd_plist("/usr/local/bin/yggdrasil", "/etc/ygg & co.conf");
    assert!(plist.starts_with("<?xml version=\"1.0\" encoding=\"UTF-8\"?>"));
    assert!(plist.contains("<string>/usr/local/bin/yggdrasil</string><string>-useconffile</string><string>/etc/ygg &amp; co.conf</string>"));
    assert!(plist.contains("<key>Label</key><string>yggdrasil</string>"));
    assert!(plist.ends_with("</dict></plist>"));
}

#[test]
fn launchd_plist_paths_add_no_markup() {
    let plist = launchd_plist("/a<b>\"c'", "/etc/</string><string>x");
    assert!(plist.contains("<string>/a&lt;b&gt;&quot;c&apos;</string>"));
    assert!(plist.contains("<string>/etc/&lt;/string&gt;&lt;string&gt;x</string>"));
    for c in ['<', '>', '"', '\''] {
        assert_eq!(plist.matches(c).count(), launchd_plist("", "").matches(c).count());
    }
}
