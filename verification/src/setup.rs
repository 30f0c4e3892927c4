use vstd::prelude::*;

pub use crate::machine::CreateFailure;

use crate::apply::{apply_view, no_yggdrasil};
use crate::binaries::{
    binary_candidates, brew_candidates, find_binary, find_brew, find_fixed_binary, first_found,
    fixed_candidates,
};
use crate::command::{command_result, join_output, privileged_args, restart_direct, restarted, run_privileged_shell, texts};
use crate::config::{
    ensure_known_config_path, ensure_known_config_path_for_setup, known_config_verdict, reported_exists,
    setup_path_verdict, unit_result,
};
use crate::launchd::{launchd_plist, plist_text};
use crate::machine::{extends, is_create, is_run, lemma_push, lemma_since_concat, lemma_since_same, run_out, since, Event, Host, Machine};
use crate::scripts::{
    create_config_script, create_config_text, install_daemon_script, install_daemon_text, ApplyResult,
};
use crate::text::{concat2, concat3, push_str, string_from, string_of, trim, trim_str};

verus! {

/// What an action that made no backup reports, with the message `message`.
fn reported(message: String) -> (r: ApplyResult)
    ensures
        r.backup_path is None,
        r.message == message,
{
    ApplyResult { backup_path: None, message }
}

/// What an action that made no backup reports, where it came to `out`, with
/// `message` on success.
pub open spec fn plain_report(out: Result<Seq<char>, Seq<char>>, message: Seq<char>) -> Result<
    (Option<Seq<char>>, Seq<char>),
    Seq<char>,
> {
    match out {
        Err(e) => Err(e),
        Ok(_) => Ok((None, message)),
    }
}

/// What an action whose message is the trimmed output of a privileged script
/// reports, where the script came to `out`.
pub open spec fn script_report(out: Result<Seq<char>, Seq<char>>) -> Result<(Option<Seq<char>>, Seq<char>), Seq<char>> {
    match out {
        Err(e) => Err(e),
        Ok(text) => Ok((None, trim(text))),
    }
}

/// The shell script that asks launchd to restart the daemon.
pub open spec fn kickstart_script() -> Seq<char> {
    "/bin/launchctl kickstart -k system/yggdrasil"@
}

/// The message after a restart was asked for.
pub open spec fn restart_requested() -> Seq<char> {
    "Yggdrasil restart requested through launchd."@
}

/// Asks launchd to restart the daemon, with administrator privileges or
/// without (see `restart_direct`); exactly one command is run.
pub fn restart_yggdrasil<M: Machine>(use_admin: bool, host: &mut Host<M>) -> (r: Result<ApplyResult, String>)
    ensures
        extends(old(host).events(), final(host).events()),
        use_admin ==> ({
            let seg = since(old(host).events(), final(host).events());
            &&& seg.len() == 1
            &&& is_run(seg[0], "/usr/bin/osascript"@, privileged_args(kickstart_script()))
            &&& apply_view(r) == plain_report(command_result(run_out(seg[0])), restart_requested())
        }),
        !use_admin ==> exists|k: Result<(), Seq<char>>|
            #[trigger] restarted(since(old(host).events(), final(host).events()), k) && apply_view(r) == match k {
                Err(e) => Err(e),
                Ok(()) => Ok((None::<Seq<char>>, restart_requested())),
            },
{
    let done = string_from("Yggdrasil restart requested through launchd.");
    proof {
        reveal_strlit("Yggdrasil restart requested through launchd.");
    }
    if use_admin {
        let out = run_privileged_shell("/bin/launchctl kickstart -k system/yggdrasil", host);
        match out {
            Err(e) => Err(e),
            Ok(_) => Ok(reported(done)),
        }
    } else {
        let k = restart_direct(host);
        let ghost gk = unit_result(k);
        assert(restarted(since(old(host).events(), host.events()), gk));
        match k {
            Err(e) => Err(e),
            Ok(()) => Ok(reported(done)),
        }
    }
}

/// The arguments that make Homebrew install Yggdrasil.
pub open spec fn brew_install_args() -> Seq<Seq<char>> {
    seq!["install"@, "yggdrasil"@]
}

/// The message where Homebrew is not found.
pub open spec fn no_homebrew() -> Seq<char> {
    "Homebrew not found. Install Yggdrasil from https://github.com/yggdrasil-network/yggdrasil-go/releases/latest or install Homebrew first."@
}

/// Installs Yggdrasil with Homebrew, unless it is installed already: where the
/// `yggdrasil` binary is found (as `find_binary` looks), nothing is run;
/// otherwise Homebrew is looked for in its usual locations and, where found,
/// run once to install it.
pub fn install_yggdrasil_with_brew<F: Fn(String) -> bool, M: Machine>(
    path_dirs: &Vec<String>,
    is_file: &F,
    host: &mut Host<M>,
) -> (r: Result<ApplyResult, String>)
    requires
        forall|p: String| call_requires(*is_file, (p,)),
    ensures
        extends(old(host).events(), final(host).events()),
        exists|ygg: Option<Seq<char>>|
            #[trigger] first_found(*is_file, binary_candidates("yggdrasil"@, texts(path_dirs@)), ygg) && ({
                let seg = since(old(host).events(), final(host).events());
                match ygg {
                    Some(p) => seg.len() == 0 && apply_view(r) == Ok::<(Option<Seq<char>>, Seq<char>), Seq<char>>(
                        (None, "Yggdrasil already installed at "@ + p + "."@),
                    ),
                    None => exists|brew: Option<Seq<char>>|
                        #[trigger] first_found(*is_file, brew_candidates(), brew) && match brew {
                            None => seg.len() == 0 && apply_view(r) == Err::<(Option<Seq<char>>, Seq<char>), Seq<char>>(
                                no_homebrew(),
                            ),
                            Some(b) => {
                                &&& seg.len() == 1
                                &&& is_run(seg[0], b, brew_install_args())
                                &&& apply_view(r) == plain_report(
                                    command_result(run_out(seg[0])),
                                    "Yggdrasil installed with Homebrew."@,
                                )
                            },
                        },
                }
            }),
{
    let ghost e0 = host.events();
    proof {
        lemma_since_same(e0);
    }
    let found = find_binary("yggdrasil", path_dirs, is_file);
    proof {
        reveal_strlit("yggdrasil");
    }
    let ghost ygg = crate::peers::opt_text(found);
    if let Some(p) = found {
        let m = concat3("Yggdrasil already installed at ", p.as_str(), ".");
        return Ok(reported(m));
    }
    let brew = find_brew(is_file);
    let ghost gb = crate::peers::opt_text(brew);
    let b = match brew {
        None => {
            let m = string_from(
                "Homebrew not found. Install Yggdrasil from https://github.com/yggdrasil-network/yggdrasil-go/releases/latest or install Homebrew first.",
            );
            proof {
                reveal_strlit(
                    "Homebrew not found. Install Yggdrasil from https://github.com/yggdrasil-network/yggdrasil-go/releases/latest or install Homebrew first.",
                );
            }
            return Err(m);
        },
        Some(b) => b,
    };
    let ghost gbs = b@;
    let args = crate::command::two("install", "yggdrasil");
    let out = host.run(b, args);
    proof {
        lemma_push(e0, host.events().last());
        assert(is_run(since(e0, host.events())[0], gbs, brew_install_args()));
    }
    assert(first_found(*is_file, brew_candidates(), gb));
    match out {
        Err(e) => Err(e),
        Ok(c) => {
            if !c.success {
                Err(join_output(c))
            } else {
                let m = string_from("Yggdrasil installed with Homebrew.");
                proof {
                    reveal_strlit("Yggdrasil installed with Homebrew.");
                }
                Ok(reported(m))
            }
        },
    }
}

/// The arguments that make `yggdrasil` print a new configuration.
pub open spec fn genconf_args() -> Seq<Seq<char>> {
    seq!["-genconf"@]
}

/// What creating the configuration `config_path` reports, where creating the new
/// file came to `out`.
pub open spec fn creation_report(
    config_path: Seq<char>,
    out: Result<(), CreateFailure>,
) -> Result<(Option<Seq<char>>, Seq<char>), Seq<char>> {
    match out {
        Err(CreateFailure::Create(e)) => Err("Could not create config `"@ + config_path + "`: "@ + e@),
        Err(CreateFailure::Write(e)) => Err("Could not write config `"@ + config_path + "`: "@ + e@),
        Ok(()) => Ok((None, "Created config: "@ + config_path)),
    }
}

/// Whether the actions `seg` are what `create_default_config` takes for
/// `config_path`, and `r` is what they came to: the path must pass
/// `ensure_known_config_path_for_setup`, and an existing configuration is left
/// alone, with nothing run or created in either case; otherwise
/// `yggdrasil -genconf` makes one, either in one privileged script or, without
/// privileges, by one run whose output, only where it succeeded, is written
/// once into a new file.
pub open spec fn config_created<
    E: Fn(String) -> bool,
    S: Fn(String) -> Result<bool, String>,
    C: Fn(String) -> Option<String>,
    F: Fn(String) -> bool,
>(
    present: E,
    probe: S,
    canon: C,
    is_file: F,
    config_path: Seq<char>,
    use_admin: bool,
    path_dirs: Seq<Seq<char>>,
    seg: Seq<Event>,
    r: Result<(Option<Seq<char>>, Seq<char>), Seq<char>>,
) -> bool {
    exists|g: Result<(), Seq<char>>|
        #[trigger] setup_path_verdict(present, probe, canon, config_path, g) && match g {
            Err(e) => seg.len() == 0 && r == Err::<(Option<Seq<char>>, Seq<char>), Seq<char>>(e),
            Ok(()) => exists|there: bool|
                #[trigger] reported_exists(present, config_path, there) && if there {
                    seg.len() == 0 && r == Ok::<(Option<Seq<char>>, Seq<char>), Seq<char>>(
                        (None, "Config already exists: "@ + config_path),
                    )
                } else if use_admin {
                    exists|ygg: Option<Seq<char>>|
                        #[trigger] first_found(is_file, fixed_candidates("yggdrasil"@), ygg) && match ygg {
                            None => seg.len() == 0 && r == Err::<(Option<Seq<char>>, Seq<char>), Seq<char>>(
                                no_yggdrasil(),
                            ),
                            Some(y) => {
                                &&& seg.len() == 1
                                &&& is_run(seg[0], "/usr/bin/osascript"@, privileged_args(create_config_text(config_path, y)))
                                &&& r == script_report(command_result(run_out(seg[0])))
                            },
                        }
                } else {
                    exists|ygg: Option<Seq<char>>|
                        #[trigger] first_found(is_file, binary_candidates("yggdrasil"@, path_dirs), ygg)
                            && match ygg {
                            None => seg.len() == 0 && r == Err::<(Option<Seq<char>>, Seq<char>), Seq<char>>(
                                no_yggdrasil(),
                            ),
                            Some(y) => {
                                &&& seg.len() >= 1
                                &&& is_run(seg[0], y, genconf_args())
                                &&& match command_result(run_out(seg[0])) {
                                    Err(e) => seg.len() == 1 && r == Err::<(Option<Seq<char>>, Seq<char>), Seq<char>>(e),
                                    Ok(text) => {
                                        &&& seg.len() == 2
                                        &&& is_create(seg[1], config_path, text)
                                        &&& r == creation_report(config_path, seg[1]->Created_out)
                                    },
                                }
                            },
                        }
                },
        }
}

/// Creates a default configuration at `config_path`, a standard location,
/// unless one is there already.
pub fn create_default_config<
    E: Fn(String) -> bool,
    S: Fn(String) -> Result<bool, String>,
    C: Fn(String) -> Option<String>,
    F: Fn(String) -> bool,
    M: Machine,
>(
    config_path: &str,
    use_admin: bool,
    path_dirs: &Vec<String>,
    present: &E,
    probe: &S,
    canon: &C,
    is_file: &F,
    host: &mut Host<M>,
) -> (r: Result<ApplyResult, String>)
    requires
        forall|p: String| call_requires(*present, (p,)),
        forall|p: String| call_requires(*probe, (p,)),
        forall|p: String| call_requires(*canon, (p,)),
        forall|p: String| call_requires(*is_file, (p,)),
    ensures
        extends(old(host).events(), final(host).events()),
        config_created(
            *present,
            *probe,
            *canon,
            *is_file,
            config_path@,
            use_admin,
            texts(path_dirs@),
            since(old(host).events(), final(host).events()),
            apply_view(r),
        ),
{
    let ghost e0 = host.events();
    proof {
        lemma_since_same(e0);
    }
    let g = ensure_known_config_path_for_setup(config_path, present, probe, canon);
    let ghost gg = unit_result(g);
    assert(setup_path_verdict(*present, *probe, *canon, config_path@, gg));
    if let Err(e) = g {
        return Err(e);
    }
    let p = string_from(config_path);
    let ghost gp = p;
    let there = present(p);
    assert(call_ensures(*present, (gp,), there));
    assert(reported_exists(*present, config_path@, there));
    if there {
        return Ok(reported(concat2("Config already exists: ", config_path)));
    }
    proof {
        reveal_strlit("yggdrasil");
        reveal_strlit("yggdrasil binary not found");
    }
    if use_admin {
        let found = find_fixed_binary("yggdrasil", is_file);
        let ghost ygg = crate::peers::opt_text(found);
        let y = match found {
            None => {
                return Err(string_from("yggdrasil binary not found"));
            },
            Some(y) => y,
        };
        assert(first_found(*is_file, fixed_candidates("yggdrasil"@), ygg));
        let script = create_config_script(config_path, y.as_str());
        let out = run_privileged_shell(script.as_str(), host);
        return match out {
            Err(e) => Err(e),
            Ok(text) => Ok(reported(trim_str(text.as_str()))),
        };
    }
    let found = find_binary("yggdrasil", path_dirs, is_file);
    let ghost ygg = crate::peers::opt_text(found);
    let y = match found {
        None => {
            return Err(string_from("yggdrasil binary not found"));
        },
        Some(y) => y,
    };
    let ghost gy = y@;
    assert(first_found(*is_file, binary_candidates("yggdrasil"@, texts(path_dirs@)), ygg));
    let mut args: Vec<String> = Vec::new();
    args.push(string_from("-genconf"));
    assert(texts(args@) =~= genconf_args());
    let out = host.run(y, args);
    let ghost e1 = host.events();
    proof {
        lemma_push(e0, e1.last());
        assert(is_run(since(e0, e1)[0], gy, genconf_args()));
    }
    let text = match out {
        Err(e) => {
            return Err(e);
        },
        Ok(c) => {
            if !c.success {
                return Err(join_output(c));
            }
            c.stdout
        },
    };
    let c = host.create(string_from(config_path), text);
    proof {
        lemma_push(e1, host.events().last());
        lemma_since_concat(e0, e1, host.events());
        assert(since(e0, host.events()) =~= seq![e1.last(), host.events().last()]);
    }
    match c {
        Err(CreateFailure::Create(e)) => {
            let mut m: Vec<char> = Vec::new();
            push_str(&mut m, "Could not create config `");
            push_str(&mut m, config_path);
            push_str(&mut m, "`: ");
            push_str(&mut m, e.as_str());
            assert(m@ =~= "Could not create config `"@ + config_path@ + "`: "@ + e@);
            Err(string_of(&m))
        },
        Err(CreateFailure::Write(e)) => {
            let mut m: Vec<char> = Vec::new();
            push_str(&mut m, "Could not write config `");
            push_str(&mut m, config_path);
            push_str(&mut m, "`: ");
            push_str(&mut m, e.as_str());
            assert(m@ =~= "Could not write config `"@ + config_path@ + "`: "@ + e@);
            Err(string_of(&m))
        },
        Ok(()) => Ok(reported(concat2("Created config: ", config_path))),
    }
}

/// The message where the `yggdrasil` binary is missing from the fixed
/// locations that a launchd daemon may run it from.
pub open spec fn no_fixed_yggdrasil() -> Seq<char> {
    "yggdrasil binary not found in fixed system/Homebrew locations"@
}

/// The message where a launchd daemon is to be installed without privileges.
pub open spec fn daemon_needs_admin() -> Seq<char> {
    "Installing a LaunchDaemon requires macOS admin privileges."@
}

/// Installs and starts the launchd daemon that runs `yggdrasil` with the
/// configuration at `config_path`; the path must pass
/// `ensure_known_config_path`, the binary must be in a fixed location, and
/// administrator privileges must be asked for; otherwise nothing is run.
pub fn install_launchd_service<
    S: Fn(String) -> Result<bool, String>,
    C: Fn(String) -> Option<String>,
    F: Fn(String) -> bool,
    M: Machine,
>(config_path: &str, use_admin: bool, probe: &S, canon: &C, is_file: &F, host: &mut Host<M>) -> (r: Result<
    ApplyResult,
    String,
>)
    requires
        forall|p: String| call_requires(*probe, (p,)),
        forall|p: String| call_requires(*canon, (p,)),
        forall|p: String| call_requires(*is_file, (p,)),
    ensures
        extends(old(host).events(), final(host).events()),
        exists|k: Result<(), Seq<char>>|
            #[trigger] known_config_verdict(*probe, *canon, config_path@, k) && ({
                let seg = since(old(host).events(), final(host).events());
                match k {
                    Err(e) => seg.len() == 0 && apply_view(r) == Err::<(Option<Seq<char>>, Seq<char>), Seq<char>>(e),
                    Ok(()) => exists|ygg: Option<Seq<char>>|
                        #[trigger] first_found(*is_file, fixed_candidates("yggdrasil"@), ygg) && match ygg {
                            None => seg.len() == 0 && apply_view(r) == Err::<(Option<Seq<char>>, Seq<char>), Seq<char>>(
                                no_fixed_yggdrasil(),
                            ),
                            Some(y) => if !use_admin {
                                seg.len() == 0 && apply_view(r) == Err::<(Option<Seq<char>>, Seq<char>), Seq<char>>(
                                    daemon_needs_admin(),
                                )
                            } else {
                                &&& seg.len() == 1
                                &&& is_run(
                                    seg[0],
                                    "/usr/bin/osascript"@,
                                    privileged_args(install_daemon_text(plist_text(y, config_path@))),
                                )
                                &&& apply_view(r) == script_report(command_result(run_out(seg[0])))
                            },
                        },
                }
            }),
{
    let ghost e0 = host.events();
    proof {
        lemma_since_same(e0);
    }
    let k = ensure_known_config_path(config_path, probe, canon);
    let ghost gk = unit_result(k);
    assert(known_config_verdict(*probe, *canon, config_path@, gk));
    if let Err(e) = k {
        return Err(e);
    }
    let found = find_fixed_binary("yggdrasil", is_file);
    proof {
        reveal_strlit("yggdrasil");
    }
    let ghost ygg = crate::peers::opt_text(found);
    let y = match found {
        None => {
            let m = string_from("yggdrasil binary not found in fixed system/Homebrew locations");
            proof {
                reveal_strlit("yggdrasil binary not found in fixed system/Homebrew locations");
            }
            return Err(m);
        },
        Some(y) => y,
    };
    assert(first_found(*is_file, fixed_candidates("yggdrasil"@), ygg));
    let plist = launchd_plist(y.as_str(), config_path);
    if !use_admin {
        let m = string_from("Installing a LaunchDaemon requires macOS admin privileges.");
        proof {
            reveal_strlit("Installing a LaunchDaemon requires macOS admin privileges.");
        }
        return Err(m);
    }
    let script = install_daemon_script(plist.as_str());
    let out = run_privileged_shell(script.as_str(), host);
    match out {
        Err(e) => Err(e),
        Ok(text) => Ok(reported(trim_str(text.as_str()))),
    }
}

/// The arguments that make `open` reveal `path` in the Finder.
pub open spec fn reveal_args(path: Seq<char>) -> Seq<Seq<char>> {
    seq!["-R"@, path]
}

/// Reveals the file `path` in the Finder, where `present` says it exists;
/// otherwise nothing is run.
pub fn open_config_location<E: Fn(String) -> bool, M: Machine>(path: &str, present: &E, host: &mut Host<M>) -> (r:
    Result<ApplyResult, String>)
    requires
        forall|p: String| call_requires(*present, (p,)),
    ensures
        extends(old(host).events(), final(host).events()),
        exists|there: bool|
            #[trigger] reported_exists(*present, path@, there) && ({
                let seg = since(old(host).events(), final(host).events());
                if !there {
                    seg.len() == 0 && apply_view(r) == Err::<(Option<Seq<char>>, Seq<char>), Seq<char>>(
                        "Config path does not exist: "@ + path@,
                    )
                } else {
                    &&& seg.len() == 1
                    &&& is_run(seg[0], "/usr/bin/open"@, reveal_args(path@))
                    &&& apply_view(r) == plain_report(
                        command_result(run_out(seg[0])),
                        "Revealed "@ + path@ + " in Finder."@,
                    )
                }
            }),
{
    let ghost e0 = host.events();
    proof {
        lemma_since_same(e0);
    }
    let p = string_from(path);
    let ghost gp = p;
    let there = present(p);
    assert(call_ensures(*present, (gp,), there));
    assert(reported_exists(*present, path@, there));
    if !there {
        return Err(concat2("Config path does not exist: ", path));
    }
    let args = crate::command::two("-R", path);
    let out = host.run(string_from("/usr/bin/open"), args);
    proof {
        reveal_strlit("/usr/bin/open");
        lemma_push(e0, host.events().last());
    }
    match out {
        Err(e) => Err(e),
        Ok(c) => {
            if !c.success {
                Err(join_output(c))
            } else {
                Ok(reported(concat3("Revealed ", path, " in Finder.")))
            }
        },
    }
}

} // verus!
