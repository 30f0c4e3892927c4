use vstd::prelude::*;

use crate::binaries::{binary_candidates, find_binary, find_fixed_binary, first_found, fixed_candidates};
use crate::clock::{backup_path, backup_text};
use crate::command::{
    command_result, join_output, privileged_args, restart_direct, restarted, run_privileged_shell,
    texts,
};
use crate::config::{
    any_same, config_paths, ensure_known_config_path, inspected, is_absolute, known_config_verdict,
    reject_symlink, same_path_answer, symlink_verdict, unit_result, unknown_to_modify,
};
use crate::json::{read_json, set_config_peers, with_peers, JsonValue};
use crate::machine::{
    extends, is_copy, is_run, is_stage, is_unstage, is_write, lemma_push, lemma_since_concat, lemma_since_same, run_out,
    since, Event, Host, Machine,
};
use crate::net::{lemma_uris_verdict_only_resolves, uris_verdict, validate_peer_uris, IpAddress};
use crate::peers::opt_text;
use crate::scripts::{
    applied_message, applied_result, check_peer_selection, ApplyResult, backup_line, install_config_script, install_config_text, normalise_script, normalise_text,
    reported_backup_path,
};
use crate::text::{concat2, concat3, push_str, string_from, string_of};

verus! {

/// Whether `r` is `config` with its `Peers` set to `peers`, or the refusal of a
/// configuration that is not a JSON object (see `set_config_peers`).
pub open spec fn peers_set(config: JsonValue, peers: Seq<String>, r: Result<JsonValue, String>) -> bool {
    match r {
        Ok(JsonValue::Object(after)) => config matches JsonValue::Object(before) && with_peers(
            before@,
            after@,
            peers,
        ),
        Ok(_) => false,
        Err(e) => !(config is Object) && e@ == "Normalised config is not a JSON object."@,
    }
}

/// The message for a normalised configuration that is not JSON.
pub open spec fn unreadable_config(e: Seq<char>) -> Seq<char> {
    "Could not parse normalised config JSON: "@ + e
}

/// Whether `r` may be what reading the normalised configuration `text` with
/// `parse`, and setting its `Peers` to `peers`, comes to.
pub open spec fn configured<J: Fn(String) -> Result<JsonValue, String>>(
    parse: J,
    text: Seq<char>,
    peers: Seq<String>,
    r: Result<JsonValue, String>,
) -> bool {
    exists|out: Result<JsonValue, String>|
        #[trigger] read_json(parse, text, out) && match out {
            Err(e) => r matches Err(m) && m@ == unreadable_config(e@),
            Ok(v) => peers_set(v, peers, r),
        }
}

/// Reads the normalised configuration `text` with `parse` and sets its `Peers`
/// to `peers`.
pub fn config_with_peers<J: Fn(String) -> Result<JsonValue, String>>(
    text: String,
    peers: &Vec<String>,
    parse: &J,
) -> (r: Result<JsonValue, String>)
    requires
        forall|t: String| call_requires(*parse, (t,)),
    ensures
        configured(*parse, text@, peers@, r),
{
    let ghost gt = text;
    let out = parse(text);
    assert(call_ensures(*parse, (gt,), out));
    let ghost g = out;
    assert(read_json(*parse, gt@, g));
    match out {
        Err(e) => {
            let m = concat2("Could not parse normalised config JSON: ", e.as_str());
            assert(m@ =~= unreadable_config(e@));
            Err(m)
        },
        Ok(v) => set_config_peers(v, peers),
    }
}

/// The message for a backup that could not be made.
pub open spec fn no_backup(backup: Seq<char>, e: Seq<char>) -> Seq<char> {
    "Could not create backup `"@ + backup + "`: "@ + e
}

/// The message for a configuration that could not be rendered as JSON.
pub open spec fn unrenderable(e: Seq<char>) -> Seq<char> {
    "Could not render config JSON: "@ + e
}

/// The message for a configuration that could not be written.
pub open spec fn unwritable(path: Seq<char>, e: Seq<char>) -> Seq<char> {
    "Could not write config `"@ + path + "`: "@ + e
}

/// What the copy `e` came to.
pub open spec fn copy_out(e: Event) -> Result<(), String> {
    e->Copied_out
}

/// What the write `e` came to.
pub open spec fn write_out(e: Event) -> Result<(), String> {
    e->Wrote_out
}

/// What the staging `e` came to.
pub open spec fn stage_out(e: Event) -> Result<String, String> {
    e->Staged_out
}

/// Whether the actions `seg` are what storing `config` at `config_path` takes,
/// and `r` is what they came to: first the file is copied to a backup named
/// after the time; only if that succeeded is `config` rendered with `render`
/// and, only if that succeeded, written once, with a line feed after it, in the
/// file's place; the result is the backup's path, or the first failure.
pub open spec fn stored<Rd: Fn(JsonValue) -> Result<String, String>>(
    render: Rd,
    config_path: Seq<char>,
    config: JsonValue,
    seg: Seq<Event>,
    r: Result<Seq<char>, Seq<char>>,
) -> bool {
    &&& seg.len() >= 1
    &&& exists|t: u64|
        #[trigger] is_copy(seg[0], config_path, backup_text(config_path, t)) && match copy_out(seg[0]) {
            Err(e) => seg.len() == 1 && r == Err::<Seq<char>, Seq<char>>(no_backup(backup_text(config_path, t), e@)),
            Ok(()) => exists|out: Result<String, String>|
                #[trigger] call_ensures(render, (config,), out) && match out {
                    Err(e) => seg.len() == 1 && r == Err::<Seq<char>, Seq<char>>(unrenderable(e@)),
                    Ok(text) => {
                        &&& seg.len() == 2
                        &&& is_write(seg[1], config_path, text@ + seq!['\n'])
                        &&& r == match write_out(seg[1]) {
                            Err(e) => Err::<Seq<char>, Seq<char>>(unwritable(config_path, e@)),
                            Ok(()) => Ok(backup_text(config_path, t)),
                        }
                    },
                },
        }
}

/// Backs up the configuration at `config_path` and writes `config` in its
/// place; gives the backup's path.
pub fn store_config<Rd: Fn(JsonValue) -> Result<String, String>, M: Machine>(
    config_path: &str,
    config: JsonValue,
    render: &Rd,
    host: &mut Host<M>,
) -> (r: Result<String, String>)
    requires
        forall|v: JsonValue| call_requires(*render, (v,)),
    ensures
        extends(old(host).events(), final(host).events()),
        stored(*render, config_path@, config, since(old(host).events(), final(host).events()), text_result(r)),
{
    let ghost gconfig = config;
    let ghost e0 = host.events();
    let backup = backup_path(config_path);
    let ghost t = choose|t: u64| backup@ == backup_text(config_path@, t);
    let c = host.copy(string_from(config_path), backup.clone());
    let ghost e1 = host.events();
    proof {
        lemma_push(e0, e1.last());
        assert(is_copy(since(e0, e1)[0], config_path@, backup_text(config_path@, t)));
    }
    match c {
        Err(e) => {
            let mut m: Vec<char> = Vec::new();
            push_str(&mut m, "Could not create backup `");
            push_str(&mut m, backup.as_str());
            push_str(&mut m, "`: ");
            push_str(&mut m, e.as_str());
            assert(m@ =~= no_backup(backup_text(config_path@, t), e@));
            return Err(string_of(&m));
        },
        Ok(()) => {},
    }
    let out = render(config);
    assert(call_ensures(*render, (gconfig,), out));
    let text = match out {
        Err(e) => {
            let m = concat2("Could not render config JSON: ", e.as_str());
            assert(m@ =~= unrenderable(e@));
            return Err(m);
        },
        Ok(text) => text,
    };
    let body = concat2(text.as_str(), "\n");
    proof {
        reveal_strlit("\n");
    }
    assert(body@ =~= text@ + seq!['\n']);
    let w = host.write(string_from(config_path), body);
    proof {
        lemma_push(e1, host.events().last());
        lemma_since_concat(e0, e1, host.events());
        assert(since(e0, host.events()) =~= seq![e1.last(), host.events().last()]);
    }
    match w {
        Err(e) => {
            let mut m: Vec<char> = Vec::new();
            push_str(&mut m, "Could not write config `");
            push_str(&mut m, config_path);
            push_str(&mut m, "`: ");
            push_str(&mut m, e.as_str());
            assert(m@ =~= unwritable(config_path@, e@));
            Err(string_of(&m))
        },
        Ok(()) => Ok(backup),
    }
}

/// The arguments that make `yggdrasil` print the configuration at
/// `config_path`, normalised, as JSON.
pub open spec fn normalise_args(config_path: Seq<char>) -> Seq<Seq<char>> {
    seq!["-normaliseconf"@, "-json"@, "-useconffile"@, config_path]
}

/// The message for a missing `yggdrasil` binary.
pub open spec fn no_yggdrasil() -> Seq<char> {
    "yggdrasil binary not found"@
}

/// The texts of a result.
pub open spec fn text_result(r: Result<String, String>) -> Result<Seq<char>, Seq<char>> {
    crate::command::text_result(r)
}

/// Whether the actions `seg` are what writing the peers `peers` into the
/// configuration at `config_path` without privileges takes, and `r` is what they
/// came to: the path must not be a symbolic link (as `probe` says) and the
/// `yggdrasil` binary must be found as `find_binary` looks, else nothing is run;
/// it is run once to print the normalised configuration, which is read with
/// `parse`; its `Peers` are set, and only then is it stored as `stored` says.
pub open spec fn direct_write<
    S: Fn(String) -> Result<bool, String>,
    F: Fn(String) -> bool,
    J: Fn(String) -> Result<JsonValue, String>,
    Rd: Fn(JsonValue) -> Result<String, String>,
>(
    probe: S,
    is_file: F,
    parse: J,
    render: Rd,
    config_path: Seq<char>,
    peers: Seq<String>,
    path_dirs: Seq<Seq<char>>,
    seg: Seq<Event>,
    r: Result<Seq<char>, Seq<char>>,
) -> bool {
    exists|sym: Result<bool, Seq<char>>|
        #[trigger] inspected(probe, config_path, sym) && match symlink_verdict(config_path, sym) {
            Err(e) => seg.len() == 0 && r == Err::<Seq<char>, Seq<char>>(e),
            Ok(()) => exists|ygg: Option<Seq<char>>|
                #[trigger] first_found(is_file, binary_candidates("yggdrasil"@, path_dirs), ygg) && match ygg {
                    None => seg.len() == 0 && r == Err::<Seq<char>, Seq<char>>(no_yggdrasil()),
                    Some(y) => {
                        &&& seg.len() >= 1
                        &&& is_run(seg[0], y, normalise_args(config_path))
                        &&& match command_result(run_out(seg[0])) {
                            Err(e) => seg.len() == 1 && r == Err::<Seq<char>, Seq<char>>(e),
                            Ok(text) => exists|cfg: Result<JsonValue, String>|
                                #[trigger] configured(parse, text, peers, cfg) && match cfg {
                                    Err(e) => seg.len() == 1 && r == Err::<Seq<char>, Seq<char>>(e@),
                                    Ok(v) => stored(render, config_path, v, seg.skip(1), r),
                                },
                        }
                    },
                },
        }
}

/// Writes the peers `peers` into the configuration at `config_path` without
/// privileges, keeping a backup; gives the backup's path.
pub fn write_peers_direct<
    S: Fn(String) -> Result<bool, String>,
    F: Fn(String) -> bool,
    J: Fn(String) -> Result<JsonValue, String>,
    Rd: Fn(JsonValue) -> Result<String, String>,
    M: Machine,
>(
    config_path: &str,
    peers: &Vec<String>,
    path_dirs: &Vec<String>,
    probe: &S,
    is_file: &F,
    parse: &J,
    render: &Rd,
    host: &mut Host<M>,
) -> (r: Result<String, String>)
    requires
        forall|p: String| call_requires(*probe, (p,)),
        forall|p: String| call_requires(*is_file, (p,)),
        forall|t: String| call_requires(*parse, (t,)),
        forall|v: JsonValue| call_requires(*render, (v,)),
    ensures
        extends(old(host).events(), final(host).events()),
        direct_write(
            *probe,
            *is_file,
            *parse,
            *render,
            config_path@,
            peers@,
            texts(path_dirs@),
            since(old(host).events(), final(host).events()),
            text_result(r),
        ),
{
    let ghost e0 = host.events();
    proof {
        lemma_since_same(e0);
    }
    let checked = reject_symlink(config_path, probe);
    let ghost sym = choose|sym: Result<bool, Seq<char>>|
        inspected(*probe, config_path@, sym) && unit_result(checked) == symlink_verdict(config_path@, sym);
    if let Err(e) = checked {
        return Err(e);
    }
    let found = find_binary("yggdrasil", path_dirs, is_file);
    proof {
        reveal_strlit("yggdrasil");
        reveal_strlit("yggdrasil binary not found");
    }
    let ghost ygg = opt_text(found);
    let yggdrasil = match found {
        None => {
            return Err(string_from("yggdrasil binary not found"));
        },
        Some(y) => y,
    };
    let mut args: Vec<String> = Vec::new();
    args.push(string_from("-normaliseconf"));
    args.push(string_from("-json"));
    args.push(string_from("-useconffile"));
    args.push(string_from(config_path));
    assert(texts(args@) =~= normalise_args(config_path@));
    let ghost gy = yggdrasil@;
    assert(first_found(*is_file, binary_candidates("yggdrasil"@, texts(path_dirs@)), ygg));
    let out = host.run(yggdrasil, args);
    let ghost e1 = host.events();
    proof {
        lemma_push(e0, e1.last());
        assert(is_run(since(e0, e1)[0], gy, normalise_args(config_path@)));
    }
    let ghost gout = out;
    let text = match out {
        Err(e) => {
            return Err(e);
        },
        Ok(c) => {
            if !c.success {
                return Err(join_output(c));
            }
            c.stdout
        },
    };
    let cfg = config_with_peers(text, peers, parse);
    let ghost gcfg = cfg;
    assert(configured(*parse, command_result(run_out(since(e0, e1)[0]))->Ok_0, peers@, gcfg));
    let config = match cfg {
        Err(e) => {
            return Err(e);
        },
        Ok(v) => v,
    };
    let r = store_config(config_path, config, render, host);
    proof {
        lemma_since_concat(e0, e1, host.events());
        assert(since(e0, host.events()).skip(1) =~= since(e1, host.events()));
        assert(since(e0, host.events())[0] == since(e0, e1)[0]);
    }
    r
}

/// What the installation of the staged file `path` came to, given what the
/// privileged run printed or the failure.
pub open spec fn install_report(out: Result<Seq<char>, Seq<char>>) -> Result<Seq<char>, Seq<char>> {
    match out {
        Err(e) => Err(e),
        Ok(output) => match backup_line(output) {
            Some(b) => Ok(b),
            None => Err(unreported_backup()),
        },
    }
}

/// The message for a privileged install that printed no backup path.
pub open spec fn unreported_backup() -> Seq<char> {
    "Admin apply completed, but backup path was not reported."@
}

/// Whether the actions `seg` are what installing `config` at `config_path` with
/// privileges takes, and `r` is what they came to: `config` is rendered with
/// `render` (nothing is done where that fails) and staged; only where staging
/// succeeded does one privileged script back up the configuration, install the
/// staged file in its place and, where `restart` is asked, restart the daemon;
/// after that run, and only then, the staged file is removed; the result is the
/// backup path that the script printed, or the first failure.
pub open spec fn installed<Rd: Fn(JsonValue) -> Result<String, String>>(
    render: Rd,
    config_path: Seq<char>,
    config: JsonValue,
    restart: bool,
    seg: Seq<Event>,
    r: Result<Seq<char>, Seq<char>>,
) -> bool {
    exists|out: Result<String, String>|
        #[trigger] call_ensures(render, (config,), out) && match out {
            Err(e) => seg.len() == 0 && r == Err::<Seq<char>, Seq<char>>(unrenderable(e@)),
            Ok(text) => {
                &&& seg.len() >= 1
                &&& is_stage(seg[0], text@)
                &&& match stage_out(seg[0]) {
                    Err(e) => seg.len() == 1 && r == Err::<Seq<char>, Seq<char>>(e@),
                    Ok(path) => {
                        &&& seg.len() == 3
                        &&& is_run(
                            seg[1],
                            "/usr/bin/osascript"@,
                            privileged_args(install_config_text(config_path, path@, restart)),
                        )
                        &&& is_unstage(seg[2], path@)
                        &&& r == install_report(command_result(run_out(seg[1])))
                    },
                }
            },
        }
}

/// Renders `config`, stages it, and installs it at `config_path` with
/// privileges; removes the staged file after the install, whatever it came to,
/// and gives the backup path that the install reported.
pub fn install_staged_config<Rd: Fn(JsonValue) -> Result<String, String>, M: Machine>(
    config_path: &str,
    config: JsonValue,
    restart: bool,
    render: &Rd,
    host: &mut Host<M>,
) -> (r: Result<String, String>)
    requires
        forall|v: JsonValue| call_requires(*render, (v,)),
    ensures
        extends(old(host).events(), final(host).events()),
        installed(*render, config_path@, config, restart, since(old(host).events(), final(host).events()), text_result(r)),
{
    let ghost gconfig = config;
    let ghost e0 = host.events();
    proof {
        lemma_since_same(e0);
    }
    let out = render(config);
    assert(call_ensures(*render, (gconfig,), out));
    let text = match out {
        Err(e) => {
            let m = concat2("Could not render config JSON: ", e.as_str());
            assert(m@ =~= unrenderable(e@));
            return Err(m);
        },
        Ok(text) => text,
    };
    let ghost gtext = text@;
    let s = host.stage(text);
    let ghost e1 = host.events();
    proof {
        lemma_push(e0, e1.last());
    }
    let path = match s {
        Err(e) => {
            return Err(e);
        },
        Ok(path) => path,
    };
    let script = install_config_script(config_path, path.as_str(), restart);
    let output = run_privileged_shell(script.as_str(), host);
    let ghost e2 = host.events();
    let ghost gpath = path@;
    host.unstage(path);
    let ghost e3 = host.events();
    proof {
        lemma_push(e2, e3.last());
        lemma_since_concat(e0, e1, e2);
        lemma_since_concat(e0, e2, e3);
        assert(since(e0, e3) =~= seq![since(e0, e1)[0], since(e1, e2)[0], since(e2, e3)[0]]);
    }
    let r = match output {
        Err(e) => Err(e),
        Ok(text) => reported_backup_path(text.as_str()),
    };
    assert(text_result(r) == install_report(command_result(run_out(since(e1, e2)[0]))));
    r
}

/// Whether the actions `seg` are what writing the peers `peers` into the
/// configuration at `config_path` with privileges takes, and `r` is what they
/// came to: the path must not be a symbolic link (as `probe` says) and the
/// `yggdrasil` binary must be in a fixed location, else nothing is run; a
/// privileged script has it print the normalised configuration, which is read
/// with `parse`; its `Peers` are set, and only then is it installed as
/// `installed` says.
pub open spec fn admin_write<
    S: Fn(String) -> Result<bool, String>,
    F: Fn(String) -> bool,
    J: Fn(String) -> Result<JsonValue, String>,
    Rd: Fn(JsonValue) -> Result<String, String>,
>(
    probe: S,
    is_file: F,
    parse: J,
    render: Rd,
    config_path: Seq<char>,
    peers: Seq<String>,
    restart: bool,
    seg: Seq<Event>,
    r: Result<Seq<char>, Seq<char>>,
) -> bool {
    exists|sym: Result<bool, Seq<char>>|
        #[trigger] inspected(probe, config_path, sym) && match symlink_verdict(config_path, sym) {
            Err(e) => seg.len() == 0 && r == Err::<Seq<char>, Seq<char>>(e),
            Ok(()) => exists|ygg: Option<Seq<char>>|
                #[trigger] first_found(is_file, fixed_candidates("yggdrasil"@), ygg) && match ygg {
                    None => seg.len() == 0 && r == Err::<Seq<char>, Seq<char>>(no_yggdrasil()),
                    Some(y) => {
                        &&& seg.len() >= 1
                        &&& is_run(seg[0], "/usr/bin/osascript"@, privileged_args(normalise_text(y, config_path)))
                        &&& match command_result(run_out(seg[0])) {
                            Err(e) => seg.len() == 1 && r == Err::<Seq<char>, Seq<char>>(e),
                            Ok(text) => exists|cfg: Result<JsonValue, String>|
                                #[trigger] configured(parse, text, peers, cfg) && match cfg {
                                    Err(e) => seg.len() == 1 && r == Err::<Seq<char>, Seq<char>>(e@),
                                    Ok(v) => installed(render, config_path, v, restart, seg.skip(1), r),
                                },
                        }
                    },
                },
        }
}

/// Writes the peers `peers` into the configuration at `config_path` with
/// administrator privileges, keeping a backup, and restarts the daemon where
/// `restart` is asked; gives the backup's path.
pub fn apply_peers_admin<
    S: Fn(String) -> Result<bool, String>,
    F: Fn(String) -> bool,
    J: Fn(String) -> Result<JsonValue, String>,
    Rd: Fn(JsonValue) -> Result<String, String>,
    M: Machine,
>(
    config_path: &str,
    peers: &Vec<String>,
    restart: bool,
    probe: &S,
    is_file: &F,
    parse: &J,
    render: &Rd,
    host: &mut Host<M>,
) -> (r: Result<String, String>)
    requires
        forall|p: String| call_requires(*probe, (p,)),
        forall|p: String| call_requires(*is_file, (p,)),
        forall|t: String| call_requires(*parse, (t,)),
        forall|v: JsonValue| call_requires(*render, (v,)),
    ensures
        extends(old(host).events(), final(host).events()),
        admin_write(
            *probe,
            *is_file,
            *parse,
            *render,
            config_path@,
            peers@,
            restart,
            since(old(host).events(), final(host).events()),
            text_result(r),
        ),
{
    let ghost e0 = host.events();
    proof {
        lemma_since_same(e0);
    }
    let checked = reject_symlink(config_path, probe);
    let ghost sym = choose|sym: Result<bool, Seq<char>>|
        inspected(*probe, config_path@, sym) && unit_result(checked) == symlink_verdict(config_path@, sym);
    if let Err(e) = checked {
        return Err(e);
    }
    let found = find_fixed_binary("yggdrasil", is_file);
    proof {
        reveal_strlit("yggdrasil");
        reveal_strlit("yggdrasil binary not found");
    }
    let ghost ygg = opt_text(found);
    let yggdrasil = match found {
        None => {
            return Err(string_from("yggdrasil binary not found"));
        },
        Some(y) => y,
    };
    assert(first_found(*is_file, fixed_candidates("yggdrasil"@), ygg));
    let script = normalise_script(yggdrasil.as_str(), config_path);
    let normalised = run_privileged_shell(script.as_str(), host);
    let ghost e1 = host.events();
    let text = match normalised {
        Err(e) => {
            return Err(e);
        },
        Ok(text) => text,
    };
    let cfg = config_with_peers(text, peers, parse);
    let ghost gcfg = cfg;
    assert(configured(*parse, command_result(run_out(since(e0, e1)[0]))->Ok_0, peers@, gcfg));
    let config = match cfg {
        Err(e) => {
            return Err(e);
        },
        Ok(v) => v,
    };
    let r = install_staged_config(config_path, config, restart, render, host);
    proof {
        lemma_since_concat(e0, e1, host.events());
        assert(since(e0, host.events()).skip(1) =~= since(e1, host.events()));
        assert(since(e0, host.events())[0] == since(e0, e1)[0]);
    }
    r
}

/// The values of what an action on the node reports.
pub open spec fn apply_view(r: Result<ApplyResult, String>) -> Result<(Option<Seq<char>>, Seq<char>), Seq<char>> {
    match r {
        Ok(a) => Ok((opt_text(a.backup_path), a.message@)),
        Err(e) => Err(e@),
    }
}

/// The message for an empty selection of peers.
pub open spec fn no_selection() -> Seq<char> {
    "Select at least one peer before applying config."@
}

/// What applying reports once the peers were written with the backup `w`, or
/// the failure.
pub open spec fn applied_report(
    w: Result<Seq<char>, Seq<char>>,
    use_admin: bool,
    restart: bool,
) -> Result<(Option<Seq<char>>, Seq<char>), Seq<char>> {
    match w {
        Err(e) => Err(e),
        Ok(b) => Ok((Some(b), applied_message(use_admin, restart))),
    }
}

/// Whether the actions `seg` are what applying the peers `peers` to the
/// configuration at `config_path` takes, and `r` is what they came to: an empty
/// selection is refused with nothing done; each peer must pass
/// `validate_peer_uris` (which only resolves names); the path must pass
/// `ensure_known_config_path`, else nothing more is done; then the peers are
/// written with privileges (`admin_write`) or without (`direct_write`, and
/// after it, only where it succeeded and `restart` is asked, one restart); the
/// result carries the backup's path and the message for what was done.
pub open spec fn peers_applied<
    P: Fn(String) -> Option<IpAddress>,
    S: Fn(String) -> Result<bool, String>,
    C: Fn(String) -> Option<String>,
    F: Fn(String) -> bool,
    J: Fn(String) -> Result<JsonValue, String>,
    Rd: Fn(JsonValue) -> Result<String, String>,
>(
    parse_ip: P,
    probe: S,
    canon: C,
    is_file: F,
    parse: J,
    render: Rd,
    config_path: Seq<char>,
    peers: Seq<String>,
    use_admin: bool,
    restart: bool,
    path_dirs: Seq<Seq<char>>,
    seg: Seq<Event>,
    r: Result<(Option<Seq<char>>, Seq<char>), Seq<char>>,
) -> bool {
    if peers.len() == 0 {
        seg.len() == 0 && r == Err::<(Option<Seq<char>>, Seq<char>), Seq<char>>(no_selection())
    } else {
        exists|k: int, v: Result<(), Seq<char>>|
            0 <= k <= seg.len() && #[trigger] uris_verdict(parse_ip, texts(peers), seg.take(k), v) && match v {
                Err(e) => k == seg.len() && r == Err::<(Option<Seq<char>>, Seq<char>), Seq<char>>(e),
                Ok(()) => exists|kc: Result<(), Seq<char>>|
                    #[trigger] known_config_verdict(probe, canon, config_path, kc) && match kc {
                        Err(e) => k == seg.len() && r == Err::<(Option<Seq<char>>, Seq<char>), Seq<char>>(e),
                        Ok(()) => written_as_asked(
                            probe,
                            is_file,
                            parse,
                            render,
                            config_path,
                            peers,
                            use_admin,
                            restart,
                            path_dirs,
                            seg.skip(k),
                            r,
                        ),
                    },
            }
    }
}

/// Whether the actions `seg` are what writing the peers, as `peers_applied`
/// asks, takes, and `r` is what they came to.
pub open spec fn written_as_asked<
    S: Fn(String) -> Result<bool, String>,
    F: Fn(String) -> bool,
    J: Fn(String) -> Result<JsonValue, String>,
    Rd: Fn(JsonValue) -> Result<String, String>,
>(
    probe: S,
    is_file: F,
    parse: J,
    render: Rd,
    config_path: Seq<char>,
    peers: Seq<String>,
    use_admin: bool,
    restart: bool,
    path_dirs: Seq<Seq<char>>,
    seg: Seq<Event>,
    r: Result<(Option<Seq<char>>, Seq<char>), Seq<char>>,
) -> bool {
    if use_admin {
        exists|w: Result<Seq<char>, Seq<char>>|
            #[trigger] admin_write(probe, is_file, parse, render, config_path, peers, restart, seg, w) && r
                == applied_report(w, true, restart)
    } else {
        exists|j: int, w: Result<Seq<char>, Seq<char>>|
            0 <= j <= seg.len() && #[trigger] direct_write(
                probe,
                is_file,
                parse,
                render,
                config_path,
                peers,
                path_dirs,
                seg.take(j),
                w,
            ) && if w is Ok && restart {
                exists|k2: Result<(), Seq<char>>|
                    #[trigger] restarted(seg.skip(j), k2) && r == match k2 {
                        Err(e) => Err(e),
                        Ok(()) => applied_report(w, false, true),
                    }
            } else {
                j == seg.len() && r == applied_report(w, false, restart)
            }
    }
}

/// Applies the peers `peers` to the configuration at `config_path`: refuses an
/// empty selection, peers that are not public URLs and unknown configuration
/// paths; writes the peers with privileges (`apply_peers_admin`) or without
/// (`write_peers_direct`, then `restart_direct` where `restart` is asked).
pub fn apply_peers_to_config<
    P: Fn(String) -> Option<IpAddress>,
    S: Fn(String) -> Result<bool, String>,
    C: Fn(String) -> Option<String>,
    F: Fn(String) -> bool,
    J: Fn(String) -> Result<JsonValue, String>,
    Rd: Fn(JsonValue) -> Result<String, String>,
    M: Machine,
>(
    config_path: &str,
    peers: &Vec<String>,
    use_admin: bool,
    restart: bool,
    path_dirs: &Vec<String>,
    parse_ip: &P,
    probe: &S,
    canon: &C,
    is_file: &F,
    parse: &J,
    render: &Rd,
    host: &mut Host<M>,
) -> (r: Result<ApplyResult, String>)
    requires
        forall|h: String| call_requires(*parse_ip, (h,)),
        forall|p: String| call_requires(*probe, (p,)),
        forall|p: String| call_requires(*canon, (p,)),
        forall|p: String| call_requires(*is_file, (p,)),
        forall|t: String| call_requires(*parse, (t,)),
        forall|v: JsonValue| call_requires(*render, (v,)),
    ensures
        extends(old(host).events(), final(host).events()),
        peers_applied(
            *parse_ip,
            *probe,
            *canon,
            *is_file,
            *parse,
            *render,
            config_path@,
            peers@,
            use_admin,
            restart,
            texts(path_dirs@),
            since(old(host).events(), final(host).events()),
            apply_view(r),
        ),
{
    let ghost e0 = host.events();
    proof {
        lemma_since_same(e0);
    }
    if let Err(e) = check_peer_selection(peers) {
        return Err(e);
    }
    let v = validate_peer_uris(peers, parse_ip, host);
    let ghost e1 = host.events();
    let ghost gv = unit_result(v);
    proof {
        let seg = since(e0, e1);
        assert(seg.take(seg.len() as int) =~= seg);
    }
    if let Err(e) = v {
        return Err(e);
    }
    let k = ensure_known_config_path(config_path, probe, canon);
    let ghost gk = unit_result(k);
    assert(known_config_verdict(*probe, *canon, config_path@, gk));
    if let Err(e) = k {
        return Err(e);
    }
    if use_admin {
        let w = apply_peers_admin(config_path, peers, restart, probe, is_file, parse, render, host);
        let ghost gw = text_result(w);
        let r = match w {
            Err(e) => Err(e),
            Ok(b) => Ok(applied_result(b, true, restart)),
        };
        proof {
            lemma_since_concat(e0, e1, host.events());
            let seg = since(e0, host.events());
            let k = since(e0, e1).len() as int;
            assert(seg.take(k) =~= since(e0, e1));
            assert(seg.skip(k) =~= since(e1, host.events()));
            assert(admin_write(*probe, *is_file, *parse, *render, config_path@, peers@, restart, seg.skip(k), gw));
            assert(uris_verdict(*parse_ip, texts(peers@), seg.take(k), gv));
        }
        return r;
    }
    let w = write_peers_direct(config_path, peers, path_dirs, probe, is_file, parse, render, host);
    let ghost e2 = host.events();
    let ghost gw = text_result(w);
    let backup = match w {
        Err(e) => {
            proof {
                lemma_since_concat(e0, e1, e2);
                let seg = since(e0, e2);
                let k = since(e0, e1).len() as int;
                assert(seg.take(k) =~= since(e0, e1));
                assert(seg.skip(k) =~= since(e1, e2));
                let rest = seg.skip(k);
                assert(rest.take(rest.len() as int) =~= rest);
                assert(direct_write(*probe, *is_file, *parse, *render, config_path@, peers@, texts(path_dirs@), rest.take(rest.len() as int), gw));
                assert(uris_verdict(*parse_ip, texts(peers@), seg.take(k), gv));
            }
            return Err(e);
        },
        Ok(b) => b,
    };
    if restart {
        let k2 = restart_direct(host);
        let ghost gk2 = unit_result(k2);
        let r = match k2 {
            Err(e) => Err(e),
            Ok(()) => Ok(applied_result(backup, false, true)),
        };
        proof {
            lemma_since_concat(e1, e2, host.events());
            lemma_since_concat(e0, e1, host.events());
            let seg = since(e0, host.events());
            let k = since(e0, e1).len() as int;
            assert(seg.take(k) =~= since(e0, e1));
            let rest = seg.skip(k);
            assert(rest =~= since(e1, host.events()));
            let j = since(e1, e2).len() as int;
            assert(rest.take(j) =~= since(e1, e2));
            assert(rest.skip(j) =~= since(e2, host.events()));
            assert(direct_write(*probe, *is_file, *parse, *render, config_path@, peers@, texts(path_dirs@), rest.take(j), gw));
            assert(restarted(rest.skip(j), gk2));
            assert(uris_verdict(*parse_ip, texts(peers@), seg.take(k), gv));
        }
        return r;
    }
    let r = Ok(applied_result(backup, false, false));
    proof {
        lemma_since_concat(e0, e1, e2);
        let seg = since(e0, e2);
        let k = since(e0, e1).len() as int;
        assert(seg.take(k) =~= since(e0, e1));
        let rest = seg.skip(k);
        assert(rest =~= since(e1, e2));
        assert(rest.take(rest.len() as int) =~= rest);
        assert(direct_write(*probe, *is_file, *parse, *render, config_path@, peers@, texts(path_dirs@), rest.take(rest.len() as int), gw));
        assert(uris_verdict(*parse_ip, texts(peers@), seg.take(k), gv));
    }
    r
}

/// Applying peers does nothing but look up names unless the selection is not
/// empty, every selected peer was accepted and the configuration path passed
/// `ensure_known_config_path`: a refused apply runs, copies, writes and stages
/// nothing.
pub proof fn law_refused_apply_only_looks_up_names<
    P: Fn(String) -> Option<IpAddress>,
    S: Fn(String) -> Result<bool, String>,
    C: Fn(String) -> Option<String>,
    F: Fn(String) -> bool,
    J: Fn(String) -> Result<JsonValue, String>,
    Rd: Fn(JsonValue) -> Result<String, String>,
>(
    parse_ip: P,
    probe: S,
    canon: C,
    is_file: F,
    parse: J,
    render: Rd,
    config_path: Seq<char>,
    peers: Seq<String>,
    use_admin: bool,
    restart: bool,
    path_dirs: Seq<Seq<char>>,
    seg: Seq<Event>,
    r: Result<(Option<Seq<char>>, Seq<char>), Seq<char>>,
)
    requires
        peers_applied(
            parse_ip,
            probe,
            canon,
            is_file,
            parse,
            render,
            config_path,
            peers,
            use_admin,
            restart,
            path_dirs,
            seg,
            r,
        ),
    ensures
        (exists|i: int| 0 <= i < seg.len() && !(#[trigger] seg[i] is Resolved)) ==> {
            &&& peers.len() > 0
            &&& exists|k: int| 0 <= k <= seg.len() && #[trigger] uris_verdict(parse_ip, texts(peers), seg.take(k), Ok(()))
            &&& known_config_verdict(probe, canon, config_path, Ok(()))
        },
{
    if peers.len() > 0 {
        let (k, v) = choose|k: int, v: Result<(), Seq<char>>|
            0 <= k <= seg.len() && #[trigger] uris_verdict(parse_ip, texts(peers), seg.take(k), v) && match v {
                Err(e) => k == seg.len() && r == Err::<(Option<Seq<char>>, Seq<char>), Seq<char>>(e),
                Ok(()) => exists|kc: Result<(), Seq<char>>|
                    #[trigger] known_config_verdict(probe, canon, config_path, kc) && match kc {
                        Err(e) => k == seg.len() && r == Err::<(Option<Seq<char>>, Seq<char>), Seq<char>>(e),
                        Ok(()) => written_as_asked(
                            probe,
                            is_file,
                            parse,
                            render,
                            config_path,
                            peers,
                            use_admin,
                            restart,
                            path_dirs,
                            seg.skip(k),
                            r,
                        ),
                    },
            };
        lemma_uris_verdict_only_resolves(parse_ip, texts(peers), seg.take(k), v);
        if v is Ok {
            let kc = choose|kc: Result<(), Seq<char>>|
                #[trigger] known_config_verdict(probe, canon, config_path, kc) && match kc {
                    Err(e) => k == seg.len() && r == Err::<(Option<Seq<char>>, Seq<char>), Seq<char>>(e),
                    Ok(()) => written_as_asked(
                        probe,
                        is_file,
                        parse,
                        render,
                        config_path,
                        peers,
                        use_admin,
                        restart,
                        path_dirs,
                        seg.skip(k),
                        r,
                    ),
                };
            if kc is Err {
                assert(seg.take(k) =~= seg);
                assert(forall|i: int| 0 <= i < seg.len() ==> #[trigger] seg[i] is Resolved) by {
                    assert forall|i: int| 0 <= i < seg.len() implies #[trigger] seg[i] is Resolved by {
                        assert(seg.take(k)[i] == seg[i]);
                    }
                }
            } else {
                let ghost u: () = v->Ok_0;
                let ghost w: () = kc->Ok_0;
                assert(u == ());
                assert(w == ());
                assert(v == Ok::<(), Seq<char>>(u));
                assert(uris_verdict(parse_ip, texts(peers), seg.take(k), Ok(())));
            }
        } else {
            assert(seg.take(k) =~= seg);
            assert(forall|i: int| 0 <= i < seg.len() ==> #[trigger] seg[i] is Resolved) by {
                assert forall|i: int| 0 <= i < seg.len() implies #[trigger] seg[i] is Resolved by {
                    assert(seg.take(k)[i] == seg[i]);
                }
            }
        }
    }
}

/// Peers are only ever applied where the selection is not empty, every
/// selected peer was accepted (see `law_accepted_peers_are_public`), and the
/// configuration path is a standard location: absolute, not a symbolic link,
/// and the same file as one of the standard locations.
pub proof fn law_peers_applied_only_to_standard_config<
    P: Fn(String) -> Option<IpAddress>,
    S: Fn(String) -> Result<bool, String>,
    C: Fn(String) -> Option<String>,
    F: Fn(String) -> bool,
    J: Fn(String) -> Result<JsonValue, String>,
    Rd: Fn(JsonValue) -> Result<String, String>,
>(
    parse_ip: P,
    probe: S,
    canon: C,
    is_file: F,
    parse: J,
    render: Rd,
    config_path: Seq<char>,
    peers: Seq<String>,
    use_admin: bool,
    restart: bool,
    path_dirs: Seq<Seq<char>>,
    seg: Seq<Event>,
    applied: (Option<Seq<char>>, Seq<char>),
)
    requires
        peers_applied(
            parse_ip,
            probe,
            canon,
            is_file,
            parse,
            render,
            config_path,
            peers,
            use_admin,
            restart,
            path_dirs,
            seg,
            Ok(applied),
        ),
    ensures
        peers.len() > 0,
        exists|k: int| 0 <= k <= seg.len() && #[trigger] uris_verdict(parse_ip, texts(peers), seg.take(k), Ok(())),
        is_absolute(config_path),
        inspected(probe, config_path, Ok(false)),
        exists|i: int|
            0 <= i < config_paths().len() && same_path_answer(canon, config_path, config_paths()[i], true),
{
    let r = Ok::<(Option<Seq<char>>, Seq<char>), Seq<char>>(applied);
    assert(peers.len() > 0);
    let (k, v) = choose|k: int, v: Result<(), Seq<char>>|
        0 <= k <= seg.len() && #[trigger] uris_verdict(parse_ip, texts(peers), seg.take(k), v) && (v is Err ==> r
            is Err) && (v is Ok ==> exists|kc: Result<(), Seq<char>>|
            #[trigger] known_config_verdict(probe, canon, config_path, kc) && (kc is Err ==> r is Err));
    assert(v is Ok);
    let unit = v->Ok_0;
    assert(unit == ());
    assert(v == Ok::<(), Seq<char>>(()));
    let kc = choose|kc: Result<(), Seq<char>>|
        #[trigger] known_config_verdict(probe, canon, config_path, kc) && (kc is Err ==> r is Err);
    assert(kc is Ok);
    let unit2 = kc->Ok_0;
    assert(unit2 == ());
    assert(kc == Ok::<(), Seq<char>>(()));
    assert(is_absolute(config_path));
    let out = choose|out: Result<bool, Seq<char>>|
        inspected(probe, config_path, out) && if out == Ok::<bool, Seq<char>>(false) {
            exists|allowed: bool|
                any_same(canon, config_path, config_paths(), allowed) && kc == if allowed {
                    Ok::<(), Seq<char>>(())
                } else {
                    Err(unknown_to_modify(config_path))
                }
        } else {
            kc == symlink_verdict(config_path, out)
        };
    assert(out == Ok::<bool, Seq<char>>(false));
    let allowed = choose|allowed: bool|
        any_same(canon, config_path, config_paths(), allowed) && kc == if allowed {
            Ok::<(), Seq<char>>(())
        } else {
            Err(unknown_to_modify(config_path))
        };
    assert(allowed);
}

/// In a write without privileges, the configuration is written only after its
/// backup copy succeeded, and at most once: every write among the actions taken
/// comes right after a copy that succeeded.
pub proof fn law_config_written_only_after_backup<
    S: Fn(String) -> Result<bool, String>,
    F: Fn(String) -> bool,
    J: Fn(String) -> Result<JsonValue, String>,
    Rd: Fn(JsonValue) -> Result<String, String>,
>(
    probe: S,
    is_file: F,
    parse: J,
    render: Rd,
    config_path: Seq<char>,
    peers: Seq<String>,
    path_dirs: Seq<Seq<char>>,
    seg: Seq<Event>,
    r: Result<Seq<char>, Seq<char>>,
    i: int,
)
    requires
        direct_write(probe, is_file, parse, render, config_path, peers, path_dirs, seg, r),
        0 <= i < seg.len(),
        seg[i] is Wrote,
    ensures
        i == seg.len() - 1,
        i >= 1,
        seg[i - 1] is Copied,
        seg[i - 1]->Copied_out is Ok,
{
    let sym = choose|sym: Result<bool, Seq<char>>|
        #[trigger] inspected(probe, config_path, sym) && match symlink_verdict(config_path, sym) {
            Err(e) => seg.len() == 0 && r == Err::<Seq<char>, Seq<char>>(e),
            Ok(()) => exists|ygg: Option<Seq<char>>|
                #[trigger] first_found(is_file, binary_candidates("yggdrasil"@, path_dirs), ygg) && match ygg {
                    None => seg.len() == 0 && r == Err::<Seq<char>, Seq<char>>(no_yggdrasil()),
                    Some(y) => {
                        &&& seg.len() >= 1
                        &&& is_run(seg[0], y, normalise_args(config_path))
                        &&& match command_result(run_out(seg[0])) {
                            Err(e) => seg.len() == 1 && r == Err::<Seq<char>, Seq<char>>(e),
                            Ok(text) => exists|cfg: Result<JsonValue, String>|
                                #[trigger] configured(parse, text, peers, cfg) && match cfg {
                                    Err(e) => seg.len() == 1 && r == Err::<Seq<char>, Seq<char>>(e@),
                                    Ok(v) => stored(render, config_path, v, seg.skip(1), r),
                                },
                        }
                    },
                },
        };
    let ygg = choose|ygg: Option<Seq<char>>|
        #[trigger] first_found(is_file, binary_candidates("yggdrasil"@, path_dirs), ygg) && match ygg {
            None => seg.len() == 0 && r == Err::<Seq<char>, Seq<char>>(no_yggdrasil()),
            Some(y) => {
                &&& seg.len() >= 1
                &&& is_run(seg[0], y, normalise_args(config_path))
                &&& match command_result(run_out(seg[0])) {
                    Err(e) => seg.len() == 1 && r == Err::<Seq<char>, Seq<char>>(e),
                    Ok(text) => exists|cfg: Result<JsonValue, String>|
                        #[trigger] configured(parse, text, peers, cfg) && match cfg {
                            Err(e) => seg.len() == 1 && r == Err::<Seq<char>, Seq<char>>(e@),
                            Ok(v) => stored(render, config_path, v, seg.skip(1), r),
                        },
                }
            },
        };
    let text = command_result(run_out(seg[0]))->Ok_0;
    let cfg = choose|cfg: Result<JsonValue, String>|
        #[trigger] configured(parse, text, peers, cfg) && match cfg {
            Err(e) => seg.len() == 1 && r == Err::<Seq<char>, Seq<char>>(e@),
            Ok(v) => stored(render, config_path, v, seg.skip(1), r),
        };
    let rest = seg.skip(1);
    assert(stored(render, config_path, cfg->Ok_0, rest, r));
    assert(rest[i - 1] == seg[i]);
    let t = choose|t: u64| #[trigger] is_copy(rest[0], config_path, backup_text(config_path, t)) && match copy_out(rest[0]) {
        Err(e) => rest.len() == 1 && r == Err::<Seq<char>, Seq<char>>(no_backup(backup_text(config_path, t), e@)),
        Ok(()) => exists|out: Result<String, String>|
            #[trigger] call_ensures(render, (cfg->Ok_0,), out) && match out {
                Err(e) => rest.len() == 1 && r == Err::<Seq<char>, Seq<char>>(unrenderable(e@)),
                Ok(text) => {
                    &&& rest.len() == 2
                    &&& is_write(rest[1], config_path, text@ + seq!['\n'])
                    &&& r == match write_out(rest[1]) {
                        Err(e) => Err::<Seq<char>, Seq<char>>(unwritable(config_path, e@)),
                        Ok(()) => Ok(backup_text(config_path, t)),
                    }
                },
            },
    };
    assert(rest[0] == seg[1]);
    assert(i == 2);
}

} // verus!
