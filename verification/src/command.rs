use vstd::prelude::*;

use crate::machine::{extends, is_run, lemma_push, lemma_since_concat, run_out, since, Event, Host, Machine};
use crate::quoting::{applescript_quote, applescript_quoted, shell_quote, shell_quoted};
use crate::text::{
    chars_of, find_sub, first_occurrence, push_str, slice_chars, string_from, string_of, trim,
    trim_str, trimmed_string,
};

verus! {

/// What a finished command left: whether it succeeded, and its output.
pub struct Captured {
    pub success: bool,
    pub stdout: String,
    pub stderr: String,
}

/// The texts of a result.
pub open spec fn text_result(r: Result<String, String>) -> Result<Seq<char>, Seq<char>> {
    match r {
        Ok(t) => Ok(t@),
        Err(e) => Err(e@),
    }
}

/// The texts of a list.
pub open spec fn texts(v: Seq<String>) -> Seq<Seq<char>> {
    v.map_values(|s: String| s@)
}

/// Adding a text to a list adds its characters to the list's texts.
pub proof fn lemma_texts_push(v: Seq<String>, x: String)
    ensures
        texts(v.push(x)) == texts(v).push(x@),
{
    assert(texts(v.push(x)) =~= texts(v).push(x@));
}

/// The message for a failed command: its trimmed standard output and standard
/// error, on two lines where both are there.
pub open spec fn joined(stdout: Seq<char>, stderr: Seq<char>) -> Seq<char> {
    let o = trim(stdout);
    let e = trim(stderr);
    if o.len() == 0 && e.len() == 0 {
        "Command failed without output."@
    } else if e.len() == 0 {
        o
    } else if o.len() == 0 {
        e
    } else {
        o + seq!['\n'] + e
    }
}

/// The message for the failed command `captured`.
pub fn join_output(captured: Captured) -> (r: String)
    ensures
        r@ == joined(captured.stdout@, captured.stderr@),
{
    let o = trim_str(captured.stdout.as_str());
    let e = trim_str(captured.stderr.as_str());
    let oc = chars_of(o.as_str());
    let ec = chars_of(e.as_str());
    if oc.len() == 0 && ec.len() == 0 {
        string_from("Command failed without output.")
    } else if ec.len() == 0 {
        o
    } else if oc.len() == 0 {
        e
    } else {
        let mut out: Vec<char> = Vec::new();
        push_str(&mut out, o.as_str());
        out.push('\n');
        push_str(&mut out, e.as_str());
        assert(out@ =~= trim(captured.stdout@) + seq!['\n'] + trim(captured.stderr@));
        string_of(&out)
    }
}

/// The list of `a` and `b`.
pub(crate) fn two(a: &str, b: &str) -> (r: Vec<String>)
    ensures
        texts(r@) == seq![a@, b@],
{
    let mut v: Vec<String> = Vec::new();
    v.push(string_from(a));
    v.push(string_from(b));
    assert(texts(v@) =~= seq![a@, b@]);
    v
}

/// The AppleScript that runs the shell script `script` with administrator
/// privileges.
pub open spec fn privileged_invocation(script: Seq<char>) -> Seq<char> {
    "do shell script "@ + applescript_quoted("/bin/sh -c "@ + shell_quoted("set -eu; "@ + script))
        + " with administrator privileges"@
}

/// What running a command comes to: the standard output of a command that
/// succeeded; otherwise the failure to start it or its joined output.
pub open spec fn command_result(out: Result<Captured, String>) -> Result<Seq<char>, Seq<char>> {
    match out {
        Err(e) => Err(e@),
        Ok(c) => if c.success {
            Ok(c.stdout@)
        } else {
            Err(joined(c.stdout@, c.stderr@))
        },
    }
}

/// The arguments that make `osascript` run the shell script `script` with
/// administrator privileges.
pub open spec fn privileged_args(script: Seq<char>) -> Seq<Seq<char>> {
    seq!["-e"@, privileged_invocation(script)]
}

/// Whether the actions `seg` are exactly one run of `osascript` for the shell
/// script `script`, and `r` is what it came to.
pub open spec fn privileged_ran(seg: Seq<Event>, script: Seq<char>, r: Result<Seq<char>, Seq<char>>) -> bool {
    &&& seg.len() == 1
    &&& is_run(seg[0], "/usr/bin/osascript"@, privileged_args(script))
    &&& r == command_result(run_out(seg[0]))
}

/// Runs the shell script `script` as an administrator through `osascript`,
/// which asks for the password; gives the script's standard output.
pub fn run_privileged_shell<M: Machine>(script: &str, host: &mut Host<M>) -> (r: Result<String, String>)
    ensures
        extends(old(host).events(), final(host).events()),
        privileged_ran(since(old(host).events(), final(host).events()), script@, text_result(r)),
{
    let mut inner: Vec<char> = Vec::new();
    push_str(&mut inner, "set -eu; ");
    push_str(&mut inner, script);
    let inner_s = string_of(&inner);
    let quoted = shell_quote(inner_s.as_str());
    let mut shell: Vec<char> = Vec::new();
    push_str(&mut shell, "/bin/sh -c ");
    push_str(&mut shell, quoted.as_str());
    let shell_s = string_of(&shell);
    let aq = applescript_quote(shell_s.as_str());
    let mut apple: Vec<char> = Vec::new();
    push_str(&mut apple, "do shell script ");
    push_str(&mut apple, aq.as_str());
    push_str(&mut apple, " with administrator privileges");
    let apple_s = string_of(&apple);
    assert(apple_s@ =~= privileged_invocation(script@));
    let args = two("-e", apple_s.as_str());
    let ghost before = host.events();
    let out = host.run(string_from("/usr/bin/osascript"), args);
    proof {
        reveal_strlit("/usr/bin/osascript");
        lemma_push(before, host.events().last());
    }
    match out {
        Ok(captured) => {
            if captured.success {
                Ok(captured.stdout)
            } else {
                Err(join_output(captured))
            }
        },
        Err(e) => Err(e),
    }
}

/// The arguments that make `launchctl` restart the daemon.
pub open spec fn kickstart_args() -> Seq<Seq<char>> {
    seq!["kickstart"@, "-k"@, "system/yggdrasil"@]
}

/// Whether the actions `seg` are exactly one run of `launchctl` restarting the
/// daemon, and `r` is what it came to: success where it succeeded, else the
/// failure to start it or its joined output.
pub open spec fn restarted(seg: Seq<Event>, r: Result<(), Seq<char>>) -> bool {
    &&& seg.len() == 1
    &&& is_run(seg[0], "/bin/launchctl"@, kickstart_args())
    &&& r == match command_result(run_out(seg[0])) {
        Ok(_) => Ok::<(), Seq<char>>(()),
        Err(e) => Err(e),
    }
}

/// Asks launchd, without privileges, to restart the daemon.
pub fn restart_direct<M: Machine>(host: &mut Host<M>) -> (r: Result<(), String>)
    ensures
        extends(old(host).events(), final(host).events()),
        restarted(since(old(host).events(), final(host).events()), crate::config::unit_result(r)),
{
    let mut args: Vec<String> = Vec::new();
    args.push(string_from("kickstart"));
    args.push(string_from("-k"));
    args.push(string_from("system/yggdrasil"));
    assert(texts(args@) =~= kickstart_args());
    let ghost before = host.events();
    let out = host.run(string_from("/bin/launchctl"), args);
    proof {
        reveal_strlit("/bin/launchctl");
        lemma_push(before, host.events().last());
    }
    match out {
        Ok(captured) => {
            if captured.success {
                Ok(())
            } else {
                Err(join_output(captured))
            }
        },
        Err(e) => Err(e),
    }
}

} // verus!

verus! {

/// The texts of a pair result.
pub open spec fn pair_result(r: Result<(String, String), String>) -> Result<(Seq<char>, Seq<char>), Seq<char>> {
    match r {
        Ok((a, b)) => Ok((a@, b@)),
        Err(e) => Err(e@),
    }
}

/// The arguments that ask `yggdrasilctl` for `query` as JSON.
pub open spec fn ctl_args(query: Seq<char>) -> Seq<Seq<char>> {
    seq!["-json"@, query]
}

/// Whether the actions `seg` are what asking `ctl` for `getSelf` and then, only
/// if that succeeded, for `getPeers` takes, and `r` is what they came to: the
/// two answers, or the first failure.
pub open spec fn pair_asked(ctl: Seq<char>, seg: Seq<Event>, r: Result<(Seq<char>, Seq<char>), Seq<char>>) -> bool {
    &&& seg.len() >= 1
    &&& is_run(seg[0], ctl, ctl_args("getSelf"@))
    &&& match command_result(run_out(seg[0])) {
        Err(e) => seg.len() == 1 && r == Err::<(Seq<char>, Seq<char>), Seq<char>>(e),
        Ok(first) => {
            &&& seg.len() == 2
            &&& is_run(seg[1], ctl, ctl_args("getPeers"@))
            &&& r == match command_result(run_out(seg[1])) {
                Err(e) => Err::<(Seq<char>, Seq<char>), Seq<char>>(e),
                Ok(second) => Ok((first, second)),
            }
        },
    }
}

/// Asks `ctl` for `getSelf` and then, if that succeeded, for `getPeers`, both as
/// JSON; gives the two answers, or the first failure.
pub fn run_yggdrasilctl_pair<M: Machine>(ctl: &str, host: &mut Host<M>) -> (r: Result<(String, String), String>)
    ensures
        extends(old(host).events(), final(host).events()),
        pair_asked(ctl@, since(old(host).events(), final(host).events()), pair_result(r)),
{
    let ghost e0 = host.events();
    let a1 = two("-json", "getSelf");
    let first = host.run(string_from(ctl), a1);
    let ghost e1 = host.events();
    proof {
        lemma_push(e0, e1.last());
    }
    let self_result = match first {
        Ok(c) => c,
        Err(e) => {
            return Err(e);
        },
    };
    if !self_result.success {
        return Err(join_output(self_result));
    }
    let a2 = two("-json", "getPeers");
    let second = host.run(string_from(ctl), a2);
    proof {
        lemma_push(e1, host.events().last());
        lemma_since_concat(e0, e1, host.events());
        assert(since(e0, host.events()) =~= seq![e1.last(), host.events().last()]);
    }
    match second {
        Ok(c) => {
            if c.success {
                Ok((self_result.stdout, c.stdout))
            } else {
                Err(join_output(c))
            }
        },
        Err(e) => Err(e),
    }
}

/// The separator printed between the two answers of the privileged query.
pub open spec fn admin_split() -> Seq<char> {
    "__YGGDRE_SPLIT__"@
}

/// The shell script that asks `ctl` for `getSelf` and `getPeers`, with the
/// separator printed on a line between them.
pub open spec fn pair_script(ctl: Seq<char>) -> Seq<char> {
    shell_quoted(ctl) + " -json getSelf\nprintf '\n"@ + admin_split() + "\n'\n"@ + shell_quoted(ctl)
        + " -json getPeers"@
}

/// `s` with each carriage return read as a line feed.
pub open spec fn cr_as_nl(s: Seq<char>) -> Seq<char> {
    s.map_values(|c: char| if c == '\r' { '\n' } else { c })
}

/// The two answers in the output of the privileged query: the trimmed texts
/// before and after the first separator.
pub open spec fn split_pair(output: Seq<char>) -> Result<(Seq<char>, Seq<char>), Seq<char>> {
    let t = cr_as_nl(output);
    let k = first_occurrence(t, admin_split(), 0);
    if k < 0 {
        Err("Admin yggdrasilctl output did not contain expected separator."@)
    } else {
        Ok((trim(t.take(k)), trim(t.skip(k + admin_split().len()))))
    }
}

/// Whether the actions `seg` are exactly one privileged run asking `ctl` for
/// `getSelf` and `getPeers`, and `r` is what it came to.
pub open spec fn pair_asked_admin(ctl: Seq<char>, seg: Seq<Event>, r: Result<(Seq<char>, Seq<char>), Seq<char>>) -> bool {
    &&& seg.len() == 1
    &&& is_run(seg[0], "/usr/bin/osascript"@, privileged_args(pair_script(ctl)))
    &&& r == match command_result(run_out(seg[0])) {
        Err(e) => Err(e),
        Ok(out) => split_pair(out),
    }
}

/// Asks `ctl` for `getSelf` and `getPeers` in one privileged shell script, and
/// splits its output into the two answers.
pub fn run_yggdrasilctl_pair_admin<M: Machine>(ctl: &str, host: &mut Host<M>) -> (r: Result<
    (String, String),
    String,
>)
    ensures
        extends(old(host).events(), final(host).events()),
        pair_asked_admin(ctl@, since(old(host).events(), final(host).events()), pair_result(r)),
{
    let q = shell_quote(ctl);
    let mut script: Vec<char> = Vec::new();
    push_str(&mut script, q.as_str());
    push_str(&mut script, " -json getSelf\nprintf '\n");
    push_str(&mut script, "__YGGDRE_SPLIT__");
    push_str(&mut script, "\n'\n");
    push_str(&mut script, q.as_str());
    push_str(&mut script, " -json getPeers");
    let script_s = string_of(&script);
    assert(script_s@ =~= pair_script(ctl@));
    let res = run_privileged_shell(script_s.as_str(), host);
    let output = match res {
        Ok(o) => o,
        Err(e) => {
            return Err(e);
        },
    };
    let oc = chars_of(output.as_str());
    let mut t: Vec<char> = Vec::new();
    let mut i: usize = 0;
    while i < oc.len()
        invariant
            i <= oc.len(),
            t@ == cr_as_nl(oc@).take(i as int),
        decreases oc.len() - i,
    {
        if oc[i] == '\r' {
            t.push('\n');
        } else {
            t.push(oc[i]);
        }
        assert(cr_as_nl(oc@).take(i + 1) =~= cr_as_nl(oc@).take(i as int).push(cr_as_nl(oc@)[i as int]));
        i = i + 1;
    }
    assert(cr_as_nl(oc@).take(oc.len() as int) =~= cr_as_nl(oc@));
    let sep = chars_of("__YGGDRE_SPLIT__");
    match find_sub(&t, &sep) {
        None => Err(string_from("Admin yggdrasilctl output did not contain expected separator.")),
        Some(k) => {
            let before = slice_chars(&t, 0, k);
            let after = slice_chars(&t, k + sep.len(), t.len());
            assert(before@ =~= t@.take(k as int));
            assert(after@ =~= t@.skip(k + sep@.len()));
            Ok((trimmed_string(&before), trimmed_string(&after)))
        },
    }
}

} // verus!
