use vstd::prelude::*;

use crate::laws::stands_at;
use crate::peers::opt_text;
use crate::quoting::{shell_quote, shell_quoted};
use crate::text::{
    chars_of, contains, find_sub, first_occurrence, lemma_first_occurrence_bounds, push_str,
    slice_chars, string_from, string_of, trim, trimmed_string,
};

verus! {

/// The command that prints the configuration at `config_path`, normalised, as
/// JSON, using the binary at `yggdrasil_path`.
pub open spec fn normalise_text(yggdrasil_path: Seq<char>, config_path: Seq<char>) -> Seq<char> {
    shell_quoted(yggdrasil_path) + " -normaliseconf -json -useconffile "@ + shell_quoted(config_path)
}

/// The command that prints the normalised configuration.
pub fn normalise_script(yggdrasil_path: &str, config_path: &str) -> (r: String)
    ensures
        r@ == normalise_text(yggdrasil_path@, config_path@),
{
    let a = shell_quote(yggdrasil_path);
    let b = shell_quote(config_path);
    let mut out: Vec<char> = Vec::new();
    push_str(&mut out, a.as_str());
    push_str(&mut out, " -normaliseconf -json -useconffile ");
    push_str(&mut out, b.as_str());
    string_of(&out)
}

/// The privileged script that backs up the configuration at `config_path`,
/// installs the staged file `staged_path` in its place with the same mode and
/// owner, removes the staged file, prints the backup path, and, where
/// `restart` is asked, restarts the daemon.
pub open spec fn install_config_text(config_path: Seq<char>, staged_path: Seq<char>, restart: bool) -> Seq<char> {
    "CONFIG="@ + shell_quoted(config_path) + "; TMP="@ + shell_quoted(staged_path)
        + "; BACKUP=\"${CONFIG}.yggdre-backup.$(/bin/date +%s)\"; MODE=$(/usr/bin/stat -f %Lp \"$CONFIG\"); OWNER=$(/usr/bin/stat -f %u \"$CONFIG\"); GROUP=$(/usr/bin/stat -f %g \"$CONFIG\"); /bin/cp -p \"$CONFIG\" \"$BACKUP\"; /usr/bin/install -m \"$MODE\" -o \"$OWNER\" -g \"$GROUP\" \"$TMP\" \"$CONFIG\"; /bin/rm -f \"$TMP\"; /bin/echo \"$BACKUP\""@
        + if restart {
        "; /bin/launchctl kickstart -k system/yggdrasil"@
    } else {
        seq![]
    }
}

/// The privileged script that installs a staged configuration.
pub fn install_config_script(config_path: &str, staged_path: &str, restart: bool) -> (r: String)
    ensures
        r@ == install_config_text(config_path@, staged_path@, restart),
{
    let a = shell_quote(config_path);
    let b = shell_quote(staged_path);
    let mut out: Vec<char> = Vec::new();
    push_str(&mut out, "CONFIG=");
    push_str(&mut out, a.as_str());
    push_str(&mut out, "; TMP=");
    push_str(&mut out, b.as_str());
    push_str(
        &mut out,
        "; BACKUP=\"${CONFIG}.yggdre-backup.$(/bin/date +%s)\"; MODE=$(/usr/bin/stat -f %Lp \"$CONFIG\"); OWNER=$(/usr/bin/stat -f %u \"$CONFIG\"); GROUP=$(/usr/bin/stat -f %g \"$CONFIG\"); /bin/cp -p \"$CONFIG\" \"$BACKUP\"; /usr/bin/install -m \"$MODE\" -o \"$OWNER\" -g \"$GROUP\" \"$TMP\" \"$CONFIG\"; /bin/rm -f \"$TMP\"; /bin/echo \"$BACKUP\"",
    );
    if restart {
        push_str(&mut out, "; /bin/launchctl kickstart -k system/yggdrasil");
    }
    assert(out@ =~= install_config_text(config_path@, staged_path@, restart));
    string_of(&out)
}

/// The marker in the name of a backup file.
pub open spec fn backup_marker() -> Seq<char> {
    ".yggdre-backup."@
}

/// The trimmed first line of `s` that holds the backup marker, if any.
pub open spec fn backup_line(s: Seq<char>) -> Option<Seq<char>>
    decreases s.len(),
{
    if s.len() == 0 {
        None
    } else {
        let k = first_occurrence(s, seq!['\n'], 0);
        let line = if k < 0 { s } else { s.take(k) };
        if contains(line, backup_marker()) {
            Some(trim(line))
        } else if k < 0 {
            None
        } else {
            proof {
                lemma_first_occurrence_bounds(s, seq!['\n'], 0);
            }
            backup_line(s.skip(k + 1))
        }
    }
}

/// The backup path that the install script printed in `output`; an error
/// where it printed none.
pub fn reported_backup_path(output: &str) -> (r: Result<String, String>)
    ensures
        match r {
            Ok(p) => backup_line(output@) == Some(p@),
            Err(e) => backup_line(output@) is None
                && e@ == "Admin apply completed, but backup path was not reported."@,
        },
{
    let v = chars_of(output);
    let nl: Vec<char> = vec!['\n'];
    assert(nl@ =~= seq!['\n']);
    let marker = chars_of(".yggdre-backup.");
    let mut rest = slice_chars(&v, 0, v.len());
    assert(rest@ =~= v@);
    while rest.len() > 0
        invariant
            nl@ == seq!['\n'],
            marker@ == backup_marker(),
            backup_line(output@) == backup_line(rest@),
        decreases rest.len(),
    {
        let found = find_sub(&rest, &nl);
        let end = match found {
            Some(k) => k,
            None => rest.len(),
        };
        proof {
            lemma_first_occurrence_bounds(rest@, seq!['\n'], 0);
        }
        let line = slice_chars(&rest, 0, end);
        let ghost k = first_occurrence(rest@, seq!['\n'], 0);
        assert(line@ =~= (if k < 0 { rest@ } else { rest@.take(k) }));
        let hit = find_sub(&line, &marker);
        proof {
            lemma_first_occurrence_bounds(line@, marker@, 0);
            lemma_contains_first(line@, marker@);
        }
        if hit.is_some() {
            return Ok(trimmed_string(&line));
        }
        match found {
            None => {
                return Err(string_from("Admin apply completed, but backup path was not reported."));
            },
            Some(k) => {
                rest = slice_chars(&rest, k + 1, rest.len());
            },
        }
    }
    Err(string_from("Admin apply completed, but backup path was not reported."))
}

proof fn lemma_first_from(s: Seq<char>, p: Seq<char>, k: int, j: int)
    requires
        0 <= k <= j,
        crate::text::occurs_at(s, p, j),
    ensures
        first_occurrence(s, p, k) >= 0,
    decreases j - k,
{
    if !crate::text::occurs_at(s, p, k) {
        lemma_first_from(s, p, k + 1, j);
    }
}

/// `p` occurs in `s` exactly where its first occurrence is found.
pub proof fn lemma_contains_first(s: Seq<char>, p: Seq<char>)
    ensures
        contains(s, p) <==> first_occurrence(s, p, 0) >= 0,
{
    lemma_first_occurrence_bounds(s, p, 0);
    if contains(s, p) {
        let j = choose|j: int| crate::text::occurs_at(s, p, j);
        lemma_first_from(s, p, 0, j);
    }
}

/// The privileged script that creates a configuration at `config_path` with
/// the binary at `yggdrasil_path`, owned by root and readable by root only.
pub open spec fn create_config_text(config_path: Seq<char>, yggdrasil_path: Seq<char>) -> Seq<char> {
    "CONFIG="@ + shell_quoted(config_path) + "; umask 077; "@ + shell_quoted(yggdrasil_path)
        + " -genconf > \"$CONFIG\"; /usr/sbin/chown root:wheel \"$CONFIG\"; /bin/chmod 600 \"$CONFIG\"; /bin/echo \"Created config: $CONFIG\""@
}

/// The privileged script that creates a configuration.
pub fn create_config_script(config_path: &str, yggdrasil_path: &str) -> (r: String)
    ensures
        r@ == create_config_text(config_path@, yggdrasil_path@),
{
    let a = shell_quote(config_path);
    let b = shell_quote(yggdrasil_path);
    let mut out: Vec<char> = Vec::new();
    push_str(&mut out, "CONFIG=");
    push_str(&mut out, a.as_str());
    push_str(&mut out, "; umask 077; ");
    push_str(&mut out, b.as_str());
    push_str(
        &mut out,
        " -genconf > \"$CONFIG\"; /usr/sbin/chown root:wheel \"$CONFIG\"; /bin/chmod 600 \"$CONFIG\"; /bin/echo \"Created config: $CONFIG\"",
    );
    string_of(&out)
}

/// Where the launchd daemon's property list is installed.
pub open spec fn daemon_target() -> Seq<char> {
    "/Library/LaunchDaemons/yggdrasil.plist"@
}

/// The privileged script that installs the property list `plist` as the launchd
/// daemon, loads it and starts it.
pub open spec fn install_daemon_text(plist: Seq<char>) -> Seq<char> {
    "TARGET="@ + shell_quoted(daemon_target()) + "; PLIST="@ + shell_quoted(plist)
        + "; /bin/echo \"$PLIST\" > \"$TARGET\"; /usr/sbin/chown root:wheel \"$TARGET\"; /bin/chmod 644 \"$TARGET\"; /bin/launchctl bootout system \"$TARGET\" >/dev/null 2>&1 || true; /bin/launchctl bootstrap system \"$TARGET\"; /bin/launchctl enable system/yggdrasil; /bin/launchctl kickstart -k system/yggdrasil; /bin/echo \"Installed launchd daemon: $TARGET\""@
}

/// Law: in the daemon install script, whatever the property list, the bootout
/// of a daemon loaded before is followed by `|| true` and then at once by the
/// bootstrap of the new one, so under `set -eu` a daemon that was never loaded
/// still gets bootstrapped.
pub proof fn law_install_goes_on_past_bootout(plist: Seq<char>)
    ensures
        exists|i: int|
            stands_at(
                install_daemon_text(plist),
                i,
                "/bin/launchctl bootout system \"$TARGET\" >/dev/null 2>&1 || true; /bin/launchctl bootstrap system \"$TARGET\";"@,
            ),
{
    let needle = "/bin/launchctl bootout system \"$TARGET\" >/dev/null 2>&1 || true; /bin/launchctl bootstrap system \"$TARGET\";"@;
    let p = "TARGET="@ + shell_quoted(daemon_target()) + "; PLIST="@ + shell_quoted(plist);
    let q = "; /bin/echo \"$PLIST\" > \"$TARGET\"; /usr/sbin/chown root:wheel \"$TARGET\"; /bin/chmod 644 \"$TARGET\"; /bin/launchctl bootout system \"$TARGET\" >/dev/null 2>&1 || true; /bin/launchctl bootstrap system \"$TARGET\"; /bin/launchctl enable system/yggdrasil; /bin/launchctl kickstart -k system/yggdrasil; /bin/echo \"Installed launchd daemon: $TARGET\""@;
    let m1 = "; /bin/echo \"$PLIST\" > \"$TARGET\"; /usr/sbin/chown root:wheel \"$TARGET\"; /bin/chmod 644 \"$TARGET\"; "@;
    let m2 = " /bin/launchctl enable system/yggdrasil; /bin/launchctl kickstart -k system/yggdrasil; /bin/echo \"Installed launchd daemon: $TARGET\""@;
    reveal_strlit("/bin/launchctl bootout system \"$TARGET\" >/dev/null 2>&1 || true; /bin/launchctl bootstrap system \"$TARGET\";");
    reveal_strlit("; /bin/echo \"$PLIST\" > \"$TARGET\"; /usr/sbin/chown root:wheel \"$TARGET\"; /bin/chmod 644 \"$TARGET\"; /bin/launchctl bootout system \"$TARGET\" >/dev/null 2>&1 || true; /bin/launchctl bootstrap system \"$TARGET\"; /bin/launchctl enable system/yggdrasil; /bin/launchctl kickstart -k system/yggdrasil; /bin/echo \"Installed launchd daemon: $TARGET\"");
    reveal_strlit("; /bin/echo \"$PLIST\" > \"$TARGET\"; /usr/sbin/chown root:wheel \"$TARGET\"; /bin/chmod 644 \"$TARGET\"; ");
    reveal_strlit(" /bin/launchctl enable system/yggdrasil; /bin/launchctl kickstart -k system/yggdrasil; /bin/echo \"Installed launchd daemon: $TARGET\"");
    assert(q =~= m1 + needle + m2);
    let t = install_daemon_text(plist);
    assert(t == p + q);
    let i: int = (p.len() + m1.len()) as int;
    assert(t =~= (p + m1) + needle + m2);
    assert(t.subrange(i, i + needle.len() as int) =~= needle);
    assert(stands_at(t, i, needle));
}

/// The privileged script that installs the launchd daemon.
pub fn install_daemon_script(plist: &str) -> (r: String)
    ensures
        r@ == install_daemon_text(plist@),
{
    let a = shell_quote("/Library/LaunchDaemons/yggdrasil.plist");
    let b = shell_quote(plist);
    let mut out: Vec<char> = Vec::new();
    push_str(&mut out, "TARGET=");
    push_str(&mut out, a.as_str());
    push_str(&mut out, "; PLIST=");
    push_str(&mut out, b.as_str());
    push_str(
        &mut out,
        "; /bin/echo \"$PLIST\" > \"$TARGET\"; /usr/sbin/chown root:wheel \"$TARGET\"; /bin/chmod 644 \"$TARGET\"; /bin/launchctl bootout system \"$TARGET\" >/dev/null 2>&1 || true; /bin/launchctl bootstrap system \"$TARGET\"; /bin/launchctl enable system/yggdrasil; /bin/launchctl kickstart -k system/yggdrasil; /bin/echo \"Installed launchd daemon: $TARGET\"",
    );
    string_of(&out)
}

/// What an action on the node reports: where a backup was made, and a message.
pub struct ApplyResult {
    pub backup_path: Option<String>,
    pub message: String,
}

/// Refuses to apply an empty selection of peers.
pub fn check_peer_selection(peers: &Vec<String>) -> (r: Result<(), String>)
    ensures
        match r {
            Ok(()) => peers@.len() > 0,
            Err(e) => peers@.len() == 0 && e@ == "Select at least one peer before applying config."@,
        },
{
    if peers.len() == 0 {
        Err(string_from("Select at least one peer before applying config."))
    } else {
        Ok(())
    }
}

/// The message after peers were written, with or without privileges, and
/// with or without a restart.
pub open spec fn applied_message(use_admin: bool, restart: bool) -> Seq<char> {
    if use_admin {
        if restart {
            "Peers written with admin privileges; daemon restart requested."@
        } else {
            "Peers written with admin privileges."@
        }
    } else if restart {
        "Peers written; daemon restart requested."@
    } else {
        "Peers written."@
    }
}

/// What applying peers reports, given the backup that was made.
pub fn applied_result(backup: String, use_admin: bool, restart: bool) -> (r: ApplyResult)
    ensures
        opt_text(r.backup_path) == Some(backup@),
        r.message@ == applied_message(use_admin, restart),
{
    let message = if use_admin {
        if restart {
            string_from("Peers written with admin privileges; daemon restart requested.")
        } else {
            string_from("Peers written with admin privileges.")
        }
    } else if restart {
        string_from("Peers written; daemon restart requested.")
    } else {
        string_from("Peers written.")
    };
    ApplyResult { backup_path: Some(backup), message }
}

} // verus!
