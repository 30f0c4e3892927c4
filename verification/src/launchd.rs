use vstd::prelude::*;

use crate::command::{texts, Captured};
use crate::machine::{extends, is_run, lemma_push, run_out, since, Event, Host, Machine};
use crate::peers::opt_text;
use crate::quoting::xml_escape;
use crate::text::{
    chars_of, escaped, escaped_char, find_sub, first_occurrence, lemma_first_occurrence_bounds, parse_u32,
    parse_u32_str, push_str, slice_chars, starts_with, string_from, string_of, trim, trim_chars,
    EscapeStyle,
};

verus! {

/// The value that launchd's report `s` gives after `prefix`: on the first line
/// that begins with `prefix` once trimmed, the trimmed rest of that line.
pub open spec fn launchd_value(s: Seq<char>, prefix: Seq<char>) -> Option<Seq<char>>
    decreases s.len(),
{
    if s.len() == 0 {
        None
    } else {
        let k = first_occurrence(s, seq!['\n'], 0);
        let line = if k < 0 { s } else { s.take(k) };
        let t = trim(line);
        if starts_with(t, prefix) {
            Some(trim(t.skip(prefix.len() as int)))
        } else if k < 0 {
            None
        } else {
            proof {
                lemma_first_occurrence_bounds(s, seq!['\n'], 0);
            }
            launchd_value(s.skip(k + 1), prefix)
        }
    }
}

/// The value after `prefix` in launchd's report `source`; see `launchd_value`.
pub fn parse_launchd_string(source: &str, prefix: &str) -> (r: Option<String>)
    ensures
        opt_text(r) == launchd_value(source@, prefix@),
{
    let v = chars_of(source);
    let p = chars_of(prefix);
    let nl: Vec<char> = vec!['\n'];
    assert(nl@ =~= seq!['\n']);
    let mut rest = slice_chars(&v, 0, v.len());
    assert(rest@ =~= v@);
    while rest.len() > 0
        invariant
            p@ == prefix@,
            nl@ == seq!['\n'],
            launchd_value(source@, prefix@) == launchd_value(rest@, prefix@),
            v@ == source@,
        decreases rest.len(),
    {
        let found = find_sub(&rest, &nl);
        let end = match found {
            Some(k) => k,
            None => rest.len(),
        };
        proof {
            lemma_first_occurrence_bounds(rest@, seq!['\n'], 0);
        }
        let line = slice_chars(&rest, 0, end);
        let t = trim_chars(&line);
        let ghost k = first_occurrence(rest@, seq!['\n'], 0);
        assert(line@ =~= (if k < 0 { rest@ } else { rest@.take(k) }));
        if p.len() <= t.len() {
            let head = slice_chars(&t, 0, p.len());
            if crate::order::lex_less_chars(&head, &p) == false && crate::order::lex_less_chars(&p, &head) == false {
                proof {
                    crate::order::lemma_lex_less_asymmetric(head@, p@);
                    if head@ != p@ {
                        crate::order::lemma_lex_less_total(head@, p@);
                    }
                }
                assert(head@ =~= t@.take(p@.len() as int));
                let tail = slice_chars(&t, p.len(), t.len());
                assert(tail@ =~= t@.skip(p@.len() as int));
                let value = trim_chars(&tail);
                return Some(string_of(&value));
            } else {
                proof {
                    crate::order::lemma_lex_less_asymmetric(head@, p@);
                }
                assert(head@ =~= t@.take(p@.len() as int));
            }
        }
        match found {
            None => {
                return None;
            },
            Some(k) => {
                rest = slice_chars(&rest, k + 1, rest.len());
            },
        }
    }
    None
}

/// What launchd reports of the `yggdrasil` service.
pub struct LaunchdStatus {
    pub label: String,
    pub found: bool,
    pub state: Option<String>,
    pub pid: Option<u32>,
    pub path: Option<String>,
}

/// Whether `s` is the status that the outcome `out` of `launchctl print` gives:
/// the service is found where the command succeeded, with the state, process id
/// and path that its report gives; where the command could not start, the
/// message stands in the path.
pub open spec fn launchd_status_of(s: LaunchdStatus, out: Result<Captured, String>) -> bool {
    &&& s.label@ == "yggdrasil"@
    &&& match out {
        Err(e) => !s.found && s.state is None && s.pid is None && opt_text(s.path) == Some(e@),
        Ok(c) => if c.success {
            &&& s.found
            &&& opt_text(s.state) == launchd_value(c.stdout@, "state = "@)
            &&& opt_text(s.path) == launchd_value(c.stdout@, "path = "@)
            &&& s.pid == match launchd_value(c.stdout@, "pid = "@) {
                Some(t) => parse_u32(t),
                None => None,
            }
        } else {
            !s.found && s.state is None && s.pid is None && s.path is None
        },
    }
}

/// The arguments that make `launchctl` print the daemon's service.
pub open spec fn print_args() -> Seq<Seq<char>> {
    seq!["print"@, "system/yggdrasil"@]
}

/// Whether the actions `seg` are exactly one run of `launchctl` printing the
/// daemon's service, and `s` is what `launchd_status` reports from it.
pub open spec fn launchd_reported(seg: Seq<Event>, s: LaunchdStatus) -> bool {
    &&& seg.len() == 1
    &&& is_run(seg[0], "/bin/launchctl"@, print_args())
    &&& launchd_status_of(s, run_out(seg[0]))
}

/// Asks launchd about the `yggdrasil` service.
pub fn launchd_status<M: Machine>(host: &mut Host<M>) -> (r: LaunchdStatus)
    ensures
        extends(old(host).events(), final(host).events()),
        launchd_reported(since(old(host).events(), final(host).events()), r),
{
    let mut args: Vec<String> = Vec::new();
    args.push(string_from("print"));
    args.push(string_from("system/yggdrasil"));
    assert(texts(args@) =~= print_args());
    let ghost before = host.events();
    let out = host.run(string_from("/bin/launchctl"), args);
    proof {
        reveal_strlit("/bin/launchctl");
        lemma_push(before, host.events().last());
    }
    let ghost g = out;
    let label = string_from("yggdrasil");
    let r = match out {
        Err(e) => LaunchdStatus { label, found: false, state: None, pid: None, path: Some(e) },
        Ok(c) => {
            if !c.success {
                LaunchdStatus { label, found: false, state: None, pid: None, path: None }
            } else {
                let state = parse_launchd_string(c.stdout.as_str(), "state = ");
                let path = parse_launchd_string(c.stdout.as_str(), "path = ");
                let pid = match parse_launchd_string(c.stdout.as_str(), "pid = ") {
                    Some(t) => parse_u32_str(t.as_str()),
                    None => None,
                };
                LaunchdStatus { label, found: true, state, pid, path }
            }
        },
    };
    assert(launchd_status_of(r, g));
    r
}

/// The property list of the launchd daemon that runs `yggdrasil_path` with the
/// configuration `config_path`, both written as XML text.
pub open spec fn plist_text(yggdrasil_path: Seq<char>, config_path: Seq<char>) -> Seq<char> {
    "<?xml version=\"1.0\" encoding=\"UTF-8\"?><!DOCTYPE plist PUBLIC \"-//Apple//DTD PLIST 1.0//EN\" \"http://www.apple.com/DTDs/PropertyList-1.0.dtd\"><plist version=\"1.0\"><dict><key>Label</key><string>yggdrasil</string><key>ProgramArguments</key><array><string>"@
        + escaped(EscapeStyle::Xml, yggdrasil_path) + "</string><string>-useconffile</string><string>"@
        + escaped(EscapeStyle::Xml, config_path)
        + "</string></array><key>KeepAlive</key><true/><key>RunAtLoad</key><true/><key>ProcessType</key><string>Interactive</string><key>StandardOutPath</key><string>/tmp/yggdrasil.stdout.log</string><key>StandardErrorPath</key><string>/tmp/yggdrasil.stderr.log</string></dict></plist>"@
}

/// `s` holds none of the characters that open or close XML markup or an
/// attribute value: `<`, `>`, `"` and `'`.
pub open spec fn markup_free(s: Seq<char>) -> bool {
    forall|i: int|
        0 <= i < s.len() ==> #[trigger] s[i] != '<' && s[i] != '>' && s[i] != '"' && s[i] != '\''
}

proof fn lemma_xml_escaped_markup_free(s: Seq<char>)
    ensures
        markup_free(escaped(EscapeStyle::Xml, s)),
    decreases s.len(),
{
    if s.len() > 0 {
        lemma_xml_escaped_markup_free(s.drop_last());
        let a = escaped(EscapeStyle::Xml, s.drop_last());
        let b = escaped_char(EscapeStyle::Xml, s.last());
        assert(escaped(EscapeStyle::Xml, s) == a + b);
        assert forall|i: int| 0 <= i < (a + b).len() implies #[trigger] (a + b)[i] != '<' && (a
            + b)[i] != '>' && (a + b)[i] != '"' && (a + b)[i] != '\'' by {
            if i >= a.len() {
                assert((a + b)[i] == b[i - a.len()]);
            } else {
                assert((a + b)[i] == a[i]);
            }
        }
    }
}

/// How many times `c` occurs in `s`.
pub open spec fn occurrences(s: Seq<char>, c: char) -> nat
    decreases s.len(),
{
    if s.len() == 0 {
        0
    } else {
        occurrences(s.drop_last(), c) + if s.last() == c {
            1nat
        } else {
            0nat
        }
    }
}

proof fn lemma_occurrences_concat(a: Seq<char>, b: Seq<char>, c: char)
    ensures
        occurrences(a + b, c) == occurrences(a, c) + occurrences(b, c),
    decreases b.len(),
{
    if b.len() == 0 {
        assert(a + b =~= a);
    } else {
        assert((a + b).drop_last() =~= a + b.drop_last());
        lemma_occurrences_concat(a, b.drop_last(), c);
    }
}

proof fn lemma_markup_free_occurrences(s: Seq<char>, c: char)
    requires
        markup_free(s),
        c == '<' || c == '>' || c == '"' || c == '\'',
    ensures
        occurrences(s, c) == 0,
    decreases s.len(),
{
    if s.len() > 0 {
        assert(markup_free(s.drop_last())) by {
            assert forall|i: int| 0 <= i < s.drop_last().len() implies #[trigger] s.drop_last()[i] != '<'
                && s.drop_last()[i] != '>' && s.drop_last()[i] != '"' && s.drop_last()[i] != '\'' by {
                assert(s.drop_last()[i] == s[i]);
            }
        }
        lemma_markup_free_occurrences(s.drop_last(), c);
        assert(s[s.len() - 1] != c);
    }
}

/// Law: whatever the two paths hold, they add no markup to the property list
/// (`plist_text`): each stands in it escaped, and the escaped text has no `<`,
/// `>`, `"` or `'`, so each path stays inside its own `<string>` element, and
/// the list holds as many of each of these characters as it does for two empty
/// paths.
pub proof fn law_plist_paths_add_no_markup(yggdrasil_path: Seq<char>, config_path: Seq<char>, c: char)
    requires
        c == '<' || c == '>' || c == '"' || c == '\'',
    ensures
        markup_free(escaped(EscapeStyle::Xml, yggdrasil_path)),
        markup_free(escaped(EscapeStyle::Xml, config_path)),
        occurrences(plist_text(yggdrasil_path, config_path), c) == occurrences(
            plist_text(Seq::empty(), Seq::empty()),
            c,
        ),
{
    lemma_xml_escaped_markup_free(yggdrasil_path);
    lemma_xml_escaped_markup_free(config_path);
    let ey = escaped(EscapeStyle::Xml, yggdrasil_path);
    let ec = escaped(EscapeStyle::Xml, config_path);
    let e0 = escaped(EscapeStyle::Xml, Seq::<char>::empty());
    assert(e0 =~= Seq::<char>::empty());
    let h = "<?xml version=\"1.0\" encoding=\"UTF-8\"?><!DOCTYPE plist PUBLIC \"-//Apple//DTD PLIST 1.0//EN\" \"http://www.apple.com/DTDs/PropertyList-1.0.dtd\"><plist version=\"1.0\"><dict><key>Label</key><string>yggdrasil</string><key>ProgramArguments</key><array><string>"@;
    let m = "</string><string>-useconffile</string><string>"@;
    let t = "</string></array><key>KeepAlive</key><true/><key>RunAtLoad</key><true/><key>ProcessType</key><string>Interactive</string><key>StandardOutPath</key><string>/tmp/yggdrasil.stdout.log</string><key>StandardErrorPath</key><string>/tmp/yggdrasil.stderr.log</string></dict></plist>"@;
    lemma_markup_free_occurrences(ey, c);
    lemma_markup_free_occurrences(ec, c);
    lemma_occurrences_concat(h, ey, c);
    lemma_occurrences_concat(h + ey, m, c);
    lemma_occurrences_concat(h + ey + m, ec, c);
    lemma_occurrences_concat(h + ey + m + ec, t, c);
    lemma_occurrences_concat(h, e0, c);
    lemma_occurrences_concat(h + e0, m, c);
    lemma_occurrences_concat(h + e0 + m, e0, c);
    lemma_occurrences_concat(h + e0 + m + e0, t, c);
    assert(occurrences(e0, c) == 0);
}

/// The launchd property list for the daemon.
pub fn launchd_plist(yggdrasil_path: &str, config_path: &str) -> (r: String)
    ensures
        r@ == plist_text(yggdrasil_path@, config_path@),
{
    let ygg = xml_escape(yggdrasil_path);
    let cfg = xml_escape(config_path);
    let mut out: Vec<char> = Vec::new();
    push_str(
        &mut out,
        "<?xml version=\"1.0\" encoding=\"UTF-8\"?><!DOCTYPE plist PUBLIC \"-//Apple//DTD PLIST 1.0//EN\" \"http://www.apple.com/DTDs/PropertyList-1.0.dtd\"><plist version=\"1.0\"><dict><key>Label</key><string>yggdrasil</string><key>ProgramArguments</key><array><string>",
    );
    push_str(&mut out, ygg.as_str());
    push_str(&mut out, "</string><string>-useconffile</string><string>");
    push_str(&mut out, cfg.as_str());
    push_str(
        &mut out,
        "</string></array><key>KeepAlive</key><true/><key>RunAtLoad</key><true/><key>ProcessType</key><string>Interactive</string><key>StandardOutPath</key><string>/tmp/yggdrasil.stdout.log</string><key>StandardErrorPath</key><string>/tmp/yggdrasil.stderr.log</string></dict></plist>",
    );
    assert(out@ =~= plist_text(yggdrasil_path@, config_path@));
    string_of(&out)
}

} // verus!
