use vstd::prelude::*;

use crate::command::{lemma_texts_push, texts, Captured};
use crate::machine::{
    extends, is_run, lemma_push, lemma_since_concat, lemma_since_same, run_out, since, Event, Host, Machine,
};
use crate::json::same_text;
use crate::peers::opt_text;
use crate::text::{chars_of, push_str, starts_with, string_from, string_of, trim, trim_chars};

verus! {

/// Whether `probe`, asked about the path `path`, may have answered `answer`.
pub open spec fn probed<F: Fn(String) -> bool>(probe: F, path: Seq<char>, answer: bool) -> bool {
    exists|p: String| p@ == path && #[trigger] call_ensures(probe, (p,), answer)
}

/// Whether `r` is the first of `cands` for which `probe` answered yes, each
/// earlier one having been answered no; or none, all having been answered no.
pub open spec fn first_found<F: Fn(String) -> bool>(probe: F, cands: Seq<Seq<char>>, r: Option<Seq<char>>) -> bool {
    match r {
        Some(c) => exists|i: int|
            0 <= i < cands.len() && cands[i] == c && probed(probe, c, true) && forall|j: int|
                0 <= j < i ==> probed(probe, #[trigger] cands[j], false),
        None => forall|j: int| 0 <= j < cands.len() ==> probed(probe, #[trigger] cands[j], false),
    }
}

/// The first of `cands` that `probe` answers yes for, asking in order and
/// stopping there.
pub fn first_present<F: Fn(String) -> bool>(cands: &Vec<String>, probe: &F) -> (r: Option<String>)
    requires
        forall|p: String| call_requires(*probe, (p,)),
    ensures
        first_found(*probe, texts(cands@), opt_text(r)),
{
    let ghost cs = texts(cands@);
    let mut i: usize = 0;
    while i < cands.len()
        invariant
            i <= cands.len(),
            cs == texts(cands@),
            forall|p: String| call_requires(*probe, (p,)),
            forall|j: int| 0 <= j < i ==> probed(*probe, #[trigger] cs[j], false),
        decreases cands.len() - i,
    {
        let c = cands[i].clone();
        let ghost gc = c;
        let answer = probe(c);
        assert(call_ensures(*probe, (gc,), answer));
        assert(cs[i as int] == gc@);
        if answer {
            let found = cands[i].clone();
            assert(probed(*probe, cs[i as int], true));
            return Some(found);
        }
        assert(probed(*probe, cs[i as int], false));
        i = i + 1;
    }
    None
}

/// `PathBuf::join` on Unix: an absolute `name` stands alone; otherwise it
/// follows `dir`, after a `/` where `dir` is not empty and does not end in one.
pub open spec fn join_path(dir: Seq<char>, name: Seq<char>) -> Seq<char> {
    if name.len() > 0 && name[0] == '/' {
        name
    } else if dir.len() == 0 || dir.last() == '/' {
        dir + name
    } else {
        dir + seq!['/'] + name
    }
}

/// Joins `name` to the directory `dir`.
pub fn join_path_str(dir: &str, name: &str) -> (r: String)
    ensures
        r@ == join_path(dir@, name@),
{
    let d = chars_of(dir);
    let n = chars_of(name);
    if n.len() > 0 && n[0] == '/' {
        return string_from(name);
    }
    let mut out: Vec<char> = Vec::new();
    push_str(&mut out, dir);
    if !(d.len() == 0 || d[d.len() - 1] == '/') {
        out.push('/');
    }
    push_str(&mut out, name);
    assert(out@ =~= join_path(dir@, name@));
    string_of(&out)
}

/// The directories searched after those of `PATH`, in order.
pub open spec fn fixed_dirs() -> Seq<Seq<char>> {
    seq!["/usr/local/bin"@, "/opt/homebrew/bin"@, "/usr/bin"@, "/bin"@]
}

fn fixed_dir_list() -> (r: Vec<String>)
    ensures
        texts(r@) == fixed_dirs(),
{
    let mut v: Vec<String> = Vec::new();
    v.push(string_from("/usr/local/bin"));
    v.push(string_from("/opt/homebrew/bin"));
    v.push(string_from("/usr/bin"));
    v.push(string_from("/bin"));
    assert(texts(v@) =~= fixed_dirs());
    v
}

/// `name` joined to each of `dirs`, in order.
pub open spec fn joined_all(dirs: Seq<Seq<char>>, name: Seq<char>) -> Seq<Seq<char>> {
    dirs.map_values(|d: Seq<char>| join_path(d, name))
}

fn join_all(dirs: &Vec<String>, name: &str) -> (r: Vec<String>)
    ensures
        texts(r@) == joined_all(texts(dirs@), name@),
{
    let mut out: Vec<String> = Vec::new();
    let mut i: usize = 0;
    while i < dirs.len()
        invariant
            i <= dirs.len(),
            texts(out@) == joined_all(texts(dirs@), name@).take(i as int),
        decreases dirs.len() - i,
    {
        let j = join_path_str(dirs[i].as_str(), name);
        proof {
            lemma_texts_push(out@, j);
        }
        out.push(j);
        assert(texts(out@) =~= joined_all(texts(dirs@), name@).take(i + 1));
        i = i + 1;
    }
    assert(joined_all(texts(dirs@), name@).take(dirs.len() as int) =~= joined_all(texts(dirs@), name@));
    out
}

/// The paths where `find_fixed_binary` looks for `name`.
pub open spec fn fixed_candidates(name: Seq<char>) -> Seq<Seq<char>> {
    joined_all(fixed_dirs(), name)
}

/// The first of the fixed system and Homebrew locations of `name` that
/// `is_file` says is a file.
pub fn find_fixed_binary<F: Fn(String) -> bool>(name: &str, is_file: &F) -> (r: Option<String>)
    requires
        forall|p: String| call_requires(*is_file, (p,)),
    ensures
        first_found(*is_file, fixed_candidates(name@), opt_text(r)),
{
    let dirs = fixed_dir_list();
    let cands = join_all(&dirs, name);
    first_present(&cands, is_file)
}

/// Where `find_brew` looks for Homebrew, in order.
pub open spec fn brew_candidates() -> Seq<Seq<char>> {
    seq!["/opt/homebrew/bin/brew"@, "/usr/local/bin/brew"@]
}

/// The first of Homebrew's usual locations that `is_file` says is a file.
pub fn find_brew<F: Fn(String) -> bool>(is_file: &F) -> (r: Option<String>)
    requires
        forall|p: String| call_requires(*is_file, (p,)),
    ensures
        first_found(*is_file, brew_candidates(), opt_text(r)),
{
    let mut v: Vec<String> = Vec::new();
    v.push(string_from("/opt/homebrew/bin/brew"));
    v.push(string_from("/usr/local/bin/brew"));
    assert(texts(v@) =~= brew_candidates());
    first_present(&v, is_file)
}

/// `s` without the texts that occur earlier in it: each text once, where it
/// first occurs.
pub open spec fn distinct(s: Seq<Seq<char>>) -> Seq<Seq<char>>
    decreases s.len(),
{
    if s.len() == 0 {
        seq![]
    } else if s.drop_last().contains(s.last()) {
        distinct(s.drop_last())
    } else {
        distinct(s.drop_last()).push(s.last())
    }
}

/// The paths where `find_binary` looks for `name`: in each directory of `PATH`,
/// then in each fixed location, each path once.
pub open spec fn binary_candidates(name: Seq<char>, path_dirs: Seq<Seq<char>>) -> Seq<Seq<char>> {
    distinct(joined_all(path_dirs + fixed_dirs(), name))
}

fn contains_text(v: &Vec<String>, n: usize, t: &str) -> (r: bool)
    requires
        n <= v.len(),
    ensures
        r == texts(v@).take(n as int).contains(t@),
{
    let mut i: usize = 0;
    while i < n
        invariant
            i <= n <= v.len(),
            forall|j: int| 0 <= j < i ==> texts(v@)[j] != t@,
        decreases n - i,
    {
        if same_text(v[i].as_str(), t) {
            assert(texts(v@).take(n as int)[i as int] == t@);
            return true;
        }
        i = i + 1;
    }
    assert(!texts(v@).take(n as int).contains(t@)) by {
        if texts(v@).take(n as int).contains(t@) {
            let j = choose|j: int| 0 <= j < n && texts(v@).take(n as int)[j] == t@;
            assert(texts(v@)[j] == t@);
        }
    }
    false
}

/// The first file named `name` in the directories of `PATH` (given as
/// `path_dirs`) or in the fixed system and Homebrew locations, as `is_file`
/// says, asking about each path once.
pub fn find_binary<F: Fn(String) -> bool>(name: &str, path_dirs: &Vec<String>, is_file: &F) -> (r: Option<String>)
    requires
        forall|p: String| call_requires(*is_file, (p,)),
    ensures
        first_found(*is_file, binary_candidates(name@, texts(path_dirs@)), opt_text(r)),
{
    let mut dirs: Vec<String> = Vec::new();
    let mut i: usize = 0;
    while i < path_dirs.len()
        invariant
            i <= path_dirs.len(),
            texts(dirs@) == texts(path_dirs@).take(i as int),
        decreases path_dirs.len() - i,
    {
        let d = path_dirs[i].clone();
        proof {
            lemma_texts_push(dirs@, d);
        }
        dirs.push(d);
        assert(texts(dirs@) =~= texts(path_dirs@).take(i + 1));
        i = i + 1;
    }
    let fixed = fixed_dir_list();
    let mut k: usize = 0;
    while k < fixed.len()
        invariant
            k <= fixed.len(),
            texts(fixed@) == fixed_dirs(),
            texts(dirs@) == texts(path_dirs@) + fixed_dirs().take(k as int),
        decreases fixed.len() - k,
    {
        let d = fixed[k].clone();
        proof {
            lemma_texts_push(dirs@, d);
        }
        dirs.push(d);
        assert(texts(dirs@) =~= texts(path_dirs@) + fixed_dirs().take(k + 1));
        k = k + 1;
    }
    assert(fixed_dirs().take(4) =~= fixed_dirs());
    let all = join_all(&dirs, name);
    let ghost js = texts(all@);
    let mut cands: Vec<String> = Vec::new();
    let mut m: usize = 0;
    assert(js.take(0) =~= seq![]);
    while m < all.len()
        invariant
            m <= all.len(),
            js == texts(all@),
            texts(cands@) == distinct(js.take(m as int)),
        decreases all.len() - m,
    {
        let dup = contains_text(&all, m, all[m].as_str());
        assert(js.take(m + 1).drop_last() =~= js.take(m as int));
        assert(js.take(m + 1).last() == js[m as int]);
        if !dup {
            let c = all[m].clone();
            proof {
                lemma_texts_push(cands@, c);
            }
            cands.push(c);
            assert(texts(cands@) =~= distinct(js.take(m as int)).push(js[m as int]));
        }
        m = m + 1;
    }
    assert(js.take(all.len() as int) =~= js);
    first_present(&cands, is_file)
}

/// Whether `r` is the version that the outcome `out` of running a binary with a
/// version flag shows: its standard output followed by its standard error,
/// trimmed, where that is not empty.
pub open spec fn version_of(out: Result<Captured, String>) -> Option<Seq<char>> {
    match out {
        Err(_) => None,
        Ok(c) => {
            let t = trim(c.stdout@ + c.stderr@);
            if t.len() == 0 {
                None
            } else {
                Some(t)
            }
        },
    }
}

/// Whether the actions `seg` are exactly one run of `path` with the single
/// argument `flag`, and `r` is the version it showed.
pub open spec fn version_shown(path: Seq<char>, flag: Seq<char>, seg: Seq<Event>, r: Option<Seq<char>>) -> bool {
    &&& seg.len() == 1
    &&& is_run(seg[0], path, seq![flag])
    &&& r == version_of(run_out(seg[0]))
}

/// The version that `path` prints when run with `flag`.
pub fn command_version<M: Machine>(path: &str, flag: &str, host: &mut Host<M>) -> (r: Option<String>)
    ensures
        extends(old(host).events(), final(host).events()),
        version_shown(path@, flag@, since(old(host).events(), final(host).events()), opt_text(r)),
{
    let mut args: Vec<String> = Vec::new();
    args.push(string_from(flag));
    assert(texts(args@) =~= seq![flag@]);
    let ghost before = host.events();
    let out = host.run(string_from(path), args);
    proof {
        lemma_push(before, host.events().last());
    }
    let ghost g = out;
    let r = match out {
        Err(_) => None,
        Ok(c) => {
            let mut all: Vec<char> = Vec::new();
            push_str(&mut all, c.stdout.as_str());
            push_str(&mut all, c.stderr.as_str());
            let t = trim_chars(&all);
            if t.len() == 0 {
                None
            } else {
                Some(string_of(&t))
            }
        },
    };
    assert(opt_text(r) == version_of(g));
    r
}

/// The version flag tried first for the binary `name`: `-version` for
/// `yggdrasilctl`, `--version` otherwise; the other one is tried next.
pub open spec fn primary_flag(name: Seq<char>) -> Seq<char> {
    if name == "yggdrasilctl"@ {
        "-version"@
    } else {
        "--version"@
    }
}

/// The version flag tried when the first one shows nothing.
pub open spec fn fallback_flag(name: Seq<char>) -> Seq<char> {
    if name == "yggdrasilctl"@ {
        "--version"@
    } else {
        "-version"@
    }
}

/// Whether the actions `seg` are what `binary_version` takes for `path`: a run
/// with the usual flag and, only where that showed nothing, one with the other
/// flag; and `r` is the version found.
pub open spec fn version_found(path: Seq<char>, name: Seq<char>, seg: Seq<Event>, r: Option<Seq<char>>) -> bool {
    &&& seg.len() >= 1
    &&& is_run(seg[0], path, seq![primary_flag(name)])
    &&& match version_of(run_out(seg[0])) {
        Some(v) => seg.len() == 1 && r == Some(v),
        None => {
            &&& seg.len() == 2
            &&& is_run(seg[1], path, seq![fallback_flag(name)])
            &&& r == version_of(run_out(seg[1]))
        },
    }
}

/// The version of the binary `name` at `path`: what it shows for its usual
/// version flag, else for the other one.
pub fn binary_version<M: Machine>(path: &str, name: &str, host: &mut Host<M>) -> (r: Option<String>)
    ensures
        extends(old(host).events(), final(host).events()),
        version_found(path@, name@, since(old(host).events(), final(host).events()), opt_text(r)),
{
    let is_ctl = same_text(name, "yggdrasilctl");
    let primary = if is_ctl {
        "-version"
    } else {
        "--version"
    };
    let fallback = if is_ctl {
        "--version"
    } else {
        "-version"
    };
    assert(primary@ == primary_flag(name@));
    assert(fallback@ == fallback_flag(name@));
    let ghost e0 = host.events();
    let first = command_version(path, primary, host);
    let ghost e1 = host.events();
    if first.is_some() {
        return first;
    }
    let second = command_version(path, fallback, host);
    proof {
        lemma_since_concat(e0, e1, host.events());
    }
    second
}

/// Where a binary was found and what version it reports.
pub struct BinaryInfo {
    pub path: Option<String>,
    pub version: Option<String>,
}

/// Whether `info` is what `binary_info` reports for `name`, the actions `seg`
/// being those it took: where `find_binary` finds it, and the version it shows
/// there; where it is not found, no version, and nothing run.
pub open spec fn binary_reported<F: Fn(String) -> bool>(
    is_file: F,
    name: Seq<char>,
    path_dirs: Seq<Seq<char>>,
    seg: Seq<Event>,
    info: BinaryInfo,
) -> bool {
    &&& first_found(is_file, binary_candidates(name, path_dirs), opt_text(info.path))
    &&& match opt_text(info.path) {
        Some(p) => version_found(p, name, seg, opt_text(info.version)),
        None => info.version is None && seg.len() == 0,
    }
}

/// Looks for the binary `name` (see `find_binary`) and, where found, asks it
/// for its version (see `binary_version`).
pub fn binary_info<F: Fn(String) -> bool, M: Machine>(
    name: &str,
    path_dirs: &Vec<String>,
    is_file: &F,
    host: &mut Host<M>,
) -> (r: BinaryInfo)
    requires
        forall|p: String| call_requires(*is_file, (p,)),
    ensures
        extends(old(host).events(), final(host).events()),
        binary_reported(*is_file, name@, texts(path_dirs@), since(old(host).events(), final(host).events()), r),
{
    proof {
        lemma_since_same(host.events());
    }
    let path = find_binary(name, path_dirs, is_file);
    let version = match &path {
        Some(p) => binary_version(p.as_str(), name, host),
        None => None,
    };
    BinaryInfo { path, version }
}

proof fn lemma_contains_last(s: Seq<Seq<char>>, x: Seq<char>)
    requires
        s.len() > 0,
    ensures
        s.contains(x) <==> (s.drop_last().contains(x) || x == s.last()),
{
    let t = s.drop_last();
    if s.contains(x) && x != s.last() {
        let i = choose|i: int| 0 <= i < s.len() && s[i] == x;
        assert(i != s.len() - 1);
        assert(t[i] == x);
    }
    if t.contains(x) {
        let i = choose|i: int| 0 <= i < t.len() && t[i] == x;
        assert(s[i] == x);
    }
    if x == s.last() {
        assert(s[s.len() - 1] == x);
    }
}

proof fn lemma_distinct(s: Seq<Seq<char>>)
    ensures
        distinct(s).no_duplicates(),
        forall|x: Seq<char>| s.contains(x) <==> distinct(s).contains(x),
    decreases s.len(),
{
    if s.len() > 0 {
        let t = s.drop_last();
        let d = distinct(t);
        lemma_distinct(t);
        if !t.contains(s.last()) {
            assert(distinct(s) == d.push(s.last()));
            assert forall|x: Seq<char>| d.push(s.last()).contains(x) <==> (d.contains(x) || x == s.last()) by {
                lemma_push_contains(d, s.last(), x);
            }
            assert(!d.contains(s.last()));
            assert forall|i: int, j: int| 0 <= i < d.push(s.last()).len() && 0 <= j < d.push(s.last()).len() && i != j
                implies d.push(s.last())[i] != d.push(s.last())[j] by {
                if i < d.len() && j < d.len() {
                } else if i < d.len() {
                    assert(d.contains(d[i]));
                } else if j < d.len() {
                    assert(d.contains(d[j]));
                }
            }
        }
        assert forall|x: Seq<char>| s.contains(x) <==> distinct(s).contains(x) by {
            lemma_contains_last(s, x);
            if !t.contains(s.last()) {
                lemma_push_contains(d, s.last(), x);
            }
        }
    }
}

proof fn lemma_push_contains(d: Seq<Seq<char>>, y: Seq<char>, x: Seq<char>)
    ensures
        d.push(y).contains(x) <==> (d.contains(x) || x == y),
{
    let e = d.push(y);
    assert(e.drop_last() =~= d);
    assert(e.last() == y);
    lemma_contains_last(e, x);
}

/// `find_binary` asks about each place once: its candidate paths hold no path
/// twice, and they hold every path of a `PATH` directory or fixed location
/// joined with the name.
pub proof fn law_binary_candidates_asked_once(name: Seq<char>, path_dirs: Seq<Seq<char>>)
    ensures
        binary_candidates(name, path_dirs).no_duplicates(),
        forall|d: Seq<char>|
            (path_dirs + fixed_dirs()).contains(d) ==> binary_candidates(name, path_dirs).contains(
                join_path(d, name),
            ),
{
    let all = joined_all(path_dirs + fixed_dirs(), name);
    lemma_distinct(all);
    assert forall|d: Seq<char>| (path_dirs + fixed_dirs()).contains(d) implies binary_candidates(
        name,
        path_dirs,
    ).contains(join_path(d, name)) by {
        let i = choose|i: int| 0 <= i < (path_dirs + fixed_dirs()).len() && (path_dirs + fixed_dirs())[i] == d;
        assert(all[i] == join_path(d, name));
        assert(all.contains(join_path(d, name)));
    }
}

} // verus!
