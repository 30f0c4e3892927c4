use vstd::prelude::*;

use crate::command::{lemma_texts_push, texts};
use crate::peers::opt_text;
use crate::text::{
    chars_of, find_sub, first_occurrence, lemma_first_occurrence_bounds, push_str, slice_chars,
    starts_with, string_from, string_of, concat3,
};

verus! {

/// The standard configuration locations, in the order they are offered.
pub open spec fn config_paths() -> Seq<Seq<char>> {
    seq![
        "/etc/yggdrasil.conf"@,
        "/etc/yggdrasil/yggdrasil.conf"@,
        "/usr/local/etc/yggdrasil.conf"@,
        "/opt/homebrew/etc/yggdrasil.conf"@,
    ]
}

/// The standard configuration locations.
pub fn config_candidate_paths() -> (r: Vec<String>)
    ensures
        texts(r@) == config_paths(),
{
    let mut v: Vec<String> = Vec::new();
    v.push(string_from("/etc/yggdrasil.conf"));
    v.push(string_from("/etc/yggdrasil/yggdrasil.conf"));
    v.push(string_from("/usr/local/etc/yggdrasil.conf"));
    v.push(string_from("/opt/homebrew/etc/yggdrasil.conf"));
    assert(texts(v@) =~= config_paths());
    v
}

/// A standard configuration location and what the file system allows there.
pub struct ConfigCandidate {
    pub path: String,
    pub exists: bool,
    pub readable: bool,
    pub writable: bool,
    pub parent_writable: bool,
}

/// What the file system allows at a path: whether something is there, whether
/// it can be opened for reading and for writing, and whether a new file can be
/// made beside it.
pub struct PathAccess {
    pub exists: bool,
    pub readable: bool,
    pub writable: bool,
    pub parent_writable: bool,
}

/// Whether `access`, asked about `path`, may have answered `a`.
pub open spec fn accessed<A: Fn(String) -> PathAccess>(access: A, path: Seq<char>, a: PathAccess) -> bool {
    exists|p: String| p@ == path && #[trigger] call_ensures(access, (p,), a)
}

/// Whether `c` is the candidate for `path` that `access` may have described.
pub open spec fn candidate_at<A: Fn(String) -> PathAccess>(access: A, path: Seq<char>, c: ConfigCandidate) -> bool {
    &&& c.path@ == path
    &&& accessed(
        access,
        path,
        PathAccess {
            exists: c.exists,
            readable: c.readable,
            writable: c.writable,
            parent_writable: c.parent_writable,
        },
    )
}

/// Whether `cands` describes each standard location, in order, as `access`
/// may have answered for it.
pub open spec fn candidates_found<A: Fn(String) -> PathAccess>(access: A, cands: Seq<ConfigCandidate>) -> bool {
    &&& cands.len() == config_paths().len()
    &&& forall|i: int| 0 <= i < cands.len() ==> candidate_at(access, config_paths()[i], #[trigger] cands[i])
}

/// The standard configuration locations, each with what `access` says the file
/// system allows there.
pub fn config_candidates<A: Fn(String) -> PathAccess>(access: &A) -> (r: Vec<ConfigCandidate>)
    requires
        forall|p: String| call_requires(*access, (p,)),
    ensures
        candidates_found(*access, r@),
{
    let paths = config_candidate_paths();
    let mut out: Vec<ConfigCandidate> = Vec::new();
    let mut i: usize = 0;
    while i < paths.len()
        invariant
            i <= paths.len(),
            texts(paths@) == config_paths(),
            out@.len() == i,
            forall|p: String| call_requires(*access, (p,)),
            forall|k: int| 0 <= k < i ==> candidate_at(*access, config_paths()[k], #[trigger] out@[k]),
        decreases paths.len() - i,
    {
        let p = paths[i].clone();
        let ghost gp = p;
        let a = access(p);
        assert(call_ensures(*access, (gp,), a));
        let c = ConfigCandidate {
            path: paths[i].clone(),
            exists: a.exists,
            readable: a.readable,
            writable: a.writable,
            parent_writable: a.parent_writable,
        };
        assert(config_paths()[i as int] == paths@[i as int]@);
        assert(accessed(*access, config_paths()[i as int], a));
        assert(a == PathAccess {
            exists: c.exists,
            readable: c.readable,
            writable: c.writable,
            parent_writable: c.parent_writable,
        });
        out.push(c);
        i = i + 1;
    }
    out
}

/// Whether `path` is absolute: on Unix, whether it begins with `/`.
pub open spec fn is_absolute(path: Seq<char>) -> bool {
    path.len() > 0 && path[0] == '/'
}

/// The names in `s` between slashes, without empty names and `.`.
pub open spec fn normal_parts(s: Seq<char>) -> Seq<Seq<char>>
    decreases s.len(),
{
    if s.len() == 0 {
        seq![]
    } else {
        let k = first_occurrence(s, seq!['/'], 0);
        let seg = if k < 0 { s } else { s.take(k) };
        let tail = if k < 0 {
            seq![]
        } else {
            proof {
                lemma_first_occurrence_bounds(s, seq!['/'], 0);
            }
            normal_parts(s.skip(k + 1))
        };
        if seg.len() == 0 || seg == seq!['.'] {
            tail
        } else {
            seq![seg] + tail
        }
    }
}

/// The components of the Unix path `s`, as `Path::components` gives them: the
/// root (written `/`) for an absolute path, a leading current directory
/// (written `.`) for a relative path that starts with it, then the names.
pub open spec fn components(s: Seq<char>) -> Seq<Seq<char>> {
    if is_absolute(s) {
        seq![seq!['/']] + normal_parts(s)
    } else if s == seq!['.'] || starts_with(s, seq!['.', '/']) {
        seq![seq!['.']] + normal_parts(s)
    } else {
        normal_parts(s)
    }
}

/// Whether two paths are equal as `Path`s: whether they have the same components.
pub open spec fn path_eq(a: Seq<char>, b: Seq<char>) -> bool {
    components(a) == components(b)
}

fn path_components(s: &str) -> (r: Vec<Vec<char>>)
    ensures
        r@.map_values(|c: Vec<char>| c@) == components(s@),
{
    let v = chars_of(s);
    let slash: Vec<char> = vec!['/'];
    assert(slash@ =~= seq!['/']);
    let mut out: Vec<Vec<char>> = Vec::new();
    let ghost head: Seq<Seq<char>>;
    if v.len() > 0 && v[0] == '/' {
        let root: Vec<char> = vec!['/'];
        assert(root@ =~= seq!['/']);
        out.push(root);
        proof {
            head = seq![seq!['/']];
        }
    } else if (v.len() == 1 && v[0] == '.') || (v.len() >= 2 && v[0] == '.' && v[1] == '/') {
        let cur: Vec<char> = vec!['.'];
        assert(cur@ =~= seq!['.']);
        out.push(cur);
        proof {
            head = seq![seq!['.']];
            if v.len() >= 2 {
                assert(v@.take(2) =~= seq!['.', '/']);
            } else {
                assert(v@ =~= seq!['.']);
            }
        }
    } else {
        proof {
            head = seq![];
            assert(v@ != seq!['.']) by {
                if v@ == seq!['.'] {
                    assert(v@[0] == '.');
                }
            }
            assert(!starts_with(v@, seq!['.', '/'])) by {
                if starts_with(v@, seq!['.', '/']) {
                    assert(v@.take(2)[0] == v@[0]);
                    assert(v@.take(2)[1] == v@[1]);
                }
            }
        }
    }
    assert(out@.map_values(|c: Vec<char>| c@) =~= head);
    assert(components(s@) == head + normal_parts(v@));
    let mut rest = slice_chars(&v, 0, v.len());
    assert(rest@ =~= v@);
    while rest.len() > 0
        invariant
            slash@ == seq!['/'],
            components(s@) == out@.map_values(|c: Vec<char>| c@) + normal_parts(rest@),
        decreases rest.len(),
    {
        let found = find_sub(&rest, &slash);
        proof {
            lemma_first_occurrence_bounds(rest@, seq!['/'], 0);
        }
        let end = match found {
            Some(k) => k,
            None => rest.len(),
        };
        let seg = slice_chars(&rest, 0, end);
        let ghost k = first_occurrence(rest@, seq!['/'], 0);
        let ghost before = out@.map_values(|c: Vec<char>| c@);
        assert(seg@ =~= (if k < 0 { rest@ } else { rest@.take(k) }));
        let skip = seg.len() == 0 || (seg.len() == 1 && seg[0] == '.');
        assert(skip == (seg@.len() == 0 || seg@ == seq!['.'])) by {
            if seg@ == seq!['.'] {
                assert(seg@.len() == 1);
            }
            if seg.len() == 1 && seg[0] == '.' {
                assert(seg@ =~= seq!['.']);
            }
        }
        let ghost sv = seg@;
        if !skip {
            out.push(seg);
            assert(out@.map_values(|c: Vec<char>| c@) =~= before + seq![sv]);
        }
        match found {
            None => {
                assert(normal_parts(rest@) == (if skip { seq![] } else { seq![sv] }));
                assert(components(s@) =~= out@.map_values(|c: Vec<char>| c@));
                return out;
            },
            Some(k) => {
                rest = slice_chars(&rest, k + 1, rest.len());
            },
        }
    }
    assert(components(s@) =~= out@.map_values(|c: Vec<char>| c@));
    out
}

/// Whether `a` and `b` are the same path, component by component.
pub fn same_components(a: &str, b: &str) -> (r: bool)
    ensures
        r == path_eq(a@, b@),
{
    let x = path_components(a);
    let y = path_components(b);
    let ghost xs = x@.map_values(|c: Vec<char>| c@);
    let ghost ys = y@.map_values(|c: Vec<char>| c@);
    if x.len() != y.len() {
        assert(xs.len() != ys.len());
        return false;
    }
    let mut i: usize = 0;
    while i < x.len()
        invariant
            x@.len() == y@.len(),
            i <= x.len(),
            xs == x@.map_values(|c: Vec<char>| c@),
            ys == y@.map_values(|c: Vec<char>| c@),
            xs == components(a@),
            ys == components(b@),
            forall|k: int| 0 <= k < i ==> xs[k] == ys[k],
        decreases x.len() - i,
    {
        let eq = !crate::order::lex_less_chars(&x[i], &y[i]) && !crate::order::lex_less_chars(&y[i], &x[i]);
        proof {
            crate::order::lemma_lex_less_asymmetric(x@[i as int]@, y@[i as int]@);
            if x@[i as int]@ != y@[i as int]@ {
                crate::order::lemma_lex_less_total(x@[i as int]@, y@[i as int]@);
            }
        }
        if !eq {
            assert(xs[i as int] != ys[i as int]);
            return false;
        }
        i = i + 1;
    }
    assert(xs =~= ys);
    true
}

} // verus!

verus! {

/// The texts of a result without a value.
pub open spec fn unit_result(r: Result<(), String>) -> Result<(), Seq<char>> {
    match r {
        Ok(()) => Ok(()),
        Err(e) => Err(e@),
    }
}

/// Whether `canon`, asked for the canonical form of `path`, may have answered
/// `out`.
pub open spec fn canonical<C: Fn(String) -> Option<String>>(canon: C, path: Seq<char>, out: Option<Seq<char>>) -> bool {
    exists|p: String, o: Option<String>|
        p@ == path && #[trigger] call_ensures(canon, (p,), o) && opt_text(o) == out
}

/// Whether `answer` may be what `same_path` says of `left` and `right`: equal
/// paths are the same; otherwise they are the same where both have canonical
/// forms and those are equal.
pub open spec fn same_path_answer<C: Fn(String) -> Option<String>>(
    canon: C,
    left: Seq<char>,
    right: Seq<char>,
    answer: bool,
) -> bool {
    if path_eq(left, right) {
        answer
    } else {
        exists|a: Option<Seq<char>>, b: Option<Seq<char>>|
            canonical(canon, left, a) && canonical(canon, right, b) && answer == match (a, b) {
                (Some(x), Some(y)) => path_eq(x, y),
                _ => false,
            }
    }
}

fn canonical_of<C: Fn(String) -> Option<String>>(path: &str, canon: &C) -> (r: Option<String>)
    requires
        forall|p: String| call_requires(*canon, (p,)),
    ensures
        canonical(*canon, path@, opt_text(r)),
{
    let p = string_from(path);
    let ghost gp = p;
    let r = canon(p);
    assert(call_ensures(*canon, (gp,), r));
    r
}

/// Whether `left` and `right` name the same file: equal as paths, or with equal
/// canonical forms as `canon` gives them.
pub fn same_path<C: Fn(String) -> Option<String>>(left: &str, right: &str, canon: &C) -> (r: bool)
    requires
        forall|p: String| call_requires(*canon, (p,)),
    ensures
        same_path_answer(*canon, left@, right@, r),
{
    if same_components(left, right) {
        return true;
    }
    let a = canonical_of(left, canon);
    let b = canonical_of(right, canon);
    let ghost ga = opt_text(a);
    let ghost gb = opt_text(b);
    let r = match (&a, &b) {
        (Some(x), Some(y)) => same_components(x.as_str(), y.as_str()),
        _ => false,
    };
    assert(canonical(*canon, left@, ga) && canonical(*canon, right@, gb));
    r
}

/// Whether `allowed` may be what asking, candidate after candidate and stopping
/// at the first yes, whether `path` is the same as one of `cands` comes to.
pub open spec fn any_same<C: Fn(String) -> Option<String>>(
    canon: C,
    path: Seq<char>,
    cands: Seq<Seq<char>>,
    allowed: bool,
) -> bool {
    if allowed {
        exists|i: int|
            0 <= i < cands.len() && same_path_answer(canon, path, cands[i], true) && forall|j: int|
                0 <= j < i ==> same_path_answer(canon, path, #[trigger] cands[j], false)
    } else {
        forall|j: int| 0 <= j < cands.len() ==> same_path_answer(canon, path, #[trigger] cands[j], false)
    }
}

fn any_same_path<C: Fn(String) -> Option<String>>(path: &str, cands: &Vec<String>, canon: &C) -> (r: bool)
    requires
        forall|p: String| call_requires(*canon, (p,)),
    ensures
        any_same(*canon, path@, texts(cands@), r),
{
    let ghost cs = texts(cands@);
    let mut i: usize = 0;
    while i < cands.len()
        invariant
            i <= cands.len(),
            cs == texts(cands@),
            forall|p: String| call_requires(*canon, (p,)),
            forall|j: int| 0 <= j < i ==> same_path_answer(*canon, path@, #[trigger] cs[j], false),
        decreases cands.len() - i,
    {
        if same_path(path, cands[i].as_str(), canon) {
            assert(same_path_answer(*canon, path@, cs[i as int], true));
            return true;
        }
        i = i + 1;
    }
    false
}

/// Whether `probe`, asked whether `path` is a symbolic link, may have answered
/// `out`: yes or no, or the message of a failure to look.
pub open spec fn inspected<S: Fn(String) -> Result<bool, String>>(
    probe: S,
    path: Seq<char>,
    out: Result<bool, Seq<char>>,
) -> bool {
    exists|p: String, o: Result<bool, String>|
        p@ == path && #[trigger] call_ensures(probe, (p,), o) && out == match o {
            Ok(b) => Ok::<bool, Seq<char>>(b),
            Err(e) => Err::<bool, Seq<char>>(e@),
        }
}

/// The message for a configuration path that could not be inspected.
pub open spec fn cannot_inspect(path: Seq<char>, error: Seq<char>) -> Seq<char> {
    "Could not inspect config path `"@ + path + "`: "@ + error
}

/// The message for a configuration path that is a symbolic link.
pub open spec fn symlinked(path: Seq<char>) -> Seq<char> {
    "Refusing to modify symlinked config path `"@ + path + "`"@
}

/// What `reject_symlink` says of a path that `probe` answered `out` for.
pub open spec fn symlink_verdict(path: Seq<char>, out: Result<bool, Seq<char>>) -> Result<(), Seq<char>> {
    match out {
        Err(e) => Err(cannot_inspect(path, e)),
        Ok(true) => Err(symlinked(path)),
        Ok(false) => Ok(()),
    }
}

/// Refuses a configuration path that is a symbolic link, or that cannot be
/// inspected.
pub fn reject_symlink<S: Fn(String) -> Result<bool, String>>(path: &str, probe: &S) -> (r: Result<(), String>)
    requires
        forall|p: String| call_requires(*probe, (p,)),
    ensures
        exists|out: Result<bool, Seq<char>>|
            inspected(*probe, path@, out) && unit_result(r) == symlink_verdict(path@, out),
{
    let p = string_from(path);
    let ghost gp = p;
    let o = probe(p);
    assert(call_ensures(*probe, (gp,), o));
    let ghost out = match &o {
        Ok(b) => Ok::<bool, Seq<char>>(*b),
        Err(e) => Err::<bool, Seq<char>>(e@),
    };
    let r = match o {
        Err(e) => {
            let mut m: Vec<char> = Vec::new();
            push_str(&mut m, "Could not inspect config path `");
            push_str(&mut m, path);
            push_str(&mut m, "`: ");
            push_str(&mut m, e.as_str());
            assert(m@ =~= cannot_inspect(path@, e@));
            Err(string_of(&m))
        },
        Ok(true) => {
            let mut m: Vec<char> = Vec::new();
            push_str(&mut m, "Refusing to modify symlinked config path `");
            push_str(&mut m, path);
            push_str(&mut m, "`");
            assert(m@ =~= symlinked(path@));
            Err(string_of(&m))
        },
        Ok(false) => Ok(()),
    };
    assert(inspected(*probe, path@, out));
    assert(unit_result(r) == symlink_verdict(path@, out));
    r
}

/// The message for a configuration path that is not absolute.
pub open spec fn not_absolute(path: Seq<char>) -> Seq<char> {
    "Config path must be absolute: `"@ + path + "`"@
}

/// The message for a configuration path to modify that is not a standard one.
pub open spec fn unknown_to_modify(path: Seq<char>) -> Seq<char> {
    "Refusing to modify unknown config path `"@ + path
        + "`. Use a standard Yggdrasil config location."@
}

/// The message for a configuration path to create that is not a standard one.
pub open spec fn unknown_to_create(path: Seq<char>) -> Seq<char> {
    "Refusing to create unknown config path `"@ + path
        + "`. Use a standard Yggdrasil config location."@
}

/// Whether `r` may be what `ensure_known_config_path` says of `path`: it must be
/// absolute, no symbolic link, and the same file as a standard location.
pub open spec fn known_config_verdict<S: Fn(String) -> Result<bool, String>, C: Fn(String) -> Option<String>>(
    probe: S,
    canon: C,
    path: Seq<char>,
    r: Result<(), Seq<char>>,
) -> bool {
    if !is_absolute(path) {
        r == Err::<(), Seq<char>>(not_absolute(path))
    } else {
        exists|out: Result<bool, Seq<char>>|
            inspected(probe, path, out) && if out == Ok::<bool, Seq<char>>(false) {
                exists|allowed: bool|
                    any_same(canon, path, config_paths(), allowed) && r == if allowed {
                        Ok::<(), Seq<char>>(())
                    } else {
                        Err(unknown_to_modify(path))
                    }
            } else {
                r == symlink_verdict(path, out)
            }
    }
}

fn is_absolute_str(path: &str) -> (r: bool)
    ensures
        r == is_absolute(path@),
{
    let v = chars_of(path);
    v.len() > 0 && v[0] == '/'
}

/// Refuses to modify a configuration path other than a standard location:
/// it must be absolute, not a symbolic link (as `probe` says), and the same
/// file as one of the standard locations (as `canon` helps to tell).
pub fn ensure_known_config_path<S: Fn(String) -> Result<bool, String>, C: Fn(String) -> Option<String>>(
    config_path: &str,
    probe: &S,
    canon: &C,
) -> (r: Result<(), String>)
    requires
        forall|p: String| call_requires(*probe, (p,)),
        forall|p: String| call_requires(*canon, (p,)),
    ensures
        known_config_verdict(*probe, *canon, config_path@, unit_result(r)),
{
    if !is_absolute_str(config_path) {
        let m = concat3("Config path must be absolute: `", config_path, "`");
        return Err(m);
    }
    let checked = reject_symlink(config_path, probe);
    let ghost out = choose|out: Result<bool, Seq<char>>|
        inspected(*probe, config_path@, out) && unit_result(checked) == symlink_verdict(
            config_path@,
            out,
        );
    match checked {
        Err(e) => {
            return Err(e);
        },
        Ok(()) => {},
    }
    let cands = config_candidate_paths();
    let allowed = any_same_path(config_path, &cands, canon);
    let r = if allowed {
        Ok(())
    } else {
        Err(
            concat3(
                "Refusing to modify unknown config path `",
                config_path,
                "`. Use a standard Yggdrasil config location.",
            ),
        )
    };
    assert(any_same(*canon, config_path@, config_paths(), allowed));
    r
}

/// Whether `probe`, asked whether `path` exists, may have answered `answer`.
pub open spec fn reported_exists<E: Fn(String) -> bool>(probe: E, path: Seq<char>, answer: bool) -> bool {
    exists|p: String| p@ == path && #[trigger] call_ensures(probe, (p,), answer)
}

/// Whether `r` may be what `ensure_known_config_path_for_setup` says of `path`:
/// it must be absolute; where `present` says a file is there, it must pass
/// `known_config_verdict`; otherwise it must equal a standard location.
pub open spec fn setup_path_verdict<
    E: Fn(String) -> bool,
    S: Fn(String) -> Result<bool, String>,
    C: Fn(String) -> Option<String>,
>(present: E, probe: S, canon: C, path: Seq<char>, r: Result<(), Seq<char>>) -> bool {
    if !is_absolute(path) {
        r == Err::<(), Seq<char>>(not_absolute(path))
    } else {
        exists|there: bool|
            #[trigger] reported_exists(present, path, there) && if there {
                known_config_verdict(probe, canon, path, r)
            } else {
                r == if exists|i: int| 0 <= i < config_paths().len() && path_eq(config_paths()[i], path) {
                    Ok::<(), Seq<char>>(())
                } else {
                    Err(unknown_to_create(path))
                }
            }
    }
}

/// Refuses to create a configuration at a path other than a standard location:
/// it must be absolute; where a file is there already, it must pass
/// `ensure_known_config_path`; otherwise it must equal a standard location.
pub fn ensure_known_config_path_for_setup<
    E: Fn(String) -> bool,
    S: Fn(String) -> Result<bool, String>,
    C: Fn(String) -> Option<String>,
>(config_path: &str, present: &E, probe: &S, canon: &C) -> (r: Result<(), String>)
    requires
        forall|p: String| call_requires(*present, (p,)),
        forall|p: String| call_requires(*probe, (p,)),
        forall|p: String| call_requires(*canon, (p,)),
    ensures
        setup_path_verdict(*present, *probe, *canon, config_path@, unit_result(r)),
{
    if !is_absolute_str(config_path) {
        let m = concat3("Config path must be absolute: `", config_path, "`");
        return Err(m);
    }
    let p = string_from(config_path);
    let ghost gp = p;
    let there = present(p);
    assert(call_ensures(*present, (gp,), there));
    assert(reported_exists(*present, config_path@, there));
    if there {
        return ensure_known_config_path(config_path, probe, canon);
    }
    let cands = config_candidate_paths();
    let mut i: usize = 0;
    while i < cands.len()
        invariant
            i <= cands.len(),
            texts(cands@) == config_paths(),
            is_absolute(config_path@),
            !there,
            reported_exists(*present, config_path@, there),
            forall|j: int| 0 <= j < i ==> !path_eq(#[trigger] config_paths()[j], config_path@),
        decreases cands.len() - i,
    {
        if same_components(config_path, cands[i].as_str()) {
            proof {
                assert(config_paths()[i as int] == cands@[i as int]@);
                assert(components(config_paths()[i as int]) =~= components(config_path@));
            }
            return Ok(());
        }
        i = i + 1;
    }
    proof {
        assert forall|j: int| 0 <= j < config_paths().len() implies !path_eq(config_paths()[j], config_path@) by {
            assert(!path_eq(config_paths()[j], config_path@));
        }
    }
    Err(
        concat3(
            "Refusing to create unknown config path `",
            config_path,
            "`. Use a standard Yggdrasil config location.",
        ),
    )
}

} // verus!
