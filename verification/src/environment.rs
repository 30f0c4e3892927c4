use vstd::prelude::*;

use crate::binaries::{binary_info, binary_reported, BinaryInfo};
use crate::machine::{extends, lemma_since_concat, since, Event, Host, Machine};
use crate::config::{candidates_found, config_candidates, ConfigCandidate, PathAccess};
use crate::launchd::{launchd_reported, launchd_status, LaunchdStatus};
use crate::peers::opt_text;
use crate::text::string_from;

verus! {

/// What the application found on this machine.
pub struct Environment {
    pub os: String,
    pub arch: String,
    pub yggdrasil: BinaryInfo,
    pub yggdrasilctl: BinaryInfo,
    pub config_path: Option<String>,
    pub config_candidates: Vec<ConfigCandidate>,
    pub process_running: bool,
    pub launchd: LaunchdStatus,
    pub notes: Vec<String>,
}

/// The position of the first candidate that exists, or -1.
pub open spec fn first_existing(cands: Seq<ConfigCandidate>) -> int
    decreases cands.len(),
{
    if cands.len() == 0 {
        -1
    } else if cands[0].exists {
        0
    } else {
        let r = first_existing(cands.drop_first());
        if r < 0 {
            -1
        } else {
            r + 1
        }
    }
}

/// The configuration path offered: the first candidate that exists, else the
/// first candidate.
pub open spec fn chosen_config(cands: Seq<ConfigCandidate>) -> Option<Seq<char>> {
    let i = first_existing(cands);
    if i >= 0 {
        Some(cands[i].path@)
    } else if cands.len() > 0 {
        Some(cands[0].path@)
    } else {
        None
    }
}

/// Whether some candidate exists but cannot be read.
pub open spec fn some_protected(cands: Seq<ConfigCandidate>) -> bool {
    exists|i: int| 0 <= i < cands.len() && #[trigger] cands[i].exists && !cands[i].readable
}

/// The notes shown about the environment, in order: a missing `yggdrasil`, a
/// missing `yggdrasilctl`, a configuration that exists but cannot be read, and
/// a running process without its launchd service.
pub open spec fn environment_notes(
    yggdrasil_found: bool,
    ctl_found: bool,
    protected: bool,
    running: bool,
    launchd_found: bool,
) -> Seq<Seq<char>> {
    (if !yggdrasil_found {
        seq!["yggdrasil binary not found in PATH or Homebrew locations."@]
    } else {
        seq![]
    }) + (if !ctl_found {
        seq!["yggdrasilctl binary not found; node inspection will be limited."@]
    } else {
        seq![]
    }) + (if protected {
        seq![
            "Config exists but is protected by macOS permissions. Enable admin prompt for apply/read actions."@,
        ]
    } else {
        seq![]
    }) + (if running && !launchd_found {
        seq!["Yggdrasil process is running, but launchd label system/yggdrasil was not found."@]
    } else {
        seq![]
    })
}

proof fn lemma_first_existing(cands: Seq<ConfigCandidate>, j: int)
    requires
        -1 <= j < cands.len(),
        j >= 0 ==> cands[j].exists,
        forall|k: int| 0 <= k < cands.len() && (j < 0 || k < j) ==> !(#[trigger] cands[k]).exists,
    ensures
        first_existing(cands) == j,
    decreases cands.len(),
{
    if cands.len() > 0 && j != 0 {
        let t = cands.drop_first();
        assert forall|k: int| 0 <= k < t.len() && (j - 1 < 0 || k < j - 1) implies !(#[trigger] t[k]).exists by {
            assert(t[k] == cands[k + 1]);
        }
        if j > 0 {
            assert(t[j - 1] == cands[j]);
            lemma_first_existing(t, j - 1);
        } else {
            lemma_first_existing(t, -1);
        }
    }
}

/// Gathers what was found into the environment report, with the configuration
/// path chosen and the notes that apply.
pub fn environment_from(
    os: String,
    arch: String,
    yggdrasil: BinaryInfo,
    yggdrasilctl: BinaryInfo,
    config_candidates: Vec<ConfigCandidate>,
    process_running: bool,
    launchd: LaunchdStatus,
) -> (r: Environment)
    ensures
        r.os == os,
        r.arch == arch,
        r.yggdrasil == yggdrasil,
        r.yggdrasilctl == yggdrasilctl,
        r.config_candidates == config_candidates,
        r.process_running == process_running,
        r.launchd == launchd,
        opt_text(r.config_path) == chosen_config(config_candidates@),
        crate::command::texts(r.notes@) == environment_notes(
            yggdrasil.path is Some,
            yggdrasilctl.path is Some,
            some_protected(config_candidates@),
            process_running,
            launchd.found,
        ),
{
    let n = config_candidates.len();
    let mut i: usize = 0;
    while i < n && !config_candidates[i].exists
        invariant
            n == config_candidates.len(),
            i <= n,
            forall|k: int| 0 <= k < i ==> !(#[trigger] config_candidates@[k]).exists,
        decreases n - i,
    {
        i = i + 1;
    }
    let found: Option<usize> = if i < n {
        Some(i)
    } else {
        None
    };
    let config_path = match found {
        Some(j) => {
            proof {
                lemma_first_existing(config_candidates@, j as int);
            }
            Some(config_candidates[j].path.clone())
        },
        None => {
            proof {
                lemma_first_existing(config_candidates@, -1);
            }
            if n > 0 {
                Some(config_candidates[0].path.clone())
            } else {
                None
            }
        },
    };
    let mut protected = false;
    let mut k: usize = 0;
    while k < n
        invariant
            n == config_candidates.len(),
            k <= n,
            protected == exists|j: int| 0 <= j < k && #[trigger] config_candidates@[j].exists && !config_candidates@[j].readable,
        decreases n - k,
    {
        if config_candidates[k].exists && !config_candidates[k].readable {
            protected = true;
        }
        k = k + 1;
    }
    let mut notes: Vec<String> = Vec::new();
    let ghost before = notes@;
    if yggdrasil.path.is_none() {
        notes.push(string_from("yggdrasil binary not found in PATH or Homebrew locations."));
    }
    if yggdrasilctl.path.is_none() {
        notes.push(string_from("yggdrasilctl binary not found; node inspection will be limited."));
    }
    if protected {
        notes.push(
            string_from(
                "Config exists but is protected by macOS permissions. Enable admin prompt for apply/read actions.",
            ),
        );
    }
    if process_running && !launchd.found {
        notes.push(
            string_from(
                "Yggdrasil process is running, but launchd label system/yggdrasil was not found.",
            ),
        );
    }
    assert(crate::command::texts(notes@) =~= environment_notes(
        yggdrasil.path is Some,
        yggdrasilctl.path is Some,
        some_protected(config_candidates@),
        process_running,
        launchd.found,
    ));
    Environment {
        os,
        arch,
        yggdrasil,
        yggdrasilctl,
        config_path,
        config_candidates,
        process_running,
        launchd,
        notes,
    }
}

/// Whether `running`, asked whether a `yggdrasil` process runs, may have
/// answered `answer`.
pub open spec fn running_reported<G: Fn() -> bool>(running: G, answer: bool) -> bool {
    call_ensures(running, (), answer)
}

/// Whether `r` is the environment report for the operating system `os` and
/// the architecture `arch`, the actions `seg` being those taken: the binaries as
/// `binary_info` reports them, the standard configuration locations as `access`
/// describes them, whether `running` says a process runs, and the launchd
/// service as `launchd_status` reports it, asked in that order; with the
/// configuration path chosen and the notes that apply.
pub open spec fn environment_found<F: Fn(String) -> bool, A: Fn(String) -> PathAccess, G: Fn() -> bool>(
    is_file: F,
    access: A,
    running: G,
    os: Seq<char>,
    arch: Seq<char>,
    path_dirs: Seq<Seq<char>>,
    seg: Seq<Event>,
    r: Environment,
) -> bool {
    &&& r.os@ == os
    &&& r.arch@ == arch
    &&& exists|k1: int, k2: int|
        0 <= k1 <= k2 <= seg.len() && #[trigger] binary_reported(is_file, "yggdrasil"@, path_dirs, seg.take(k1), r.yggdrasil)
            && #[trigger] binary_reported(
            is_file,
            "yggdrasilctl"@,
            path_dirs,
            seg.subrange(k1, k2),
            r.yggdrasilctl,
        ) && launchd_reported(seg.skip(k2), r.launchd)
    &&& candidates_found(access, r.config_candidates@)
    &&& running_reported(running, r.process_running)
    &&& opt_text(r.config_path) == chosen_config(r.config_candidates@)
    &&& crate::command::texts(r.notes@) == environment_notes(
        r.yggdrasil.path is Some,
        r.yggdrasilctl.path is Some,
        some_protected(r.config_candidates@),
        r.process_running,
        r.launchd.found,
    )
}

/// Looks at this machine: for the `yggdrasil` and `yggdrasilctl` binaries,
/// the standard configuration locations, a running process and the launchd
/// service; and reports what it found.
pub fn detect_environment<F: Fn(String) -> bool, A: Fn(String) -> PathAccess, G: Fn() -> bool, M: Machine>(
    os: String,
    arch: String,
    path_dirs: &Vec<String>,
    is_file: &F,
    access: &A,
    running: &G,
    host: &mut Host<M>,
) -> (r: Environment)
    requires
        forall|p: String| call_requires(*is_file, (p,)),
        forall|p: String| call_requires(*access, (p,)),
        call_requires(*running, ()),
    ensures
        extends(old(host).events(), final(host).events()),
        environment_found(
            *is_file,
            *access,
            *running,
            os@,
            arch@,
            crate::command::texts(path_dirs@),
            since(old(host).events(), final(host).events()),
            r,
        ),
{
    proof {
        reveal_strlit("yggdrasil");
        reveal_strlit("yggdrasilctl");
    }
    let ghost e0 = host.events();
    let yggdrasil = binary_info("yggdrasil", path_dirs, is_file, host);
    let ghost e1 = host.events();
    let yggdrasilctl = binary_info("yggdrasilctl", path_dirs, is_file, host);
    let ghost e2 = host.events();
    let candidates = config_candidates(access);
    let process_running = running();
    let launchd = launchd_status(host);
    let ghost e3 = host.events();
    proof {
        lemma_since_concat(e0, e1, e2);
        lemma_since_concat(e0, e2, e3);
        let seg = since(e0, e3);
        let k1 = since(e0, e1).len() as int;
        let k2 = since(e0, e2).len() as int;
        assert(seg.take(k1) =~= since(e0, e1));
        assert(seg.subrange(k1, k2) =~= since(e1, e2));
        assert(seg.skip(k2) =~= since(e2, e3));
    }
    environment_from(os, arch, yggdrasil, yggdrasilctl, candidates, process_running, launchd)
}

} // verus!
