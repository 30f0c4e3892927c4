use vstd::prelude::*;

use crate::order::{
    lemma_lex_less_asymmetric, lemma_lex_less_total, lemma_lex_less_transitive, lex_less,
    lex_less_chars,
};
use crate::text::{chars_of, ends_with, occurs_at, string_of};

verus! {

/// One peer as the public peer list describes it; every field may be absent.
pub struct RawPublicPeer {
    pub up: Option<bool>,
    pub key: Option<String>,
    pub response_ms: Option<u64>,
    pub last_seen: Option<u64>,
    pub proto_minor: Option<u64>,
    pub priority: Option<i64>,
}

/// A peer URI of the public list, with what the list says of it.
pub struct PeerEntry {
    pub uri: String,
    pub peer: RawPublicPeer,
}

/// One source file of the public peer list (such as `germany.md`) and its
/// peers, in the order the list holds them.
pub struct PeerSource {
    pub source: String,
    pub entries: Vec<PeerEntry>,
}

/// A peer of the public list, as it is shown to the user.
pub struct PublicPeer {
    pub uri: String,
    pub source: String,
    pub region: String,
    pub scheme: String,
    pub up: bool,
    pub key: Option<String>,
    pub response_ms: Option<u64>,
    pub last_seen: Option<u64>,
    pub proto_minor: Option<u64>,
    pub priority: Option<i64>,
}

/// The mathematical value of a `PublicPeer`.
pub struct PublicPeerView {
    pub uri: Seq<char>,
    pub source: Seq<char>,
    pub region: Seq<char>,
    pub scheme: Seq<char>,
    pub up: bool,
    pub key: Option<Seq<char>>,
    pub response_ms: Option<u64>,
    pub last_seen: Option<u64>,
    pub proto_minor: Option<u64>,
    pub priority: Option<i64>,
}

/// The characters of an optional text.
pub open spec fn opt_text(o: Option<String>) -> Option<Seq<char>> {
    match o {
        Some(s) => Some(s@),
        None => None,
    }
}

impl View for PublicPeer {
    type V = PublicPeerView;

    open spec fn view(&self) -> PublicPeerView {
        PublicPeerView {
            uri: self.uri@,
            source: self.source@,
            region: self.region@,
            scheme: self.scheme@,
            up: self.up,
            key: opt_text(self.key),
            response_ms: self.response_ms,
            last_seen: self.last_seen,
            proto_minor: self.proto_minor,
            priority: self.priority,
        }
    }
}

/// `s` without every trailing `.md` (`str::trim_end_matches(".md")`).
pub open spec fn strip_md(s: Seq<char>) -> Seq<char>
    decreases s.len(),
{
    if ends_with(s, seq!['.', 'm', 'd']) {
        strip_md(s.take(s.len() - 3))
    } else {
        s
    }
}

/// `s` with every `_` and `-` written as a space.
pub open spec fn spaced(s: Seq<char>) -> Seq<char> {
    s.map_values(|c: char| if c == '_' || c == '-' { ' ' } else { c })
}

/// The region shown for a source file name: the name without its trailing `.md`
/// suffixes, with `_` and `-` read as spaces.
pub open spec fn region_of(source: Seq<char>) -> Seq<char> {
    spaced(strip_md(source))
}

/// The first position at or after `k` where `://` begins in `s`, or -1.
pub open spec fn find_separator(s: Seq<char>, k: int) -> int
    decreases s.len() - k,
{
    if k < 0 || k + 3 > s.len() {
        -1
    } else if occurs_at(s, seq![':', '/', '/'], k) {
        k
    } else {
        find_separator(s, k + 1)
    }
}

/// The scheme shown for a peer URI: what stands before the first `://`, or
/// `unknown` where there is none.
pub open spec fn scheme_of(uri: Seq<char>) -> Seq<char> {
    let k = find_separator(uri, 0);
    if k >= 0 {
        uri.take(k)
    } else {
        seq!['u', 'n', 'k', 'n', 'o', 'w', 'n']
    }
}

/// The shown peer for the list entry `uri` of `source`.
pub open spec fn public_peer(source: Seq<char>, uri: Seq<char>, raw: RawPublicPeer) -> PublicPeerView {
    PublicPeerView {
        uri: uri,
        source: source,
        region: region_of(source),
        scheme: scheme_of(uri),
        up: match raw.up {
            Some(b) => b,
            None => false,
        },
        key: opt_text(raw.key),
        response_ms: raw.response_ms,
        last_seen: raw.last_seen,
        proto_minor: raw.proto_minor,
        priority: raw.priority,
    }
}

/// The first `n` shown peers of one source, in list order.
pub open spec fn source_peers(src: PeerSource, n: int) -> Seq<PublicPeerView> {
    Seq::new(n as nat, |i: int| public_peer(src.source@, src.entries@[i].uri@, src.entries@[i].peer))
}

/// The shown peers of all sources, source after source, each in list order.
pub open spec fn listed_peers(sources: Seq<PeerSource>) -> Seq<PublicPeerView>
    decreases sources.len(),
{
    if sources.len() == 0 {
        seq![]
    } else {
        listed_peers(sources.drop_last()) + source_peers(
            sources.last(),
            sources.last().entries@.len() as int,
        )
    }
}

/// The latency by which peers are ranked: an unknown one counts as the largest.
pub open spec fn latency(p: PublicPeerView) -> int {
    match p.response_ms {
        Some(m) => m as int,
        None => u64::MAX as int,
    }
}

/// Whether `a` ranks strictly before `b`: peers that are up first, then lower
/// latency, then the URI in text order.
pub open spec fn ranks_before(a: PublicPeerView, b: PublicPeerView) -> bool {
    ||| (a.up && !b.up)
    ||| (a.up == b.up && latency(a) < latency(b))
    ||| (a.up == b.up && latency(a) == latency(b) && lex_less(a.uri, b.uri))
}

/// Whether `a` and `b` rank alike.
pub open spec fn same_rank(a: PublicPeerView, b: PublicPeerView) -> bool {
    a.up == b.up && latency(a) == latency(b) && a.uri == b.uri
}

/// Whether the `i`-th listed peer comes before the `j`-th in the sorted list:
/// it ranks before it, or they rank alike and it was listed first.
pub open spec fn listed_before(f: Seq<PublicPeerView>, i: int, j: int) -> bool {
    ranks_before(f[i], f[j]) || (same_rank(f[i], f[j]) && i < j)
}

/// Whether `out` is `f` sorted stably by rank, with `perm[k]` the position in `f`
/// of `out[k]`.
pub open spec fn sorted_by_rank(out: Seq<PublicPeerView>, f: Seq<PublicPeerView>, perm: Seq<int>) -> bool {
    &&& out.len() == f.len()
    &&& perm.len() == f.len()
    &&& forall|k: int| 0 <= k < out.len() ==> 0 <= #[trigger] perm[k] < f.len() && out[k] == f[perm[k]]
    &&& forall|k: int, l: int|
        0 <= k < l < out.len() ==> #[trigger] perm[k] != #[trigger] perm[l] && listed_before(
            f,
            perm[k],
            perm[l],
        )
}

/// The views of a list of peers.
pub open spec fn peer_views(v: Seq<PublicPeer>) -> Seq<PublicPeerView> {
    v.map_values(|p: PublicPeer| p@)
}

/// Of two peers, one ranks before the other, or they rank alike.
pub proof fn lemma_rank_total(a: PublicPeerView, b: PublicPeerView)
    ensures
        ranks_before(a, b) || ranks_before(b, a) || same_rank(a, b),
{
    if a.uri != b.uri {
        lemma_lex_less_total(a.uri, b.uri);
    }
}

/// Ranking before is transitive and passes through peers that rank alike.
pub proof fn lemma_rank_transitive(a: PublicPeerView, b: PublicPeerView, c: PublicPeerView)
    requires
        ranks_before(a, b) || same_rank(a, b),
        ranks_before(b, c) || same_rank(b, c),
        ranks_before(a, b) || ranks_before(b, c),
    ensures
        ranks_before(a, c),
{
    if a.up == b.up && b.up == c.up && latency(a) == latency(b) && latency(b) == latency(c) {
        if lex_less(a.uri, b.uri) && lex_less(b.uri, c.uri) {
            lemma_lex_less_transitive(a.uri, b.uri, c.uri);
        }
    }
}

/// No peer ranks both before and after another, nor before itself.
pub proof fn lemma_rank_asymmetric(a: PublicPeerView, b: PublicPeerView)
    ensures
        !(ranks_before(a, b) && ranks_before(b, a)),
        !(ranks_before(a, b) && same_rank(a, b)),
{
    lemma_lex_less_asymmetric(a.uri, b.uri);
    lemma_lex_less_asymmetric(a.uri, a.uri);
}

/// The order of the sorted list is transitive.
pub proof fn lemma_listed_before_transitive(f: Seq<PublicPeerView>, i: int, j: int, k: int)
    requires
        listed_before(f, i, j),
        listed_before(f, j, k),
    ensures
        listed_before(f, i, k),
{
    if ranks_before(f[i], f[j]) || ranks_before(f[j], f[k]) {
        lemma_rank_transitive(f[i], f[j], f[k]);
    }
}

} // verus!

verus! {

/// The region shown for the source file name `source`.
pub fn region_name(source: &str) -> (r: String)
    ensures
        r@ == region_of(source@),
{
    let v = chars_of(source);
    let mut n: usize = v.len();
    assert(v@.take(n as int) =~= v@);
    while n >= 3 && v[n - 3] == '.' && v[n - 2] == 'm' && v[n - 1] == 'd'
        invariant
            n <= v.len(),
            strip_md(v@) == strip_md(v@.take(n as int)),
        decreases n,
    {
        let ghost t = v@.take(n as int);
        assert(t.skip(t.len() - 3) =~= seq!['.', 'm', 'd']);
        assert(t.take(t.len() - 3) =~= v@.take(n - 3));
        n = n - 3;
    }
    let ghost t = v@.take(n as int);
    assert(!ends_with(t, seq!['.', 'm', 'd'])) by {
        if ends_with(t, seq!['.', 'm', 'd']) {
            assert(t.skip(t.len() - 3)[0] == v@[n - 3]);
            assert(t.skip(t.len() - 3)[1] == v@[n - 2]);
            assert(t.skip(t.len() - 3)[2] == v@[n - 1]);
        }
    }
    let mut out: Vec<char> = Vec::new();
    let mut i: usize = 0;
    while i < n
        invariant
            i <= n <= v.len(),
            out@ == spaced(v@.take(n as int)).take(i as int),
        decreases n - i,
    {
        let c = v[i];
        if c == '_' || c == '-' {
            out.push(' ');
        } else {
            out.push(c);
        }
        assert(spaced(v@.take(n as int)).take(i + 1) =~= spaced(v@.take(n as int)).take(
            i as int,
        ).push(if c == '_' || c == '-' { ' ' } else { c }));
        i = i + 1;
    }
    assert(spaced(v@.take(n as int)).take(n as int) =~= spaced(v@.take(n as int)));
    string_of(&out)
}

/// The scheme shown for the peer URI `uri`.
pub fn scheme_name(uri: &str) -> (r: String)
    ensures
        r@ == scheme_of(uri@),
{
    let v = chars_of(uri);
    let mut k: usize = 0;
    while v.len() >= 3 && k <= v.len() - 3
        invariant
            v@ == uri@,
            k <= v.len(),
            find_separator(v@, 0) == find_separator(v@, k as int),
        decreases v.len() - k,
    {
        if v[k] == ':' && v[k + 1] == '/' && v[k + 2] == '/' {
            assert(v@.subrange(k as int, k + 3) =~= seq![':', '/', '/']);
            let mut out: Vec<char> = Vec::new();
            let mut i: usize = 0;
            while i < k
                invariant
                    i <= k < v.len(),
                    out@ == v@.take(i as int),
                decreases k - i,
            {
                out.push(v[i]);
                assert(v@.take(i + 1) =~= v@.take(i as int).push(v@[i as int]));
                i = i + 1;
            }
            return string_of(&out);
        }
        assert(!occurs_at(v@, seq![':', '/', '/'], k as int)) by {
            if occurs_at(v@, seq![':', '/', '/'], k as int) {
                assert(v@.subrange(k as int, k + 3)[0] == v@[k as int]);
                assert(v@.subrange(k as int, k + 3)[1] == v@[k + 1]);
                assert(v@.subrange(k as int, k + 3)[2] == v@[k + 2]);
            }
        }
        k = k + 1;
    }
    let mut out: Vec<char> = Vec::new();
    crate::text::push_seq(&mut out, &['u', 'n', 'k', 'n', 'o', 'w', 'n']);
    assert(out@ =~= seq!['u', 'n', 'k', 'n', 'o', 'w', 'n']);
    string_of(&out)
}

fn clone_text(o: &Option<String>) -> (r: Option<String>)
    ensures
        opt_text(r) == opt_text(*o),
{
    match o {
        Some(s) => Some(s.clone()),
        None => None,
    }
}

fn shown_peer(source: &String, region: &String, entry: &PeerEntry) -> (r: PublicPeer)
    requires
        region@ == region_of(source@),
    ensures
        r@ == public_peer(source@, entry.uri@, entry.peer),
{
    let up = match entry.peer.up {
        Some(b) => b,
        None => false,
    };
    PublicPeer {
        uri: entry.uri.clone(),
        source: source.clone(),
        region: region.clone(),
        scheme: scheme_name(entry.uri.as_str()),
        up: up,
        key: clone_text(&entry.peer.key),
        response_ms: entry.peer.response_ms,
        last_seen: entry.peer.last_seen,
        proto_minor: entry.peer.proto_minor,
        priority: entry.peer.priority,
    }
}

fn ranks_before_exec(a: &PublicPeer, a_uri: &Vec<char>, b: &PublicPeer, b_uri: &Vec<char>) -> (r: bool)
    requires
        a_uri@ == a.uri@,
        b_uri@ == b.uri@,
    ensures
        r == ranks_before(a@, b@),
{
    if a.up != b.up {
        return a.up;
    }
    let la: u64 = match a.response_ms {
        Some(m) => m,
        None => u64::MAX,
    };
    let lb: u64 = match b.response_ms {
        Some(m) => m,
        None => u64::MAX,
    };
    if la != lb {
        return la < lb;
    }
    lex_less_chars(a_uri, b_uri)
}

/// Puts `peer` into the stably sorted `out` at its place by rank.
fn insert_by_rank(
    out: &mut Vec<PublicPeer>,
    uris: &mut Vec<Vec<char>>,
    peer: PublicPeer,
    uri: Vec<char>,
    Ghost(f): Ghost<Seq<PublicPeerView>>,
    Ghost(perm): Ghost<Seq<int>>,
) -> (new_perm: Ghost<Seq<int>>)
    requires
        sorted_by_rank(peer_views(old(out)@), f, perm),
        old(uris)@.len() == old(out)@.len(),
        forall|k: int| 0 <= k < old(out)@.len() ==> (#[trigger] old(uris)@[k])@ == old(out)@[k].uri@,
        uri@ == peer.uri@,
    ensures
        sorted_by_rank(peer_views(final(out)@), f.push(peer@), new_perm@),
        final(uris)@.len() == final(out)@.len(),
        forall|k: int| 0 <= k < final(out)@.len() ==> (#[trigger] final(uris)@[k])@ == final(out)@[k].uri@,
{
    let n = out.len();
    let mut pos: usize = n;
    while pos > 0 && ranks_before_exec(&peer, &uri, &out[pos - 1], &uris[pos - 1])
        invariant
            pos <= n,
            n == out.len(),
            uris@.len() == n,
            forall|k: int| 0 <= k < n ==> (#[trigger] uris@[k])@ == out@[k].uri@,
            uri@ == peer.uri@,
            forall|k: int| pos <= k < n ==> ranks_before(peer@, #[trigger] out@[k]@),
        decreases pos,
    {
        pos = pos - 1;
    }
    let ghost g = f.push(peer@);
    let ghost old_views = peer_views(out@);
    let ghost np = perm.take(pos as int).push(f.len() as int) + perm.skip(pos as int);
    assert(old_views.len() == n);
    proof {
        assert forall|k: int| 0 <= k < n implies #[trigger] old_views[k] == g[perm[k]] by {
            assert(old_views[k] == f[perm[k]]);
        }
    }
    out.insert(pos, peer);
    uris.insert(pos, uri);
    let ghost views = peer_views(out@);
    proof {
        assert(views.len() == n + 1);
        assert forall|k: int| 0 <= k < n + 1 implies 0 <= #[trigger] np[k] < g.len() && views[k]
            == g[np[k]] by {
            if k < pos {
                assert(np[k] == perm[k]);
                assert(views[k] == old_views[k]);
            } else if k == pos {
                assert(np[k] == f.len());
            } else {
                assert(np[k] == perm[k - 1]);
                assert(views[k] == old_views[k - 1]);
            }
        }
        assert forall|k: int, l: int| 0 <= k < l < n + 1 implies #[trigger] np[k] != #[trigger] np[l]
            && listed_before(g, np[k], np[l]) by {
            if l < pos {
                assert(np[k] == perm[k] && np[l] == perm[l]);
                assert(listed_before(f, perm[k], perm[l]));
            } else if k > pos {
                assert(np[k] == perm[k - 1] && np[l] == perm[l - 1]);
                assert(listed_before(f, perm[k - 1], perm[l - 1]));
            } else if k < pos && l > pos {
                assert(np[k] == perm[k] && np[l] == perm[l - 1]);
                assert(listed_before(f, perm[k], perm[l - 1]));
            } else if k == pos {
                assert(np[k] == f.len());
                assert(np[l] == perm[l - 1]);
                assert(out@[l]@ == old_views[l - 1]);
                assert(ranks_before(peer@, g[np[l]]));
            } else {
                // l == pos, k < pos
                assert(np[l] == f.len());
                assert(np[k] == perm[k]);
                let p = (pos - 1) as int;
                assert(old_views[p] == g[perm[p]]);
                assert(!ranks_before(peer@, g[perm[p]]));
                lemma_rank_total(peer@, g[perm[p]]);
                assert(listed_before(g, perm[p], f.len() as int));
                if k < p {
                    assert(listed_before(f, perm[k], perm[p]));
                    assert(listed_before(g, perm[k], perm[p]));
                    lemma_listed_before_transitive(g, perm[k], perm[p], f.len() as int);
                }
            }
        }
        assert forall|k: int| 0 <= k < n + 1 implies (#[trigger] uris@[k])@ == out@[k].uri@ by {
            if k < pos {
            } else if k > pos {
            }
        }
    }
    Ghost(np)
}

} // verus!

verus! {

/// The shown peers of all `sources`, sorted: peers that are up first, then by
/// latency (unknown last), then by URI; peers that rank alike keep list order.
pub fn collect_public_peers(sources: &Vec<PeerSource>) -> (r: Vec<PublicPeer>)
    ensures
        exists|perm: Seq<int>| sorted_by_rank(peer_views(r@), listed_peers(sources@), perm),
{
    let mut out: Vec<PublicPeer> = Vec::new();
    let mut uris: Vec<Vec<char>> = Vec::new();
    let ghost mut perm: Seq<int> = seq![];
    let mut s: usize = 0;
    assert(sources@.take(0) =~= seq![]);
    assert(peer_views(out@) =~= seq![]);
    while s < sources.len()
        invariant
            s <= sources.len(),
            sorted_by_rank(peer_views(out@), listed_peers(sources@.take(s as int)), perm),
            uris@.len() == out@.len(),
            forall|k: int| 0 <= k < out@.len() ==> (#[trigger] uris@[k])@ == out@[k].uri@,
        decreases sources.len() - s,
    {
        let src = &sources[s];
        let region = region_name(src.source.as_str());
        let ghost base = listed_peers(sources@.take(s as int));
        let mut e: usize = 0;
        assert(base + source_peers(*src, 0) =~= base);
        while e < src.entries.len()
            invariant
                s < sources.len(),
                src == sources@[s as int],
                e <= src.entries.len(),
                region@ == region_of(src.source@),
                base == listed_peers(sources@.take(s as int)),
                sorted_by_rank(peer_views(out@), base + source_peers(*src, e as int), perm),
                uris@.len() == out@.len(),
                forall|k: int| 0 <= k < out@.len() ==> (#[trigger] uris@[k])@ == out@[k].uri@,
            decreases src.entries.len() - e,
        {
            let entry = &src.entries[e];
            let peer = shown_peer(&src.source, &region, entry);
            let uri = chars_of(peer.uri.as_str());
            let ghost f = base + source_peers(*src, e as int);
            let ghost pv = peer@;
            let Ghost(np) = insert_by_rank(&mut out, &mut uris, peer, uri, Ghost(f), Ghost(perm));
            proof {
                perm = np;
                assert(f.push(pv) =~= base + source_peers(*src, e + 1));
            }
            e = e + 1;
        }
        proof {
            let t = sources@.take(s + 1);
            assert(t.drop_last() =~= sources@.take(s as int));
            assert(t.last() == *src);
        }
        s = s + 1;
    }
    assert(sources@.take(sources.len() as int) =~= sources@);
    out
}

} // verus!

verus! {

/// The largest public peer list, in bytes, that is read.
pub const MAX_PUBLIC_PEERS_BYTES: usize = 4 * 1024 * 1024;

/// Refuses an answer of the public peer list whose HTTP status is not a
/// success; `status` is how the status is written, such as `404 Not Found`.
pub fn check_peers_status(success: bool, status: &str) -> (r: Result<(), String>)
    ensures
        match r {
            Ok(()) => success,
            Err(e) => !success && e@ == "Public peers endpoint returned HTTP "@ + status@,
        },
{
    if success {
        Ok(())
    } else {
        let mut m: Vec<char> = Vec::new();
        crate::text::push_str(&mut m, "Public peers endpoint returned HTTP ");
        crate::text::push_str(&mut m, status);
        Err(string_of(&m))
    }
}

/// Refuses a public peer list larger than `MAX_PUBLIC_PEERS_BYTES`.
pub fn check_peers_size(len: usize) -> (r: Result<(), String>)
    ensures
        match r {
            Ok(()) => len <= MAX_PUBLIC_PEERS_BYTES,
            Err(e) => len > MAX_PUBLIC_PEERS_BYTES && e@ == "Public peers response is too large: "@
                + crate::text::decimal(len as nat) + " bytes"@,
        },
{
    if len > MAX_PUBLIC_PEERS_BYTES {
        let d = crate::text::decimal_string(len as u64);
        let mut m: Vec<char> = Vec::new();
        crate::text::push_str(&mut m, "Public peers response is too large: ");
        crate::text::push_str(&mut m, d.as_str());
        crate::text::push_str(&mut m, " bytes");
        Err(string_of(&m))
    } else {
        Ok(())
    }
}

} // verus!

verus! {

/// A list of `n` distinct positions below `n` holds every position below `n`.
proof fn lemma_positions_cover(perm: Seq<int>, n: int)
    requires
        perm.len() == n,
        forall|k: int| 0 <= k < n ==> 0 <= #[trigger] perm[k] < n,
        forall|k: int, l: int| 0 <= k < l < n ==> #[trigger] perm[k] != #[trigger] perm[l],
    ensures
        forall|v: int| 0 <= v < n ==> perm.contains(v),
{
    assert(perm.no_duplicates()) by {
        assert forall|i: int, j: int| 0 <= i < perm.len() && 0 <= j < perm.len() && i != j implies perm[i]
            != perm[j] by {
            if i < j {
                assert(perm[i] != perm[j]);
            } else {
                assert(perm[j] != perm[i]);
            }
        }
    }
    perm.unique_seq_to_set();
    vstd::set_lib::lemma_int_range(0, n);
    let r = vstd::set_lib::set_int_range(0, n);
    let s = perm.to_set();
    vstd::seq_lib::seq_to_set_is_finite(perm);
    assert(s.subset_of(r)) by {
        assert forall|v: int| s.contains(v) implies r.contains(v) by {
            let k = choose|k: int| 0 <= k < perm.len() && perm[k] == v;
            assert(0 <= perm[k] < n);
        }
    }
    vstd::set_lib::lemma_subset_equality(s, r);
    assert forall|v: int| 0 <= v < n implies perm.contains(v) by {
        assert(r.contains(v));
        assert(s.contains(v));
    }
}

/// The order of the sorted list never runs both ways.
proof fn lemma_listed_before_asymmetric(f: Seq<PublicPeerView>, i: int, j: int)
    ensures
        !(listed_before(f, i, j) && listed_before(f, j, i)),
{
    lemma_rank_asymmetric(f[i], f[j]);
    lemma_rank_asymmetric(f[j], f[i]);
}

/// The sorted public peer list is determined by the list it sorts: any two
/// lists sorted by rank, with ties in list order, from the same listing are
/// the same.
pub proof fn law_peer_order_is_unique(
    out1: Seq<PublicPeerView>,
    out2: Seq<PublicPeerView>,
    f: Seq<PublicPeerView>,
    p1: Seq<int>,
    p2: Seq<int>,
)
    requires
        sorted_by_rank(out1, f, p1),
        sorted_by_rank(out2, f, p2),
    ensures
        out1 == out2,
{
    let n = f.len() as int;
    lemma_positions_cover(p1, n);
    lemma_positions_cover(p2, n);
    assert forall|k: int| 0 <= k < n implies p1[k] == p2[k] by {
        lemma_same_positions_upto(f, p1, p2, k);
    }
    assert(out1 =~= out2) by {
        assert forall|k: int| 0 <= k < n implies out1[k] == out2[k] by {
            lemma_same_positions_upto(f, p1, p2, k);
        }
    }
}

proof fn lemma_same_positions_upto(f: Seq<PublicPeerView>, p1: Seq<int>, p2: Seq<int>, k: int)
    requires
        0 <= k < f.len(),
        p1.len() == f.len(),
        p2.len() == f.len(),
        forall|j: int| 0 <= j < f.len() ==> 0 <= #[trigger] p1[j] < f.len(),
        forall|j: int| 0 <= j < f.len() ==> 0 <= #[trigger] p2[j] < f.len(),
        forall|a: int, b: int|
            0 <= a < b < f.len() ==> #[trigger] p1[a] != #[trigger] p1[b] && listed_before(f, p1[a], p1[b]),
        forall|a: int, b: int|
            0 <= a < b < f.len() ==> #[trigger] p2[a] != #[trigger] p2[b] && listed_before(f, p2[a], p2[b]),
        forall|v: int| 0 <= v < f.len() ==> p1.contains(v),
        forall|v: int| 0 <= v < f.len() ==> p2.contains(v),
    ensures
        p1[k] == p2[k],
    decreases k,
{
    if k > 0 {
        lemma_same_positions_upto(f, p1, p2, k - 1);
    }
    assert forall|j: int| 0 <= j < k implies p1[j] == p2[j] by {
        lemma_same_positions_upto(f, p1, p2, j);
    }
    let a = p1[k];
    let b = p2[k];
    if a != b {
        assert(p1.contains(b));
        let l = choose|l: int| 0 <= l < p1.len() && p1[l] == b;
        assert(p2.contains(a));
        let m = choose|m: int| 0 <= m < p2.len() && p2[m] == a;
        if l < k {
            assert(p2[l] == b);
            assert(p2[l] != p2[k]);
        }
        if m < k {
            assert(p1[m] == a);
            assert(p1[m] != p1[k]);
        }
        assert(l > k);
        assert(m > k);
        assert(listed_before(f, a, b));
        assert(listed_before(f, b, a));
        lemma_listed_before_asymmetric(f, a, b);
    }
}

/// Every peer of the list shows up in the sorted list: at some position, and
/// at one position only.
pub proof fn law_every_listed_peer_is_shown(
    out: Seq<PublicPeerView>,
    f: Seq<PublicPeerView>,
    perm: Seq<int>,
    i: int,
)
    requires
        sorted_by_rank(out, f, perm),
        0 <= i < f.len(),
    ensures
        exists|k: int| 0 <= k < out.len() && perm[k] == i && out[k] == f[i],
        forall|k: int, l: int| 0 <= k < out.len() && 0 <= l < out.len() && perm[k] == i && perm[l] == i ==> k == l,
{
    lemma_positions_cover(perm, f.len() as int);
    assert(perm.contains(i));
    let k = choose|k: int| 0 <= k < perm.len() && perm[k] == i;
    assert(out[k] == f[perm[k]]);
    assert forall|a: int, b: int| 0 <= a < out.len() && 0 <= b < out.len() && perm[a] == i && perm[b] == i implies a == b by {
        if a < b {
            assert(perm[a] != perm[b]);
        } else if b < a {
            assert(perm[b] != perm[a]);
        }
    }
}

} // verus!
