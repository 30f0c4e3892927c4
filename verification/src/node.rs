use vstd::prelude::*;

use crate::json::{
    read_json,
    copy_json, count_response_records, find_display_by_keys, find_member, find_string_by_keys,
    find_text, key_texts, record_count, response_of, response_value, same_json, shows_found, JsonValue,
};
use crate::binaries::{binary_candidates, find_binary, find_fixed_binary, first_found, fixed_candidates};
use crate::command::{
    pair_asked, pair_asked_admin, pair_result, run_yggdrasilctl_pair, run_yggdrasilctl_pair_admin, texts,
};
use crate::machine::{extends, lemma_since_same, since, Event, Host, Machine};
use crate::peers::opt_text;
use crate::text::concat2;

verus! {

/// What the node reports about itself and its peers.
pub struct NodeStatus {
    pub process_running: bool,
    pub admin_api_ok: bool,
    pub error: Option<String>,
    pub build_name: Option<String>,
    pub build_version: Option<String>,
    pub ipv6_address: Option<String>,
    pub subnet: Option<String>,
    pub public_key: Option<String>,
    pub coords: Option<String>,
    pub peer_count: usize,
    pub self_info: Option<JsonValue>,
}

/// What asking the node's admin API came to.
pub enum NodeQuery {
    /// No `yggdrasilctl` binary was found.
    CtlMissing,
    /// Running `yggdrasilctl` failed with this message.
    Failed(String),
    /// The `getSelf` and `getPeers` answers, read as JSON.
    Answered { self_value: JsonValue, peers_value: JsonValue },
}

/// The keys under which the node reports its build name.
pub open spec fn build_name_keys() -> Seq<Seq<char>> {
    seq!["build_name"@, "buildName"@, "Build name"@]
}

/// The keys under which the node reports its build version.
pub open spec fn build_version_keys() -> Seq<Seq<char>> {
    seq!["build_version"@, "buildVersion"@, "Build version"@]
}

/// The keys under which the node reports its IPv6 address.
pub open spec fn address_keys() -> Seq<Seq<char>> {
    seq!["ipv6_addr"@, "ipv6_address"@, "address"@, "IPv6 address"@]
}

/// The keys under which the node reports its subnet.
pub open spec fn subnet_keys() -> Seq<Seq<char>> {
    seq!["subnet"@, "IPv6 subnet"@]
}

/// The keys under which the node reports its public key.
pub open spec fn public_key_keys() -> Seq<Seq<char>> {
    seq!["key"@, "public_key"@, "publicKey"@, "box_pub_key"@, "encryption_public_key"@]
}

/// The keys under which the node reports its coordinates.
pub open spec fn coords_keys() -> Seq<Seq<char>> {
    seq!["coords"@, "coordinates"@]
}

/// Whether `s` is the status of a node whose admin API could not be read,
/// with `error` as the reason.
pub open spec fn unreachable_status(s: NodeStatus, process_running: bool, error: Seq<char>) -> bool {
    &&& s.process_running == process_running
    &&& !s.admin_api_ok
    &&& opt_text(s.error) == Some(error)
    &&& s.build_name is None
    &&& s.build_version is None
    &&& s.ipv6_address is None
    &&& s.subnet is None
    &&& s.public_key is None
    &&& s.coords is None
    &&& s.peer_count == 0
    &&& s.self_info is None
}

/// Whether `s` is the status read from the answers `self_value` and `peers_value`.
pub open spec fn answered_status<W: Fn(JsonValue) -> String>(
    show: W,
    s: NodeStatus,
    process_running: bool,
    self_value: JsonValue,
    peers_value: JsonValue,
) -> bool {
    &&& s.process_running == process_running
    &&& s.admin_api_ok
    &&& s.error is None
    &&& opt_text(s.build_name) == find_text(self_value, build_name_keys())
    &&& opt_text(s.build_version) == find_text(self_value, build_version_keys())
    &&& opt_text(s.ipv6_address) == find_text(self_value, address_keys())
    &&& opt_text(s.subnet) == find_text(self_value, subnet_keys())
    &&& opt_text(s.public_key) == find_text(self_value, public_key_keys())
    &&& shows_found(show, s.coords, find_member(self_value, coords_keys()))
    &&& s.peer_count == record_count(peers_value)
    &&& s.self_info matches Some(info) && same_json(response_of(self_value), info)
}

fn unreachable(process_running: bool, error: String) -> (r: NodeStatus)
    ensures
        unreachable_status(r, process_running, error@),
{
    NodeStatus {
        process_running,
        admin_api_ok: false,
        error: Some(error),
        build_name: None,
        build_version: None,
        ipv6_address: None,
        subnet: None,
        public_key: None,
        coords: None,
        peer_count: 0,
        self_info: None,
    }
}

/// The node status that the admin API query `query` comes to; `show` writes out
/// coordinates that are not a string.
pub fn node_status_from<W: Fn(JsonValue) -> String>(process_running: bool, query: NodeQuery, show: &W) -> (r:
    NodeStatus)
    requires
        forall|w: JsonValue| call_requires(*show, (w,)),
    ensures
        match query {
            NodeQuery::CtlMissing => unreachable_status(r, process_running, "yggdrasilctl not found"@),
            NodeQuery::Failed(e) => unreachable_status(r, process_running, e@),
            NodeQuery::Answered { self_value, peers_value } => answered_status(
                *show,
                r,
                process_running,
                self_value,
                peers_value,
            ),
        },
{
    match query {
        NodeQuery::CtlMissing => {
            let e = crate::text::string_from("yggdrasilctl not found");
            proof {
                reveal_strlit("yggdrasilctl not found");
            }
            unreachable(process_running, e)
        },
        NodeQuery::Failed(e) => unreachable(process_running, e),
        NodeQuery::Answered { self_value, peers_value } => {
            let k1: [&str; 3] = ["build_name", "buildName", "Build name"];
            assert(key_texts(k1@) =~= build_name_keys());
            let build_name = find_string_by_keys(&self_value, &k1);
            let k2: [&str; 3] = ["build_version", "buildVersion", "Build version"];
            assert(key_texts(k2@) =~= build_version_keys());
            let build_version = find_string_by_keys(&self_value, &k2);
            let k3: [&str; 4] = ["ipv6_addr", "ipv6_address", "address", "IPv6 address"];
            assert(key_texts(k3@) =~= address_keys());
            let ipv6_address = find_string_by_keys(&self_value, &k3);
            let k4: [&str; 2] = ["subnet", "IPv6 subnet"];
            assert(key_texts(k4@) =~= subnet_keys());
            let subnet = find_string_by_keys(&self_value, &k4);
            let k5: [&str; 5] = ["key", "public_key", "publicKey", "box_pub_key", "encryption_public_key"];
            assert(key_texts(k5@) =~= public_key_keys());
            let public_key = find_string_by_keys(&self_value, &k5);
            let k6: [&str; 2] = ["coords", "coordinates"];
            assert(key_texts(k6@) =~= coords_keys());
            let coords = find_display_by_keys(&self_value, &k6, show);
            let peer_count = count_response_records(&peers_value);
            let info = copy_json(response_value(&self_value));
            NodeStatus {
                process_running,
                admin_api_ok: true,
                error: None,
                build_name,
                build_version,
                ipv6_address,
                subnet,
                public_key,
                coords,
                peer_count,
                self_info: Some(info),
            }
        },
    }
}

/// Where `get_node_status` looks for `yggdrasilctl`: in the fixed locations
/// only when privileges are used, else as `find_binary` does.
pub open spec fn ctl_candidates(use_admin: bool, path_dirs: Seq<Seq<char>>) -> Seq<Seq<char>> {
    if use_admin {
        fixed_candidates("yggdrasilctl"@)
    } else {
        binary_candidates("yggdrasilctl"@, path_dirs)
    }
}

/// Whether the actions `seg` are what asking `ctl` for its two answers takes,
/// with privileges (`run_yggdrasilctl_pair_admin`) or without
/// (`run_yggdrasilctl_pair`), and `pair` is what they came to.
pub open spec fn asked(
    use_admin: bool,
    ctl: Seq<char>,
    seg: Seq<Event>,
    pair: Result<(Seq<char>, Seq<char>), Seq<char>>,
) -> bool {
    if use_admin {
        pair_asked_admin(ctl, seg, pair)
    } else {
        pair_asked(ctl, seg, pair)
    }
}

/// The message for a `getSelf` answer that is not JSON.
pub open spec fn unparsed_self(e: Seq<char>) -> Seq<char> {
    "Could not parse getSelf JSON: "@ + e
}

/// The message for a `getPeers` answer that is not JSON.
pub open spec fn unparsed_peers(e: Seq<char>) -> Seq<char> {
    "Could not parse getPeers JSON: "@ + e
}

/// Whether `r` may be the status that `get_node_status` reports, the actions
/// `seg` being those it took: nothing run and an unreachable node where
/// `yggdrasilctl` is missing; an unreachable node where it fails; an error where
/// an answer is not JSON (as `parse` reads it); else the status read from the
/// two answers.
pub open spec fn node_status_found<
    F: Fn(String) -> bool,
    J: Fn(String) -> Result<JsonValue, String>,
    W: Fn(JsonValue) -> String,
>(
    is_file: F,
    parse: J,
    show: W,
    use_admin: bool,
    process_running: bool,
    path_dirs: Seq<Seq<char>>,
    seg: Seq<Event>,
    r: Result<NodeStatus, String>,
) -> bool {
    exists|ctl: Option<Seq<char>>|
        #[trigger] first_found(is_file, ctl_candidates(use_admin, path_dirs), ctl) && match ctl {
            None => seg.len() == 0 && (r matches Ok(s) && unreachable_status(
                s,
                process_running,
                "yggdrasilctl not found"@,
            )),
            Some(c) => exists|pair: Result<(Seq<char>, Seq<char>), Seq<char>>|
                #[trigger] asked(use_admin, c, seg, pair) && match pair {
                    Err(e) => r matches Ok(s) && unreachable_status(s, process_running, e),
                    Ok((self_json, peers_json)) => exists|sv: Result<JsonValue, String>|
                        #[trigger] read_json(parse, self_json, sv) && match sv {
                            Err(e) => r matches Err(m) && m@ == unparsed_self(e@),
                            Ok(self_value) => exists|pv: Result<JsonValue, String>|
                                #[trigger] read_json(parse, peers_json, pv) && match pv {
                                    Err(e) => r matches Err(m) && m@ == unparsed_peers(e@),
                                    Ok(peers_value) => r matches Ok(s) && answered_status(
                                        show,
                                        s,
                                        process_running,
                                        self_value,
                                        peers_value,
                                    ),
                                },
                        },
                },
        }
}

/// Asks the node's admin API, through `yggdrasilctl`, about the node and its
/// peers, with or without privileges; `parse` reads the answers as JSON, and
/// `show` writes out coordinates that are not a string.
pub fn get_node_status<
    F: Fn(String) -> bool,
    J: Fn(String) -> Result<JsonValue, String>,
    W: Fn(JsonValue) -> String,
    M: Machine,
>(
    use_admin: bool,
    process_running: bool,
    path_dirs: &Vec<String>,
    is_file: &F,
    parse: &J,
    show: &W,
    host: &mut Host<M>,
) -> (r: Result<NodeStatus, String>)
    requires
        forall|p: String| call_requires(*is_file, (p,)),
        forall|t: String| call_requires(*parse, (t,)),
        forall|w: JsonValue| call_requires(*show, (w,)),
    ensures
        extends(old(host).events(), final(host).events()),
        node_status_found(
            *is_file,
            *parse,
            *show,
            use_admin,
            process_running,
            texts(path_dirs@),
            since(old(host).events(), final(host).events()),
            r,
        ),
{
    proof {
        lemma_since_same(host.events());
    }
    proof {
        reveal_strlit("yggdrasilctl");
    }
    let found = if use_admin {
        find_fixed_binary("yggdrasilctl", is_file)
    } else {
        find_binary("yggdrasilctl", path_dirs, is_file)
    };
    let ghost ctl = opt_text(found);
    assert(first_found(*is_file, ctl_candidates(use_admin, texts(path_dirs@)), ctl));
    let c = match found {
        None => {
            return Ok(node_status_from(process_running, NodeQuery::CtlMissing, show));
        },
        Some(c) => c,
    };
    let ghost e0 = host.events();
    let pair = if use_admin {
        run_yggdrasilctl_pair_admin(c.as_str(), host)
    } else {
        run_yggdrasilctl_pair(c.as_str(), host)
    };
    let ghost gpair = pair_result(pair);
    assert(asked(use_admin, c@, since(e0, host.events()), gpair));
    let (self_json, peers_json) = match pair {
        Err(e) => {
            return Ok(node_status_from(process_running, NodeQuery::Failed(e), show));
        },
        Ok(p) => p,
    };
    let ghost gs = self_json;
    let sv = parse(self_json);
    assert(call_ensures(*parse, (gs,), sv));
    let ghost gsv = sv;
    assert(read_json(*parse, gpair->Ok_0.0, gsv));
    let self_value = match sv {
        Err(e) => {
            let m = concat2("Could not parse getSelf JSON: ", e.as_str());
            assert(m@ =~= unparsed_self(e@));
            return Err(m);
        },
        Ok(v) => v,
    };
    let ghost gp = peers_json;
    let pv = parse(peers_json);
    assert(call_ensures(*parse, (gp,), pv));
    let ghost gpv = pv;
    assert(read_json(*parse, gpair->Ok_0.1, gpv));
    let peers_value = match pv {
        Err(e) => {
            let m = concat2("Could not parse getPeers JSON: ", e.as_str());
            assert(m@ =~= unparsed_peers(e@));
            return Err(m);
        },
        Ok(v) => v,
    };
    Ok(node_status_from(process_running, NodeQuery::Answered { self_value, peers_value }, show))
}

} // verus!
