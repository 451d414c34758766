//! The monitor command, known on the wire as `mntr`: it returns a list of
//! variables used for monitoring the health of the cluster, one
//! `key<TAB>value` line each.
//!
//! The decoder maps the generic key/value pairs into a versioned,
//! partially-optional health snapshot. Fields fall into three classes:
//!
//! * always present: absence of any of these is a decode error that names
//!   every missing field at once;
//! * conditionally present: reported only by a leader, or only by some
//!   server versions; absence is not an error;
//! * unmapped: a key the mapping does not recognize is preserved verbatim
//!   in a catch-all, so newer servers lose no data.
//!
//! Two keys are synonyms grown out of server-version evolution: an older
//! `zk_followers` and a newer `zk_learners` both feed the `learners`
//! field; when a response holds both, the later pair of the decoded
//! mapping wins.

use crate::client::ZK4LWCommand;
use crate::commands::common::ZK4LWMetricSample;
use crate::errors::ZK4LWError;
use crate::numbers::{i64_literal_val, is_float_literal, is_float_str, is_i64_literal, parse_i64};
use crate::parsing::kv_lookup;
use crate::parsing::kv_model;
use crate::parsing::tab_separated_bytes_to_key_value;
use crate::result::ZK4LWResult;
use crate::state::{state_of_token, ZK4LWServerState};
use crate::text::{drop_empty, non_empty_parts, split_plain, split_string, str_eq, trim, trim_str};
use vstd::prelude::*;

verus! {

/// Response to the monitor command: the decoded health snapshot.
///
/// Always-present fields are plain; conditionally-present ones are
/// `Option`; keys the mapping does not recognize land in `misc`, keyed by
/// the exact original key, in response order.
#[derive(Debug, Clone, PartialEq, Eq)]
pub struct ZK4LWMonitorResponse {
    // version
    pub version: String,
    pub build_revision: String,
    pub build_date: String,
    // latency
    pub latency: ZK4LWMetricSample,
    // packets
    pub packets_received: i64,
    pub packets_sent: i64,
    // connections
    pub num_alive_connections: i64,
    pub connection_drop_count: Option<i64>,
    /// Floating-point text, checked for well-formedness.
    pub connection_drop_probability: Option<String>,
    pub connection_rejected: Option<i64>,
    pub connection_request_count: Option<i64>,
    pub connection_revalidate_count: Option<i64>,
    pub sessionless_connections_expired: Option<i64>,
    // watchers
    pub add_dead_watcher_stall_time: Option<i64>,
    pub dead_watchers_cleared: Option<i64>,
    pub dead_watchers_queued: Option<i64>,
    // requests
    pub outstanding_requests: i64,
    // state
    pub server_state: ZK4LWServerState,
    // znodes
    pub znode_count: i64,
    pub watch_count: i64,
    pub ephemerals_count: i64,
    // data size
    pub approximate_data_size: i64,
    // file descriptors, reported by some server versions only
    pub open_file_descriptor_count: Option<i64>,
    pub max_file_descriptor_count: Option<i64>,
    /// Learner members of the ensemble, either followers or observers;
    /// older servers report this under the key `zk_followers`, newer ones
    /// under `zk_learners`.
    pub learners: Option<i64>,
    pub synced_followers: Option<i64>,
    pub pending_syncs: Option<i64>,
    pub synced_non_voting_followers: Option<i64>,
    pub synced_observers: Option<i64>,
    // proposals
    pub last_proposal_size: Option<i64>,
    pub max_proposal_size: Option<i64>,
    pub min_proposal_size: Option<i64>,
    /// Unknown/unmapped fields, preserved verbatim in response order.
    pub misc: Vec<(String, String)>,
}

/// The monitor command.
pub struct ZK4LWMonitor;

/// Whether `k` is a key decoded as floating-point text.
pub open spec fn float_key(k: Seq<char>) -> bool {
    k == "zk_avg_latency"@ || k == "zk_connection_drop_probability"@
}

/// Whether `k` is a key decoded as a signed 64-bit integer.
pub open spec fn int_key(k: Seq<char>) -> bool {
    ||| k == "zk_max_latency"@
    ||| k == "zk_min_latency"@
    ||| k == "zk_packets_received"@
    ||| k == "zk_packets_sent"@
    ||| k == "zk_num_alive_connections"@
    ||| k == "zk_outstanding_requests"@
    ||| k == "zk_znode_count"@
    ||| k == "zk_watch_count"@
    ||| k == "zk_ephemerals_count"@
    ||| k == "zk_approximate_data_size"@
    ||| k == "zk_open_file_descriptor_count"@
    ||| k == "zk_max_file_descriptor_count"@
    ||| k == "zk_connection_drop_count"@
    ||| k == "zk_connection_rejected"@
    ||| k == "zk_connection_request_count"@
    ||| k == "zk_connection_revalidate_count"@
    ||| k == "zk_sessionless_connections_expired"@
    ||| k == "zk_add_dead_watcher_stall_time"@
    ||| k == "zk_dead_watchers_cleared"@
    ||| k == "zk_dead_watchers_queued"@
    ||| k == "zk_followers"@
    ||| k == "zk_learners"@
    ||| k == "zk_synced_followers"@
    ||| k == "zk_pending_syncs"@
    ||| k == "zk_synced_non_voting_followers"@
    ||| k == "zk_synced_observers"@
    ||| k == "zk_last_proposal_size"@
    ||| k == "zk_max_proposal_size"@
    ||| k == "zk_min_proposal_size"@
}

/// Whether the mapping recognizes key `k`.
pub open spec fn known_key(k: Seq<char>) -> bool {
    k == "zk_version"@ || k == "zk_server_state"@ || float_key(k) || int_key(k)
}

/// The non-empty segments of the version value cut at `-`: the version
/// number, then the build part.
pub open spec fn version_segments(v: Seq<char>) -> Seq<Seq<char>> {
    drop_empty(split_plain(v, '-'))
}

/// Whether a raw `zk_version` value has the expected
/// `<version>-<revision>, <date>` shape: exactly two non-empty segments
/// around `-`, and exactly one `,` in the second.
pub open spec fn version_ok(v: Seq<char>) -> bool {
    version_segments(v).len() == 2 && split_plain(version_segments(v)[1], ',').len() == 2
}

/// The version number carried by a well-formed `zk_version` value.
pub open spec fn version_field(v: Seq<char>) -> Seq<char> {
    trim(version_segments(v)[0])
}

/// The build revision carried by a well-formed `zk_version` value.
pub open spec fn revision_field(v: Seq<char>) -> Seq<char> {
    trim(split_plain(version_segments(v)[1], ',')[0])
}

/// The build date carried by a well-formed `zk_version` value.
pub open spec fn date_field(v: Seq<char>) -> Seq<char> {
    trim(split_plain(version_segments(v)[1], ',')[1])
}

/// Whether the pair `(k, v)` decodes without error.
pub open spec fn pair_ok(k: Seq<char>, v: Seq<char>) -> bool {
    if k == "zk_version"@ {
        version_ok(v)
    } else if k == "zk_server_state"@ {
        state_of_token(v) is Some
    } else if float_key(k) {
        is_float_literal(v)
    } else if int_key(k) {
        is_i64_literal(v)
    } else {
        true
    }
}

/// Whether every pair of the mapping decodes without error.
pub open spec fn pairs_ok(ps: Seq<(Seq<char>, Seq<char>)>) -> bool {
    forall|i: int| 0 <= i < ps.len() ==> pair_ok(#[trigger] ps[i].0, ps[i].1)
}

/// Whether `e` is the error that decoding the ill-formed pair `(k, v)`
/// raises: a string-parse error carrying the raw value for the composite
/// version and the state token, a numeric-parse error carrying key and
/// value otherwise.
pub open spec fn pair_error(e: ZK4LWError, k: Seq<char>, v: Seq<char>) -> bool {
    if k == "zk_version"@ || k == "zk_server_state"@ {
        e matches ZK4LWError::ParseStringError(t) && t@ == v
    } else if float_key(k) {
        e matches ZK4LWError::ParseFloatError(f, t) && f@ == k && t@ == v
    } else {
        e matches ZK4LWError::ParseIntError(f, t) && f@ == k && t@ == v
    }
}

/// Index of the first pair that does not decode, or -1 when all do.
pub open spec fn first_bad(ps: Seq<(Seq<char>, Seq<char>)>) -> int
    decreases ps.len(),
{
    if ps.len() == 0 {
        -1
    } else if !pair_ok(ps[0].0, ps[0].1) {
        0
    } else {
        let r = first_bad(ps.drop_first());
        if r < 0 {
            -1
        } else {
            r + 1
        }
    }
}

/// [`first_bad`] pinned down pointwise.
pub proof fn lemma_first_bad_at(ps: Seq<(Seq<char>, Seq<char>)>, i: int)
    requires
        0 <= i < ps.len(),
        forall|j: int| 0 <= j < i ==> pair_ok(#[trigger] ps[j].0, ps[j].1),
        !pair_ok(ps[i].0, ps[i].1),
    ensures
        first_bad(ps) == i,
    decreases i,
{
    if i == 0 {
    } else {
        assert(forall|j: int| 0 <= j < ps.drop_first().len() ==> ps.drop_first()[j] == ps[j + 1]);
        lemma_first_bad_at(ps.drop_first(), i - 1);
    }
}

/// A non-negative [`first_bad`] names a pair that does not decode, with
/// everything before it decoding.
pub proof fn lemma_first_bad_found(ps: Seq<(Seq<char>, Seq<char>)>)
    requires
        first_bad(ps) >= 0,
    ensures
        first_bad(ps) < ps.len(),
        !pair_ok(ps[first_bad(ps)].0, ps[first_bad(ps)].1),
        forall|j: int| 0 <= j < first_bad(ps) ==> pair_ok(#[trigger] ps[j].0, ps[j].1),
    decreases ps.len(),
{
    if ps.len() > 0 && pair_ok(ps[0].0, ps[0].1) {
        lemma_first_bad_found(ps.drop_first());
        assert(forall|j: int| 0 <= j < ps.drop_first().len() ==> ps.drop_first()[j] == ps[j + 1]);
        assert forall|j: int| 0 <= j < first_bad(ps) implies pair_ok(ps[j].0, ps[j].1) by {
            if j > 0 {
                assert(ps[j] == ps.drop_first()[j - 1]);
                assert(pair_ok(ps.drop_first()[j - 1].0, ps.drop_first()[j - 1].1));
            }
        }
    }
}

/// The value under the later-appearing of the two synonym keys, if either
/// is present.
pub open spec fn kv_lookup2(
    m: Seq<(Seq<char>, Seq<char>)>,
    k1: Seq<char>,
    k2: Seq<char>,
) -> Option<Seq<char>>
    decreases m.len(),
{
    if m.len() == 0 {
        None
    } else if m.last().0 == k1 || m.last().0 == k2 {
        Some(m.last().1)
    } else {
        kv_lookup2(m.drop_last(), k1, k2)
    }
}

/// The pairs whose keys the mapping does not recognize, in order.
pub open spec fn misc_of(ps: Seq<(Seq<char>, Seq<char>)>) -> Seq<(Seq<char>, Seq<char>)>
    decreases ps.len(),
{
    if ps.len() == 0 {
        Seq::empty()
    } else {
        let r = misc_of(ps.drop_last());
        if known_key(ps.last().0) {
            r
        } else {
            r.push(ps.last())
        }
    }
}

/// Whether an optional integer field holds exactly what the mapping holds
/// under its key.
pub open spec fn opt_i64_matches(f: Option<i64>, l: Option<Seq<char>>) -> bool {
    match l {
        None => f is None,
        Some(v) => f matches Some(x) && x as int == i64_literal_val(v),
    }
}

/// Whether an optional floating-point text field holds exactly what the
/// mapping holds under its key, that text being a well-formed literal.
pub open spec fn float_text_matches(f: Option<String>, l: Option<Seq<char>>) -> bool {
    match l {
        None => f is None,
        Some(v) => is_float_literal(v) && (f matches Some(s) && s@ == v),
    }
}

/// Whether a required integer field holds exactly what the mapping holds
/// under its key.
pub open spec fn req_i64_matches(f: i64, l: Option<Seq<char>>) -> bool {
    l matches Some(v) && f as int == i64_literal_val(v)
}

/// Whether every required key is present in the mapping.
pub open spec fn required_present(ps: Seq<(Seq<char>, Seq<char>)>) -> bool {
    &&& kv_lookup(ps, "zk_version"@) is Some
    &&& kv_lookup(ps, "zk_avg_latency"@) is Some
    &&& kv_lookup(ps, "zk_max_latency"@) is Some
    &&& kv_lookup(ps, "zk_min_latency"@) is Some
    &&& kv_lookup(ps, "zk_packets_received"@) is Some
    &&& kv_lookup(ps, "zk_packets_sent"@) is Some
    &&& kv_lookup(ps, "zk_num_alive_connections"@) is Some
    &&& kv_lookup(ps, "zk_outstanding_requests"@) is Some
    &&& kv_lookup(ps, "zk_server_state"@) is Some
    &&& kv_lookup(ps, "zk_znode_count"@) is Some
    &&& kv_lookup(ps, "zk_watch_count"@) is Some
    &&& kv_lookup(ps, "zk_ephemerals_count"@) is Some
    &&& kv_lookup(ps, "zk_approximate_data_size"@) is Some
}

/// The names of every required key the mapping lacks, in a fixed order.
pub open spec fn missing_required(ps: Seq<(Seq<char>, Seq<char>)>) -> Seq<Seq<char>> {
    let m0 = Seq::<Seq<char>>::empty();
    let m1 = if kv_lookup(ps, "zk_version"@) is None {
        m0.push("zk_version"@)
    } else {
        m0
    };
    let m2 = if kv_lookup(ps, "zk_avg_latency"@) is None {
        m1.push("zk_avg_latency"@)
    } else {
        m1
    };
    let m3 = if kv_lookup(ps, "zk_max_latency"@) is None {
        m2.push("zk_max_latency"@)
    } else {
        m2
    };
    let m4 = if kv_lookup(ps, "zk_min_latency"@) is None {
        m3.push("zk_min_latency"@)
    } else {
        m3
    };
    let m5 = if kv_lookup(ps, "zk_packets_received"@) is None {
        m4.push("zk_packets_received"@)
    } else {
        m4
    };
    let m6 = if kv_lookup(ps, "zk_packets_sent"@) is None {
        m5.push("zk_packets_sent"@)
    } else {
        m5
    };
    let m7 = if kv_lookup(ps, "zk_num_alive_connections"@) is None {
        m6.push("zk_num_alive_connections"@)
    } else {
        m6
    };
    let m8 = if kv_lookup(ps, "zk_outstanding_requests"@) is None {
        m7.push("zk_outstanding_requests"@)
    } else {
        m7
    };
    let m9 = if kv_lookup(ps, "zk_server_state"@) is None {
        m8.push("zk_server_state"@)
    } else {
        m8
    };
    let m10 = if kv_lookup(ps, "zk_znode_count"@) is None {
        m9.push("zk_znode_count"@)
    } else {
        m9
    };
    let m11 = if kv_lookup(ps, "zk_watch_count"@) is None {
        m10.push("zk_watch_count"@)
    } else {
        m10
    };
    let m12 = if kv_lookup(ps, "zk_ephemerals_count"@) is None {
        m11.push("zk_ephemerals_count"@)
    } else {
        m11
    };
    let m13 = if kv_lookup(ps, "zk_approximate_data_size"@) is None {
        m12.push("zk_approximate_data_size"@)
    } else {
        m12
    };
    m13
}

/// Whether `resp` holds exactly what the mapping `ps` says, field by
/// field.
pub open spec fn response_matches(
    ps: Seq<(Seq<char>, Seq<char>)>,
    resp: ZK4LWMonitorResponse,
) -> bool {
    &&& (kv_lookup(ps, "zk_version"@) matches Some(v) && version_ok(v) && resp.version@
        == version_field(v) && resp.build_revision@ == revision_field(v) && resp.build_date@
        == date_field(v))
    &&& (kv_lookup(ps, "zk_avg_latency"@) matches Some(v) && is_float_literal(v)
        && resp.latency.avg@ == v)
    &&& req_i64_matches(resp.latency.max, kv_lookup(ps, "zk_max_latency"@))
    &&& req_i64_matches(resp.latency.min, kv_lookup(ps, "zk_min_latency"@))
    &&& resp.latency.count is None
    &&& resp.latency.sum is None
    &&& resp.latency.p50 is None
    &&& resp.latency.p95 is None
    &&& resp.latency.p99 is None
    &&& resp.latency.p999 is None
    &&& req_i64_matches(resp.packets_received, kv_lookup(ps, "zk_packets_received"@))
    &&& req_i64_matches(resp.packets_sent, kv_lookup(ps, "zk_packets_sent"@))
    &&& req_i64_matches(resp.num_alive_connections, kv_lookup(ps, "zk_num_alive_connections"@))
    &&& req_i64_matches(resp.outstanding_requests, kv_lookup(ps, "zk_outstanding_requests"@))
    &&& (kv_lookup(ps, "zk_server_state"@) matches Some(v) && state_of_token(v) == Some(
        resp.server_state,
    ))
    &&& req_i64_matches(resp.znode_count, kv_lookup(ps, "zk_znode_count"@))
    &&& req_i64_matches(resp.watch_count, kv_lookup(ps, "zk_watch_count"@))
    &&& req_i64_matches(resp.ephemerals_count, kv_lookup(ps, "zk_ephemerals_count"@))
    &&& req_i64_matches(resp.approximate_data_size, kv_lookup(ps, "zk_approximate_data_size"@))
    &&& opt_i64_matches(
        resp.open_file_descriptor_count,
        kv_lookup(ps, "zk_open_file_descriptor_count"@),
    )
    &&& opt_i64_matches(
        resp.max_file_descriptor_count,
        kv_lookup(ps, "zk_max_file_descriptor_count"@),
    )
    &&& opt_i64_matches(resp.connection_drop_count, kv_lookup(ps, "zk_connection_drop_count"@))
    &&& float_text_matches(
        resp.connection_drop_probability,
        kv_lookup(ps, "zk_connection_drop_probability"@),
    )
    &&& opt_i64_matches(resp.connection_rejected, kv_lookup(ps, "zk_connection_rejected"@))
    &&& opt_i64_matches(
        resp.connection_request_count,
        kv_lookup(ps, "zk_connection_request_count"@),
    )
    &&& opt_i64_matches(
        resp.connection_revalidate_count,
        kv_lookup(ps, "zk_connection_revalidate_count"@),
    )
    &&& opt_i64_matches(
        resp.sessionless_connections_expired,
        kv_lookup(ps, "zk_sessionless_connections_expired"@),
    )
    &&& opt_i64_matches(
        resp.add_dead_watcher_stall_time,
        kv_lookup(ps, "zk_add_dead_watcher_stall_time"@),
    )
    &&& opt_i64_matches(resp.dead_watchers_cleared, kv_lookup(ps, "zk_dead_watchers_cleared"@))
    &&& opt_i64_matches(resp.dead_watchers_queued, kv_lookup(ps, "zk_dead_watchers_queued"@))
    &&& opt_i64_matches(resp.learners, kv_lookup2(ps, "zk_followers"@, "zk_learners"@))
    &&& opt_i64_matches(resp.synced_followers, kv_lookup(ps, "zk_synced_followers"@))
    &&& opt_i64_matches(resp.pending_syncs, kv_lookup(ps, "zk_pending_syncs"@))
    &&& opt_i64_matches(
        resp.synced_non_voting_followers,
        kv_lookup(ps, "zk_synced_non_voting_followers"@),
    )
    &&& opt_i64_matches(resp.synced_observers, kv_lookup(ps, "zk_synced_observers"@))
    &&& opt_i64_matches(resp.last_proposal_size, kv_lookup(ps, "zk_last_proposal_size"@))
    &&& opt_i64_matches(resp.max_proposal_size, kv_lookup(ps, "zk_max_proposal_size"@))
    &&& opt_i64_matches(resp.min_proposal_size, kv_lookup(ps, "zk_min_proposal_size"@))
    &&& resp.misc.deep_view() == misc_of(ps)
}

/// What decoding a monitor response body yields.
///
/// The body decodes to the key/value mapping; then: when every pair is
/// well-formed and every required key present, the result is the snapshot
/// that [`response_matches`] pins down; when every pair is well-formed but
/// required keys are absent, the result is a missing-field error naming
/// exactly those keys; otherwise the result is the parse error of the
/// first ill-formed pair.
pub open spec fn monitor_decode_spec(
    body: Seq<char>,
    r: ZK4LWResult<ZK4LWMonitorResponse>,
) -> bool {
    let ps = kv_model(body, '\t');
    match r {
        Ok(resp) => pairs_ok(ps) && required_present(ps) && response_matches(ps, resp),
        Err(e) => match e {
            ZK4LWError::MissingFieldError(names) => pairs_ok(ps) && !required_present(ps)
                && names.deep_view() == missing_required(ps),
            _ => first_bad(ps) >= 0 && pair_error(e, ps[first_bad(ps)].0, ps[first_bad(ps)].1),
        },
    }
}

/// The in-progress snapshot while pairs are folded in: every field still
/// optional, filled as its key arrives.
struct MonitorBuilder {
    version: Option<(String, String, String)>,
    avg_latency: Option<String>,
    max_latency: Option<i64>,
    min_latency: Option<i64>,
    packets_received: Option<i64>,
    packets_sent: Option<i64>,
    num_alive_connections: Option<i64>,
    outstanding_requests: Option<i64>,
    znode_count: Option<i64>,
    watch_count: Option<i64>,
    ephemerals_count: Option<i64>,
    approximate_data_size: Option<i64>,
    server_state: Option<ZK4LWServerState>,
    open_file_descriptor_count: Option<i64>,
    max_file_descriptor_count: Option<i64>,
    connection_drop_count: Option<i64>,
    connection_rejected: Option<i64>,
    connection_request_count: Option<i64>,
    connection_revalidate_count: Option<i64>,
    sessionless_connections_expired: Option<i64>,
    add_dead_watcher_stall_time: Option<i64>,
    dead_watchers_cleared: Option<i64>,
    dead_watchers_queued: Option<i64>,
    synced_followers: Option<i64>,
    pending_syncs: Option<i64>,
    synced_non_voting_followers: Option<i64>,
    synced_observers: Option<i64>,
    last_proposal_size: Option<i64>,
    max_proposal_size: Option<i64>,
    min_proposal_size: Option<i64>,
    connection_drop_probability: Option<String>,
    learners: Option<i64>,
    misc: Vec<(String, String)>,
}

/// Whether the version triple holds exactly what the mapping holds under
/// `zk_version`.
spec fn version_rel(o: Option<(String, String, String)>, l: Option<Seq<char>>) -> bool {
    match l {
        None => o is None,
        Some(v) => o matches Some(t) && version_ok(v) && t.0@ == version_field(v) && t.1@
            == revision_field(v) && t.2@ == date_field(v),
    }
}

/// Whether the state field holds exactly what the mapping holds under
/// `zk_server_state`.
spec fn state_rel(o: Option<ZK4LWServerState>, l: Option<Seq<char>>) -> bool {
    match l {
        None => o is None,
        Some(v) => state_of_token(v) is Some && o == state_of_token(v),
    }
}

/// Whether the builder holds exactly what the mapping `ps` says so far.
spec fn builder_rel(b: MonitorBuilder, ps: Seq<(Seq<char>, Seq<char>)>) -> bool {
    &&& version_rel(b.version, kv_lookup(ps, "zk_version"@))
    &&& float_text_matches(b.avg_latency, kv_lookup(ps, "zk_avg_latency"@))
    &&& state_rel(b.server_state, kv_lookup(ps, "zk_server_state"@))
    &&& float_text_matches(
        b.connection_drop_probability,
        kv_lookup(ps, "zk_connection_drop_probability"@),
    )
    &&& opt_i64_matches(b.learners, kv_lookup2(ps, "zk_followers"@, "zk_learners"@))
    &&& opt_i64_matches(b.max_latency, kv_lookup(ps, "zk_max_latency"@))
    &&& opt_i64_matches(b.min_latency, kv_lookup(ps, "zk_min_latency"@))
    &&& opt_i64_matches(b.packets_received, kv_lookup(ps, "zk_packets_received"@))
    &&& opt_i64_matches(b.packets_sent, kv_lookup(ps, "zk_packets_sent"@))
    &&& opt_i64_matches(b.num_alive_connections, kv_lookup(ps, "zk_num_alive_connections"@))
    &&& opt_i64_matches(b.outstanding_requests, kv_lookup(ps, "zk_outstanding_requests"@))
    &&& opt_i64_matches(b.znode_count, kv_lookup(ps, "zk_znode_count"@))
    &&& opt_i64_matches(b.watch_count, kv_lookup(ps, "zk_watch_count"@))
    &&& opt_i64_matches(b.ephemerals_count, kv_lookup(ps, "zk_ephemerals_count"@))
    &&& opt_i64_matches(b.approximate_data_size, kv_lookup(ps, "zk_approximate_data_size"@))
    &&& opt_i64_matches(b.open_file_descriptor_count, kv_lookup(ps, "zk_open_file_descriptor_count"@))
    &&& opt_i64_matches(b.max_file_descriptor_count, kv_lookup(ps, "zk_max_file_descriptor_count"@))
    &&& opt_i64_matches(b.connection_drop_count, kv_lookup(ps, "zk_connection_drop_count"@))
    &&& opt_i64_matches(b.connection_rejected, kv_lookup(ps, "zk_connection_rejected"@))
    &&& opt_i64_matches(b.connection_request_count, kv_lookup(ps, "zk_connection_request_count"@))
    &&& opt_i64_matches(b.connection_revalidate_count, kv_lookup(ps, "zk_connection_revalidate_count"@))
    &&& opt_i64_matches(b.sessionless_connections_expired, kv_lookup(ps, "zk_sessionless_connections_expired"@))
    &&& opt_i64_matches(b.add_dead_watcher_stall_time, kv_lookup(ps, "zk_add_dead_watcher_stall_time"@))
    &&& opt_i64_matches(b.dead_watchers_cleared, kv_lookup(ps, "zk_dead_watchers_cleared"@))
    &&& opt_i64_matches(b.dead_watchers_queued, kv_lookup(ps, "zk_dead_watchers_queued"@))
    &&& opt_i64_matches(b.synced_followers, kv_lookup(ps, "zk_synced_followers"@))
    &&& opt_i64_matches(b.pending_syncs, kv_lookup(ps, "zk_pending_syncs"@))
    &&& opt_i64_matches(b.synced_non_voting_followers, kv_lookup(ps, "zk_synced_non_voting_followers"@))
    &&& opt_i64_matches(b.synced_observers, kv_lookup(ps, "zk_synced_observers"@))
    &&& opt_i64_matches(b.last_proposal_size, kv_lookup(ps, "zk_last_proposal_size"@))
    &&& opt_i64_matches(b.max_proposal_size, kv_lookup(ps, "zk_max_proposal_size"@))
    &&& opt_i64_matches(b.min_proposal_size, kv_lookup(ps, "zk_min_proposal_size"@))
    &&& b.misc.deep_view() == misc_of(ps)
}

impl MonitorBuilder {
    /// The builder before any pair has been folded in.
    fn empty() -> (r: MonitorBuilder)
        ensures
            builder_rel(r, Seq::empty()),
    {
        let b = MonitorBuilder {
            version: None,
            avg_latency: None,
            max_latency: None,
            min_latency: None,
            packets_received: None,
            packets_sent: None,
            num_alive_connections: None,
            outstanding_requests: None,
            znode_count: None,
            watch_count: None,
            ephemerals_count: None,
            approximate_data_size: None,
            server_state: None,
            open_file_descriptor_count: None,
            max_file_descriptor_count: None,
            connection_drop_count: None,
            connection_rejected: None,
            connection_request_count: None,
            connection_revalidate_count: None,
            sessionless_connections_expired: None,
            add_dead_watcher_stall_time: None,
            dead_watchers_cleared: None,
            dead_watchers_queued: None,
            synced_followers: None,
            pending_syncs: None,
            synced_non_voting_followers: None,
            synced_observers: None,
            last_proposal_size: None,
            max_proposal_size: None,
            min_proposal_size: None,
            connection_drop_probability: None,
            learners: None,
            misc: Vec::new(),
        };
        proof {
            assert(b.misc.deep_view() =~= misc_of(Seq::empty()));
        }
        b
    }
}

/// Splits a raw `zk_version` value into version number, build revision,
/// and build date; any deviation from the expected shape is an error
/// carrying the raw value.
fn parse_version(val: &String) -> (r: ZK4LWResult<(String, String, String)>)
    ensures
        r matches Ok(t) ==> version_ok(val@) && t.0@ == version_field(val@) && t.1@
            == revision_field(val@) && t.2@ == date_field(val@),
        r matches Err(e) ==> !version_ok(val@) && (e matches ZK4LWError::ParseStringError(t) && t@
            == val@),
{
    let parts = split_string(val.as_str(), '-');
    let segs = non_empty_parts(&parts);
    if segs.len() != 2 {
        return Err(ZK4LWError::ParseStringError(val.clone()));
    }
    proof {
        assert(segs.deep_view()[1] == segs@[1]@);
    }
    let build = split_string(segs[1].as_str(), ',');
    if build.len() != 2 {
        return Err(ZK4LWError::ParseStringError(val.clone()));
    }
    proof {
        assert(segs.deep_view()[0] == segs@[0]@);
        assert(build.deep_view()[0] == build@[0]@);
        assert(build.deep_view()[1] == build@[1]@);
    }
    let ver = trim_str(segs[0].as_str());
    let rev = trim_str(build[0].as_str());
    let date = trim_str(build[1].as_str());
    Ok((ver, rev, date))
}

/// Folds one key/value pair into the builder: the mapped field takes the
/// parsed value, an unknown key lands in the catch-all, an ill-formed
/// value is the pair's error.
#[verifier::rlimit(100)]
fn apply_pair(
    b: &mut MonitorBuilder,
    key: &String,
    val: &String,
    Ghost(ps): Ghost<Seq<(Seq<char>, Seq<char>)>>,
) -> (r: ZK4LWResult<()>)
    requires
        builder_rel(*old(b), ps),
    ensures
        r matches Ok(u) ==> pair_ok(key@, val@) && builder_rel(*final(b), ps.push((key@, val@))),
        r matches Err(e) ==> !pair_ok(key@, val@) && pair_error(e, key@, val@),
{
    let k = key.as_str();
    let is_version = str_eq(k, "zk_version");
    let is_server_state = str_eq(k, "zk_server_state");
    let is_avg_latency = str_eq(k, "zk_avg_latency");
    let is_connection_drop_probability = str_eq(k, "zk_connection_drop_probability");
    let is_followers = str_eq(k, "zk_followers");
    let is_learners = str_eq(k, "zk_learners");
    let is_max_latency = str_eq(k, "zk_max_latency");
    let is_min_latency = str_eq(k, "zk_min_latency");
    let is_packets_received = str_eq(k, "zk_packets_received");
    let is_packets_sent = str_eq(k, "zk_packets_sent");
    let is_num_alive_connections = str_eq(k, "zk_num_alive_connections");
    let is_outstanding_requests = str_eq(k, "zk_outstanding_requests");
    let is_znode_count = str_eq(k, "zk_znode_count");
    let is_watch_count = str_eq(k, "zk_watch_count");
    let is_ephemerals_count = str_eq(k, "zk_ephemerals_count");
    let is_approximate_data_size = str_eq(k, "zk_approximate_data_size");
    let is_open_file_descriptor_count = str_eq(k, "zk_open_file_descriptor_count");
    let is_max_file_descriptor_count = str_eq(k, "zk_max_file_descriptor_count");
    let is_connection_drop_count = str_eq(k, "zk_connection_drop_count");
    let is_connection_rejected = str_eq(k, "zk_connection_rejected");
    let is_connection_request_count = str_eq(k, "zk_connection_request_count");
    let is_connection_revalidate_count = str_eq(k, "zk_connection_revalidate_count");
    let is_sessionless_connections_expired = str_eq(k, "zk_sessionless_connections_expired");
    let is_add_dead_watcher_stall_time = str_eq(k, "zk_add_dead_watcher_stall_time");
    let is_dead_watchers_cleared = str_eq(k, "zk_dead_watchers_cleared");
    let is_dead_watchers_queued = str_eq(k, "zk_dead_watchers_queued");
    let is_synced_followers = str_eq(k, "zk_synced_followers");
    let is_pending_syncs = str_eq(k, "zk_pending_syncs");
    let is_synced_non_voting_followers = str_eq(k, "zk_synced_non_voting_followers");
    let is_synced_observers = str_eq(k, "zk_synced_observers");
    let is_last_proposal_size = str_eq(k, "zk_last_proposal_size");
    let is_max_proposal_size = str_eq(k, "zk_max_proposal_size");
    let is_min_proposal_size = str_eq(k, "zk_min_proposal_size");
    proof {
        // Pin the key literals down so that no two of them can be read as
        // one key.
        reveal_strlit("zk_version");
        reveal_strlit("zk_server_state");
        reveal_strlit("zk_avg_latency");
        reveal_strlit("zk_connection_drop_probability");
        reveal_strlit("zk_followers");
        reveal_strlit("zk_learners");
        reveal_strlit("zk_max_latency");
        reveal_strlit("zk_min_latency");
        reveal_strlit("zk_packets_received");
        reveal_strlit("zk_packets_sent");
        reveal_strlit("zk_num_alive_connections");
        reveal_strlit("zk_outstanding_requests");
        reveal_strlit("zk_znode_count");
        reveal_strlit("zk_watch_count");
        reveal_strlit("zk_ephemerals_count");
        reveal_strlit("zk_approximate_data_size");
        reveal_strlit("zk_open_file_descriptor_count");
        reveal_strlit("zk_max_file_descriptor_count");
        reveal_strlit("zk_connection_drop_count");
        reveal_strlit("zk_connection_rejected");
        reveal_strlit("zk_connection_request_count");
        reveal_strlit("zk_connection_revalidate_count");
        reveal_strlit("zk_sessionless_connections_expired");
        reveal_strlit("zk_add_dead_watcher_stall_time");
        reveal_strlit("zk_dead_watchers_cleared");
        reveal_strlit("zk_dead_watchers_queued");
        reveal_strlit("zk_synced_followers");
        reveal_strlit("zk_pending_syncs");
        reveal_strlit("zk_synced_non_voting_followers");
        reveal_strlit("zk_synced_observers");
        reveal_strlit("zk_last_proposal_size");
        reveal_strlit("zk_max_proposal_size");
        reveal_strlit("zk_min_proposal_size");
        assert("zk_version"@.len() == 10);
        assert("zk_server_state"@.len() == 15);
        assert("zk_avg_latency"@.len() == 14);
        assert("zk_connection_drop_probability"@.len() == 30);
        assert("zk_followers"@.len() == 12);
        assert("zk_learners"@.len() == 11);
        assert("zk_max_latency"@.len() == 14);
        assert("zk_min_latency"@.len() == 14);
        assert("zk_packets_received"@.len() == 19);
        assert("zk_packets_sent"@.len() == 15);
        assert("zk_num_alive_connections"@.len() == 24);
        assert("zk_outstanding_requests"@.len() == 23);
        assert("zk_znode_count"@.len() == 14);
        assert("zk_watch_count"@.len() == 14);
        assert("zk_ephemerals_count"@.len() == 19);
        assert("zk_approximate_data_size"@.len() == 24);
        assert("zk_open_file_descriptor_count"@.len() == 29);
        assert("zk_max_file_descriptor_count"@.len() == 28);
        assert("zk_connection_drop_count"@.len() == 24);
        assert("zk_connection_rejected"@.len() == 22);
        assert("zk_connection_request_count"@.len() == 27);
        assert("zk_connection_revalidate_count"@.len() == 30);
        assert("zk_sessionless_connections_expired"@.len() == 34);
        assert("zk_add_dead_watcher_stall_time"@.len() == 30);
        assert("zk_dead_watchers_cleared"@.len() == 24);
        assert("zk_dead_watchers_queued"@.len() == 23);
        assert("zk_synced_followers"@.len() == 19);
        assert("zk_pending_syncs"@.len() == 16);
        assert("zk_synced_non_voting_followers"@.len() == 30);
        assert("zk_synced_observers"@.len() == 19);
        assert("zk_last_proposal_size"@.len() == 21);
        assert("zk_max_proposal_size"@.len() == 20);
        assert("zk_min_proposal_size"@.len() == 20);
        assert("zk_avg_latency"@[5] == 'g');
        assert("zk_max_latency"@[5] == 'x');
        assert("zk_min_latency"@[5] == 'n');
        assert("zk_znode_count"@[5] == 'o');
        assert("zk_watch_count"@[5] == 't');
        assert("zk_server_state"@[3] == 's');
        assert("zk_packets_sent"@[3] == 'p');
        assert("zk_packets_received"@[10] == '_');
        assert("zk_ephemerals_count"@[10] == 'a');
        assert("zk_synced_followers"@[10] == 'f');
        assert("zk_synced_observers"@[10] == 'o');
        assert("zk_max_proposal_size"@[4] == 'a');
        assert("zk_min_proposal_size"@[4] == 'i');
        assert("zk_outstanding_requests"@[3] == 'o');
        assert("zk_dead_watchers_queued"@[3] == 'd');
        assert("zk_num_alive_connections"@[3] == 'n');
        assert("zk_approximate_data_size"@[3] == 'a');
        assert("zk_connection_drop_count"@[3] == 'c');
        assert("zk_dead_watchers_cleared"@[3] == 'd');
        assert("zk_connection_drop_probability"@[14] == 'd');
        assert("zk_connection_revalidate_count"@[14] == 'r');
        assert("zk_add_dead_watcher_stall_time"@[14] == 't');
        assert("zk_synced_non_voting_followers"@[14] == 'v');
        assert(ps.push((key@, val@)).drop_last() =~= ps);
        assert(ps.push((key@, val@)).last() == (key@, val@));
    }
    if is_version {
        match parse_version(val) {
            Ok(t) => b.version = Some(t),
            Err(e) => {
                return Err(e);
            },
        }
    } else if is_server_state {
        match ZK4LWServerState::from_token(val.as_str()) {
            Ok(st) => b.server_state = Some(st),
            Err(e) => {
                return Err(e);
            },
        }
    } else if is_avg_latency {
        if is_float_str(val.as_str()) {
            b.avg_latency = Some(val.clone());
        } else {
            return Err(ZK4LWError::ParseFloatError(key.clone(), val.clone()));
        }
    } else if is_connection_drop_probability {
        if is_float_str(val.as_str()) {
            b.connection_drop_probability = Some(val.clone());
        } else {
            return Err(ZK4LWError::ParseFloatError(key.clone(), val.clone()));
        }
    } else if is_followers || is_learners {
        match parse_i64(val.as_str()) {
            Some(x) => b.learners = Some(x),
            None => {
                return Err(ZK4LWError::ParseIntError(key.clone(), val.clone()));
            },
        }
    } else if is_max_latency {
        match parse_i64(val.as_str()) {
            Some(x) => b.max_latency = Some(x),
            None => {
                return Err(ZK4LWError::ParseIntError(key.clone(), val.clone()));
            },
        }
    } else if is_min_latency {
        match parse_i64(val.as_str()) {
            Some(x) => b.min_latency = Some(x),
            None => {
                return Err(ZK4LWError::ParseIntError(key.clone(), val.clone()));
            },
        }
    } else if is_packets_received {
        match parse_i64(val.as_str()) {
            Some(x) => b.packets_received = Some(x),
            None => {
                return Err(ZK4LWError::ParseIntError(key.clone(), val.clone()));
            },
        }
    } else if is_packets_sent {
        match parse_i64(val.as_str()) {
            Some(x) => b.packets_sent = Some(x),
            None => {
                return Err(ZK4LWError::ParseIntError(key.clone(), val.clone()));
            },
        }
    } else if is_num_alive_connections {
        match parse_i64(val.as_str()) {
            Some(x) => b.num_alive_connections = Some(x),
            None => {
                return Err(ZK4LWError::ParseIntError(key.clone(), val.clone()));
            },
        }
    } else if is_outstanding_requests {
        match parse_i64(val.as_str()) {
            Some(x) => b.outstanding_requests = Some(x),
            None => {
                return Err(ZK4LWError::ParseIntError(key.clone(), val.clone()));
            },
        }
    } else if is_znode_count {
        match parse_i64(val.as_str()) {
            Some(x) => b.znode_count = Some(x),
            None => {
                return Err(ZK4LWError::ParseIntError(key.clone(), val.clone()));
            },
        }
    } else if is_watch_count {
        match parse_i64(val.as_str()) {
            Some(x) => b.watch_count = Some(x),
            None => {
                return Err(ZK4LWError::ParseIntError(key.clone(), val.clone()));
            },
        }
    } else if is_ephemerals_count {
        match parse_i64(val.as_str()) {
            Some(x) => b.ephemerals_count = Some(x),
            None => {
                return Err(ZK4LWError::ParseIntError(key.clone(), val.clone()));
            },
        }
    } else if is_approximate_data_size {
        match parse_i64(val.as_str()) {
            Some(x) => b.approximate_data_size = Some(x),
            None => {
                return Err(ZK4LWError::ParseIntError(key.clone(), val.clone()));
            },
        }
    } else if is_open_file_descriptor_count {
        match parse_i64(val.as_str()) {
            Some(x) => b.open_file_descriptor_count = Some(x),
            None => {
                return Err(ZK4LWError::ParseIntError(key.clone(), val.clone()));
            },
        }
    } else if is_max_file_descriptor_count {
        match parse_i64(val.as_str()) {
            Some(x) => b.max_file_descriptor_count = Some(x),
            None => {
                return Err(ZK4LWError::ParseIntError(key.clone(), val.clone()));
            },
        }
    } else if is_connection_drop_count {
        match parse_i64(val.as_str()) {
            Some(x) => b.connection_drop_count = Some(x),
            None => {
                return Err(ZK4LWError::ParseIntError(key.clone(), val.clone()));
            },
        }
    } else if is_connection_rejected {
        match parse_i64(val.as_str()) {
            Some(x) => b.connection_rejected = Some(x),
            None => {
                return Err(ZK4LWError::ParseIntError(key.clone(), val.clone()));
            },
        }
    } else if is_connection_request_count {
        match parse_i64(val.as_str()) {
            Some(x) => b.connection_request_count = Some(x),
            None => {
                return Err(ZK4LWError::ParseIntError(key.clone(), val.clone()));
            },
        }
    } else if is_connection_revalidate_count {
        match parse_i64(val.as_str()) {
            Some(x) => b.connection_revalidate_count = Some(x),
            None => {
                return Err(ZK4LWError::ParseIntError(key.clone(), val.clone()));
            },
        }
    } else if is_sessionless_connections_expired {
        match parse_i64(val.as_str()) {
            Some(x) => b.sessionless_connections_expired = Some(x),
            None => {
                return Err(ZK4LWError::ParseIntError(key.clone(), val.clone()));
            },
        }
    } else if is_add_dead_watcher_stall_time {
        match parse_i64(val.as_str()) {
            Some(x) => b.add_dead_watcher_stall_time = Some(x),
            None => {
                return Err(ZK4LWError::ParseIntError(key.clone(), val.clone()));
            },
        }
    } else if is_dead_watchers_cleared {
        match parse_i64(val.as_str()) {
            Some(x) => b.dead_watchers_cleared = Some(x),
            None => {
                return Err(ZK4LWError::ParseIntError(key.clone(), val.clone()));
            },
        }
    } else if is_dead_watchers_queued {
        match parse_i64(val.as_str()) {
            Some(x) => b.dead_watchers_queued = Some(x),
            None => {
                return Err(ZK4LWError::ParseIntError(key.clone(), val.clone()));
            },
        }
    } else if is_synced_followers {
        match parse_i64(val.as_str()) {
            Some(x) => b.synced_followers = Some(x),
            None => {
                return Err(ZK4LWError::ParseIntError(key.clone(), val.clone()));
            },
        }
    } else if is_pending_syncs {
        match parse_i64(val.as_str()) {
            Some(x) => b.pending_syncs = Some(x),
            None => {
                return Err(ZK4LWError::ParseIntError(key.clone(), val.clone()));
            },
        }
    } else if is_synced_non_voting_followers {
        match parse_i64(val.as_str()) {
            Some(x) => b.synced_non_voting_followers = Some(x),
            None => {
                return Err(ZK4LWError::ParseIntError(key.clone(), val.clone()));
            },
        }
    } else if is_synced_observers {
        match parse_i64(val.as_str()) {
            Some(x) => b.synced_observers = Some(x),
            None => {
                return Err(ZK4LWError::ParseIntError(key.clone(), val.clone()));
            },
        }
    } else if is_last_proposal_size {
        match parse_i64(val.as_str()) {
            Some(x) => b.last_proposal_size = Some(x),
            None => {
                return Err(ZK4LWError::ParseIntError(key.clone(), val.clone()));
            },
        }
    } else if is_max_proposal_size {
        match parse_i64(val.as_str()) {
            Some(x) => b.max_proposal_size = Some(x),
            None => {
                return Err(ZK4LWError::ParseIntError(key.clone(), val.clone()));
            },
        }
    } else if is_min_proposal_size {
        match parse_i64(val.as_str()) {
            Some(x) => b.min_proposal_size = Some(x),
            None => {
                return Err(ZK4LWError::ParseIntError(key.clone(), val.clone()));
            },
        }
    } else {
        b.misc.push((key.clone(), val.clone()));
        proof {
            assert(b.misc.deep_view() =~= old(b).misc.deep_view().push((key@, val@)));
        }
    }
    proof {
        assert(builder_rel(*b, ps.push((key@, val@))));
    }
    Ok(())
}

/// Whether each required builder field is filled exactly when its key is
/// present in the mapping.
spec fn presence_match(b: MonitorBuilder, ps: Seq<(Seq<char>, Seq<char>)>) -> bool {
    &&& (b.version is Some <==> kv_lookup(ps, "zk_version"@) is Some)
    &&& (b.avg_latency is Some <==> kv_lookup(ps, "zk_avg_latency"@) is Some)
    &&& (b.max_latency is Some <==> kv_lookup(ps, "zk_max_latency"@) is Some)
    &&& (b.min_latency is Some <==> kv_lookup(ps, "zk_min_latency"@) is Some)
    &&& (b.packets_received is Some <==> kv_lookup(ps, "zk_packets_received"@) is Some)
    &&& (b.packets_sent is Some <==> kv_lookup(ps, "zk_packets_sent"@) is Some)
    &&& (b.num_alive_connections is Some <==> kv_lookup(ps, "zk_num_alive_connections"@) is Some)
    &&& (b.outstanding_requests is Some <==> kv_lookup(ps, "zk_outstanding_requests"@) is Some)
    &&& (b.server_state is Some <==> kv_lookup(ps, "zk_server_state"@) is Some)
    &&& (b.znode_count is Some <==> kv_lookup(ps, "zk_znode_count"@) is Some)
    &&& (b.watch_count is Some <==> kv_lookup(ps, "zk_watch_count"@) is Some)
    &&& (b.ephemerals_count is Some <==> kv_lookup(ps, "zk_ephemerals_count"@) is Some)
    &&& (b.approximate_data_size is Some <==> kv_lookup(ps, "zk_approximate_data_size"@) is Some)
}

/// A builder that matches the mapping fills required fields exactly for
/// the present keys.
proof fn lemma_builder_presence(b: MonitorBuilder, ps: Seq<(Seq<char>, Seq<char>)>)
    requires
        builder_rel(b, ps),
    ensures
        presence_match(b, ps),
{
}

/// Appends `name` to the list when the field it names is absent.
fn missing_step(missing: &mut Vec<String>, absent: bool, name: &'static str)
    ensures
        final (missing).deep_view() == if absent {
            old(missing).deep_view().push(name@)
        } else {
            old(missing).deep_view()
        },
        final (missing).len() == old(missing).len() + if absent {
            1int
        } else {
            0int
        },
{
    if absent {
        missing.push(name.to_owned());
        proof {
            assert(missing.deep_view() =~= old(missing).deep_view().push(name@));
        }
    }
}

/// The names of the required fields the builder still lacks, in the fixed
/// order of [`missing_required`].
#[verifier::rlimit(100)]
fn missing_fields(b: &MonitorBuilder, Ghost(ps): Ghost<Seq<(Seq<char>, Seq<char>)>>) -> (r: Vec<
    String,
>)
    requires
        presence_match(*b, ps),
    ensures
        r.deep_view() == missing_required(ps),
        r.len() == 0 <==> required_present(ps),
{
    let mut missing: Vec<String> = Vec::new();
    proof {
        assert(missing.deep_view() =~= Seq::<Seq<char>>::empty());
    }
    missing_step(&mut missing, b.version.is_none(), "zk_version");
    missing_step(&mut missing, b.avg_latency.is_none(), "zk_avg_latency");
    missing_step(&mut missing, b.max_latency.is_none(), "zk_max_latency");
    missing_step(&mut missing, b.min_latency.is_none(), "zk_min_latency");
    missing_step(&mut missing, b.packets_received.is_none(), "zk_packets_received");
    missing_step(&mut missing, b.packets_sent.is_none(), "zk_packets_sent");
    missing_step(&mut missing, b.num_alive_connections.is_none(), "zk_num_alive_connections");
    missing_step(&mut missing, b.outstanding_requests.is_none(), "zk_outstanding_requests");
    missing_step(&mut missing, b.server_state.is_none(), "zk_server_state");
    missing_step(&mut missing, b.znode_count.is_none(), "zk_znode_count");
    missing_step(&mut missing, b.watch_count.is_none(), "zk_watch_count");
    missing_step(&mut missing, b.ephemerals_count.is_none(), "zk_ephemerals_count");
    missing_step(&mut missing, b.approximate_data_size.is_none(), "zk_approximate_data_size");
    proof {
        assert(missing.deep_view() == missing_required(ps));
        assert(missing.len() == 0 <==> required_present(ps)) by {
            if missing.len() == 0 {
                assert(required_present(ps));
            }
            if required_present(ps) {
                assert(missing.len() == 0);
            }
        }
    }
    missing
}

/// Turns the finished builder into the snapshot, or into the aggregate
/// missing-field error naming every required field still absent.
#[verifier::rlimit(100)]
fn finish(b: MonitorBuilder, Ghost(ps): Ghost<Seq<(Seq<char>, Seq<char>)>>) -> (r: ZK4LWResult<
    ZK4LWMonitorResponse,
>)
    requires
        builder_rel(b, ps),
    ensures
        r matches Ok(resp) ==> required_present(ps) && response_matches(ps, resp),
        r matches Err(e) ==> !required_present(ps) && (e matches ZK4LWError::MissingFieldError(
            names,
        ) && names.deep_view() == missing_required(ps)),
{
    proof {
        lemma_builder_presence(b, ps);
    }
    let missing = missing_fields(&b, Ghost(ps));
    if missing.len() > 0 {
        return Err(ZK4LWError::MissingFieldError(missing));
    }

    let vt = b.version.unwrap();
    let resp = ZK4LWMonitorResponse {
        version: vt.0,
        build_revision: vt.1,
        build_date: vt.2,
        latency: ZK4LWMetricSample {
            avg: b.avg_latency.unwrap(),
            max: b.max_latency.unwrap(),
            min: b.min_latency.unwrap(),
            count: None,
            sum: None,
            p50: None,
            p95: None,
            p99: None,
            p999: None,
        },
        packets_received: b.packets_received.unwrap(),
        packets_sent: b.packets_sent.unwrap(),
        num_alive_connections: b.num_alive_connections.unwrap(),
        connection_drop_count: b.connection_drop_count,
        connection_drop_probability: b.connection_drop_probability,
        connection_rejected: b.connection_rejected,
        connection_request_count: b.connection_request_count,
        connection_revalidate_count: b.connection_revalidate_count,
        sessionless_connections_expired: b.sessionless_connections_expired,
        add_dead_watcher_stall_time: b.add_dead_watcher_stall_time,
        dead_watchers_cleared: b.dead_watchers_cleared,
        dead_watchers_queued: b.dead_watchers_queued,
        outstanding_requests: b.outstanding_requests.unwrap(),
        server_state: b.server_state.unwrap(),
        znode_count: b.znode_count.unwrap(),
        watch_count: b.watch_count.unwrap(),
        ephemerals_count: b.ephemerals_count.unwrap(),
        approximate_data_size: b.approximate_data_size.unwrap(),
        open_file_descriptor_count: b.open_file_descriptor_count,
        max_file_descriptor_count: b.max_file_descriptor_count,
        learners: b.learners,
        synced_followers: b.synced_followers,
        pending_syncs: b.pending_syncs,
        synced_non_voting_followers: b.synced_non_voting_followers,
        synced_observers: b.synced_observers,
        last_proposal_size: b.last_proposal_size,
        max_proposal_size: b.max_proposal_size,
        min_proposal_size: b.min_proposal_size,
        misc: b.misc,
    };
    Ok(resp)
}

impl ZK4LWCommand for ZK4LWMonitor {
    type Response = ZK4LWMonitorResponse;

    open spec fn request_spec() -> Seq<char> {
        "mntr"@
    }

    open spec fn response_spec(body: Seq<char>, r: ZK4LWResult<ZK4LWMonitorResponse>) -> bool {
        monitor_decode_spec(body, r)
    }

    fn request_body() -> (s: &'static str) {
        "mntr"
    }

    fn build_response(response_body: &str) -> (r: ZK4LWResult<ZK4LWMonitorResponse>) {
        let pairs = match tab_separated_bytes_to_key_value(response_body) {
            Ok(m) => m,
            Err(e) => {
                proof {
                    assert(false);
                }
                return Err(e);
            },
        };
        let ghost full = pairs.deep_view();
        proof {
            assert(full.take(0) =~= Seq::<(Seq<char>, Seq<char>)>::empty());
        }
        let mut b = MonitorBuilder::empty();
        let n = pairs.len();
        let mut i: usize = 0;
        while i < n
            invariant
                0 <= i <= n,
                n == pairs.len(),
                full == pairs.deep_view(),
                full == kv_model(response_body@, '\t'),
                builder_rel(b, full.take(i as int)),
                forall|j: int| 0 <= j < i ==> pair_ok(#[trigger] full[j].0, full[j].1),
            decreases n - i,
        {
            let pr = &pairs[i];
            proof {
                assert(full[i as int] == (pr.0@, pr.1@));
            }
            match apply_pair(&mut b, &pr.0, &pr.1, Ghost(full.take(i as int))) {
                Ok(u) => {
                    proof {
                        assert(full.take(i + 1) =~= full.take(i as int).push(full[i as int]));
                    }
                },
                Err(e) => {
                    proof {
                        lemma_first_bad_at(full, i as int);
                    }
                    return Err(e);
                },
            }
            i = i + 1;
        }
        proof {
            assert(full.take(n as int) =~= full);
        }
        finish(b, Ghost(full))
    }
}

/// When either synonym key is present, the synonym lookup finds a value,
/// and that value is the later-appearing synonym pair's: last write wins
/// across `zk_followers` and `zk_learners`.
pub proof fn lemma_synonym_last_wins(ps: Seq<(Seq<char>, Seq<char>)>)
    ensures
        kv_lookup2(ps, "zk_followers"@, "zk_learners"@) is Some <==> (kv_lookup(
            ps,
            "zk_followers"@,
        ) is Some || kv_lookup(ps, "zk_learners"@) is Some),
        kv_lookup2(ps, "zk_followers"@, "zk_learners"@) matches Some(v) ==> (kv_lookup(
            ps,
            "zk_followers"@,
        ) == Some(v) || kv_lookup(ps, "zk_learners"@) == Some(v)),
    decreases ps.len(),
{
    if ps.len() > 0 {
        lemma_synonym_last_wins(ps.drop_last());
    }
}

/// Success is owed exactly when every pair of the decoded mapping is
/// well-formed and every required key is present.
pub proof fn lemma_monitor_ok_iff(body: Seq<char>, r: ZK4LWResult<ZK4LWMonitorResponse>)
    requires
        monitor_decode_spec(body, r),
    ensures
        r is Ok <==> (pairs_ok(kv_model(body, '\t')) && required_present(kv_model(body, '\t'))),
{
    let ps = kv_model(body, '\t');
    match r {
        Ok(resp) => {},
        Err(e) => match e {
            ZK4LWError::MissingFieldError(names) => {},
            _ => {
                lemma_first_bad_found(ps);
                assert(!pair_ok(ps[first_bad(ps)].0, ps[first_bad(ps)].1));
            },
        },
    }
}

/// Whether two optional text fields hold the same characters.
pub open spec fn opt_text_agree(x: Option<String>, y: Option<String>) -> bool {
    match (x, y) {
        (Option::None, Option::None) => true,
        (Option::Some(s1), Option::Some(s2)) => s1@ == s2@,
        _ => false,
    }
}

/// Whether two decoded snapshots are observably equal: every plain field
/// equal, every text field holding the same characters.
pub open spec fn responses_agree(a: ZK4LWMonitorResponse, b: ZK4LWMonitorResponse) -> bool {
    &&& a.version@ == b.version@
    &&& a.build_revision@ == b.build_revision@
    &&& a.build_date@ == b.build_date@
    &&& a.latency.avg@ == b.latency.avg@
    &&& a.latency.max == b.latency.max
    &&& a.latency.min == b.latency.min
    &&& a.latency.count == b.latency.count
    &&& a.latency.sum == b.latency.sum
    &&& a.latency.p50 == b.latency.p50
    &&& a.latency.p95 == b.latency.p95
    &&& a.latency.p99 == b.latency.p99
    &&& a.latency.p999 == b.latency.p999
    &&& a.packets_received == b.packets_received
    &&& a.packets_sent == b.packets_sent
    &&& a.num_alive_connections == b.num_alive_connections
    &&& a.connection_drop_count == b.connection_drop_count
    &&& opt_text_agree(a.connection_drop_probability, b.connection_drop_probability)
    &&& a.connection_rejected == b.connection_rejected
    &&& a.connection_request_count == b.connection_request_count
    &&& a.connection_revalidate_count == b.connection_revalidate_count
    &&& a.sessionless_connections_expired == b.sessionless_connections_expired
    &&& a.add_dead_watcher_stall_time == b.add_dead_watcher_stall_time
    &&& a.dead_watchers_cleared == b.dead_watchers_cleared
    &&& a.dead_watchers_queued == b.dead_watchers_queued
    &&& a.outstanding_requests == b.outstanding_requests
    &&& a.server_state == b.server_state
    &&& a.znode_count == b.znode_count
    &&& a.watch_count == b.watch_count
    &&& a.ephemerals_count == b.ephemerals_count
    &&& a.approximate_data_size == b.approximate_data_size
    &&& a.open_file_descriptor_count == b.open_file_descriptor_count
    &&& a.max_file_descriptor_count == b.max_file_descriptor_count
    &&& a.learners == b.learners
    &&& a.synced_followers == b.synced_followers
    &&& a.pending_syncs == b.pending_syncs
    &&& a.synced_non_voting_followers == b.synced_non_voting_followers
    &&& a.synced_observers == b.synced_observers
    &&& a.last_proposal_size == b.last_proposal_size
    &&& a.max_proposal_size == b.max_proposal_size
    &&& a.min_proposal_size == b.min_proposal_size
    &&& a.misc.deep_view() == b.misc.deep_view()
}

/// Whether two error values are observably equal.
pub open spec fn errors_agree(e1: ZK4LWError, e2: ZK4LWError) -> bool {
    match (e1, e2) {
        (ZK4LWError::ParseIntError(a, b), ZK4LWError::ParseIntError(c, d)) => a@ == c@ && b@ == d@,
        (ZK4LWError::ParseFloatError(a, b), ZK4LWError::ParseFloatError(c, d)) => a@ == c@ && b@
            == d@,
        (ZK4LWError::ParseStringError(a), ZK4LWError::ParseStringError(c)) => a@ == c@,
        (ZK4LWError::MissingFieldError(a), ZK4LWError::MissingFieldError(c)) => a.deep_view()
            == c.deep_view(),
        (ZK4LWError::IoError(a), ZK4LWError::IoError(c)) => a@ == c@,
        (ZK4LWError::Utf8Error(a), ZK4LWError::Utf8Error(c)) => a@ == c@,
        _ => false,
    }
}

/// Decoding is idempotent and pure: any two decode outcomes of one
/// response body are observably equal, successes field for field, errors
/// kind for kind.
pub proof fn lemma_monitor_decode_pure(
    body: Seq<char>,
    r1: ZK4LWResult<ZK4LWMonitorResponse>,
    r2: ZK4LWResult<ZK4LWMonitorResponse>,
)
    requires
        monitor_decode_spec(body, r1),
        monitor_decode_spec(body, r2),
    ensures
        match (r1, r2) {
            (Result::Ok(a), Result::Ok(b)) => responses_agree(a, b),
            (Result::Err(e1), Result::Err(e2)) => errors_agree(e1, e2),
            _ => false,
        },
{
    let ps = kv_model(body, '\t');
    lemma_monitor_ok_iff(body, r1);
    lemma_monitor_ok_iff(body, r2);
    match (r1, r2) {
        (Result::Ok(a), Result::Ok(b)) => {},
        (Result::Err(e1), Result::Err(e2)) => {
            if first_bad(ps) >= 0 {
                lemma_first_bad_found(ps);
                assert(!pair_ok(ps[first_bad(ps)].0, ps[first_bad(ps)].1));
                assert(!pairs_ok(ps));
            }
        },
        _ => {},
    }
}

} // verus!
