use zk4lw::client::ZK4LWCommand;
use zk4lw::commands::mntr::ZK4LWMonitor;
use zk4lw::errors::ZK4LWError;
use zk4lw::state::ZK4LWServerState::LEADER;

fn misc_value<'a>(misc: &'a [(String, String)], key: &str) -> Option<&'a str> {
    misc.iter().find(|p| p.0 == key).map(|p| p.1.as_str())
}

fn zk34_body() -> String {
    "zk_version\t3.4.14-4c25d480e66aadd371de8bd2fd8da255ac140bcf, built on 03/06/2019 16:18 GMT\n\
     zk_avg_latency\t0\n\
     zk_max_latency\t0\n\
     zk_min_latency\t0\n\
     zk_packets_received\t5\n\
     zk_packets_sent\t4\n\
     zk_num_alive_connections\t1\n\
     zk_outstanding_requests\t0\n\
     zk_server_state\tleader\n\
     zk_znode_count\t4\n\
     zk_watch_count\t0\n\
     zk_ephemerals_count\t0\n\
     zk_approximate_data_size\t27\n\
     zk_open_file_descriptor_count\t36\n\
     zk_max_file_descriptor_count\t1048576\n\
     zk_followers\t4\n\
     zk_synced_followers\t2\n\
     zk_pending_syncs\t0\n\
     zk_last_proposal_size\t-1\n\
     zk_min_proposal_size\t-1\n\
     zk_max_proposal_size\t-1\n\
     zk_fsync_threshold_exceed_count\t0\n"
        .to_string()
}

#[test]
fn should_build_response_from_zk34_monitor_response_body() {
    let resp = ZK4LWMonitor::build_response(&zk34_body()).unwrap();

    assert_eq!(resp.version, "3.4.14");
    assert_eq!(resp.build_revision, "4c25d480e66aadd371de8bd2fd8da255ac140bcf");
    assert_eq!(resp.build_date, "built on 03/06/2019 16:18 GMT");
    assert_eq!(resp.latency.avg, "0");
    assert_eq!(resp.latency.min, 0);
    assert_eq!(resp.latency.max, 0);
    assert_eq!(resp.packets_received, 5);
    assert_eq!(resp.packets_sent, 4);
    assert_eq!(resp.num_alive_connections, 1);
    assert_eq!(resp.outstanding_requests, 0);
    assert_eq!(resp.server_state, LEADER);
    assert_eq!(resp.znode_count, 4);
    assert_eq!(resp.watch_count, 0);
    assert_eq!(resp.ephemerals_count, 0);
    assert_eq!(resp.approximate_data_size, 27);
    assert_eq!(resp.open_file_descriptor_count.unwrap(), 36);
    assert_eq!(resp.max_file_descriptor_count.unwrap(), 1048576);
    assert_eq!(resp.learners.unwrap(), 4);
    assert_eq!(resp.synced_followers.unwrap(), 2);
    assert_eq!(resp.pending_syncs.unwrap(), 0);
    assert_eq!(resp.last_proposal_size.unwrap(), -1);
    assert_eq!(resp.min_proposal_size.unwrap(), -1);
    assert_eq!(resp.max_proposal_size.unwrap(), -1);
    assert_eq!(resp.misc.len(), 1);
    assert_eq!(misc_value(&resp.misc, "zk_fsync_threshold_exceed_count").unwrap(), "0");
}

#[test]
fn should_build_response_from_zk35_monitor_response_body() {
    let body = "zk_version\t3.5.8-f439ca583e70862c3068a1f2a7d4d068eec33315, built on 05/04/2020 15:07 GMT\n\
        zk_avg_latency\t0.0\n\
        zk_max_latency\t0\n\
        zk_min_latency\t0\n\
        zk_packets_received\t3\n\
        zk_packets_sent\t2\n\
        zk_num_alive_connections\t1\n\
        zk_outstanding_requests\t0\n\
        zk_server_state\tleader\n\
        zk_znode_count\t5\n\
        zk_watch_count\t0\n\
        zk_ephemerals_count\t0\n\
        zk_approximate_data_size\t297\n\
        zk_open_file_descriptor_count\t58\n\
        zk_max_file_descriptor_count\t1048576\n\
        zk_followers\t4\n\
        zk_synced_followers\t2\n\
        zk_pending_syncs\t0\n\
        zk_last_proposal_size\t-1\n\
        zk_min_proposal_size\t-1\n\
        zk_max_proposal_size\t-1\n";
    let resp = ZK4LWMonitor::build_response(body).unwrap();

    assert_eq!(resp.version, "3.5.8");
    assert_eq!(resp.build_revision, "f439ca583e70862c3068a1f2a7d4d068eec33315");
    assert_eq!(resp.build_date, "built on 05/04/2020 15:07 GMT");
    assert_eq!(resp.latency.avg, "0.0");
    assert_eq!(resp.latency.min, 0);
    assert_eq!(resp.latency.max, 0);
    assert_eq!(resp.packets_received, 3);
    assert_eq!(resp.packets_sent, 2);
    assert_eq!(resp.num_alive_connections, 1);
    assert_eq!(resp.outstanding_requests, 0);
    assert_eq!(resp.server_state, LEADER);
    assert_eq!(resp.znode_count, 5);
    assert_eq!(resp.watch_count, 0);
    assert_eq!(resp.ephemerals_count, 0);
    assert_eq!(resp.approximate_data_size, 297);
    assert_eq!(resp.open_file_descriptor_count.unwrap(), 58);
    assert_eq!(resp.max_file_descriptor_count.unwrap(), 1048576);
    assert_eq!(resp.learners.unwrap(), 4);
    assert_eq!(resp.synced_followers.unwrap(), 2);
    assert_eq!(resp.pending_syncs.unwrap(), 0);
    assert_eq!(resp.last_proposal_size.unwrap(), -1);
    assert_eq!(resp.min_proposal_size.unwrap(), -1);
    assert_eq!(resp.max_proposal_size.unwrap(), -1);
    assert_eq!(resp.misc.len(), 0);
}

#[test]
fn should_build_response_from_zk36_monitor_response_body() {
    let body = "zk_version\t3.6.1-104dcb3e3fb464b30c5186d229e00af9f332524b, built on 04/21/2020 15:01 GMT\n\
        zk_avg_latency\t0.0\n\
        zk_max_latency\t0\n\
        zk_min_latency\t0\n\
        zk_packets_received\t4\n\
        zk_packets_sent\t9\n\
        zk_num_alive_connections\t1\n\
        zk_outstanding_requests\t0\n\
        zk_server_state\tleader\n\
        zk_znode_count\t5\n\
        zk_watch_count\t0\n\
        zk_ephemerals_count\t0\n\
        zk_approximate_data_size\t297\n\
        zk_open_file_descriptor_count\t67\n\
        zk_max_file_descriptor_count\t1048576\n\
        zk_learners\t4\n\
        zk_synced_followers\t2\n\
        zk_pending_syncs\t0\n\
        zk_synced_non_voting_followers\t0\n\
        zk_synced_observers\t2\n\
        zk_last_proposal_size\t-1\n\
        zk_min_proposal_size\t-1\n\
        zk_max_proposal_size\t-1\n\
        zk_uptime\t229\n\
        zk_global_sessions\t0\n";
    let resp = ZK4LWMonitor::build_response(body).unwrap();

    assert_eq!(resp.version, "3.6.1");
    assert_eq!(resp.build_revision, "104dcb3e3fb464b30c5186d229e00af9f332524b");
    assert_eq!(resp.build_date, "built on 04/21/2020 15:01 GMT");
    assert_eq!(resp.latency.avg, "0.0");
    assert_eq!(resp.latency.min, 0);
    assert_eq!(resp.latency.max, 0);
    assert_eq!(resp.packets_received, 4);
    assert_eq!(resp.packets_sent, 9);
    assert_eq!(resp.num_alive_connections, 1);
    assert_eq!(resp.outstanding_requests, 0);
    assert_eq!(resp.server_state, LEADER);
    assert_eq!(resp.znode_count, 5);
    assert_eq!(resp.watch_count, 0);
    assert_eq!(resp.ephemerals_count, 0);
    assert_eq!(resp.approximate_data_size, 297);
    assert_eq!(resp.open_file_descriptor_count.unwrap(), 67);
    assert_eq!(resp.max_file_descriptor_count.unwrap(), 1048576);
    assert_eq!(resp.learners.unwrap(), 4);
    assert_eq!(resp.synced_followers.unwrap(), 2);
    assert_eq!(resp.pending_syncs.unwrap(), 0);
    assert_eq!(resp.synced_non_voting_followers.unwrap(), 0);
    assert_eq!(resp.synced_observers.unwrap(), 2);
    assert_eq!(resp.last_proposal_size.unwrap(), -1);
    assert_eq!(resp.min_proposal_size.unwrap(), -1);
    assert_eq!(resp.max_proposal_size.unwrap(), -1);
    assert_eq!(resp.misc.len(), 2);
    assert_eq!(misc_value(&resp.misc, "zk_uptime").unwrap(), "229");
    assert_eq!(misc_value(&resp.misc, "zk_global_sessions").unwrap(), "0");
}

#[test]
fn version_value_splits_into_three_fields() {
    let body = zk34_body();
    let resp = ZK4LWMonitor::build_response(&body).unwrap();
    assert_eq!(resp.version, "3.4.14");
    assert_eq!(resp.build_revision, "4c25d480e66aadd371de8bd2fd8da255ac140bcf");
    assert_eq!(resp.build_date, "built on 03/06/2019 16:18 GMT");
}

#[test]
fn missing_required_field_is_reported_by_name() {
    let body = zk34_body().replace("zk_znode_count\t4\n", "");
    let err = ZK4LWMonitor::build_response(&body).unwrap_err();
    assert_eq!(err, ZK4LWError::MissingFieldError(vec!["zk_znode_count".to_string()]));
}

#[test]
fn all_missing_required_fields_are_reported_together() {
    let body = zk34_body()
        .replace("zk_znode_count\t4\n", "")
        .replace("zk_avg_latency\t0\n", "")
        .replace("zk_server_state\tleader\n", "");
    let err = ZK4LWMonitor::build_response(&body).unwrap_err();
    // Every absent required field is named, in the decoder's fixed order.
    assert_eq!(
        err,
        ZK4LWError::MissingFieldError(vec![
            "zk_avg_latency".to_string(),
            "zk_server_state".to_string(),
            "zk_znode_count".to_string(),
        ])
    );
}

#[test]
fn empty_body_reports_every_required_field() {
    let err = ZK4LWMonitor::build_response("").unwrap_err();
    match err {
        ZK4LWError::MissingFieldError(names) => {
            assert_eq!(
                names,
                vec![
                    "zk_version".to_string(),
                    "zk_avg_latency".to_string(),
                    "zk_max_latency".to_string(),
                    "zk_min_latency".to_string(),
                    "zk_packets_received".to_string(),
                    "zk_packets_sent".to_string(),
                    "zk_num_alive_connections".to_string(),
                    "zk_outstanding_requests".to_string(),
                    "zk_server_state".to_string(),
                    "zk_znode_count".to_string(),
                    "zk_watch_count".to_string(),
                    "zk_ephemerals_count".to_string(),
                    "zk_approximate_data_size".to_string(),
                ]
            );
        }
        other => panic!("expected MissingFieldError, got {:?}", other),
    }
}

#[test]
fn later_synonym_wins_when_both_present() {
    // The legacy key first, the newer one later: the later pair wins.
    let body = zk34_body().replace("zk_followers\t4\n", "zk_followers\t4\nzk_learners\t7\n");
    let resp = ZK4LWMonitor::build_response(&body).unwrap();
    assert_eq!(resp.learners.unwrap(), 7);
    // Exactly one destination field exists for both keys.
    assert_eq!(resp.misc.len(), 1);

    let body2 = zk34_body().replace("zk_followers\t4\n", "zk_learners\t7\nzk_followers\t4\n");
    let resp2 = ZK4LWMonitor::build_response(&body2).unwrap();
    assert_eq!(resp2.learners.unwrap(), 4);
}

#[test]
fn unrecognized_key_lands_in_catch_all() {
    let body = format!("{}zk_foo\t0\n", zk34_body());
    let resp = ZK4LWMonitor::build_response(&body).unwrap();
    assert_eq!(misc_value(&resp.misc, "zk_foo").unwrap(), "0");
}

#[test]
fn end_to_end_zk35_leader_snapshot() {
    let body = "zk_version\t3.5.8-f439ca583e70862c3068a1f2a7d4d068eec33315, built on 05/04/2020 15:07 GMT\n\
        zk_avg_latency\t0.0\n\
        zk_max_latency\t0\n\
        zk_min_latency\t0\n\
        zk_packets_received\t3\n\
        zk_packets_sent\t2\n\
        zk_num_alive_connections\t1\n\
        zk_outstanding_requests\t0\n\
        zk_server_state\tleader\n\
        zk_znode_count\t5\n\
        zk_watch_count\t0\n\
        zk_ephemerals_count\t0\n\
        zk_approximate_data_size\t297\n";
    let resp = ZK4LWMonitor::build_response(body).unwrap();
    assert_eq!(resp.version, "3.5.8");
    assert_eq!(resp.server_state, LEADER);
    assert_eq!(resp.znode_count, 5);
    assert_eq!(resp.misc.len(), 0);
}

#[test]
fn decoding_a_body_twice_yields_equal_responses() {
    let body = zk34_body();
    let once = ZK4LWMonitor::build_response(&body).unwrap();
    let twice = ZK4LWMonitor::build_response(&body).unwrap();
    assert_eq!(once, twice);
}

#[test]
fn ill_formed_integer_is_a_parse_int_error() {
    let body = zk34_body().replace("zk_znode_count\t4\n", "zk_znode_count\tabc\n");
    let err = ZK4LWMonitor::build_response(&body).unwrap_err();
    assert_eq!(
        err,
        ZK4LWError::ParseIntError("zk_znode_count".to_string(), "abc".to_string())
    );
}

#[test]
fn ill_formed_float_is_a_parse_float_error() {
    let body = zk34_body().replace("zk_avg_latency\t0\n", "zk_avg_latency\tnot-a-number\n");
    let err = ZK4LWMonitor::build_response(&body).unwrap_err();
    assert_eq!(
        err,
        ZK4LWError::ParseFloatError("zk_avg_latency".to_string(), "not-a-number".to_string())
    );
}

#[test]
fn unknown_state_token_is_a_parse_string_error() {
    let body = zk34_body().replace("zk_server_state\tleader\n", "zk_server_state\tbogus\n");
    let err = ZK4LWMonitor::build_response(&body).unwrap_err();
    assert_eq!(err, ZK4LWError::ParseStringError("bogus".to_string()));
}

#[test]
fn ill_formed_version_is_a_parse_string_error() {
    let raw = "3.4.14 built without revision";
    let body = zk34_body().replace(
        "zk_version\t3.4.14-4c25d480e66aadd371de8bd2fd8da255ac140bcf, built on 03/06/2019 16:18 GMT\n",
        &format!("zk_version\t{}\n", raw),
    );
    let err = ZK4LWMonitor::build_response(&body).unwrap_err();
    assert_eq!(err, ZK4LWError::ParseStringError(raw.to_string()));
}

#[test]
fn version_with_extra_dash_is_rejected_not_truncated() {
    let raw = "3.4.14-rc1-4c25d480, built on 03/06/2019 16:18 GMT";
    let body = zk34_body().replace(
        "zk_version\t3.4.14-4c25d480e66aadd371de8bd2fd8da255ac140bcf, built on 03/06/2019 16:18 GMT\n",
        &format!("zk_version\t{}\n", raw),
    );
    let err = ZK4LWMonitor::build_response(&body).unwrap_err();
    assert_eq!(err, ZK4LWError::ParseStringError(raw.to_string()));
}

#[test]
fn first_ill_formed_pair_decides_the_error() {
    let body = zk34_body()
        .replace("zk_max_latency\t0\n", "zk_max_latency\tbad1\n")
        .replace("zk_znode_count\t4\n", "zk_znode_count\tbad2\n");
    let err = ZK4LWMonitor::build_response(&body).unwrap_err();
    // zk_max_latency appears first in the body.
    assert_eq!(
        err,
        ZK4LWError::ParseIntError("zk_max_latency".to_string(), "bad1".to_string())
    );
}

#[test]
fn request_body_is_the_command_word() {
    assert_eq!(ZK4LWMonitor::request_body(), "mntr");
}
