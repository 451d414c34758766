use zk4lw::parsing::{bytes_to_key_value, equal_separated_bytes_to_key_value,
    tab_separated_bytes_to_key_value};

#[test]
fn should_parse_tab_separated_bytes_to_key_value() {
    let body = "zk_version\t3.4.14-abc, built on 03/06/2019 16:18 GMT\n\
                zk_avg_latency\t0\n\
                zk_packets_received\t5\n\
                zk_server_state\tleader\n";
    let map = tab_separated_bytes_to_key_value(body).unwrap();
    assert_eq!(4, map.len());
    assert_eq!(
        ("zk_version".to_string(), "3.4.14-abc, built on 03/06/2019 16:18 GMT".to_string()),
        map[0]
    );
    assert_eq!(("zk_server_state".to_string(), "leader".to_string()), map[3]);
}

#[test]
fn should_parse_equal_separated_bytes_to_key_value() {
    let body = "clientPort=2181\ndataDir=/data/version-2\ntickTime=2000\n";
    let map = equal_separated_bytes_to_key_value(body).unwrap();
    assert_eq!(3, map.len());
    assert_eq!(("clientPort".to_string(), "2181".to_string()), map[0]);
    assert_eq!(("dataDir".to_string(), "/data/version-2".to_string()), map[1]);
    assert_eq!(("tickTime".to_string(), "2000".to_string()), map[2]);
}

#[test]
fn duplicate_keys_collapse_last_value_wins() {
    let body = "a\t1\nb\t2\na\t3\n";
    let map = tab_separated_bytes_to_key_value(body).unwrap();
    assert_eq!(2, map.len());
    // The duplicate key keeps its first position but takes the later value.
    assert_eq!(("a".to_string(), "3".to_string()), map[0]);
    assert_eq!(("b".to_string(), "2".to_string()), map[1]);
}

#[test]
fn distinct_keys_all_kept() {
    let body = "k1\tv1\nk2\tv2\nk3\tv3\nk4\tv4\nk5\tv5\n";
    let map = tab_separated_bytes_to_key_value(body).unwrap();
    assert_eq!(5, map.len());
}

#[test]
fn decoding_twice_yields_equal_results() {
    let body = "a\t1\nb\t2\njunk line\nc\t3\n";
    let once = tab_separated_bytes_to_key_value(body).unwrap();
    let twice = tab_separated_bytes_to_key_value(body).unwrap();
    assert_eq!(once, twice);
}

#[test]
fn empty_input_yields_empty_mapping() {
    let map = tab_separated_bytes_to_key_value("").unwrap();
    assert_eq!(0, map.len());
    let map = equal_separated_bytes_to_key_value("").unwrap();
    assert_eq!(0, map.len());
}

#[test]
fn value_stops_at_second_separator() {
    // Splitting stops after the first pair: only the text between the
    // first and second separators is the value.
    let body = "key\tfirst\tsecond\tthird\n";
    let map = tab_separated_bytes_to_key_value(body).unwrap();
    assert_eq!(1, map.len());
    assert_eq!(("key".to_string(), "first".to_string()), map[0]);
}

#[test]
fn value_may_hold_commas_and_dashes() {
    let body = "zk_version=3.4.14-abc, built on 03/06/2019\n";
    let map = equal_separated_bytes_to_key_value(body).unwrap();
    assert_eq!(1, map.len());
    assert_eq!("3.4.14-abc, built on 03/06/2019", map[0].1);
}

#[test]
fn lines_without_pair_are_skipped() {
    // No separator, an empty line, and a separator with nothing after it
    // are all skipped; a separator followed by another yields an empty
    // value.
    let body = "no separator here\n\nkey\t\nk2\t\t\nk3\tv3\n";
    let map = tab_separated_bytes_to_key_value(body).unwrap();
    assert_eq!(2, map.len());
    assert_eq!(("k2".to_string(), "".to_string()), map[0]);
    assert_eq!(("k3".to_string(), "v3".to_string()), map[1]);
}

#[test]
fn keys_and_values_are_trimmed() {
    let body = "  spaced key  \t  spaced value  \n";
    let map = tab_separated_bytes_to_key_value(body).unwrap();
    assert_eq!(1, map.len());
    assert_eq!(("spaced key".to_string(), "spaced value".to_string()), map[0]);
}

#[test]
fn no_trailing_newline_still_parses() {
    let map = bytes_to_key_value("a=1\nb=2", '=').unwrap();
    assert_eq!(2, map.len());
    assert_eq!(("b".to_string(), "2".to_string()), map[1]);
}
