use zk4lw::errors::ZK4LWError;
use zk4lw::state::ZK4LWServerState;

#[test]
fn known_tokens_parse_to_their_states() {
    assert_eq!(ZK4LWServerState::from_token("leader").unwrap(), ZK4LWServerState::LEADER);
    assert_eq!(ZK4LWServerState::from_token("follower").unwrap(), ZK4LWServerState::FOLLOWER);
    assert_eq!(ZK4LWServerState::from_token("observer").unwrap(), ZK4LWServerState::OBSERVER);
    assert_eq!(
        ZK4LWServerState::from_token("standalone").unwrap(),
        ZK4LWServerState::STANDALONE
    );
}

#[test]
fn unknown_token_is_a_parse_string_error() {
    let err = ZK4LWServerState::from_token("primary").unwrap_err();
    assert_eq!(err, ZK4LWError::ParseStringError("primary".to_string()));
}

#[test]
fn uppercase_token_is_rejected() {
    assert!(ZK4LWServerState::from_token("LEADER").is_err());
}

#[test]
fn tokens_round_trip() {
    for st in [
        ZK4LWServerState::LEADER,
        ZK4LWServerState::FOLLOWER,
        ZK4LWServerState::OBSERVER,
        ZK4LWServerState::STANDALONE,
    ] {
        assert_eq!(ZK4LWServerState::from_token(st.as_token()).unwrap(), st);
    }
}

#[test]
fn default_state_is_standalone() {
    assert_eq!(ZK4LWServerState::default(), ZK4LWServerState::STANDALONE);
}
