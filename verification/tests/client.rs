use zk4lw::client::ZK4LWClient;
use zk4lw::commands::common::ZK4LWMetricSample;

#[test]
fn client_keeps_its_endpoint() {
    let client = ZK4LWClient::new("zk1.example".to_string(), 2181);
    assert_eq!(client.host(), "zk1.example");
    assert_eq!(client.port(), 2181);
}

#[test]
fn metric_sample_new_leaves_optional_statistics_absent() {
    let sample = ZK4LWMetricSample::new("0.5".to_string(), 9, -1);
    assert_eq!(sample.avg, "0.5");
    assert_eq!(sample.max, 9);
    assert_eq!(sample.min, -1);
    assert!(sample.count.is_none());
    assert!(sample.sum.is_none());
    assert!(sample.p50.is_none());
    assert!(sample.p95.is_none());
    assert!(sample.p99.is_none());
    assert!(sample.p999.is_none());
}

#[test]
fn metric_sample_default_is_the_zero_sample() {
    let sample = ZK4LWMetricSample::default();
    assert_eq!(sample.avg, "0.0");
    assert_eq!(sample.max, 0);
    assert_eq!(sample.min, 0);
    assert!(sample.count.is_none());
}
