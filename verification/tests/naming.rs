//! Tests of configuration resolution and of the generated identifiers and
//! file names.

use pravega_bench::config::Config;
use pravega_bench::config::RawConfig;
use pravega_bench::config::RetentionKind;
use pravega_bench::config::ScaleKind;
use pravega_bench::text::decimal_string;
use pravega_bench::text::generate_name;
use pravega_bench::text::result_file_name;

#[test]
fn fresh_config_carries_documented_defaults() {
    let c = Config::new();
    assert_eq!(c.message_warmup, 5);
    assert_eq!(c.retention_time, 10);
    assert_eq!(c.scale_target_rate, 1);
    assert_eq!(c.scale_factor, 0);
    assert_eq!(c.scale_min_num_segments, 1);
    assert_eq!(c.message_num, 0);
    assert_eq!(c.producer_rate, 0);
    assert_eq!(c.message_size, 0);
    assert_eq!(c.name, "");
    assert_eq!(c.scope, "");
}

fn raw(scope: Option<String>, stream: Option<String>) -> RawConfig {
    RawConfig {
        name: String::from("bench"),
        address: String::from("127.0.0.1:9090"),
        payload_file: String::from("payload.bin"),
        message_num: 42,
        message_warmup: None,
        producer_rate: 7,
        scope,
        stream,
        retention_time: None,
        scale_target_rate: None,
        scale_factor: None,
        scale_min_num_segments: None,
    }
}

#[test]
fn resolve_defaults_omitted_fields_and_generates_names() {
    let payload: Vec<u8> = vec![1, 2, 3, 4, 5];
    let c = Config::resolve(raw(None, None), payload, 1700000000);
    assert_eq!(c.name, "bench");
    assert_eq!(c.address, "127.0.0.1:9090");
    assert_eq!(c.payload_file, "payload.bin");
    assert_eq!(c.message_size, 5);
    assert_eq!(c.message_num, 42);
    assert_eq!(c.producer_rate, 7);
    assert_eq!(c.scope, "scope1700000000");
    assert_eq!(c.stream, "stream1700000000");
    assert_eq!(c.message_warmup, 5);
    assert_eq!(c.retention_time, 10);
    assert_eq!(c.scale_target_rate, 1);
    assert_eq!(c.scale_factor, 0);
    assert_eq!(c.scale_min_num_segments, 1);
}

#[test]
fn resolve_keeps_fields_the_file_supplies() {
    let payload: Vec<u8> = vec![0; 16];
    let mut r = raw(Some(String::from("myscope")), Some(String::from("mystream")));
    r.message_warmup = Some(2);
    r.retention_time = Some(99);
    r.scale_target_rate = Some(3);
    r.scale_factor = Some(4);
    r.scale_min_num_segments = Some(5);
    let c = Config::resolve(r, payload, 1700000000);
    assert_eq!(c.scope, "myscope");
    assert_eq!(c.stream, "mystream");
    assert_eq!(c.message_warmup, 2);
    assert_eq!(c.retention_time, 99);
    assert_eq!(c.scale_target_rate, 3);
    assert_eq!(c.scale_factor, 4);
    assert_eq!(c.scale_min_num_segments, 5);
    assert_eq!(c.message_size, 16);
}

#[test]
fn stream_settings_scale_by_rate_and_retain_by_size() {
    let mut c = Config::new();
    c.scale_target_rate = 11;
    c.scale_factor = 2;
    c.scale_min_num_segments = 3;
    let s = c.stream_settings();
    assert!(matches!(s.scale_kind, ScaleKind::ByRateInEventsPerSec));
    assert_eq!(s.target_rate, 11);
    assert_eq!(s.scale_factor, 2);
    assert_eq!(s.min_num_segments, 3);
    assert!(matches!(s.retention_kind, RetentionKind::Size));
    assert_eq!(s.retention_param, 10485760);
}

#[test]
fn decimal_rendering_matches_standard_formatting() {
    assert_eq!(decimal_string(0), "0");
    assert_eq!(decimal_string(7), "7");
    assert_eq!(decimal_string(10), "10");
    assert_eq!(decimal_string(1700000000), "1700000000");
    assert_eq!(decimal_string(u64::MAX), format!("{}", u64::MAX));
}

#[test]
fn generated_names_are_prefix_plus_epoch() {
    assert_eq!(generate_name("scope", 12345), "scope12345");
    assert_eq!(generate_name("stream", 0), "stream0");
}

#[test]
fn result_file_name_embeds_the_utc_timestamp() {
    // 2015-05-15 00:00:00 UTC
    assert_eq!(result_file_name(1431648000), "result_20150515_000000.json");
    // 1970-01-01 00:00:00 UTC
    assert_eq!(result_file_name(0), "result_19700101_000000.json");
    // one second and one minute later, the stamp moves accordingly
    assert_eq!(result_file_name(61), "result_19700101_000101.json");
}
