use sensor_uplink::config::Config;
use sensor_uplink::error::{Error, ErrorKind};
use sensor_uplink::json::{check_json_number, json_escape, u64_to_dec};
use sensor_uplink::upload::{
    build_payload, build_request, build_url, post_outcome, Measurement, UploadOutcome,
};

fn sample_config() -> Config {
    Config::new(
        "mynet".to_string(),
        "pw".to_string(),
        "k".to_string(),
        "ds".to_string(),
        "db".to_string(),
        "col".to_string(),
        "id".to_string(),
    )
}

fn measurement_from_floats(temperature: f32, humidity: f32) -> Measurement {
    let t = serde_json::to_string(&temperature).unwrap();
    let h = serde_json::to_string(&humidity).unwrap();
    Measurement::new(t, h).unwrap()
}

#[test]
fn end_to_end_payload_and_url() {
    let m = measurement_from_floats(22.5, 48.0);
    let c = sample_config();
    let r = build_request(&m, &c);
    assert_eq!(
        r.body,
        "{\"dataSource\":\"ds\",\"database\":\"db\",\"collection\":\"col\",\
         \"document\":{\"temperature\":22.5,\"humidity\":48.0}}"
    );
    assert_eq!(
        r.url,
        "https://data.mongodb-api.com/app/id/endpoint/data/v1/action/insertOne"
    );
}

#[test]
fn content_length_is_the_exact_byte_length() {
    let m = measurement_from_floats(22.5, 48.0);
    let c = sample_config();
    let r = build_request(&m, &c);
    assert_eq!(r.content_length, r.body.len() as u64);
    assert_eq!(r.headers.len(), 3);
    assert_eq!(
        r.headers[0],
        ("Content-Type".to_string(), "application/json".to_string())
    );
    assert_eq!(r.headers[1], ("api-key".to_string(), "k".to_string()));
    assert_eq!(
        r.headers[2],
        (
            "content-length".to_string(),
            r.body.len().to_string()
        )
    );
}

#[test]
fn content_length_counts_bytes_not_characters() {
    let mut c = sample_config();
    c.database = "caf\u{e9}".to_string(); // two UTF-8 bytes for the last character
    let m = measurement_from_floats(1.0, 2.0);
    let r = build_request(&m, &c);
    assert_eq!(r.content_length, r.body.len() as u64);
    assert!(r.body.len() > r.body.chars().count());
}

#[test]
fn serialization_round_trip_is_bit_for_bit() {
    let t: f32 = 22.5;
    let h: f32 = 48.0;
    let m = measurement_from_floats(t, h);
    let c = sample_config();
    let r = build_request(&m, &c);
    let v: serde_json::Value = serde_json::from_str(&r.body).unwrap();
    assert_eq!(v["dataSource"].as_str(), Some("ds"));
    assert_eq!(v["database"].as_str(), Some("db"));
    assert_eq!(v["collection"].as_str(), Some("col"));
    let t_back = v["document"]["temperature"].as_f64().unwrap() as f32;
    let h_back = v["document"]["humidity"].as_f64().unwrap() as f32;
    assert_eq!(t_back.to_bits(), t.to_bits());
    assert_eq!(h_back.to_bits(), h.to_bits());
}

#[test]
fn negative_and_exponent_values_round_trip() {
    let t: f32 = -0.0625;
    let h: f32 = 1.0e-9;
    let m = measurement_from_floats(t, h);
    let c = sample_config();
    let r = build_request(&m, &c);
    let v: serde_json::Value = serde_json::from_str(&r.body).unwrap();
    let t_back = v["document"]["temperature"].as_f64().unwrap() as f32;
    let h_back = v["document"]["humidity"].as_f64().unwrap() as f32;
    assert_eq!(t_back.to_bits(), t.to_bits());
    assert_eq!(h_back.to_bits(), h.to_bits());
}

#[test]
fn config_strings_are_escaped_in_the_payload() {
    let mut c = sample_config();
    c.data_source = "a\"b\\c\nd".to_string();
    let m = measurement_from_floats(1.5, 2.5);
    let body = build_payload(&m, &c);
    assert!(body.starts_with("{\"dataSource\":\"a\\\"b\\\\c\\nd\","));
    // The escaped document still parses, and parses back to the raw string.
    let v: serde_json::Value = serde_json::from_str(&body).unwrap();
    assert_eq!(v["dataSource"].as_str(), Some("a\"b\\c\nd"));
}

#[test]
fn escaping_matches_json_string_rules() {
    assert_eq!(json_escape("plain"), "plain");
    assert_eq!(json_escape(""), "");
    assert_eq!(json_escape("say \"hi\""), "say \\\"hi\\\"");
    assert_eq!(json_escape("back\\slash"), "back\\\\slash");
    assert_eq!(json_escape("a\u{8}b\tc\nd\u{c}e\rf"), "a\\bb\\tc\\nd\\fe\\rf");
    assert_eq!(json_escape("nul\u{0}and\u{1f}"), "nul\\u0000and\\u001f");
    assert_eq!(json_escape("caf\u{e9} \u{2603}"), "caf\u{e9} \u{2603}");
    // The same text as serde_json renders it.
    let raw = "q\"b\\s\nl\u{1}u";
    let serde_rendered = serde_json::to_string(raw).unwrap();
    assert_eq!(format!("\"{}\"", json_escape(raw)), serde_rendered);
}

#[test]
fn number_grammar_accepts_json_numbers() {
    for ok in [
        "0", "-0", "7", "22.5", "48.0", "-0.0625", "1e30", "1E30", "2.5e-9", "1e+4", "10",
        "90123", "-123.456e+789",
    ] {
        assert!(check_json_number(ok), "{} should be accepted", ok);
    }
}

#[test]
fn number_grammar_rejects_other_texts() {
    for bad in [
        "", "-", "+1", "01", "1.", ".5", "1e", "1e+", "1.e5", "abc", "--1", "1.2.3", " 1",
        "1 ", "0x10", "NaN", "null", "1,2",
    ] {
        assert!(!check_json_number(bad), "{} should be rejected", bad);
    }
}

#[test]
fn measurement_rejects_texts_outside_the_grammar() {
    let e = Measurement::new("22.5.1".to_string(), "48.0".to_string()).unwrap_err();
    assert_eq!(e, Error::InvalidMeasurement);
    assert_eq!(e.kind(), ErrorKind::Device);
    let e = Measurement::new("22.5".to_string(), "".to_string()).unwrap_err();
    assert_eq!(e, Error::InvalidMeasurement);
    let m = Measurement::new("22.5".to_string(), "48.0".to_string()).unwrap();
    assert_eq!(m.temperature, "22.5");
    assert_eq!(m.humidity, "48.0");
}

#[test]
fn decimal_rendering_is_exact() {
    assert_eq!(u64_to_dec(0), "0");
    assert_eq!(u64_to_dec(7), "7");
    assert_eq!(u64_to_dec(10), "10");
    assert_eq!(u64_to_dec(1_234_567_890), "1234567890");
    assert_eq!(u64_to_dec(u64::MAX), u64::MAX.to_string());
}

#[test]
fn non_2xx_status_is_not_an_error() {
    assert_eq!(post_outcome(UploadOutcome::Completed { status: 200 }), Ok(200));
    assert_eq!(post_outcome(UploadOutcome::Completed { status: 201 }), Ok(201));
    assert_eq!(post_outcome(UploadOutcome::Completed { status: 404 }), Ok(404));
    assert_eq!(post_outcome(UploadOutcome::Completed { status: 500 }), Ok(500));
}

#[test]
fn transport_failure_is_an_error() {
    let r = post_outcome(UploadOutcome::IoFailed);
    let e = r.unwrap_err();
    assert_eq!(e, Error::TransportFailure);
    assert_eq!(e.kind(), ErrorKind::Transport);
    assert_eq!(e.message(), "HTTP transport failed");
}

#[test]
fn default_config_is_all_empty() {
    let c = Config::default();
    assert_eq!(c.wifi_ssid, "");
    assert_eq!(c.wifi_psk, "");
    assert_eq!(c.api_key, "");
    assert_eq!(c.data_source, "");
    assert_eq!(c.database, "");
    assert_eq!(c.collection, "");
    assert_eq!(c.app_id, "");
}

#[test]
fn empty_config_strings_build_a_well_formed_document() {
    let c = Config::default();
    let m = measurement_from_floats(0.0, 0.0);
    let r = build_request(&m, &c);
    assert_eq!(
        r.body,
        "{\"dataSource\":\"\",\"database\":\"\",\"collection\":\"\",\
         \"document\":{\"temperature\":0.0,\"humidity\":0.0}}"
    );
    assert_eq!(r.url, build_url(&c));
    assert_eq!(
        r.url,
        "https://data.mongodb-api.com/app//endpoint/data/v1/action/insertOne"
    );
}
