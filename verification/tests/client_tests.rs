use cloudflare_kv_proxy::client::Client;
use cloudflare_kv_proxy::{handle_response, Error};

const TTL: u64 = 1 << 40;

fn envelope_with_result(inner: &str) -> String {
    let mut outer = serde_json::Map::new();
    outer.insert("result".to_string(), serde_json::Value::String(inner.to_string()));
    serde_json::to_string(&serde_json::Value::Object(outer)).unwrap()
}

/// The app's read path against a canned remote answer, counting GETs.
fn simulated_get(
    client: &mut Client,
    key: &str,
    remote: (u16, &str),
    gets: &mut usize,
) -> Result<String, Error> {
    if let Some(text) = client.get_cache(key) {
        if serde_json::from_str::<serde_json::Value>(&text).is_ok() {
            return Ok(text);
        }
    }
    *gets += 1;
    let (status, body) = remote;
    let outcome = handle_response(status, body);
    client.finish_get(key, outcome)
}

#[test]
fn read_through_issues_one_get_then_none() {
    let mut c = Client::new("http://kv/", 4, TTL);
    c.clear_cached();
    let body = envelope_with_result("\"balabala\"");
    let mut gets: usize = 0;
    let first = simulated_get(&mut c, "k", (200, &body), &mut gets);
    assert_eq!(first, Ok("\"balabala\"".to_string()));
    assert_eq!(gets, 1);
    let second = simulated_get(&mut c, "k", (200, &body), &mut gets);
    assert_eq!(second, Ok("\"balabala\"".to_string()));
    assert_eq!(gets, 1);
}

#[test]
fn write_through_makes_the_next_get_hit_the_cache() {
    let mut c = Client::new("http://kv/", 4, TTL);
    let json = serde_json::to_string("balabala").unwrap();
    let put = c.finish_put("k", json.clone(), Ok(()));
    assert_eq!(put, Ok(()));
    let mut gets: usize = 0;
    let got = simulated_get(&mut c, "k", (500, ""), &mut gets);
    assert_eq!(got, Ok(json));
    assert_eq!(gets, 0);
}

#[test]
fn delete_invalidates_the_cache_entry() {
    let mut c = Client::new("http://kv/", 4, TTL);
    c.finish_put("k", "\"v\"".to_string(), Ok(())).unwrap();
    let del = c.finish_delete("k", Ok(()));
    assert_eq!(del, Ok(()));
    assert_eq!(c.get_cache("k"), None);
    let body = envelope_with_result("\"v2\"");
    let mut gets: usize = 0;
    let got = simulated_get(&mut c, "k", (200, &body), &mut gets);
    assert_eq!(got, Ok("\"v2\"".to_string()));
    assert_eq!(gets, 1);
}

#[test]
fn failing_put_leaves_prior_cached_value_unchanged() {
    let mut c = Client::new("http://kv/", 4, TTL);
    c.finish_put("k", "\"old\"".to_string(), Ok(())).unwrap();
    let err = Error::Transport("http status error".to_string());
    let put = c.finish_put("k", "\"new\"".to_string(), Err(err.clone()));
    assert_eq!(put, Err(err));
    assert_eq!(c.get_cache("k"), Some("\"old\"".to_string()));
}

#[test]
fn failing_delete_leaves_prior_cached_value_unchanged() {
    let mut c = Client::new("http://kv/", 4, TTL);
    c.finish_put("k", "\"old\"".to_string(), Ok(())).unwrap();
    let err = Error::Transport("http status error".to_string());
    let del = c.finish_delete("k", Err(err.clone()));
    assert_eq!(del, Err(err));
    assert_eq!(c.get_cache("k"), Some("\"old\"".to_string()));
}

#[test]
fn not_found_is_typed_and_does_not_poison_the_cache() {
    let mut c = Client::new("http://kv/", 4, TTL);
    let mut gets: usize = 0;
    let got = simulated_get(&mut c, "k", (404, ""), &mut gets);
    assert_eq!(got, Err(Error::NotFound));
    assert_eq!(c.get_cache("k"), None);
}

#[test]
fn api_error_envelope_surfaces_and_cache_is_unchanged() {
    let mut c = Client::new("http://kv/", 4, TTL);
    let mut gets: usize = 0;
    let got = simulated_get(&mut c, "k", (200, "{\"code\":1003,\"error\":\"quota\"}"), &mut gets);
    assert_eq!(got, Err(Error::Api(1003, "quota".to_string())));
    assert_eq!(c.get_cache("k"), None);
}

#[test]
fn undecodable_cached_entry_triggers_a_transparent_refetch() {
    let mut c = Client::new("http://kv/", 4, TTL);
    // The cache holds a string; the caller now wants a number.
    c.finish_put("k", "\"balabala\"".to_string(), Ok(())).unwrap();
    let cached = c.get_cache("k").unwrap();
    assert!(serde_json::from_str::<u64>(&cached).is_err());
    // The read path falls through to the transport, and the fresh answer
    // replaces the stale shape.
    let body = envelope_with_result("17");
    let outcome = handle_response(200, &body);
    let got = c.finish_get("k", outcome).unwrap();
    let n: u64 = serde_json::from_str(&got).unwrap();
    assert_eq!(n, 17);
    assert_eq!(c.get_cache("k"), Some("17".to_string()));
}

#[test]
fn string_value_end_to_end() {
    let mut c = Client::new("http://kv/", 4, TTL);
    let json = serde_json::to_string("balabala").unwrap();
    assert_eq!(c.finish_put("test_string", json.clone(), Ok(())), Ok(()));
    let mut gets: usize = 0;
    let got = simulated_get(&mut c, "test_string", (500, ""), &mut gets).unwrap();
    let back: String = serde_json::from_str(&got).unwrap();
    assert_eq!(back, "balabala");
    assert_eq!(gets, 0);
    assert_eq!(c.finish_delete("test_string", Ok(())), Ok(()));
    let after = simulated_get(&mut c, "test_string", (404, ""), &mut gets);
    assert_eq!(after, Err(Error::NotFound));
    assert_eq!(gets, 1);
}

#[test]
fn structured_value_end_to_end() {
    let mut c = Client::new("http://kv/", 4, TTL);
    let mut v = serde_json::Map::new();
    v.insert("name".to_string(), serde_json::Value::String("red".to_string()));
    v.insert(
        "age".to_string(),
        serde_json::Value::Number(serde_json::Number::from(21u64)),
    );
    let value = serde_json::Value::Object(v);
    let json = serde_json::to_string(&value).unwrap();
    assert_eq!(c.finish_put("test_struct", json.clone(), Ok(())), Ok(()));
    let mut gets: usize = 0;
    let got = simulated_get(&mut c, "test_struct", (500, ""), &mut gets).unwrap();
    let back: serde_json::Value = serde_json::from_str(&got).unwrap();
    assert_eq!(back, value);
    assert_eq!(gets, 0);
    assert_eq!(c.finish_delete("test_struct", Ok(())), Ok(()));
    let after = simulated_get(&mut c, "test_struct", (404, ""), &mut gets);
    assert_eq!(after, Err(Error::NotFound));
}

#[test]
fn cold_keys_fall_out_of_a_small_cache() {
    // capacity 2: three keys filled through the read path leave the first
    // one cold, and a later read of it goes back to the transport.
    let mut c = Client::new("http://kv/", 2, TTL);
    let mut gets: usize = 0;
    for key in ["k1", "k2", "k3"] {
        let body = envelope_with_result("1");
        simulated_get(&mut c, key, (200, &body), &mut gets).unwrap();
    }
    assert_eq!(gets, 3);
    let body = envelope_with_result("1");
    simulated_get(&mut c, "k1", (200, &body), &mut gets).unwrap();
    assert_eq!(gets, 4);
}
