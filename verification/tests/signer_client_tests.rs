use lighter_client::errors::SignerClientError;
use lighter_client::signer_client::{
    are_keys_equal, auth_token_deadline, fill_from_book_text, chain_id_for_url, contains_ignore_ascii_case, decimal_str_to_i64,
    ensure_code_ok, is_invalid_nonce_message, match_book_liquidity, needs_nonce_reservation, nonce_follow_up,
    parse_sign_output, prepare_api_key_map, sanitize_private_key, sign_personal_message, signer_library_filename,
    signing_context,
    unix_timestamp_to_system_time,
    BatchEntry, SendOutcome, SignedPayload,
};
use std::collections::HashMap;

#[test]
fn test_sanitize_private_key() {
    assert_eq!(sanitize_private_key("0xabc"), "abc");
    assert_eq!(sanitize_private_key("abc"), "abc");
}

#[test]
fn sanitize_removes_every_leading_prefix() {
    assert_eq!(sanitize_private_key("0x0xabc"), "abc");
    assert_eq!(sanitize_private_key("0x"), "");
    assert_eq!(sanitize_private_key("a0xb"), "a0xb");
}

#[test]
fn keys_compare_without_prefix() {
    assert!(are_keys_equal("0xabc", "abc"));
    assert!(!are_keys_equal("0xabc", "abd"));
}

#[test]
fn decimal_strings_lose_their_dots() {
    assert_eq!(decimal_str_to_i64("12.34"), Ok(1234));
    assert_eq!(decimal_str_to_i64("-0.5"), Ok(-5));
    assert_eq!(
        decimal_str_to_i64("1x"),
        Err(SignerClientError::Signer("invalid numeric value 1x: invalid digit found in string".to_string()))
    );
    assert_eq!(
        decimal_str_to_i64("."),
        Err(SignerClientError::Signer("invalid numeric value .: cannot parse integer from empty string".to_string()))
    );
    assert_eq!(
        decimal_str_to_i64("99999999999999999999"),
        Err(SignerClientError::Signer(
            "invalid numeric value 99999999999999999999: number too large to fit in target type".to_string()
        ))
    );
    assert_eq!(
        decimal_str_to_i64("-99999999999999999999"),
        Err(SignerClientError::Signer(
            "invalid numeric value -99999999999999999999: number too small to fit in target type".to_string()
        ))
    );
}

#[test]
fn response_codes_other_than_ok_fail() {
    assert_eq!(ensure_code_ok(200, None), Ok(()));
    assert_eq!(ensure_code_ok(400, Some("bad")), Err(SignerClientError::Http("bad".to_string())));
    assert_eq!(ensure_code_ok(500, None), Err(SignerClientError::Http("unexpected response code".to_string())));
}

#[test]
fn sign_output_prefers_the_error() {
    assert_eq!(parse_sign_output(Some("tx".to_string()), None, "ctx"), Ok("tx".to_string()));
    assert_eq!(
        parse_sign_output(Some("tx".to_string()), Some("boom".to_string()), "ctx"),
        Err(SignerClientError::Signer("ctx: boom".to_string()))
    );
    assert_eq!(parse_sign_output(None, None, "ctx"), Err(SignerClientError::InvalidResponse));
}

#[test]
fn unix_timestamps_in_seconds_or_millis() {
    assert!(unix_timestamp_to_system_time(0).is_none());
    assert!(unix_timestamp_to_system_time(-5).is_none());
    let secs = unix_timestamp_to_system_time(1_700_000_000).unwrap();
    assert_eq!((secs.secs, secs.nanos), (1_700_000_000, 0));
    let millis = unix_timestamp_to_system_time(1_700_000_000_123).unwrap();
    assert_eq!((millis.secs, millis.nanos), (1_700_000_000, 123_000_000));
}

#[test]
fn api_key_map_fills_the_initial_key() {
    let map = prepare_api_key_map(3, 3, "abc", HashMap::new()).unwrap();
    assert_eq!(map.len(), 1);
    assert_eq!(map.get(&3).unwrap(), "abc");

    let mut provided = HashMap::new();
    provided.insert(4, "0xdef".to_string());
    let map = prepare_api_key_map(3, 4, "abc", provided).unwrap();
    assert_eq!(map.get(&3).unwrap(), "abc");
    assert_eq!(map.get(&4).unwrap(), "def");
}

#[test]
fn api_key_map_checks_the_initial_key() {
    let mut provided = HashMap::new();
    provided.insert(3, "0xabc".to_string());
    provided.insert(4, "def".to_string());
    let map = prepare_api_key_map(3, 4, "abc", provided.clone()).unwrap();
    assert_eq!(map.get(&3).unwrap(), "abc");
    assert_eq!(
        prepare_api_key_map(3, 4, "zzz", provided).unwrap_err(),
        SignerClientError::Signer("inconsistent private keys".to_string())
    );
}

#[test]
fn api_key_map_refuses_wrong_counts_and_gaps() {
    let mut three = HashMap::new();
    three.insert(1, "a".to_string());
    three.insert(2, "b".to_string());
    three.insert(3, "c".to_string());
    assert_eq!(
        prepare_api_key_map(0, 0, "k", three).unwrap_err(),
        SignerClientError::Signer("unexpected number of private keys provided".to_string())
    );
    let mut gap = HashMap::new();
    gap.insert(7, "a".to_string());
    assert_eq!(
        prepare_api_key_map(0, 1, "k", gap).unwrap_err(),
        SignerClientError::Signer("missing private key for api key 1".to_string())
    );
}

#[test]
fn chain_id_follows_the_network() {
    assert_eq!(chain_id_for_url("https://mainnet.zklighter.elliot.ai"), 304);
    assert_eq!(chain_id_for_url("https://testnet.zklighter.elliot.ai"), 300);
}

#[test]
fn auth_deadline_defaults_to_ten_minutes() {
    assert_eq!(auth_token_deadline(None, 1_000), 1_600);
    assert_eq!(auth_token_deadline(Some(-1), 1_000), 1_600);
    assert_eq!(auth_token_deadline(Some(5_000), 1_000), 5_000);
}

#[test]
fn invalid_nonce_messages_ignore_case() {
    assert!(is_invalid_nonce_message("Invalid Nonce for key 3"));
    assert!(is_invalid_nonce_message("error: INVALID NONCE"));
    assert!(!is_invalid_nonce_message("nonce invalid"));
    let hay: Vec<char> = "ABC".chars().collect();
    let needle: Vec<char> = "bc".chars().collect();
    assert!(contains_ignore_ascii_case(&hay, &needle));
}

#[test]
fn book_liquidity_is_taken_best_first() {
    let levels = vec![(100, 5), (101, 5), (102, 10)];
    assert_eq!(match_book_liquidity(&levels, 7), (100 * 5 + 101 * 2, 7));
    assert_eq!(match_book_liquidity(&levels, 30), (100 * 5 + 101 * 5 + 102 * 10, 20));
    assert_eq!(match_book_liquidity(&levels, 0), (0, 0));
}

#[test]
fn nonce_reservation_and_context() {
    assert!(needs_nonce_reservation(None, None, true));
    assert!(!needs_nonce_reservation(Some(1), Some(5), true));
    assert!(!needs_nonce_reservation(None, None, false));
    let ctx = signing_context(Some(1), Some(9), None, 0, 2).unwrap();
    assert_eq!((ctx.api_key_index, ctx.nonce, ctx.nonce_reserved), (1, 9, false));
    let ctx = signing_context(None, None, Some((2, 44)), 0, 2).unwrap();
    assert_eq!((ctx.api_key_index, ctx.nonce, ctx.nonce_reserved), (2, 44, true));
    assert!(signing_context(Some(5), Some(1), None, 0, 2).is_err());
    let follow = nonce_follow_up(&ctx, SendOutcome::InvalidNonce);
    assert!(follow.hard_refresh);
}

#[test]
fn signed_payload_parts() {
    let payload = SignedPayload::new(14, "{}".to_string(), 7u8);
    assert_eq!(payload.tx_type(), 14);
    assert_eq!(payload.payload(), "{}");
    assert_eq!(*payload.parsed(), 7);
    let entry = payload.as_batch_entry();
    assert_eq!(entry.tx_type(), 14);
    assert_eq!(entry.tx_info(), "{}");
    let (entry2, parsed) = payload.into_parts();
    assert_eq!((entry2.tx_type, entry2.tx_info.as_str()), (14, "{}"));
    let built = BatchEntry::new(15, "x".to_string());
    assert_eq!((built.tx_type(), built.tx_info()), (15, "x"));
    assert_eq!(parsed, 7);
}

#[test]
fn signer_library_names_per_platform() {
    assert_eq!(signer_library_filename("linux", "x86_64"), Ok("signer-amd64.so".to_string()));
    assert_eq!(signer_library_filename("macos", "aarch64"), Ok("signer-arm64.dylib".to_string()));
    assert_eq!(
        signer_library_filename("windows", "x86_64"),
        Err(SignerClientError::UnsupportedPlatform("windows/x86_64".to_string()))
    );
}

fn level(price: &str, remaining: &str) -> (String, String) {
    (price.to_string(), remaining.to_string())
}

#[test]
fn text_books_are_filled_best_first() {
    let levels = vec![level("1.00", "5"), level("1.01", "5"), level("1.02", "10")];
    assert_eq!(fill_from_book_text(&levels, 7), Ok((100 * 5 + 101 * 2, 7)));
    assert_eq!(
        fill_from_book_text(&levels, 30),
        Err(SignerClientError::Signer("Cannot be sure slippage will be acceptable due to the high size".to_string()))
    );
    // a level after the amount is covered is never read
    let tail = vec![level("100", "3"), level("oops", "1")];
    assert_eq!(fill_from_book_text(&tail, 3), Ok((300, 3)));
    assert_eq!(
        fill_from_book_text(&tail, 4),
        Err(SignerClientError::Signer("invalid numeric value oops: invalid digit found in string".to_string()))
    );
}

#[test]
fn text_books_with_negative_amounts_follow_the_fold() {
    let levels = vec![level("100", "-2"), level("101", "5")];
    assert_eq!(fill_from_book_text(&levels, 3), Ok((-200 + 505, 3)));
    assert_eq!(fill_from_book_text(&levels, 0), Ok((0, 0)));
    assert_eq!(fill_from_book_text(&levels, -4), Ok((0, 0)));
}

#[test]
fn signing_context_names_the_key_out_of_range() {
    assert_eq!(
        signing_context(Some(9), None, None, 0, 3),
        Err(SignerClientError::Signer("api key index 9 out of range".to_string()))
    );
}

#[test]
fn batch_entries_convert_from_payloads() {
    let payload = SignedPayload::new(14, "{\"a\":1}".to_string(), 3u8);
    let entry = BatchEntry::from(&payload);
    assert_eq!(entry.tx_type(), 14);
    assert_eq!(entry.tx_info(), "{\"a\":1}");
    assert_eq!(payload.payload(), "{\"a\":1}");
    assert_eq!(*payload.parsed(), 3u8);
}

#[test]
fn personal_messages_are_signed_with_the_key() {
    let key = "0x4c0883a69102937d6231471b5dbb6204fe5129617082792ae468d01a3f362318";
    let signature = sign_personal_message(key, "Some data").unwrap();
    assert_eq!(
        signature,
        "0xb91467e570a6466aa9e9876cbcd013baba02900b8979d43fe208a4a4f339f5fd6007e74cd82e037b800186422fc2da167c747ef045e5d18a5f5d4300f8e1a0291c"
    );
    // the prefix is optional, and signing is deterministic
    assert_eq!(sign_personal_message(&key[2..], "Some data").unwrap(), signature);
    assert_ne!(sign_personal_message(key, "Other data").unwrap(), signature);
    assert!(matches!(sign_personal_message("0x1234", "Some data"), Err(SignerClientError::Signing(_))));
    assert!(matches!(sign_personal_message("not hex", "Some data"), Err(SignerClientError::Signing(_))));
}
