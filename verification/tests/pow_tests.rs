use pow_server::canon::{canonicalize, find_substring};
use pow_server::digest::count_leading_zeroes;
use pow_server::event::{NostrEvent, PowError, PowRequest};
use pow_server::hexfmt::{hex_chars, hex_string};
use pow_server::pow::{perform_pow, search_nonce};
use sha2::{Digest, Sha256};

fn sample_event(tags: Vec<Vec<String>>, content: &str) -> NostrEvent {
    NostrEvent {
        created_at: 1000,
        kind: 1,
        tags,
        content: content.to_string(),
        pubkey: "abc".to_string(),
    }
}

#[test]
fn leading_zeroes_all_zero_digest() {
    let digest = [0u8; 32];
    assert_eq!(count_leading_zeroes(&digest), 256);
}

#[test]
fn leading_zeroes_top_bit_set() {
    let mut digest = [0u8; 32];
    digest[0] = 0x80;
    assert_eq!(count_leading_zeroes(&digest), 0);
}

#[test]
fn leading_zeroes_stops_at_first_nonzero_byte() {
    // 0x10 has three leading zero bits; the zero byte after it is not counted.
    let digest = [0x00, 0x10, 0x00, 0xff];
    assert_eq!(count_leading_zeroes(&digest), 8 + 3);
}

#[test]
fn leading_zeroes_within_bounds() {
    for b in [0u8, 1, 2, 0x0f, 0x7f, 0x80, 0xff] {
        let digest = [b; 32];
        let count = count_leading_zeroes(&digest);
        assert!(count <= 8 * 32);
    }
}

#[test]
fn hex_rendering_is_fixed_width_lowercase() {
    assert_eq!(hex_string(0, 16), "0000000000000000");
    assert_eq!(hex_string(255, 16), "00000000000000ff");
    assert_eq!(hex_string(0xdead_beef, 16), "00000000deadbeef");
    assert_eq!(hex_chars(255, 16).into_iter().collect::<String>(), "00000000000000ff");
}

#[test]
fn canonical_form_matches_expected_text() {
    let event = sample_event(vec![], "hi");
    let text: String = canonicalize(&event).into_iter().collect();
    assert_eq!(
        text,
        "{\"created_at\":1000,\"kind\":1,\"tags\":[],\"content\":\"hi\",\"pubkey\":\"abc\"}"
    );
}

#[test]
fn canonical_form_renders_large_integers() {
    let event = NostrEvent {
        created_at: u64::MAX,
        kind: u32::MAX,
        tags: vec![],
        content: String::new(),
        pubkey: String::new(),
    };
    let text: String = canonicalize(&event).into_iter().collect();
    assert_eq!(
        text,
        "{\"created_at\":18446744073709551615,\"kind\":4294967295,\"tags\":[],\"content\":\"\",\"pubkey\":\"\"}"
    );
}

#[test]
fn canonical_form_renders_empty_tag_entries() {
    let event = sample_event(vec![vec![], vec!["a".to_string()]], "x");
    let text: String = canonicalize(&event).into_iter().collect();
    assert_eq!(
        text,
        "{\"created_at\":1000,\"kind\":1,\"tags\":[[],[\"a\"]],\"content\":\"x\",\"pubkey\":\"abc\"}"
    );
}

#[test]
fn canonical_form_escapes_strings() {
    let event = sample_event(
        vec![vec!["e".to_string(), "x\"y\\z".to_string()]],
        "a\nb\tc\u{1}d",
    );
    let text: String = canonicalize(&event).into_iter().collect();
    assert_eq!(
        text,
        "{\"created_at\":1000,\"kind\":1,\"tags\":[[\"e\",\"x\\\"y\\\\z\"]],\"content\":\"a\\nb\\tc\\u0001d\",\"pubkey\":\"abc\"}"
    );
}

#[test]
fn placeholder_found_exactly_once_and_round_trips() {
    let mut event = sample_event(vec![vec!["p".to_string(), "q".to_string()]], "hello");
    event.tags.push(vec!["nonce".to_string(), "0000000000000000".to_string()]);
    let serialized = canonicalize(&event);
    let text: String = serialized.iter().collect();

    let pattern: Vec<char> = "\"nonce\",\"0000000000000000\"".chars().collect();
    let pos = find_substring(&serialized, &pattern).expect("pattern must be present");
    assert_eq!(text.matches("\"nonce\",\"0000000000000000\"").count(), 1);

    // Splicing the placeholder back into the located window reproduces the
    // serialization byte for byte.
    let value_pos = pos + 9;
    let respliced: String = text
        .chars()
        .take(value_pos)
        .chain("0000000000000000".chars())
        .chain(text.chars().skip(value_pos + 16))
        .collect();
    assert_eq!(respliced, text);
}

#[test]
fn find_substring_returns_first_occurrence() {
    let text: Vec<char> = "abcabc".chars().collect();
    let pat: Vec<char> = "bc".chars().collect();
    assert_eq!(find_substring(&text, &pat), Some(1));
    let missing: Vec<char> = "xy".chars().collect();
    assert_eq!(find_substring(&text, &missing), None);
}

#[test]
fn search_target_zero_wins_on_first_candidate() {
    let prefix: Vec<char> = "prefix".chars().collect();
    let suffix: Vec<char> = "suffix".chars().collect();
    let (nonce, pow) = search_nonce(&prefix, &suffix, 0, u64::MAX).expect("target 0 must succeed");
    assert_eq!(nonce, 0);
    let spliced = "prefix0000000000000000suffix";
    let digest = Sha256::digest(spliced.as_bytes());
    assert_eq!(pow, count_leading_zeroes(&digest));
}

#[test]
fn search_exhausts_tiny_counter_space() {
    let prefix: Vec<char> = "p".chars().collect();
    let suffix: Vec<char> = "s".chars().collect();
    // 257 leading zero bits can never be achieved by a 256-bit digest, so a
    // tiny counter bound must exhaust without a false success.
    let result = search_nonce(&prefix, &suffix, 257, 8);
    assert_eq!(result, Err(PowError::SearchExhausted));
}

#[test]
fn search_with_empty_counter_space_exhausts_at_once() {
    let prefix: Vec<char> = "p".chars().collect();
    let suffix: Vec<char> = "s".chars().collect();
    assert_eq!(search_nonce(&prefix, &suffix, 1, 0), Err(PowError::SearchExhausted));
}

#[test]
fn perform_pow_appends_nonce_tag_and_reports_difficulty() {
    let request = PowRequest { event: sample_event(vec![], "hi"), target_pow: 0 };
    let response = perform_pow(request).expect("target 0 must succeed");
    assert_eq!(response.event.created_at, 1000);
    assert_eq!(response.event.kind, 1);
    assert_eq!(response.event.content, "hi");
    assert_eq!(response.event.pubkey, "abc");
    assert_eq!(
        response.event.tags,
        vec![vec!["nonce".to_string(), "0000000000000000".to_string()]]
    );
    // The reported difficulty is the real leading-zero count of the real
    // SHA-256 digest of the canonical serialization.
    let spliced =
        "{\"created_at\":1000,\"kind\":1,\"tags\":[[\"nonce\",\"0000000000000000\"]],\"content\":\"hi\",\"pubkey\":\"abc\"}";
    let digest = Sha256::digest(spliced.as_bytes());
    assert_eq!(response.pow, count_leading_zeroes(&digest));
}

#[test]
fn perform_pow_searches_until_target_met() {
    let request = PowRequest { event: sample_event(vec![], "work"), target_pow: 12 };
    let response = perform_pow(request).expect("difficulty 12 is quickly reachable");
    assert!(response.pow >= 12);
    assert_eq!(response.event.tags.len(), 1);
    let tag = &response.event.tags[0];
    assert_eq!(tag[0], "nonce");
    assert_eq!(tag[1].len(), 16);
    // The returned record re-serializes to a text whose digest really has
    // the claimed difficulty.
    let text: String = canonicalize(&response.event).into_iter().collect();
    let digest = Sha256::digest(text.as_bytes());
    assert_eq!(response.pow, count_leading_zeroes(&digest));
}

#[test]
fn error_descriptions_are_stable() {
    assert_eq!(
        PowError::FieldNotFound.describe(),
        "nonce placeholder not found in the serialized event"
    );
    assert_eq!(PowError::SearchExhausted.describe(), "nonce space exhausted");
}
