use named_colors::colors::add_color;
use named_colors::colors::get_color_by_name;
use named_colors::colors::load_colors;
use named_colors::colors::load_colors_from_file;
use named_colors::colors::BUNDLED_COLORS_JSON;
use named_colors::errors::NamedColorsError;
use named_colors::resolver::initial_state;
use named_colors::resolver::is_fresh;
use named_colors::resolver::resolve_step;
use named_colors::resolver::ResolveEvent;
use named_colors::resolver::ResolveState;
use named_colors::resolver::TableSource;
use named_colors::resolver::DEFAULT_TTL_SECONDS;

#[test]
fn bundled_asset_round_trip_contains_red() {
    let color_map = load_colors().expect("the bundled asset must parse");
    assert_eq!(get_color_by_name(&color_map, "red"), Some((255, 0, 0)));
}

#[test]
fn user_string_then_uppercase_lookup() {
    let table = load_colors_from_file("{\"blue\": {\"r\":0,\"g\":0,\"b\":255}}").unwrap();
    assert_eq!(get_color_by_name(&table, "BLUE"), Some((0, 0, 255)));
}

#[test]
fn malformed_input_is_a_parse_error() {
    let result = load_colors_from_file("this is not a color table");
    assert!(matches!(
        result,
        Err(NamedColorsError::ParseError { offset: 0 })
    ));
}

#[test]
fn parse_error_carries_the_failing_offset() {
    // The opening brace is fine; the failure is at the unquoted name.
    let result = load_colors_from_file("{red: {\"r\":1,\"g\":2,\"b\":3}}");
    assert!(matches!(
        result,
        Err(NamedColorsError::ParseError { offset: 1 })
    ));
}

#[test]
fn parse_error_message() {
    let err = load_colors_from_file("nonsense").unwrap_err();
    assert_eq!(err.message(), "Parse error: malformed color table");
}

#[test]
fn empty_object_is_an_empty_table() {
    let table = load_colors_from_file("  { }  ").unwrap();
    assert_eq!(get_color_by_name(&table, "red"), None);
}

#[test]
fn trailing_text_is_rejected() {
    assert!(load_colors_from_file("{} trailing").is_err());
}

#[test]
fn channel_over_255_is_rejected() {
    assert!(load_colors_from_file("{\"a\": {\"r\":256,\"g\":0,\"b\":0}}").is_err());
}

#[test]
fn leading_zero_is_rejected() {
    assert!(load_colors_from_file("{\"a\": {\"r\":01,\"g\":0,\"b\":0}}").is_err());
}

#[test]
fn missing_channel_is_rejected() {
    assert!(load_colors_from_file("{\"a\": {\"r\":1,\"g\":2}}").is_err());
}

#[test]
fn repeated_channel_is_rejected() {
    assert!(load_colors_from_file("{\"a\": {\"r\":1,\"r\":2,\"b\":3}}").is_err());
}

#[test]
fn channel_order_is_free() {
    let table = load_colors_from_file("{\"a\": {\"b\":3,\"g\":2,\"r\":1}}").unwrap();
    assert_eq!(get_color_by_name(&table, "a"), Some((1, 2, 3)));
}

#[test]
fn parsed_names_are_normalized_to_lowercase() {
    let table = load_colors_from_file("{\"Blue\": {\"r\":0,\"g\":0,\"b\":255}}").unwrap();
    assert_eq!(get_color_by_name(&table, "blue"), Some((0, 0, 255)));
    assert_eq!(get_color_by_name(&table, "BLUE"), Some((0, 0, 255)));
}

#[test]
fn later_entry_overrides_earlier() {
    let table = load_colors_from_file(
        "{\"x\": {\"r\":1,\"g\":1,\"b\":1}, \"X\": {\"r\":2,\"g\":2,\"b\":2}}",
    )
    .unwrap();
    assert_eq!(get_color_by_name(&table, "x"), Some((2, 2, 2)));
}

#[test]
fn duplicate_add_leaves_entry_unchanged() {
    let mut table = load_colors_from_file("{\"teal\": {\"r\":0,\"g\":128,\"b\":128}}").unwrap();
    let result = add_color(&mut table, "TEAL", 9, 9, 9);
    assert!(matches!(
        &result,
        Err(NamedColorsError::DuplicateEntryError { name }) if name == "teal"
    ));
    assert_eq!(get_color_by_name(&table, "teal"), Some((0, 128, 128)));
}

#[test]
fn io_error_message() {
    let err = NamedColorsError::IOError {
        detail: String::from("cache unavailable"),
    };
    assert_eq!(err.message(), "I/O error: cache unavailable");
}

#[test]
fn freshness_boundaries() {
    assert!(is_fresh(86399, 0, DEFAULT_TTL_SECONDS));
    assert!(!is_fresh(86400, 0, DEFAULT_TTL_SECONDS)); // exactly the TTL old: stale
    assert!(is_fresh(0, 100, DEFAULT_TTL_SECONDS)); // a future timestamp counts fresh
}

#[test]
fn bundled_source_resolves_at_once() {
    let state = initial_state(TableSource::Bundled);
    assert!(matches!(state, ResolveState::Done { json } if json == BUNDLED_COLORS_JSON));
}

#[test]
fn user_source_resolves_to_its_text() {
    let state = initial_state(TableSource::UserProvided {
        json: String::from("{}"),
    });
    assert!(matches!(state, ResolveState::Done { json } if json == "{}"));
}

#[test]
fn fresh_cache_is_read_not_fetched() {
    let state = initial_state(TableSource::RemoteCached {
        url: String::from("https://example.org/colors.json"),
        cache_path: String::from("cache/colors.json"),
        ttl_seconds: DEFAULT_TTL_SECONDS,
    });
    assert!(matches!(state, ResolveState::CheckCache));

    // Written 100 seconds ago: fresh, so the next action is a cache read,
    // not a fetch.
    let state = resolve_step(
        state,
        DEFAULT_TTL_SECONDS,
        ResolveEvent::CacheChecked {
            found: true,
            modified_secs: 5000,
            now_secs: 5100,
        },
    );
    assert!(matches!(state, ResolveState::ReadCache));

    let state = resolve_step(
        state,
        DEFAULT_TTL_SECONDS,
        ResolveEvent::CacheReadOk {
            json: String::from("{}"),
        },
    );
    assert!(matches!(state, ResolveState::Done { json } if json == "{}"));
}

#[test]
fn stale_cache_is_fetched_then_rewritten() {
    // Written more than 24 hours ago: stale, so the resolver fetches and
    // then overwrites the cache file.
    let state = resolve_step(
        ResolveState::CheckCache,
        DEFAULT_TTL_SECONDS,
        ResolveEvent::CacheChecked {
            found: true,
            modified_secs: 0,
            now_secs: 90000,
        },
    );
    assert!(matches!(state, ResolveState::Fetch));

    let state = resolve_step(
        state,
        DEFAULT_TTL_SECONDS,
        ResolveEvent::FetchOk {
            json: String::from("{}"),
        },
    );
    assert!(matches!(&state, ResolveState::WriteCache { json } if json == "{}"));

    let state = resolve_step(state, DEFAULT_TTL_SECONDS, ResolveEvent::CacheWriteOk);
    assert!(matches!(state, ResolveState::Done { json } if json == "{}"));
}

#[test]
fn absent_cache_is_fetched() {
    let state = resolve_step(
        ResolveState::CheckCache,
        DEFAULT_TTL_SECONDS,
        ResolveEvent::CacheChecked {
            found: false,
            modified_secs: 0,
            now_secs: 0,
        },
    );
    assert!(matches!(state, ResolveState::Fetch));
}

#[test]
fn failed_cache_read_falls_back_to_fetch() {
    let state = resolve_step(
        ResolveState::ReadCache,
        DEFAULT_TTL_SECONDS,
        ResolveEvent::CacheReadErr,
    );
    assert!(matches!(state, ResolveState::Fetch));
}

#[test]
fn failed_cache_write_still_returns_the_fetched_text() {
    let state = resolve_step(
        ResolveState::WriteCache {
            json: String::from("{}"),
        },
        DEFAULT_TTL_SECONDS,
        ResolveEvent::CacheWriteErr,
    );
    assert!(matches!(state, ResolveState::Done { json } if json == "{}"));
}

#[test]
fn failed_fetch_is_a_fetch_error() {
    let state = resolve_step(
        ResolveState::Fetch,
        DEFAULT_TTL_SECONDS,
        ResolveEvent::FetchErr {
            detail: String::from("connection refused"),
        },
    );
    match state {
        ResolveState::Failed { error } => {
            assert!(matches!(&error, NamedColorsError::FetchError { .. }));
            assert_eq!(error.message(), "Fetch error: connection refused");
        }
        _ => panic!("expected a failed resolution"),
    }
}

#[test]
fn mismatched_event_leaves_the_state_unchanged() {
    let state = resolve_step(
        ResolveState::Fetch,
        DEFAULT_TTL_SECONDS,
        ResolveEvent::CacheWriteOk,
    );
    assert!(matches!(state, ResolveState::Fetch));
}

#[test]
fn resolved_text_feeds_the_parser() {
    let state = initial_state(TableSource::Bundled);
    let table = match state {
        ResolveState::Done { json } => load_colors_from_file(&json).unwrap(),
        _ => panic!("bundled resolution cannot fail"),
    };
    assert_eq!(get_color_by_name(&table, "emerald"), Some((80, 200, 120)));
}
