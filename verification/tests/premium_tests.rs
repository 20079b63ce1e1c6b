use premium::age::{calculate_age, calculate_age_on};
use premium::errors::{error_response, PremiumError};
use premium::loader::load;
use premium::numbers::parse_i32;
use premium::rate_key::build_rate_key;
use premium::score::calculate_score;
use premium::service::{
    calculate_premium_on, keys_exists, resolve_matches, unload, validate_headers, HealthRequest,
    HealthResponse,
};
use premium::store::RateStore;

fn matrix(rows: &[[&str; 4]]) -> Vec<Vec<String>> {
    rows.iter().map(|r| r.iter().map(|c| c.to_string()).collect()).collect()
}

fn request(code: &str, sum_insured: &str, date_of_birth: &str) -> HealthRequest {
    HealthRequest {
        code: code.to_string(),
        sum_insured: sum_insured.to_string(),
        date_of_birth: date_of_birth.to_string(),
    }
}

#[test]
fn test_calculate_age() {
    let dob_str = String::from("1977-09-14");
    let age = calculate_age_on(&dob_str, 2023, 14);
    assert_eq!(age, 46, "want value 45 got {}", age);
}

#[test]
fn test_my_function() {
    // The same date of birth a day before the birthday: one year less.
    let dob_str = String::from("1977-09-14");
    let result = calculate_age_on(&dob_str, 2023, 13);
    assert_eq!(result, 45);
}

#[test]
fn test_calculate_premium() {
    let mut store = RateStore::new();
    store.bulk_insert("1A:100000".to_string(), 3, "750".to_string());
    let request = request("1A", "100000", "1977-09-14");
    let premium = calculate_premium_on(&store, request, 2023, 14);
    assert!(premium.is_ok());
    assert_eq!(premium.unwrap(), "750".to_string());
}

#[test]
fn test_key_exists() {
    let mut store = RateStore::new();
    let result = load(&mut store, &matrix(&[["1A", "100000", "ignored", "750"]]));
    assert!(result.is_ok());
    assert_eq!(keys_exists(&store), true);
}

#[test]
fn test_load() {
    let mut store = RateStore::new();
    let rows = matrix(&[
        ["1A", "100000", "ignored", "500"],
        ["1A", "100000", "ignored", "650"],
        ["1A", "100000", "ignored", "750"],
    ]);
    let result = load(&mut store, &rows);
    assert!(result.is_ok());
    assert_eq!(result.unwrap(), true);
}

#[test]
fn test_unload() {
    let mut store = RateStore::new();
    store.bulk_insert("1A:100000".to_string(), 1, "750".to_string());
    let result = unload(&mut store);
    assert_eq!(result, true);
    assert_eq!(keys_exists(&store), false);
}

#[test]
fn score_band_boundaries() {
    assert_eq!(calculate_score(17), 0);
    assert_eq!(calculate_score(18), 1);
    assert_eq!(calculate_score(35), 1);
    assert_eq!(calculate_score(36), 2);
    assert_eq!(calculate_score(45), 2);
    assert_eq!(calculate_score(46), 3);
    assert_eq!(calculate_score(55), 3);
    assert_eq!(calculate_score(56), 4);
    assert_eq!(calculate_score(60), 4);
    assert_eq!(calculate_score(61), 5);
    assert_eq!(calculate_score(65), 5);
    assert_eq!(calculate_score(66), 6);
    assert_eq!(calculate_score(70), 6);
    assert_eq!(calculate_score(71), 7);
    assert_eq!(calculate_score(1000), 7);
    assert_eq!(calculate_score(0), 0);
    assert_eq!(calculate_score(-5), 0);
}

#[test]
fn age_well_formed_dates() {
    assert_eq!(calculate_age_on(&"2000-01-10".to_string(), 2024, 15), 24);
    // Only the day of month is compared, never the month.
    assert_eq!(calculate_age_on(&"2000-12-20".to_string(), 2024, 15), 23);
    assert_eq!(calculate_age_on(&"2000-12-20".to_string(), 2024, 20), 24);
    // A leap day parses in a leap year.
    assert_eq!(calculate_age_on(&"2000-02-29".to_string(), 2024, 29), 24);
}

#[test]
fn age_malformed_dates_yield_zero() {
    assert_eq!(calculate_age_on(&"".to_string(), 2024, 15), 0);
    assert_eq!(calculate_age_on(&"not-a-date".to_string(), 2024, 15), 0);
    assert_eq!(calculate_age_on(&"1977/09/14".to_string(), 2024, 15), 0);
    assert_eq!(calculate_age_on(&"1977-9-14".to_string(), 2024, 15), 0);
    assert_eq!(calculate_age_on(&"1977-13-14".to_string(), 2024, 15), 0);
    assert_eq!(calculate_age_on(&"1977-00-14".to_string(), 2024, 15), 0);
    assert_eq!(calculate_age_on(&"1977-09-31".to_string(), 2024, 15), 0);
    assert_eq!(calculate_age_on(&"1900-02-29".to_string(), 2024, 15), 0);
    assert_eq!(calculate_age_on(&"1977-09-14x".to_string(), 2024, 15), 0);
}

#[test]
fn age_against_the_clock() {
    // Whatever today is, someone born in 1977 is past the first band.
    let age = calculate_age(&"1977-09-14".to_string());
    assert!(age >= 18);
    assert_eq!(calculate_age(&"bad".to_string()), 0);
}

#[test]
fn parse_i32_values() {
    assert_eq!(parse_i32("750"), Some(750));
    assert_eq!(parse_i32("0750"), Some(750));
    assert_eq!(parse_i32("+5"), Some(5));
    assert_eq!(parse_i32("-42"), Some(-42));
    assert_eq!(parse_i32("0"), Some(0));
    assert_eq!(parse_i32("2147483647"), Some(i32::MAX));
    assert_eq!(parse_i32("-2147483648"), Some(i32::MIN));
    assert_eq!(parse_i32("2147483648"), None);
    assert_eq!(parse_i32("-2147483649"), None);
    assert_eq!(parse_i32(""), None);
    assert_eq!(parse_i32("-"), None);
    assert_eq!(parse_i32("+"), None);
    assert_eq!(parse_i32("7a"), None);
    assert_eq!(parse_i32(" 7"), None);
}

#[test]
fn rate_key_joins_with_colon() {
    let key = build_rate_key(&"1A".to_string(), &"100000".to_string());
    assert_eq!(key, "1A:100000");
}

#[test]
fn header_validation() {
    assert!(validate_headers(Some("application/json")).is_ok());
    assert!(validate_headers(Some("text/plain")).is_err());
    assert!(validate_headers(None).is_err());
}

#[test]
fn quote_with_wrong_content_type_gives_code_001() {
    let err = validate_headers(Some("text/plain")).unwrap_err();
    let body = error_response(&err);
    assert_eq!(body.code, "001");
    assert_eq!(body.message, "Header content-type not provided or invalid");
}

#[test]
fn error_codes_and_messages() {
    let internal = error_response(&PremiumError::InternalServer);
    assert_eq!(internal.code, "003");
    assert_eq!(internal.message, "Internal server error");
    let input = error_response(&PremiumError::InvalidInput);
    assert_eq!(input.code, "002");
    assert_eq!(input.message, "Invalid request");
    let risk = error_response(&PremiumError::RiskCalculation);
    assert_eq!(risk.code, "004");
    assert_eq!(risk.message, "Cannot calculate risk for input");
}

#[test]
fn quote_for_loaded_first_row() {
    let mut store = RateStore::new();
    let result = load(&mut store, &matrix(&[["1A", "100000", "ignored", "750"]]));
    assert!(result.is_ok());
    // A date of birth whose age falls in the first band, 18 to 35.
    let premium = calculate_premium_on(&store, request("1A", "100000", "2000-01-10"), 2024, 15);
    assert_eq!(premium.unwrap(), "750");
}

#[test]
fn quote_without_loaded_entry_gives_code_004() {
    let store = RateStore::new();
    let premium = calculate_premium_on(&store, request("1A", "100000", "2000-01-10"), 2024, 15);
    let err = premium.unwrap_err();
    assert!(matches!(err, PremiumError::RiskCalculation));
    assert_eq!(error_response(&err).code, "004");
}

#[test]
fn round_trip_every_row() {
    let mut store = RateStore::new();
    let rows = matrix(&[
        ["1A", "100000", "ignored", "500"],
        ["1A", "100000", "ignored", "650"],
        ["2B", "200000", "ignored", "900"],
    ]);
    assert!(load(&mut store, &rows).is_ok());
    // Ages 24, 40 and 50 score 1, 2 and 3: the rows' ordinals.
    let q1 = calculate_premium_on(&store, request("1A", "100000", "2000-01-10"), 2024, 15);
    assert_eq!(q1.unwrap(), "500");
    let q2 = calculate_premium_on(&store, request("1A", "100000", "1984-01-10"), 2024, 15);
    assert_eq!(q2.unwrap(), "650");
    let q3 = calculate_premium_on(&store, request("2B", "200000", "1974-01-10"), 2024, 15);
    assert_eq!(q3.unwrap(), "900");
}

#[test]
fn reload_same_matrix_keeps_quotes() {
    let mut store = RateStore::new();
    let rows = matrix(&[
        ["1A", "100000", "ignored", "500"],
        ["1A", "100000", "ignored", "650"],
    ]);
    assert!(load(&mut store, &rows).is_ok());
    assert!(load(&mut store, &rows).is_ok());
    let q1 = calculate_premium_on(&store, request("1A", "100000", "2000-01-10"), 2024, 15);
    assert_eq!(q1.unwrap(), "500");
    let q2 = calculate_premium_on(&store, request("1A", "100000", "1984-01-10"), 2024, 15);
    assert_eq!(q2.unwrap(), "650");
}

#[test]
fn unload_then_checks_reports_nothing() {
    let mut store = RateStore::new();
    assert!(load(&mut store, &matrix(&[["1A", "100000", "ignored", "750"]])).is_ok());
    assert!(keys_exists(&store));
    assert!(unload(&mut store));
    assert!(!keys_exists(&store));
}

#[test]
fn load_aborts_on_first_bad_premium() {
    let mut store = RateStore::new();
    let rows = matrix(&[
        ["1A", "100000", "ignored", "500"],
        ["1A", "100000", "ignored", "not-a-number"],
        ["2B", "200000", "ignored", "900"],
    ]);
    let result = load(&mut store, &rows);
    assert!(matches!(result, Err(PremiumError::InternalServer)));
    // The row before the bad one stays in the store; the one after never
    // arrived.
    let q1 = calculate_premium_on(&store, request("1A", "100000", "2000-01-10"), 2024, 15);
    assert_eq!(q1.unwrap(), "500");
    let q3 = calculate_premium_on(&store, request("2B", "200000", "1974-01-10"), 2024, 15);
    assert!(q3.is_err());
}

#[test]
fn range_query_orders_by_score() {
    let mut store = RateStore::new();
    store.bulk_insert("1A:100000".to_string(), 3, "750".to_string());
    store.bulk_insert("1A:100000".to_string(), 1, "500".to_string());
    store.bulk_insert("2B:200000".to_string(), 2, "999".to_string());
    let members = store.range_by_score(&"1A:100000".to_string(), 1, 7);
    assert_eq!(members, vec!["500".to_string(), "750".to_string()]);
}

#[test]
fn response_wraps_premium() {
    let response = HealthResponse::from("750".to_string());
    assert_eq!(response.premium, "750");
}

#[test]
fn resolve_matches_needs_exactly_one() {
    assert_eq!(resolve_matches(&vec!["750".to_string()]).unwrap(), "750");
    assert!(resolve_matches(&Vec::new()).is_err());
    assert!(resolve_matches(&vec!["750".to_string(), "800".to_string()]).is_err());
}

#[test]
fn bulk_insert_overwrites() {
    let mut store = RateStore::new();
    store.bulk_insert("1A:100000".to_string(), 1, "500".to_string());
    store.bulk_insert("1A:100000".to_string(), 1, "550".to_string());
    let members = store.range_by_score(&"1A:100000".to_string(), 1, 1);
    assert_eq!(members, vec!["550".to_string()]);
}
