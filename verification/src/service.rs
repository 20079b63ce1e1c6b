//! The premium service: validates a quote request, derives age and risk
//! score, builds the rate key and resolves the premium from the store,
//! together with the administrative existence probe and clear operations.

use vstd::prelude::*;

use crate::age::spec_age;
use crate::errors::PremiumError;
use crate::rate_key::{build_rate_key, rate_key_spec};
use crate::score::{calculate_score, spec_score};
use crate::store::{range_spec, RateMap, RateStore};

verus! {

/// A quote request: a product code, an insured sum used verbatim in the
/// rate key, and a date of birth in `YYYY-MM-DD` form.
#[derive(Debug)]
pub struct HealthRequest {
    pub code: String,
    pub sum_insured: String,
    pub date_of_birth: String,
}

/// A resolved quote: the premium looked up for the request.
#[derive(Debug)]
pub struct HealthResponse {
    pub premium: String,
}

impl From<String> for HealthResponse {
    /// Wraps a premium value in a response.
    fn from(value: String) -> (r: Self) {
        HealthResponse { premium: value }
    }
}

impl vstd::std_specs::convert::FromSpecImpl<String> for HealthResponse {
    open spec fn obeys_from_spec() -> bool {
        true
    }

    open spec fn from_spec(value: String) -> Self {
        HealthResponse { premium: value }
    }
}

/// Character-for-character string comparison.
fn str_eq(a: &str, b: &str) -> (r: bool)
    ensures
        r == (a@ == b@),
{
    let n = a.unicode_len();
    if n != b.unicode_len() {
        return false;
    }
    let mut i: usize = 0;
    while i < n
        invariant
            i <= n,
            n == a@.len(),
            n == b@.len(),
            forall|j: int| 0 <= j < i ==> a@[j] == b@[j],
        decreases n - i,
    {
        if a.get_char(i) != b.get_char(i) {
            return false;
        }
        i = i + 1;
    }
    proof {
        assert(a@ =~= b@);
    }
    true
}

/// Validates that the inbound request declared a JSON payload: the
/// Content-Type header must be present and equal to application/json, or
/// the request fails naming the offending header.
pub fn validate_headers(content_type: Option<&str>) -> (r: Result<(), PremiumError>)
    ensures
        match r {
            Ok(_) => content_type matches Some(ct) && ct@ == "application/json"@,
            Err(e) => !(content_type matches Some(ct) && ct@ == "application/json"@) && (
            e matches PremiumError::InvalidHeader(h) && h@ == "content-type"@),
        },
{
    match content_type {
        Some(ct) => {
            if str_eq(ct, "application/json") {
                Ok(())
            } else {
                Err(PremiumError::InvalidHeader(String::from_str("content-type")))
            }
        },
        None => Err(PremiumError::InvalidHeader(String::from_str("content-type"))),
    }
}

/// Resolves the matches a store query returned: exactly one match yields
/// its member as the premium; zero matches (no rate published for the key
/// and score) or several (the one-entry-per-score invariant violated in
/// the store's data) fail as a risk-calculation error.
pub fn resolve_matches(values: &Vec<String>) -> (r: Result<String, PremiumError>)
    ensures
        match r {
            Ok(premium) => values@.len() == 1 && premium@ == values@[0]@,
            Err(e) => values@.len() != 1 && e == PremiumError::RiskCalculation,
        },
{
    if values.len() != 1 {
        Err(PremiumError::RiskCalculation)
    } else {
        Ok(values[0].clone())
    }
}

/// The existence probe's decision on an enumeration of the store's keys:
/// any key at all counts as data present.
pub fn any_keys(keys: &Vec<String>) -> (r: bool)
    ensures
        r <==> keys@.len() > 0,
{
    keys.len() > 0
}

/// The (rate key, risk score) pair a request resolves to on a given
/// current year and day of month.
pub open spec fn quote_key(input: HealthRequest, now_year: int, now_day: int) -> (Seq<char>, int) {
    (
        rate_key_spec(input.code@, input.sum_insured@),
        spec_score(spec_age(input.date_of_birth@, now_year, now_day)),
    )
}

/// Quotes a premium on an explicitly given current year and day of month:
/// derives the age and its risk score, builds the rate key, and queries
/// the store for that exact score. The premium is returned exactly when
/// the store holds an entry for the key and score; otherwise the quote
/// fails as a risk-calculation error. An unparsable date of birth is not
/// an error here: it yields age 0, score 0, and so a lookup that finds no
/// entry.
pub fn calculate_premium_on(
    store: &RateStore,
    input: HealthRequest,
    now_year: i32,
    now_day: u32,
) -> (r: Result<String, PremiumError>)
    requires
        store.wf(),
        now_year - 10001 >= i32::MIN,
    ensures
        match r {
            Ok(premium) => store@.contains_key(quote_key(input, now_year as int, now_day as int))
                && premium@ == store@[quote_key(input, now_year as int, now_day as int)],
            Err(e) => !store@.contains_key(quote_key(input, now_year as int, now_day as int)) && e
                == PremiumError::RiskCalculation,
        },
{
    let age = crate::age::calculate_age_on(&input.date_of_birth, now_year, now_day);
    let score = calculate_score(age);
    let key = build_rate_key(&input.code, &input.sum_insured);
    let values = store.range_by_score(&key, score, score);
    let ghost k = quote_key(input, now_year as int, now_day as int);
    proof {
        assert(range_spec(store@, key@, score as int, score - 1) == Seq::<Seq<char>>::empty());
        assert(values.deep_view() == range_spec(store@, key@, score as int, score as int));
        if store@.contains_key(k) {
            assert(values.deep_view() =~= seq![store@[k]]);
        } else {
            assert(values.deep_view() =~= Seq::<Seq<char>>::empty());
        }
        assert(values@.len() == values.deep_view().len());
        assert(values@.len() == 1 ==> values@[0]@ == values.deep_view()[0]);
    }
    resolve_matches(&values)
}

/// Quotes a premium against today's date: the age derivation reads the
/// clock, and the lookup then resolves exactly as the dated variant does
/// for whatever year and day the clock gave.
pub fn calculate_premium(store: &RateStore, input: HealthRequest) -> (r: Result<
    String,
    PremiumError,
>)
    requires
        store.wf(),
    ensures
        exists|y: int, d: int|
            #![trigger quote_key(input, y, d)]
            -262143 <= y <= 262142 && 1 <= d <= 31 && (match r {
                Ok(premium) => store@.contains_key(quote_key(input, y, d)) && premium@ == store@[
                    quote_key(input, y, d)
                ],
                Err(e) => !store@.contains_key(quote_key(input, y, d)) && e
                    == PremiumError::RiskCalculation,
            }),
{
    let (y, d) = crate::age::today_year_day();
    let r = calculate_premium_on(store, input, y, d);
    proof {
        assert(-262143 <= y as int <= 262142 && 1 <= d as int <= 31 && (match r {
            Ok(premium) => store@.contains_key(quote_key(input, y as int, d as int)) && premium@
                == store@[quote_key(input, y as int, d as int)],
            Err(e) => !store@.contains_key(quote_key(input, y as int, d as int)) && e
                == PremiumError::RiskCalculation,
        }));
    }
    r
}

/// Reports whether the store currently holds any rate data at all.
pub fn keys_exists(store: &RateStore) -> (r: bool)
    requires
        store.wf(),
    ensures
        r <==> (exists|k: (Seq<char>, int)| store@.contains_key(k)),
{
    store.has_keys()
}

/// Destroys every entry in the store and reports success.
pub fn unload(store: &mut RateStore) -> (r: bool)
    requires
        old(store).wf(),
    ensures
        r == true,
        final(store).wf(),
        final(store)@ == RateMap::empty(),
{
    store.clear();
    true
}

/// The round trip from a loaded matrix to a quote: after a successful
/// load of the whole matrix, a request for a row's product code and
/// insured sum, whose date of birth yields an age scoring the row's
/// 1-based ordinal, finds exactly that row's premium under its quote key,
/// and so resolves to that premium.
pub proof fn lemma_quote_after_load(
    m0: RateMap,
    rows: Seq<Seq<Seq<char>>>,
    i: int,
    input: HealthRequest,
    y: int,
    d: int,
)
    requires
        crate::loader::rows_ok(rows),
        0 <= i < rows.len(),
        input.code@ == rows[i][0],
        input.sum_insured@ == rows[i][1],
        spec_score(spec_age(input.date_of_birth@, y, d)) == i + 1,
    ensures
        crate::loader::load_map(m0, rows, rows.len() as int).contains_key(quote_key(input, y, d)),
        crate::loader::load_map(m0, rows, rows.len() as int)[quote_key(input, y, d)] == rows[i][3],
{
    crate::loader::lemma_load_map_row(m0, rows, i, rows.len() as int);
}

/// An empty store holds no key: a clear followed by an existence probe
/// reports no keys present.
pub proof fn lemma_unload_then_checks()
    ensures
        !(exists|k: (Seq<char>, int)| RateMap::empty().contains_key(k)),
{
}

} // verus!
