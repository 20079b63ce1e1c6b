//! The rate loader: populates the store from a tabular rate matrix. Each
//! row holds the product code, the insured-sum band, an ignored column and
//! the premium; the row's 1-based ordinal position is its risk score. The
//! premium must parse as a 32-bit integer; the first row whose premium
//! does not parse aborts the load, leaving the rows before it in place.

use vstd::prelude::*;

use crate::errors::PremiumError;
use crate::numbers::{is_i32_string, parse_i32};
use crate::rate_key::{build_rate_key, rate_key_spec};
use crate::store::{RateEntry, RateMap, RateStore};

verus! {

/// Whether a matrix row can be loaded: it reaches the premium column and
/// the premium parses as a 32-bit integer.
pub open spec fn row_ok(row: Seq<Seq<char>>) -> bool {
    &&& row.len() >= 4
    &&& is_i32_string(row[3])
}

/// Whether every row of a matrix can be loaded.
pub open spec fn rows_ok(rows: Seq<Seq<Seq<char>>>) -> bool {
    forall|i: int| 0 <= i < rows.len() ==> row_ok(rows[i])
}

/// The map key a row is filed under: its rate key and its 1-based ordinal.
pub open spec fn row_map_key(row: Seq<Seq<char>>, ordinal: int) -> (Seq<char>, int) {
    (rate_key_spec(row[0], row[1]), ordinal)
}

/// The store contents after loading the first `n` rows of a matrix onto
/// an initial map.
pub open spec fn load_map(m0: RateMap, rows: Seq<Seq<Seq<char>>>, n: int) -> RateMap
    decreases n,
{
    if n <= 0 {
        m0
    } else {
        load_map(m0, rows, n - 1).insert(row_map_key(rows[n - 1], n), rows[n - 1][3])
    }
}

/// The index of the first row that cannot be loaded, searching from `i`;
/// the matrix length when every row from `i` on loads.
pub open spec fn first_bad_from(rows: Seq<Seq<Seq<char>>>, i: int) -> int
    decreases rows.len() - i,
{
    if i < 0 || i >= rows.len() {
        i
    } else if !row_ok(rows[i]) {
        i
    } else {
        first_bad_from(rows, i + 1)
    }
}

proof fn lemma_first_bad_is(rows: Seq<Seq<Seq<char>>>, k: int, i: int)
    requires
        0 <= k <= i < rows.len(),
        forall|j: int| k <= j < i ==> row_ok(rows[j]),
        !row_ok(rows[i]),
    ensures
        first_bad_from(rows, k) == i,
    decreases i - k,
{
    if k < i {
        lemma_first_bad_is(rows, k + 1, i);
    }
}

/// Plans one matrix row for insertion: the rate key joins the first two
/// columns, the row's 1-based ordinal becomes the score, and the fourth
/// column becomes the member, which must parse as a 32-bit integer; a row
/// that has no such column or whose premium does not parse is a store
/// error.
pub fn plan_row(row: &Vec<String>, index: usize) -> (r: Result<RateEntry, PremiumError>)
    requires
        index < 0x7FFF_FFFF,
    ensures
        match r {
            Ok(e) => row_ok(row.deep_view()) && e.key@ == rate_key_spec(
                row.deep_view()[0],
                row.deep_view()[1],
            ) && e.score == index + 1 && e.member@ == row.deep_view()[3],
            Err(e) => e == PremiumError::InternalServer && !row_ok(row.deep_view()),
        },
{
    if row.len() < 4 {
        return Err(PremiumError::InternalServer);
    }
    let premium = &row[3];
    proof {
        assert(row.deep_view()[3] == premium@);
    }
    if parse_i32(premium.as_str()).is_none() {
        return Err(PremiumError::InternalServer);
    }
    let key = build_rate_key(&row[0], &row[1]);
    proof {
        assert(row.deep_view()[0] == row@[0]@);
        assert(row.deep_view()[1] == row@[1]@);
    }
    Ok(RateEntry { key, score: (index + 1) as i32, member: premium.clone() })
}

/// Loads a rate matrix into the store, row by row in order. On success
/// every row's premium stands in the store under the row's rate key and
/// ordinal score. The first row whose premium column is missing or does
/// not parse as a 32-bit integer aborts the load with a store error,
/// leaving exactly the rows before it inserted.
pub fn load(store: &mut RateStore, rows: &Vec<Vec<String>>) -> (r: Result<bool, PremiumError>)
    requires
        old(store).wf(),
        rows@.len() < 0x8000_0000,
    ensures
        final(store).wf(),
        match r {
            Ok(b) => b == true && rows_ok(rows.deep_view()) && final(store)@ == load_map(
                old(store)@,
                rows.deep_view(),
                rows@.len() as int,
            ),
            Err(e) => e == PremiumError::InternalServer && !rows_ok(rows.deep_view())
                && final(store)@ == load_map(
                old(store)@,
                rows.deep_view(),
                first_bad_from(rows.deep_view(), 0),
            ),
        },
{
    let ghost m0 = store@;
    let ghost rds = rows.deep_view();
    let n = rows.len();
    let mut i: usize = 0;
    while i < n
        invariant
            i <= n == rows@.len(),
            n < 0x8000_0000,
            rds == rows.deep_view(),
            m0 == old(store)@,
            store.wf(),
            forall|j: int| 0 <= j < i ==> row_ok(rds[j]),
            store@ == load_map(m0, rds, i as int),
        decreases n - i,
    {
        let row = &rows[i];
        proof {
            assert(rds[i as int] == row.deep_view());
        }
        match plan_row(row, i) {
            Ok(entry) => {
                store.bulk_insert(entry.key, entry.score, entry.member);
            },
            Err(e) => {
                proof {
                    lemma_first_bad_is(rds, 0, i as int);
                }
                return Err(e);
            },
        }
        i = i + 1;
    }
    Ok(true)
}

/// Loading the first `n` rows lays the matrix's entries over the initial
/// map, preferring the matrix's values.
proof fn lemma_load_map_union(m0: RateMap, rows: Seq<Seq<Seq<char>>>, n: int)
    ensures
        load_map(m0, rows, n) == m0.union_prefer_right(load_map(Map::empty(), rows, n)),
    decreases n,
{
    if n <= 0 {
        assert(load_map(m0, rows, n) =~= m0.union_prefer_right(
            load_map(Map::empty(), rows, n),
        ));
    } else {
        lemma_load_map_union(m0, rows, n - 1);
        assert(load_map(m0, rows, n) =~= m0.union_prefer_right(
            load_map(Map::empty(), rows, n),
        ));
    }
}

/// Re-running a load with an unchanged matrix yields the same store
/// contents, and so the same resolvable quotes, even though the load is
/// not transactional: every row is re-filed under the same key and score.
pub proof fn lemma_load_idempotent(m0: RateMap, rows: Seq<Seq<Seq<char>>>)
    ensures
        load_map(load_map(m0, rows, rows.len() as int), rows, rows.len() as int) == load_map(
            m0,
            rows,
            rows.len() as int,
        ),
{
    let n = rows.len() as int;
    let once = load_map(m0, rows, n);
    let fresh = load_map(Map::empty(), rows, n);
    lemma_load_map_union(m0, rows, n);
    lemma_load_map_union(once, rows, n);
    assert(once.union_prefer_right(fresh) =~= once);
}

/// Each loaded row stays filed under its own key and ordinal through the
/// rest of the load: later rows carry later ordinals.
pub(crate) proof fn lemma_load_map_row(m0: RateMap, rows: Seq<Seq<Seq<char>>>, i: int, n: int)
    requires
        0 <= i < n <= rows.len(),
    ensures
        load_map(m0, rows, n).contains_key(row_map_key(rows[i], i + 1)),
        load_map(m0, rows, n)[row_map_key(rows[i], i + 1)] == rows[i][3],
    decreases n,
{
    if i < n - 1 {
        lemma_load_map_row(m0, rows, i, n - 1);
    }
}

/// After a successful load of a non-empty matrix the store holds at least
/// one key, so an existence probe reports keys present.
pub proof fn lemma_checks_after_load(m0: RateMap, rows: Seq<Seq<Seq<char>>>)
    requires
        rows.len() > 0,
    ensures
        exists|k: (Seq<char>, int)|
            load_map(m0, rows, rows.len() as int).contains_key(k),
{
    let n = rows.len() as int;
    assert(load_map(m0, rows, n).contains_key(row_map_key(rows[n - 1], n)));
}

} // verus!
