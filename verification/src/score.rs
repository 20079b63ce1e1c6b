//! Risk score banding: maps an age in years to one of eight discrete
//! risk-score buckets.

use vstd::prelude::*;

verus! {

/// The score band an age falls in: seven contiguous bands from 18 upward,
/// and 0 for any age below 18.
pub open spec fn spec_score(age: int) -> int {
    if 18 <= age <= 35 {
        1
    } else if 36 <= age <= 45 {
        2
    } else if 46 <= age <= 55 {
        3
    } else if 56 <= age <= 60 {
        4
    } else if 61 <= age <= 65 {
        5
    } else if 66 <= age <= 70 {
        6
    } else if age > 70 {
        7
    } else {
        0
    }
}

/// Maps an age to its risk score band.
pub fn calculate_score(age: i32) -> (score: i32)
    ensures
        score == spec_score(age as int),
{
    if age >= 18 && age <= 35 {
        1
    } else if age >= 36 && age <= 45 {
        2
    } else if age >= 46 && age <= 55 {
        3
    } else if age >= 56 && age <= 60 {
        4
    } else if age >= 61 && age <= 65 {
        5
    } else if age >= 66 && age <= 70 {
        6
    } else if age > 70 {
        7
    } else {
        0
    }
}

/// Every band maps to its own score: ages 18 to 35 score 1, 36 to 45
/// score 2, 46 to 55 score 3, 56 to 60 score 4, 61 to 65 score 5,
/// 66 to 70 score 6, anything above 70 scores 7, and any age below 18
/// scores 0.
pub proof fn lemma_score_bands()
    ensures
        forall|a: int| 18 <= a <= 35 ==> spec_score(a) == 1,
        forall|a: int| 36 <= a <= 45 ==> spec_score(a) == 2,
        forall|a: int| 46 <= a <= 55 ==> spec_score(a) == 3,
        forall|a: int| 56 <= a <= 60 ==> spec_score(a) == 4,
        forall|a: int| 61 <= a <= 65 ==> spec_score(a) == 5,
        forall|a: int| 66 <= a <= 70 ==> spec_score(a) == 6,
        forall|a: int| a > 70 ==> spec_score(a) == 7,
        forall|a: int| a < 18 ==> spec_score(a) == 0,
{
}

} // verus!
