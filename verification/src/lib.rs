//! Premium quoting library.
//!
//! Quotes an insurance premium for an applicant from a product code, an
//! insured sum and a date of birth: the date of birth becomes an age, the
//! age a discrete risk score band, and (product code, insured sum, score)
//! select a previously loaded premium rate. A loader populates the rate
//! store from a tabular rate matrix, and inspection operations report and
//! clear the store's contents.

pub mod age;
pub mod errors;
pub mod loader;
pub mod numbers;
pub mod rate_key;
pub mod score;
pub mod service;
pub mod store;
