//! The error taxonomy shared by the quote and load paths, and its mapping
//! to the structured error body returned to callers.

use vstd::prelude::*;

verus! {

/// The four terminal failure kinds: a store or load failure, a payload
/// that does not parse, a missing or wrong required header (naming the
/// offending header), and a rate lookup that found no single entry.
#[derive(Debug)]
pub enum PremiumError {
    InternalServer,
    InvalidInput,
    InvalidHeader(String),
    RiskCalculation,
}

/// The structured error body: a fixed code and a human-readable message.
#[derive(Debug)]
pub struct ErrorResponse {
    pub code: String,
    pub message: String,
}

/// Maps an error to its response body: code 001 for an invalid or missing
/// header, 002 for an unparsable payload, 003 for a store failure, 004 for
/// a rate lookup inconsistency, each with its fixed message; the header
/// message names the offending header.
pub fn error_response(err: &PremiumError) -> (r: ErrorResponse)
    ensures
        match err {
            PremiumError::InternalServer => r.code@ == "003"@ && r.message@
                == "Internal server error"@,
            PremiumError::InvalidInput => r.code@ == "002"@ && r.message@ == "Invalid request"@,
            PremiumError::InvalidHeader(h) => r.code@ == "001"@ && r.message@ == "Header "@ + h@
                + " not provided or invalid"@,
            PremiumError::RiskCalculation => r.code@ == "004"@ && r.message@
                == "Cannot calculate risk for input"@,
        },
{
    match err {
        PremiumError::InternalServer => ErrorResponse {
            code: String::from_str("003"),
            message: String::from_str("Internal server error"),
        },
        PremiumError::InvalidInput => ErrorResponse {
            code: String::from_str("002"),
            message: String::from_str("Invalid request"),
        },
        PremiumError::InvalidHeader(h) => {
            let mut message = String::from_str("Header ");
            message.append(h.as_str());
            message.append(" not provided or invalid");
            ErrorResponse { code: String::from_str("001"), message }
        },
        PremiumError::RiskCalculation => ErrorResponse {
            code: String::from_str("004"),
            message: String::from_str("Cannot calculate risk for input"),
        },
    }
}

} // verus!
