//! The configuration record the tool runs from, and its validation.

use vstd::prelude::*;

verus! {

/// Page size used for paginated interval queries.
pub const PAGE_SIZE: u32 = 100;

/// The configured credentials, optional explicit date range, and
/// optional default login. Loaded from external configuration before
/// any network access; credentials are never logged.
#[derive(Clone, Debug)]
pub struct Config {
    pub client_id: String,
    pub secret: String,
    pub from: Option<String>,
    pub to: Option<String>,
    pub login: Option<String>,
}

/// Whether an optional configured date string, if present, matches
/// the `YYYY-MM-DD` pattern.
pub open spec fn spec_opt_date_ok(o: Option<String>) -> bool {
    match o {
        Some(s) => crate::date::spec_date_format_ok(s@),
        None => true,
    }
}

/// Checks the configured `from` and `to` date strings, where present,
/// against the `YYYY-MM-DD` pattern. Calendar legality is not
/// checked: a string such as a February 31st passes and simply
/// matches no intervals upstream.
pub fn validate_config_dates(config: &Config) -> (r: Result<(), crate::error::LogtimeError>)
    ensures
        r is Ok <==> spec_opt_date_ok(config.from) && spec_opt_date_ok(config.to),
        r is Err ==> r == Err::<(), _>(crate::error::LogtimeError::InvalidDateFormat),
{
    if let Some(f) = &config.from {
        if !crate::date::valid_date_format(f.as_str()) {
            return Err(crate::error::LogtimeError::InvalidDateFormat);
        }
    }
    if let Some(t) = &config.to {
        if !crate::date::valid_date_format(t.as_str()) {
            return Err(crate::error::LogtimeError::InvalidDateFormat);
        }
    }
    Ok(())
}

} // verus!
