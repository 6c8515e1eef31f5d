use vstd::prelude::*;
use crate::model::uuid_shaped;

verus! {

/// Relies on uuid's `Uuid::new_v4` and its `Display`: a random identifier
/// written as 36 characters, lowercase hex digits with hyphens at
/// positions 8, 13, 18 and 23.
#[verifier::external_body]
pub(crate) fn new_record_id() -> (r: String)
    ensures
        uuid_shaped(r@),
{
    uuid::Uuid::new_v4().to_string()
}

/// Relies on chrono's `Utc::now` and `format`: the current UTC time written
/// as `%Y-%m-%d %H:%M:%S`. It depends on the clock, so nothing is promised
/// about the text.
#[verifier::external_body]
pub(crate) fn current_timestamp() -> (r: String) {
    chrono::Utc::now().format("%Y-%m-%d %H:%M:%S").to_string()
}

} // verus!
