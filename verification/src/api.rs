//! The form of the upstream request: one URL per day, a fixed template with
//! the ISO date substituted.

use vstd::prelude::*;
use crate::dates::Date;
use crate::dates::spec_date_valid;
use crate::iso::spec_format_date;
use crate::iso::format_date;

verus! {

/// The request URL for a day's readings.
pub open spec fn spec_request_url(d: Date) -> Seq<char> {
    "https://api.aelf.org/v1/messes/"@ + spec_format_date(d) + "/afrique"@
}

/// Builds the request URL for the given day: the fixed template with the
/// day's ISO date and nothing else substituted.
pub fn request_url(d: &Date) -> (r: String)
    requires
        spec_date_valid(*d),
    ensures
        r@ == spec_request_url(*d),
{
    let mut out: String = "https://api.aelf.org/v1/messes/".to_owned();
    let ds = format_date(d);
    out.append(ds.as_str());
    out.append("/afrique");
    proof {
        assert(out@ =~= spec_request_url(*d));
    }
    out
}

} // verus!
