//! JPEG output by the `mozjpeg` encoder.

use vstd::prelude::*;
use vstd::string::StringExecFns;

verus! {

/// The line that tells which encoder is at work.
pub open spec fn spec_encoder_info(version: Seq<char>) -> Seq<char> {
    "Using \"mozjpeg\" ("@ + version + ")"@
}

/// Provides encoder information. `version` is the version of the `mozjpeg`
/// crate in use.
pub fn encoder_info(version: &str) -> (r: String)
    ensures
        r@ == spec_encoder_info(version@),
{
    let mut info = String::from_str("Using \"mozjpeg\" (");
    info.append(version);
    info.append(")");
    info
}

} // verus!
