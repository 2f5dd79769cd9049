//! Output file naming.
//!
//! Each sheet's document goes to `<input-file-path>-<sheet-name>.json`: the
//! exact concatenation of the input path, a hyphen, the sheet name and the
//! extension, whatever characters the sheet name holds.

use vstd::prelude::*;

verus! {

/// The output file name for a sheet: path, hyphen, sheet name, extension.
pub open spec fn spec_output_name(path: Seq<char>, sheet: Seq<char>) -> Seq<char> {
    path + "-"@ + sheet + ".json"@
}

/// Builds the output file name for one sheet of an input file.
pub fn output_filename(path: &str, sheet: &str) -> (r: String)
    ensures
        r@ == spec_output_name(path@, sheet@),
{
    let mut out = path.to_owned();
    out.append("-");
    out.append(sheet);
    out.append(".json");
    out
}

} // verus!
