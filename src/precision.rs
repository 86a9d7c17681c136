use vstd::prelude::*;

verus! {

/// The two precisions the polyline codec is used with: 5 for the common web-mapping
/// convention, 6 for some routing engines.
pub open spec fn valid_precision(p: u32) -> bool {
    p == 5 || p == 6
}

/// Checks a requested precision, handing it back only when it is one of the two
/// supported values.
pub fn get_precision(input: u32) -> (r: Option<u32>)
    ensures
        r == (if valid_precision(input) { Some(input) } else { None::<u32> }),
{
    match input {
        5 => Some(5),
        6 => Some(6),
        _ => None,
    }
}

} // verus!
