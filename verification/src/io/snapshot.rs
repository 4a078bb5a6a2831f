//! Snapshots of the atmosphere.

use vstd::prelude::*;
use vstd::string::StrSliceExecFns;

verus! {

/// A number in the precision of snapshot data.
///
/// The library stores and moves such numbers but never does arithmetic on
/// them, so it carries each one as the bit pattern of an IEEE 754 binary32
/// value.
#[allow(non_camel_case_types)]
pub type fdt = u32;

/// The name of the vector quantity whose magnitude the given name stands
/// for: a name between two vertical bars stands for the magnitude of the
/// quantity of that name.
pub open spec fn magnitude_name(name: Seq<char>) -> Option<Seq<char>> {
    if name.len() > 2 && name.first() == '|' && name.last() == '|' {
        Some(name.subrange(1, name.len() - 1))
    } else {
        None
    }
}

/// Extracts the name of the vector quantity from the name of its
/// magnitude.
pub fn extract_magnitude_name(name: &str) -> (inner: Option<&str>)
    ensures
        match magnitude_name(name@) {
            Some(inner_name) => inner is Some && inner->0@ == inner_name,
            None => inner is None,
        },
{
    let len = name.unicode_len();
    if len > 2 && name.get_char(0) == '|' && name.get_char(len - 1) == '|' {
        Some(name.substring_char(1, len - 1))
    } else {
        None
    }
}

} // verus!
