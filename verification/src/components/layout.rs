//! The page layout around the routed content.
use vstd::prelude::*;

verus! {

pub open spec fn main_content_class_spec(is_frozen: bool) -> Seq<char> {
    if is_frozen {
        "px-5 pb-8 pt-6 opacity-75 grayscale-[0.18] saturate-[0.8] transition-[opacity,filter] duration-300 sm:px-8 lg:px-10"@
    } else {
        "px-5 pb-8 pt-6 transition-[opacity,filter] duration-300 sm:px-8 lg:px-10"@
    }
}

/// The classes of the main content: subdued while the view is frozen.
pub fn main_content_class(is_frozen: bool) -> (r: &'static str)
    ensures
        r@ == main_content_class_spec(is_frozen),
{
    if is_frozen {
        "px-5 pb-8 pt-6 opacity-75 grayscale-[0.18] saturate-[0.8] transition-[opacity,filter] duration-300 sm:px-8 lg:px-10"
    } else {
        "px-5 pb-8 pt-6 transition-[opacity,filter] duration-300 sm:px-8 lg:px-10"
    }
}

} // verus!
