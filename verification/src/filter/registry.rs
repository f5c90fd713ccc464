//! The choice among registered filters.
use vstd::prelude::*;

use crate::common::text::same_text;
use crate::filter::pads::FilterDescriptor;

verus! {

/// The place of the first filter of a name.
pub fn find_filter_by_name(registered: &[FilterDescriptor], name: &str) -> (r: Option<usize>)
    ensures
        match r {
            Some(i) => i < registered@.len() && registered@[i as int].name@ == name@ && forall|
                j: int,
            |
                0 <= j < i ==> (#[trigger] registered@[j]).name@ != name@,
            None => forall|j: int|
                0 <= j < registered@.len() ==> (#[trigger] registered@[j]).name@ != name@,
        },
{
    let mut i: usize = 0;
    while i < registered.len()
        invariant
            i <= registered@.len(),
            forall|j: int| 0 <= j < i ==> (#[trigger] registered@[j]).name@ != name@,
        decreases registered@.len() - i,
    {
        if same_text(registered[i].name, name) {
            return Some(i);
        }
        i += 1;
    }
    None
}

} // verus!
