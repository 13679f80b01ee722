//! Small conversions.
use vstd::prelude::*;

use std::sync::Arc;

use crate::chunk::strings_view;
use crate::manifest::str_views;

verus! {

/// Copies string slices into owned strings, shared behind an `Arc`.
pub fn map_to_arc_vec(list: Vec<&str>) -> (r: Arc<Vec<String>>)
    ensures
        strings_view((*r)@) == str_views(list@),
{
    let mut out: Vec<String> = Vec::new();
    let mut i: usize = 0;
    while i < list.len()
        invariant
            i <= list@.len(),
            strings_view(out@) == str_views(list@).take(i as int),
        decreases list@.len() - i,
    {
        let ghost before = strings_view(out@);
        out.push(String::from_str(list[i]));
        assert(strings_view(out@) =~= before.push(list@[i as int]@));
        assert(str_views(list@).take(i + 1) =~= str_views(list@).take(i as int).push(list@[i as int]@));
        i = i + 1;
    }
    assert(str_views(list@).take(i as int) =~= str_views(list@));
    Arc::new(out)
}

} // verus!
