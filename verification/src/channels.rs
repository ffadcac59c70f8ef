//! The channels of a community, as far as the engine reads them: an id and a
//! name.

use vstd::prelude::*;

verus! {

/// Whether `channels[at]` is the first channel that bears `name`.
pub open spec fn is_first_named(channels: Seq<(u64, String)>, at: int, name: Seq<char>) -> bool {
    &&& 0 <= at < channels.len()
    &&& channels[at].1@ == name
    &&& forall|j: int| 0 <= j < at ==> (#[trigger] channels[j]).1@ != name
}

/// The id of the first of `channels` that bears `name`; `None` where none
/// bears it, and the community is then passed over.
pub fn find_channel(channels: &Vec<(u64, String)>, name: &str) -> (found: Option<u64>)
    ensures
        found matches Some(id) ==> exists|at: int|
            is_first_named(channels@, at, name@) && channels[at].0 == id,
        found is None ==> forall|j: int|
            0 <= j < channels.len() ==> (#[trigger] channels[j]).1@ != name@,
{
    let wanted = name.to_owned();
    let mut i: usize = 0;
    while i < channels.len()
        invariant
            i <= channels.len(),
            wanted@ == name@,
            forall|j: int| 0 <= j < i ==> (#[trigger] channels[j]).1@ != name@,
        decreases channels.len() - i,
    {
        if channels[i].1 == wanted {
            assert(is_first_named(channels@, i as int, name@));
            return Some(channels[i].0);
        }
        i += 1;
    }
    None
}

} // verus!
