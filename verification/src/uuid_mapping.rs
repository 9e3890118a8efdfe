//! The pure forward direction of the string-to-UUID mapping: inside one
//! network, every string maps deterministically to the name-based (v5) UUID
//! of the network id and the string's bytes. The reverse direction lives in
//! storage and is out of this crate's scope.

use vstd::prelude::*;
use vstd::utf8::encode_utf8;

use crate::relation_tuple::{new_v5, uuid_v5_of, Uuid};

verus! {

/// One persisted mapping entry: the UUID and the string it stands for.
#[derive(Debug)]
pub struct UuidMappings {
    pub id: Uuid,
    pub string_representation: String,
}

/// Maps each string to its deterministic UUID under the network `nid`,
/// without touching storage: position `i` of the result is the v5 UUID of
/// `nid` and the bytes of `strings[i]`.
pub fn map_string_to_uuids_readonly(nid: &Uuid, strings: &Vec<String>) -> (r: Vec<Uuid>)
    ensures
        r@.len() == strings@.len(),
        forall|i: int|
            0 <= i < r@.len() ==> #[trigger] r@[i].value == uuid_v5_of(
                nid.value,
                encode_utf8(strings@[i]@),
            ),
{
    let mut out: Vec<Uuid> = Vec::new();
    let mut i: usize = 0;
    while i < strings.len()
        invariant
            i <= strings@.len(),
            out@.len() == i,
            forall|j: int|
                0 <= j < i ==> #[trigger] out@[j].value == uuid_v5_of(
                    nid.value,
                    encode_utf8(strings@[j]@),
                ),
        decreases strings@.len() - i,
    {
        let s = &strings[i];
        let id = Uuid { value: new_v5(nid.value, s.as_str().as_bytes()) };
        out.push(id);
        i = i + 1;
    }
    out
}

} // verus!
