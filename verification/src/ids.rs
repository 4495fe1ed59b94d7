//! Generation of kind-prefixed random identifiers.

use vstd::prelude::*;

verus! {

/// The characters an identifier suffix is drawn from.
pub open spec fn id_alphabet() -> Seq<char> {
    "abcdefghijklmnopqrstuvwxyz0123456789"@
}

/// How many random characters follow the prefix of a generated identifier.
pub const ID_SUFFIX_LEN: usize = 10;

/// Relies on `rand::random` for entropy; nothing is assumed of the value.
#[verifier::external_body]
fn random_u64() -> u64 {
    rand::random::<u64>()
}

/// Produces `prefix` followed by `ID_SUFFIX_LEN` random characters drawn
/// from the lowercase-alphanumeric alphabet.
pub fn generate_id(prefix: &str) -> (r: String)
    ensures
        r@.len() == prefix@.len() + ID_SUFFIX_LEN,
        r@.subrange(0, prefix@.len() as int) == prefix@,
        forall|i: int|
            prefix@.len() <= i < r@.len() ==> id_alphabet().contains(#[trigger] r@[i]),
{
    let alphabet = "abcdefghijklmnopqrstuvwxyz0123456789";
    proof {
        reveal_strlit("abcdefghijklmnopqrstuvwxyz0123456789");
    }
    let mut out = prefix.to_owned();
    let mut i: usize = 0;
    while i < ID_SUFFIX_LEN
        invariant
            i <= ID_SUFFIX_LEN,
            alphabet@ == id_alphabet(),
            alphabet@.len() == 36,
            out@.len() == prefix@.len() + i,
            out@.subrange(0, prefix@.len() as int) == prefix@,
            forall|j: int|
                prefix@.len() <= j < out@.len() ==> id_alphabet().contains(#[trigger] out@[j]),
        decreases ID_SUFFIX_LEN - i,
    {
        let idx = (random_u64() % 36) as usize;
        let c = alphabet.substring_char(idx, idx + 1);
        let ghost before = out@;
        out.append(c);
        proof {
            assert(c@[0] == id_alphabet()[idx as int]);
            assert(id_alphabet().contains(out@[out@.len() - 1])) by {
                assert(out@[out@.len() - 1] == id_alphabet()[idx as int]);
            }
            assert(out@.subrange(0, prefix@.len() as int) =~= prefix@);
        }
        i = i + 1;
    }
    out
}

} // verus!
