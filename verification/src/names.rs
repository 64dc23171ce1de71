//! Names of the functions that the compiler generates for generic instantiations.
use vstd::prelude::*;

use std::hash::{DefaultHasher, Hash, Hasher};

use crate::intermediate_types::IntermediateType;
use crate::text::{hex_text, push_char, push_hex, push_str};

verus! {

/// The name of a generated function: the base name, `_`, and the lowercase hexadecimal text of
/// the hash of its type arguments.
pub open spec fn generic_function_name_spec(base_name: Seq<char>, hash: u64) -> Seq<char> {
    base_name + seq!['_'] + hex_text(hash as nat)
}

/// Feeds `t` to the hasher through the derived `Hash` of `IntermediateType`.
///
/// Nothing is stated of the bytes written to the hasher: the derived hashing of integers and
/// lengths depends on the machine's endianness and word size.
#[verifier::external_body]
fn hash_type(hasher: &mut DefaultHasher, t: &IntermediateType) {
    t.hash(hasher)
}

/// The name of a generated function from its base name and the hash of its type arguments.
pub fn generic_function_name_from_hash(base_name: &str, hash: u64) -> (r: String)
    ensures
        r@ == generic_function_name_spec(base_name@, hash),
{
    let mut out = String::new();
    push_str(&mut out, base_name);
    push_char(&mut out, '_');
    push_hex(&mut out, hash);
    proof {
        assert(out@ =~= generic_function_name_spec(base_name@, hash));
    }
    out
}

/// The name of the function generated for `base_name` instantiated with `generics`: the base
/// name, `_`, and the hexadecimal hash of the types. At least one type is needed.
pub fn get_generic_function_name(base_name: &str, generics: &[&IntermediateType]) -> (r: String)
    requires
        generics@.len() > 0,
    ensures
        exists|h: u64| r@ == generic_function_name_spec(base_name@, h),
{
    let mut hasher = DefaultHasher::new();
    let mut i: usize = 0;
    while i < generics.len()
        invariant
            0 <= i <= generics@.len(),
        decreases generics@.len() - i,
    {
        hash_type(&mut hasher, generics[i]);
        i = i + 1;
    }
    let hash = hasher.finish();
    generic_function_name_from_hash(base_name, hash)
}

} // verus!
