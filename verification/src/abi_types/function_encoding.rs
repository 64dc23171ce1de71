//! Solidity type names of Move types and ABI function selectors.
use vstd::prelude::*;

use alloy_primitives::keccak256;
use alloy_sol_types::{SolType, sol_data};

use crate::intermediate_types::{IType, IntermediateType};
use crate::text::{push_char, push_str};
use crate::utils::{camel_case, snake_to_camel};

verus! {

/// The first four bytes of the Keccak-256 hash of a function's canonical signature.
pub type AbiFunctionSelector = [u8; 4];

/// The Keccak-256 digest of the UTF-8 encoding of `text`.
pub uninterp spec fn keccak256_utf8(text: Seq<char>) -> Seq<u8>;

/// Hashes the UTF-8 bytes of `text` with `alloy_primitives::keccak256`.
#[verifier::external_body]
fn keccak256_of_str(text: &str) -> (r: [u8; 32])
    ensures
        r@ == keccak256_utf8(text@),
{
    keccak256(text.as_bytes()).0
}

/// The selector of a canonical signature: the first four bytes of its Keccak-256 digest.
pub open spec fn selector_of(signature: Seq<char>) -> Seq<u8> {
    keccak256_utf8(signature).take(4)
}

pub fn selector(signature: &str) -> (r: AbiFunctionSelector)
    ensures
        r@ == selector_of(signature@),
{
    let digest = keccak256_of_str(signature);
    let r = [digest[0], digest[1], digest[2], digest[3]];
    proof {
        assert(r@ =~= digest@.take(4));
    }
    r
}

// The Solidity names of the elementary types, as `alloy_sol_types` gives them.

/// `sol_data::Bool::SOL_NAME`: the text `bool`.
#[verifier::external_body]
pub(crate) fn sol_name_bool() -> (r: String)
    ensures
        r@ == seq!['b', 'o', 'o', 'l'],
{
    sol_data::Bool::SOL_NAME.to_string()
}

/// `sol_data::Uint::<8>::SOL_NAME`: the text `uint8`.
#[verifier::external_body]
pub(crate) fn sol_name_uint8() -> (r: String)
    ensures
        r@ == seq!['u', 'i', 'n', 't', '8'],
{
    sol_data::Uint::<8>::SOL_NAME.to_string()
}

/// `sol_data::Uint::<16>::SOL_NAME`: the text `uint16`.
#[verifier::external_body]
pub(crate) fn sol_name_uint16() -> (r: String)
    ensures
        r@ == seq!['u', 'i', 'n', 't', '1', '6'],
{
    sol_data::Uint::<16>::SOL_NAME.to_string()
}

/// `sol_data::Uint::<32>::SOL_NAME`: the text `uint32`.
#[verifier::external_body]
pub(crate) fn sol_name_uint32() -> (r: String)
    ensures
        r@ == seq!['u', 'i', 'n', 't', '3', '2'],
{
    sol_data::Uint::<32>::SOL_NAME.to_string()
}

/// `sol_data::Uint::<64>::SOL_NAME`: the text `uint64`.
#[verifier::external_body]
pub(crate) fn sol_name_uint64() -> (r: String)
    ensures
        r@ == seq!['u', 'i', 'n', 't', '6', '4'],
{
    sol_data::Uint::<64>::SOL_NAME.to_string()
}

/// `sol_data::Uint::<128>::SOL_NAME`: the text `uint128`.
#[verifier::external_body]
pub(crate) fn sol_name_uint128() -> (r: String)
    ensures
        r@ == seq!['u', 'i', 'n', 't', '1', '2', '8'],
{
    sol_data::Uint::<128>::SOL_NAME.to_string()
}

/// `sol_data::Uint::<256>::SOL_NAME`: the text `uint256`.
#[verifier::external_body]
pub(crate) fn sol_name_uint256() -> (r: String)
    ensures
        r@ == seq!['u', 'i', 'n', 't', '2', '5', '6'],
{
    sol_data::Uint::<256>::SOL_NAME.to_string()
}

/// `sol_data::Address::SOL_NAME`: the text `address`.
#[verifier::external_body]
pub(crate) fn sol_name_address() -> (r: String)
    ensures
        r@ == seq!['a', 'd', 'd', 'r', 'e', 's', 's'],
{
    sol_data::Address::SOL_NAME.to_string()
}

/// Types that have a name in Solidity's ABI.
pub trait SolName {
    /// Whether the value has a Solidity name.
    spec fn has_sol_name(&self) -> bool;

    /// The Solidity name of the value.
    spec fn sol_name_spec(&self) -> Seq<char>;

    fn sol_name(&self) -> (r: String)
        requires
            self.has_sol_name(),
        ensures
            r@ == self.sol_name_spec(),
    ;
}

/// Whether a type has a Solidity name: the elementary types and vectors of them.
pub open spec fn has_abi_name(t: IType) -> bool
    decreases t,
{
    match t {
        IType::Bool | IType::U8 | IType::U16 | IType::U32 | IType::U64 | IType::U128 | IType::U256
        | IType::Address => true,
        IType::Vector(inner) => has_abi_name(*inner),
        _ => false,
    }
}

/// The Solidity name of a type: `bool`, `uintN`, `address`, and `T[]` for a vector of `T`.
pub open spec fn abi_name(t: IType) -> Seq<char>
    decreases t,
{
    match t {
        IType::Bool => seq!['b', 'o', 'o', 'l'],
        IType::U8 => seq!['u', 'i', 'n', 't', '8'],
        IType::U16 => seq!['u', 'i', 'n', 't', '1', '6'],
        IType::U32 => seq!['u', 'i', 'n', 't', '3', '2'],
        IType::U64 => seq!['u', 'i', 'n', 't', '6', '4'],
        IType::U128 => seq!['u', 'i', 'n', 't', '1', '2', '8'],
        IType::U256 => seq!['u', 'i', 'n', 't', '2', '5', '6'],
        IType::Address => seq!['a', 'd', 'd', 'r', 'e', 's', 's'],
        IType::Vector(inner) => abi_name(*inner) + seq!['[', ']'],
        _ => Seq::empty(),
    }
}

impl SolName for IntermediateType {
    open spec fn has_sol_name(&self) -> bool {
        has_abi_name(self@)
    }

    open spec fn sol_name_spec(&self) -> Seq<char> {
        abi_name(self@)
    }

    fn sol_name(&self) -> (r: String)
        decreases self,
    {
        match self {
            IntermediateType::IBool => sol_name_bool(),
            IntermediateType::IU8 => sol_name_uint8(),
            IntermediateType::IU16 => sol_name_uint16(),
            IntermediateType::IU32 => sol_name_uint32(),
            IntermediateType::IU64 => sol_name_uint64(),
            IntermediateType::IU128 => sol_name_uint128(),
            IntermediateType::IU256 => sol_name_uint256(),
            IntermediateType::IAddress => sol_name_address(),
            IntermediateType::IVector(inner) => {
                let mut name = inner.sol_name();
                push_char(&mut name, '[');
                push_char(&mut name, ']');
                proof {
                    assert(name@ =~= abi_name(inner@) + seq!['[', ']']);
                }
                name
            },
            _ => {
                proof {
                    assert(false);
                }
                String::new()
            },
        }
    }
}

} // verus!

verus! {

/// The names joined with `,` between each two.
pub open spec fn join_with_commas(names: Seq<Seq<char>>) -> Seq<char>
    decreases names.len(),
{
    if names.len() == 0 {
        Seq::empty()
    } else if names.len() == 1 {
        names[0]
    } else {
        join_with_commas(names.drop_last()) + seq![','] + names.last()
    }
}

/// The canonical signature of a function: its name in camel case, then the Solidity names of
/// its parameter types between parentheses, separated by commas.
pub open spec fn canonical_signature(function_name: Seq<char>, parameter_names: Seq<Seq<char>>) -> Seq<char> {
    camel_case(function_name) + seq!['('] + join_with_commas(parameter_names) + seq![')']
}

/// The Solidity names of the types of a signature.
pub open spec fn parameter_names<T: SolName>(signature: Seq<T>) -> Seq<Seq<char>> {
    signature.map_values(|t: T| t.sol_name_spec())
}

/// Calculates the function selector according to Solidity's ABI encoding: the first four bytes
/// of the Keccak-256 digest of the canonical signature. The function name is converted to camel
/// case first.
pub fn move_signature_to_abi_selector<T: SolName>(function_name: &str, signature: &[T]) -> (r: AbiFunctionSelector)
    requires
        forall|i: int| 0 <= i < signature@.len() ==> (#[trigger] signature@[i]).has_sol_name(),
    ensures
        r@ == selector_of(canonical_signature(function_name@, parameter_names(signature@))),
{
    let ghost names = parameter_names(signature@);
    let mut text = snake_to_camel(function_name);
    push_char(&mut text, '(');
    let ghost prefix = text@;
    let mut i: usize = 0;
    while i < signature.len()
        invariant
            0 <= i <= signature@.len(),
            names == parameter_names(signature@),
            prefix == camel_case(function_name@) + seq!['('],
            text@ == prefix + join_with_commas(names.take(i as int)),
            forall|j: int| 0 <= j < signature@.len() ==> (#[trigger] signature@[j]).has_sol_name(),
        decreases signature@.len() - i,
    {
        let name = signature[i].sol_name();
        proof {
            assert(names.take(i + 1).drop_last() =~= names.take(i as int));
            assert(names.take(i + 1).last() == name@);
            if i == 0 {
                assert(names.take(1) =~= seq![name@]);
            }
        }
        if i > 0 {
            push_char(&mut text, ',');
        }
        push_str(&mut text, name.as_str());
        proof {
            if i == 0 {
                assert(text@ =~= prefix + join_with_commas(names.take(i + 1)));
            } else {
                assert(text@ =~= prefix + join_with_commas(names.take(i + 1)));
            }
        }
        i = i + 1;
    }
    push_char(&mut text, ')');
    proof {
        assert(names.take(i as int) =~= names);
        assert(text@ =~= canonical_signature(function_name@, names));
    }
    selector(text.as_str())
}

} // verus!
