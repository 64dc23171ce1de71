//! Solidity names of the types written in Move signatures.
use vstd::prelude::*;

use crate::abi_types::function_encoding::{
    sol_name_address, sol_name_bool, sol_name_uint128, sol_name_uint16, sol_name_uint256,
    sol_name_uint32, sol_name_uint64, sol_name_uint8,
};
use crate::abi_types::function_encoding::{abi_name, has_abi_name};
use crate::compilation_context::module_data::UserDefinedTypeView;
use crate::intermediate_types::itype_of_token;
use crate::move_model::{SignatureToken, Token};
use crate::text::push_char;

verus! {

/// Whether a signature token has a Solidity name: the elementary types and vectors of them.
/// Signers, datatypes, type parameters and references have none.
pub open spec fn token_has_sol_name(t: Token) -> bool
    decreases t,
{
    match t {
        Token::Bool | Token::U8 | Token::U16 | Token::U32 | Token::U64 | Token::U128 | Token::U256
        | Token::Address => true,
        Token::Vector(inner) => token_has_sol_name(*inner),
        _ => false,
    }
}

/// The Solidity name of a signature token that has one.
pub open spec fn token_sol_name(t: Token) -> Seq<char>
    decreases t,
{
    match t {
        Token::Bool => seq!['b', 'o', 'o', 'l'],
        Token::U8 => seq!['u', 'i', 'n', 't', '8'],
        Token::U16 => seq!['u', 'i', 'n', 't', '1', '6'],
        Token::U32 => seq!['u', 'i', 'n', 't', '3', '2'],
        Token::U64 => seq!['u', 'i', 'n', 't', '6', '4'],
        Token::U128 => seq!['u', 'i', 'n', 't', '1', '2', '8'],
        Token::U256 => seq!['u', 'i', 'n', 't', '2', '5', '6'],
        Token::Address => seq!['a', 'd', 'd', 'r', 'e', 's', 's'],
        Token::Vector(inner) => token_sol_name(*inner) + seq!['[', ']'],
        _ => Seq::empty(),
    }
}

/// The Solidity name of a Move signature token. Signers, datatypes, type parameters and
/// references have no Solidity name and are not accepted.
pub fn map_move_type_to_sol_name(signature_token: &SignatureToken) -> (r: String)
    requires
        token_has_sol_name(signature_token@),
    ensures
        r@ == token_sol_name(signature_token@),
    decreases signature_token,
{
    match signature_token {
        SignatureToken::Bool => sol_name_bool(),
        SignatureToken::U8 => sol_name_uint8(),
        SignatureToken::U16 => sol_name_uint16(),
        SignatureToken::U32 => sol_name_uint32(),
        SignatureToken::U64 => sol_name_uint64(),
        SignatureToken::U128 => sol_name_uint128(),
        SignatureToken::U256 => sol_name_uint256(),
        SignatureToken::Address => sol_name_address(),
        SignatureToken::Vector(boxed_signature_token) => {
            let mut name = map_move_type_to_sol_name(boxed_signature_token);
            push_char(&mut name, '[');
            push_char(&mut name, ']');
            proof {
                assert(name@ =~= token_sol_name(boxed_signature_token@) + seq!['[', ']']);
            }
            name
        },
        _ => {
            proof {
                assert(false);
            }
            String::new()
        },
    }
}

} // verus!

verus! {

/// A signature token that has a Solidity name converts to an intermediate type, whatever the
/// module's datatypes, and that type has the same Solidity name.
pub proof fn law_token_and_type_names_agree(t: Token, handles: Seq<UserDefinedTypeView>)
    requires
        token_has_sol_name(t),
    ensures
        itype_of_token(t, handles) is Ok,
        has_abi_name(itype_of_token(t, handles)->Ok_0),
        abi_name(itype_of_token(t, handles)->Ok_0) == token_sol_name(t),
    decreases t,
{
    if let Token::Vector(inner) = t {
        law_token_and_type_names_agree(*inner, handles);
    }
}

} // verus!
