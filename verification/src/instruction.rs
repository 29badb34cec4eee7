//! Instructions for the system program: the only way in which money moves.

use vstd::prelude::*;
use vstd::bytes::spec_u64_to_le_bytes;
use anchor_lang::solana_program::pubkey::Pubkey;
use anchor_lang::solana_program::system_instruction;
use crate::address::Address;

verus! {

/// An account that an instruction touches.
#[derive(Clone, Copy, Debug, PartialEq, Eq)]
pub struct AccountMeta {
    pub pubkey: Address,
    /// Whether the instruction needs this account's signature.
    pub is_signer: bool,
    /// Whether the instruction may change this account.
    pub is_writable: bool,
}

/// An instruction for a program: which program, on which accounts, and the
/// bytes that tell it what to do.
#[derive(Clone, Debug, PartialEq, Eq)]
pub struct Instruction {
    pub program_id: Address,
    pub accounts: Vec<AccountMeta>,
    pub data: Vec<u8>,
}

/// Whether `instruction` tells the system program to move `lamports` from
/// `from` to `to`: both accounts writable, `from` signing, and as data the
/// number of the transfer instruction followed by the amount, both little
/// endian.
pub open spec fn is_transfer(
    instruction: Instruction,
    from: Address,
    to: Address,
    lamports: u64,
) -> bool {
    &&& instruction.program_id@ == Seq::new(32, |i: int| 0u8)
    &&& instruction.accounts@ == seq![
        AccountMeta { pubkey: from, is_signer: true, is_writable: true },
        AccountMeta { pubkey: to, is_signer: false, is_writable: true },
    ]
    &&& instruction.data@ == seq![2u8, 0u8, 0u8, 0u8] + spec_u64_to_le_bytes(lamports)
}

/// Calls `system_instruction::transfer`.
///
/// Trusted: that function returns an instruction for the system program,
/// whose address is 32 zero bytes, with the accounts `from` (signer,
/// writable) and `to` (writable), and as data the bincode encoding of
/// `SystemInstruction::Transfer { lamports }`: the variant's index 2 as four
/// bytes, then the amount as eight, little endian.
#[verifier::external_body]
pub(crate) fn transfer(from: &Address, to: &Address, lamports: u64) -> (instruction: Instruction)
    ensures
        is_transfer(instruction, *from, *to, lamports),
{
    let made = system_instruction::transfer(
        &Pubkey::new_from_array(from.bytes),
        &Pubkey::new_from_array(to.bytes),
        lamports,
    );
    Instruction {
        program_id: Address { bytes: made.program_id.to_bytes() },
        accounts: made.accounts.iter().map(|meta| AccountMeta {
            pubkey: Address { bytes: meta.pubkey.to_bytes() },
            is_signer: meta.is_signer,
            is_writable: meta.is_writable,
        }).collect(),
        data: made.data,
    }
}

} // verus!
