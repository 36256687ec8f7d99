//! The send transition: check a message's address claim against the
//! recipient's inbox, advance the inbox, and plan the call that hands the
//! payload on to the compressed-state program.

use vstd::prelude::*;
use crate::address::{bytes32_eq, message_address, message_address_spec};
use crate::inbox::{CustomError, Inbox};

verus! {

/// The accounts and values that a send runs with. `inbox` is the recipient's
/// record as storage holds it (all zero where it was never created) and
/// `inbox_bump` the bump seed of its address.
pub struct SendCtx {
    pub program_id: [u8; 32],
    pub signer: [u8; 32],
    pub inbox: Inbox,
    pub inbox_bump: u8,
    pub registered_program_pda: [u8; 32],
    pub noop_program: [u8; 32],
    pub account_compression_authority: [u8; 32],
    pub system_program: [u8; 32],
    pub light_system_program: [u8; 32],
    pub account_compression: [u8; 32],
    pub remaining_accounts: Vec<[u8; 32]>,
}

/// The invocation payload as a send reads it: the seeds of its new-address
/// claims, in order, and the payload's canonical serialization.
pub struct InvokeData {
    pub new_address_seeds: Vec<[u8; 32]>,
    pub serialized: Vec<u8>,
}

/// The call that an accepted send makes on the compressed-state program:
/// the program called, the account of each role, the extra accounts, and
/// the instruction data.
pub struct Invocation {
    pub program: [u8; 32],
    pub fee_payer: [u8; 32],
    pub authority: [u8; 32],
    pub registered_program_pda: [u8; 32],
    pub noop_program: [u8; 32],
    pub account_compression_authority: [u8; 32],
    pub account_compression_program: [u8; 32],
    pub compressed_sol_pda: Option<[u8; 32]>,
    pub compression_recipient: Option<[u8; 32]>,
    pub system_program: [u8; 32],
    pub remaining_accounts: Vec<[u8; 32]>,
    pub data: Vec<u8>,
}

/// The accounts of the scaffold entry point: none.
pub struct Initialize {}

impl SendCtx {
    /// The same context holding `inbox` as the recipient's record.
    pub open spec fn with_inbox(self, inbox: Inbox) -> SendCtx {
        SendCtx { inbox, ..self }
    }
}

/// Whether the claims `seeds` are accepted for message number `index` of
/// `recipient`: exactly one claim, equal to the address bound to the two.
pub open spec fn claims_accepted(seeds: Seq<[u8; 32]>, recipient: Seq<u8>, index: nat, program_id: Seq<u8>) -> bool {
    &&& index <= u64::MAX
    &&& seeds.len() == 1
    &&& message_address_spec(recipient, index, program_id) == Some(seeds[0]@)
}

/// Whether `inv` is the call that a send in `ctx` makes with the instruction
/// data `payload`: the signer pays and authorizes, the fixed accounts keep
/// their roles, no compressed-SOL account or compression recipient is given,
/// and the extra accounts go along unchanged.
pub open spec fn forwards(inv: Invocation, ctx: SendCtx, payload: Seq<u8>) -> bool {
    &&& inv.program == ctx.light_system_program
    &&& inv.fee_payer == ctx.signer
    &&& inv.authority == ctx.signer
    &&& inv.registered_program_pda == ctx.registered_program_pda
    &&& inv.noop_program == ctx.noop_program
    &&& inv.account_compression_authority == ctx.account_compression_authority
    &&& inv.account_compression_program == ctx.account_compression
    &&& inv.compressed_sol_pda is None
    &&& inv.compression_recipient is None
    &&& inv.system_program == ctx.system_program
    &&& inv.remaining_accounts@ == ctx.remaining_accounts@
    &&& inv.data@ == payload
}

fn copy_accounts(accounts: &Vec<[u8; 32]>) -> (r: Vec<[u8; 32]>)
    ensures
        r@ == accounts@,
{
    let mut r: Vec<[u8; 32]> = Vec::new();
    let mut i: usize = 0;
    while i < accounts.len()
        invariant
            i <= accounts.len(),
            r@ == accounts@.subrange(0, i as int),
        decreases accounts.len() - i,
    {
        r.push(accounts[i]);
        i = i + 1;
        assert(r@ =~= accounts@.subrange(0, i as int));
    }
    assert(accounts@.subrange(0, accounts.len() as int) =~= accounts@);
    r
}

/// Whether `seeds` are accepted for message number `index` of `recipient`.
pub fn check_claims(seeds: &Vec<[u8; 32]>, recipient: &[u8; 32], index: u64, program_id: &[u8; 32]) -> (r: bool)
    ensures
        r == claims_accepted(seeds@, recipient@, index as nat, program_id@),
{
    if seeds.len() != 1 {
        return false;
    }
    match message_address(recipient, index, program_id) {
        Some(expected) => bytes32_eq(&seeds[0], &expected),
        None => false,
    }
}

/// Accepts a message for `recipient` and plans its hand-off, or refuses it.
///
/// The message is checked against index zero where the inbox was never
/// created, and against its counter plus one otherwise. It is accepted when
/// the payload holds exactly one address claim and that claim is the address
/// derived from the recipient and that index; the inbox then records the
/// index (creating the record where needed) and the planned call carries the
/// serialized payload as it came. A refused message changes nothing.
pub fn send(ctx: &mut SendCtx, recipient: [u8; 32], data: InvokeData) -> (r: Result<Invocation, CustomError>)
    ensures
        r is Ok <==> claims_accepted(
            data.new_address_seeds@,
            recipient@,
            old(ctx).inbox.validation_index(),
            old(ctx).program_id@,
        ),
        r is Ok ==> *final(ctx) == old(ctx).with_inbox(old(ctx).inbox.after_send(recipient, old(ctx).inbox_bump)),
        r matches Ok(inv) ==> forwards(inv, *old(ctx), data.serialized@),
        r is Err ==> r == Err::<Invocation, CustomError>(CustomError::RecipientMismatch) && *final(ctx) == *old(ctx),
{
    let index = match ctx.inbox.next_index() {
        Some(i) => i,
        None => return Err(CustomError::RecipientMismatch),
    };
    if !check_claims(&data.new_address_seeds, &recipient, index, &ctx.program_id) {
        return Err(CustomError::RecipientMismatch);
    }
    if ctx.inbox.is_initialized() {
        ctx.inbox.number_of_messages = index;
    } else {
        ctx.inbox = Inbox { is_initialized: true, address: recipient, bump: ctx.inbox_bump, number_of_messages: 0 };
    }
    let inv = Invocation {
        program: ctx.light_system_program,
        fee_payer: ctx.signer,
        authority: ctx.signer,
        registered_program_pda: ctx.registered_program_pda,
        noop_program: ctx.noop_program,
        account_compression_authority: ctx.account_compression_authority,
        account_compression_program: ctx.account_compression,
        compressed_sol_pda: None,
        compression_recipient: None,
        system_program: ctx.system_program,
        remaining_accounts: copy_accounts(&ctx.remaining_accounts),
        data: data.serialized,
    };
    Ok(inv)
}

/// The scaffold entry point: it does nothing and always succeeds.
pub fn initialize(ctx: &Initialize) -> (r: Result<(), CustomError>)
    ensures
        r is Ok,
{
    Ok(())
}

} // verus!
