use anchor_lang::prelude::Pubkey;
use private_message::address::{inbox_address, message_address, u64_le_bytes};
use private_message::inbox::{CustomError, Inbox};
use private_message::registry::InboxRegistry;
use private_message::send::{initialize, send, Initialize, Invocation, InvokeData, SendCtx};

const PROGRAM: [u8; 32] = [7u8; 32];

fn ctx(bump: u8) -> SendCtx {
    SendCtx {
        program_id: PROGRAM,
        signer: [1u8; 32],
        inbox: Inbox::empty(),
        inbox_bump: bump,
        registered_program_pda: [2u8; 32],
        noop_program: [3u8; 32],
        account_compression_authority: [4u8; 32],
        system_program: [0u8; 32],
        light_system_program: [5u8; 32],
        account_compression: [6u8; 32],
        remaining_accounts: vec![[8u8; 32], [9u8; 32]],
    }
}

fn payload(seeds: Vec<[u8; 32]>) -> InvokeData {
    InvokeData { new_address_seeds: seeds, serialized: vec![1, 2, 3, 250, 0, 42] }
}

fn addr(recipient: &[u8; 32], index: u64) -> [u8; 32] {
    message_address(recipient, index, &PROGRAM).expect("derivation finds an address")
}

fn send_to(reg: &mut InboxRegistry, c: &mut SendCtx, recipient: [u8; 32], seeds: Vec<[u8; 32]>) -> Result<Invocation, CustomError> {
    reg.send(c, recipient, payload(seeds))
}

#[test]
fn first_send_is_checked_against_index_zero() {
    let x = [11u8; 32];
    let mut reg = InboxRegistry::new();
    let mut c = ctx(254);
    let r = send_to(&mut reg, &mut c, x, vec![addr(&x, 0)]);
    assert!(r.is_ok());
    let rec = reg.get(&x).unwrap();
    assert!(rec.is_initialized);
    assert_eq!(rec.number_of_messages, 0);
    assert_eq!(rec.address, x);
    assert_eq!(rec.bump, 254);
    assert_eq!(c.inbox, rec);
}

#[test]
fn stale_claim_on_second_send_is_refused() {
    let x = [11u8; 32];
    let mut reg = InboxRegistry::new();
    let mut c = ctx(254);
    assert!(send_to(&mut reg, &mut c, x, vec![addr(&x, 0)]).is_ok());
    let r = send_to(&mut reg, &mut c, x, vec![addr(&x, 0)]);
    assert_eq!(r.err(), Some(CustomError::RecipientMismatch));
    assert_eq!(reg.get(&x).unwrap().number_of_messages, 0);
}

#[test]
fn second_send_with_next_index_advances_counter() {
    let x = [11u8; 32];
    let mut reg = InboxRegistry::new();
    let mut c = ctx(254);
    assert!(send_to(&mut reg, &mut c, x, vec![addr(&x, 0)]).is_ok());
    assert!(send_to(&mut reg, &mut c, x, vec![addr(&x, 1)]).is_ok());
    assert_eq!(reg.get(&x).unwrap().number_of_messages, 1);
}

#[test]
fn two_claims_are_refused() {
    let x = [11u8; 32];
    let mut reg = InboxRegistry::new();
    let mut c = ctx(254);
    let r = send_to(&mut reg, &mut c, x, vec![addr(&x, 0), addr(&x, 0)]);
    assert_eq!(r.err(), Some(CustomError::RecipientMismatch));
    assert!(reg.get(&x).is_none());
    let r = send_to(&mut reg, &mut c, x, vec![]);
    assert_eq!(r.err(), Some(CustomError::RecipientMismatch));
}

#[test]
fn fresh_recipient_cannot_skip_index_zero() {
    let y = [22u8; 32];
    let mut reg = InboxRegistry::new();
    let mut c = ctx(200);
    let r = send_to(&mut reg, &mut c, y, vec![addr(&y, 1)]);
    assert_eq!(r.err(), Some(CustomError::RecipientMismatch));
    assert!(reg.get(&y).is_none());
    assert!(!c.inbox.is_initialized());
}

#[test]
fn counters_run_zero_one_two() {
    let x = [11u8; 32];
    let mut reg = InboxRegistry::new();
    let mut c = ctx(1);
    for n in 0u64..4 {
        assert!(send_to(&mut reg, &mut c, x, vec![addr(&x, n)]).is_ok());
        assert_eq!(reg.get(&x).unwrap().number_of_messages, n);
    }
}

#[test]
fn claim_for_another_recipient_is_refused() {
    let x = [11u8; 32];
    let y = [22u8; 32];
    let mut reg = InboxRegistry::new();
    let mut c = ctx(1);
    assert_eq!(send_to(&mut reg, &mut c, x, vec![addr(&y, 0)]).err(), Some(CustomError::RecipientMismatch));
    assert_eq!(send_to(&mut reg, &mut c, x, vec![[0u8; 32]]).err(), Some(CustomError::RecipientMismatch));
    assert!(reg.get(&x).is_none());
}

#[test]
fn load_or_create_twice_gives_same_record() {
    let x = [11u8; 32];
    let mut reg = InboxRegistry::new();
    let a = reg.load_or_create(x, 9);
    let b = reg.load_or_create(x, 3);
    assert_eq!(a, b);
    assert_eq!(a.bump, 9);
    assert_eq!(a.number_of_messages, 0);
    assert!(a.is_initialized);
    assert_eq!(reg.get(&x), Some(a));
}

#[test]
fn failed_send_leaves_other_recipients_alone() {
    let x = [11u8; 32];
    let y = [22u8; 32];
    let mut reg = InboxRegistry::new();
    let mut c = ctx(5);
    assert!(send_to(&mut reg, &mut c, x, vec![addr(&x, 0)]).is_ok());
    assert!(send_to(&mut reg, &mut c, x, vec![addr(&x, 1)]).is_ok());
    let before = reg.get(&x);
    assert!(send_to(&mut reg, &mut c, y, vec![addr(&y, 3)]).is_err());
    assert!(send_to(&mut reg, &mut c, y, vec![addr(&y, 0)]).is_ok());
    assert_eq!(reg.get(&x), before);
    assert_eq!(reg.get(&y).unwrap().number_of_messages, 0);
}

#[test]
fn forwarded_call_carries_payload_and_roles() {
    let x = [11u8; 32];
    let mut reg = InboxRegistry::new();
    let mut c = ctx(5);
    let inv = send_to(&mut reg, &mut c, x, vec![addr(&x, 0)]).unwrap();
    assert_eq!(inv.data, vec![1, 2, 3, 250, 0, 42]);
    assert_eq!(inv.program, [5u8; 32]);
    assert_eq!(inv.fee_payer, [1u8; 32]);
    assert_eq!(inv.authority, [1u8; 32]);
    assert_eq!(inv.registered_program_pda, [2u8; 32]);
    assert_eq!(inv.noop_program, [3u8; 32]);
    assert_eq!(inv.account_compression_authority, [4u8; 32]);
    assert_eq!(inv.account_compression_program, [6u8; 32]);
    assert_eq!(inv.system_program, [0u8; 32]);
    assert!(inv.compressed_sol_pda.is_none());
    assert!(inv.compression_recipient.is_none());
    assert_eq!(inv.remaining_accounts, vec![[8u8; 32], [9u8; 32]]);
}

#[test]
fn send_on_context_mirrors_inbox_states() {
    let x = [11u8; 32];
    let mut c = ctx(77);
    assert!(send(&mut c, x, payload(vec![addr(&x, 0)])).is_ok());
    assert_eq!(c.inbox.number_of_messages, 0);
    assert_eq!(c.inbox.bump, 77);
    assert!(send(&mut c, x, payload(vec![addr(&x, 0)])).is_err());
    assert_eq!(c.inbox.number_of_messages, 0);
    assert!(send(&mut c, x, payload(vec![addr(&x, 1)])).is_ok());
    assert_eq!(c.inbox.number_of_messages, 1);
}

#[test]
fn exhausted_counter_refuses_every_claim() {
    let x = [11u8; 32];
    let mut c = ctx(1);
    c.inbox = Inbox { is_initialized: true, address: x, bump: 1, number_of_messages: u64::MAX };
    assert_eq!(c.inbox.next_index(), None);
    let r = send(&mut c, x, payload(vec![addr(&x, u64::MAX)]));
    assert_eq!(r.err(), Some(CustomError::RecipientMismatch));
    assert_eq!(c.inbox.number_of_messages, u64::MAX);
}

#[test]
fn next_index_of_records() {
    assert_eq!(Inbox::empty().next_index(), Some(0));
    let rec = Inbox { is_initialized: true, address: [3u8; 32], bump: 2, number_of_messages: 41 };
    assert_eq!(rec.next_index(), Some(42));
    let e = Inbox::empty();
    assert!(!e.is_initialized());
    assert_eq!(e.address, [0u8; 32]);
    assert_eq!(e.bump, 0);
}

#[test]
fn le_bytes_of_counter() {
    assert_eq!(u64_le_bytes(0x0102030405060708), vec![8, 7, 6, 5, 4, 3, 2, 1]);
    assert_eq!(u64_le_bytes(0), vec![0; 8]);
    assert_eq!(u64_le_bytes(u64::MAX), vec![255; 8]);
}

#[test]
fn message_address_matches_runtime_derivation() {
    let x = [11u8; 32];
    let program = Pubkey::new_from_array(PROGRAM);
    for n in [0u64, 1, 300] {
        let (expected, _) = Pubkey::find_program_address(&[x.as_ref(), n.to_le_bytes().as_ref()], &program);
        let got = addr(&x, n);
        assert_eq!(got, expected.to_bytes());
        assert_ne!(got, x);
    }
    assert_ne!(addr(&x, 0), addr(&x, 1));
}

#[test]
fn inbox_address_matches_runtime_derivation() {
    let x = [11u8; 32];
    let program = Pubkey::new_from_array(PROGRAM);
    let (expected, bump) = Pubkey::find_program_address(&[b"inbox".as_ref(), x.as_ref()], &program);
    assert_eq!(inbox_address(&x, &PROGRAM), Some((expected.to_bytes(), bump)));
    assert_ne!(expected.to_bytes(), x);
}

#[test]
fn error_message_and_scaffold() {
    assert_eq!(CustomError::RecipientMismatch.message(), "Recipient account does not match message recipient");
    assert!(initialize(&Initialize {}).is_ok());
}
