//! The per-recipient inbox record and the errors of a send.

use vstd::prelude::*;

verus! {

/// The record kept for one recipient: whether it was created, whose it is,
/// the bump seed of its address, and how far its message counter has gone.
#[derive(Clone, Copy, Debug, PartialEq, Eq)]
pub struct Inbox {
    pub is_initialized: bool,
    pub address: [u8; 32],
    pub bump: u8,
    pub number_of_messages: u64,
}

/// An encrypted message as the compressed-state program stores it: the two
/// parties' x25519 public keys, the AES-GCM nonce and the ciphertext.
#[derive(Clone, Debug, PartialEq, Eq)]
pub struct MessageData {
    pub sender_ecc25519_public_key: [u8; 32],
    pub recipient_ecc25519_public_key: [u8; 32],
    pub iv: [u8; 12],
    pub encrypted_message: Vec<u8>,
}

/// Why a send was refused.
#[derive(Clone, Copy, Debug, PartialEq, Eq, Structural)]
pub enum CustomError {
    /// The payload does not hold exactly one address claim, or that claim is
    /// not the address bound to the recipient and the message's index.
    RecipientMismatch,
}

impl CustomError {
    /// The message that goes with the error.
    pub fn message(&self) -> (r: &'static str) {
        match self {
            CustomError::RecipientMismatch => "Recipient account does not match message recipient",
        }
    }
}

impl Inbox {
    /// The record of `recipient` as a first message creates it.
    pub open spec fn created(recipient: [u8; 32], bump: u8) -> Inbox {
        Inbox { is_initialized: true, address: recipient, bump, number_of_messages: 0 }
    }

    /// The index that the next message for this record is checked against:
    /// zero for a record not yet created, the counter plus one otherwise.
    pub open spec fn validation_index(self) -> nat {
        if self.is_initialized {
            (self.number_of_messages + 1) as nat
        } else {
            0
        }
    }

    /// The record after an accepted message for `recipient`, where `bump` is
    /// the bump seed of the record's address.
    pub open spec fn after_send(self, recipient: [u8; 32], bump: u8) -> Inbox {
        if self.is_initialized {
            Inbox { number_of_messages: (self.number_of_messages + 1) as u64, ..self }
        } else {
            Inbox::created(recipient, bump)
        }
    }

    /// A record as storage hands it out before it was created: all zero.
    pub fn empty() -> (r: Inbox)
        ensures
            !r.is_initialized,
            r.bump == 0,
            r.number_of_messages == 0,
            r.address@ == Seq::new(32, |i: int| 0u8),
    {
        let r = Inbox { is_initialized: false, address: [0u8; 32], bump: 0, number_of_messages: 0 };
        assert(r.address@ =~= Seq::new(32, |i: int| 0u8));
        r
    }

    pub fn is_initialized(&self) -> (r: bool)
        ensures
            r == self.is_initialized,
    {
        self.is_initialized
    }

    /// The index that the next message is checked against, or `None` where the
    /// counter has no successor.
    pub fn next_index(&self) -> (r: Option<u64>)
        ensures
            match r {
                Some(i) => i as nat == self.validation_index(),
                None => self.validation_index() > u64::MAX,
            },
    {
        if self.is_initialized {
            self.number_of_messages.checked_add(1)
        } else {
            Some(0)
        }
    }
}

} // verus!
