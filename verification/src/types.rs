use vstd::prelude::*;

use crate::bytes::copy_bytes;

verus! {

/// Why an operation of the contract was refused.
#[derive(Clone, Copy, Debug, PartialEq, Eq, Structural)]
pub enum ContractError {
    /// The caller already owns a profile.
    AlreadyRegistered,
    /// The recipient of a tip has no profile.
    NotRegistered,
    /// Another profile already uses the requested username.
    UsernameTaken,
    /// The username breaks the username rules.
    InvalidUsername,
    /// The display name is empty.
    InvalidDisplayName,
    /// A bio or a tip message is longer than the limit.
    MessageTooLong,
    /// A tipper tried to tip themselves.
    CannotTipSelf,
    /// A tip amount that is zero or negative.
    InvalidAmount,
}

/// A creator's public profile and running totals.
///
/// Addresses and texts are byte strings (an address is the account's strkey).
#[derive(Clone, Debug, PartialEq, Eq)]
pub struct Profile {
    pub owner: Vec<u8>,
    pub username: Vec<u8>,
    pub display_name: Vec<u8>,
    pub bio: Vec<u8>,
    pub image_url: Vec<u8>,
    pub x_handle: Vec<u8>,
    /// Tips received and not yet withdrawn.
    pub balance: i128,
    /// Sum of all tips ever received.
    pub total_tips_received: i128,
    /// Number of tips ever received.
    pub total_tips_count: u32,
    pub credit_score: u32,
}

/// The mathematical value of a [`Profile`].
pub struct ProfileView {
    pub owner: Seq<u8>,
    pub username: Seq<u8>,
    pub display_name: Seq<u8>,
    pub bio: Seq<u8>,
    pub image_url: Seq<u8>,
    pub x_handle: Seq<u8>,
    pub balance: i128,
    pub total_tips_received: i128,
    pub total_tips_count: u32,
    pub credit_score: u32,
}

impl View for Profile {
    type V = ProfileView;

    open spec fn view(&self) -> ProfileView {
        ProfileView {
            owner: self.owner@,
            username: self.username@,
            display_name: self.display_name@,
            bio: self.bio@,
            image_url: self.image_url@,
            x_handle: self.x_handle@,
            balance: self.balance,
            total_tips_received: self.total_tips_received,
            total_tips_count: self.total_tips_count,
            credit_score: self.credit_score,
        }
    }
}

impl Profile {
    /// A field-by-field copy.
    pub fn copy(&self) -> (r: Profile)
        ensures
            r@ == self@,
    {
        Profile {
            owner: copy_bytes(&self.owner),
            username: copy_bytes(&self.username),
            display_name: copy_bytes(&self.display_name),
            bio: copy_bytes(&self.bio),
            image_url: copy_bytes(&self.image_url),
            x_handle: copy_bytes(&self.x_handle),
            balance: self.balance,
            total_tips_received: self.total_tips_received,
            total_tips_count: self.total_tips_count,
            credit_score: self.credit_score,
        }
    }
}

/// One tip: who sent how much to whom, with a message and the ledger time.
#[derive(Clone, Debug, PartialEq, Eq)]
pub struct Tip {
    pub id: u32,
    pub tipper: Vec<u8>,
    pub creator: Vec<u8>,
    pub amount: i128,
    pub message: Vec<u8>,
    pub timestamp: u64,
}

/// The mathematical value of a [`Tip`].
pub struct TipView {
    pub id: u32,
    pub tipper: Seq<u8>,
    pub creator: Seq<u8>,
    pub amount: i128,
    pub message: Seq<u8>,
    pub timestamp: u64,
}

impl View for Tip {
    type V = TipView;

    open spec fn view(&self) -> TipView {
        TipView {
            id: self.id,
            tipper: self.tipper@,
            creator: self.creator@,
            amount: self.amount,
            message: self.message@,
            timestamp: self.timestamp,
        }
    }
}

impl Tip {
    /// A field-by-field copy.
    pub fn copy(&self) -> (r: Tip)
        ensures
            r@ == self@,
    {
        Tip {
            id: self.id,
            tipper: copy_bytes(&self.tipper),
            creator: copy_bytes(&self.creator),
            amount: self.amount,
            message: copy_bytes(&self.message),
            timestamp: self.timestamp,
        }
    }
}

} // verus!
