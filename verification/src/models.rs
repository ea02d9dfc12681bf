use vstd::prelude::*;

verus! {

/// A registered recipient of donations.
#[derive(Debug, Clone)]
pub struct Creator {
    pub id: i64,
    pub name: String,
    pub pubkey: String,
}

/// What a `Creator` holds, as mathematical values.
pub struct CreatorView {
    pub id: i64,
    pub name: Seq<char>,
    pub pubkey: Seq<char>,
}

impl View for Creator {
    type V = CreatorView;

    open spec fn view(&self) -> CreatorView {
        CreatorView { id: self.id, name: self.name@, pubkey: self.pubkey@ }
    }
}

/// The characters of an optional string.
pub open spec fn optional_text(s: Option<String>) -> Option<Seq<char>> {
    match s {
        Some(t) => Some(t@),
        None => None,
    }
}

/// A verified donation that is ready to be recorded. The amount is kept in
/// lamports, the indivisible unit of the native token.
#[derive(Debug, Clone)]
pub struct NewTap {
    pub creator_id: i64,
    pub currency: String,
    pub lamports: u64,
    pub signature: String,
    pub donor_pubkey: Option<String>,
    pub slot: u64,
}

/// What a `NewTap` holds, as mathematical values.
pub struct TapView {
    pub creator_id: i64,
    pub currency: Seq<char>,
    pub lamports: u64,
    pub signature: Seq<char>,
    pub donor_pubkey: Option<Seq<char>>,
    pub slot: u64,
}

impl View for NewTap {
    type V = TapView;

    open spec fn view(&self) -> TapView {
        TapView {
            creator_id: self.creator_id,
            currency: self.currency@,
            lamports: self.lamports,
            signature: self.signature@,
            donor_pubkey: optional_text(self.donor_pubkey),
            slot: self.slot,
        }
    }
}

/// A recorded donation together with the name of its creator. The id is the
/// donation's place in the order of recording, counted from one.
#[derive(Debug, Clone)]
pub struct TapWithCreator {
    pub id: u64,
    pub creator_name: String,
    pub currency: String,
    pub lamports: u64,
    pub signature: String,
    pub donor_pubkey: Option<String>,
    pub slot: u64,
}

/// What a `TapWithCreator` holds, as mathematical values.
pub struct TapWithCreatorView {
    pub id: u64,
    pub creator_name: Seq<char>,
    pub currency: Seq<char>,
    pub lamports: u64,
    pub signature: Seq<char>,
    pub donor_pubkey: Option<Seq<char>>,
    pub slot: u64,
}

impl View for TapWithCreator {
    type V = TapWithCreatorView;

    open spec fn view(&self) -> TapWithCreatorView {
        TapWithCreatorView {
            id: self.id,
            creator_name: self.creator_name@,
            currency: self.currency@,
            lamports: self.lamports,
            signature: self.signature@,
            donor_pubkey: optional_text(self.donor_pubkey),
            slot: self.slot,
        }
    }
}

/// Why a verification was turned down.
#[derive(Debug, Clone, Copy, PartialEq, Eq, Structural)]
pub enum VerifyError {
    /// The signature is not the base58 form of 64 bytes.
    InvalidSignature,
    /// The decoded transaction has no numeric slot.
    MalformedResponse,
    /// The transaction holds no native transfer at all.
    NoTransfersFound,
    /// The creator that was asked for is not registered.
    CreatorNotFound,
    /// No registered creator is paid by the transaction.
    AmbiguousOrMissingCreator,
    /// The required amount is negative.
    InvalidAmount,
    /// No transfer pays the chosen creator's address.
    RecipientMismatch,
    /// The chosen transfer is below the required amount.
    AmountTooLow,
    /// The signature has been recorded before.
    DuplicateIdentifier,
}

/// Why the store turned a row down.
#[derive(Debug, Clone, Copy, PartialEq, Eq, Structural)]
pub enum StoreError {
    /// A value that must be unique is already present.
    UniqueConstraint,
    /// No further row id can be given out.
    Full,
}

} // verus!
