use crate::chain::solana::{check_signature, well_formed_signature, SolTransfer, VerifiedTransaction};
use crate::db::Db;
use crate::json::same_text;
use crate::models::{optional_text, Creator, NewTap, TapView, VerifyError};
use vstd::prelude::*;

verus! {

/// The characters of an optional string slice.
pub open spec fn optional_str(s: Option<&str>) -> Option<Seq<char>> {
    match s {
        Some(t) => Some(t@),
        None => None,
    }
}

/// Whether some transfer pays `address`.
pub open spec fn pays(transfers: Seq<SolTransfer>, address: Seq<char>) -> bool {
    exists|i: int| 0 <= i < transfers.len() && (#[trigger] transfers[i]).destination@ == address
}

/// Whether `creator` answers the request: it bears the name that was asked
/// for or, where no name was given, some transfer pays its address.
pub open spec fn creator_matches(
    name: Option<Seq<char>>,
    creator: Creator,
    transfers: Seq<SolTransfer>,
) -> bool {
    match name {
        Some(n) => creator.name@ == n,
        None => pays(transfers, creator.pubkey@),
    }
}

/// Whether position `i` holds the first creator that answers the request.
pub open spec fn first_match(
    name: Option<Seq<char>>,
    creators: Seq<Creator>,
    transfers: Seq<SolTransfer>,
    i: int,
) -> bool {
    &&& 0 <= i < creators.len()
    &&& creator_matches(name, creators[i], transfers)
    &&& forall|j: int| 0 <= j < i ==> !creator_matches(name, #[trigger] creators[j], transfers)
}

/// Whether any creator answers the request.
pub open spec fn some_match(
    name: Option<Seq<char>>,
    creators: Seq<Creator>,
    transfers: Seq<SolTransfer>,
) -> bool {
    exists|i: int| 0 <= i < creators.len() && creator_matches(name, #[trigger] creators[i], transfers)
}

/// The error for a request that no creator answers.
pub open spec fn no_creator_error(name: Option<Seq<char>>) -> VerifyError {
    if name is Some {
        VerifyError::CreatorNotFound
    } else {
        VerifyError::AmbiguousOrMissingCreator
    }
}

/// Whether position `i` holds the transfer that counts for `address`: it pays
/// `address`, no transfer to `address` is larger, and every later transfer to
/// `address` is smaller.
pub open spec fn is_selected(transfers: Seq<SolTransfer>, address: Seq<char>, i: int) -> bool {
    &&& 0 <= i < transfers.len()
    &&& transfers[i].destination@ == address
    &&& forall|j: int|
        0 <= j < transfers.len() && (#[trigger] transfers[j]).destination@ == address
            ==> transfers[j].lamports <= transfers[i].lamports
    &&& forall|j: int|
        i < j < transfers.len() && (#[trigger] transfers[j]).destination@ == address
            ==> transfers[j].lamports < transfers[i].lamports
}

/// The position of the first creator that answers the request.
pub open spec fn chosen_creator(
    name: Option<Seq<char>>,
    creators: Seq<Creator>,
    transfers: Seq<SolTransfer>,
) -> int {
    choose|i: int| first_match(name, creators, transfers, i)
}

/// The position of the transfer that counts for `address`.
pub open spec fn chosen_transfer(transfers: Seq<SolTransfer>, address: Seq<char>) -> int {
    choose|i: int| is_selected(transfers, address, i)
}

/// The record of a donation made by `transfer` to `creator`.
pub open spec fn tap_of(signature: Seq<char>, creator: Creator, transfer: SolTransfer, slot: u64) -> TapView {
    TapView {
        creator_id: creator.id,
        currency: "sol"@,
        lamports: transfer.lamports,
        signature,
        donor_pubkey: optional_text(transfer.source),
        slot,
    }
}

/// What a verification attempt comes to. The checks are made in this order:
/// the signature is not yet recorded; the transaction holds a transfer; a
/// creator answers the request; the required amount is a valid one (`None`
/// stands for an amount that could not be expressed in lamports); a transfer
/// pays that creator; the largest such transfer reaches the required amount.
pub open spec fn resolution(
    signature: Seq<char>,
    already_recorded: bool,
    verified: VerifiedTransaction,
    name: Option<Seq<char>>,
    creators: Seq<Creator>,
    required_lamports: Option<u64>,
) -> Result<TapView, VerifyError> {
    let transfers = verified.transfers@;
    if already_recorded {
        Err(VerifyError::DuplicateIdentifier)
    } else if transfers.len() == 0 {
        Err(VerifyError::NoTransfersFound)
    } else if !some_match(name, creators, transfers) {
        Err(no_creator_error(name))
    } else {
        let creator = creators[chosen_creator(name, creators, transfers)];
        let transfer = transfers[chosen_transfer(transfers, creator.pubkey@)];
        match required_lamports {
            None => Err(VerifyError::InvalidAmount),
            Some(required) => if !pays(transfers, creator.pubkey@) {
                Err(VerifyError::RecipientMismatch)
            } else if transfer.lamports < required {
                Err(VerifyError::AmountTooLow)
            } else {
                Ok(tap_of(signature, creator, transfer, verified.slot))
            },
        }
    }
}

/// At most one position holds the first creator that answers a request.
pub proof fn lemma_first_match_unique(
    name: Option<Seq<char>>,
    creators: Seq<Creator>,
    transfers: Seq<SolTransfer>,
    i: int,
    j: int,
)
    requires
        first_match(name, creators, transfers, i),
        first_match(name, creators, transfers, j),
    ensures
        i == j,
{
}

/// At most one position holds the transfer that counts for an address.
pub proof fn lemma_selected_unique(transfers: Seq<SolTransfer>, address: Seq<char>, i: int, j: int)
    requires
        is_selected(transfers, address, i),
        is_selected(transfers, address, j),
    ensures
        i == j,
{
}

/// Whether some transfer in `transfers` pays `address`.
pub fn any_transfer_to(transfers: &Vec<SolTransfer>, address: &str) -> (r: bool)
    ensures
        r == pays(transfers@, address@),
{
    let mut i: usize = 0;
    while i < transfers.len()
        invariant
            0 <= i <= transfers.len(),
            forall|j: int| 0 <= j < i ==> (#[trigger] transfers@[j]).destination@ != address@,
        decreases transfers.len() - i,
    {
        if same_text(transfers[i].destination.as_str(), address) {
            return true;
        }
        i += 1;
    }
    false
}

/// Settles which creator a transaction is meant for. With a name, it is the
/// creator of that name; without one, the first creator in the list whose
/// address some transfer pays.
pub fn resolve_creator(
    creator_name: Option<&str>,
    creators: &Vec<Creator>,
    transfers: &Vec<SolTransfer>,
) -> (r: Result<Creator, VerifyError>)
    ensures
        match r {
            Ok(c) => exists|i: int| #[trigger]
                first_match(optional_str(creator_name), creators@, transfers@, i) && c == creators@[i],
            Err(e) => !some_match(optional_str(creator_name), creators@, transfers@) && e
                == no_creator_error(optional_str(creator_name)),
        },
{
    let ghost name = optional_str(creator_name);
    let mut i: usize = 0;
    while i < creators.len()
        invariant
            0 <= i <= creators.len(),
            name == optional_str(creator_name),
            forall|j: int| 0 <= j < i ==> !creator_matches(name, #[trigger] creators@[j], transfers@),
        decreases creators.len() - i,
    {
        let found = match creator_name {
            Some(n) => same_text(creators[i].name.as_str(), n),
            None => any_transfer_to(transfers, creators[i].pubkey.as_str()),
        };
        if found {
            let creator = Creator {
                id: creators[i].id,
                name: creators[i].name.clone(),
                pubkey: creators[i].pubkey.clone(),
            };
            assert(first_match(name, creators@, transfers@, i as int));
            assert(creator == creators@[i as int]);
            return Ok(creator);
        }
        i += 1;
    }
    match creator_name {
        Some(_) => Err(VerifyError::CreatorNotFound),
        None => Err(VerifyError::AmbiguousOrMissingCreator),
    }
}

/// Picks the transfer that counts for `address`: the largest one paying it,
/// and among equally large ones the last.
pub fn select_transfer(transfers: &Vec<SolTransfer>, address: &str) -> (r: Option<usize>)
    ensures
        match r {
            Some(i) => is_selected(transfers@, address@, i as int),
            None => !pays(transfers@, address@),
        },
{
    let mut best: Option<usize> = None;
    let mut i: usize = 0;
    while i < transfers.len()
        invariant
            0 <= i <= transfers.len(),
            match best {
                Some(b) => is_selected(transfers@.take(i as int), address@, b as int),
                None => !pays(transfers@.take(i as int), address@),
            },
        decreases transfers.len() - i,
    {
        let ghost before = transfers@.take(i as int);
        let ghost after = transfers@.take(i + 1);
        assert(forall|j: int| 0 <= j < i ==> before[j] == after[j]);
        assert(after[i as int] == transfers@[i as int]);
        if same_text(transfers[i].destination.as_str(), address) {
            let replace = match best {
                Some(b) => transfers[b].lamports <= transfers[i].lamports,
                None => true,
            };
            if replace {
                assert forall|j: int|
                    0 <= j < after.len() && (#[trigger] after[j]).destination@ == address@ implies after[j].lamports
                    <= after[i as int].lamports by {
                    if j < i {
                        assert(before[j].destination@ == address@);
                    }
                }
                best = Some(i);
            } else {
                assert forall|j: int|
                    0 <= j < after.len() && (#[trigger] after[j]).destination@ == address@ implies after[j].lamports
                    <= after[best->0 as int].lamports by {
                    if j < i {
                        assert(before[j].destination@ == address@);
                    }
                }
                assert forall|j: int|
                    best->0 < j < after.len() && (#[trigger] after[j]).destination@ == address@ implies after[j].lamports
                    < after[best->0 as int].lamports by {
                    if j < i {
                        assert(before[j].destination@ == address@);
                    }
                }
            }
        } else {
            match best {
                Some(b) => {
                    assert forall|j: int|
                        0 <= j < after.len() && (#[trigger] after[j]).destination@ == address@ implies after[j].lamports
                        <= after[b as int].lamports by {
                        if j < i {
                            assert(before[j].destination@ == address@);
                        }
                    }
                    assert forall|j: int|
                        b < j < after.len() && (#[trigger] after[j]).destination@ == address@ implies after[j].lamports
                        < after[b as int].lamports by {
                        if j < i {
                            assert(before[j].destination@ == address@);
                        }
                    }
                },
                None => {
                    assert forall|j: int| 0 <= j < after.len() implies (#[trigger] after[j]).destination@
                        != address@ by {
                        if j < i {
                            assert(before[j].destination@ != address@);
                        }
                    }
                },
            }
        }
        i += 1;
    }
    assert(transfers@.take(i as int) =~= transfers@);
    best
}

/// Decides a verification attempt from what is known: whether the signature
/// is already recorded, the fetched transaction, the creator that was asked
/// for, the registered creators in ascending order of id, and the least
/// amount that is accepted, or `None` where the amount asked for is not a
/// valid one.
pub fn resolve(
    signature: &str,
    already_recorded: bool,
    verified: &VerifiedTransaction,
    creator_name: Option<&str>,
    creators: &Vec<Creator>,
    required_lamports: Option<u64>,
) -> (r: Result<NewTap, VerifyError>)
    ensures
        match r {
            Ok(tap) => resolution(
                signature@,
                already_recorded,
                *verified,
                optional_str(creator_name),
                creators@,
                required_lamports,
            ) == Ok::<TapView, VerifyError>(tap@),
            Err(e) => resolution(
                signature@,
                already_recorded,
                *verified,
                optional_str(creator_name),
                creators@,
                required_lamports,
            ) == Err::<TapView, VerifyError>(e),
        },
{
    let ghost name = optional_str(creator_name);
    if already_recorded {
        return Err(VerifyError::DuplicateIdentifier);
    }
    if verified.transfers.len() == 0 {
        return Err(VerifyError::NoTransfersFound);
    }
    let creator = match resolve_creator(creator_name, creators, &verified.transfers) {
        Ok(c) => c,
        Err(e) => { return Err(e); },
    };
    proof {
        let i = choose|i: int| #[trigger]
            first_match(name, creators@, verified.transfers@, i) && creator == creators@[i];
        assert(creator_matches(name, creators@[i], verified.transfers@));
        lemma_first_match_unique(
            name,
            creators@,
            verified.transfers@,
            i,
            chosen_creator(name, creators@, verified.transfers@),
        );
    }
    let required = match required_lamports {
        Some(r) => r,
        None => { return Err(VerifyError::InvalidAmount); },
    };
    let matched = match select_transfer(&verified.transfers, creator.pubkey.as_str()) {
        Some(t) => t,
        None => { return Err(VerifyError::RecipientMismatch); },
    };
    proof {
        assert(verified.transfers@[matched as int].destination@ == creator.pubkey@);
        lemma_selected_unique(
            verified.transfers@,
            creator.pubkey@,
            matched as int,
            chosen_transfer(verified.transfers@, creator.pubkey@),
        );
    }
    let transfer = &verified.transfers[matched];
    if transfer.lamports < required {
        return Err(VerifyError::AmountTooLow);
    }
    let donor_pubkey = match &transfer.source {
        Some(s) => Some(s.clone()),
        None => None,
    };
    Ok(
        NewTap {
            creator_id: creator.id,
            currency: "sol".to_owned(),
            lamports: transfer.lamports,
            signature: signature.to_owned(),
            donor_pubkey,
            slot: verified.slot,
        },
    )
}

/// What is decided of a signature before its transaction is fetched: one
/// that is already recorded is a duplicate, and one that is not well formed is
/// invalid.
pub open spec fn admission(signature: Seq<char>, already_recorded: bool) -> Result<(), VerifyError> {
    if already_recorded {
        Err(VerifyError::DuplicateIdentifier)
    } else if !well_formed_signature(signature) {
        Err(VerifyError::InvalidSignature)
    } else {
        Ok(())
    }
}

/// What a whole attempt on a fetched transaction comes to.
pub open spec fn verification(
    signature: Seq<char>,
    already_recorded: bool,
    verified: VerifiedTransaction,
    name: Option<Seq<char>>,
    creators: Seq<Creator>,
    required_lamports: Option<u64>,
) -> Result<TapView, VerifyError> {
    match admission(signature, already_recorded) {
        Err(e) => Err(e),
        Ok(_) => resolution(signature, already_recorded, verified, name, creators, required_lamports),
    }
}

/// Decides whether a signature is worth fetching.
pub fn precheck(signature: &str, already_recorded: bool) -> (r: Result<(), VerifyError>)
    ensures
        r == admission(signature@, already_recorded),
{
    if already_recorded {
        return Err(VerifyError::DuplicateIdentifier);
    }
    check_signature(signature)
}

/// Verifies a fetched transaction against the store and records the donation.
/// On success the donation is appended to the store; on any failure the store
/// is left as it was.
pub fn run(
    db: &mut Db,
    signature: &str,
    verified: &VerifiedTransaction,
    creator_name: Option<&str>,
    required_lamports: Option<u64>,
) -> (r: Result<NewTap, VerifyError>)
    requires
        old(db).wf(),
    ensures
        final(db).wf(),
        final(db).creators() == old(db).creators(),
        match r {
            Ok(tap) => verification(
                signature@,
                old(db).has_signature(signature@),
                *verified,
                optional_str(creator_name),
                old(db).creators(),
                required_lamports,
            ) == Ok::<TapView, VerifyError>(tap@) && final(db).taps() == old(db).taps().push(tap),
            Err(e) => verification(
                signature@,
                old(db).has_signature(signature@),
                *verified,
                optional_str(creator_name),
                old(db).creators(),
                required_lamports,
            ) == Err::<TapView, VerifyError>(e) && final(db).taps() == old(db).taps(),
        },
{
    let already_recorded = db.signature_exists(signature);
    match precheck(signature, already_recorded) {
        Ok(_) => {},
        Err(e) => { return Err(e); },
    }
    let creators = db.list_creators();
    let tap = match resolve(
        signature,
        already_recorded,
        verified,
        creator_name,
        &creators,
        required_lamports,
    ) {
        Ok(t) => t,
        Err(e) => { return Err(e); },
    };
    match db.insert_tap(&tap) {
        Ok(_) => Ok(tap),
        Err(_) => Err(VerifyError::DuplicateIdentifier),
    }
}

/// Where some transfer pays an address, one of them is the transfer that
/// counts for it.
pub proof fn lemma_selected_exists(transfers: Seq<SolTransfer>, address: Seq<char>)
    requires
        pays(transfers, address),
    ensures
        is_selected(transfers, address, chosen_transfer(transfers, address)),
    decreases transfers.len(),
{
    let n = transfers.len() as int;
    let w = choose|i: int| 0 <= i < n && (#[trigger] transfers[i]).destination@ == address;
    let init = transfers.drop_last();
    let last = transfers[n - 1];
    assert(forall|j: int| 0 <= j < n - 1 ==> init[j] == transfers[j]);
    if pays(init, address) {
        lemma_selected_exists(init, address);
        let b = chosen_transfer(init, address);
        if last.destination@ == address && last.lamports >= init[b].lamports {
            assert forall|j: int|
                0 <= j < n && (#[trigger] transfers[j]).destination@ == address implies transfers[j].lamports
                <= last.lamports by {
                if j < n - 1 {
                    assert(init[j].destination@ == address);
                }
            }
            assert(is_selected(transfers, address, n - 1));
        } else {
            assert forall|j: int|
                0 <= j < n && (#[trigger] transfers[j]).destination@ == address implies transfers[j].lamports
                <= transfers[b].lamports by {
                if j < n - 1 {
                    assert(init[j].destination@ == address);
                }
            }
            assert forall|j: int|
                b < j < n && (#[trigger] transfers[j]).destination@ == address implies transfers[j].lamports
                < transfers[b].lamports by {
                if j < n - 1 {
                    assert(init[j].destination@ == address);
                }
            }
            assert(is_selected(transfers, address, b));
        }
    } else {
        if w < n - 1 {
            assert(init[w].destination@ == address);
        }
        assert forall|j: int| 0 <= j < n - 1 implies (#[trigger] transfers[j]).destination@ != address by {
            assert(init[j].destination@ == address ==> pays(init, address));
        }
        assert(is_selected(transfers, address, n - 1));
    }
}

/// An accepted donation carries the largest amount that any transfer of the
/// transaction pays to the chosen creator's address, and that amount reaches
/// the required one.
pub proof fn lemma_accepted_amount_is_largest(
    signature: Seq<char>,
    already_recorded: bool,
    verified: VerifiedTransaction,
    name: Option<Seq<char>>,
    creators: Seq<Creator>,
    required_lamports: Option<u64>,
)
    requires
        resolution(signature, already_recorded, verified, name, creators, required_lamports) is Ok,
    ensures
        ({
            let tap = resolution(signature, already_recorded, verified, name, creators, required_lamports)->Ok_0;
            let address = creators[chosen_creator(name, creators, verified.transfers@)].pubkey@;
            &&& required_lamports is Some
            &&& tap.lamports >= required_lamports->0
            &&& forall|j: int|
                0 <= j < verified.transfers@.len() && (#[trigger] verified.transfers@[j]).destination@
                    == address ==> verified.transfers@[j].lamports <= tap.lamports
            &&& exists|j: int|
                0 <= j < verified.transfers@.len() && (#[trigger] verified.transfers@[j]).destination@
                    == address && verified.transfers@[j].lamports == tap.lamports
        }),
{
    let transfers = verified.transfers@;
    let address = creators[chosen_creator(name, creators, transfers)].pubkey@;
    lemma_selected_exists(transfers, address);
    let t = chosen_transfer(transfers, address);
    assert(transfers[t].destination@ == address);
}

/// A signature is accepted at most once: after an attempt that was accepted
/// and recorded, every further attempt with the same signature is turned down
/// as a duplicate, whatever else it brings.
pub proof fn lemma_second_attempt_is_duplicate(
    before: Db,
    after: Db,
    signature: Seq<char>,
    first: VerifiedTransaction,
    first_name: Option<Seq<char>>,
    first_required: Option<u64>,
    tap: NewTap,
    second: VerifiedTransaction,
    second_name: Option<Seq<char>>,
    second_required: Option<u64>,
)
    requires
        verification(
            signature,
            before.has_signature(signature),
            first,
            first_name,
            before.creators(),
            first_required,
        ) == Ok::<TapView, VerifyError>(tap@),
        after.taps() == before.taps().push(tap),
    ensures
        after.has_signature(signature),
        verification(
            signature,
            after.has_signature(signature),
            second,
            second_name,
            after.creators(),
            second_required,
        ) == Err::<TapView, VerifyError>(VerifyError::DuplicateIdentifier),
{
    assert(tap@.signature == signature);
    assert(after.taps()[before.taps().len() as int] == tap);
}

/// Where a creator answers a request, some position holds the first one that
/// does, at or before any position that answers it.
pub proof fn lemma_first_match_exists(
    name: Option<Seq<char>>,
    creators: Seq<Creator>,
    transfers: Seq<SolTransfer>,
    i: int,
)
    requires
        0 <= i < creators.len(),
        creator_matches(name, creators[i], transfers),
    ensures
        first_match(name, creators, transfers, chosen_creator(name, creators, transfers)),
        chosen_creator(name, creators, transfers) <= i,
    decreases i,
{
    if exists|j: int| 0 <= j < i && creator_matches(name, #[trigger] creators[j], transfers) {
        let j = choose|j: int| 0 <= j < i && creator_matches(name, #[trigger] creators[j], transfers);
        lemma_first_match_exists(name, creators, transfers, j);
    } else {
        assert(first_match(name, creators, transfers, i));
        lemma_first_match_unique(
            name,
            creators,
            transfers,
            i,
            chosen_creator(name, creators, transfers),
        );
    }
}

/// Of the creators that answer a request, the store's order picks the one
/// with the least id.
pub proof fn lemma_chosen_creator_has_least_id(
    db: Db,
    name: Option<Seq<char>>,
    transfers: Seq<SolTransfer>,
)
    requires
        db.wf(),
        some_match(name, db.creators(), transfers),
    ensures
        ({
            let c = chosen_creator(name, db.creators(), transfers);
            &&& first_match(name, db.creators(), transfers, c)
            &&& forall|j: int|
                0 <= j < db.creators().len() && creator_matches(name, #[trigger] db.creators()[j], transfers)
                    ==> db.creators()[c].id <= db.creators()[j].id
        }),
{
    let creators = db.creators();
    let w = choose|i: int| 0 <= i < creators.len() && creator_matches(name, #[trigger] creators[i], transfers);
    lemma_first_match_exists(name, creators, transfers, w);
    let c = chosen_creator(name, creators, transfers);
    assert forall|j: int| 0 <= j < creators.len() && creator_matches(name, #[trigger] creators[j], transfers) implies creators[c].id
        <= creators[j].id by {
        lemma_first_match_exists(name, creators, transfers, j);
    }
}

} // verus!
