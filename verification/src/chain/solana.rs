use crate::json::{text_field, unsigned_field, same_text, Json};
use crate::models::{optional_text, VerifyError};
use vstd::prelude::*;

verus! {

/// One movement of the native token found inside a transaction.
#[derive(Debug, Clone)]
pub struct SolTransfer {
    pub source: Option<String>,
    pub destination: String,
    pub lamports: u64,
}

/// What a `SolTransfer` holds, as mathematical values.
pub struct TransferView {
    pub source: Option<Seq<char>>,
    pub destination: Seq<char>,
    pub lamports: u64,
}

impl View for SolTransfer {
    type V = TransferView;

    open spec fn view(&self) -> TransferView {
        TransferView {
            source: optional_text(self.source),
            destination: self.destination@,
            lamports: self.lamports,
        }
    }
}

/// A fetched transaction: the slot it was confirmed in and the native
/// transfers it holds, in the order in which they were found.
#[derive(Debug, Clone)]
pub struct VerifiedTransaction {
    pub slot: u64,
    pub transfers: Vec<SolTransfer>,
}

/// The transfers of a list, each as mathematical values.
pub open spec fn transfer_views(transfers: Seq<SolTransfer>) -> Seq<TransferView> {
    transfers.map_values(|t: SolTransfer| t@)
}

/// Whether `node` says that it belongs to the system program.
pub open spec fn is_system_node(node: Json) -> bool {
    text_field(node, "program"@) == Some("system"@)
}

/// The transfer that `node` describes by itself: its `parsed` member has the
/// type `transfer` and an `info` member with a `destination` string and a
/// `lamports` integer. The `source` string is optional.
pub open spec fn parsed_transfer(node: Json) -> Option<TransferView> {
    match node.field("parsed"@) {
        None => None,
        Some(parsed) => if text_field(parsed, "type"@) != Some("transfer"@) {
            None
        } else {
            match parsed.field("info"@) {
                None => None,
                Some(info) => match (
                    text_field(info, "destination"@),
                    unsigned_field(info, "lamports"@),
                ) {
                    (Some(destination), Some(lamports)) => Some(
                        TransferView { source: text_field(info, "source"@), destination, lamports },
                    ),
                    _ => None,
                },
            }
        },
    }
}

/// The transfer that `node` itself contributes, its children left aside.
pub open spec fn own_transfers(node: Json) -> Seq<TransferView> {
    if is_system_node(node) && parsed_transfer(node) is Some {
        seq![parsed_transfer(node)->0]
    } else {
        Seq::empty()
    }
}

/// Every transfer in the tree under `node`, depth first: a node's own transfer
/// comes before those of its children, and children come in document order.
pub open spec fn transfers_in(node: Json) -> Seq<TransferView>
    decreases node, 0int,
{
    match node {
        Json::Object(members) => own_transfers(node) + transfers_in_members(members, 0),
        Json::Array(items) => transfers_in_items(items, 0),
        _ => Seq::empty(),
    }
}

/// The transfers under the elements of `items` from position `from` on.
pub open spec fn transfers_in_items(items: Vec<Json>, from: int) -> Seq<TransferView>
    decreases items, items.len() - from,
{
    if 0 <= from < items.len() {
        transfers_in(items[from]) + transfers_in_items(items, from + 1)
    } else {
        Seq::empty()
    }
}

/// The transfers under the member values of `members` from position `from` on.
pub open spec fn transfers_in_members(members: Vec<(String, Json)>, from: int) -> Seq<TransferView>
    decreases members, members.len() - from,
{
    if 0 <= from < members.len() {
        transfers_in(members[from].1) + transfers_in_members(members, from + 1)
    } else {
        Seq::empty()
    }
}

/// Appends the transfer that `node` describes by itself, if it describes one.
pub fn maybe_push_system_transfer(node: &Json, transfers: &mut Vec<SolTransfer>)
    ensures
        transfer_views(final(transfers)@) == transfer_views(old(transfers)@) + (match parsed_transfer(*node) {
            Some(t) => seq![t],
            None => Seq::empty(),
        }),
{
    let ghost before = transfer_views(transfers@);
    assert(before + Seq::<TransferView>::empty() =~= before);
    let parsed = match node.get("parsed") {
        Some(p) => p,
        None => { return ; },
    };
    let is_transfer = match parsed.get_str("type") {
        Some(t) => same_text(t, "transfer"),
        None => false,
    };
    if !is_transfer {
        return ;
    }
    let info = match parsed.get("info") {
        Some(i) => i,
        None => { return ; },
    };
    let source = match info.get_str("source") {
        Some(s) => Some(s.to_owned()),
        None => None,
    };
    let destination = info.get_str("destination");
    let lamports = info.get_u64("lamports");
    match (destination, lamports) {
        (Some(destination), Some(lamports)) => {
            let transfer = SolTransfer { source, destination: destination.to_owned(), lamports };
            transfers.push(transfer);
            assert(transfer_views(transfers@) =~= before + seq![transfer@]);
        },
        _ => {},
    }
}

/// Walks the tree under `value` and appends every transfer found in it.
pub fn walk_value(value: &Json, transfers: &mut Vec<SolTransfer>)
    ensures
        transfer_views(final(transfers)@) == transfer_views(old(transfers)@) + transfers_in(*value),
    decreases value,
{
    let ghost before = transfer_views(transfers@);
    assert(before + Seq::<TransferView>::empty() =~= before);
    match value {
        Json::Object(members) => {
            let is_system = match value.get_str("program") {
                Some(p) => same_text(p, "system"),
                None => false,
            };
            if is_system {
                maybe_push_system_transfer(value, transfers);
            }
            assert(transfer_views(transfers@) == before + own_transfers(*value));
            let mut i: usize = 0;
            while i < members.len()
                invariant
                    0 <= i <= members.len(),
                    *value == Json::Object(*members),
                    transfer_views(transfers@) + transfers_in_members(*members, i as int) == before
                        + transfers_in(*value),
                decreases members.len() - i,
            {
                let ghost so_far = transfer_views(transfers@);
                walk_value(&members[i].1, transfers);
                assert((so_far + transfers_in(members[i as int].1)) + transfers_in_members(
                    *members,
                    i + 1,
                ) =~= so_far + transfers_in_members(*members, i as int));
                i += 1;
            }
            assert(transfer_views(transfers@) + Seq::<TransferView>::empty() =~= transfer_views(
                transfers@,
            ));
        },
        Json::Array(items) => {
            let mut i: usize = 0;
            while i < items.len()
                invariant
                    0 <= i <= items.len(),
                    *value == Json::Array(*items),
                    transfer_views(transfers@) + transfers_in_items(*items, i as int) == before
                        + transfers_in(*value),
                decreases items.len() - i,
            {
                let ghost so_far = transfer_views(transfers@);
                walk_value(&items[i], transfers);
                assert((so_far + transfers_in(items[i as int])) + transfers_in_items(*items, i + 1)
                    =~= so_far + transfers_in_items(*items, i as int));
                i += 1;
            }
            assert(transfer_views(transfers@) + Seq::<TransferView>::empty() =~= transfer_views(
                transfers@,
            ));
        },
        _ => {},
    }
}

/// Collects every native transfer in a decoded transaction, at any depth, in
/// depth-first document order.
pub fn extract_sol_transfers(value: &Json) -> (transfers: Vec<SolTransfer>)
    ensures
        transfer_views(transfers@) == transfers_in(*value),
{
    let mut transfers: Vec<SolTransfer> = Vec::new();
    assert(transfer_views(transfers@) =~= Seq::<TransferView>::empty());
    walk_value(value, &mut transfers);
    assert(Seq::<TransferView>::empty() + transfers_in(*value) =~= transfers_in(*value));
    transfers
}

/// Whether `text` is accepted as a transaction signature: the verdict of
/// `Signature::from_str` in solana_sdk, which takes the base58 form of exactly
/// 64 bytes.
pub uninterp spec fn well_formed_signature(text: Seq<char>) -> bool;

/// Hands `text` to `Signature::from_str` of solana_sdk and tells whether it
/// was accepted. The contract claims only that the verdict depends on the
/// characters of `text` alone; the parser reads nothing else and does not
/// panic.
#[verifier::external_body]
fn parses_as_signature(text: &str) -> (r: bool)
    ensures
        r == well_formed_signature(text@),
{
    text.parse::<solana_sdk::signature::Signature>().is_ok()
}

/// Accepts a well-formed signature and turns any other text down.
pub fn check_signature(signature: &str) -> (r: Result<(), VerifyError>)
    ensures
        r == if well_formed_signature(signature@) {
            Ok::<(), VerifyError>(())
        } else {
            Err::<(), VerifyError>(VerifyError::InvalidSignature)
        },
{
    if parses_as_signature(signature) {
        Ok(())
    } else {
        Err(VerifyError::InvalidSignature)
    }
}

/// The `i`-th child of `node`: a member's value or an array's element.
pub open spec fn child(node: Json, i: int) -> Option<Json> {
    match node {
        Json::Object(members) => if 0 <= i < members.len() {
            Some(members[i].1)
        } else {
            None
        },
        Json::Array(items) => if 0 <= i < items.len() {
            Some(items[i])
        } else {
            None
        },
        _ => None,
    }
}

/// The node reached from `node` by stepping to the child at each position of
/// `path` in turn.
pub open spec fn descendant(node: Json, path: Seq<int>) -> Option<Json>
    decreases path.len(),
{
    if path.len() == 0 {
        Some(node)
    } else {
        match child(node, path[0]) {
            Some(c) => descendant(c, path.skip(1)),
            None => None,
        }
    }
}

proof fn lemma_contains_left(a: Seq<TransferView>, b: Seq<TransferView>, t: TransferView)
    requires
        a.contains(t),
    ensures
        (a + b).contains(t),
{
    let i = choose|i: int| 0 <= i < a.len() && a[i] == t;
    assert((a + b)[i] == t);
}

proof fn lemma_contains_right(a: Seq<TransferView>, b: Seq<TransferView>, t: TransferView)
    requires
        b.contains(t),
    ensures
        (a + b).contains(t),
{
    let i = choose|i: int| 0 <= i < b.len() && b[i] == t;
    assert((a + b)[a.len() + i] == t);
}

proof fn lemma_item_transfers_found(items: Vec<Json>, from: int, i: int, t: TransferView)
    requires
        0 <= from <= i < items.len(),
        transfers_in(items[i]).contains(t),
    ensures
        transfers_in_items(items, from).contains(t),
    decreases i - from,
{
    if from == i {
        lemma_contains_left(transfers_in(items[from]), transfers_in_items(items, from + 1), t);
    } else {
        lemma_item_transfers_found(items, from + 1, i, t);
        lemma_contains_right(transfers_in(items[from]), transfers_in_items(items, from + 1), t);
    }
}

proof fn lemma_member_transfers_found(members: Vec<(String, Json)>, from: int, i: int, t: TransferView)
    requires
        0 <= from <= i < members.len(),
        transfers_in(members[i].1).contains(t),
    ensures
        transfers_in_members(members, from).contains(t),
    decreases i - from,
{
    if from == i {
        lemma_contains_left(transfers_in(members[from].1), transfers_in_members(members, from + 1), t);
    } else {
        lemma_member_transfers_found(members, from + 1, i, t);
        lemma_contains_right(transfers_in(members[from].1), transfers_in_members(members, from + 1), t);
    }
}

/// Nesting hides nothing: a transfer found under a node is found under every
/// node that the first one descends from, however long the path between them.
pub proof fn lemma_nested_transfers_found(root: Json, path: Seq<int>, t: TransferView)
    requires
        descendant(root, path) is Some,
        transfers_in(descendant(root, path)->0).contains(t),
    ensures
        transfers_in(root).contains(t),
    decreases path.len(),
{
    if path.len() > 0 {
        let c = child(root, path[0])->0;
        lemma_nested_transfers_found(c, path.skip(1), t);
        match root {
            Json::Object(members) => {
                lemma_member_transfers_found(members, 0, path[0], t);
                lemma_contains_right(own_transfers(root), transfers_in_members(members, 0), t);
            },
            Json::Array(items) => {
                lemma_item_transfers_found(items, 0, path[0], t);
            },
            _ => {},
        }
    }
}

/// A node of the system program that describes a transfer has that transfer
/// among those found under any node it descends from.
pub proof fn lemma_nested_system_transfer_found(root: Json, path: Seq<int>)
    requires
        descendant(root, path) is Some,
        is_system_node(descendant(root, path)->0),
        parsed_transfer(descendant(root, path)->0) is Some,
    ensures
        transfers_in(root).contains(parsed_transfer(descendant(root, path)->0)->0),
{
    let inner = descendant(root, path)->0;
    let t = parsed_transfer(inner)->0;
    assert(own_transfers(inner)[0] == t);
    match inner {
        Json::Object(members) => {
            lemma_contains_left(own_transfers(inner), transfers_in_members(members, 0), t);
        },
        _ => {},
    }
    lemma_nested_transfers_found(root, path, t);
}

/// Extraction is repeatable: two runs over one document give the same
/// transfers in the same order.
pub proof fn lemma_extraction_repeatable(value: Json, first: Seq<SolTransfer>, second: Seq<SolTransfer>)
    requires
        transfer_views(first) == transfers_in(value),
        transfer_views(second) == transfers_in(value),
    ensures
        transfer_views(first) == transfer_views(second),
        first.len() == second.len(),
{
    assert(transfer_views(first).len() == first.len());
    assert(transfer_views(second).len() == second.len());
}

/// Reads a decoded transaction: its slot and the native transfers it holds.
/// The read fails exactly when the document has no unsigned integer under
/// `slot`.
pub fn decode_transaction(value: &Json) -> (r: Result<VerifiedTransaction, VerifyError>)
    ensures
        match unsigned_field(*value, "slot"@) {
            None => r == Err::<VerifiedTransaction, VerifyError>(VerifyError::MalformedResponse),
            Some(slot) => r matches Ok(v) && v.slot == slot && transfer_views(v.transfers@)
                == transfers_in(*value),
        },
{
    match value.get_u64("slot") {
        None => Err(VerifyError::MalformedResponse),
        Some(slot) => {
            let transfers = extract_sol_transfers(value);
            Ok(VerifiedTransaction { slot, transfers })
        },
    }
}

} // verus!
