use crate::json::same_text;
use crate::models::{optional_text, Creator, NewTap, StoreError, TapWithCreator, TapWithCreatorView};
use vstd::prelude::*;

verus! {

/// The store of registered creators and recorded donations, held in memory.
///
/// Creators are kept in ascending order of id, donations in the order in which
/// they were recorded. Names, addresses and signatures are unique.
pub struct Db {
    creators: Vec<Creator>,
    taps: Vec<NewTap>,
}

/// Copies a creator.
pub fn copy_creator(creator: &Creator) -> (r: Creator)
    ensures
        r == *creator,
{
    Creator { id: creator.id, name: creator.name.clone(), pubkey: creator.pubkey.clone() }
}

/// Copies a donation.
pub fn copy_tap(tap: &NewTap) -> (r: NewTap)
    ensures
        r == *tap,
{
    let donor_pubkey = match &tap.donor_pubkey {
        Some(s) => Some(s.clone()),
        None => None,
    };
    NewTap {
        creator_id: tap.creator_id,
        currency: tap.currency.clone(),
        lamports: tap.lamports,
        signature: tap.signature.clone(),
        donor_pubkey,
        slot: tap.slot,
    }
}

/// The rows of a list, each as mathematical values.
pub open spec fn row_views(rows: Seq<TapWithCreator>) -> Seq<TapWithCreatorView> {
    rows.map_values(|r: TapWithCreator| r@)
}

/// The history row of the donation recorded in place `id`, counted from one.
pub open spec fn row_of(tap: NewTap, id: int, creator_name: Seq<char>) -> TapWithCreatorView {
    TapWithCreatorView {
        id: id as u64,
        creator_name,
        currency: tap.currency@,
        lamports: tap.lamports,
        signature: tap.signature@,
        donor_pubkey: optional_text(tap.donor_pubkey),
        slot: tap.slot,
    }
}

/// The history of `creator` among the first `upto` donations, newest first.
pub open spec fn history_of(taps: Seq<NewTap>, creator: Creator, upto: int) -> Seq<TapWithCreatorView>
    decreases upto,
{
    if upto <= 0 || upto > taps.len() {
        Seq::empty()
    } else if taps[upto - 1].creator_id == creator.id {
        seq![row_of(taps[upto - 1], upto, creator.name@)] + history_of(taps, creator, upto - 1)
    } else {
        history_of(taps, creator, upto - 1)
    }
}

impl Db {
    /// The registered creators, in ascending order of id.
    pub closed spec fn creators(&self) -> Seq<Creator> {
        self.creators@
    }

    /// The recorded donations, oldest first.
    pub closed spec fn taps(&self) -> Seq<NewTap> {
        self.taps@
    }

    /// Whether a creator of this name is registered.
    pub open spec fn has_name(&self, name: Seq<char>) -> bool {
        exists|i: int| 0 <= i < self.creators().len() && (#[trigger] self.creators()[i]).name@ == name
    }

    /// Whether a creator with this address is registered.
    pub open spec fn has_pubkey(&self, pubkey: Seq<char>) -> bool {
        exists|i: int|
            0 <= i < self.creators().len() && (#[trigger] self.creators()[i]).pubkey@ == pubkey
    }

    /// Whether a donation with this signature is recorded.
    pub open spec fn has_signature(&self, signature: Seq<char>) -> bool {
        exists|i: int| 0 <= i < self.taps().len() && (#[trigger] self.taps()[i]).signature@ == signature
    }

    /// The store's invariant: ids count up from one, and no name, address or
    /// signature occurs twice.
    pub open spec fn wf(&self) -> bool {
        &&& forall|i: int| 0 <= i < self.creators().len() ==> (#[trigger] self.creators()[i]).id == i + 1
        &&& forall|i: int, j: int|
            0 <= i < j < self.creators().len() ==> (#[trigger] self.creators()[i]).name@ != (
            #[trigger] self.creators()[j]).name@
        &&& forall|i: int, j: int|
            0 <= i < j < self.creators().len() ==> (#[trigger] self.creators()[i]).pubkey@ != (
            #[trigger] self.creators()[j]).pubkey@
        &&& forall|i: int, j: int|
            0 <= i < j < self.taps().len() ==> (#[trigger] self.taps()[i]).signature@ != (
            #[trigger] self.taps()[j]).signature@
    }

    /// An empty store.
    pub fn new() -> (db: Db)
        ensures
            db.wf(),
            db.creators().len() == 0,
            db.taps().len() == 0,
    {
        Db { creators: Vec::new(), taps: Vec::new() }
    }

    /// Registers a creator under the next id. Turned down with
    /// `UniqueConstraint` where the name or the address is taken, and the
    /// store is then left as it was.
    pub fn add_creator(&mut self, name: &str, pubkey: &str) -> (r: Result<Creator, StoreError>)
        requires
            old(self).wf(),
        ensures
            final(self).wf(),
            final(self).taps() == old(self).taps(),
            match r {
                Ok(c) => {
                    &&& !old(self).has_name(name@)
                    &&& !old(self).has_pubkey(pubkey@)
                    &&& c.id == old(self).creators().len() + 1
                    &&& c.name@ == name@
                    &&& c.pubkey@ == pubkey@
                    &&& final(self).creators() == old(self).creators().push(c)
                },
                Err(e) => {
                    &&& final(self).creators() == old(self).creators()
                    &&& e == if old(self).has_name(name@) || old(self).has_pubkey(pubkey@) {
                        StoreError::UniqueConstraint
                    } else {
                        StoreError::Full
                    }
                    &&& e == StoreError::Full ==> old(self).creators().len() >= i64::MAX
                },
            },
    {
        let mut i: usize = 0;
        while i < self.creators.len()
            invariant
                0 <= i <= self.creators.len(),
                *self == *old(self),
                self.wf(),
                forall|j: int| 0 <= j < i ==> (#[trigger] self.creators()[j]).name@ != name@,
                forall|j: int| 0 <= j < i ==> (#[trigger] self.creators()[j]).pubkey@ != pubkey@,
            decreases self.creators.len() - i,
        {
            if same_text(self.creators[i].name.as_str(), name) || same_text(
                self.creators[i].pubkey.as_str(),
                pubkey,
            ) {
                return Err(StoreError::UniqueConstraint);
            }
            i += 1;
        }
        let count: u64 = self.creators.len() as u64;
        if count >= 0x7fff_ffff_ffff_ffff {
            return Err(StoreError::Full);
        }
        let id: i64 = (count + 1) as i64;
        let creator = Creator { id, name: name.to_owned(), pubkey: pubkey.to_owned() };
        self.creators.push(copy_creator(&creator));
        proof {
            let before = old(self).creators();
            assert forall|i: int| 0 <= i < self.creators().len() implies #[trigger] self.creators()[i] == (if i
                < before.len() {
                before[i]
            } else {
                creator
            }) by {}
        }
        Ok(creator)
    }

    /// The creator registered under `name`, if there is one.
    pub fn get_creator_by_name(&self, name: &str) -> (r: Option<Creator>)
        ensures
            match r {
                Some(c) => c.name@ == name@ && self.creators().contains(c),
                None => !self.has_name(name@),
            },
    {
        let mut i: usize = 0;
        while i < self.creators.len()
            invariant
                0 <= i <= self.creators.len(),
                forall|j: int| 0 <= j < i ==> (#[trigger] self.creators()[j]).name@ != name@,
            decreases self.creators.len() - i,
        {
            if same_text(self.creators[i].name.as_str(), name) {
                return Some(copy_creator(&self.creators[i]));
            }
            i += 1;
        }
        None
    }

    /// Every registered creator, in ascending order of id.
    pub fn list_creators(&self) -> (r: Vec<Creator>)
        ensures
            r@ == self.creators(),
    {
        let mut out: Vec<Creator> = Vec::new();
        let mut i: usize = 0;
        while i < self.creators.len()
            invariant
                0 <= i <= self.creators.len(),
                out@ == self.creators@.take(i as int),
            decreases self.creators.len() - i,
        {
            out.push(copy_creator(&self.creators[i]));
            assert(out@ =~= self.creators@.take(i + 1));
            i += 1;
        }
        assert(self.creators@.take(i as int) =~= self.creators@);
        out
    }

    /// Whether a donation with this signature is recorded.
    pub fn signature_exists(&self, signature: &str) -> (r: bool)
        ensures
            r == self.has_signature(signature@),
    {
        let mut i: usize = 0;
        while i < self.taps.len()
            invariant
                0 <= i <= self.taps.len(),
                forall|j: int| 0 <= j < i ==> (#[trigger] self.taps()[j]).signature@ != signature@,
            decreases self.taps.len() - i,
        {
            if same_text(self.taps[i].signature.as_str(), signature) {
                return true;
            }
            i += 1;
        }
        false
    }

    /// Records a donation. Turned down with `UniqueConstraint` exactly when
    /// its signature is already recorded, and the store is then left as it
    /// was.
    pub fn insert_tap(&mut self, tap: &NewTap) -> (r: Result<(), StoreError>)
        requires
            old(self).wf(),
        ensures
            final(self).wf(),
            final(self).creators() == old(self).creators(),
            match r {
                Ok(_) => !old(self).has_signature(tap.signature@) && final(self).taps() == old(
                    self,
                ).taps().push(*tap),
                Err(e) => old(self).has_signature(tap.signature@) && e == StoreError::UniqueConstraint
                    && final(self).taps() == old(self).taps(),
            },
    {
        if self.signature_exists(tap.signature.as_str()) {
            return Err(StoreError::UniqueConstraint);
        }
        self.taps.push(copy_tap(tap));
        proof {
            let before = old(self).taps();
            assert(self.creators() == old(self).creators());
            assert forall|i: int, j: int| 0 <= i < j < self.taps().len() implies (#[trigger] self.taps()[i]).signature@
                != (#[trigger] self.taps()[j]).signature@ by {
                assert(self.taps()[i] == before[i]);
                if j < before.len() {
                    assert(self.taps()[j] == before[j]);
                }
            }
        }
        Ok(())
    }

    /// The donations recorded for the creator of this name, newest first.
    /// There are none where no creator bears the name.
    pub fn history_by_creator_name(&self, creator_name: &str) -> (r: Vec<TapWithCreator>)
        ensures
            !self.has_name(creator_name@) ==> r@.len() == 0,
            self.has_name(creator_name@) ==> exists|c: Creator|
                self.creators().contains(c) && c.name@ == creator_name@ && row_views(r@)
                    == #[trigger] history_of(self.taps(), c, self.taps().len() as int),
    {
        let mut rows: Vec<TapWithCreator> = Vec::new();
        let creator = match self.get_creator_by_name(creator_name) {
            Some(c) => c,
            None => { return rows; },
        };
        assert(self.creators()[self.creators().index_of(creator)].name@ == creator_name@);
        assert(row_views(rows@) =~= Seq::<TapWithCreatorView>::empty());
        let ghost whole = history_of(self.taps(), creator, self.taps().len() as int);
        let mut i: usize = self.taps.len();
        while i > 0
            invariant
                0 <= i <= self.taps.len(),
                whole == history_of(self.taps(), creator, self.taps().len() as int),
                row_views(rows@) + history_of(self.taps(), creator, i as int) == whole,
            decreases i,
        {
            let tap = &self.taps[i - 1];
            if tap.creator_id == creator.id {
                let ghost before = row_views(rows@);
                let copy = copy_tap(tap);
                let row = TapWithCreator {
                    id: i as u64,
                    creator_name: creator.name.clone(),
                    currency: copy.currency,
                    lamports: copy.lamports,
                    signature: copy.signature,
                    donor_pubkey: copy.donor_pubkey,
                    slot: copy.slot,
                };
                rows.push(row);
                assert(row_views(rows@) =~= before + seq![row_of(*tap, i as int, creator.name@)]);
                assert((before + seq![row_of(*tap, i as int, creator.name@)]) + history_of(
                    self.taps(),
                    creator,
                    i - 1,
                ) =~= before + history_of(self.taps(), creator, i as int));
            }
            i -= 1;
        }
        assert(row_views(rows@) + Seq::<TapWithCreatorView>::empty() =~= row_views(rows@));
        rows
    }
}

} // verus!
