use vstd::prelude::*;

use crate::error::{CapacityKind, RegistryError};
use crate::traits::{AssetStore, Burnable, Cappable, Mintable, Nft, Unique};

verus! {

broadcast use vstd::seq_lib::group_seq_lib_default;

/// A unique asset: an identifier and the payload fixed when it was minted.
pub struct Asset {
    pub id: u64,
    pub info: Vec<u8>,
}

/// The mathematical value of an [`Asset`].
pub ghost struct AssetView {
    pub id: u64,
    pub info: Seq<u8>,
}

impl Nft for Asset {
    type Id = u64;
    type Info = Vec<u8>;
}

impl View for Asset {
    type V = AssetView;

    open spec fn view(&self) -> AssetView {
        AssetView { id: self.id, info: self.info@ }
    }
}

/// A live asset together with the account that currently owns it.
pub struct Holding {
    pub owner: u64,
    pub asset: Asset,
}

/// The predicate "held by `acct`" on holdings.
pub open spec fn held_by(acct: u64) -> spec_fn(Holding) -> bool {
    |h: Holding| h.owner == acct
}

/// The view of a holding's asset.
pub open spec fn asset_of(h: Holding) -> AssetView {
    h.asset@
}

/// The views of a sequence of assets.
pub open spec fn views(s: Seq<Asset>) -> Seq<AssetView> {
    s.map_values(|a: Asset| a@)
}

/// The views of the assets in a sequence of holdings.
pub open spec fn asset_views(s: Seq<Holding>) -> Seq<AssetView> {
    s.map_values(|h: Holding| asset_of(h))
}

/// Removing the holding at `i` lowers the count of its owner by one and
/// leaves every other count unchanged.
proof fn lemma_count_remove(s: Seq<Holding>, i: int, acct: u64)
    requires
        0 <= i < s.len(),
    ensures
        s.remove(i).filter(held_by(acct)).len() == s.filter(held_by(acct)).len() - (if s[i].owner
            == acct {
            1int
        } else {
            0int
        }),
{
    let a = s.subrange(0, i);
    let b = s.subrange(i + 1, s.len() as int);
    assert(s =~= a.push(s[i]) + b);
    a.lemma_filter_push(s[i], held_by(acct));
}

/// The holdings of `acct` among the first `i` holdings, extended by one.
proof fn lemma_prefix_step(s: Seq<Holding>, i: int, acct: u64)
    requires
        0 <= i < s.len(),
    ensures
        s.subrange(0, i + 1).filter(held_by(acct)) == if s[i].owner == acct {
            s.subrange(0, i).filter(held_by(acct)).push(s[i])
        } else {
            s.subrange(0, i).filter(held_by(acct))
        },
        s.subrange(0, i + 1).filter(held_by(acct)).len() <= s.filter(held_by(acct)).len(),
{
    assert(s.subrange(0, i + 1) =~= s.subrange(0, i).push(s[i]));
    s.subrange(0, i).lemma_filter_push(s[i], held_by(acct));
    assert(s =~= s.subrange(0, i + 1) + s.subrange(i + 1, s.len() as int));
}

/// A registry of unique assets for a single namespace of `u64` identifiers,
/// owned by accounts named by `u64`.
///
/// The live assets are kept in one sequence in the order in which they reached
/// their current owner, so that each account's assets enumerate in insertion
/// order. Every identifier ever minted is remembered, so none is reused.
pub struct Registry {
    asset_limit: u128,
    user_asset_limit: u64,
    owner_checked: bool,
    minter: Option<u64>,
    holdings: Vec<Holding>,
    minted_ids: Vec<u64>,
    total_minted: u128,
    total_burned: u128,
}

impl Registry {
    /// The live assets, each with its owner, in order of arrival.
    pub closed spec fn holdings(&self) -> Seq<Holding> {
        self.holdings@
    }

    /// Every identifier that was ever minted, live or burned.
    pub closed spec fn minted_ids(&self) -> Seq<u64> {
        self.minted_ids@
    }

    /// The number of assets minted so far.
    pub closed spec fn minted_count(&self) -> nat {
        self.total_minted as nat
    }

    /// The number of assets burned so far.
    pub closed spec fn burned_count(&self) -> nat {
        self.total_burned as nat
    }

    /// The limit on the number of live assets.
    pub closed spec fn limit(&self) -> nat {
        self.asset_limit as nat
    }

    /// The limit on the number of live assets of one account.
    pub closed spec fn user_limit(&self) -> nat {
        self.user_asset_limit as nat
    }

    /// Whether transfer and burn demand that the caller own the asset.
    pub closed spec fn checks_owner(&self) -> bool {
        self.owner_checked
    }

    /// The only account allowed to mint, if minting is restricted.
    pub closed spec fn minter_spec(&self) -> Option<u64> {
        self.minter
    }

    /// The number of live assets.
    pub open spec fn total_spec(&self) -> nat {
        self.holdings().len()
    }

    /// The live assets held by `acct`, in insertion order.
    pub open spec fn holdings_of(&self, acct: u64) -> Seq<Holding> {
        self.holdings().filter(held_by(acct))
    }

    /// The views of the live assets held by `acct`, in insertion order.
    pub open spec fn assets_of(&self, acct: u64) -> Seq<AssetView> {
        asset_views(self.holdings_of(acct))
    }

    /// The number of live assets held by `acct`.
    pub open spec fn count_of(&self, acct: u64) -> nat {
        self.holdings_of(acct).len()
    }

    /// Whether a live asset carries the identifier `id`.
    pub open spec fn is_live(&self, id: u64) -> bool {
        exists|i: int| 0 <= i < self.holdings().len() && #[trigger] self.holdings()[i].asset.id == id
    }

    /// Whether `acct` owns the live asset `id`.
    pub open spec fn owns(&self, acct: u64, id: u64) -> bool {
        exists|i: int|
            0 <= i < self.holdings().len() && #[trigger] self.holdings()[i].asset.id == id
                && self.holdings()[i].owner == acct
    }

    /// Whether `id` was ever minted.
    pub open spec fn was_minted(&self, id: u64) -> bool {
        self.minted_ids().contains(id)
    }

    /// The well-formedness of a registry: identifiers of live assets are
    /// distinct and were minted, both limits hold, and the counters agree with
    /// the contents.
    pub closed spec fn well_formed(&self) -> bool {
        &&& forall|i: int, j: int|
            0 <= i < j < self.holdings@.len() ==> #[trigger] self.holdings@[i].asset.id
                != #[trigger] self.holdings@[j].asset.id
        &&& forall|i: int|
            0 <= i < self.holdings@.len() ==> self.minted_ids@.contains(
                #[trigger] self.holdings@[i].asset.id,
            )
        &&& self.holdings@.len() <= self.asset_limit
        &&& forall|acct: u64| #[trigger] self.count_of(acct) <= self.user_asset_limit
        &&& self.total_minted == self.minted_ids@.len()
        &&& self.total_burned <= self.total_minted
        &&& self.total_minted - self.total_burned == self.holdings@.len()
    }

    /// The outcome of a mint of `id` to `owner` requested by `caller`.
    pub open spec fn mint_outcome(&self, caller: u64, owner: u64, id: u64) -> Result<(), RegistryError> {
        if self.minter_spec() is Some && self.minter_spec() != Some(caller) {
            Err(RegistryError::NotAuthorized)
        } else if self.total_spec() >= self.limit() {
            Err(RegistryError::CapacityExceeded(CapacityKind::Global))
        } else if self.count_of(owner) >= self.user_limit() {
            Err(RegistryError::CapacityExceeded(CapacityKind::PerOwner))
        } else if self.was_minted(id) {
            Err(RegistryError::DuplicateAsset)
        } else {
            Ok(())
        }
    }

    /// The outcome of a transfer of `id` to `dest` requested by `caller`.
    pub open spec fn transfer_outcome(&self, caller: u64, dest: u64, id: u64) -> Result<(), RegistryError> {
        if !self.is_live(id) {
            Err(RegistryError::AssetNotFound)
        } else if self.checks_owner() && !self.owns(caller, id) {
            Err(RegistryError::NotAuthorized)
        } else if self.count_of(dest) >= self.user_limit() {
            Err(RegistryError::CapacityExceeded(CapacityKind::PerOwner))
        } else {
            Ok(())
        }
    }

    /// The outcome of a burn of `id` requested by `caller`.
    pub open spec fn burn_outcome(&self, caller: u64, id: u64) -> Result<(), RegistryError> {
        if !self.is_live(id) {
            Err(RegistryError::AssetNotFound)
        } else if self.checks_owner() && !self.owns(caller, id) {
            Err(RegistryError::NotAuthorized)
        } else {
            Ok(())
        }
    }

    /// Whether `r` differs from `self` in its live assets and counters only,
    /// keeping the limits and the authorization policy.
    pub open spec fn same_config(&self, r: &Registry) -> bool {
        &&& r.limit() == self.limit()
        &&& r.user_limit() == self.user_limit()
        &&& r.checks_owner() == self.checks_owner()
        &&& r.minter_spec() == self.minter_spec()
    }

    /// Creates an empty registry with the given limits and authorization
    /// policy. With `owner_checked`, only an asset's owner may transfer or burn
    /// it; with `minter` set, only that account may mint.
    pub fn new(asset_limit: u128, user_asset_limit: u64, owner_checked: bool, minter: Option<u64>) -> (r: Registry)
        ensures
            r.well_formed(),
            r.holdings() == Seq::<Holding>::empty(),
            r.minted_ids() == Seq::<u64>::empty(),
            r.minted_count() == 0,
            r.burned_count() == 0,
            r.limit() == asset_limit,
            r.user_limit() == user_asset_limit,
            r.checks_owner() == owner_checked,
            r.minter_spec() == minter,
    {
        Registry {
            asset_limit,
            user_asset_limit,
            owner_checked,
            minter,
            holdings: Vec::new(),
            minted_ids: Vec::new(),
            total_minted: 0,
            total_burned: 0,
        }
    }

    /// The position of the live asset `id`, if there is one.
    fn index_of(&self, id: u64) -> (r: Option<usize>)
        ensures
            match r {
                Some(i) => i < self.holdings@.len() && self.holdings@[i as int].asset.id == id,
                None => !self.is_live(id),
            },
    {
        let mut i: usize = 0;
        while i < self.holdings.len()
            invariant
                i <= self.holdings@.len(),
                forall|k: int| 0 <= k < i ==> self.holdings@[k].asset.id != id,
            decreases self.holdings@.len() - i,
        {
            if self.holdings[i].asset.id == id {
                return Some(i);
            }
            i = i + 1;
        }
        None
    }

    /// Whether `id` was ever minted.
    fn is_minted(&self, id: u64) -> (r: bool)
        ensures
            r == self.was_minted(id),
    {
        let mut i: usize = 0;
        while i < self.minted_ids.len()
            invariant
                i <= self.minted_ids@.len(),
                forall|k: int| 0 <= k < i ==> self.minted_ids@[k] != id,
            decreases self.minted_ids@.len() - i,
        {
            if self.minted_ids[i] == id {
                return true;
            }
            i = i + 1;
        }
        false
    }

    /// The asset at `i` is owned by exactly its recorded owner.
    proof fn lemma_owner_at(&self, i: int)
        requires
            self.well_formed(),
            0 <= i < self.holdings@.len(),
        ensures
            self.is_live(self.holdings@[i].asset.id),
            forall|acct: u64|
                #[trigger] self.owns(acct, self.holdings@[i].asset.id) <==> acct
                    == self.holdings@[i].owner,
    {
        let id = self.holdings@[i].asset.id;
        assert(self.holdings()[i].asset.id == id);
        assert forall|acct: u64| #[trigger] self.owns(acct, id) implies acct == self.holdings@[i].owner by {
            let j = choose|j: int|
                0 <= j < self.holdings().len() && #[trigger] self.holdings()[j].asset.id == id
                    && self.holdings()[j].owner == acct;
            assert(j == i);
        }
    }

    /// The number of assets minted so far, live or burned.
    pub fn minted(&self) -> (r: u128)
        ensures
            r == self.minted_count(),
    {
        self.total_minted
    }

}

impl AssetStore for Registry {
    open spec fn inv(&self) -> bool {
        self.well_formed()
    }
}

impl Unique for Registry {
    type Asset = Asset;
    type AccountId = u64;

    /// The owner of the live asset `id`, or `None` if no live asset carries it.
    fn owner_of(&self, asset_id: &u64) -> (r: Option<u64>)
        ensures
            r is Some <==> self.is_live(*asset_id),
            forall|acct: u64| r == Some(acct) <==> #[trigger] self.owns(acct, *asset_id),
    {
        match self.index_of(*asset_id) {
            Some(i) => {
                let owner = self.holdings[i].owner;
                proof {
                    assert(self.holdings()[i as int].asset.id == *asset_id);
                    assert forall|acct: u64| #[trigger] self.owns(acct, *asset_id) implies acct == owner by {
                        let j = choose|j: int|
                            0 <= j < self.holdings().len() && #[trigger] self.holdings()[j].asset.id
                                == *asset_id && self.holdings()[j].owner == acct;
                        assert(j == i as int);
                    }
                }
                Some(owner)
            },
            None => None,
        }
    }

    /// The live assets held by `account`, in the order in which they reached it.
    fn assets_for_account(&self, account: &u64) -> (r: Vec<Asset>)
        ensures
            views(r@) == self.assets_of(*account),
    {
        let ghost s = self.holdings@;
        let mut r: Vec<Asset> = Vec::new();
        let mut i: usize = 0;
        while i < self.holdings.len()
            invariant
                s == self.holdings@,
                i <= s.len(),
                views(r@) == asset_views(s.subrange(0, i as int).filter(held_by(*account))),
            decreases s.len() - i,
        {
            proof {
                lemma_prefix_step(s, i as int, *account);
            }
            if self.holdings[i].owner == *account {
                let a = Asset { id: self.holdings[i].asset.id, info: self.holdings[i].asset.info.clone() };
                let ghost before = r@;
                r.push(a);
                proof {
                    assert(views(r@) =~= views(before).push(a@));
                    assert(asset_views(s.subrange(0, i + 1).filter(held_by(*account))) =~= asset_views(
                        s.subrange(0, i as int).filter(held_by(*account)),
                    ).push(asset_of(s[i as int])));
                }
            }
            i = i + 1;
        }
        assert(s.subrange(0, s.len() as int) =~= s);
        r
    }

    /// Moves the live asset `asset_id` to `dest_account`, as requested by
    /// `caller`. The asset goes to the end of `dest_account`'s assets.
    ///
    /// Refusals, in this order: `AssetNotFound` when no live asset carries the
    /// identifier; `NotAuthorized` when owners are checked and `caller` is not
    /// the owner; `CapacityExceeded(PerOwner)` when `dest_account` is full.
    fn transfer(&mut self, caller: &u64, dest_account: &u64, asset_id: &u64) -> (r: Result<(), RegistryError>)
        ensures
            final(self).well_formed(),
            old(self).same_config(&*final(self)),
            r == old(self).transfer_outcome(*caller, *dest_account, *asset_id),
            r is Ok ==> exists|i: int|
                0 <= i < old(self).holdings().len() && #[trigger] old(self).holdings()[i].asset.id
                    == *asset_id && final(self).holdings() == old(self).holdings().remove(i).push(
                    (Holding { owner: *dest_account, asset: old(self).holdings()[i].asset }),
                ),
            final(self).minted_ids() == old(self).minted_ids(),
            final(self).minted_count() == old(self).minted_count(),
            final(self).burned_count() == old(self).burned_count(),
            r is Err ==> *final(self) == *old(self),
    {
        let i = match self.index_of(*asset_id) {
            Some(i) => i,
            None => return Err(RegistryError::AssetNotFound),
        };
        proof {
            self.lemma_owner_at(i as int);
        }
        if self.owner_checked && self.holdings[i].owner != *caller {
            return Err(RegistryError::NotAuthorized);
        }
        if self.total_for_account(dest_account) >= self.user_asset_limit {
            return Err(RegistryError::CapacityExceeded(CapacityKind::PerOwner));
        }
        let ghost before = *self;
        let h = self.holdings.remove(i);
        let moved = Holding { owner: *dest_account, asset: h.asset };
        let ghost mv = moved;
        self.holdings.push(moved);
        proof {
            let s = before.holdings@;
            s.remove_ensures(i as int);
            let t = s.remove(i as int);
            assert(self.holdings@ == t.push(mv));
            assert forall|a: int, b: int|
                0 <= a < b < self.holdings@.len() implies #[trigger] self.holdings@[a].asset.id
                != #[trigger] self.holdings@[b].asset.id by {
                let oa = if a < i { a } else { a + 1 };
                let ob = if b == t.len() { i as int } else if b < i { b } else { b + 1 };
                assert(self.holdings@[a].asset.id == s[oa].asset.id);
                assert(self.holdings@[b].asset.id == s[ob].asset.id);
            }
            assert forall|k: int|
                0 <= k < self.holdings@.len() implies self.minted_ids@.contains(
                #[trigger] self.holdings@[k].asset.id,
            ) by {
                let ok = if k == t.len() { i as int } else if k < i { k } else { k + 1 };
                assert(self.holdings@[k].asset.id == s[ok].asset.id);
            }
            assert forall|acct: u64| #[trigger] self.count_of(acct) <= self.user_asset_limit by {
                lemma_count_remove(s, i as int, acct);
                t.lemma_filter_push(mv, held_by(acct));
                assert(before.count_of(acct) <= self.user_asset_limit);
            }
            assert(s[i as int].asset.id == *asset_id);
        }
        Ok(())
    }
}

impl Mintable for Registry {
    type Asset = Asset;
    type AccountId = u64;

    /// Mints the asset `asset_id` with payload `asset_info` for `owner`, as
    /// requested by `caller`.
    ///
    /// Refusals, in this order: `NotAuthorized` when minting is restricted to
    /// another account; `CapacityExceeded(Global)` when the registry is full;
    /// `CapacityExceeded(PerOwner)` when `owner` is full; `DuplicateAsset` when
    /// the identifier was ever minted before, even if it was burned since.
    fn mint(&mut self, caller: &u64, owner: &u64, asset_id: &u64, asset_info: Vec<u8>) -> (r: Result<(), RegistryError>)
        ensures
            final(self).well_formed(),
            old(self).same_config(&*final(self)),
            r == old(self).mint_outcome(*caller, *owner, *asset_id),
            r is Ok ==> final(self).holdings() == old(self).holdings().push(
                (Holding { owner: *owner, asset: Asset { id: *asset_id, info: asset_info } }),
            ),
            r is Ok ==> final(self).minted_ids() == old(self).minted_ids().push(*asset_id),
            r is Ok ==> final(self).minted_count() == old(self).minted_count() + 1,
            final(self).burned_count() == old(self).burned_count(),
            r is Err ==> *final(self) == *old(self),
    {
        if let Some(m) = self.minter {
            if m != *caller {
                return Err(RegistryError::NotAuthorized);
            }
        }
        if self.holdings.len() as u128 >= self.asset_limit {
            return Err(RegistryError::CapacityExceeded(CapacityKind::Global));
        }
        if self.total_for_account(owner) >= self.user_asset_limit {
            return Err(RegistryError::CapacityExceeded(CapacityKind::PerOwner));
        }
        if self.is_minted(*asset_id) {
            return Err(RegistryError::DuplicateAsset);
        }
        let ghost before = *self;
        let h = Holding { owner: *owner, asset: Asset { id: *asset_id, info: asset_info } };
        let ghost hv = h;
        self.holdings.push(h);
        self.minted_ids.push(*asset_id);
        self.total_minted = self.minted_ids.len() as u128;
        proof {
            let s = before.holdings@;
            assert forall|i: int| 0 <= i < s.len() implies #[trigger] s[i].asset.id != *asset_id by {
                assert(before.minted_ids@.contains(s[i].asset.id));
            }
            assert forall|i: int|
                0 <= i < self.holdings@.len() implies self.minted_ids@.contains(
                #[trigger] self.holdings@[i].asset.id,
            ) by {
                if i < s.len() {
                    assert(before.minted_ids@.contains(s[i].asset.id));
                    let k = choose|k: int| 0 <= k < before.minted_ids@.len() && before.minted_ids@[k] == s[i].asset.id;
                    assert(self.minted_ids@[k] == s[i].asset.id);
                } else {
                    assert(self.minted_ids@[before.minted_ids@.len() as int] == *asset_id);
                }
            }
            assert forall|acct: u64| #[trigger] self.count_of(acct) <= self.user_asset_limit by {
                s.lemma_filter_push(hv, held_by(acct));
                assert(before.count_of(acct) <= self.user_asset_limit);
            }
        }
        Ok(())
    }
}

impl Burnable for Registry {
    type Asset = Asset;
    type AccountId = u64;

    /// Destroys the live asset `asset_id`, as requested by `caller`. Its
    /// identifier stays minted and is never handed out again.
    ///
    /// Refusals, in this order: `AssetNotFound` when no live asset carries the
    /// identifier; `NotAuthorized` when owners are checked and `caller` is not
    /// the owner.
    fn burn(&mut self, caller: u64, asset_id: &u64) -> (r: Result<(), RegistryError>)
        ensures
            final(self).well_formed(),
            old(self).same_config(&*final(self)),
            r == old(self).burn_outcome(caller, *asset_id),
            r is Ok ==> exists|i: int|
                0 <= i < old(self).holdings().len() && #[trigger] old(self).holdings()[i].asset.id
                    == *asset_id && final(self).holdings() == old(self).holdings().remove(i),
            r is Ok ==> final(self).burned_count() == old(self).burned_count() + 1,
            r is Ok ==> final(self).was_minted(*asset_id) && !final(self).is_live(*asset_id),
            r is Err ==> final(self).burned_count() == old(self).burned_count(),
            final(self).minted_ids() == old(self).minted_ids(),
            final(self).minted_count() == old(self).minted_count(),
            r is Err ==> *final(self) == *old(self),
    {
        let i = match self.index_of(*asset_id) {
            Some(i) => i,
            None => return Err(RegistryError::AssetNotFound),
        };
        proof {
            self.lemma_owner_at(i as int);
        }
        if self.owner_checked && self.holdings[i].owner != caller {
            return Err(RegistryError::NotAuthorized);
        }
        let ghost before = *self;
        self.holdings.remove(i);
        self.total_burned = self.total_burned + 1;
        proof {
            let s = before.holdings@;
            s.remove_ensures(i as int);
            assert forall|a: int, b: int|
                0 <= a < b < self.holdings@.len() implies #[trigger] self.holdings@[a].asset.id
                != #[trigger] self.holdings@[b].asset.id by {
                let oa = if a < i { a } else { a + 1 };
                let ob = if b < i { b } else { b + 1 };
                assert(self.holdings@[a].asset.id == s[oa].asset.id);
                assert(self.holdings@[b].asset.id == s[ob].asset.id);
            }
            assert forall|k: int|
                0 <= k < self.holdings@.len() implies self.minted_ids@.contains(
                #[trigger] self.holdings@[k].asset.id,
            ) by {
                let ok = if k < i { k } else { k + 1 };
                assert(self.holdings@[k].asset.id == s[ok].asset.id);
            }
            assert forall|acct: u64| #[trigger] self.count_of(acct) <= self.user_asset_limit by {
                lemma_count_remove(s, i as int, acct);
                assert(before.count_of(acct) <= self.user_asset_limit);
            }
            assert(s[i as int].asset.id == *asset_id);
            assert(before.minted_ids@.contains(s[i as int].asset.id));
            if self.is_live(*asset_id) {
                let k = choose|k: int| 0 <= k < self.holdings().len() && #[trigger] self.holdings()[k].asset.id == *asset_id;
                let ok = if k < i { k } else { k + 1 };
                assert(self.holdings@[k] == s[ok]);
            }
        }
        Ok(())
    }

    /// The number of assets burned so far.
    fn burned(&self) -> (r: u128)
        ensures
            r == self.burned_count(),
    {
        self.total_burned
    }
}

impl Cappable for Registry {
    type Asset = Asset;
    type AccountId = u64;

    /// The number of live assets.
    fn total(&self) -> (r: u128)
        ensures
            r == self.total_spec(),
    {
        self.holdings.len() as u128
    }

    /// The number of live assets held by `account`.
    fn total_for_account(&self, account: &u64) -> (r: u64)
        ensures
            r == self.count_of(*account),
    {
        let ghost s = self.holdings@;
        let mut n: u64 = 0;
        let mut i: usize = 0;
        while i < self.holdings.len()
            invariant
                self.well_formed(),
                s == self.holdings@,
                i <= s.len(),
                n == s.subrange(0, i as int).filter(held_by(*account)).len(),
            decreases s.len() - i,
        {
            proof {
                lemma_prefix_step(s, i as int, *account);
                assert(self.count_of(*account) <= self.user_asset_limit);
            }
            if self.holdings[i].owner == *account {
                n = n + 1;
            }
            i = i + 1;
        }
        assert(s.subrange(0, s.len() as int) =~= s);
        n
    }

    /// The limit on the number of live assets.
    fn asset_limit(&self) -> (r: u128)
        ensures
            r == self.limit(),
    {
        self.asset_limit
    }

    /// The limit on the number of live assets one account may hold.
    fn user_asset_limit(&self) -> (r: u64)
        ensures
            r == self.user_limit(),
    {
        self.user_asset_limit
    }
}

/// In every well-formed registry, and so after every operation, the number of
/// live assets is the number minted minus the number burned, it stays within
/// the global limit, and no account holds more than the per-account limit.
pub proof fn lemma_counts_within_limits(r: &Registry)
    requires
        r.well_formed(),
    ensures
        r.burned_count() <= r.minted_count(),
        r.total_spec() == r.minted_count() - r.burned_count(),
        r.total_spec() <= r.limit(),
        forall|acct: u64| #[trigger] r.count_of(acct) <= r.user_limit(),
{
}

/// An account owns a live asset exactly when an asset with that identifier is
/// among the assets listed for the account.
pub proof fn lemma_ownership_consistent(r: &Registry, acct: u64, id: u64)
    requires
        r.well_formed(),
    ensures
        r.owns(acct, id) <==> exists|k: int|
            0 <= k < r.assets_of(acct).len() && #[trigger] r.assets_of(acct)[k].id == id,
{
    let s = r.holdings();
    let f = r.holdings_of(acct);
    if r.owns(acct, id) {
        let i = choose|i: int| 0 <= i < s.len() && #[trigger] s[i].asset.id == id && s[i].owner == acct;
        s.lemma_filter_contains(held_by(acct), i);
        let k = choose|k: int| 0 <= k < f.len() && f[k] == s[i];
        assert(r.assets_of(acct)[k].id == id);
    }
    if exists|k: int| 0 <= k < r.assets_of(acct).len() && #[trigger] r.assets_of(acct)[k].id == id {
        let k = choose|k: int| 0 <= k < r.assets_of(acct).len() && #[trigger] r.assets_of(acct)[k].id == id;
        s.lemma_filter_pred(held_by(acct), k);
        assert(f.contains(f[k]));
        s.lemma_filter_contains_rev(held_by(acct), f[k]);
        let i = choose|i: int| 0 <= i < s.len() && s[i] == f[k];
        assert(s[i].asset.id == id);
    }
}

/// An identifier that was ever minted, which includes every burned one, is
/// never minted again: a mint of it that passes authorization and both
/// capacity checks is refused as a duplicate.
pub proof fn lemma_no_id_reuse(r: &Registry, caller: u64, owner: u64, id: u64)
    requires
        r.well_formed(),
        r.was_minted(id),
        r.minter_spec() is None || r.minter_spec() == Some(caller),
        r.total_spec() < r.limit(),
        r.count_of(owner) < r.user_limit(),
    ensures
        r.mint_outcome(caller, owner, id) == Err::<(), RegistryError>(RegistryError::DuplicateAsset),
{
}

/// Once minted, an identifier stays minted through any mint, transfer or burn,
/// since each of them keeps every identifier it found.
pub proof fn lemma_minted_stays_minted(r: &Registry, next: &Registry, id: u64)
    requires
        r.was_minted(id),
        next.minted_ids() == r.minted_ids() || exists|x: u64| next.minted_ids() == r.minted_ids().push(x),
    ensures
        next.was_minted(id),
{
    if next.minted_ids() != r.minted_ids() {
        let x = choose|x: u64| next.minted_ids() == r.minted_ids().push(x);
        let k = choose|k: int| 0 <= k < r.minted_ids().len() && r.minted_ids()[k] == id;
        assert(next.minted_ids()[k] == id);
    }
}

/// A mint into a full registry is refused for the global limit (once the
/// caller may mint at all).
pub proof fn lemma_mint_into_full_registry(r: &Registry, caller: u64, owner: u64, id: u64)
    requires
        r.well_formed(),
        r.minter_spec() is None || r.minter_spec() == Some(caller),
        r.total_spec() == r.limit(),
    ensures
        r.mint_outcome(caller, owner, id) == Err::<(), RegistryError>(
            RegistryError::CapacityExceeded(CapacityKind::Global),
        ),
{
}

/// A transfer of a live asset to a full account is refused for the
/// per-account limit (once the caller may move the asset at all).
pub proof fn lemma_transfer_to_full_account(r: &Registry, caller: u64, dest: u64, id: u64)
    requires
        r.well_formed(),
        r.is_live(id),
        !r.checks_owner() || r.owns(caller, id),
        r.count_of(dest) == r.user_limit(),
    ensures
        r.transfer_outcome(caller, dest, id) == Err::<(), RegistryError>(
            RegistryError::CapacityExceeded(CapacityKind::PerOwner),
        ),
{
}

} // verus!
