use vstd::prelude::*;

use crate::error::RegistryError;

verus! {

/// A type implementing this trait stores all information of an asset.
pub trait Nft {
    /// The type used to identify unique assets.
    type Id;
    /// The attributes that distinguish unique assets.
    type Info;
}

/// A store of assets with an internal invariant that every operation of the
/// facets below keeps.
pub trait AssetStore {
    /// The store's invariant.
    spec fn inv(&self) -> bool;
}

/// Ownership of unique assets: each live asset has one owner, and ownership
/// can be transferred.
pub trait Unique: AssetStore {
    /// A type that implements [`Nft`].
    type Asset: Nft;
    /// The type used to identify asset owners.
    type AccountId;

    /// The account that owns an asset, if the asset exists.
    fn owner_of(&self, asset_id: &<Self::Asset as Nft>::Id) -> Option<Self::AccountId>
        requires
            self.inv(),
    ;

    /// The live assets of an account, in the order in which they reached it.
    fn assets_for_account(&self, account: &Self::AccountId) -> Vec<Self::Asset>
        requires
            self.inv(),
    ;

    /// Transfers ownership of an asset to another account. Fails when the
    /// asset does not exist and when the destination account has already
    /// reached the per-account limit.
    fn transfer(
        &mut self,
        caller: &Self::AccountId,
        dest_account: &Self::AccountId,
        asset_id: &<Self::Asset as Nft>::Id,
    ) -> (r: Result<(), RegistryError>)
        requires
            old(self).inv(),
        ensures
            final(self).inv(),
    ;
}

/// Creation of unique assets.
pub trait Mintable: AssetStore {
    /// A type that implements [`Nft`].
    type Asset: Nft;
    /// The type used to identify asset owners.
    type AccountId;

    /// Creates a new asset with the given identifier and payload for `owner`.
    /// Fails when the identifier is taken, when `owner` has reached the
    /// per-account limit, and when the global limit has been reached.
    fn mint(
        &mut self,
        caller: &Self::AccountId,
        owner: &Self::AccountId,
        asset_id: &<Self::Asset as Nft>::Id,
        asset_info: <Self::Asset as Nft>::Info,
    ) -> (r: Result<(), RegistryError>)
        requires
            old(self).inv(),
        ensures
            final(self).inv(),
    ;
}

/// Destruction of unique assets.
pub trait Burnable: AssetStore {
    /// A type that implements [`Nft`].
    type Asset: Nft;
    /// The type used to identify asset owners.
    type AccountId;

    /// Destroys an asset. Fails when the asset does not exist.
    fn burn(&mut self, caller: Self::AccountId, asset_id: &<Self::Asset as Nft>::Id) -> (r: Result<
        (),
        RegistryError,
    >)
        requires
            old(self).inv(),
        ensures
            final(self).inv(),
    ;

    /// The number of assets burned so far.
    fn burned(&self) -> u128
        requires
            self.inv(),
    ;
}

/// A limit on the number of live assets in total and per account.
pub trait Cappable: AssetStore {
    /// A type that implements [`Nft`].
    type Asset: Nft;
    /// The type used to identify asset owners.
    type AccountId;

    /// The number of live assets (minted minus burned).
    fn total(&self) -> u128
        requires
            self.inv(),
    ;

    /// The number of live assets owned by an account.
    fn total_for_account(&self, account: &Self::AccountId) -> u64
        requires
            self.inv(),
    ;

    /// The number of live assets allowed to exist.
    fn asset_limit(&self) -> u128;

    /// The number of live assets a single account may own.
    fn user_asset_limit(&self) -> u64;
}

} // verus!
