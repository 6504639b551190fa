use unique_assets::error::{CapacityKind, RegistryError};
use unique_assets::registry::Registry;
use unique_assets::traits::{Burnable, Cappable, Mintable, Unique};

const A: u64 = 1;
const B: u64 = 2;
const X: u64 = 100;
const Y: u64 = 200;
const Z: u64 = 300;

fn ids_of(r: &Registry, account: u64) -> Vec<u64> {
    r.assets_for_account(&account).iter().map(|a| a.id).collect()
}

#[test]
fn capacity_scenario() {
    let mut r = Registry::new(2, 1, false, None);
    assert_eq!(r.mint(&A, &A, &X, vec![1]), Ok(()));
    assert_eq!(r.total(), 1);
    assert_eq!(
        r.mint(&A, &A, &Y, vec![2]),
        Err(RegistryError::CapacityExceeded(CapacityKind::PerOwner))
    );
    assert_eq!(r.mint(&B, &B, &Y, vec![2]), Ok(()));
    assert_eq!(r.total(), 2);
    assert_eq!(
        r.mint(&A, &A, &Z, vec![3]),
        Err(RegistryError::CapacityExceeded(CapacityKind::Global))
    );
    assert_eq!(
        r.transfer(&A, &B, &X),
        Err(RegistryError::CapacityExceeded(CapacityKind::PerOwner))
    );
    assert_eq!(r.burn(B, &Y), Ok(()));
    assert_eq!(r.total(), 1);
    assert_eq!(r.burned(), 1);
    assert_eq!(r.transfer(&A, &B, &X), Ok(()));
    assert_eq!(r.total(), 1);
    assert_eq!(r.owner_of(&X), Some(B));
    assert_eq!(r.total_for_account(&A), 0);
    assert_eq!(r.total_for_account(&B), 1);
}

#[test]
fn new_registry_is_empty() {
    let r = Registry::new(10, 3, true, Some(A));
    assert_eq!(r.total(), 0);
    assert_eq!(r.burned(), 0);
    assert_eq!(r.minted(), 0);
    assert_eq!(r.asset_limit(), 10);
    assert_eq!(r.user_asset_limit(), 3);
    assert_eq!(r.owner_of(&X), None);
    assert_eq!(r.total_for_account(&A), 0);
    assert!(r.assets_for_account(&A).is_empty());
}

#[test]
fn mint_records_owner_and_payload() {
    let mut r = Registry::new(10, 3, false, None);
    assert_eq!(r.mint(&B, &A, &X, vec![7, 8, 9]), Ok(()));
    assert_eq!(r.owner_of(&X), Some(A));
    assert_eq!(r.total_for_account(&A), 1);
    assert_eq!(r.total_for_account(&B), 0);
    let assets = r.assets_for_account(&A);
    assert_eq!(assets.len(), 1);
    assert_eq!(assets[0].id, X);
    assert_eq!(assets[0].info, vec![7, 8, 9]);
    assert_eq!(r.minted(), 1);
}

#[test]
fn mint_restricted_to_minter() {
    let mut r = Registry::new(10, 3, false, Some(A));
    assert_eq!(r.mint(&B, &B, &X, vec![]), Err(RegistryError::NotAuthorized));
    assert_eq!(r.total(), 0);
    assert_eq!(r.mint(&A, &B, &X, vec![]), Ok(()));
    assert_eq!(r.owner_of(&X), Some(B));
}

#[test]
fn mint_with_zero_global_limit_fails() {
    let mut r = Registry::new(0, 3, false, None);
    assert_eq!(
        r.mint(&A, &A, &X, vec![]),
        Err(RegistryError::CapacityExceeded(CapacityKind::Global))
    );
    assert_eq!(r.minted(), 0);
}

#[test]
fn mint_live_id_is_duplicate() {
    let mut r = Registry::new(10, 3, false, None);
    assert_eq!(r.mint(&A, &A, &X, vec![1]), Ok(()));
    assert_eq!(r.mint(&B, &B, &X, vec![2]), Err(RegistryError::DuplicateAsset));
    assert_eq!(r.owner_of(&X), Some(A));
    assert_eq!(r.total(), 1);
}

#[test]
fn burned_id_is_never_reused() {
    let mut r = Registry::new(10, 3, false, None);
    assert_eq!(r.mint(&A, &A, &X, vec![1]), Ok(()));
    assert_eq!(r.burn(A, &X), Ok(()));
    assert_eq!(r.owner_of(&X), None);
    assert_eq!(r.mint(&A, &A, &X, vec![1]), Err(RegistryError::DuplicateAsset));
    assert_eq!(r.mint(&B, &B, &X, vec![2]), Err(RegistryError::DuplicateAsset));
    assert_eq!(r.mint(&B, &B, &Y, vec![2]), Ok(()));
    assert_eq!(r.mint(&B, &A, &X, vec![3]), Err(RegistryError::DuplicateAsset));
    assert_eq!(r.total(), 1);
}

#[test]
fn full_registry_refuses_mint_without_change() {
    let mut r = Registry::new(1, 3, false, None);
    assert_eq!(r.mint(&A, &A, &X, vec![1]), Ok(()));
    assert_eq!(
        r.mint(&B, &B, &Y, vec![2]),
        Err(RegistryError::CapacityExceeded(CapacityKind::Global))
    );
    assert_eq!(r.total(), 1);
    assert_eq!(r.minted(), 1);
    assert_eq!(r.owner_of(&Y), None);
    assert_eq!(ids_of(&r, B), Vec::<u64>::new());
    // a refused mint does not take the identifier
    assert_eq!(r.burn(A, &X), Ok(()));
    assert_eq!(r.mint(&B, &B, &Y, vec![2]), Ok(()));
}

#[test]
fn transfer_to_full_account_changes_nothing() {
    let mut r = Registry::new(10, 2, false, None);
    assert_eq!(r.mint(&A, &A, &X, vec![]), Ok(()));
    assert_eq!(r.mint(&B, &B, &Y, vec![]), Ok(()));
    assert_eq!(r.mint(&B, &B, &Z, vec![]), Ok(()));
    assert_eq!(
        r.transfer(&A, &B, &X),
        Err(RegistryError::CapacityExceeded(CapacityKind::PerOwner))
    );
    assert_eq!(ids_of(&r, A), vec![X]);
    assert_eq!(ids_of(&r, B), vec![Y, Z]);
    assert_eq!(r.owner_of(&X), Some(A));
}

#[test]
fn transfer_to_own_full_account_fails() {
    let mut r = Registry::new(10, 1, false, None);
    assert_eq!(r.mint(&A, &A, &X, vec![]), Ok(()));
    assert_eq!(
        r.transfer(&A, &A, &X),
        Err(RegistryError::CapacityExceeded(CapacityKind::PerOwner))
    );
    assert_eq!(r.owner_of(&X), Some(A));
}

#[test]
fn transfer_of_missing_asset_fails() {
    let mut r = Registry::new(10, 2, false, None);
    assert_eq!(r.transfer(&A, &B, &X), Err(RegistryError::AssetNotFound));
    assert_eq!(r.mint(&A, &A, &X, vec![]), Ok(()));
    assert_eq!(r.burn(A, &X), Ok(()));
    assert_eq!(r.transfer(&A, &B, &X), Err(RegistryError::AssetNotFound));
}

#[test]
fn transfer_requires_owner_when_checked() {
    let mut r = Registry::new(10, 2, true, None);
    assert_eq!(r.mint(&A, &A, &X, vec![]), Ok(()));
    assert_eq!(r.transfer(&B, &B, &X), Err(RegistryError::NotAuthorized));
    assert_eq!(r.owner_of(&X), Some(A));
    assert_eq!(r.transfer(&A, &B, &X), Ok(()));
    assert_eq!(r.owner_of(&X), Some(B));
}

#[test]
fn transfer_without_owner_check_trusts_caller() {
    let mut r = Registry::new(10, 2, false, None);
    assert_eq!(r.mint(&A, &A, &X, vec![]), Ok(()));
    assert_eq!(r.transfer(&B, &B, &X), Ok(()));
    assert_eq!(r.owner_of(&X), Some(B));
}

#[test]
fn transferred_asset_goes_last_for_its_new_owner() {
    let mut r = Registry::new(10, 3, false, None);
    assert_eq!(r.mint(&A, &A, &X, vec![]), Ok(()));
    assert_eq!(r.mint(&A, &B, &Y, vec![]), Ok(()));
    assert_eq!(r.mint(&A, &A, &Z, vec![]), Ok(()));
    assert_eq!(ids_of(&r, A), vec![X, Z]);
    assert_eq!(r.transfer(&A, &B, &X), Ok(()));
    assert_eq!(ids_of(&r, A), vec![Z]);
    assert_eq!(ids_of(&r, B), vec![Y, X]);
    assert_eq!(r.total(), 3);
    assert_eq!(r.burned(), 0);
}

#[test]
fn burn_of_missing_asset_fails() {
    let mut r = Registry::new(10, 2, false, None);
    assert_eq!(r.burn(A, &X), Err(RegistryError::AssetNotFound));
    assert_eq!(r.burned(), 0);
}

#[test]
fn burn_requires_owner_when_checked() {
    let mut r = Registry::new(10, 2, true, None);
    assert_eq!(r.mint(&A, &A, &X, vec![]), Ok(()));
    assert_eq!(r.burn(B, &X), Err(RegistryError::NotAuthorized));
    assert_eq!(r.burned(), 0);
    assert_eq!(r.owner_of(&X), Some(A));
    assert_eq!(r.burn(A, &X), Ok(()));
    assert_eq!(r.burned(), 1);
    assert_eq!(r.owner_of(&X), None);
}

#[test]
fn counters_agree_after_operations() {
    let mut r = Registry::new(3, 2, false, None);
    let mut last_burned = r.burned();
    let steps: Vec<(u8, u64, u64)> = vec![
        (0, A, 1),
        (0, A, 2),
        (0, A, 3),
        (0, B, 3),
        (2, A, 1),
        (1, B, 2),
        (0, A, 4),
        (0, B, 5),
        (2, B, 9),
        (2, B, 2),
        (1, B, 4),
        (0, A, 6),
    ];
    for (op, acct, id) in steps {
        let _ = match op {
            0 => r.mint(&acct, &acct, &id, vec![]),
            1 => r.transfer(&acct, &acct, &id),
            _ => r.burn(acct, &id),
        };
        assert_eq!(r.total(), r.minted() - r.burned());
        assert!(r.total() <= r.asset_limit());
        for who in [A, B] {
            assert!(r.total_for_account(&who) <= r.user_asset_limit());
            assert_eq!(r.total_for_account(&who) as usize, r.assets_for_account(&who).len());
        }
        assert!(r.burned() >= last_burned);
        last_burned = r.burned();
    }
    assert_eq!(r.burned(), 2);
    assert_eq!(r.minted(), 5);
}

#[test]
fn owner_of_agrees_with_listing() {
    let mut r = Registry::new(10, 5, false, None);
    assert_eq!(r.mint(&A, &A, &X, vec![]), Ok(()));
    assert_eq!(r.mint(&A, &B, &Y, vec![]), Ok(()));
    assert_eq!(r.mint(&A, &A, &Z, vec![]), Ok(()));
    assert_eq!(r.transfer(&A, &B, &Z), Ok(()));
    for id in [X, Y, Z, 400] {
        for acct in [A, B, 3] {
            let listed = ids_of(&r, acct).contains(&id);
            assert_eq!(r.owner_of(&id) == Some(acct), listed);
        }
    }
}
