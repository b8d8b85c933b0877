use substrate_ipfs::dispatch::{DispatchError, Origin};
use substrate_ipfs::market::{Error, Event, Pallet, Permit, SaleData};

#[test]
fn permit_new_and_getters() {
    let p = Permit::new(true, false, true);
    assert!(p.viewable());
    assert!(!p.editable());
    assert!(p.sellable());
    assert_eq!(p, Permit { viewable: true, editable: false, sellable: true });
}

#[test]
fn permit_default_allows_nothing() {
    let p = Permit::default();
    assert_eq!(p, Permit::new(false, false, false));
}

#[test]
fn sale_data_default_is_free() {
    assert_eq!(SaleData::default(), SaleData { price: 0 });
}

#[test]
fn set_sale_requires_signed_origin() {
    let mut m = Pallet::new();
    m.set_permission(1, Permit::new(true, true, true));
    assert_eq!(m.set_sale(Origin::Root, 1, 10), Err(DispatchError::BadOrigin));
    assert_eq!(m.set_sale(Origin::Unsigned, 1, 10), Err(DispatchError::BadOrigin));
    assert!(m.events().is_empty());
    assert_eq!(m.knowledge_block_for_sale(1, 0), SaleData { price: 0 });
}

#[test]
fn set_sale_without_permission_fails() {
    let mut m = Pallet::new();
    assert_eq!(m.set_sale(Origin::Signed(5), 3, 10), Err(DispatchError::Module(Error::PermissionNotSet)));
    assert!(m.events().is_empty());
    assert_eq!(m.knowledge_block_for_sale(3, 5), SaleData::default());
}

#[test]
fn set_sale_not_sellable_fails() {
    let mut m = Pallet::new();
    m.set_permission(3, Permit::new(true, true, false));
    assert_eq!(
        m.set_sale(Origin::Signed(5), 3, 10),
        Err(DispatchError::Module(Error::PermissionOwnerSetNotSale))
    );
    assert!(m.events().is_empty());
    assert_eq!(m.knowledge_block_for_sale(3, 5).price, 0);
}

#[test]
fn set_sale_lists_block_and_reads_back() {
    let mut m = Pallet::new();
    m.set_permission(3, Permit::new(false, false, true));
    assert_eq!(m.set_sale(Origin::Signed(5), 3, 250), Ok(()));
    assert_eq!(m.knowledge_block_for_sale(3, 5), SaleData { price: 250 });
    assert_eq!(m.knowledge_block_for_sale(3, 6), SaleData { price: 0 });
    assert_eq!(m.events(), &vec![Event::ListForSale(3, 5, 250)]);
    // A second listing by the same seller replaces the price.
    assert_eq!(m.set_sale(Origin::Signed(5), 3, 300), Ok(()));
    assert_eq!(m.knowledge_block_for_sale(3, 5).price, 300);
    assert_eq!(m.events().len(), 2);
    assert_eq!(m.permission(3), Some(Permit::new(false, false, true)));
    assert_eq!(m.permission(4), None);
}

#[test]
fn sellable_permission_decides_listing() {
    let mut m = Pallet::new();
    m.set_permission(9, Permit::new(true, true, false));
    assert!(m.set_sale(Origin::Signed(1), 9, 1).is_err());
    m.set_permission(9, Permit::new(true, true, true));
    assert!(m.set_sale(Origin::Signed(1), 9, 1).is_ok());
}
