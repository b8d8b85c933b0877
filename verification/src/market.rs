//! The knowledge market: permissions of knowledge blocks and their listing for sale.

use vstd::prelude::*;
use crate::dispatch::{AccountId, DispatchError, Origin, ensure_signed, signer_of};
use crate::storage::StorageMap;

verus! {

/// Identifies a resource (a knowledge block) offered on the market.
pub type ResourceId = u64;

/// An amount of currency.
pub type Balance = u128;

/// What the holder of a knowledge block may do with it.
#[derive(Clone, Copy, Debug, PartialEq, Eq, Structural)]
pub struct Permit {
    pub viewable: bool,
    pub editable: bool,
    pub sellable: bool,
}

impl Permit {
    pub fn new(viewable: bool, editable: bool, sellable: bool) -> (r: Self)
        ensures
            r.viewable == viewable,
            r.editable == editable,
            r.sellable == sellable,
    {
        Permit { viewable, editable, sellable }
    }

    pub fn viewable(&self) -> (r: bool)
        ensures
            r == self.viewable,
    {
        self.viewable
    }

    pub fn editable(&self) -> (r: bool)
        ensures
            r == self.editable,
    {
        self.editable
    }

    pub fn sellable(&self) -> (r: bool)
        ensures
            r == self.sellable,
    {
        self.sellable
    }
}

impl Default for Permit {
    fn default() -> (r: Self)
        ensures
            !r.viewable && !r.editable && !r.sellable,
    {
        Permit { viewable: false, editable: false, sellable: false }
    }
}

/// The terms on which a seller offers a knowledge block.
#[derive(Clone, Copy, Debug, PartialEq, Eq, Structural)]
pub struct SaleData {
    pub price: Balance,
}

impl Default for SaleData {
    fn default() -> (r: Self)
        ensures
            r.price == 0,
    {
        SaleData { price: 0 }
    }
}

/// Events of the market.
#[derive(Clone, Copy, Debug, PartialEq, Eq, Structural)]
pub enum Event {
    ListForSale(ResourceId, AccountId, Balance),
    Sold(ResourceId, AccountId, AccountId),
    PermissionSet { owner: AccountId, knowledge_block_id: ResourceId, permission: Permit },
}

/// Errors of the market.
#[derive(Clone, Copy, Debug, PartialEq, Eq, Structural)]
pub enum Error {
    PermissionNotSet,
    PermissionOwnerSetNotSale,
    NotOriginOwner,
    Overflow,
}

/// The market's storage and the events it has deposited.
pub struct Pallet {
    knowledge_block_for_sale: StorageMap<(ResourceId, AccountId), SaleData>,
    permission: StorageMap<ResourceId, Permit>,
    events: Vec<Event>,
}

/// What `set_sale` answers, given the permissions before the call.
pub open spec fn set_sale_outcome(
    permissions: Map<ResourceId, Permit>,
    origin: Origin,
    knowledge_block_id: ResourceId,
) -> Result<(), DispatchError<Error>> {
    match signer_of(origin) {
        None => Err(DispatchError::BadOrigin),
        Some(_) => if !permissions.contains_key(knowledge_block_id) {
            Err(DispatchError::Module(Error::PermissionNotSet))
        } else if !permissions[knowledge_block_id].sellable {
            Err(DispatchError::Module(Error::PermissionOwnerSetNotSale))
        } else {
            Ok(())
        },
    }
}

impl Pallet {
    /// The offers: seller's price for each (knowledge block, seller).
    pub closed spec fn sales(&self) -> Map<(ResourceId, AccountId), SaleData> {
        self.knowledge_block_for_sale@
    }

    /// The permission set for each knowledge block.
    pub closed spec fn permissions(&self) -> Map<ResourceId, Permit> {
        self.permission@
    }

    /// The events deposited so far, oldest first.
    pub closed spec fn deposited(&self) -> Seq<Event> {
        self.events@
    }

    pub closed spec fn wf(&self) -> bool {
        self.knowledge_block_for_sale.wf() && self.permission.wf()
    }

    /// Empty storage and no events.
    pub fn new() -> (r: Self)
        ensures
            r.wf(),
            r.sales() == Map::<(ResourceId, AccountId), SaleData>::empty(),
            r.permissions() == Map::<ResourceId, Permit>::empty(),
            r.deposited() == Seq::<Event>::empty(),
    {
        Pallet { knowledge_block_for_sale: StorageMap::new(), permission: StorageMap::new(), events: Vec::new() }
    }

    /// The permission of a knowledge block, if one is set.
    pub fn permission(&self, knowledge_block_id: ResourceId) -> (r: Option<Permit>)
        requires
            self.wf(),
        ensures
            r == (if self.permissions().contains_key(knowledge_block_id) {
                Some(self.permissions()[knowledge_block_id])
            } else {
                None
            }),
    {
        match self.permission.get(&knowledge_block_id) {
            Some(p) => Some(*p),
            None => None,
        }
    }

    /// Stores the permission of a knowledge block.
    pub fn set_permission(&mut self, knowledge_block_id: ResourceId, permit: Permit)
        requires
            old(self).wf(),
        ensures
            final(self).wf(),
            final(self).permissions() == old(self).permissions().insert(knowledge_block_id, permit),
            final(self).sales() == old(self).sales(),
            final(self).deposited() == old(self).deposited(),
    {
        self.permission.insert(knowledge_block_id, permit);
    }

    /// The offer of `seller` for a knowledge block; the default (price zero) where there is none.
    pub fn knowledge_block_for_sale(&self, knowledge_block_id: ResourceId, seller: AccountId) -> (r: SaleData)
        requires
            self.wf(),
        ensures
            r == (if self.sales().contains_key((knowledge_block_id, seller)) {
                self.sales()[(knowledge_block_id, seller)]
            } else {
                SaleData { price: 0 }
            }),
    {
        match self.knowledge_block_for_sale.get(&(knowledge_block_id, seller)) {
            Some(s) => *s,
            None => SaleData::default(),
        }
    }

    /// The events deposited so far.
    pub fn events(&self) -> (r: &Vec<Event>)
        ensures
            r@ == self.deposited(),
    {
        &self.events
    }

    /// Lists a knowledge block for sale at `price` by the signer.
    /// The block must have a permission that allows selling; a failed call changes nothing.
    pub fn set_sale(&mut self, origin: Origin, knowledge_block_id: ResourceId, price: Balance) -> (r: Result<
        (),
        DispatchError<Error>,
    >)
        requires
            old(self).wf(),
        ensures
            final(self).wf(),
            r == set_sale_outcome(old(self).permissions(), origin, knowledge_block_id),
            signer_of(origin) is None ==> r == Err::<(), DispatchError<Error>>(DispatchError::BadOrigin),
            signer_of(origin) is Some && !old(self).permissions().contains_key(knowledge_block_id) ==> r == Err::<
                (),
                DispatchError<Error>,
            >(DispatchError::Module(Error::PermissionNotSet)),
            signer_of(origin) is Some && old(self).permissions().contains_key(knowledge_block_id)
                && !old(self).permissions()[knowledge_block_id].sellable ==> r == Err::<(), DispatchError<Error>>(
                DispatchError::Module(Error::PermissionOwnerSetNotSale),
            ),
            r is Ok <==> (signer_of(origin) is Some && old(self).permissions().contains_key(knowledge_block_id)
                && old(self).permissions()[knowledge_block_id].sellable),
            final(self).permissions() == old(self).permissions(),
            r is Ok ==> {
                let from = signer_of(origin)->0;
                &&& final(self).sales() == old(self).sales().insert(
                    (knowledge_block_id, from),
                    SaleData { price },
                )
                &&& final(self).deposited() == old(self).deposited().push(
                    Event::ListForSale(knowledge_block_id, from, price),
                )
            },
            r is Err ==> {
                &&& final(self).sales() == old(self).sales()
                &&& final(self).deposited() == old(self).deposited()
            },
    {
        let from = ensure_signed(origin)?;
        let permission = match self.permission(knowledge_block_id) {
            Some(p) => p,
            None => { return Err(DispatchError::Module(Error::PermissionNotSet)); },
        };
        if !permission.sellable {
            return Err(DispatchError::Module(Error::PermissionOwnerSetNotSale));
        }
        self.knowledge_block_for_sale.insert((knowledge_block_id, from), SaleData { price });
        self.events.push(Event::ListForSale(knowledge_block_id, from, price));
        Ok(())
    }
}

} // verus!

verus! {

/// Once a permission is set for a knowledge block, any signed account can list it for
/// sale exactly when the permission allows selling.
pub proof fn lemma_permission_decides_sale(
    permissions: Map<ResourceId, Permit>,
    knowledge_block_id: ResourceId,
    permit: Permit,
    seller: AccountId,
)
    ensures
        (set_sale_outcome(permissions.insert(knowledge_block_id, permit), Origin::Signed(seller), knowledge_block_id)
            is Ok) == permit.sellable,
{
}

/// What a successful listing stores is what the sale lookup reads back for that seller,
/// and the offers of other sellers or blocks stay as they were.
pub proof fn lemma_listing_read_back(
    sales: Map<(ResourceId, AccountId), SaleData>,
    knowledge_block_id: ResourceId,
    seller: AccountId,
    price: Balance,
    other: (ResourceId, AccountId),
)
    ensures
        sales.insert((knowledge_block_id, seller), SaleData { price })[(knowledge_block_id, seller)].price == price,
        other != (knowledge_block_id, seller) ==> sales.insert((knowledge_block_id, seller), SaleData { price }).contains_key(other)
            == sales.contains_key(other),
        other != (knowledge_block_id, seller) && sales.contains_key(other) ==> sales.insert(
            (knowledge_block_id, seller),
            SaleData { price },
        )[other] == sales[other],
{
}

} // verus!
