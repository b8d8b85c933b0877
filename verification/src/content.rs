//! A knowledge block's content, and the trait by which a pallet hands its resources to another account.

use vstd::prelude::*;
use crate::dispatch::{AccountId, BlockNumber};
use crate::primitives::clone_bytes;

verus! {

/// Resources that can be transferred from one account to another.
pub trait Sellable<AccountId, ResourceId> {
    /// The state in which `transfer` may be called.
    spec fn well_formed(&self) -> bool;

    fn transfer(&mut self, block_number: ResourceId, from: AccountId, to: AccountId)
        requires
            old(self).well_formed(),
        ensures
            final(self).well_formed(),
    ;
}

/// The content of a knowledge block.
#[derive(Debug, PartialEq, Eq)]
pub struct Content {
    pub owner: AccountId,
    pub block_number: BlockNumber,
    pub title: Vec<u8>,
    pub text: Vec<u8>,
}

impl Content {
    pub fn new(owner: AccountId, block_number: BlockNumber, title: Vec<u8>, text: Vec<u8>) -> (r: Self)
        ensures
            r.owner == owner,
            r.block_number == block_number,
            r.title@ == title@,
            r.text@ == text@,
    {
        Content { owner, block_number, title, text }
    }

    pub fn owner(&self) -> (r: AccountId)
        ensures
            r == self.owner,
    {
        self.owner
    }

    pub fn block_number(&self) -> (r: BlockNumber)
        ensures
            r == self.block_number,
    {
        self.block_number
    }

    pub fn title(&self) -> (r: Vec<u8>)
        ensures
            r@ == self.title@,
    {
        clone_bytes(&self.title)
    }

    pub fn text(&self) -> (r: Vec<u8>)
        ensures
            r@ == self.text@,
    {
        clone_bytes(&self.text)
    }

    pub fn set_title(&mut self, title: Vec<u8>)
        ensures
            final(self).title@ == title@,
            final(self).owner == old(self).owner,
            final(self).block_number == old(self).block_number,
            final(self).text@ == old(self).text@,
    {
        self.title = title;
    }

    pub fn set_text(&mut self, text: Vec<u8>)
        ensures
            final(self).text@ == text@,
            final(self).owner == old(self).owner,
            final(self).block_number == old(self).block_number,
            final(self).title@ == old(self).title@,
    {
        self.text = text;
    }
}

} // verus!
