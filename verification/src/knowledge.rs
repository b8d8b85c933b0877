//! The knowledge pallet: accounts create knowledge blocks, whose title and text are
//! added to IPFS by the offchain worker; the worker reports back through `ocw_callback`.

use vstd::prelude::*;
use crate::content::Sellable;
use crate::dispatch::{AccountId, BlockNumber, DispatchError, Origin, ensure_signed, signer_of};
use crate::ipfs_core::{
    CommandRequest, CommandRequestView, IpfsCommand, IpfsCommandView, IpfsFile, IpfsFileView,
    IpfsResponse, OffchainData, OffchainDataView, TypeEquality, callback_bytes, command_identifier,
    generate_id, ocw_parse_ipfs_response,
};
use crate::primitives::{append_bytes, clone_bytes, scale_encode_u32, u32_le_bytes};
use crate::storage::{StorageKey, StorageMap, lemma_map_values_insert, lemma_seq_map_values_push};

verus! {

/// Events of the knowledge pallet.
#[derive(Debug, PartialEq, Eq)]
pub enum Event {
    Created { creator: AccountId, block_number: BlockNumber, title: Vec<u8>, text: Vec<u8> },
    Modified {
        creator: AccountId,
        owner: AccountId,
        block_number: BlockNumber,
        title: Vec<u8>,
        text: Vec<u8>,
    },
    Transferred { from: AccountId, to: AccountId, block_number: BlockNumber },
    Got { owner: AccountId, block_number: BlockNumber, title: Vec<u8>, text: Vec<u8> },
    Owners { requestor: AccountId, block_number: BlockNumber, owners: Vec<AccountId> },
    ConnectionRequested(AccountId),
    DisconnectedRequested(AccountId),
    QueuedDataToAdd(AccountId, AccountId),
    QueuedDataToCat(AccountId),
    QueuedDataToPin(AccountId),
    QueuedDataToRemove(AccountId),
    QueuedDataToUnpin(AccountId),
    FindPeerIssued(AccountId),
    FindProvidersIssued(AccountId),
    OcwCallback(AccountId),
    ConnectedTo(AccountId, Vec<u8>),
    DisconnectedFrom(AccountId, Vec<u8>),
    AddedCid(AccountId, Vec<u8>),
    CatBytes(AccountId, Vec<u8>, Vec<u8>),
    InsertedPin(AccountId, Vec<u8>),
    RemovedPin(AccountId, Vec<u8>),
    RemovedBlock(AccountId, Vec<u8>),
    FoundPeers(AccountId, Vec<u8>),
    CidProviders(AccountId, Vec<u8>, Vec<u8>),
    OffchainRequest { block_number: BlockNumber },
    DataStored { block_number: BlockNumber },
}

/// The mathematical value of an [`Event`].
pub enum EventView {
    Created { creator: AccountId, block_number: BlockNumber, title: Seq<u8>, text: Seq<u8> },
    Modified {
        creator: AccountId,
        owner: AccountId,
        block_number: BlockNumber,
        title: Seq<u8>,
        text: Seq<u8>,
    },
    Transferred { from: AccountId, to: AccountId, block_number: BlockNumber },
    Got { owner: AccountId, block_number: BlockNumber, title: Seq<u8>, text: Seq<u8> },
    Owners { requestor: AccountId, block_number: BlockNumber, owners: Seq<AccountId> },
    ConnectionRequested(AccountId),
    DisconnectedRequested(AccountId),
    QueuedDataToAdd(AccountId, AccountId),
    QueuedDataToCat(AccountId),
    QueuedDataToPin(AccountId),
    QueuedDataToRemove(AccountId),
    QueuedDataToUnpin(AccountId),
    FindPeerIssued(AccountId),
    FindProvidersIssued(AccountId),
    OcwCallback(AccountId),
    ConnectedTo(AccountId, Seq<u8>),
    DisconnectedFrom(AccountId, Seq<u8>),
    AddedCid(AccountId, Seq<u8>),
    CatBytes(AccountId, Seq<u8>, Seq<u8>),
    InsertedPin(AccountId, Seq<u8>),
    RemovedPin(AccountId, Seq<u8>),
    RemovedBlock(AccountId, Seq<u8>),
    FoundPeers(AccountId, Seq<u8>),
    CidProviders(AccountId, Seq<u8>, Seq<u8>),
    OffchainRequest { block_number: BlockNumber },
    DataStored { block_number: BlockNumber },
}

impl View for Event {
    type V = EventView;

    open spec fn view(&self) -> EventView {
        match self {
            Event::Created { creator, block_number, title, text } => EventView::Created {
                creator: *creator,
                block_number: *block_number,
                title: title@,
                text: text@,
            },
            Event::Modified { creator, owner, block_number, title, text } => EventView::Modified {
                creator: *creator,
                owner: *owner,
                block_number: *block_number,
                title: title@,
                text: text@,
            },
            Event::Transferred { from, to, block_number } => EventView::Transferred {
                from: *from,
                to: *to,
                block_number: *block_number,
            },
            Event::Got { owner, block_number, title, text } => EventView::Got {
                owner: *owner,
                block_number: *block_number,
                title: title@,
                text: text@,
            },
            Event::Owners { requestor, block_number, owners } => EventView::Owners {
                requestor: *requestor,
                block_number: *block_number,
                owners: owners@,
            },
            Event::ConnectionRequested(a) => EventView::ConnectionRequested(*a),
            Event::DisconnectedRequested(a) => EventView::DisconnectedRequested(*a),
            Event::QueuedDataToAdd(a, b) => EventView::QueuedDataToAdd(*a, *b),
            Event::QueuedDataToCat(a) => EventView::QueuedDataToCat(*a),
            Event::QueuedDataToPin(a) => EventView::QueuedDataToPin(*a),
            Event::QueuedDataToRemove(a) => EventView::QueuedDataToRemove(*a),
            Event::QueuedDataToUnpin(a) => EventView::QueuedDataToUnpin(*a),
            Event::FindPeerIssued(a) => EventView::FindPeerIssued(*a),
            Event::FindProvidersIssued(a) => EventView::FindProvidersIssued(*a),
            Event::OcwCallback(a) => EventView::OcwCallback(*a),
            Event::ConnectedTo(a, b) => EventView::ConnectedTo(*a, b@),
            Event::DisconnectedFrom(a, b) => EventView::DisconnectedFrom(*a, b@),
            Event::AddedCid(a, b) => EventView::AddedCid(*a, b@),
            Event::CatBytes(a, b, c) => EventView::CatBytes(*a, b@, c@),
            Event::InsertedPin(a, b) => EventView::InsertedPin(*a, b@),
            Event::RemovedPin(a, b) => EventView::RemovedPin(*a, b@),
            Event::RemovedBlock(a, b) => EventView::RemovedBlock(*a, b@),
            Event::FoundPeers(a, b) => EventView::FoundPeers(*a, b@),
            Event::CidProviders(a, b, c) => EventView::CidProviders(*a, b@, c@),
            Event::OffchainRequest { block_number } => EventView::OffchainRequest {
                block_number: *block_number,
            },
            Event::DataStored { block_number } => EventView::DataStored { block_number: *block_number },
        }
    }
}

/// Errors of the knowledge pallet.
#[derive(Clone, Copy, Debug, PartialEq, Eq, Structural)]
pub enum Error {
    KnowledgeNotExist,
    NotOwned,
    NoPermission,
    NoContent,
    UnknownOffchainMux,
    NoLocalAcctForSigning,
    OffchainSignedTxError,
    OffchainUnsignedTxError,
    OffchainUnsignedTxSignedPayloadError,
    HttpFetchingError,
    DeserializeToObjError,
    DeserializeToStrError,
}

/// The state of the knowledge pallet and of what it reads and writes beside its own storage.
#[verifier::ext_equal]
pub struct KnowledgeState {
    /// The number of the current block.
    pub block_number: BlockNumber,
    /// For each knowledge block and owner: the blocks in which its content was stored, oldest first.
    pub knowledge: Map<(BlockNumber, AccountId), Seq<BlockNumber>>,
    /// The files added to IPFS, by cid.
    pub ipfs_files: Map<Seq<u8>, IpfsFileView>,
    /// Offchain data stored on chain, by block.
    pub ipfs_data: Map<BlockNumber, OffchainDataView>,
    /// Knowledge blocks held by each account.
    pub account: Map<(AccountId, BlockNumber), u8>,
    /// The command requests queued for the offchain worker, if any were ever queued.
    pub commands: Option<Seq<CommandRequestView>>,
    /// Title and text indexed for the offchain worker, by block.
    pub offchain_data: Map<BlockNumber, OffchainDataView>,
    /// The encoded block number indexed for the offchain worker, by block.
    pub offchain_index: Map<BlockNumber, Seq<u8>>,
    /// The events deposited so far, oldest first.
    pub events: Seq<EventView>,
}

/// The knowledge pallet with the storage it uses.
pub struct Pallet {
    block_number: BlockNumber,
    knowledge: StorageMap<(BlockNumber, AccountId), Vec<BlockNumber>>,
    ipfs_file_storage: StorageMap<Vec<u8>, IpfsFile>,
    ipfs_data: StorageMap<BlockNumber, OffchainData>,
    account: StorageMap<(AccountId, BlockNumber), u8>,
    commands: Option<Vec<CommandRequest>>,
    offchain_data: StorageMap<BlockNumber, OffchainData>,
    offchain_index: StorageMap<BlockNumber, Vec<u8>>,
    events: Vec<Event>,
}

/// The queue after `request` is appended to it.
pub open spec fn queued_after(commands: Option<Seq<CommandRequestView>>, request: CommandRequestView) -> Option<
    Seq<CommandRequestView>,
> {
    match commands {
        Some(q) => Some(q.push(request)),
        None => Some(seq![request]),
    }
}

/// The request that `create` and `modify_content` queue: add the new content to IPFS.
pub open spec fn add_bytes_request(identifier: Seq<u8>, requester: AccountId) -> CommandRequestView {
    CommandRequestView {
        identifier,
        requester,
        ipfs_commands: seq![IpfsCommandView::AddBytes(1)],
    }
}

/// The accounts that hold the knowledge block `block_number`.
pub open spec fn owners_of(knowledge: Map<(BlockNumber, AccountId), Seq<BlockNumber>>, block_number: BlockNumber) -> Set<
    AccountId,
> {
    Set::new(|a: AccountId| knowledge.contains_key((block_number, a)))
}

/// The bytes of `https://ipfs.io/ipfs/`.
pub open spec fn ipfs_gateway_prefix() -> Seq<u8> {
    seq![
        104u8, 116u8, 116u8, 112u8, 115u8, 58u8, 47u8, 47u8, 105u8, 112u8, 102u8,
        115u8, 46u8, 105u8, 111u8, 47u8, 105u8, 112u8, 102u8, 115u8, 47u8,
    ]
}

/// The URL of a cid on the public IPFS gateway; empty when no file with that cid is stored.
pub open spec fn file_url_for_cid(files: Map<Seq<u8>, IpfsFileView>, cid: Seq<u8>) -> Seq<u8> {
    if files.contains_key(cid) {
        ipfs_gateway_prefix() + cid
    } else {
        Seq::empty()
    }
}

/// The event that reports the completion of one command of a request.
pub open spec fn command_event(requester: AccountId, command: IpfsCommandView, data: Seq<u8>) -> EventView {
    match command {
        IpfsCommandView::ConnectTo(address) => EventView::ConnectedTo(requester, address),
        IpfsCommandView::DisconnectFrom(address) => EventView::DisconnectedFrom(requester, address),
        IpfsCommandView::AddBytes(_) => EventView::AddedCid(requester, data),
        IpfsCommandView::CatBytes(cid) => EventView::CatBytes(requester, cid, data),
        IpfsCommandView::InsertPin(cid) => EventView::InsertedPin(requester, cid),
        IpfsCommandView::RemoveBlock(cid) => EventView::RemovedBlock(requester, cid),
        IpfsCommandView::RemovePin(cid) => EventView::RemovedPin(requester, cid),
        IpfsCommandView::FindPeer(_) => EventView::FoundPeers(requester, data),
        IpfsCommandView::GetProviders(cid) => EventView::CidProviders(requester, cid, data),
    }
}

/// The events that report the completion of a request: one per command, in order.
pub open spec fn callback_events(request: CommandRequestView, data: Seq<u8>) -> Seq<EventView> {
    request.ipfs_commands.map_values(|c: IpfsCommandView| command_event(request.requester, c, data))
}

/// Whether the request contains a command that adds bytes.
pub open spec fn has_add_bytes(request: CommandRequestView) -> bool {
    exists|i: int| 0 <= i < request.ipfs_commands.len() && #[trigger] request.ipfs_commands[i] is AddBytes
}

/// The identifiers of the queued requests, in queue order.
pub open spec fn request_identifiers(queue: Seq<CommandRequestView>) -> Seq<Seq<u8>> {
    queue.map_values(|r: CommandRequestView| r.identifier)
}

} // verus!

verus! {

impl View for Pallet {
    type V = KnowledgeState;

    closed spec fn view(&self) -> KnowledgeState {
        KnowledgeState {
            block_number: self.block_number,
            knowledge: self.knowledge@.map_values(|v: Vec<BlockNumber>| v@),
            ipfs_files: self.ipfs_file_storage@.map_values(|f: IpfsFile| f@),
            ipfs_data: self.ipfs_data@.map_values(|d: OffchainData| d@),
            account: self.account@,
            commands: match self.commands {
                Some(q) => Some(q@.map_values(|r: CommandRequest| r@)),
                None => None,
            },
            offchain_data: self.offchain_data@.map_values(|d: OffchainData| d@),
            offchain_index: self.offchain_index@.map_values(|v: Vec<u8>| v@),
            events: self.events@.map_values(|e: Event| e@),
        }
    }
}

/// A copy of a list of block numbers.
fn clone_block_numbers(v: &Vec<BlockNumber>) -> (r: Vec<BlockNumber>)
    ensures
        r@ == v@,
{
    let r = v.clone();
    assert(r@ =~= v@);
    r
}

impl Pallet {
    pub closed spec fn wf(&self) -> bool {
        &&& self.knowledge.wf()
        &&& self.ipfs_file_storage.wf()
        &&& self.ipfs_data.wf()
        &&& self.account.wf()
        &&& self.offchain_data.wf()
        &&& self.offchain_index.wf()
    }

    /// Empty storage at block `block_number`.
    pub fn new(block_number: BlockNumber) -> (r: Self)
        ensures
            r.wf(),
            r@.block_number == block_number,
            r@.knowledge == Map::<(BlockNumber, AccountId), Seq<BlockNumber>>::empty(),
            r@.ipfs_files == Map::<Seq<u8>, IpfsFileView>::empty(),
            r@.ipfs_data == Map::<BlockNumber, OffchainDataView>::empty(),
            r@.account == Map::<(AccountId, BlockNumber), u8>::empty(),
            r@.commands == None::<Seq<CommandRequestView>>,
            r@.offchain_data == Map::<BlockNumber, OffchainDataView>::empty(),
            r@.offchain_index == Map::<BlockNumber, Seq<u8>>::empty(),
            r@.events == Seq::<EventView>::empty(),
    {
        let r = Pallet {
            block_number,
            knowledge: StorageMap::new(),
            ipfs_file_storage: StorageMap::new(),
            ipfs_data: StorageMap::new(),
            account: StorageMap::new(),
            commands: None,
            offchain_data: StorageMap::new(),
            offchain_index: StorageMap::new(),
            events: Vec::new(),
        };
        assert(r@.knowledge =~= Map::<(BlockNumber, AccountId), Seq<BlockNumber>>::empty());
        assert(r@.ipfs_files =~= Map::<Seq<u8>, IpfsFileView>::empty());
        assert(r@.ipfs_data =~= Map::<BlockNumber, OffchainDataView>::empty());
        assert(r@.offchain_data =~= Map::<BlockNumber, OffchainDataView>::empty());
        assert(r@.offchain_index =~= Map::<BlockNumber, Seq<u8>>::empty());
        assert(r@.events =~= Seq::<EventView>::empty());
        r
    }

    /// The number of the current block.
    pub fn block_number(&self) -> (r: BlockNumber)
        ensures
            r == self@.block_number,
    {
        self.block_number
    }

    /// Moves to block `block_number`.
    pub fn set_block_number(&mut self, block_number: BlockNumber)
        requires
            old(self).wf(),
        ensures
            final(self).wf(),
            final(self).knowledge_keys() == old(self).knowledge_keys(),
            final(self)@ == (KnowledgeState { block_number, ..old(self)@ }),
    {
        self.block_number = block_number;
    }

    /// The blocks in which the content of a knowledge block of `owner` was stored.
    pub fn knowledge(&self, block_number: BlockNumber, owner: AccountId) -> (r: Option<Vec<BlockNumber>>)
        requires
            self.wf(),
        ensures
            match r {
                Some(v) => self@.knowledge.contains_key((block_number, owner)) && v@
                    == self@.knowledge[(block_number, owner)],
                None => !self@.knowledge.contains_key((block_number, owner)),
            },
    {
        match self.knowledge.get(&(block_number, owner)) {
            Some(v) => Some(clone_block_numbers(v)),
            None => None,
        }
    }

    /// The file stored under `cid`; an empty file where none is stored.
    pub fn ipfs_files(&self, cid: Vec<u8>) -> (r: IpfsFile)
        requires
            self.wf(),
        ensures
            if self@.ipfs_files.contains_key(cid@) {
                r@ == self@.ipfs_files[cid@]
            } else {
                r@.cid.len() == 0 && r@.meta_data.len() == 0
            },
    {
        match self.ipfs_file_storage.get(&cid) {
            Some(f) => f.clone(),
            None => IpfsFile::default(),
        }
    }

    /// The offchain data stored on chain for `block_number`.
    pub fn ipfs_data(&self, block_number: BlockNumber) -> (r: Option<OffchainData>)
        requires
            self.wf(),
        ensures
            match r {
                Some(d) => self@.ipfs_data.contains_key(block_number) && d@ == self@.ipfs_data[block_number],
                None => !self@.ipfs_data.contains_key(block_number),
            },
    {
        match self.ipfs_data.get(&block_number) {
            Some(d) => Some(d.clone()),
            None => None,
        }
    }

    /// Whether `account` holds the knowledge block `block_number` (its mark, if so).
    pub fn account(&self, account: AccountId, block_number: BlockNumber) -> (r: Option<u8>)
        requires
            self.wf(),
        ensures
            r == (if self@.account.contains_key((account, block_number)) {
                Some(self@.account[(account, block_number)])
            } else {
                None
            }),
    {
        match self.account.get(&(account, block_number)) {
            Some(m) => Some(*m),
            None => None,
        }
    }

    /// The title and text indexed for the offchain worker for `block_number`.
    pub fn offchain_data(&self, block_number: BlockNumber) -> (r: Option<OffchainData>)
        requires
            self.wf(),
        ensures
            match r {
                Some(d) => self@.offchain_data.contains_key(block_number) && d@
                    == self@.offchain_data[block_number],
                None => !self@.offchain_data.contains_key(block_number),
            },
    {
        match self.offchain_data.get(&block_number) {
            Some(d) => Some(d.clone()),
            None => None,
        }
    }

    /// The encoded block number indexed for the offchain worker under `block_number`.
    pub fn offchain_index(&self, block_number: BlockNumber) -> (r: Option<Vec<u8>>)
        requires
            self.wf(),
        ensures
            match r {
                Some(v) => self@.offchain_index.contains_key(block_number) && v@
                    == self@.offchain_index[block_number],
                None => !self@.offchain_index.contains_key(block_number),
            },
    {
        match self.offchain_index.get(&block_number) {
            Some(v) => Some(clone_bytes(v)),
            None => None,
        }
    }

    /// The queued command requests.
    pub fn commands(&self) -> (r: &Option<Vec<CommandRequest>>)
        ensures
            self@.commands == (match r {
                Some(q) => Some(q@.map_values(|c: CommandRequest| c@)),
                None => None,
            }),
    {
        &self.commands
    }

    /// The events deposited so far.
    pub fn events(&self) -> (r: &Vec<Event>)
        ensures
            r@.map_values(|e: Event| e@) == self@.events,
    {
        &self.events
    }
}

} // verus!

verus! {

impl Pallet {
    /// Appends an event to the deposited ones.
    fn deposit_event(&mut self, e: Event)
        requires
            old(self).wf(),
        ensures
            final(self).wf(),
            final(self).knowledge_keys() == old(self).knowledge_keys(),
            final(self)@ == (KnowledgeState { events: old(self)@.events.push(e@), ..old(self)@ }),
    {
        let ghost before = self@;
        let ghost old_events = self.events@;
        let ghost ev = e@;
        self.events.push(e);
        proof {
            lemma_seq_map_values_push(old_events, e, |e: Event| e@);
        }
        assert(self@ =~= KnowledgeState { events: before.events.push(ev), ..before });
    }

    /// Appends a command request to the queue of the offchain worker.
    fn queue_command_request(&mut self, request: CommandRequest)
        requires
            old(self).wf(),
        ensures
            final(self).wf(),
            final(self).knowledge_keys() == old(self).knowledge_keys(),
            final(self)@ == (KnowledgeState { commands: queued_after(old(self)@.commands, request@), ..old(self)@ }),
    {
        let ghost before = self@;
        let ghost rv = request@;
        match self.commands.take() {
            Some(mut queue) => {
                let ghost q0 = queue@;
                queue.push(request);
                proof {
                    lemma_seq_map_values_push(q0, request, |c: CommandRequest| c@);
                }
                self.commands = Some(queue);
            },
            None => {
                let mut queue: Vec<CommandRequest> = Vec::new();
                queue.push(request);
                assert(queue@.map_values(|c: CommandRequest| c@) =~= seq![rv]);
                self.commands = Some(queue);
            },
        }
        assert(self@ =~= KnowledgeState { commands: queued_after(before.commands, rv), ..before });
    }

    /// Indexes title and text for the offchain worker under `block_number`.
    fn store_cid_data_for_values(&mut self, block_number: BlockNumber, data: Vec<u8>, meta_data: Vec<u8>)
        requires
            old(self).wf(),
        ensures
            final(self).wf(),
            final(self).knowledge_keys() == old(self).knowledge_keys(),
            final(self)@ == (KnowledgeState {
                offchain_data: old(self)@.offchain_data.insert(
                    block_number,
                    OffchainDataView { data: data@, meta_data: meta_data@ },
                ),
                ..old(self)@
            }),
    {
        let ghost before = self@;
        let ghost m0 = self.offchain_data@;
        let d = OffchainData { data, meta_data };
        let ghost dv = d@;
        self.offchain_data.insert(block_number, d);
        proof {
            lemma_map_values_insert(m0, block_number, d, |d: OffchainData| d@);
        }
        assert(self@ =~= KnowledgeState { offchain_data: before.offchain_data.insert(block_number, dv), ..before });
    }

    /// Indexes the encoded block number for the offchain worker under `block_number`.
    fn index_block_number(&mut self, block_number: BlockNumber)
        requires
            old(self).wf(),
        ensures
            final(self).wf(),
            final(self).knowledge_keys() == old(self).knowledge_keys(),
            final(self)@ == (KnowledgeState {
                offchain_index: old(self)@.offchain_index.insert(block_number, u32_le_bytes(block_number)),
                ..old(self)@
            }),
    {
        let ghost before = self@;
        let ghost m0 = self.offchain_index@;
        let encoded = scale_encode_u32(block_number);
        self.offchain_index.insert(block_number, encoded);
        proof {
            lemma_map_values_insert(m0, block_number, encoded, |v: Vec<u8>| v@);
        }
        assert(self@ =~= KnowledgeState {
            offchain_index: before.offchain_index.insert(block_number, u32_le_bytes(block_number)),
            ..before
        });
    }

    /// Sets the blocks in which the content of a knowledge block of `owner` was stored.
    fn set_knowledge(&mut self, block_number: BlockNumber, owner: AccountId, blocks: Vec<BlockNumber>)
        requires
            old(self).wf(),
        ensures
            final(self).wf(),
            final(self).knowledge_keys() == keys_after(old(self).knowledge_keys(), (block_number, owner)),
            final(self)@ == (KnowledgeState {
                knowledge: old(self)@.knowledge.insert((block_number, owner), blocks@),
                ..old(self)@
            }),
    {
        let ghost before = self@;
        let ghost m0 = self.knowledge@;
        let ghost bv = blocks@;
        proof {
            self.knowledge.lemma_contains_iff((block_number, owner));
        }
        let ghost b = blocks;
        self.knowledge.insert((block_number, owner), blocks);
        proof {
            lemma_map_values_insert(m0, (block_number, owner), b, |v: Vec<BlockNumber>| v@);
        }
        assert(self@ =~= KnowledgeState {
            knowledge: before.knowledge.insert((block_number, owner), bv),
            ..before
        });
    }

    /// Marks `owner` as holding the knowledge block `block_number`.
    fn set_account(&mut self, owner: AccountId, block_number: BlockNumber)
        requires
            old(self).wf(),
        ensures
            final(self).wf(),
            final(self).knowledge_keys() == old(self).knowledge_keys(),
            final(self)@ == (KnowledgeState {
                account: old(self)@.account.insert((owner, block_number), 1u8),
                ..old(self)@
            }),
    {
        let ghost before = self@;
        self.account.insert((owner, block_number), 1u8);
        assert(self@ =~= KnowledgeState { account: before.account.insert((owner, block_number), 1u8), ..before });
    }

    /// Stores a file added to IPFS under its cid.
    fn store_ipfs_file_info(&mut self, ipfs_file: IpfsFile)
        requires
            old(self).wf(),
        ensures
            final(self).wf(),
            final(self).knowledge_keys() == old(self).knowledge_keys(),
            final(self)@ == (KnowledgeState {
                ipfs_files: old(self)@.ipfs_files.insert(ipfs_file@.cid, ipfs_file@),
                ..old(self)@
            }),
    {
        let ghost before = self@;
        let ghost m0 = self.ipfs_file_storage@;
        let ghost fv = ipfs_file@;
        let ghost f = ipfs_file;
        let cid = clone_bytes(&ipfs_file.cid);
        self.ipfs_file_storage.insert(cid, ipfs_file);
        proof {
            lemma_map_values_insert(m0, fv.cid, f, |f: IpfsFile| f@);
        }
        assert(self@ =~= KnowledgeState { ipfs_files: before.ipfs_files.insert(fv.cid, fv), ..before });
    }
}

} // verus!

verus! {

/// The state after `from` creates a knowledge block with `title` and `text` in the
/// current block: the block is marked as held by `from`, its content is indexed for the
/// offchain worker and a request with `identifier` to add it to IPFS is queued.
pub open spec fn created(
    s: KnowledgeState,
    from: AccountId,
    title: Seq<u8>,
    text: Seq<u8>,
    identifier: Seq<u8>,
) -> KnowledgeState {
    let bn = s.block_number;
    KnowledgeState {
        account: s.account.insert((from, bn), 1u8),
        knowledge: s.knowledge.insert((bn, from), seq![bn]),
        offchain_data: s.offchain_data.insert(bn, OffchainDataView { data: text, meta_data: title }),
        commands: queued_after(s.commands, add_bytes_request(identifier, from)),
        offchain_index: s.offchain_index.insert(bn, u32_le_bytes(bn)),
        events: s.events.push(EventView::Created { creator: from, block_number: bn, title, text }),
        ..s
    }
}

/// Whether the content of `block_number` can be read after the new content is indexed
/// under the current block.
pub open spec fn content_readable(s: KnowledgeState, block_number: BlockNumber) -> bool {
    block_number == s.block_number || s.offchain_data.contains_key(block_number)
}

/// The state after `from` modifies the knowledge block `block_number`: the new title and
/// text are indexed under the current block, a request with `identifier` to add them to
/// IPFS is queued, the current block is appended to the block's history, and the content
/// now indexed for `block_number` is reported.
pub open spec fn modified(
    s: KnowledgeState,
    from: AccountId,
    block_number: BlockNumber,
    title: Seq<u8>,
    text: Seq<u8>,
    identifier: Seq<u8>,
) -> KnowledgeState {
    let nb = s.block_number;
    let indexed = s.offchain_data.insert(nb, OffchainDataView { data: text, meta_data: title });
    let data = indexed[block_number];
    KnowledgeState {
        offchain_data: indexed,
        commands: queued_after(s.commands, add_bytes_request(identifier, from)),
        knowledge: s.knowledge.insert((block_number, from), s.knowledge[(block_number, from)].push(nb)),
        events: s.events.push(
            EventView::Modified {
                creator: from,
                owner: from,
                block_number,
                title: data.meta_data,
                text: data.data,
            },
        ),
        ..s
    }
}

/// A request to add bytes to IPFS, for `requester`.
fn add_bytes_command_request(identifier: [u8; 32], requester: AccountId) -> (r: CommandRequest)
    ensures
        r@ == add_bytes_request(identifier@, requester),
{
    let mut commands: Vec<IpfsCommand> = Vec::new();
    commands.push(IpfsCommand::AddBytes(1));
    let request = CommandRequest { identifier, requester, ipfs_commands: commands };
    assert(request@.ipfs_commands =~= seq![IpfsCommandView::AddBytes(1)]);
    request
}

impl Pallet {
    /// Creates a knowledge block for the signer in the current block. `random_seed` is the
    /// output of the chain's randomness from which the identifier of the queued request is made.
    pub fn create(&mut self, origin: Origin, title: Vec<u8>, text: Vec<u8>, random_seed: [u8; 32]) -> (r:
        Result<(), DispatchError<Error>>)
        requires
            old(self).wf(),
        ensures
            final(self).wf(),
            final(self).knowledge_keys() == (match signer_of(origin) { Some(from) => keys_after(old(self).knowledge_keys(), (old(self)@.block_number, from)), None => old(self).knowledge_keys() }),
            match signer_of(origin) {
                None => r == Err::<(), DispatchError<Error>>(DispatchError::BadOrigin) && final(self)@ == old(self)@,
                Some(from) => r == Ok::<(), DispatchError<Error>>(()) && final(self)@ == created(
                    old(self)@,
                    from,
                    title@,
                    text@,
                    command_identifier(random_seed@, old(self)@.block_number),
                ),
            },
            r is Ok ==> (final(self)@.commands matches Some(q) && q.last()
                == (CommandRequestView {
                    identifier: command_identifier(random_seed@, old(self)@.block_number),
                    requester: signer_of(origin)->Some_0,
                    ipfs_commands: seq![IpfsCommandView::AddBytes(1)],
                })),
    {
        let identifier = generate_id(&random_seed, self.block_number);
        self.create_with_identifier(origin, title, text, identifier)
    }

    /// Creates a knowledge block for the signer in the current block, queuing the request to
    /// add its content to IPFS under `identifier`.
    pub fn create_with_identifier(&mut self, origin: Origin, title: Vec<u8>, text: Vec<u8>, identifier: [u8; 32]) -> (r:
        Result<(), DispatchError<Error>>)
        requires
            old(self).wf(),
        ensures
            final(self).wf(),
            final(self).knowledge_keys() == (match signer_of(origin) { Some(from) => keys_after(old(self).knowledge_keys(), (old(self)@.block_number, from)), None => old(self).knowledge_keys() }),
            match signer_of(origin) {
                None => r == Err::<(), DispatchError<Error>>(DispatchError::BadOrigin) && final(self)@ == old(self)@,
                Some(from) => r == Ok::<(), DispatchError<Error>>(()) && final(self)@ == created(
                    old(self)@,
                    from,
                    title@,
                    text@,
                    identifier@,
                ),
            },
            r is Ok ==> (final(self)@.commands matches Some(q) && q.last()
                == (CommandRequestView {
                    identifier: identifier@,
                    requester: signer_of(origin)->Some_0,
                    ipfs_commands: seq![IpfsCommandView::AddBytes(1)],
                })),
    {
        let from = ensure_signed(origin)?;
        let ghost s0 = self@;
        let block_number = self.block_number;
        self.set_account(from, block_number);
        let mut blocks: Vec<BlockNumber> = Vec::new();
        blocks.push(block_number);
        assert(blocks@ =~= seq![block_number]);
        self.set_knowledge(block_number, from, blocks);
        self.store_cid_data_for_values(block_number, clone_bytes(&text), clone_bytes(&title));
        self.queue_command_request(add_bytes_command_request(identifier, from));
        self.index_block_number(block_number);
        self.deposit_event(Event::Created { creator: from, block_number, title, text });
        assert(self@ =~= created(s0, from, title@, text@, identifier@));
        Ok(())
    }

    /// Modifies the knowledge block `block_number` of the signer: stores the new title and
    /// text in the current block and reports the content indexed for `block_number`.
    /// `random_seed` is the output of the chain's randomness from which the identifier of
    /// the queued request is made. Fails with `KnowledgeNotExist`, changing nothing, where
    /// no content is indexed for the block.
    pub fn modify_content(
        &mut self,
        origin: Origin,
        block_number: BlockNumber,
        title: Vec<u8>,
        text: Vec<u8>,
        random_seed: [u8; 32],
    ) -> (r: Result<(), DispatchError<Error>>)
        requires
            old(self).wf(),
            signer_of(origin) matches Some(from) ==> old(self)@.knowledge.contains_key((block_number, from)),
        ensures
            final(self).wf(),
            final(self).knowledge_keys() == old(self).knowledge_keys(),
            match signer_of(origin) {
                None => r == Err::<(), DispatchError<Error>>(DispatchError::BadOrigin) && final(self)@ == old(self)@,
                Some(from) => if content_readable(old(self)@, block_number) {
                    r == Ok::<(), DispatchError<Error>>(()) && final(self)@ == modified(
                        old(self)@,
                        from,
                        block_number,
                        title@,
                        text@,
                        command_identifier(random_seed@, old(self)@.block_number),
                    )
                } else {
                    r == Err::<(), DispatchError<Error>>(DispatchError::Module(Error::KnowledgeNotExist))
                        && final(self)@ == old(self)@
                },
            },
            r is Ok ==> (final(self)@.commands matches Some(q) && q.last()
                == (CommandRequestView {
                    identifier: command_identifier(random_seed@, old(self)@.block_number),
                    requester: signer_of(origin)->Some_0,
                    ipfs_commands: seq![IpfsCommandView::AddBytes(1)],
                })),
    {
        let identifier = generate_id(&random_seed, self.block_number);
        self.modify_content_with_identifier(origin, block_number, title, text, identifier)
    }

    /// Modifies the knowledge block `block_number` of the signer, queuing the request to add
    /// the new content to IPFS under `identifier`.
    pub fn modify_content_with_identifier(
        &mut self,
        origin: Origin,
        block_number: BlockNumber,
        title: Vec<u8>,
        text: Vec<u8>,
        identifier: [u8; 32],
    ) -> (r: Result<(), DispatchError<Error>>)
        requires
            old(self).wf(),
            signer_of(origin) matches Some(from) ==> old(self)@.knowledge.contains_key((block_number, from)),
        ensures
            final(self).wf(),
            final(self).knowledge_keys() == old(self).knowledge_keys(),
            match signer_of(origin) {
                None => r == Err::<(), DispatchError<Error>>(DispatchError::BadOrigin) && final(self)@ == old(self)@,
                Some(from) => if content_readable(old(self)@, block_number) {
                    r == Ok::<(), DispatchError<Error>>(()) && final(self)@ == modified(
                        old(self)@,
                        from,
                        block_number,
                        title@,
                        text@,
                        identifier@,
                    )
                } else {
                    r == Err::<(), DispatchError<Error>>(DispatchError::Module(Error::KnowledgeNotExist))
                        && final(self)@ == old(self)@
                },
            },
            r is Ok ==> (final(self)@.commands matches Some(q) && q.last()
                == (CommandRequestView {
                    identifier: identifier@,
                    requester: signer_of(origin)->Some_0,
                    ipfs_commands: seq![IpfsCommandView::AddBytes(1)],
                })),
    {
        let from = ensure_signed(origin)?;
        let ghost s0 = self@;
        proof {
            self.knowledge.lemma_contains_iff((block_number, from));
            assert(self.knowledge@.contains_key((block_number, from)));
        }
        let new_block_number = self.block_number;
        if block_number != new_block_number && !self.offchain_data.contains_key(&block_number) {
            return Err(DispatchError::Module(Error::KnowledgeNotExist));
        }
        self.store_cid_data_for_values(new_block_number, clone_bytes(&text), clone_bytes(&title));
        self.queue_command_request(add_bytes_command_request(identifier, from));
        let mut block_numbers = match self.knowledge.get(&(block_number, from)) {
            Some(v) => clone_block_numbers(v),
            None => Vec::new(),
        };
        block_numbers.push(new_block_number);
        self.set_knowledge(block_number, from, block_numbers);
        assert(self@.offchain_data.contains_key(block_number));
        assert(self.offchain_data@.contains_key(block_number));
        let data = match self.offchain_data.get(&block_number) {
            Some(d) => d.clone(),
            None => { return Err(DispatchError::Module(Error::KnowledgeNotExist)); },
        };
        self.deposit_event(
            Event::Modified { owner: from, creator: from, block_number, title: data.meta_data, text: data.data },
        );
        assert(self@ =~= modified(s0, from, block_number, title@, text@, identifier@));
        Ok(())
    }

    /// Asks for the content of `block_number`: indexes the block number for the offchain worker.
    pub fn get_content(&mut self, origin: Origin, block_number: BlockNumber) -> (r: Result<
        (),
        DispatchError<Error>,
    >)
        requires
            old(self).wf(),
        ensures
            final(self).wf(),
            final(self).knowledge_keys() == old(self).knowledge_keys(),
            match signer_of(origin) {
                None => r == Err::<(), DispatchError<Error>>(DispatchError::BadOrigin) && final(self)@ == old(self)@,
                Some(_) => r == Ok::<(), DispatchError<Error>>(()) && final(self)@ == (KnowledgeState {
                    offchain_index: old(self)@.offchain_index.insert(block_number, u32_le_bytes(block_number)),
                    ..old(self)@
                }),
            },
    {
        let _from = ensure_signed(origin)?;
        self.index_block_number(block_number);
        Ok(())
    }

    /// Stores offchain data on chain for `block_number`.
    pub fn store_offchain_data(&mut self, origin: Origin, block_number: BlockNumber, cid_data: OffchainData) -> (r:
        Result<(), DispatchError<Error>>)
        requires
            old(self).wf(),
        ensures
            final(self).wf(),
            final(self).knowledge_keys() == old(self).knowledge_keys(),
            match signer_of(origin) {
                None => r == Err::<(), DispatchError<Error>>(DispatchError::BadOrigin) && final(self)@ == old(self)@,
                Some(_) => r == Ok::<(), DispatchError<Error>>(()) && final(self)@ == (KnowledgeState {
                    ipfs_data: old(self)@.ipfs_data.insert(block_number, cid_data@),
                    events: old(self)@.events.push(EventView::DataStored { block_number }),
                    ..old(self)@
                }),
            },
    {
        let _ = ensure_signed(origin)?;
        let ghost s0 = self@;
        let ghost m0 = self.ipfs_data@;
        let ghost dv = cid_data@;
        let ghost d = cid_data;
        self.ipfs_data.insert(block_number, cid_data);
        proof {
            lemma_map_values_insert(m0, block_number, d, |d: OffchainData| d@);
        }
        assert(self@ =~= KnowledgeState { ipfs_data: s0.ipfs_data.insert(block_number, dv), ..s0 });
        self.deposit_event(Event::DataStored { block_number });
        Ok(())
    }
}

} // verus!

verus! {

/// The first value in `vector` of the same type as `value`, as a clone.
pub fn find_value_of_type_in_vector<T: TypeEquality + Clone>(value: &T, vector: &Vec<T>) -> (r: Option<T>)
    ensures
        match r {
            Some(found) => exists|i: int|
                0 <= i < vector@.len() && value.same_type(&vector@[i]) && (forall|j: int|
                    0 <= j < i ==> !value.same_type(&#[trigger] vector@[j])) && cloned(vector@[i], found),
            None => forall|i: int| 0 <= i < vector@.len() ==> !value.same_type(&#[trigger] vector@[i]),
        },
{
    let mut i: usize = 0;
    while i < vector.len()
        invariant
            i <= vector@.len(),
            forall|j: int| 0 <= j < i ==> !value.same_type(&#[trigger] vector@[j]),
        decreases vector.len() - i,
    {
        if value.eq_type(&vector[i]) {
            let found = vector[i].clone();
            assert(cloned(vector@[i as int], found));
            return Some(found);
        }
        i = i + 1;
    }
    None
}

/// Whether `vector` holds a value of the same type as `value`.
pub fn contains_value_of_type_in_vector<T: TypeEquality + Clone>(value: &T, vector: &Vec<T>) -> (r: bool)
    ensures
        r == exists|i: int| 0 <= i < vector@.len() && value.same_type(&#[trigger] vector@[i]),
{
    match find_value_of_type_in_vector(value, vector) {
        Some(_) => true,
        None => false,
    }
}

} // verus!

verus! {

/// The keys after `key` is stored: unchanged when it was stored before, appended otherwise.
pub open spec fn keys_after(keys: Seq<(BlockNumber, AccountId)>, key: (BlockNumber, AccountId)) -> Seq<(BlockNumber, AccountId)> {
    if keys.contains(key) {
        keys
    } else {
        keys.push(key)
    }
}

/// The owners of `block_number` as they occur among `keys`, in that order.
pub open spec fn owners_in_order(keys: Seq<(BlockNumber, AccountId)>, block_number: BlockNumber) -> Seq<AccountId> {
    keys.filter(|k: (BlockNumber, AccountId)| k.0 == block_number).map_values(|k: (BlockNumber, AccountId)| k.1)
}

impl Pallet {
    /// The keys of the knowledge map, in the order the store keeps them (the order in
    /// which they were first stored; nothing is ever removed from it).
    pub closed spec fn knowledge_keys(&self) -> Seq<(BlockNumber, AccountId)> {
        self.knowledge.key_views()
    }

    /// The accounts that hold the knowledge block `block_number`, each once, in the order
    /// in which their entries were first stored.
    fn owners_of_block(&self, block_number: BlockNumber) -> (r: Vec<AccountId>)
        requires
            self.wf(),
        ensures
            r@ == owners_in_order(self.knowledge_keys(), block_number),
            r@.no_duplicates(),
            r@.to_set() == owners_of(self@.knowledge, block_number),
    {
        let mut owners: Vec<AccountId> = Vec::new();
        let n = self.knowledge.len();
        let ghost keys = self.knowledge.key_views();
        proof {
            self.knowledge.lemma_contains_iff((block_number, 0));
            reveal(Seq::filter);
            assert(keys.take(0) =~= Seq::<(BlockNumber, AccountId)>::empty());
            assert(owners_in_order(keys.take(0), block_number) =~= Seq::<AccountId>::empty());
        }
        let mut i: usize = 0;
        while i < n
            invariant
                self.wf(),
                n == self.knowledge.spec_len(),
                keys == self.knowledge.key_views(),
                keys.len() == n,
                i <= n,
                owners@ == owners_in_order(keys.take(i as int), block_number),
                owners@.no_duplicates(),
                forall|k: int|
                    #![trigger owners@[k]]
                    0 <= k < owners@.len() ==> exists|j: int|
                        0 <= j < i && #[trigger] keys[j] == (block_number, owners@[k]),
                forall|j: int| 0 <= j < i && (#[trigger] keys[j]).0 == block_number ==> owners@.contains(keys[j].1),
            decreases n - i,
        {
            let key = self.knowledge.key_at(i);
            if key.0 == block_number {
                let a = key.1;
                assert forall|k: int| 0 <= k < owners@.len() implies owners@[k] != a by {
                    let j = choose|j: int| 0 <= j < i && #[trigger] keys[j] == (block_number, owners@[k]);
                    if owners@[k] == a {
                        self.knowledge.lemma_keys_distinct(j, i as int);
                    }
                }
                let ghost before = owners@;
                owners.push(a);
                assert forall|k: int| #![trigger owners@[k]] 0 <= k < owners@.len() implies exists|j: int|
                    0 <= j < i + 1 && #[trigger] keys[j] == (block_number, owners@[k]) by {
                    if k < before.len() {
                        let j = choose|j: int| 0 <= j < i && #[trigger] keys[j] == (block_number, before[k]);
                        assert(keys[j] == (block_number, owners@[k]));
                    } else {
                        assert(keys[i as int] == (block_number, owners@[k]));
                    }
                }
                assert forall|j: int| 0 <= j < i + 1 && (#[trigger] keys[j]).0 == block_number implies owners@.contains(keys[j].1) by {
                    if j < i {
                        assert(before.contains(keys[j].1));
                        let k = choose|k: int| 0 <= k < before.len() && before[k] == keys[j].1;
                        assert(owners@[k] == keys[j].1);
                    } else {
                        assert(owners@[before.len() as int] == a);
                    }
                }
            }
            proof {
                reveal(Seq::filter);
                let pred = |k: (BlockNumber, AccountId)| k.0 == block_number;
                let get = |k: (BlockNumber, AccountId)| k.1;
                assert(keys.take(i + 1).drop_last() =~= keys.take(i as int));
                assert(keys.take(i + 1).last() == keys[i as int]);
                let f0 = keys.take(i as int).filter(pred);
                if pred(keys[i as int]) {
                    assert(keys.take(i + 1).filter(pred) == f0.push(keys[i as int]));
                    assert(f0.push(keys[i as int]).map_values(get) =~= f0.map_values(get).push(keys[i as int].1));
                } else {
                    assert(keys.take(i + 1).filter(pred) == f0);
                }
            }
            i = i + 1;
        }
        assert forall|a: AccountId| #[trigger] owners@.to_set().contains(a) == owners_of(self@.knowledge, block_number).contains(a) by {
            self.knowledge.lemma_contains_iff((block_number, a));
            if owners@.contains(a) {
                let k = choose|k: int| 0 <= k < owners@.len() && owners@[k] == a;
                let j = choose|j: int| 0 <= j < n && #[trigger] keys[j] == (block_number, owners@[k]);
                assert(keys[j] == (block_number, a));
            }
            if self.knowledge@.contains_key((block_number, a)) {
                let j = choose|j: int| 0 <= j < n && #[trigger] keys[j] == (block_number, a);
                assert(keys[j].0 == block_number);
            }
        }
        assert(owners@.to_set() =~= owners_of(self@.knowledge, block_number));
        assert(keys.take(n as int) =~= keys);
        owners
    }

    /// Reports the accounts that hold the knowledge block `block_number`, in an `Owners`
    /// event, in the order in which their entries were first stored.
    pub fn get_knowledge_owners(&mut self, origin: Origin, block_number: BlockNumber) -> (r: Result<
        (),
        DispatchError<Error>,
    >)
        requires
            old(self).wf(),
        ensures
            final(self).wf(),
            final(self).knowledge_keys() == old(self).knowledge_keys(),
            match signer_of(origin) {
                None => r == Err::<(), DispatchError<Error>>(DispatchError::BadOrigin) && final(self)@ == old(self)@,
                Some(from) => {
                    &&& r == Ok::<(), DispatchError<Error>>(())
                    &&& final(self)@ == (KnowledgeState { events: final(self)@.events, ..old(self)@ })
                    &&& final(self)@.events.len() == old(self)@.events.len() + 1
                    &&& final(self)@.events.drop_last() == old(self)@.events
                    &&& final(self)@.events.last() matches EventView::Owners { requestor, block_number: b, owners }
                        && requestor == from && b == block_number
                        && owners == owners_in_order(old(self).knowledge_keys(), block_number)
                        && owners.no_duplicates()
                        && owners.to_set() == owners_of(old(self)@.knowledge, block_number)
                },
            },
    {
        let from = ensure_signed(origin)?;
        let owners = self.owners_of_block(block_number);
        self.deposit_event(Event::Owners { requestor: from, block_number, owners });
        Ok(())
    }
}

} // verus!

verus! {

/// The position of the first queued request with `identifier`.
pub open spec fn request_position(queue: Seq<CommandRequestView>, identifier: Seq<u8>) -> int {
    request_identifiers(queue).index_of_first(identifier)->0
}

/// The state after the offchain worker reports, signed by `signer`, that the request
/// `identifier` was carried out with result `data`: the request leaves the queue (the
/// last request takes its place), a file added to IPFS is stored when the request added
/// bytes and offchain data came with the report, and the callback and one event per
/// command are deposited.
pub open spec fn called_back(
    s: KnowledgeState,
    signer: AccountId,
    identifier: Seq<u8>,
    data: Seq<u8>,
    offchain_meta_data: Option<Seq<u8>>,
) -> KnowledgeState {
    let queue = s.commands->0;
    let i = request_position(queue, identifier);
    let request = queue[i];
    KnowledgeState {
        commands: Some(queue.update(i, queue.last()).drop_last()),
        ipfs_files: if has_add_bytes(request) && offchain_meta_data is Some {
            s.ipfs_files.insert(data, IpfsFileView { cid: data, meta_data: offchain_meta_data->0 })
        } else {
            s.ipfs_files
        },
        events: s.events.push(EventView::OcwCallback(signer)) + callback_events(request, data),
        ..s
    }
}

/// The metadata of optional offchain data.
pub open spec fn offchain_meta(d: Option<OffchainData>) -> Option<Seq<u8>> {
    match d {
        Some(d) => Some(d.meta_data@),
        None => None,
    }
}

/// The position of the first queued request with `identifier`.
fn find_request(queue: &Vec<CommandRequest>, identifier: &[u8; 32]) -> (r: usize)
    requires
        request_identifiers(queue@.map_values(|c: CommandRequest| c@)).contains(identifier@),
    ensures
        r < queue@.len(),
        r == request_position(queue@.map_values(|c: CommandRequest| c@), identifier@),
{
    let ghost ids = request_identifiers(queue@.map_values(|c: CommandRequest| c@));
    proof {
        ids.index_of_first_ensures(identifier@);
    }
    let mut i: usize = 0;
    while i < queue.len()
        invariant
            i <= queue@.len(),
            ids == request_identifiers(queue@.map_values(|c: CommandRequest| c@)),
            ids.len() == queue@.len(),
            forall|j: int| 0 <= j < i ==> ids[j] != identifier@,
            ids.index_of_first(identifier@) matches Some(f) && 0 <= f < ids.len() && ids[f] == identifier@
                && forall|j: int| 0 <= j < f ==> ids[j] != identifier@,
        decreases queue.len() - i,
    {
        assert(ids[i as int] == queue@[i as int].identifier@);
        if crate::primitives::same_identifier(&queue[i].identifier, identifier) {
            return i;
        }
        i = i + 1;
    }
    assert(false);
    0
}

/// The event reporting that `command` of a request of `requester` completed with `data`.
fn command_event_for(requester: AccountId, command: &IpfsCommand, data: &Vec<u8>) -> (e: Event)
    ensures
        e@ == command_event(requester, command@, data@),
{
    match command {
        IpfsCommand::ConnectTo(address) => Event::ConnectedTo(requester, clone_bytes(address)),
        IpfsCommand::DisconnectFrom(address) => Event::DisconnectedFrom(requester, clone_bytes(address)),
        IpfsCommand::AddBytes(_) => Event::AddedCid(requester, clone_bytes(data)),
        IpfsCommand::CatBytes(cid) => Event::CatBytes(requester, clone_bytes(cid), clone_bytes(data)),
        IpfsCommand::InsertPin(cid) => Event::InsertedPin(requester, clone_bytes(cid)),
        IpfsCommand::RemoveBlock(cid) => Event::RemovedBlock(requester, clone_bytes(cid)),
        IpfsCommand::RemovePin(cid) => Event::RemovedPin(requester, clone_bytes(cid)),
        IpfsCommand::FindPeer(_) => Event::FoundPeers(requester, clone_bytes(data)),
        IpfsCommand::GetProviders(cid) => Event::CidProviders(requester, clone_bytes(cid), clone_bytes(data)),
    }
}

impl Pallet {
    /// Deposits one event per command of `command_request`, reporting its completion with `data`.
    fn command_callback(&mut self, command_request: &CommandRequest, data: &Vec<u8>) -> (r: Result<(), ()>)
        requires
            old(self).wf(),
        ensures
            final(self).wf(),
            final(self).knowledge_keys() == old(self).knowledge_keys(),
            r is Ok,
            final(self)@ == (KnowledgeState {
                events: old(self)@.events + callback_events(command_request@, data@),
                ..old(self)@
            }),
    {
        let ghost s0 = self@;
        let ghost k0 = self.knowledge_keys();
        let ghost all = callback_events(command_request@, data@);
        let commands = &command_request.ipfs_commands;
        let mut i: usize = 0;
        while i < commands.len()
            invariant
                self.wf(),
                i <= commands@.len(),
                *commands == command_request.ipfs_commands,
                all == callback_events(command_request@, data@),
                all.len() == commands@.len(),
                self@ == (KnowledgeState { events: s0.events + all.take(i as int), ..s0 }),
                self.knowledge_keys() == k0,
            decreases commands.len() - i,
        {
            let e = command_event_for(command_request.requester, &commands[i], data);
            assert(e@ == all[i as int]);
            self.deposit_event(e);
            assert(s0.events + all.take(i + 1) =~= (s0.events + all.take(i as int)).push(all[i as int]));
            i = i + 1;
        }
        assert(all.take(commands@.len() as int) =~= all);
        Ok(())
    }

    /// Stores the file added to IPFS under `cid`, with the metadata of the offchain data.
    fn handle_add_bytes_completed(&mut self, cid: Vec<u8>, offchain_data: Option<OffchainData>)
        requires
            old(self).wf(),
        ensures
            final(self).wf(),
            final(self).knowledge_keys() == old(self).knowledge_keys(),
            final(self)@ == (match offchain_meta(offchain_data) {
                Some(meta) => KnowledgeState {
                    ipfs_files: old(self)@.ipfs_files.insert(cid@, IpfsFileView { cid: cid@, meta_data: meta }),
                    ..old(self)@
                },
                None => old(self)@,
            }),
    {
        if let Some(offchain_data_unwrap) = offchain_data {
            let file = IpfsFile::new(cid, offchain_data_unwrap.meta_data);
            self.store_ipfs_file_info(file);
        }
    }

    /// Stores the file that a completed request added to IPFS, when it added bytes.
    fn handle_data_for_ocw_callback(
        &mut self,
        data: &Vec<u8>,
        offchain_data: Option<OffchainData>,
        callback_command: Option<&CommandRequest>,
    )
        requires
            old(self).wf(),
        ensures
            final(self).wf(),
            final(self).knowledge_keys() == old(self).knowledge_keys(),
            final(self)@ == (match callback_command {
                Some(request) => if has_add_bytes(request@) && offchain_meta(offchain_data) is Some {
                    KnowledgeState {
                        ipfs_files: old(self)@.ipfs_files.insert(
                            data@,
                            IpfsFileView { cid: data@, meta_data: offchain_meta(offchain_data)->0 },
                        ),
                        ..old(self)@
                    }
                } else {
                    old(self)@
                },
                None => old(self)@,
            }),
    {
        if let Some(cmd_request) = callback_command {
            let adds = contains_value_of_type_in_vector(&IpfsCommand::AddBytes(0), &cmd_request.ipfs_commands);
            assert(adds == has_add_bytes(cmd_request@)) by {
                if adds {
                    let i = choose|i: int|
                        0 <= i < cmd_request.ipfs_commands@.len() && IpfsCommand::AddBytes(0).same_type(
                            &#[trigger] cmd_request.ipfs_commands@[i],
                        );
                    assert(cmd_request@.ipfs_commands[i] is AddBytes);
                }
                if has_add_bytes(cmd_request@) {
                    let i = choose|i: int|
                        0 <= i < cmd_request@.ipfs_commands.len()
                            && #[trigger] cmd_request@.ipfs_commands[i] is AddBytes;
                    assert(IpfsCommand::AddBytes(0).same_type(&cmd_request.ipfs_commands@[i]));
                }
            }
            if adds {
                self.handle_add_bytes_completed(clone_bytes(data), offchain_data);
            }
        }
    }

    /// Completes the queued request `identifier` with the result `data` of the offchain worker.
    pub fn ocw_callback(
        &mut self,
        origin: Origin,
        identifier: [u8; 32],
        data: Vec<u8>,
        offchain_data: Option<OffchainData>,
    ) -> (r: Result<(), DispatchError<Error>>)
        requires
            old(self).wf(),
            signer_of(origin) is Some ==> (old(self)@.commands matches Some(queue) && request_identifiers(
                queue,
            ).contains(identifier@)),
        ensures
            final(self).wf(),
            final(self).knowledge_keys() == old(self).knowledge_keys(),
            match signer_of(origin) {
                None => r == Err::<(), DispatchError<Error>>(DispatchError::BadOrigin) && final(self)@ == old(self)@,
                Some(signer) => r == Ok::<(), DispatchError<Error>>(()) && final(self)@ == called_back(
                    old(self)@,
                    signer,
                    identifier@,
                    data@,
                    offchain_meta(offchain_data),
                ),
            },
    {
        let signer = ensure_signed(origin)?;
        let ghost s0 = self@;
        let ghost meta = offchain_meta(offchain_data);
        let mut queue = match self.commands.take() {
            Some(q) => q,
            None => Vec::new(),
        };
        let ghost q0 = queue@;
        let index = find_request(&queue, &identifier);
        let callback_command = queue.swap_remove(index);
        let ghost request = callback_command@;
        assert(queue@.map_values(|c: CommandRequest| c@) =~= q0.map_values(|c: CommandRequest| c@).update(
            index as int,
            q0.map_values(|c: CommandRequest| c@).last(),
        ).drop_last());
        self.commands = Some(queue);
        let ghost s1 = self@;
        assert(s1 =~= KnowledgeState {
            commands: Some(q0.map_values(|c: CommandRequest| c@).update(
                index as int,
                q0.map_values(|c: CommandRequest| c@).last(),
            ).drop_last()),
            ..s0
        });
        self.deposit_event(Event::OcwCallback(signer));
        self.handle_data_for_ocw_callback(&data, offchain_data, Some(&callback_command));
        let _ = self.command_callback(&callback_command, &data);
        assert(self@ =~= called_back(s0, signer, identifier@, data@, meta));
        Ok(())
    }
}

} // verus!

verus! {

/// The URL of `cid` on the public IPFS gateway.
fn ipfs_gateway_url_for_cid(cid: &Vec<u8>) -> (r: Vec<u8>)
    ensures
        r@ == ipfs_gateway_prefix() + cid@,
{
    let mut ret_val: Vec<u8> = vec![
        104u8, 116u8, 116u8, 112u8, 115u8, 58u8, 47u8, 47u8, 105u8, 112u8, 102u8,
        115u8, 46u8, 105u8, 111u8, 47u8, 105u8, 112u8, 102u8, 115u8, 47u8,
    ];
    assert(ret_val@ =~= ipfs_gateway_prefix());
    append_bytes(&mut ret_val, cid);
    ret_val
}

/// The position of the first file in `files` with the metadata `meta_data`.
pub open spec fn first_file_with_meta_data(files: Seq<IpfsFileView>, meta_data: Seq<u8>) -> Option<int> {
    files.map_values(|f: IpfsFileView| f.meta_data).index_of_first(meta_data)
}

/// Whether a stored file has the metadata `meta_data`.
pub open spec fn has_file_with_meta_data(files: Map<Seq<u8>, IpfsFileView>, meta_data: Seq<u8>) -> bool {
    exists|cid: Seq<u8>| #[trigger] files.contains_key(cid) && files[cid].meta_data == meta_data
}

impl Pallet {
    /// The stored files, in the order the store keeps them (the order in which their cids
    /// were first stored; no file is ever removed).
    pub closed spec fn stored_files(&self) -> Seq<IpfsFileView> {
        self.ipfs_file_storage.values().map_values(|f: IpfsFile| f@)
    }

    /// The gateway URL of the first stored file, in the order of `stored_files`, with the metadata
    /// `meta_data`; empty when there is none.
    pub fn get_file_url_for_meta_data(&self, meta_data: Vec<u8>) -> (r: Vec<u8>)
        requires
            self.wf(),
        ensures
            match first_file_with_meta_data(self.stored_files(), meta_data@) {
                Some(i) => r@ == ipfs_gateway_prefix() + self.stored_files()[i].cid,
                None => r@ == Seq::<u8>::empty(),
            },
            has_file_with_meta_data(self@.ipfs_files, meta_data@) ==> exists|cid: Seq<u8>|
                #[trigger] self@.ipfs_files.contains_key(cid) && self@.ipfs_files[cid].meta_data == meta_data@
                    && r@ == ipfs_gateway_prefix() + self@.ipfs_files[cid].cid,
            !has_file_with_meta_data(self@.ipfs_files, meta_data@) ==> r@ == Seq::<u8>::empty(),
    {
        let n = self.ipfs_file_storage.len();
        let ghost metas = self.stored_files().map_values(|f: IpfsFileView| f.meta_data);
        proof {
            self.ipfs_file_storage.lemma_contains_iff(meta_data@);
            metas.index_of_first_ensures(meta_data@);
        }
        let mut i: usize = 0;
        while i < n
            invariant
                self.wf(),
                n == self.ipfs_file_storage.spec_len(),
                self.ipfs_file_storage.values().len() == n,
                metas == self.stored_files().map_values(|f: IpfsFileView| f.meta_data),
                metas.len() == n,
                match metas.index_of_first(meta_data@) {
                    Some(f) => 0 <= f < n && metas[f] == meta_data@ && forall|j: int| 0 <= j < f ==> metas[j] != meta_data@,
                    None => !metas.contains(meta_data@),
                },
                i <= n,
                forall|j: int|
                    0 <= j < i ==> (#[trigger] self.ipfs_file_storage.values()[j]).meta_data@ != meta_data@,
            decreases n - i,
        {
            let file = self.ipfs_file_storage.value_at(i);
            assert(metas[i as int] == file.meta_data@);
            if file.meta_data.key_eq(&meta_data) {
                proof {
                    assert(metas.contains(meta_data@));
                    let f = metas.index_of_first(meta_data@)->0;
                    if f < i {
                        assert(self.ipfs_file_storage.values()[f].meta_data@ != meta_data@);
                    }
                    if f > i {
                        assert(metas[i as int] != meta_data@);
                    }
                    self.ipfs_file_storage.lemma_entry(i as int);
                    let cid = self.ipfs_file_storage.key_views()[i as int];
                    assert(self@.ipfs_files.contains_key(cid));
                }
                return ipfs_gateway_url_for_cid(&file.cid);
            }
            i = i + 1;
        }
        proof {
            if metas.contains(meta_data@) {
                let j = choose|j: int| 0 <= j < metas.len() && metas[j] == meta_data@;
                assert(self.ipfs_file_storage.values()[j].meta_data@ != meta_data@);
            }
            if has_file_with_meta_data(self@.ipfs_files, meta_data@) {
                let cid = choose|cid: Seq<u8>|
                    #[trigger] self@.ipfs_files.contains_key(cid) && self@.ipfs_files[cid].meta_data == meta_data@;
                self.ipfs_file_storage.lemma_contains(cid);
                let j = self.ipfs_file_storage.index_of(cid);
                assert(self.ipfs_file_storage.values()[j].meta_data@ != meta_data@);
            }
        }
        Vec::new()
    }

    /// The gateway URL of `cid_bytes` when a file with that cid is stored; empty otherwise.
    pub fn get_file_url_for_cid(&self, cid_bytes: Vec<u8>) -> (r: Vec<u8>)
        requires
            self.wf(),
        ensures
            r@ == file_url_for_cid(self@.ipfs_files, cid_bytes@),
            !self@.ipfs_files.contains_key(cid_bytes@) ==> r@.len() == 0,
            self@.ipfs_files.contains_key(cid_bytes@) ==> r@ == ipfs_gateway_prefix() + cid_bytes@,
    {
        if self.ipfs_file_storage.contains_key(&cid_bytes) {
            ipfs_gateway_url_for_cid(&cid_bytes)
        } else {
            Vec::new()
        }
    }

    /// Moves the knowledge block `block_number` from `from` to `to`.
    fn inner_transfer(&mut self, block_number: BlockNumber, from: AccountId, to: AccountId)
        requires
            old(self).wf(),
        ensures
            final(self).wf(),
            final(self).knowledge_keys() == old(self).knowledge_keys(),
            final(self)@ == (KnowledgeState {
                account: old(self)@.account.remove((from, block_number)).insert((to, block_number), 1u8),
                ..old(self)@
            }),
    {
        let ghost before = self@;
        self.account.remove(&(from, block_number));
        assert(self@ =~= KnowledgeState { account: before.account.remove((from, block_number)), ..before });
        self.set_account(to, block_number);
    }
}

impl Sellable<AccountId, BlockNumber> for Pallet {
    open spec fn well_formed(&self) -> bool {
        self.wf()
    }

    /// Moves the knowledge block `block_number` from `from` to `to`: `from` no longer
    /// holds it and `to` does.
    fn transfer(&mut self, block_number: BlockNumber, from: AccountId, to: AccountId)
        ensures
            final(self).knowledge_keys() == old(self).knowledge_keys(),
            final(self)@ == (KnowledgeState {
                account: old(self)@.account.remove((from, block_number)).insert((to, block_number), 1u8),
                ..old(self)@
            }),
    {
        self.inner_transfer(block_number, from, to);
    }
}

} // verus!

verus! {

/// After `from` creates a knowledge block, `from` is among the owners of that block, its
/// history holds the creation block alone, and the request queued last adds its content.
pub proof fn lemma_creator_owns_created_block(
    s: KnowledgeState,
    from: AccountId,
    title: Seq<u8>,
    text: Seq<u8>,
    identifier: Seq<u8>,
)
    ensures
        ({
            let t = created(s, from, title, text, identifier);
            &&& owners_of(t.knowledge, s.block_number).contains(from)
            &&& t.knowledge[(s.block_number, from)] == seq![s.block_number]
            &&& t.account[(from, s.block_number)] == 1u8
            &&& t.commands matches Some(q) && q.last() == (CommandRequestView {
                identifier,
                requester: from,
                ipfs_commands: seq![IpfsCommandView::AddBytes(1)],
            })
            &&& t.offchain_data[s.block_number] == (OffchainDataView { data: text, meta_data: title })
        }),
{
    let t = created(s, from, title, text, identifier);
    assert(t.knowledge.contains_key((s.block_number, from)));
}

/// Modifying a knowledge block never rewrites its history: the blocks recorded before
/// stay, in order, and the block of the modification is appended.
pub proof fn lemma_modification_extends_history(
    s: KnowledgeState,
    from: AccountId,
    block_number: BlockNumber,
    title: Seq<u8>,
    text: Seq<u8>,
    identifier: Seq<u8>,
)
    requires
        s.knowledge.contains_key((block_number, from)),
    ensures
        ({
            let t = modified(s, from, block_number, title, text, identifier);
            let before = s.knowledge[(block_number, from)];
            let after = t.knowledge[(block_number, from)];
            &&& after.len() == before.len() + 1
            &&& after.subrange(0, before.len() as int) == before
            &&& after.last() == s.block_number
        }),
{
    let t = modified(s, from, block_number, title, text, identifier);
    let before = s.knowledge[(block_number, from)];
    assert(t.knowledge[(block_number, from)].subrange(0, before.len() as int) =~= before);
}

/// After `from` modifies a knowledge block, the requests queued before stay, in order, and
/// one more is queued last: by `from`, under `identifier`, with the single command to add
/// the new content to IPFS.
pub proof fn lemma_modification_queues_adding_new_content(
    s: KnowledgeState,
    from: AccountId,
    block_number: BlockNumber,
    title: Seq<u8>,
    text: Seq<u8>,
    identifier: Seq<u8>,
)
    ensures
        ({
            let t = modified(s, from, block_number, title, text, identifier);
            let queued = CommandRequestView {
                identifier,
                requester: from,
                ipfs_commands: seq![IpfsCommandView::AddBytes(1)],
            };
            &&& t.commands matches Some(q) && q.last() == queued
            &&& s.commands matches Some(q0) ==> t.commands == Some(q0.push(queued))
            &&& s.commands is None ==> t.commands == Some(seq![queued])
            &&& t.offchain_data[s.block_number] == (OffchainDataView { data: text, meta_data: title })
        }),
{
}

/// A completed request is reported by one event per command, in command order, each for
/// the requester: the address connected to or disconnected from, the cid added (the
/// result), the cid catted with the bytes read, the cid pinned, unpinned or removed, the
/// peers found (the result), or the cid with its providers (the result).
pub proof fn lemma_callback_reports_each_command(request: CommandRequestView, data: Seq<u8>, k: int)
    requires
        0 <= k < request.ipfs_commands.len(),
    ensures
        callback_events(request, data).len() == request.ipfs_commands.len(),
        ({
            let e = callback_events(request, data)[k];
            let who = request.requester;
            let c = request.ipfs_commands[k];
            &&& c matches IpfsCommandView::ConnectTo(a) ==> e == EventView::ConnectedTo(who, a)
            &&& c matches IpfsCommandView::DisconnectFrom(a) ==> e == EventView::DisconnectedFrom(who, a)
            &&& c is AddBytes ==> e == EventView::AddedCid(who, data)
            &&& c matches IpfsCommandView::CatBytes(cid) ==> e == EventView::CatBytes(who, cid, data)
            &&& c matches IpfsCommandView::InsertPin(cid) ==> e == EventView::InsertedPin(who, cid)
            &&& c matches IpfsCommandView::RemovePin(cid) ==> e == EventView::RemovedPin(who, cid)
            &&& c matches IpfsCommandView::RemoveBlock(cid) ==> e == EventView::RemovedBlock(who, cid)
            &&& c is FindPeer ==> e == EventView::FoundPeers(who, data)
            &&& c matches IpfsCommandView::GetProviders(cid) ==> e == EventView::CidProviders(who, cid, data)
        }),
{
}

/// The gateway URL of a cid is given exactly for the cids of stored files: empty for any
/// other cid, and the gateway prefix followed by the cid for a stored one.
pub proof fn lemma_url_only_for_stored_cid(files: Map<Seq<u8>, IpfsFileView>, cid: Seq<u8>)
    ensures
        file_url_for_cid(files, cid).len() > 0 <==> files.contains_key(cid),
        files.contains_key(cid) ==> file_url_for_cid(files, cid) == ipfs_gateway_prefix() + cid,
        !files.contains_key(cid) ==> file_url_for_cid(files, cid).len() == 0,
{
}

/// When the offchain worker reports that a request which added bytes was carried out,
/// with offchain data, the cid it reported is served by `get_file_url_for_cid`.
pub proof fn lemma_completed_add_is_served(
    s: KnowledgeState,
    signer: AccountId,
    identifier: Seq<u8>,
    data: Seq<u8>,
    meta_data: Seq<u8>,
)
    requires
        s.commands matches Some(q) && request_identifiers(q).contains(identifier) && has_add_bytes(
            q[request_position(q, identifier)],
        ),
    ensures
        file_url_for_cid(called_back(s, signer, identifier, data, Some(meta_data)).ipfs_files, data)
            == ipfs_gateway_prefix() + data,
{
}

/// Completing a request takes exactly that request out of the queue: the queue shrinks by
/// one and every other queued request is still queued.
pub proof fn lemma_callback_dequeues_one(
    s: KnowledgeState,
    signer: AccountId,
    identifier: Seq<u8>,
    data: Seq<u8>,
    offchain_meta_data: Option<Seq<u8>>,
)
    requires
        s.commands matches Some(q) && request_identifiers(q).contains(identifier),
    ensures
        ({
            let q = s.commands->0;
            let i = request_position(q, identifier);
            let after = called_back(s, signer, identifier, data, offchain_meta_data).commands->0;
            &&& after.len() == q.len() - 1
            &&& forall|j: int| 0 <= j < q.len() && j != i ==> after.contains(#[trigger] q[j])
        }),
{
    let q = s.commands->0;
    let ids = request_identifiers(q);
    ids.index_of_first_ensures(identifier);
    let i = request_position(q, identifier);
    let after = called_back(s, signer, identifier, data, offchain_meta_data).commands->0;
    assert forall|j: int| 0 <= j < q.len() && j != i implies after.contains(#[trigger] q[j]) by {
        if j == q.len() - 1 {
            assert(after[i] == q[j]);
        } else {
            assert(after[j] == q[j]);
        }
    }
}

} // verus!

verus! {

/// Deposited events are never changed or removed: creating, modifying and completing a
/// request only append events.
pub proof fn lemma_events_only_grow(
    s: KnowledgeState,
    from: AccountId,
    block_number: BlockNumber,
    title: Seq<u8>,
    text: Seq<u8>,
    identifier: Seq<u8>,
    data: Seq<u8>,
    offchain_meta_data: Option<Seq<u8>>,
)
    ensures
        s.events.is_prefix_of(created(s, from, title, text, identifier).events),
        s.events.is_prefix_of(modified(s, from, block_number, title, text, identifier).events),
        s.events.is_prefix_of(called_back(s, from, identifier, data, offchain_meta_data).events),
{
    assert(created(s, from, title, text, identifier).events.subrange(0, s.events.len() as int) =~= s.events);
    assert(modified(s, from, block_number, title, text, identifier).events.subrange(0, s.events.len() as int)
        =~= s.events);
    assert(called_back(s, from, identifier, data, offchain_meta_data).events.subrange(0, s.events.len() as int)
        =~= s.events);
}

} // verus!

verus! {

/// A transfer moves a knowledge block: afterwards the receiver holds it and, unless the
/// receiver is the sender, the sender no longer does; other holdings are unchanged.
pub proof fn lemma_transfer_moves_block(
    account: Map<(AccountId, BlockNumber), u8>,
    block_number: BlockNumber,
    from: AccountId,
    to: AccountId,
    other: (AccountId, BlockNumber),
)
    ensures
        ({
            let after = account.remove((from, block_number)).insert((to, block_number), 1u8);
            &&& after.contains_key((to, block_number)) && after[(to, block_number)] == 1u8
            &&& from != to ==> !after.contains_key((from, block_number))
            &&& other != (from, block_number) && other != (to, block_number) ==> (after.contains_key(other)
                == account.contains_key(other) && (account.contains_key(other) ==> after[other] == account[other]))
        }),
{
}

} // verus!

verus! {

/// The callback that reports how the processing of `request` went: its identifier, the
/// bytes parsed from the responses and the offchain data read for the block; none when
/// the processing failed.
pub fn callback_for(
    request: &CommandRequest,
    outcome: Result<Vec<IpfsResponse>, crate::ipfs_core::Error>,
    offchain_data: Option<OffchainData>,
) -> (r: Option<([u8; 32], Vec<u8>, Option<OffchainData>)>)
    ensures
        outcome is Err ==> r is None,
        outcome matches Ok(responses) ==> (r matches Some((identifier, data, sent)) && identifier == request.identifier
            && data@ == callback_bytes(responses@) && sent == offchain_data),
{
    match outcome {
        Ok(responses) => Some((request.identifier, ocw_parse_ipfs_response(responses), offchain_data)),
        Err(_) => None,
    }
}

} // verus!
