//! IPFS core: the commands that other pallets queue for the offchain worker,
//! the requests and responses exchanged with the local IPFS node, and the
//! decisions the worker takes while processing a command request.

use vstd::prelude::*;
use crate::dispatch::{AccountId, BlockNumber};
use crate::primitives::{
    append_bytes, blake2_256, blake2_256_digest, clone_bytes, is_utf8, scale_encode_hash_and_u32,
    u32_le_bytes,
};

verus! {

/// A command for the local IPFS node.
#[derive(Debug, PartialEq, Eq)]
pub enum IpfsCommand {
    ConnectTo(Vec<u8>),
    DisconnectFrom(Vec<u8>),
    AddBytes(u8),
    CatBytes(Vec<u8>),
    InsertPin(Vec<u8>),
    RemoveBlock(Vec<u8>),
    RemovePin(Vec<u8>),
    FindPeer(Vec<u8>),
    GetProviders(Vec<u8>),
}

/// The mathematical value of an [`IpfsCommand`].
pub enum IpfsCommandView {
    ConnectTo(Seq<u8>),
    DisconnectFrom(Seq<u8>),
    AddBytes(u8),
    CatBytes(Seq<u8>),
    InsertPin(Seq<u8>),
    RemoveBlock(Seq<u8>),
    RemovePin(Seq<u8>),
    FindPeer(Seq<u8>),
    GetProviders(Seq<u8>),
}

impl View for IpfsCommand {
    type V = IpfsCommandView;

    open spec fn view(&self) -> IpfsCommandView {
        match self {
            IpfsCommand::ConnectTo(a) => IpfsCommandView::ConnectTo(a@),
            IpfsCommand::DisconnectFrom(a) => IpfsCommandView::DisconnectFrom(a@),
            IpfsCommand::AddBytes(v) => IpfsCommandView::AddBytes(*v),
            IpfsCommand::CatBytes(c) => IpfsCommandView::CatBytes(c@),
            IpfsCommand::InsertPin(c) => IpfsCommandView::InsertPin(c@),
            IpfsCommand::RemoveBlock(c) => IpfsCommandView::RemoveBlock(c@),
            IpfsCommand::RemovePin(c) => IpfsCommandView::RemovePin(c@),
            IpfsCommand::FindPeer(p) => IpfsCommandView::FindPeer(p@),
            IpfsCommand::GetProviders(c) => IpfsCommandView::GetProviders(c@),
        }
    }
}

impl Clone for IpfsCommand {
    fn clone(&self) -> (r: Self)
        ensures
            r@ == self@,
    {
        match self {
            IpfsCommand::ConnectTo(a) => IpfsCommand::ConnectTo(clone_bytes(a)),
            IpfsCommand::DisconnectFrom(a) => IpfsCommand::DisconnectFrom(clone_bytes(a)),
            IpfsCommand::AddBytes(v) => IpfsCommand::AddBytes(*v),
            IpfsCommand::CatBytes(c) => IpfsCommand::CatBytes(clone_bytes(c)),
            IpfsCommand::InsertPin(c) => IpfsCommand::InsertPin(clone_bytes(c)),
            IpfsCommand::RemoveBlock(c) => IpfsCommand::RemoveBlock(clone_bytes(c)),
            IpfsCommand::RemovePin(c) => IpfsCommand::RemovePin(clone_bytes(c)),
            IpfsCommand::FindPeer(p) => IpfsCommand::FindPeer(clone_bytes(p)),
            IpfsCommand::GetProviders(c) => IpfsCommand::GetProviders(clone_bytes(c)),
        }
    }
}

/// Two commands are of the same type when they are the same variant, whatever their data.
pub open spec fn same_command_type(a: IpfsCommandView, b: IpfsCommandView) -> bool {
    ||| (a is ConnectTo && b is ConnectTo)
    ||| (a is DisconnectFrom && b is DisconnectFrom)
    ||| (a is AddBytes && b is AddBytes)
    ||| (a is CatBytes && b is CatBytes)
    ||| (a is InsertPin && b is InsertPin)
    ||| (a is RemoveBlock && b is RemoveBlock)
    ||| (a is RemovePin && b is RemovePin)
    ||| (a is FindPeer && b is FindPeer)
    ||| (a is GetProviders && b is GetProviders)
}

/// Comparison of values by their type (their variant), not by their data.
pub trait TypeEquality {
    spec fn same_type(&self, other: &Self) -> bool;

    fn eq_type(&self, other: &Self) -> (r: bool)
        ensures
            r == self.same_type(other),
    ;
}

impl TypeEquality for IpfsCommand {
    open spec fn same_type(&self, other: &Self) -> bool {
        same_command_type(self@, other@)
    }

    fn eq_type(&self, other: &Self) -> (r: bool) {
        match (self, other) {
            (IpfsCommand::ConnectTo(_), IpfsCommand::ConnectTo(_)) => true,
            (IpfsCommand::DisconnectFrom(_), IpfsCommand::DisconnectFrom(_)) => true,
            (IpfsCommand::AddBytes(_), IpfsCommand::AddBytes(_)) => true,
            (IpfsCommand::CatBytes(_), IpfsCommand::CatBytes(_)) => true,
            (IpfsCommand::InsertPin(_), IpfsCommand::InsertPin(_)) => true,
            (IpfsCommand::RemoveBlock(_), IpfsCommand::RemoveBlock(_)) => true,
            (IpfsCommand::RemovePin(_), IpfsCommand::RemovePin(_)) => true,
            (IpfsCommand::FindPeer(_), IpfsCommand::FindPeer(_)) => true,
            (IpfsCommand::GetProviders(_), IpfsCommand::GetProviders(_)) => true,
            _ => false,
        }
    }
}

/// Having the same type is an equivalence relation on commands.
pub proof fn lemma_same_command_type_equivalence(a: IpfsCommandView, b: IpfsCommandView, c: IpfsCommandView)
    ensures
        same_command_type(a, a),
        same_command_type(a, b) ==> same_command_type(b, a),
        same_command_type(a, b) && same_command_type(b, c) ==> same_command_type(a, c),
{
}

/// A request to the offchain worker: the commands to run for `requester`, under a unique identifier.
#[derive(Debug, PartialEq)]
pub struct CommandRequest {
    pub identifier: [u8; 32],
    pub requester: AccountId,
    pub ipfs_commands: Vec<IpfsCommand>,
}

/// The mathematical value of a [`CommandRequest`].
pub struct CommandRequestView {
    pub identifier: Seq<u8>,
    pub requester: AccountId,
    pub ipfs_commands: Seq<IpfsCommandView>,
}

impl View for CommandRequest {
    type V = CommandRequestView;

    open spec fn view(&self) -> CommandRequestView {
        CommandRequestView {
            identifier: self.identifier@,
            requester: self.requester,
            ipfs_commands: self.ipfs_commands@.map_values(|c: IpfsCommand| c@),
        }
    }
}

/// A copy of a list of commands.
pub fn clone_commands(commands: &Vec<IpfsCommand>) -> (r: Vec<IpfsCommand>)
    ensures
        r@.map_values(|c: IpfsCommand| c@) == commands@.map_values(|c: IpfsCommand| c@),
{
    let mut r: Vec<IpfsCommand> = Vec::new();
    let mut i: usize = 0;
    while i < commands.len()
        invariant
            i <= commands.len(),
            r@.len() == i,
            forall|j: int| 0 <= j < i ==> #[trigger] r@[j]@ == commands@[j]@,
        decreases commands.len() - i,
    {
        r.push(commands[i].clone());
        i = i + 1;
    }
    assert(r@.map_values(|c: IpfsCommand| c@) =~= commands@.map_values(|c: IpfsCommand| c@));
    r
}

impl Clone for CommandRequest {
    fn clone(&self) -> (r: Self)
        ensures
            r@ == self@,
    {
        CommandRequest {
            identifier: self.identifier,
            requester: self.requester,
            ipfs_commands: clone_commands(&self.ipfs_commands),
        }
    }
}

impl Default for CommandRequest {
    fn default() -> (r: Self)
        ensures
            r@.identifier == Seq::new(32, |i: int| 0u8),
            r@.requester == 0,
            r@.ipfs_commands.len() == 0,
    {
        let r = CommandRequest { identifier: [0u8; 32], requester: 0, ipfs_commands: Vec::new() };
        assert(r@.identifier =~= Seq::new(32, |i: int| 0u8));
        r
    }
}

/// Errors of the IPFS core.
#[derive(Clone, Copy, Debug, PartialEq, Eq, Structural)]
pub enum Error {
    CannotCreateRequest,
    RequestTimeout,
    RequestFailed,
    FailedToAcquireLock,
}

} // verus!

verus! {

/// A multiaddress of an IPFS peer, as raw bytes.
#[derive(Debug, PartialEq, Eq)]
pub struct OpaqueMultiaddr(pub Vec<u8>);

/// A request to the local IPFS node.
#[derive(Debug, PartialEq, Eq)]
pub enum IpfsRequest {
    Addrs,
    AddBytes(Vec<u8>, u8),
    CatBytes(Vec<u8>),
    Connect(OpaqueMultiaddr),
    Disconnect(OpaqueMultiaddr),
    FindPeer(Vec<u8>),
    GetProviders(Vec<u8>),
    Identity,
    InsertPin(Vec<u8>, bool),
    LocalAddrs,
    LocalRefs,
    Peers,
    RemoveBlock,
    RemovePin(Vec<u8>, bool),
}

/// The mathematical value of an [`IpfsRequest`].
pub enum IpfsRequestView {
    Addrs,
    AddBytes(Seq<u8>, u8),
    CatBytes(Seq<u8>),
    Connect(Seq<u8>),
    Disconnect(Seq<u8>),
    FindPeer(Seq<u8>),
    GetProviders(Seq<u8>),
    Identity,
    InsertPin(Seq<u8>, bool),
    LocalAddrs,
    LocalRefs,
    Peers,
    RemoveBlock,
    RemovePin(Seq<u8>, bool),
}

impl View for IpfsRequest {
    type V = IpfsRequestView;

    open spec fn view(&self) -> IpfsRequestView {
        match self {
            IpfsRequest::Addrs => IpfsRequestView::Addrs,
            IpfsRequest::AddBytes(d, v) => IpfsRequestView::AddBytes(d@, *v),
            IpfsRequest::CatBytes(c) => IpfsRequestView::CatBytes(c@),
            IpfsRequest::Connect(a) => IpfsRequestView::Connect(a.0@),
            IpfsRequest::Disconnect(a) => IpfsRequestView::Disconnect(a.0@),
            IpfsRequest::FindPeer(p) => IpfsRequestView::FindPeer(p@),
            IpfsRequest::GetProviders(c) => IpfsRequestView::GetProviders(c@),
            IpfsRequest::Identity => IpfsRequestView::Identity,
            IpfsRequest::InsertPin(c, r) => IpfsRequestView::InsertPin(c@, *r),
            IpfsRequest::LocalAddrs => IpfsRequestView::LocalAddrs,
            IpfsRequest::LocalRefs => IpfsRequestView::LocalRefs,
            IpfsRequest::Peers => IpfsRequestView::Peers,
            IpfsRequest::RemoveBlock => IpfsRequestView::RemoveBlock,
            IpfsRequest::RemovePin(c, r) => IpfsRequestView::RemovePin(c@, *r),
        }
    }
}

/// A response of the local IPFS node.
#[derive(Debug, PartialEq, Eq)]
pub enum IpfsResponse {
    Addrs(Vec<(Vec<u8>, Vec<OpaqueMultiaddr>)>),
    AddBytes(Vec<u8>),
    BitswapStats {
        blocks_sent: u64,
        data_sent: u64,
        blocks_received: u64,
        data_received: u64,
        dup_blks_received: u64,
        dup_data_received: u64,
        peers: Vec<Vec<u8>>,
        wantlist: Vec<(Vec<u8>, i32)>,
    },
    CatBytes(Vec<u8>),
    FindPeer(Vec<OpaqueMultiaddr>),
    GetClosestPeers(Vec<Vec<u8>>),
    GetProviders(Vec<Vec<u8>>),
    Identity(Vec<u8>, Vec<OpaqueMultiaddr>),
    LocalAddrs(Vec<OpaqueMultiaddr>),
    LocalRefs(Vec<Vec<u8>>),
    Peers(Vec<OpaqueMultiaddr>),
    RemoveBlock(Vec<u8>),
    Success,
}

/// The separator between the parts of a joined byte string: `", "`.
pub open spec fn part_separator() -> Seq<u8> {
    seq![44u8, 32u8]
}

/// The well-formed UTF-8 parts of `parts`, in order, joined by `", "`; a part that
/// follows an empty result starts the result anew, without a separator.
pub open spec fn utf8_join(parts: Seq<Seq<u8>>) -> Seq<u8>
    decreases parts.len(),
{
    if parts.len() == 0 {
        Seq::empty()
    } else {
        let joined = utf8_join(parts.drop_last());
        let last = parts.last();
        if !vstd::utf8::valid_utf8(last) {
            joined
        } else if joined.len() == 0 {
            last
        } else {
            joined + part_separator() + last
        }
    }
}

/// The byte views of a list of byte strings.
pub open spec fn byte_parts(parts: Seq<Vec<u8>>) -> Seq<Seq<u8>> {
    parts.map_values(|p: Vec<u8>| p@)
}

/// The byte views of a list of addresses.
pub open spec fn address_parts(addresses: Seq<OpaqueMultiaddr>) -> Seq<Seq<u8>> {
    addresses.map_values(|a: OpaqueMultiaddr| a.0@)
}

/// Joins the well-formed UTF-8 parts with `", "`.
fn join_utf8_parts(parts: &Vec<Vec<u8>>) -> (r: Vec<u8>)
    ensures
        r@ == utf8_join(byte_parts(parts@)),
{
    let ghost all = byte_parts(parts@);
    let mut bytes: Vec<u8> = Vec::new();
    let mut i: usize = 0;
    while i < parts.len()
        invariant
            i <= parts.len(),
            all == byte_parts(parts@),
            bytes@ == utf8_join(all.take(i as int)),
        decreases parts.len() - i,
    {
        let part = &parts[i];
        assert(all.take(i + 1).drop_last() =~= all.take(i as int));
        assert(all.take(i + 1).last() == part@);
        if is_utf8(part.as_slice()) {
            if bytes.len() == 0 {
                bytes = clone_bytes(part);
            } else {
                bytes.push(44u8);
                bytes.push(32u8);
                append_bytes(&mut bytes, part);
                assert(bytes@ =~= utf8_join(all.take(i as int)) + part_separator() + part@);
            }
        }
        i = i + 1;
    }
    assert(all.take(parts.len() as int) =~= all);
    bytes
}

/// Flattens a list of byte strings into one UTF-8 byte string: the parts that are
/// well-formed UTF-8, separated by `", "`; the others are left out.
pub fn multiple_bytes_to_utf8_safe_bytes(response: Vec<Vec<u8>>) -> (r: Vec<u8>)
    ensures
        r@ == utf8_join(byte_parts(response@)),
{
    join_utf8_parts(&response)
}

/// The raw bytes of each address.
fn address_bytes(addresses: &Vec<OpaqueMultiaddr>) -> (r: Vec<Vec<u8>>)
    ensures
        byte_parts(r@) == address_parts(addresses@),
{
    let mut r: Vec<Vec<u8>> = Vec::new();
    let mut i: usize = 0;
    while i < addresses.len()
        invariant
            i <= addresses.len(),
            r@.len() == i,
            forall|j: int| 0 <= j < i ==> #[trigger] r@[j]@ == addresses@[j].0@,
        decreases addresses.len() - i,
    {
        r.push(clone_bytes(&addresses[i].0));
        i = i + 1;
    }
    assert(byte_parts(r@) =~= address_parts(addresses@));
    r
}

/// Converts a list of addresses into one UTF-8 byte string: the addresses that are
/// well-formed UTF-8, separated by `", "`.
pub fn addresses_to_utf8_safe_bytes(addresses: Vec<OpaqueMultiaddr>) -> (r: Vec<u8>)
    ensures
        r@ == utf8_join(address_parts(addresses@)),
{
    let parts = address_bytes(&addresses);
    join_utf8_parts(&parts)
}

/// Leaving out the parts that are not UTF-8 does not change the joined result.
pub proof fn lemma_utf8_join_skips_invalid(parts: Seq<Seq<u8>>)
    ensures
        utf8_join(parts) == utf8_join(parts.filter(|p: Seq<u8>| vstd::utf8::valid_utf8(p))),
    decreases parts.len(),
{
    let valid = |p: Seq<u8>| vstd::utf8::valid_utf8(p);
    reveal(Seq::filter);
    if parts.len() > 0 {
        lemma_utf8_join_skips_invalid(parts.drop_last());
        let sub = parts.drop_last().filter(valid);
        let f = parts.filter(valid);
        if valid(parts.last()) {
            assert(f == sub.push(parts.last()));
            assert(f.drop_last() =~= sub);
        } else {
            assert(f == sub);
        }
    }
}

} // verus!

verus! {

/// The bytes that a response holds for the callback: the bytes catted, the cid added or
/// removed, or the peers, providers, addresses or references joined as UTF-8; nothing for
/// the other responses.
pub open spec fn response_payload(r: IpfsResponse) -> Seq<u8> {
    match r {
        IpfsResponse::CatBytes(b) => b@,
        IpfsResponse::AddBytes(c) => c@,
        IpfsResponse::RemoveBlock(c) => c@,
        IpfsResponse::GetClosestPeers(p) => utf8_join(byte_parts(p@)),
        IpfsResponse::GetProviders(p) => utf8_join(byte_parts(p@)),
        IpfsResponse::FindPeer(a) => utf8_join(address_parts(a@)),
        IpfsResponse::LocalAddrs(a) => utf8_join(address_parts(a@)),
        IpfsResponse::Peers(a) => utf8_join(address_parts(a@)),
        IpfsResponse::LocalRefs(r) => utf8_join(byte_parts(r@)),
        _ => Seq::empty(),
    }
}

/// The bytes that a response carries for the callback, if it carries any: its payload,
/// when that is not empty.
pub open spec fn response_bytes(r: IpfsResponse) -> Option<Seq<u8>> {
    if response_payload(r).len() > 0 {
        Some(response_payload(r))
    } else {
        None
    }
}

/// The bytes of the last response that carries bytes; empty when none does.
pub open spec fn callback_bytes(responses: Seq<IpfsResponse>) -> Seq<u8>
    decreases responses.len(),
{
    if responses.len() == 0 {
        Seq::empty()
    } else {
        match response_bytes(responses.last()) {
            Some(b) => b,
            None => callback_bytes(responses.drop_last()),
        }
    }
}

/// The payload of a response, as bytes.
fn response_payload_bytes(response: &IpfsResponse) -> (r: Vec<u8>)
    ensures
        r@ == response_payload(*response),
        *response matches IpfsResponse::CatBytes(b) ==> r@ == b@,
        *response matches IpfsResponse::AddBytes(c) ==> r@ == c@,
        *response matches IpfsResponse::RemoveBlock(c) ==> r@ == c@,
        *response matches IpfsResponse::GetClosestPeers(p) ==> r@ == utf8_join(byte_parts(p@)),
        *response matches IpfsResponse::GetProviders(p) ==> r@ == utf8_join(byte_parts(p@)),
        *response matches IpfsResponse::LocalRefs(p) ==> r@ == utf8_join(byte_parts(p@)),
        *response matches IpfsResponse::FindPeer(a) ==> r@ == utf8_join(address_parts(a@)),
        *response matches IpfsResponse::LocalAddrs(a) ==> r@ == utf8_join(address_parts(a@)),
        *response matches IpfsResponse::Peers(a) ==> r@ == utf8_join(address_parts(a@)),
        (*response is Addrs || *response is BitswapStats || *response is Identity || *response is Success)
            ==> r@.len() == 0,
{
    match response {
        IpfsResponse::CatBytes(bytes_received) => clone_bytes(bytes_received),
        IpfsResponse::AddBytes(cid) => clone_bytes(cid),
        IpfsResponse::RemoveBlock(cid) => clone_bytes(cid),
        IpfsResponse::GetClosestPeers(peer_ids) => join_utf8_parts(peer_ids),
        IpfsResponse::GetProviders(peer_ids) => join_utf8_parts(peer_ids),
        IpfsResponse::FindPeer(addresses) => {
            let parts = address_bytes(addresses);
            join_utf8_parts(&parts)
        },
        IpfsResponse::LocalAddrs(addresses) => {
            let parts = address_bytes(addresses);
            join_utf8_parts(&parts)
        },
        IpfsResponse::Peers(addresses) => {
            let parts = address_bytes(addresses);
            join_utf8_parts(&parts)
        },
        IpfsResponse::LocalRefs(refs) => join_utf8_parts(refs),
        IpfsResponse::Addrs(_) => Vec::new(),
        IpfsResponse::BitswapStats { .. } => Vec::new(),
        IpfsResponse::Identity(_, _) => Vec::new(),
        IpfsResponse::Success => Vec::new(),
    }
}

/// Parses the responses to a command request into the bytes for the callback:
/// where several responses carry bytes, the last of them is returned.
pub fn ocw_parse_ipfs_response(responses: Vec<IpfsResponse>) -> (r: Vec<u8>)
    ensures
        r@ == callback_bytes(responses@),
{
    let mut callback_response: Vec<u8> = Vec::new();
    let mut i: usize = 0;
    while i < responses.len()
        invariant
            i <= responses.len(),
            callback_response@ == callback_bytes(responses@.take(i as int)),
        decreases responses.len() - i,
    {
        assert(responses@.take(i + 1).drop_last() =~= responses@.take(i as int));
        assert(responses@.take(i + 1).last() == responses@[i as int]);
        let payload = response_payload_bytes(&responses[i]);
        if payload.len() > 0 {
            callback_response = payload;
        }
        i = i + 1;
    }
    assert(responses@.take(responses.len() as int) =~= responses@);
    callback_response
}

/// The identifier of a command request created in `block_number` from the random
/// seed of that block: the BLAKE2b-256 digest of the SCALE encoding of the pair.
pub open spec fn command_identifier(random_seed: Seq<u8>, block_number: BlockNumber) -> Seq<u8> {
    blake2_256_digest(random_seed + u32_le_bytes(block_number))
}

/// Creates the identifier of a command request. Every node of the network computes
/// the same identifier from the same random seed and block number.
pub fn generate_id(random_seed: &[u8; 32], block_number: BlockNumber) -> (r: [u8; 32])
    ensures
        r@ == command_identifier(random_seed@, block_number),
{
    let payload = scale_encode_hash_and_u32(random_seed, block_number);
    blake2_256(payload.as_slice())
}

/// Whether the offchain worker may process a command request in `block_number`,
/// given the block recorded in its lock (`None` when no lock is recorded): the lock is
/// taken when none was recorded, or when the recorded one is for the same block; the
/// block to record is returned.
pub fn acquire_command_request_lock(block_number: BlockNumber, locked_in: Option<BlockNumber>) -> (r:
    Result<BlockNumber, Error>)
    ensures
        r == acquire_lock_outcome(block_number, locked_in),
        r is Ok ==> r->Ok_0 == block_number,
        r is Ok <==> (locked_in is None || locked_in == Some(block_number)),
        locked_in matches Some(b) && b != block_number ==> r == Err::<BlockNumber, Error>(
            Error::FailedToAcquireLock,
        ),
{
    match locked_in {
        Some(block) => if block_number != block {
            Err(Error::FailedToAcquireLock)
        } else {
            Ok(block)
        },
        None => Ok(block_number),
    }
}

/// Whether the lock of a request may be taken in `block_number`, given the block recorded
/// in it: yes when none is recorded or the recorded one is `block_number`.
pub open spec fn acquire_lock_outcome(block_number: BlockNumber, locked_in: Option<BlockNumber>) -> Result<
    BlockNumber,
    Error,
> {
    match locked_in {
        Some(block) => if block != block_number {
            Err(Error::FailedToAcquireLock)
        } else {
            Ok(block)
        },
        None => Ok(block_number),
    }
}

/// The list of processed command identifiers after `identifier` is processed,
/// given the list recorded before (`None` when none is recorded).
pub fn processed_commands(recorded: Option<Vec<[u8; 32]>>, identifier: &[u8; 32]) -> (r: Vec<[u8; 32]>)
    ensures
        r@ == (match recorded {
            Some(ids) => ids@.push(*identifier),
            None => seq![*identifier],
        }),
{
    match recorded {
        Some(mut commands) => {
            commands.push(*identifier);
            commands
        },
        None => {
            let mut res: Vec<[u8; 32]> = Vec::new();
            res.push(*identifier);
            assert(res@ =~= seq![*identifier]);
            res
        },
    }
}

/// The view of optional bytes.
pub open spec fn opt_bytes(b: Option<Vec<u8>>) -> Option<Seq<u8>> {
    match b {
        Some(v) => Some(v@),
        None => None,
    }
}

/// The request that carries out a command; adding bytes needs the data stored for the
/// block, and without it there is no request.
pub open spec fn command_request(c: IpfsCommandView, block_data: Option<Seq<u8>>) -> Option<IpfsRequestView> {
    match c {
        IpfsCommandView::ConnectTo(a) => Some(IpfsRequestView::Connect(a)),
        IpfsCommandView::DisconnectFrom(a) => Some(IpfsRequestView::Disconnect(a)),
        IpfsCommandView::AddBytes(version) => match block_data {
            Some(d) => Some(IpfsRequestView::AddBytes(d, version)),
            None => None,
        },
        IpfsCommandView::CatBytes(cid) => Some(IpfsRequestView::CatBytes(cid)),
        IpfsCommandView::InsertPin(cid) => Some(IpfsRequestView::InsertPin(cid, false)),
        IpfsCommandView::RemovePin(cid) => Some(IpfsRequestView::RemovePin(cid, false)),
        IpfsCommandView::RemoveBlock(_) => Some(IpfsRequestView::RemoveBlock),
        IpfsCommandView::FindPeer(p) => Some(IpfsRequestView::FindPeer(p)),
        IpfsCommandView::GetProviders(cid) => Some(IpfsRequestView::GetProviders(cid)),
    }
}

/// Whether the command needs the data stored for the block (only adding bytes does).
pub fn needs_block_data(command: &IpfsCommand) -> (r: bool)
    ensures
        r == (command@ is AddBytes),
{
    match command {
        IpfsCommand::AddBytes(_) => true,
        _ => false,
    }
}

/// The request to send to the IPFS node for `command`; `block_data` is the data stored
/// for the block. Adding bytes without that data fails the whole command request.
pub fn request_for_command(command: &IpfsCommand, block_data: Option<Vec<u8>>) -> (r: Result<
    IpfsRequest,
    Error,
>)
    ensures
        match command_request(command@, opt_bytes(block_data)) {
            Some(req) => r is Ok && r->Ok_0@ == req,
            None => r == Err::<IpfsRequest, Error>(Error::RequestFailed),
        },
{
    match command {
        IpfsCommand::ConnectTo(address) => Ok(IpfsRequest::Connect(OpaqueMultiaddr(clone_bytes(address)))),
        IpfsCommand::DisconnectFrom(address) => Ok(
            IpfsRequest::Disconnect(OpaqueMultiaddr(clone_bytes(address))),
        ),
        IpfsCommand::AddBytes(version) => match block_data {
            Some(bytes_to_add) => Ok(IpfsRequest::AddBytes(bytes_to_add, *version)),
            None => Err(Error::RequestFailed),
        },
        IpfsCommand::CatBytes(cid) => Ok(IpfsRequest::CatBytes(clone_bytes(cid))),
        IpfsCommand::InsertPin(cid) => Ok(IpfsRequest::InsertPin(clone_bytes(cid), false)),
        IpfsCommand::RemovePin(cid) => Ok(IpfsRequest::RemovePin(clone_bytes(cid), false)),
        IpfsCommand::RemoveBlock(_) => Ok(IpfsRequest::RemoveBlock),
        IpfsCommand::FindPeer(peer_id) => Ok(IpfsRequest::FindPeer(clone_bytes(peer_id))),
        IpfsCommand::GetProviders(cid) => Ok(IpfsRequest::GetProviders(clone_bytes(cid))),
    }
}

/// Whether `response` is the answer that a successful `command` gets.
pub open spec fn answers(c: IpfsCommandView, response: IpfsResponse) -> bool {
    match c {
        IpfsCommandView::AddBytes(_) => response is AddBytes,
        IpfsCommandView::CatBytes(_) => response is CatBytes,
        IpfsCommandView::FindPeer(_) => response is FindPeer,
        IpfsCommandView::GetProviders(_) => response is GetProviders,
        _ => response is Success,
    }
}

/// The response of a command, given the outcome of its request: the answer when the
/// request succeeded with the answer the command expects; `None` when the command failed.
pub fn command_response(command: &IpfsCommand, outcome: Result<IpfsResponse, Error>) -> (r: Option<
    IpfsResponse,
>)
    ensures
        r == (match outcome {
            Ok(response) => if answers(command@, response) {
                Some(response)
            } else {
                None
            },
            Err(_) => None,
        }),
        outcome is Err ==> r is None,
        r matches Some(x) ==> outcome == Ok::<IpfsResponse, Error>(x),
        command@ is AddBytes ==> (r is Some <==> (outcome matches Ok(x) && x is AddBytes)),
        command@ is CatBytes ==> (r is Some <==> (outcome matches Ok(x) && x is CatBytes)),
        command@ is FindPeer ==> (r is Some <==> (outcome matches Ok(x) && x is FindPeer)),
        command@ is GetProviders ==> (r is Some <==> (outcome matches Ok(x) && x is GetProviders)),
        (command@ is ConnectTo || command@ is DisconnectFrom || command@ is InsertPin || command@ is RemovePin
            || command@ is RemoveBlock) ==> (r is Some <==> (outcome matches Ok(x) && x is Success)),
{
    match outcome {
        Ok(response) => {
            let ok = match (command, &response) {
                (IpfsCommand::AddBytes(_), IpfsResponse::AddBytes(_)) => true,
                (IpfsCommand::CatBytes(_), IpfsResponse::CatBytes(_)) => true,
                (IpfsCommand::FindPeer(_), IpfsResponse::FindPeer(_)) => true,
                (IpfsCommand::GetProviders(_), IpfsResponse::GetProviders(_)) => true,
                (IpfsCommand::ConnectTo(_), IpfsResponse::Success) => true,
                (IpfsCommand::DisconnectFrom(_), IpfsResponse::Success) => true,
                (IpfsCommand::InsertPin(_), IpfsResponse::Success) => true,
                (IpfsCommand::RemovePin(_), IpfsResponse::Success) => true,
                (IpfsCommand::RemoveBlock(_), IpfsResponse::Success) => true,
                _ => false,
            };
            if ok {
                Some(response)
            } else {
                None
            }
        },
        Err(_) => None,
    }
}

/// A file stored on IPFS: its cid and the metadata it was added with.
#[derive(Debug, PartialEq, Eq)]
pub struct IpfsFile {
    pub cid: Vec<u8>,
    pub meta_data: Vec<u8>,
}

/// The mathematical value of an [`IpfsFile`].
pub struct IpfsFileView {
    pub cid: Seq<u8>,
    pub meta_data: Seq<u8>,
}

impl View for IpfsFile {
    type V = IpfsFileView;

    open spec fn view(&self) -> IpfsFileView {
        IpfsFileView { cid: self.cid@, meta_data: self.meta_data@ }
    }
}

impl IpfsFile {
    pub fn new(cid: Vec<u8>, meta_data: Vec<u8>) -> (r: Self)
        ensures
            r@ == (IpfsFileView { cid: cid@, meta_data: meta_data@ }),
    {
        IpfsFile { cid, meta_data }
    }
}

impl Clone for IpfsFile {
    fn clone(&self) -> (r: Self)
        ensures
            r@ == self@,
    {
        IpfsFile { cid: clone_bytes(&self.cid), meta_data: clone_bytes(&self.meta_data) }
    }
}

impl Default for IpfsFile {
    fn default() -> (r: Self)
        ensures
            r@.cid.len() == 0,
            r@.meta_data.len() == 0,
    {
        IpfsFile { cid: Vec::new(), meta_data: Vec::new() }
    }
}

/// Data kept for a block in offchain storage: the text and its metadata (the title).
#[derive(Debug, PartialEq, Eq)]
pub struct OffchainData {
    pub data: Vec<u8>,
    pub meta_data: Vec<u8>,
}

/// The mathematical value of an [`OffchainData`].
pub struct OffchainDataView {
    pub data: Seq<u8>,
    pub meta_data: Seq<u8>,
}

impl View for OffchainData {
    type V = OffchainDataView;

    open spec fn view(&self) -> OffchainDataView {
        OffchainDataView { data: self.data@, meta_data: self.meta_data@ }
    }
}

impl Clone for OffchainData {
    fn clone(&self) -> (r: Self)
        ensures
            r@ == self@,
    {
        OffchainData { data: clone_bytes(&self.data), meta_data: clone_bytes(&self.meta_data) }
    }
}

/// The command requests queued at genesis.
pub struct GenesisConfig {
    pub commands: Vec<CommandRequest>,
}

impl Default for GenesisConfig {
    fn default() -> (r: Self)
        ensures
            r.commands@.len() == 0,
    {
        GenesisConfig { commands: Vec::new() }
    }
}

} // verus!

verus! {

/// The callback gets the bytes of the last response that carries bytes: a response that
/// carries bytes replaces what came before, one that carries none leaves it.
pub proof fn lemma_last_carrying_response_wins(responses: Seq<IpfsResponse>, response: IpfsResponse)
    ensures
        response_bytes(response) matches Some(b) ==> callback_bytes(responses.push(response)) == b,
        response_bytes(response) is None ==> callback_bytes(responses.push(response)) == callback_bytes(responses),
{
    assert(responses.push(response).drop_last() =~= responses);
}

/// A well-formed UTF-8 part that follows a non-empty joined result is added after `", "`.
pub proof fn lemma_utf8_join_of_valid_parts(parts: Seq<Seq<u8>>, part: Seq<u8>)
    requires
        vstd::utf8::valid_utf8(part),
        utf8_join(parts).len() > 0,
    ensures
        utf8_join(parts.push(part)) == utf8_join(parts) + part_separator() + part,
{
    assert(parts.push(part).drop_last() =~= parts);
}

/// One more part of a UTF-8 join: a part that is not well-formed UTF-8 is left out; a
/// well-formed one becomes the whole result when nothing came before it, and otherwise is
/// added after `", "`.
pub proof fn lemma_utf8_join_push(parts: Seq<Seq<u8>>, part: Seq<u8>)
    ensures
        !vstd::utf8::valid_utf8(part) ==> utf8_join(parts.push(part)) == utf8_join(parts),
        vstd::utf8::valid_utf8(part) && utf8_join(parts).len() == 0 ==> utf8_join(parts.push(part)) == part,
        vstd::utf8::valid_utf8(part) && utf8_join(parts).len() > 0 ==> utf8_join(parts.push(part)) == utf8_join(
            parts,
        ) + seq![44u8, 32u8] + part,
{
    assert(parts.push(part).drop_last() =~= parts);
}

/// The request sent for each command carries the command's own argument: the address to
/// connect to or disconnect from, the cid to cat, pin, unpin or look up providers for, the
/// peer to find, and for adding, the data stored for the block with the command's version
/// (no request without that data); pins are not recursive.
pub proof fn lemma_request_carries_command_argument(c: IpfsCommandView, block_data: Option<Seq<u8>>)
    ensures
        c matches IpfsCommandView::ConnectTo(a) ==> command_request(c, block_data) == Some(
            IpfsRequestView::Connect(a),
        ),
        c matches IpfsCommandView::DisconnectFrom(a) ==> command_request(c, block_data) == Some(
            IpfsRequestView::Disconnect(a),
        ),
        c matches IpfsCommandView::AddBytes(v) ==> command_request(c, block_data) == (match block_data {
            Some(d) => Some(IpfsRequestView::AddBytes(d, v)),
            None => None::<IpfsRequestView>,
        }),
        c matches IpfsCommandView::CatBytes(cid) ==> command_request(c, block_data) == Some(
            IpfsRequestView::CatBytes(cid),
        ),
        c matches IpfsCommandView::InsertPin(cid) ==> command_request(c, block_data) == Some(
            IpfsRequestView::InsertPin(cid, false),
        ),
        c matches IpfsCommandView::RemovePin(cid) ==> command_request(c, block_data) == Some(
            IpfsRequestView::RemovePin(cid, false),
        ),
        c is RemoveBlock ==> command_request(c, block_data) == Some(IpfsRequestView::RemoveBlock),
        c matches IpfsCommandView::FindPeer(p) ==> command_request(c, block_data) == Some(
            IpfsRequestView::FindPeer(p),
        ),
        c matches IpfsCommandView::GetProviders(cid) ==> command_request(c, block_data) == Some(
            IpfsRequestView::GetProviders(cid),
        ),
{
}

/// What the callback holds after the bytes `payload` of a further response: `payload` when
/// it is not empty, else what it held before.
pub open spec fn after_payload(before: Seq<u8>, payload: Seq<u8>) -> Seq<u8> {
    if payload.len() > 0 {
        payload
    } else {
        before
    }
}

/// What each kind of response adds to the callback: the bytes catted, the cid added or
/// removed, the peers, providers or references joined as UTF-8, or the addresses of a peer,
/// of the node or of its peers joined as UTF-8, each replacing what came before when it is
/// not empty; the other responses leave the callback as it was.
pub proof fn lemma_callback_bytes_per_response(earlier: Seq<IpfsResponse>, response: IpfsResponse)
    ensures
        ({
            let before = callback_bytes(earlier);
            let after = callback_bytes(earlier.push(response));
            &&& response matches IpfsResponse::CatBytes(b) ==> after == after_payload(before, b@)
            &&& response matches IpfsResponse::AddBytes(c) ==> after == after_payload(before, c@)
            &&& response matches IpfsResponse::RemoveBlock(c) ==> after == after_payload(before, c@)
            &&& response matches IpfsResponse::GetClosestPeers(p) ==> after == after_payload(
                before,
                utf8_join(byte_parts(p@)),
            )
            &&& response matches IpfsResponse::GetProviders(p) ==> after == after_payload(
                before,
                utf8_join(byte_parts(p@)),
            )
            &&& response matches IpfsResponse::LocalRefs(p) ==> after == after_payload(
                before,
                utf8_join(byte_parts(p@)),
            )
            &&& response matches IpfsResponse::FindPeer(a) ==> after == after_payload(
                before,
                utf8_join(address_parts(a@)),
            )
            &&& response matches IpfsResponse::LocalAddrs(a) ==> after == after_payload(
                before,
                utf8_join(address_parts(a@)),
            )
            &&& response matches IpfsResponse::Peers(a) ==> after == after_payload(
                before,
                utf8_join(address_parts(a@)),
            )
            &&& (response is Addrs || response is BitswapStats || response is Identity || response is Success)
                ==> after == before
        }),
{
    assert(earlier.push(response).drop_last() =~= earlier);
}

/// The callback of a single response: the bytes catted, the cid added or removed, the
/// peers, providers or references joined as UTF-8, or the addresses joined as UTF-8 (so
/// for a peer found, `addresses_to_utf8_safe_bytes` of its addresses); nothing for the
/// other responses.
pub proof fn lemma_callback_bytes_of_single_response(response: IpfsResponse)
    ensures
        ({
            let bytes = callback_bytes(seq![response]);
            &&& response matches IpfsResponse::CatBytes(b) ==> bytes == b@
            &&& response matches IpfsResponse::AddBytes(c) ==> bytes == c@
            &&& response matches IpfsResponse::RemoveBlock(c) ==> bytes == c@
            &&& response matches IpfsResponse::GetClosestPeers(p) ==> bytes == utf8_join(byte_parts(p@))
            &&& response matches IpfsResponse::GetProviders(p) ==> bytes == utf8_join(byte_parts(p@))
            &&& response matches IpfsResponse::LocalRefs(p) ==> bytes == utf8_join(byte_parts(p@))
            &&& response matches IpfsResponse::FindPeer(a) ==> bytes == utf8_join(address_parts(a@))
            &&& response matches IpfsResponse::LocalAddrs(a) ==> bytes == utf8_join(address_parts(a@))
            &&& response matches IpfsResponse::Peers(a) ==> bytes == utf8_join(address_parts(a@))
            &&& (response is Addrs || response is BitswapStats || response is Identity || response is Success)
                ==> bytes.len() == 0
        }),
{
    assert(seq![response] =~= Seq::<IpfsResponse>::empty().push(response));
    lemma_callback_bytes_per_response(Seq::empty(), response);
}

/// A peer found at one well-formed UTF-8 address gives that address as the callback.
pub proof fn lemma_found_peer_address_is_called_back(addresses: Vec<OpaqueMultiaddr>)
    requires
        addresses@.len() == 1,
        vstd::utf8::valid_utf8(addresses@[0].0@),
    ensures
        callback_bytes(seq![IpfsResponse::FindPeer(addresses)]) == addresses@[0].0@,
{
    lemma_callback_bytes_of_single_response(IpfsResponse::FindPeer(addresses));
    let parts = address_parts(addresses@);
    assert(parts.drop_last() =~= Seq::<Seq<u8>>::empty());
    assert(parts.last() == addresses@[0].0@);
    assert(utf8_join(parts.drop_last()).len() == 0);
    assert(utf8_join(parts) == addresses@[0].0@);
}

/// A lock recorded for another block is never taken, so a request is not processed again
/// while its callback is pending; a free lock, or one recorded for the current block, is
/// taken for the current block.
pub proof fn lemma_lock_taken_only_when_free_or_own(block_number: BlockNumber, locked_in: Option<BlockNumber>)
    ensures
        locked_in matches Some(b) && b != block_number ==> acquire_lock_outcome(block_number, locked_in)
            == Err::<BlockNumber, Error>(Error::FailedToAcquireLock),
        (locked_in is None || locked_in == Some(block_number)) ==> acquire_lock_outcome(block_number, locked_in)
            == Ok::<BlockNumber, Error>(block_number),
{
}

/// Each command accepts exactly the answer of the kind of request it sends: adding, catting,
/// finding a peer and getting providers accept their own answers, and connecting,
/// disconnecting, pinning, unpinning and removing a block accept `Success`.
pub proof fn lemma_command_accepts_answer_of_its_request(c: IpfsCommandView, data: Seq<u8>, response: IpfsResponse)
    ensures
        ({
            let request = command_request(c, Some(data));
            &&& request is Some
            &&& request matches Some(IpfsRequestView::AddBytes(_, _)) ==> (answers(c, response)
                <==> response is AddBytes)
            &&& request matches Some(IpfsRequestView::CatBytes(_)) ==> (answers(c, response)
                <==> response is CatBytes)
            &&& request matches Some(IpfsRequestView::FindPeer(_)) ==> (answers(c, response)
                <==> response is FindPeer)
            &&& request matches Some(IpfsRequestView::GetProviders(_)) ==> (answers(c, response)
                <==> response is GetProviders)
            &&& request matches Some(IpfsRequestView::Connect(_)) ==> (answers(c, response)
                <==> response is Success)
            &&& request matches Some(IpfsRequestView::Disconnect(_)) ==> (answers(c, response)
                <==> response is Success)
            &&& request matches Some(IpfsRequestView::InsertPin(_, _)) ==> (answers(c, response)
                <==> response is Success)
            &&& request matches Some(IpfsRequestView::RemovePin(_, _)) ==> (answers(c, response)
                <==> response is Success)
            &&& request matches Some(IpfsRequestView::RemoveBlock) ==> (answers(c, response)
                <==> response is Success)
        }),
{
}

} // verus!

verus! {

/// Where the processing of a command request stands.
#[derive(Clone, Copy, Debug, PartialEq, Eq, Structural)]
pub enum ProcessingPhase {
    /// Waiting for the block recorded in the lock of the request.
    AwaitingLock,
    /// Waiting to learn whether the lock was written.
    WritingLock,
    /// Waiting for the data stored for the block, for the current command.
    AwaitingData,
    /// Waiting for the outcome of the request of the current command.
    AwaitingResponse,
    /// Waiting for the recorded list of processed requests.
    AwaitingProcessed,
    /// Done.
    Finished,
}

/// What the offchain worker reports back to the processing of a command request.
#[derive(Debug)]
pub enum ProcessingEvent {
    /// The block recorded in the lock of the request; `None` when none is recorded.
    LockRead(Option<BlockNumber>),
    /// Whether the lock was written; false when it changed meanwhile.
    LockWritten(bool),
    /// The data stored for the block; `None` when it cannot be read.
    BlockDataRead(Option<Vec<u8>>),
    /// The outcome of the request sent to the IPFS node.
    Responded(Result<IpfsResponse, Error>),
    /// The recorded identifiers of processed requests; `None` when none are recorded.
    ProcessedRead(Option<Vec<[u8; 32]>>),
}

/// What the offchain worker does next for a command request.
#[derive(Debug)]
pub enum ProcessingAction {
    /// Read the block recorded in the lock of the request.
    ReadLock,
    /// Record this block in the lock of the request, if the lock did not change since it was read.
    WriteLock(BlockNumber),
    /// Read the data stored for the block.
    ReadBlockData,
    /// Send this request to the IPFS node.
    Send(IpfsRequest),
    /// Read the identifiers of processed requests.
    ReadProcessed,
    /// Record these identifiers of processed requests, if given, and return `result`.
    Finish { processed: Option<Vec<[u8; 32]>>, result: Result<Vec<IpfsResponse>, Error> },
}

/// The action records the identifiers `ids` as processed and returns the responses `responses`.
pub open spec fn finishes_with(action: ProcessingAction, ids: Seq<[u8; 32]>, responses: Seq<IpfsResponse>) -> bool {
    match action {
        ProcessingAction::Finish { processed: Some(p), result: Ok(rs) } => p@ == ids && rs@ == responses,
        _ => false,
    }
}

/// The identifiers of processed requests after `identifier` is added to those recorded.
pub open spec fn processed_after(recorded: Option<Vec<[u8; 32]>>, identifier: [u8; 32]) -> Seq<[u8; 32]> {
    match recorded {
        Some(r) => r@.push(identifier),
        None => seq![identifier],
    }
}

/// What a step of the processing does: from `old`, on `event`, to `new`, asking for `action`.
pub open spec fn step_post(
    old: CommandProcessing,
    event: ProcessingEvent,
    new: CommandProcessing,
    action: ProcessingAction,
) -> bool {
    &&& new.wf()
    &&& new.same_request(&old)
    &&& match event {
        ProcessingEvent::LockRead(locked_in) => match acquire_lock_outcome(old.block(), locked_in) {
            Ok(block) => {
                &&& new.phase() == ProcessingPhase::WritingLock
                &&& action == ProcessingAction::WriteLock(block)
                &&& new.next_command() == old.next_command()
                &&& new.kept() == old.kept()
            },
            Err(e) => new.aborted(action, e),
        },
        ProcessingEvent::LockWritten(written) => if written {
            &&& new.ready(action)
            &&& new.next_command() == old.next_command()
            &&& new.kept() == old.kept()
        } else {
            new.aborted(action, Error::FailedToAcquireLock)
        },
        ProcessingEvent::BlockDataRead(data) => match command_request(
            old.commands()[old.next_command()],
            opt_bytes(data),
        ) {
            Some(request) => {
                &&& new.phase() == ProcessingPhase::AwaitingResponse
                &&& action matches ProcessingAction::Send(sent) && sent@ == request
                &&& new.next_command() == old.next_command()
                &&& new.kept() == old.kept()
            },
            None => new.aborted(action, Error::RequestFailed),
        },
        ProcessingEvent::Responded(outcome) => {
            let command = old.commands()[old.next_command()];
            match outcome {
                Ok(response) => if answers(command, response) {
                    &&& new.ready(action)
                    &&& new.next_command() == old.next_command() + 1
                    &&& new.kept() == old.kept().push(response)
                } else {
                    new.aborted(action, Error::RequestFailed)
                },
                Err(_) => new.aborted(action, Error::RequestFailed),
            }
        },
        ProcessingEvent::ProcessedRead(recorded) => {
            &&& new.phase() == ProcessingPhase::Finished
            &&& finishes_with(action, processed_after(recorded, old.request_identifier()), old.kept())
        },
    }
}

/// The processing of one command request by the offchain worker: take the lock of the
/// request, carry out each command in turn, each only once the one before it succeeded,
/// and record the request as processed. A command that fails, or gets an answer other
/// than the one it expects, ends the processing with `RequestFailed`.
pub struct CommandProcessing {
    block_number: BlockNumber,
    identifier: [u8; 32],
    commands: Vec<IpfsCommand>,
    next: usize,
    responses: Vec<IpfsResponse>,
    phase: ProcessingPhase,
}

impl CommandProcessing {
    /// Where the processing stands.
    pub closed spec fn phase(&self) -> ProcessingPhase {
        self.phase
    }

    /// The block in which the request is processed.
    pub closed spec fn block(&self) -> BlockNumber {
        self.block_number
    }

    /// The identifier of the request.
    pub closed spec fn request_identifier(&self) -> [u8; 32] {
        self.identifier
    }

    /// The commands of the request.
    pub closed spec fn commands(&self) -> Seq<IpfsCommandView> {
        self.commands@.map_values(|c: IpfsCommand| c@)
    }

    /// The position of the command being carried out.
    pub closed spec fn next_command(&self) -> int {
        self.next as int
    }

    /// The responses kept so far.
    pub closed spec fn kept(&self) -> Seq<IpfsResponse> {
        self.responses@
    }

    /// The position is within the commands, and at one of them while its data or its
    /// response is awaited.
    pub closed spec fn wf(&self) -> bool {
        &&& self.next <= self.commands.len()
        &&& (self.phase == ProcessingPhase::AwaitingData || self.phase == ProcessingPhase::AwaitingResponse)
            ==> self.next < self.commands.len()
    }

    /// Whether `event` is what the processing waits for.
    pub open spec fn awaits(&self, event: ProcessingEvent) -> bool {
        match event {
            ProcessingEvent::LockRead(_) => self.phase() == ProcessingPhase::AwaitingLock,
            ProcessingEvent::LockWritten(_) => self.phase() == ProcessingPhase::WritingLock,
            ProcessingEvent::BlockDataRead(_) => self.phase() == ProcessingPhase::AwaitingData,
            ProcessingEvent::Responded(_) => self.phase() == ProcessingPhase::AwaitingResponse,
            ProcessingEvent::ProcessedRead(_) => self.phase() == ProcessingPhase::AwaitingProcessed,
        }
    }

    /// The processing is ready for the command at its position, or for recording once all
    /// commands were carried out, and `action` asks for what it needs.
    pub open spec fn ready(&self, action: ProcessingAction) -> bool {
        if self.next_command() < self.commands().len() {
            let command = self.commands()[self.next_command()];
            if command is AddBytes {
                self.phase() == ProcessingPhase::AwaitingData && action is ReadBlockData
            } else {
                &&& self.phase() == ProcessingPhase::AwaitingResponse
                &&& action matches ProcessingAction::Send(request) && command_request(command, None) == Some(
                    request@,
                )
            }
        } else {
            self.phase() == ProcessingPhase::AwaitingProcessed && action is ReadProcessed
        }
    }

    /// The block, the identifier and the commands are those of `other`.
    pub open spec fn same_request(&self, other: &Self) -> bool {
        &&& self.block() == other.block()
        &&& self.request_identifier() == other.request_identifier()
        &&& self.commands() == other.commands()
    }

    /// The processing has ended with `result`, recording nothing.
    pub open spec fn aborted(&self, action: ProcessingAction, error: Error) -> bool {
        &&& self.phase() == ProcessingPhase::Finished
        &&& action matches ProcessingAction::Finish { processed, result } && processed is None && result
            == Err::<Vec<IpfsResponse>, Error>(error)
    }

    /// Starts processing `request` in `block_number`: first the lock is read.
    pub fn new(block_number: BlockNumber, request: &CommandRequest) -> (r: (Self, ProcessingAction))
        ensures
            r.0.wf(),
            r.0.phase() == ProcessingPhase::AwaitingLock,
            r.0.block() == block_number,
            r.0.request_identifier() == request.identifier,
            r.0.commands() == request@.ipfs_commands,
            r.0.next_command() == 0,
            r.0.kept().len() == 0,
            r.1 is ReadLock,
    {
        let p = CommandProcessing {
            block_number,
            identifier: request.identifier,
            commands: clone_commands(&request.ipfs_commands),
            next: 0,
            responses: Vec::new(),
            phase: ProcessingPhase::AwaitingLock,
        };
        (p, ProcessingAction::ReadLock)
    }

    /// Moves to the command at the current position, or to recording once all are done.
    fn advance(&mut self) -> (action: ProcessingAction)
        requires
            old(self).next <= old(self).commands.len(),
        ensures
            final(self).wf(),
            final(self).same_request(&*old(self)),
            final(self).next_command() == old(self).next_command(),
            final(self).kept() == old(self).kept(),
            final(self).ready(action),
    {
        if self.next < self.commands.len() {
            assert(self.commands()[self.next as int] == self.commands@[self.next as int]@);
            if needs_block_data(&self.commands[self.next]) {
                self.phase = ProcessingPhase::AwaitingData;
                ProcessingAction::ReadBlockData
            } else {
                match request_for_command(&self.commands[self.next], None) {
                    Ok(request) => {
                        self.phase = ProcessingPhase::AwaitingResponse;
                        ProcessingAction::Send(request)
                    },
                    Err(_) => {
                        assert(false);
                        ProcessingAction::ReadBlockData
                    },
                }
            }
        } else {
            self.phase = ProcessingPhase::AwaitingProcessed;
            ProcessingAction::ReadProcessed
        }
    }

    /// Takes what the offchain worker reports and says what it does next.
    pub fn step(&mut self, event: ProcessingEvent) -> (action: ProcessingAction)
        requires
            old(self).wf(),
            old(self).awaits(event),
        ensures
            step_post(*old(self), event, *final(self), action),
    {
        match event {
            ProcessingEvent::LockRead(locked_in) => {
                match acquire_command_request_lock(self.block_number, locked_in) {
                    Ok(block) => {
                        self.phase = ProcessingPhase::WritingLock;
                        ProcessingAction::WriteLock(block)
                    },
                    Err(e) => {
                        self.phase = ProcessingPhase::Finished;
                        ProcessingAction::Finish { processed: None, result: Err(e) }
                    },
                }
            },
            ProcessingEvent::LockWritten(written) => {
                if written {
                    self.advance()
                } else {
                    self.phase = ProcessingPhase::Finished;
                    ProcessingAction::Finish { processed: None, result: Err(Error::FailedToAcquireLock) }
                }
            },
            ProcessingEvent::BlockDataRead(data) => {
                assert(self.commands().len() == self.commands@.len());
                assert(self.commands()[self.next as int] == self.commands@[self.next as int]@);
                match request_for_command(&self.commands[self.next], data) {
                    Ok(request) => {
                        self.phase = ProcessingPhase::AwaitingResponse;
                        ProcessingAction::Send(request)
                    },
                    Err(e) => {
                        self.phase = ProcessingPhase::Finished;
                        ProcessingAction::Finish { processed: None, result: Err(e) }
                    },
                }
            },
            ProcessingEvent::Responded(outcome) => {
                assert(self.commands().len() == self.commands@.len());
                assert(self.next < self.commands.len());
                assert(self.commands()[self.next as int] == self.commands@[self.next as int]@);
                match command_response(&self.commands[self.next], outcome) {
                    Some(response) => {
                        self.responses.push(response);
                        self.next = self.next + 1;
                        self.advance()
                    },
                    None => {
                        self.phase = ProcessingPhase::Finished;
                        ProcessingAction::Finish { processed: None, result: Err(Error::RequestFailed) }
                    },
                }
            },
            ProcessingEvent::ProcessedRead(recorded) => {
                let processed = processed_commands(recorded, &self.identifier);
                let mut responses: Vec<IpfsResponse> = Vec::new();
                std::mem::swap(&mut responses, &mut self.responses);
                self.phase = ProcessingPhase::Finished;
                ProcessingAction::Finish { processed: Some(processed), result: Ok(responses) }
            },
        }
    }
}

} // verus!

verus! {

/// Whether `event` is a successful outcome of what `s` waits for: the lock can be taken
/// and is written, the block's data is there, and each command gets the answer it expects.
pub open spec fn succeeds(s: CommandProcessing, event: ProcessingEvent) -> bool {
    match event {
        ProcessingEvent::LockRead(locked_in) => acquire_lock_outcome(s.block(), locked_in) is Ok,
        ProcessingEvent::LockWritten(written) => written,
        ProcessingEvent::BlockDataRead(data) => data is Some,
        ProcessingEvent::Responded(outcome) => outcome matches Ok(response) && answers(
            s.commands()[s.next_command()],
            response,
        ),
        ProcessingEvent::ProcessedRead(_) => true,
    }
}

/// The answers among `events`, in order.
pub open spec fn answers_in(events: Seq<ProcessingEvent>) -> Seq<IpfsResponse>
    decreases events.len(),
{
    if events.len() == 0 {
        Seq::empty()
    } else {
        let before = answers_in(events.drop_last());
        match events.last() {
            ProcessingEvent::Responded(Ok(response)) => before.push(response),
            _ => before,
        }
    }
}

/// A run of the processing: `states[i]` awaits `events[i]` and steps to `states[i + 1]`,
/// asking for `actions[i + 1]`; it starts as `new` leaves it.
pub open spec fn is_run(
    states: Seq<CommandProcessing>,
    events: Seq<ProcessingEvent>,
    actions: Seq<ProcessingAction>,
) -> bool {
    &&& states.len() == events.len() + 1
    &&& actions.len() == events.len() + 1
    &&& states[0].wf()
    &&& states[0].phase() == ProcessingPhase::AwaitingLock
    &&& states[0].next_command() == 0
    &&& states[0].kept().len() == 0
    &&& forall|i: int| 0 <= i < events.len() ==> #[trigger] steps_at(states, events, actions, i)
}

/// State `i` of a run awaits event `i` and steps on it to state `i + 1`, asking for action `i + 1`.
pub open spec fn steps_at(
    states: Seq<CommandProcessing>,
    events: Seq<ProcessingEvent>,
    actions: Seq<ProcessingAction>,
    i: int,
) -> bool {
    states[i].awaits(events[i]) && step_post(states[i], events[i], states[i + 1], actions[i + 1])
}

/// What holds along a successful run, up to state `i`.
pub open spec fn run_invariant(states: Seq<CommandProcessing>, events: Seq<ProcessingEvent>, i: int) -> bool {
    let s = states[i];
    &&& s.wf()
    &&& s.same_request(&states[0])
    &&& s.phase() != ProcessingPhase::Finished ==> {
        &&& s.kept() == answers_in(events.take(i))
        &&& s.kept().len() == s.next_command()
        &&& forall|k: int| 0 <= k < s.next_command() ==> answers(s.commands()[k], #[trigger] s.kept()[k])
        &&& s.phase() == ProcessingPhase::AwaitingProcessed ==> s.next_command() == s.commands().len()
    }
}

proof fn lemma_run_invariant(
    states: Seq<CommandProcessing>,
    events: Seq<ProcessingEvent>,
    actions: Seq<ProcessingAction>,
    i: int,
)
    requires
        is_run(states, events, actions),
        forall|j: int| 0 <= j < events.len() ==> #[trigger] succeeds(states[j], events[j]),
        0 <= i <= events.len(),
    ensures
        run_invariant(states, events, i),
    decreases i,
{
    if i == 0 {
        assert(events.take(0) =~= Seq::<ProcessingEvent>::empty());
        assert(states[0].kept() =~= Seq::<IpfsResponse>::empty());
    } else {
        lemma_run_invariant(states, events, actions, i - 1);
        let j = i - 1;
        let s = states[j];
        let e = events[j];
        let t = states[i];
        assert(steps_at(states, events, actions, j));
        assert(succeeds(s, e));
        assert(events.take(i).drop_last() =~= events.take(j));
        assert(events.take(i).last() == e);
        match e {
            ProcessingEvent::Responded(outcome) => {
                let response = outcome->Ok_0;
                assert(t.kept() == s.kept().push(response));
                assert forall|k: int| 0 <= k < t.next_command() implies answers(
                    t.commands()[k],
                    #[trigger] t.kept()[k],
                ) by {
                    if k < s.next_command() {
                        assert(t.kept()[k] == s.kept()[k]);
                    }
                }
            },
            ProcessingEvent::ProcessedRead(_) => {},
            ProcessingEvent::BlockDataRead(data) => {},
            ProcessingEvent::LockRead(_) => {},
            ProcessingEvent::LockWritten(_) => {},
        }
    }
}

/// A run in which every step succeeds keeps, until it finishes, each command's answer in
/// command order; once the processed list is read, it finishes by recording the request's
/// identifier after those already recorded and returning one answer per command, each the
/// answer its command expects.
pub proof fn lemma_successful_run(
    states: Seq<CommandProcessing>,
    events: Seq<ProcessingEvent>,
    actions: Seq<ProcessingAction>,
)
    requires
        is_run(states, events, actions),
        forall|j: int| 0 <= j < events.len() ==> #[trigger] succeeds(states[j], events[j]),
    ensures
        forall|i: int|
            0 <= i <= events.len() && states[i].phase() != ProcessingPhase::Finished ==> #[trigger] states[i].kept()
                == answers_in(events.take(i)),
        events.len() > 0 && events.last() is ProcessedRead ==> {
            let answers_given = answers_in(events);
            &&& states.last().phase() == ProcessingPhase::Finished
            &&& finishes_with(
                actions.last(),
                processed_after(events.last()->ProcessedRead_0, states[0].request_identifier()),
                answers_given,
            )
            &&& answers_given.len() == states[0].commands().len()
            &&& forall|k: int|
                0 <= k < answers_given.len() ==> answers(states[0].commands()[k], #[trigger] answers_given[k])
        },
{
    assert forall|i: int|
        0 <= i <= events.len() && states[i].phase() != ProcessingPhase::Finished implies #[trigger] states[i].kept()
            == answers_in(events.take(i)) by {
        lemma_run_invariant(states, events, actions, i);
    }
    if events.len() > 0 && events.last() is ProcessedRead {
        let n = events.len() as int;
        let j = n - 1;
        lemma_run_invariant(states, events, actions, j);
        let s = states[j];
        let e = events[j];
        assert(steps_at(states, events, actions, j));
        assert(events.take(n) =~= events);
        assert(events.drop_last() =~= events.take(j));
        assert(answers_in(events) == answers_in(events.take(j)));
    }
}

/// In the processing of a request, a lock recorded for another block ends the processing
/// with `FailedToAcquireLock`, recording nothing; a free lock, or one recorded for the
/// current block, is written for the current block.
pub proof fn lemma_processing_takes_only_free_or_own_lock(
    before: CommandProcessing,
    locked_in: Option<BlockNumber>,
    after: CommandProcessing,
    action: ProcessingAction,
)
    requires
        step_post(before, ProcessingEvent::LockRead(locked_in), after, action),
    ensures
        locked_in matches Some(b) && b != before.block() ==> after.aborted(action, Error::FailedToAcquireLock),
        (locked_in is None || locked_in == Some(before.block())) ==> {
            &&& after.phase() == ProcessingPhase::WritingLock
            &&& action == ProcessingAction::WriteLock(before.block())
        },
{
}

/// In the processing of a request, the answer to the current command is kept, and the
/// processing moves on to the next command, exactly when it is of the kind of the command:
/// added bytes for adding, catted bytes for catting, a peer for finding one, providers for
/// getting them, and `Success` for the other commands; any other answer ends the
/// processing with `RequestFailed`, recording nothing.
pub proof fn lemma_processing_keeps_only_expected_answer(
    before: CommandProcessing,
    response: IpfsResponse,
    after: CommandProcessing,
    action: ProcessingAction,
)
    requires
        step_post(before, ProcessingEvent::Responded(Ok(response)), after, action),
    ensures
        ({
            let command = before.commands()[before.next_command()];
            let kept = after.kept() == before.kept().push(response) && after.next_command()
                == before.next_command() + 1;
            let refused = after.aborted(action, Error::RequestFailed);
            &&& command is AddBytes ==> if response is AddBytes {
                kept
            } else {
                refused
            }
            &&& command is CatBytes ==> if response is CatBytes {
                kept
            } else {
                refused
            }
            &&& command is FindPeer ==> if response is FindPeer {
                kept
            } else {
                refused
            }
            &&& command is GetProviders ==> if response is GetProviders {
                kept
            } else {
                refused
            }
            &&& (command is ConnectTo || command is DisconnectFrom || command is InsertPin || command is RemovePin
                || command is RemoveBlock) ==> if response is Success {
                kept
            } else {
                refused
            }
        }),
{
}

} // verus!
