use substrate_ipfs::content::{Content, Sellable};
use substrate_ipfs::ipfs_core::{Error as IpfsError, IpfsResponse};
use substrate_ipfs::knowledge::callback_for;
use substrate_ipfs::dispatch::{DispatchError, Origin};
use substrate_ipfs::ipfs_core::{generate_id, CommandRequest, IpfsCommand, IpfsFile, OffchainData};
use substrate_ipfs::knowledge::{contains_value_of_type_in_vector, find_value_of_type_in_vector, Error, Event, Pallet};
use substrate_ipfs::rpc::TemplatePallet;
use std::sync::Arc;

const SEED: [u8; 32] = [9u8; 32];

#[test]
fn create_requires_signed_origin() {
    let mut p = Pallet::new(1);
    assert_eq!(p.create(Origin::Unsigned, b"t".to_vec(), b"x".to_vec(), SEED), Err(DispatchError::BadOrigin));
    assert!(p.events().is_empty());
    assert!(p.commands().is_none());
}

#[test]
fn create_stores_and_queues() {
    let mut p = Pallet::new(7);
    assert_eq!(p.create(Origin::Signed(42), b"title".to_vec(), b"text".to_vec(), SEED), Ok(()));
    assert_eq!(p.knowledge(7, 42), Some(vec![7]));
    assert_eq!(p.account(42, 7), Some(1));
    assert_eq!(p.account(43, 7), None);
    assert_eq!(p.offchain_data(7), Some(OffchainData { data: b"text".to_vec(), meta_data: b"title".to_vec() }));
    assert_eq!(p.offchain_index(7), Some(vec![7, 0, 0, 0]));
    let expected = CommandRequest {
        identifier: generate_id(&SEED, 7),
        requester: 42,
        ipfs_commands: vec![IpfsCommand::AddBytes(1)],
    };
    assert_eq!(p.commands(), &Some(vec![expected]));
    assert_eq!(
        p.events(),
        &vec![Event::Created { creator: 42, block_number: 7, title: b"title".to_vec(), text: b"text".to_vec() }]
    );
}

#[test]
fn create_twice_queues_two_requests() {
    let mut p = Pallet::new(1);
    p.create(Origin::Signed(1), b"a".to_vec(), b"b".to_vec(), SEED).unwrap();
    p.set_block_number(258);
    p.create(Origin::Signed(2), b"c".to_vec(), b"d".to_vec(), SEED).unwrap();
    assert_eq!(p.commands().as_ref().unwrap().len(), 2);
    assert_eq!(p.offchain_index(258), Some(vec![2, 1, 0, 0]));
    assert_eq!(p.block_number(), 258);
}

#[test]
fn modify_content_appends_history() {
    let mut p = Pallet::new(3);
    p.create(Origin::Signed(5), b"t1".to_vec(), b"x1".to_vec(), SEED).unwrap();
    p.set_block_number(4);
    assert_eq!(p.modify_content(Origin::Signed(5), 3, b"t2".to_vec(), b"x2".to_vec(), [1u8; 32]), Ok(()));
    assert_eq!(p.knowledge(3, 5), Some(vec![3, 4]));
    assert_eq!(p.offchain_data(4), Some(OffchainData { data: b"x2".to_vec(), meta_data: b"t2".to_vec() }));
    assert_eq!(p.commands().as_ref().unwrap().len(), 2);
    assert_eq!(p.commands().as_ref().unwrap()[1].identifier, generate_id(&[1u8; 32], 4));
    // The event reports the content indexed for the modified block.
    assert_eq!(
        p.events()[1],
        Event::Modified { creator: 5, owner: 5, block_number: 3, title: b"t1".to_vec(), text: b"x1".to_vec() }
    );
}

#[test]
fn modify_content_in_same_block_reports_new_content() {
    let mut p = Pallet::new(3);
    p.create(Origin::Signed(5), b"t1".to_vec(), b"x1".to_vec(), SEED).unwrap();
    assert_eq!(p.modify_content(Origin::Signed(5), 3, b"t2".to_vec(), b"x2".to_vec(), SEED), Ok(()));
    assert_eq!(p.knowledge(3, 5), Some(vec![3, 3]));
    assert_eq!(
        p.events()[1],
        Event::Modified { creator: 5, owner: 5, block_number: 3, title: b"t2".to_vec(), text: b"x2".to_vec() }
    );
}

#[test]
fn modify_content_bad_origin() {
    let mut p = Pallet::new(3);
    assert_eq!(p.modify_content(Origin::Root, 3, vec![], vec![], SEED), Err(DispatchError::BadOrigin));
}

#[test]
fn get_content_indexes_block_number() {
    let mut p = Pallet::new(1);
    assert_eq!(p.get_content(Origin::Signed(1), 0x0102), Ok(()));
    assert_eq!(p.offchain_index(0x0102), Some(vec![2, 1, 0, 0]));
    assert_eq!(p.get_content(Origin::Unsigned, 5), Err(DispatchError::BadOrigin));
    assert_eq!(p.offchain_index(5), None);
}

#[test]
fn get_knowledge_owners_lists_each_owner_once() {
    let mut p = Pallet::new(2);
    p.create(Origin::Signed(10), b"a".to_vec(), b"a".to_vec(), SEED).unwrap();
    p.create(Origin::Signed(11), b"b".to_vec(), b"b".to_vec(), SEED).unwrap();
    p.create(Origin::Signed(10), b"c".to_vec(), b"c".to_vec(), SEED).unwrap();
    p.set_block_number(3);
    p.create(Origin::Signed(12), b"d".to_vec(), b"d".to_vec(), SEED).unwrap();
    assert_eq!(p.get_knowledge_owners(Origin::Signed(99), 2), Ok(()));
    match p.events().last().unwrap() {
        Event::Owners { requestor, block_number, owners } => {
            assert_eq!(*requestor, 99);
            assert_eq!(*block_number, 2);
            assert_eq!(owners, &vec![10, 11]);
        }
        other => panic!("unexpected event {:?}", other),
    }
    assert_eq!(p.get_knowledge_owners(Origin::Signed(1), 9), Ok(()));
    assert_eq!(p.events().last().unwrap(), &Event::Owners { requestor: 1, block_number: 9, owners: vec![] });
}

#[test]
fn store_offchain_data_on_chain() {
    let mut p = Pallet::new(1);
    let d = OffchainData { data: b"d".to_vec(), meta_data: b"m".to_vec() };
    assert_eq!(p.store_offchain_data(Origin::Signed(1), 4, d.clone()), Ok(()));
    assert_eq!(p.ipfs_data(4), Some(d));
    assert_eq!(p.events(), &vec![Event::DataStored { block_number: 4 }]);
    assert_eq!(
        p.store_offchain_data(Origin::Root, 4, OffchainData { data: vec![], meta_data: vec![] }),
        Err(DispatchError::BadOrigin)
    );
}

#[test]
fn ocw_callback_completes_add_bytes() {
    let mut p = Pallet::new(7);
    p.create(Origin::Signed(42), b"title".to_vec(), b"text".to_vec(), SEED).unwrap();
    let id = generate_id(&SEED, 7);
    let offchain = OffchainData { data: b"text".to_vec(), meta_data: b"title".to_vec() };
    assert_eq!(p.ocw_callback(Origin::Signed(1), id, b"QmCid".to_vec(), Some(offchain)), Ok(()));
    assert_eq!(p.commands(), &Some(vec![]));
    assert_eq!(p.ipfs_files(b"QmCid".to_vec()), IpfsFile::new(b"QmCid".to_vec(), b"title".to_vec()));
    let events = p.events();
    assert_eq!(events[1], Event::OcwCallback(1));
    assert_eq!(events[2], Event::AddedCid(42, b"QmCid".to_vec()));
    assert_eq!(events.len(), 3);
    assert_eq!(p.get_file_url_for_cid(b"QmCid".to_vec()), b"https://ipfs.io/ipfs/QmCid".to_vec());
    assert_eq!(p.get_file_url_for_meta_data(b"title".to_vec()), b"https://ipfs.io/ipfs/QmCid".to_vec());
    assert_eq!(p.get_file_url_for_cid(b"Other".to_vec()), Vec::<u8>::new());
    assert_eq!(p.get_file_url_for_meta_data(b"nothing".to_vec()), Vec::<u8>::new());
    assert_eq!(p.ipfs_files(b"Other".to_vec()), IpfsFile::default());
}

#[test]
fn ocw_callback_without_offchain_data_stores_no_file() {
    let mut p = Pallet::new(7);
    p.create(Origin::Signed(42), b"t".to_vec(), b"x".to_vec(), SEED).unwrap();
    p.set_block_number(8);
    p.create(Origin::Signed(43), b"u".to_vec(), b"y".to_vec(), SEED).unwrap();
    let first = generate_id(&SEED, 7);
    let second = generate_id(&SEED, 8);
    assert_eq!(p.ocw_callback(Origin::Signed(1), first, b"cid".to_vec(), None), Ok(()));
    assert_eq!(p.ipfs_files(b"cid".to_vec()), IpfsFile::default());
    // The last request took the place of the completed one.
    let queue = p.commands().as_ref().unwrap();
    assert_eq!(queue.len(), 1);
    assert_eq!(queue[0].identifier, second);
}

#[test]
fn ocw_callback_bad_origin() {
    let mut p = Pallet::new(7);
    assert_eq!(p.ocw_callback(Origin::Unsigned, [0u8; 32], vec![], None), Err(DispatchError::BadOrigin));
    assert!(p.events().is_empty());
}

#[test]
fn transfer_moves_block_to_new_holder() {
    let mut p = Pallet::new(7);
    p.create(Origin::Signed(1), b"t".to_vec(), b"x".to_vec(), SEED).unwrap();
    assert_eq!(p.account(1, 7), Some(1));
    p.transfer(7, 1, 2);
    assert_eq!(p.account(2, 7), Some(1));
    assert_eq!(p.account(1, 7), None);
    // Transferring to oneself keeps the block.
    p.transfer(7, 2, 2);
    assert_eq!(p.account(2, 7), Some(1));
}

#[test]
fn find_and_contains_by_type() {
    let v = vec![IpfsCommand::CatBytes(b"a".to_vec()), IpfsCommand::AddBytes(3), IpfsCommand::AddBytes(4)];
    assert_eq!(find_value_of_type_in_vector(&IpfsCommand::AddBytes(0), &v), Some(IpfsCommand::AddBytes(3)));
    assert!(contains_value_of_type_in_vector(&IpfsCommand::CatBytes(vec![]), &v));
    assert!(!contains_value_of_type_in_vector(&IpfsCommand::FindPeer(vec![]), &v));
    assert_eq!(find_value_of_type_in_vector(&IpfsCommand::FindPeer(vec![]), &v), None);
}

#[test]
fn content_accessors() {
    let mut c = Content::new(1, 2, b"t".to_vec(), b"x".to_vec());
    assert_eq!(c.owner(), 1);
    assert_eq!(c.block_number(), 2);
    assert_eq!(c.title(), b"t".to_vec());
    assert_eq!(c.text(), b"x".to_vec());
    c.set_title(b"t2".to_vec());
    c.set_text(b"x2".to_vec());
    assert_eq!(c, Content { owner: 1, block_number: 2, title: b"t2".to_vec(), text: b"x2".to_vec() });
}

#[test]
fn template_pallet_keeps_client() {
    let client = Arc::new(5u32);
    let t: TemplatePallet<u32, ()> = TemplatePallet::new(client.clone());
    assert!(Arc::ptr_eq(t.client(), &client));
}

#[test]
fn knowledge_error_variants_exist() {
    let e = DispatchError::Module(Error::KnowledgeNotExist);
    assert_ne!(e, DispatchError::Module(Error::NoContent));
}

#[test]
fn create_with_identifier_queues_given_identifier() {
    let mut p = Pallet::new(2);
    assert_eq!(p.create_with_identifier(Origin::Signed(4), b"t".to_vec(), b"x".to_vec(), [3u8; 32]), Ok(()));
    let queue = p.commands().as_ref().unwrap();
    assert_eq!(queue.len(), 1);
    assert_eq!(queue[0].identifier, [3u8; 32]);
    assert_eq!(queue[0].requester, 4);
    assert_eq!(queue[0].ipfs_commands, vec![IpfsCommand::AddBytes(1)]);
    assert_eq!(p.knowledge(2, 4), Some(vec![2]));
}

#[test]
fn modify_content_with_identifier_queues_given_identifier() {
    let mut p = Pallet::new(2);
    p.create_with_identifier(Origin::Signed(4), b"t".to_vec(), b"x".to_vec(), [3u8; 32]).unwrap();
    p.set_block_number(5);
    assert_eq!(p.modify_content_with_identifier(Origin::Signed(4), 2, b"u".to_vec(), b"y".to_vec(), [8u8; 32]), Ok(()));
    let queue = p.commands().as_ref().unwrap();
    assert_eq!(queue[1].identifier, [8u8; 32]);
    assert_eq!(p.knowledge(2, 4), Some(vec![2, 5]));
    assert_eq!(
        p.events().last().unwrap(),
        &Event::Modified { creator: 4, owner: 4, block_number: 2, title: b"t".to_vec(), text: b"x".to_vec() }
    );
}

#[test]
fn ocw_callback_reports_each_command() {
    let mut p = Pallet::new(1);
    p.create_with_identifier(Origin::Signed(4), b"t".to_vec(), b"x".to_vec(), [3u8; 32]).unwrap();
    // Callbacks of other requests in the queue are reported command by command.
    p.create_with_identifier(Origin::Signed(5), b"u".to_vec(), b"y".to_vec(), [6u8; 32]).unwrap();
    assert_eq!(p.ocw_callback(Origin::Signed(9), [3u8; 32], b"cid".to_vec(), None), Ok(()));
    let queue = p.commands().as_ref().unwrap();
    assert_eq!(queue.len(), 1);
    assert_eq!(queue[0].identifier, [6u8; 32]);
    let events = p.events();
    assert_eq!(events[events.len() - 2], Event::OcwCallback(9));
    assert_eq!(events[events.len() - 1], Event::AddedCid(4, b"cid".to_vec()));
}

#[test]
fn file_url_for_meta_data_is_first_stored_match() {
    let mut p = Pallet::new(1);
    p.create_with_identifier(Origin::Signed(4), b"same".to_vec(), b"x".to_vec(), [1u8; 32]).unwrap();
    p.create_with_identifier(Origin::Signed(5), b"same".to_vec(), b"y".to_vec(), [2u8; 32]).unwrap();
    let meta = OffchainData { data: vec![], meta_data: b"same".to_vec() };
    p.ocw_callback(Origin::Signed(9), [1u8; 32], b"First".to_vec(), Some(meta.clone())).unwrap();
    p.ocw_callback(Origin::Signed(9), [2u8; 32], b"Second".to_vec(), Some(meta)).unwrap();
    assert_eq!(p.get_file_url_for_meta_data(b"same".to_vec()), b"https://ipfs.io/ipfs/First".to_vec());
}

#[test]
fn callback_for_reports_parsed_bytes_or_nothing() {
    let req = CommandRequest { identifier: [5u8; 32], requester: 1, ipfs_commands: vec![IpfsCommand::AddBytes(1)] };
    let od = OffchainData { data: b"x".to_vec(), meta_data: b"t".to_vec() };
    assert_eq!(
        callback_for(&req, Ok(vec![IpfsResponse::AddBytes(b"cid".to_vec())]), Some(od.clone())),
        Some(([5u8; 32], b"cid".to_vec(), Some(od.clone())))
    );
    assert_eq!(callback_for(&req, Err(IpfsError::RequestFailed), Some(od)), None);
}
