use substrate_ipfs::ipfs_core::{
    acquire_command_request_lock, addresses_to_utf8_safe_bytes, command_response, generate_id,
    multiple_bytes_to_utf8_safe_bytes, needs_block_data, ocw_parse_ipfs_response, processed_commands,
    request_for_command, CommandRequest, Error, GenesisConfig, IpfsCommand, IpfsFile, IpfsRequest, IpfsResponse,
    OffchainData, OpaqueMultiaddr, TypeEquality,
};

#[test]
fn eq_type_compares_variants_only() {
    assert!(IpfsCommand::AddBytes(0).eq_type(&IpfsCommand::AddBytes(1)));
    assert!(IpfsCommand::CatBytes(b"a".to_vec()).eq_type(&IpfsCommand::CatBytes(b"b".to_vec())));
    assert!(!IpfsCommand::CatBytes(b"a".to_vec()).eq_type(&IpfsCommand::InsertPin(b"a".to_vec())));
    assert!(!IpfsCommand::AddBytes(0).eq_type(&IpfsCommand::RemovePin(vec![])));
}

#[test]
fn command_clone_keeps_data() {
    let c = IpfsCommand::GetProviders(b"cid".to_vec());
    assert_eq!(c.clone(), c);
    let r = CommandRequest { identifier: [7u8; 32], requester: 3, ipfs_commands: vec![c, IpfsCommand::AddBytes(2)] };
    assert_eq!(r.clone(), r);
}

#[test]
fn command_request_default() {
    let r = CommandRequest::default();
    assert_eq!(r.identifier, [0u8; 32]);
    assert_eq!(r.requester, 0);
    assert!(r.ipfs_commands.is_empty());
    assert!(GenesisConfig::default().commands.is_empty());
}

#[test]
fn multiple_bytes_joins_with_comma_space() {
    let parts = vec![b"peer1".to_vec(), b"peer2".to_vec(), b"peer3".to_vec()];
    assert_eq!(multiple_bytes_to_utf8_safe_bytes(parts), b"peer1, peer2, peer3".to_vec());
}

#[test]
fn multiple_bytes_skips_invalid_utf8() {
    let parts = vec![vec![0xff, 0xfe], b"ok".to_vec(), vec![0xc0, 0x80], b"fine".to_vec()];
    assert_eq!(multiple_bytes_to_utf8_safe_bytes(parts), b"ok, fine".to_vec());
    assert_eq!(multiple_bytes_to_utf8_safe_bytes(vec![vec![0x80]]), Vec::<u8>::new());
    assert_eq!(multiple_bytes_to_utf8_safe_bytes(vec![]), Vec::<u8>::new());
}

#[test]
fn multiple_bytes_empty_first_part_starts_anew() {
    assert_eq!(multiple_bytes_to_utf8_safe_bytes(vec![vec![], b"a".to_vec()]), b"a".to_vec());
    assert_eq!(
        multiple_bytes_to_utf8_safe_bytes(vec![b"a".to_vec(), vec![], b"b".to_vec()]),
        b"a, , b".to_vec()
    );
}

#[test]
fn addresses_joined() {
    let addrs = vec![
        OpaqueMultiaddr(b"/ip4/1.2.3.4/tcp/4001".to_vec()),
        OpaqueMultiaddr(vec![0xff]),
        OpaqueMultiaddr(b"/ip4/5.6.7.8/tcp/4001".to_vec()),
    ];
    assert_eq!(addresses_to_utf8_safe_bytes(addrs), b"/ip4/1.2.3.4/tcp/4001, /ip4/5.6.7.8/tcp/4001".to_vec());
}

#[test]
fn parse_response_last_with_bytes_wins() {
    let responses = vec![
        IpfsResponse::AddBytes(b"cid1".to_vec()),
        IpfsResponse::Success,
        IpfsResponse::RemoveBlock(b"cid2".to_vec()),
        IpfsResponse::Addrs(vec![]),
    ];
    assert_eq!(ocw_parse_ipfs_response(responses), b"cid2".to_vec());
}

#[test]
fn parse_response_one_byte_cat_counts() {
    let responses = vec![IpfsResponse::CatBytes(b"ab".to_vec()), IpfsResponse::CatBytes(b"x".to_vec())];
    assert_eq!(ocw_parse_ipfs_response(responses), b"x".to_vec());
    let responses = vec![IpfsResponse::AddBytes(b"cid".to_vec()), IpfsResponse::CatBytes(b"xy".to_vec())];
    assert_eq!(ocw_parse_ipfs_response(responses), b"xy".to_vec());
}

#[test]
fn parse_response_empty_answer_keeps_earlier_bytes() {
    let responses = vec![IpfsResponse::AddBytes(b"Qm".to_vec()), IpfsResponse::Peers(vec![])];
    assert_eq!(ocw_parse_ipfs_response(responses), b"Qm".to_vec());
    let responses = vec![IpfsResponse::AddBytes(b"Qm".to_vec()), IpfsResponse::CatBytes(vec![])];
    assert_eq!(ocw_parse_ipfs_response(responses), b"Qm".to_vec());
    let responses = vec![IpfsResponse::AddBytes(b"Qm".to_vec()), IpfsResponse::GetProviders(vec![vec![0xff]])];
    assert_eq!(ocw_parse_ipfs_response(responses), b"Qm".to_vec());
}

#[test]
fn parse_response_peer_lists() {
    let responses = vec![IpfsResponse::GetProviders(vec![b"p1".to_vec(), b"p2".to_vec()])];
    assert_eq!(ocw_parse_ipfs_response(responses), b"p1, p2".to_vec());
    let responses = vec![IpfsResponse::Peers(vec![OpaqueMultiaddr(b"a".to_vec()), OpaqueMultiaddr(b"b".to_vec())])];
    assert_eq!(ocw_parse_ipfs_response(responses), b"a, b".to_vec());
    let responses = vec![IpfsResponse::LocalRefs(vec![b"r".to_vec()]), IpfsResponse::Identity(vec![], vec![])];
    assert_eq!(ocw_parse_ipfs_response(responses), b"r".to_vec());
    assert_eq!(ocw_parse_ipfs_response(vec![]), Vec::<u8>::new());
    assert_eq!(ocw_parse_ipfs_response(vec![IpfsResponse::Success]), Vec::<u8>::new());
}

#[test]
fn generate_id_is_blake2_of_seed_and_block() {
    let id = generate_id(&[0u8; 32], 1);
    assert_eq!(
        id,
        [
            93, 37, 50, 230, 65, 162, 42, 143, 94, 10, 66, 101, 47, 232, 45, 194, 49, 253, 39, 248, 196, 255, 185,
            188, 146, 114, 101, 201, 46, 202, 220, 103
        ]
    );
    let mut seed = [0u8; 32];
    for (i, b) in seed.iter_mut().enumerate() {
        *b = i as u8;
    }
    assert_eq!(
        generate_id(&seed, 0x01020304),
        [
            222, 170, 12, 53, 181, 108, 21, 197, 123, 178, 23, 47, 221, 184, 10, 242, 109, 183, 254, 40, 48, 45, 191,
            162, 191, 62, 214, 186, 127, 123, 233, 193
        ]
    );
    assert_eq!(generate_id(&[0u8; 32], 1), id);
    assert_ne!(generate_id(&[0u8; 32], 2), id);
}

#[test]
fn lock_taken_when_free_or_same_block() {
    assert_eq!(acquire_command_request_lock(5, None), Ok(5));
    assert_eq!(acquire_command_request_lock(5, Some(5)), Ok(5));
    assert_eq!(acquire_command_request_lock(5, Some(4)), Err(Error::FailedToAcquireLock));
}

#[test]
fn processed_commands_appends() {
    assert_eq!(processed_commands(None, &[1u8; 32]), vec![[1u8; 32]]);
    assert_eq!(processed_commands(Some(vec![[1u8; 32]]), &[2u8; 32]), vec![[1u8; 32], [2u8; 32]]);
}

#[test]
fn requests_for_commands() {
    assert_eq!(
        request_for_command(&IpfsCommand::ConnectTo(b"addr".to_vec()), None),
        Ok(IpfsRequest::Connect(OpaqueMultiaddr(b"addr".to_vec())))
    );
    assert_eq!(
        request_for_command(&IpfsCommand::DisconnectFrom(b"addr".to_vec()), None),
        Ok(IpfsRequest::Disconnect(OpaqueMultiaddr(b"addr".to_vec())))
    );
    assert_eq!(
        request_for_command(&IpfsCommand::AddBytes(1), Some(b"text".to_vec())),
        Ok(IpfsRequest::AddBytes(b"text".to_vec(), 1))
    );
    assert_eq!(request_for_command(&IpfsCommand::AddBytes(1), None), Err(Error::RequestFailed));
    assert_eq!(
        request_for_command(&IpfsCommand::InsertPin(b"c".to_vec()), None),
        Ok(IpfsRequest::InsertPin(b"c".to_vec(), false))
    );
    assert_eq!(
        request_for_command(&IpfsCommand::RemovePin(b"c".to_vec()), None),
        Ok(IpfsRequest::RemovePin(b"c".to_vec(), false))
    );
    assert_eq!(request_for_command(&IpfsCommand::RemoveBlock(b"c".to_vec()), None), Ok(IpfsRequest::RemoveBlock));
    assert_eq!(
        request_for_command(&IpfsCommand::CatBytes(b"c".to_vec()), None),
        Ok(IpfsRequest::CatBytes(b"c".to_vec()))
    );
    assert_eq!(
        request_for_command(&IpfsCommand::FindPeer(b"p".to_vec()), None),
        Ok(IpfsRequest::FindPeer(b"p".to_vec()))
    );
    assert_eq!(
        request_for_command(&IpfsCommand::GetProviders(b"c".to_vec()), None),
        Ok(IpfsRequest::GetProviders(b"c".to_vec()))
    );
    assert!(needs_block_data(&IpfsCommand::AddBytes(0)));
    assert!(!needs_block_data(&IpfsCommand::CatBytes(vec![])));
}

#[test]
fn responses_kept_only_when_expected() {
    assert_eq!(
        command_response(&IpfsCommand::AddBytes(1), Ok(IpfsResponse::AddBytes(b"cid".to_vec()))),
        Some(IpfsResponse::AddBytes(b"cid".to_vec()))
    );
    assert_eq!(command_response(&IpfsCommand::AddBytes(1), Ok(IpfsResponse::Success)), None);
    assert_eq!(command_response(&IpfsCommand::ConnectTo(vec![]), Ok(IpfsResponse::Success)), Some(IpfsResponse::Success));
    assert_eq!(command_response(&IpfsCommand::ConnectTo(vec![]), Err(Error::RequestTimeout)), None);
    assert_eq!(
        command_response(&IpfsCommand::FindPeer(vec![]), Ok(IpfsResponse::FindPeer(vec![]))),
        Some(IpfsResponse::FindPeer(vec![]))
    );
    assert_eq!(command_response(&IpfsCommand::GetProviders(vec![]), Ok(IpfsResponse::Success)), None);
}

#[test]
fn file_and_offchain_data() {
    let f = IpfsFile::new(b"cid".to_vec(), b"meta".to_vec());
    assert_eq!(f.clone(), f);
    assert_eq!(IpfsFile::default(), IpfsFile { cid: vec![], meta_data: vec![] });
    let d = OffchainData { data: b"d".to_vec(), meta_data: b"m".to_vec() };
    assert_eq!(d.clone(), d);
}

use substrate_ipfs::ipfs_core::{CommandProcessing, ProcessingAction, ProcessingEvent};

fn request(commands: Vec<IpfsCommand>) -> CommandRequest {
    CommandRequest { identifier: [4u8; 32], requester: 1, ipfs_commands: commands }
}

#[test]
fn processing_runs_commands_in_order() {
    let req = request(vec![IpfsCommand::ConnectTo(b"addr".to_vec()), IpfsCommand::AddBytes(1)]);
    let (mut p, a) = CommandProcessing::new(9, &req);
    assert!(matches!(a, ProcessingAction::ReadLock));
    let a = p.step(ProcessingEvent::LockRead(None));
    assert!(matches!(a, ProcessingAction::WriteLock(9)));
    let a = p.step(ProcessingEvent::LockWritten(true));
    match a {
        ProcessingAction::Send(r) => assert_eq!(r, IpfsRequest::Connect(OpaqueMultiaddr(b"addr".to_vec()))),
        other => panic!("unexpected {:?}", other),
    }
    let a = p.step(ProcessingEvent::Responded(Ok(IpfsResponse::Success)));
    assert!(matches!(a, ProcessingAction::ReadBlockData));
    let a = p.step(ProcessingEvent::BlockDataRead(Some(b"text".to_vec())));
    match a {
        ProcessingAction::Send(r) => assert_eq!(r, IpfsRequest::AddBytes(b"text".to_vec(), 1)),
        other => panic!("unexpected {:?}", other),
    }
    let a = p.step(ProcessingEvent::Responded(Ok(IpfsResponse::AddBytes(b"cid".to_vec()))));
    assert!(matches!(a, ProcessingAction::ReadProcessed));
    match p.step(ProcessingEvent::ProcessedRead(Some(vec![[1u8; 32]]))) {
        ProcessingAction::Finish { processed, result } => {
            assert_eq!(processed, Some(vec![[1u8; 32], [4u8; 32]]));
            assert_eq!(result, Ok(vec![IpfsResponse::Success, IpfsResponse::AddBytes(b"cid".to_vec())]));
        }
        other => panic!("unexpected {:?}", other),
    }
}

#[test]
fn processing_stops_at_failed_command() {
    let req = request(vec![IpfsCommand::ConnectTo(b"a".to_vec()), IpfsCommand::CatBytes(b"c".to_vec())]);
    let (mut p, _) = CommandProcessing::new(2, &req);
    p.step(ProcessingEvent::LockRead(Some(2)));
    p.step(ProcessingEvent::LockWritten(true));
    match p.step(ProcessingEvent::Responded(Err(Error::RequestTimeout))) {
        ProcessingAction::Finish { processed, result } => {
            assert_eq!(processed, None);
            assert_eq!(result, Err(Error::RequestFailed));
        }
        other => panic!("unexpected {:?}", other),
    }
}

#[test]
fn processing_stops_at_unexpected_answer() {
    let req = request(vec![IpfsCommand::InsertPin(b"c".to_vec()), IpfsCommand::CatBytes(b"c".to_vec())]);
    let (mut p, _) = CommandProcessing::new(2, &req);
    p.step(ProcessingEvent::LockRead(None));
    p.step(ProcessingEvent::LockWritten(true));
    match p.step(ProcessingEvent::Responded(Ok(IpfsResponse::AddBytes(b"x".to_vec())))) {
        ProcessingAction::Finish { processed, result } => {
            assert_eq!(processed, None);
            assert_eq!(result, Err(Error::RequestFailed));
        }
        other => panic!("unexpected {:?}", other),
    }
}

#[test]
fn processing_stops_on_lock_of_other_block() {
    let req = request(vec![IpfsCommand::AddBytes(1)]);
    let (mut p, _) = CommandProcessing::new(2, &req);
    match p.step(ProcessingEvent::LockRead(Some(1))) {
        ProcessingAction::Finish { processed, result } => {
            assert_eq!(processed, None);
            assert_eq!(result, Err(Error::FailedToAcquireLock));
        }
        other => panic!("unexpected {:?}", other),
    }
}

#[test]
fn processing_stops_when_lock_changed() {
    let (mut p, _) = CommandProcessing::new(2, &request(vec![]));
    p.step(ProcessingEvent::LockRead(None));
    match p.step(ProcessingEvent::LockWritten(false)) {
        ProcessingAction::Finish { processed, result } => {
            assert_eq!(processed, None);
            assert_eq!(result, Err(Error::FailedToAcquireLock));
        }
        other => panic!("unexpected {:?}", other),
    }
}

#[test]
fn processing_stops_without_block_data() {
    let (mut p, _) = CommandProcessing::new(2, &request(vec![IpfsCommand::AddBytes(1), IpfsCommand::RemovePin(vec![])]));
    p.step(ProcessingEvent::LockRead(None));
    p.step(ProcessingEvent::LockWritten(true));
    match p.step(ProcessingEvent::BlockDataRead(None)) {
        ProcessingAction::Finish { processed, result } => {
            assert_eq!(processed, None);
            assert_eq!(result, Err(Error::RequestFailed));
        }
        other => panic!("unexpected {:?}", other),
    }
}

#[test]
fn processing_of_empty_request_records_it() {
    let (mut p, _) = CommandProcessing::new(2, &request(vec![]));
    p.step(ProcessingEvent::LockRead(None));
    assert!(matches!(p.step(ProcessingEvent::LockWritten(true)), ProcessingAction::ReadProcessed));
    assert!(matches!(
        p.step(ProcessingEvent::ProcessedRead(None)),
        ProcessingAction::Finish { processed: Some(_), result: Ok(_) }
    ));
}
