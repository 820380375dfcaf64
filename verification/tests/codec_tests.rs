use fs_proto::attr::{FileAttrSimple, StatProjection, ATTR_WIRE_SIZE};
use fs_proto::errors::DecodeError;
use fs_proto::ops::{FileTypeSimple, ManagerOperationType, Opcode, OperationType, ServerType};
use fs_proto::payload::{
    AddNodesSendMetaData, CheckFileSendMetaData, CreateDirSendMetaData, CreateFileSendMetaData,
    CreateVolumeSendMetaData, DeleteDirSendMetaData, DeleteFileSendMetaData,
    DeleteNodesSendMetaData, DirectoryEntrySendMetaData, GetClusterStatusRecvMetaData,
    GetHashRingInfoRecvMetaData, MountVolumeSendMetaData, OpenFileSendMetaData,
    ReadDirSendMetaData, ReadFileSendMetaData, TruncateFileSendMetaData,
    UpdateServerStatusSendMetaData, WriteFileSendMetaData,
};
use fs_proto::status::{ClusterStatus, ServerStatus};
use fs_proto::volume::Volume;

fn sample_attr() -> FileAttrSimple {
    FileAttrSimple {
        size: 123456789,
        blocks: 42,
        atime: 1700000001,
        mtime: 1700000002,
        ctime: 1700000003,
        crtime: 1700000004,
        kind: 4,
        perm: 0o644,
        nlink: 3,
        uid: 1000,
        gid: 1001,
        rdev: 7,
        flags: 9,
        blksize: 4096,
    }
}

#[test]
fn attr_record_round_trip() {
    let a = sample_attr();
    let bytes = a.encode();
    assert_eq!(bytes.len(), ATTR_WIRE_SIZE);
    let back = FileAttrSimple::decode(&bytes).unwrap();
    assert_eq!(a, back);
}

#[test]
fn attr_record_extreme_values_round_trip() {
    let mut a = sample_attr();
    a.size = u64::MAX;
    a.blocks = 0;
    a.perm = u16::MAX;
    a.kind = 6;
    a.flags = u32::MAX;
    let back = FileAttrSimple::decode(&a.encode()).unwrap();
    assert_eq!(a, back);
}

#[test]
fn attr_record_wrong_length_is_rejected() {
    let a = sample_attr();
    let mut bytes = a.encode();
    bytes.pop();
    match FileAttrSimple::decode(&bytes) {
        Err(DecodeError::LengthMismatch { expected, actual }) => {
            assert_eq!(expected, 78);
            assert_eq!(actual, 77);
        },
        other => panic!("expected a length mismatch, got {:?}", other),
    }
    let empty: Vec<u8> = Vec::new();
    assert!(matches!(
        FileAttrSimple::decode(&empty),
        Err(DecodeError::LengthMismatch { expected: 78, actual: 0 })
    ));
}

#[test]
fn attr_record_layout_is_little_endian() {
    let mut a = sample_attr();
    a.size = 0x0102030405060708;
    let bytes = a.encode();
    assert_eq!(&bytes[0..8], &[8, 7, 6, 5, 4, 3, 2, 1]);
    // kind sits after the six 64-bit fields.
    assert_eq!(&bytes[48..52], &[4, 0, 0, 0]);
    // perm is the single 16-bit field.
    assert_eq!(&bytes[52..54], &[0xa4, 0x01]);
}

#[test]
fn fresh_records_follow_the_kind() {
    let d = FileAttrSimple::new(FileTypeSimple::Directory);
    assert_eq!(d.size, 4096);
    assert_eq!(d.kind, 3);
    assert_eq!(d.perm, 0);
    assert_eq!(d.atime, 0);
    let f = FileAttrSimple::new(FileTypeSimple::RegularFile);
    assert_eq!(f.size, 0);
    assert_eq!(f.kind, 4);
    let p = FileAttrSimple::new(FileTypeSimple::NamedPipe);
    assert_eq!(p.size, 0);
    assert_eq!(p.kind, 0);
    assert_eq!(FileAttrSimple::default(), f);
}

#[test]
fn stat_projection_merges_kind_and_permissions() {
    let a = sample_attr();
    let s: StatProjection = a.to_stat().unwrap();
    assert_eq!(s.st_mode, 0o100644);
    assert_eq!(s.st_dev, 0);
    assert_eq!(s.st_ino, 0);
    assert_eq!(s.st_size, 123456789);
    assert_eq!(s.st_atime, 1700000001);
    assert_eq!(s.st_atime_nsec, 0);
    let x = a.to_statx().unwrap();
    assert_eq!(x.stx_mode, 0o100644);
    assert_eq!(x.stx_mask, 0);
    assert_eq!(x.stx_btime_sec, 0);
    let mut bad = a;
    bad.kind = 9;
    assert!(matches!(bad.to_stat(), Err(DecodeError::UnrecognizedCode { code: 9 })));
}

#[test]
fn operation_opcodes_round_trip() {
    for code in 0u32..=24 {
        let k = OperationType::decode(code).unwrap();
        assert_eq!(k.encode(), code);
    }
    assert!(matches!(
        OperationType::decode(25),
        Err(DecodeError::UnrecognizedOpcode { code: 25 })
    ));
    assert!(matches!(
        OperationType::decode(101),
        Err(DecodeError::UnrecognizedOpcode { code: 101 })
    ));
}

#[test]
fn manager_opcodes_round_trip() {
    for code in 101u32..=109 {
        let k = ManagerOperationType::decode(code).unwrap();
        assert_eq!(k.encode(), code);
    }
    assert!(matches!(
        ManagerOperationType::decode(100),
        Err(DecodeError::UnrecognizedOpcode { code: 100 })
    ));
    assert!(matches!(
        ManagerOperationType::decode(110),
        Err(DecodeError::UnrecognizedOpcode { code: 110 })
    ));
}

#[test]
fn combined_opcode_decode_covers_both_ranges_only() {
    for code in 0u32..=24 {
        assert!(matches!(Opcode::decode(code), Ok(Opcode::Fs(_))));
    }
    for code in 101u32..=109 {
        let k = Opcode::decode(code).unwrap();
        assert!(matches!(k, Opcode::Manager(_)));
        assert_eq!(k.encode(), code);
    }
    for code in [25u32, 50, 100, 110, u32::MAX] {
        assert!(matches!(
            Opcode::decode(code),
            Err(DecodeError::UnrecognizedOpcode { code: c }) if c == code
        ));
    }
}

#[test]
fn manager_opcode_le_bytes() {
    assert_eq!(ManagerOperationType::SendHeart.to_le_bytes(), [101, 0, 0, 0]);
    assert_eq!(ManagerOperationType::FinishServer.to_le_bytes(), [109, 0, 0, 0]);
}

#[test]
fn server_type_and_file_type_codes() {
    assert_eq!(ServerType::decode(1).unwrap(), ServerType::Running);
    assert_eq!(ServerType::decode(3).unwrap(), ServerType::Remove);
    assert!(matches!(ServerType::decode(4), Err(DecodeError::UnrecognizedCode { code: 4 })));
    assert_eq!(ServerType::Running.name(), "Running");
    for code in 0u8..=6 {
        assert_eq!(FileTypeSimple::decode(code).unwrap().encode(), code);
    }
    assert!(FileTypeSimple::decode(7).is_err());
    for code in 0u32..=6 {
        assert_eq!(FileTypeSimple::from_attr_kind(code).unwrap().attr_kind(), code);
    }
    assert_eq!(FileTypeSimple::Directory.attr_kind(), 3);
    assert_eq!(FileTypeSimple::Directory.encode(), 4);
}

#[test]
fn status_codes_round_trip() {
    for code in 201u32..=206 {
        assert_eq!(ServerStatus::decode(code).unwrap().encode(), code);
    }
    assert!(matches!(ServerStatus::decode(207), Err(DecodeError::UnrecognizedCode { code: 207 })));
    assert!(ServerStatus::decode(200).is_err());
    for code in 300u32..=308 {
        assert_eq!(ClusterStatus::decode(code).unwrap().encode(), code);
    }
    assert!(ClusterStatus::decode(309).is_err());
    assert_eq!(ClusterStatus::decode_i32(305).unwrap(), ClusterStatus::Transferring);
    assert!(ClusterStatus::decode_i32(-1).is_err());
    assert_eq!(ClusterStatus::Finishing.name(), "DeleteNodes");
    assert_eq!(ServerStatus::Finished.name(), "CloseNodes");
}

#[test]
fn fixed_payloads_round_trip() {
    let r = ReadFileSendMetaData { offset: -5, size: 4096 };
    let bytes = r.encode();
    assert_eq!(bytes.len(), 12);
    assert_eq!(ReadFileSendMetaData::decode(&bytes).unwrap(), r);
    assert!(matches!(
        ReadFileSendMetaData::decode(&bytes[..11]),
        Err(DecodeError::LengthMismatch { expected: 12, actual: 11 })
    ));

    let rd = ReadDirSendMetaData { offset: i64::MIN, size: u32::MAX };
    assert_eq!(ReadDirSendMetaData::decode(&rd.encode()).unwrap(), rd);

    let w = WriteFileSendMetaData { offset: i64::MAX };
    assert_eq!(WriteFileSendMetaData::decode(&w.encode()).unwrap(), w);

    let t = TruncateFileSendMetaData { length: -1 };
    let tb = t.encode();
    assert_eq!(tb, vec![0xff; 8]);
    assert_eq!(TruncateFileSendMetaData::decode(&tb).unwrap(), t);

    let o = OpenFileSendMetaData { flags: libc::O_RDWR, mode: 0o600 };
    assert_eq!(OpenFileSendMetaData::decode(&o.encode()).unwrap(), o);

    let cv = CreateVolumeSendMetaData { size: 1 << 40 };
    assert_eq!(CreateVolumeSendMetaData::decode(&cv.encode()).unwrap(), cv);

    let ca = CheckFileSendMetaData { file_attr: sample_attr() };
    assert_eq!(CheckFileSendMetaData::decode(&ca.encode()).unwrap(), ca);
}

#[test]
fn status_payloads_reject_unknown_codes() {
    let u = UpdateServerStatusSendMetaData { status: ServerStatus::Transferring };
    let bytes = u.encode();
    assert_eq!(bytes, vec![203, 0, 0, 0]);
    assert_eq!(UpdateServerStatusSendMetaData::decode(&bytes).unwrap(), u);
    assert!(matches!(
        UpdateServerStatusSendMetaData::decode(&[0, 0, 0, 0]),
        Err(DecodeError::UnrecognizedCode { code: 0 })
    ));
    assert!(matches!(
        UpdateServerStatusSendMetaData::decode(&[203, 0, 0]),
        Err(DecodeError::LengthMismatch { expected: 4, actual: 3 })
    ));

    let g = GetClusterStatusRecvMetaData { status: ClusterStatus::Idle };
    assert_eq!(GetClusterStatusRecvMetaData::decode(&g.encode()).unwrap(), g);
    assert!(matches!(
        GetClusterStatusRecvMetaData::decode(&[209, 0, 0, 0]),
        Err(DecodeError::UnrecognizedCode { code: 209 })
    ));
}

#[test]
fn create_file_payload_round_trips_field_for_field() {
    let m = CreateFileSendMetaData {
        mode: 0o644,
        umask: 0o022,
        flags: libc::O_CREAT,
        name: "a.txt".to_string(),
    };
    let bytes = m.encode();
    // mode, umask, flags, then the 32-bit byte-length prefix and the name.
    assert_eq!(&bytes[0..4], &[0xa4, 0x01, 0, 0]);
    assert_eq!(&bytes[12..16], &[5, 0, 0, 0]);
    assert_eq!(&bytes[16..], b"a.txt");
    let back = CreateFileSendMetaData::decode(&bytes).unwrap();
    assert_eq!(back.mode, m.mode);
    assert_eq!(back.umask, m.umask);
    assert_eq!(back.flags, m.flags);
    assert_eq!(back.name, m.name);
    assert_eq!(back, m);
}

#[test]
fn string_payload_errors() {
    let m = DeleteFileSendMetaData { name: "gone".to_string() };
    let bytes = m.encode();
    assert_eq!(DeleteFileSendMetaData::decode(&bytes).unwrap(), m);
    // A prefix that promises more bytes than the buffer holds.
    assert!(matches!(
        DeleteFileSendMetaData::decode(&[9, 0, 0, 0, b'x']),
        Err(DecodeError::Truncated { needed: 9, remaining: 1 })
    ));
    // Too short even for the prefix.
    assert!(matches!(
        DeleteFileSendMetaData::decode(&[1, 0]),
        Err(DecodeError::Truncated { needed: 4, remaining: 2 })
    ));
    // Trailing garbage after a complete field.
    let mut long = bytes.clone();
    long.push(0);
    assert!(matches!(
        DeleteFileSendMetaData::decode(&long),
        Err(DecodeError::LengthMismatch { expected: 8, actual: 9 })
    ));
    // Invalid UTF-8 in the name bytes.
    assert!(matches!(
        DeleteFileSendMetaData::decode(&[2, 0, 0, 0, 0xff, 0xfe]),
        Err(DecodeError::InvalidUtf8)
    ));
}

#[test]
fn remaining_named_payloads_round_trip() {
    let d = DirectoryEntrySendMetaData { file_type: 4, file_name: "subdir".to_string() };
    let bytes = d.encode();
    assert_eq!(bytes[0], 4);
    assert_eq!(DirectoryEntrySendMetaData::decode(&bytes).unwrap(), d);

    let c = CreateDirSendMetaData { mode: 0o755, name: "build".to_string() };
    assert_eq!(CreateDirSendMetaData::decode(&c.encode()).unwrap(), c);

    let dd = DeleteDirSendMetaData { name: String::new() };
    let db = dd.encode();
    assert_eq!(db, vec![0, 0, 0, 0]);
    assert_eq!(DeleteDirSendMetaData::decode(&db).unwrap(), dd);

    let mv = MountVolumeSendMetaData {
        volume_name: "vol1".to_string(),
        mount_point: "/mnt/data".to_string(),
        read_only: true,
    };
    let mb = mv.encode();
    assert_eq!(*mb.last().unwrap(), 1);
    assert_eq!(MountVolumeSendMetaData::decode(&mb).unwrap(), mv);
    let mut short = mb.clone();
    short.pop();
    assert!(MountVolumeSendMetaData::decode(&short).is_err());

    let v = Volume { name: "vol1".to_string(), size: 1000, used_size: 25 };
    let vb = v.encode();
    assert_eq!(Volume::decode(&vb).unwrap(), v);
    let mut vshort = vb.clone();
    vshort.pop();
    assert!(Volume::decode(&vshort).is_err());
}

#[test]
fn ring_info_payloads_round_trip() {
    let ring = GetHashRingInfoRecvMetaData {
        hash_ring_info: vec![("10.0.0.1:8085".to_string(), 100), ("10.0.0.2:8085".to_string(), 50)],
    };
    let bytes = ring.encode();
    assert_eq!(&bytes[0..4], &[2, 0, 0, 0]);
    assert_eq!(GetHashRingInfoRecvMetaData::decode(&bytes).unwrap(), ring);

    let add = AddNodesSendMetaData { new_servers_info: vec![("s3".to_string(), 7)] };
    let ab = add.encode();
    assert_eq!(AddNodesSendMetaData::decode(&ab).unwrap(), add);
    // An empty list is four zero bytes.
    let none = AddNodesSendMetaData { new_servers_info: vec![] };
    assert_eq!(none.encode(), vec![0, 0, 0, 0]);
    assert_eq!(AddNodesSendMetaData::decode(&[0, 0, 0, 0]).unwrap(), none);

    // Trailing bytes after the declared entries are rejected.
    let mut long = ab.clone();
    long.push(0);
    assert!(AddNodesSendMetaData::decode(&long).is_err());
    // A count that promises more entries than the buffer holds is rejected.
    assert!(AddNodesSendMetaData::decode(&[3, 0, 0, 0]).is_err());
}

#[test]
fn delete_nodes_payload_round_trips() {
    let del = DeleteNodesSendMetaData {
        deleted_servers_info: vec!["s1".to_string(), "s2".to_string()],
    };
    let bytes = del.encode();
    assert_eq!(&bytes[0..4], &[2, 0, 0, 0]);
    assert_eq!(DeleteNodesSendMetaData::decode(&bytes).unwrap(), del);
    let mut short = bytes.clone();
    short.pop();
    assert!(DeleteNodesSendMetaData::decode(&short).is_err());
}
