use netron_rs_formats::pytorch::pickle::{
    PickleCursor, PickleOp, first_global, pickle_ops, skip_pickle,
};

#[test]
fn pickle_ops_read_a_small_dict() {
    // PROTO 2, EMPTY_DICT, MARK, SHORT_BINUNICODE "a", BININT1 7, SETITEMS, STOP
    let data = [0x80, 0x02, b'}', b'(', 0x8c, 0x01, b'a', b'K', 0x07, b'u', b'.'];
    let ops = pickle_ops(&data).unwrap();
    assert_eq!(ops.len(), 5);
    assert!(matches!(ops[0], PickleOp::EmptyDict));
    assert!(matches!(ops[1], PickleOp::Mark));
    assert!(matches!(&ops[2], PickleOp::Text(s) if s == "a"));
    assert!(matches!(ops[3], PickleOp::Int(7)));
    assert!(matches!(ops[4], PickleOp::SetItems));
}

#[test]
fn skip_pickle_stops_after_the_stop_opcode() {
    let data = [0xff, b'N', b'.', 0x00, 0x00];
    assert_eq!(skip_pickle(&data, 1).unwrap(), 3);
}

#[test]
fn first_global_joins_module_and_name() {
    let data = b"\x80\x02ctorch\nFloatStorage\nq\x00.";
    assert_eq!(first_global(data).as_deref(), Some("torch.FloatStorage"));
}

#[test]
fn cursor_reads_little_endian_numbers() {
    let data = [0x34, 0x12, 0x78, 0x56, 0x34, 0x12];
    let mut cursor = PickleCursor::new(&data);
    assert_eq!(cursor.u16().unwrap(), 0x1234);
    assert_eq!(cursor.u32().unwrap(), 0x1234_5678);
    assert!(cursor.u8().is_err());
}
