use zebra_crosslink::crosslink_chain::ZcashCrosslinkParameters;
use zebra_crosslink::fat_pointer::FatPointerToBftBlock;
use zebra_crosslink::test_format::{
    tf_read_instr, TFInstr, TFReadError, TFSlice, TestInstr, EXPECT_POW_HEIGHT, LOAD_POS,
    LOAD_POW, SET_PARAMS, TF,
};

fn params() -> ZcashCrosslinkParameters {
    ZcashCrosslinkParameters { bc_confirmation_depth_sigma: 3, finalization_gap_bound: 7 }
}

#[test]
fn kind_names() {
    assert_eq!(TFInstr::str_from_kind(LOAD_POW), "LOAD_POW");
    assert_eq!(TFInstr::str_from_kind(LOAD_POS), "LOAD_POS");
    assert_eq!(TFInstr::str_from_kind(SET_PARAMS), "SET_PARAMS");
    assert_eq!(TFInstr::str_from_kind(EXPECT_POW_HEIGHT), "EXPECT_POW_HEIGHT");
    assert_eq!(TFInstr::str_from_kind(4), "EXPECT_POS_HEIGHT");
    assert_eq!(TFInstr::str_from_kind(5), "<unknown>");
}

#[test]
fn push_records_offsets_from_file_start() {
    let mut tf = TF::new(&params());
    tf.push_instr(LOAD_POW, &[1, 2, 3]);
    tf.push_instr_val(SET_PARAMS, [4, 5]);
    assert_eq!(tf.data, vec![1, 2, 3]);
    assert_eq!(tf.instrs.len(), 2);
    assert_eq!(tf.instrs[0].data, TFSlice { o: 24, size: 3 });
    assert_eq!(tf.instrs[1].data, TFSlice { o: 27, size: 0 });
    assert_eq!(tf.instrs[1].val, [4, 5]);
    assert_eq!(tf.instrs[0].data.as_val(), [24, 3]);
    assert_eq!(TFSlice::from_val(&[9, 8]), TFSlice { o: 9, size: 8 });
}

#[test]
fn written_file_layout() {
    let mut tf = TF::new(&params());
    tf.push_instr(LOAD_POW, &[0xaa, 0xbb, 0xcc]);
    let bytes = tf.write_to_bytes();
    assert_eq!(&bytes[0..8], b"ZECCLTF0");
    assert_eq!(u64::from_le_bytes(bytes[8..16].try_into().unwrap()), 32);
    assert_eq!(u32::from_le_bytes(bytes[16..20].try_into().unwrap()), 1);
    assert_eq!(u32::from_le_bytes(bytes[20..24].try_into().unwrap()), 40);
    assert_eq!(&bytes[24..27], &[0xaa, 0xbb, 0xcc]);
    assert_eq!(&bytes[27..32], &[0, 0, 0, 0, 0]);
    assert_eq!(bytes.len(), 32 + 40);
    assert_eq!(u32::from_le_bytes(bytes[32..36].try_into().unwrap()), LOAD_POW);
    assert_eq!(u64::from_le_bytes(bytes[40..48].try_into().unwrap()), 24);
    assert_eq!(u64::from_le_bytes(bytes[48..56].try_into().unwrap()), 3);
}

#[test]
fn write_then_read_gives_instrs_and_padded_data() {
    let mut tf = TF::new(&params());
    tf.push_instr(LOAD_POW, &[1, 2, 3]);
    tf.push_instr_ex(EXPECT_POW_HEIGHT, 7, &[], [11, 12]);
    let bytes = tf.write_to_bytes();
    let back = TF::read_from_bytes(&bytes).unwrap();
    assert_eq!(back.data, vec![1, 2, 3, 0, 0, 0, 0, 0]);
    assert_eq!(back.instrs.len(), 2);
    assert_eq!(back.instrs[0].kind, LOAD_POW);
    assert_eq!(back.instrs[0].data, TFSlice { o: 24, size: 3 });
    assert_eq!(back.instrs[1].kind, EXPECT_POW_HEIGHT);
    assert_eq!(back.instrs[1].flags, 7);
    assert_eq!(back.instrs[1].val, [11, 12]);
    assert_eq!(back.instrs[1].data_slice(&bytes), &[] as &[u8]);
    assert_eq!(back.instrs[0].data_slice(&bytes), &[1, 2, 3]);
}

#[test]
fn word_sized_data_reads_back_exactly() {
    let mut tf = TF::new(&params());
    tf.push_instr(LOAD_POW, &[1, 2, 3, 4, 5, 6, 7, 8]);
    let back = TF::read_from_bytes(&tf.write_to_bytes()).unwrap();
    assert_eq!(back.data, tf.data);
}

#[test]
fn read_errors() {
    assert_eq!(TF::read_from_bytes(&[0u8; 10]).err(), Some(TFReadError::HeaderTooShort));
    let mut hdr = b"ZECCLTF0".to_vec();
    hdr.extend_from_slice(&25u64.to_le_bytes());
    hdr.extend_from_slice(&0u32.to_le_bytes());
    hdr.extend_from_slice(&40u32.to_le_bytes());
    hdr.push(0);
    assert_eq!(TF::read_from_bytes(&hdr).err(), Some(TFReadError::InstrsMisaligned));
    let mut hdr = b"ZECCLTF0".to_vec();
    hdr.extend_from_slice(&24u64.to_le_bytes());
    hdr.extend_from_slice(&1u32.to_le_bytes());
    hdr.extend_from_slice(&40u32.to_le_bytes());
    assert_eq!(TF::read_from_bytes(&hdr).err(), Some(TFReadError::InstrsTooShort));
}

#[test]
fn serialized_values_are_pushed_as_data() {
    let mut tf = TF::new(&params());
    let fp = FatPointerToBftBlock::null();
    let slice = tf.push_serialize(&fp);
    assert_eq!(slice, TFSlice { o: 24, size: 46 });
    tf.push_instr_serialize(LOAD_POS, &fp);
    assert_eq!(tf.data.len(), 92);
    assert_eq!(tf.instrs[0].data, TFSlice { o: 70, size: 46 });
}

#[test]
fn instructions_read_as_test_steps() {
    let bytes = vec![9u8, 8, 7, 6];
    let load = TFInstr { kind: LOAD_POW, flags: 0, data: TFSlice { o: 1, size: 2 }, val: [0, 0] };
    match tf_read_instr(&bytes, &load) {
        Some(TestInstr::LoadPoW(b)) => assert_eq!(b, vec![8, 7]),
        _ => panic!("expected a PoW load"),
    }
    let set = TFInstr { kind: SET_PARAMS, flags: 0, data: TFSlice { o: 0, size: 0 }, val: [3, 7] };
    match tf_read_instr(&bytes, &set) {
        Some(TestInstr::SetParams(p)) => {
            assert_eq!(p.bc_confirmation_depth_sigma, 3);
            assert_eq!(p.finalization_gap_bound, 7);
        }
        _ => panic!("expected parameters"),
    }
    let exp = TFInstr {
        kind: EXPECT_POW_HEIGHT,
        flags: 0,
        data: TFSlice { o: 0, size: 0 },
        val: [(1u64 << 32) + 5, 0],
    };
    assert!(matches!(tf_read_instr(&bytes, &exp), Some(TestInstr::ExpectPoWHeight(5))));
    let bad_pos = TFInstr { kind: LOAD_POS, flags: 0, data: TFSlice { o: 0, size: 4 }, val: [0, 0] };
    assert!(tf_read_instr(&bytes, &bad_pos).is_none());
}

#[test]
fn each_instruction_reads_back_its_pushed_data() {
    let mut tf = TF::new(&params());
    tf.push_instr(LOAD_POW, &[9, 8, 7, 6, 5]);
    tf.push_instr(LOAD_POS, &[1]);
    tf.push_instr_val(SET_PARAMS, [3, 7]);
    tf.push_instr(LOAD_POW, &[0x10, 0x20, 0x30, 0x40, 0x50, 0x60, 0x70, 0x80, 0x90]);
    let bytes = tf.write_to_bytes();
    let back = TF::read_from_bytes(&bytes).unwrap();
    assert_eq!(back.instrs.len(), 4);
    assert_eq!(back.instrs[0].data_slice(&bytes), &[9, 8, 7, 6, 5]);
    assert_eq!(back.instrs[1].data_slice(&bytes), &[1]);
    assert_eq!(back.instrs[2].data_slice(&bytes), &[] as &[u8]);
    assert_eq!(
        back.instrs[3].data_slice(&bytes),
        &[0x10, 0x20, 0x30, 0x40, 0x50, 0x60, 0x70, 0x80, 0x90]
    );
}

#[test]
fn pos_height_expectation_reads_back() {
    let mut tf = TF::new(&params());
    tf.push_instr_val(4, [0, 0]);
    tf.push_instr_val(4, [(1u64 << 40) + 3, 0]);
    let bytes = tf.write_to_bytes();
    let back = TF::read_from_bytes(&bytes).unwrap();
    assert!(matches!(tf_read_instr(&bytes, &back.instrs[0]), Some(TestInstr::ExpectPoSHeight(0))));
    assert!(matches!(
        tf_read_instr(&bytes, &back.instrs[1]),
        Some(TestInstr::ExpectPoSHeight(h)) if h == (1u64 << 40) + 3
    ));
}
