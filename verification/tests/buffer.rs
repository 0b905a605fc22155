use androservemc::util::{Buffer, BufferError};

#[test]
fn var_int_encodings() {
    let mut buf = Buffer::new();
    buf.write_var_int(0).unwrap();
    buf.write_var_int(127).unwrap();
    buf.write_var_int(128).unwrap();
    buf.write_var_int(300).unwrap();
    buf.write_var_int(u32::MAX).unwrap();
    assert_eq!(
        buf.as_slice(),
        &[0x00, 0x7f, 0x80, 0x01, 0xac, 0x02, 0xff, 0xff, 0xff, 0xff, 0x0f]
    );
}

#[test]
fn var_u64_and_signed_i64_encodings() {
    let mut buf = Buffer::new();
    buf.write_var_u64(u64::MAX).unwrap();
    assert_eq!(buf.len(), 10);
    assert_eq!(buf.as_slice()[9], 0x01);
    let mut buf = Buffer::new();
    buf.write_signed_var_i64(1).unwrap();
    buf.write_signed_var_i64(-2).unwrap();
    buf.write_signed_var_i64(i64::MIN).unwrap();
    let bytes = buf.to_vec();
    assert_eq!(&bytes[..2], &[0x02, 0x03]);
    assert_eq!(bytes.len(), 12);
}

#[test]
fn signed_var_int_extremes() {
    let mut buf = Buffer::new();
    buf.write_signed_var_int(i32::MAX).unwrap();
    buf.write_signed_var_int(i32::MIN).unwrap();
    assert_eq!(
        buf.as_slice(),
        &[0xfe, 0xff, 0xff, 0xff, 0x0f, 0xff, 0xff, 0xff, 0xff, 0x0f]
    );
}

#[test]
fn fixed_width_encodings() {
    let mut buf = Buffer::new();
    buf.write_u16_le(0x0102).unwrap();
    buf.write_u32(0x0102_0304).unwrap();
    buf.write_u32_le(0x0102_0304).unwrap();
    buf.write_u64(0x0102_0304_0506_0708).unwrap();
    buf.write_u64_le(0x0102_0304_0506_0708).unwrap();
    buf.write_bool(true).unwrap();
    buf.write_bool(false).unwrap();
    buf.write_u8(0xab).unwrap();
    assert_eq!(
        buf.to_vec(),
        vec![
            0x02, 0x01, 0x01, 0x02, 0x03, 0x04, 0x04, 0x03, 0x02, 0x01, 0x01, 0x02, 0x03, 0x04,
            0x05, 0x06, 0x07, 0x08, 0x08, 0x07, 0x06, 0x05, 0x04, 0x03, 0x02, 0x01, 0x01, 0x00,
            0xab
        ]
    );
}

#[test]
fn reads_give_back_writes() {
    let mut buf = Buffer::new();
    buf.write_u8(7).unwrap();
    buf.write_u32(0xdead_beef).unwrap();
    buf.write_u64_le(0x0123_4567_89ab_cdef).unwrap();
    buf.write_var_int(300).unwrap();
    buf.write_var_int(u32::MAX).unwrap();
    buf.write_var_string("héllo").unwrap();
    buf.write_bytes(&[1, 2, 3]).unwrap();
    assert_eq!(buf.read_u8(), Ok(7));
    assert_eq!(buf.read_u32(), Ok(0xdead_beef));
    assert_eq!(buf.read_u64_le(), Ok(0x0123_4567_89ab_cdef));
    assert_eq!(buf.read_var_int(), Ok(300));
    assert_eq!(buf.read_var_int(), Ok(u32::MAX));
    assert_eq!(buf.read_var_string(), Ok("héllo".to_string()));
    assert_eq!(buf.read_remaining(), vec![1, 2, 3]);
    assert_eq!(buf.read_u8(), Err(BufferError::UnexpectedEnd));
}

#[test]
fn short_reads_fail_and_keep_the_cursor() {
    let mut buf = Buffer::from_slice(&[1, 2, 3]);
    assert_eq!(buf.read_u32(), Err(BufferError::UnexpectedEnd));
    assert_eq!(buf.read_u64_le(), Err(BufferError::UnexpectedEnd));
    assert_eq!(buf.read_remaining(), vec![1, 2, 3]);
}

#[test]
fn bad_var_ints() {
    // runs past five bytes
    let mut buf = Buffer::from_slice(&[0x80, 0x80, 0x80, 0x80, 0x80, 0x01]);
    assert_eq!(buf.read_var_int(), Err(BufferError::BadVarInt));
    assert_eq!(buf.read_remaining().len(), 6);
    // value above u32::MAX
    let mut buf = Buffer::from_slice(&[0xff, 0xff, 0xff, 0xff, 0x1f]);
    assert_eq!(buf.read_var_int(), Err(BufferError::BadVarInt));
    // ends inside the VarUInt
    let mut buf = Buffer::from_slice(&[0x80]);
    assert_eq!(buf.read_var_int(), Err(BufferError::BadVarInt));
    // redundant zero group is accepted
    let mut buf = Buffer::from_slice(&[0x81, 0x00]);
    assert_eq!(buf.read_var_int(), Ok(1));
}

#[test]
fn string_read_errors() {
    let mut buf = Buffer::from_slice(&[0x05, b'a', b'b']);
    assert_eq!(buf.read_var_string(), Err(BufferError::UnexpectedEnd));
    assert_eq!(buf.read_remaining(), vec![0x05, b'a', b'b']);
    let mut buf = Buffer::from_slice(&[0x02, 0xc3, 0x28]);
    assert_eq!(buf.read_var_string(), Err(BufferError::InvalidUtf8));
    assert_eq!(buf.read_remaining().len(), 3);
    let mut buf = Buffer::from_slice(&[0x80]);
    assert_eq!(buf.read_var_string(), Err(BufferError::BadVarInt));
}

#[test]
fn raw_byte_reads() {
    let mut buf = Buffer::from_slice(&[1, 2, 3, 4]);
    assert_eq!(buf.remaining(), 4);
    assert_eq!(buf.read_bytes(3), Ok(vec![1, 2, 3]));
    assert_eq!(buf.remaining(), 1);
    assert_eq!(buf.read_bytes(2), Err(BufferError::UnexpectedEnd));
    assert_eq!(buf.read_bytes(1), Ok(vec![4]));
    assert_eq!(buf.remaining(), 0);
    assert_eq!(buf.len(), 4);
}
