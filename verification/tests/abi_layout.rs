use ingen_sdk::abi::{
    check_payloads, is_valid_utf8, load_i32, load_str_ref, load_u16, load_u32, load_u64, load_u8,
    payload_len_32, store_error, store_i32, store_u16, store_u32, store_u64, store_u8,
    utf8_payload, AbiError, StrRef,
};

#[test]
fn stores_are_little_endian() {
    let mut a = vec![0u8; 16];
    store_u16(&mut a, 0, 0x1234);
    store_u32(&mut a, 2, 0xdead_beef);
    store_u64(&mut a, 6, 0x0102_0304_0506_0708);
    store_u8(&mut a, 14, 0xaa);
    assert_eq!(
        a,
        vec![0x34, 0x12, 0xef, 0xbe, 0xad, 0xde, 0x08, 0x07, 0x06, 0x05, 0x04, 0x03, 0x02, 0x01, 0xaa, 0]
    );
    assert_eq!(load_u16(&a, 0), 0x1234);
    assert_eq!(load_u32(&a, 2), 0xdead_beef);
    assert_eq!(load_u64(&a, 6), 0x0102_0304_0506_0708);
    assert_eq!(load_u8(&a, 14), 0xaa);
}

#[test]
fn signed_stores_use_twos_complement() {
    let mut a = vec![0u8; 8];
    store_i32(&mut a, 0, -1);
    store_i32(&mut a, 4, i32::MIN);
    assert_eq!(a, vec![0xff, 0xff, 0xff, 0xff, 0x00, 0x00, 0x00, 0x80]);
    assert_eq!(load_i32(&a, 0), -1);
    assert_eq!(load_i32(&a, 4), i32::MIN);
    assert_eq!(load_u32(&a, 0), u32::MAX);
    store_i32(&mut a, 0, 0x7fff_ffff);
    assert_eq!(load_i32(&a, 0), i32::MAX);
}

#[test]
fn error_case_layout() {
    let mut a = vec![0xffu8; 16];
    store_error(&mut a, 4, 0x100, &"bad".to_string());
    assert_eq!(a[4], 0);
    assert_eq!(load_str_ref(&a, 8), StrRef { ptr: 0x100, len: 3 });
    assert_eq!(&a[0..4], &[0xff, 0xff, 0xff, 0xff]);
}

#[test]
fn payloads_are_utf8_bytes() {
    assert_eq!(utf8_payload(&"aé".to_string()), vec![0x61, 0xc3, 0xa9]);
    assert_eq!(payload_len_32(&"aé".to_string()), 3);
    assert!(is_valid_utf8(&vec![0x61, 0xc3, 0xa9]));
    assert!(!is_valid_utf8(&vec![0xc3]));
}

#[test]
fn check_payloads_cases() {
    assert_eq!(check_payloads(&vec![b"ok".to_vec()], 1), Ok(()));
    assert_eq!(check_payloads(&vec![b"ok".to_vec()], 2), Err(AbiError::PayloadCount));
    assert_eq!(check_payloads(&vec![vec![0xff]], 1), Err(AbiError::InvalidUtf8));
    assert_eq!(check_payloads(&vec![], 0), Ok(()));
}
