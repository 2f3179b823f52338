use ingen_sdk::abi::{check_payloads, AbiError, LiftError, StrRef};
use ingen_sdk::icmp::{
    check_ping_area, lift_ping_options, lift_ping_result, lower_ping_options, lower_ping_result,
    ping_result_payloads, ping_string_refs, Error, IcmpPingResult, PING_RESULT_SIZE,
};

fn sample() -> IcmpPingResult {
    IcmpPingResult {
        src_ip: "10.0.0.1".to_string(),
        dst_ip: "10.0.0.2".to_string(),
        icmp_code: 3,
        identifier: 0x1234,
        seq: 7,
        ttl: 64,
        packet_size: 84,
        duration_in_microseconds: 0x1_0000_0001,
    }
}

#[test]
fn ping_ok_lowers_to_exact_bytes() {
    let r: Result<IcmpPingResult, Error> = Ok(sample());
    let mut area = vec![0xeeu8; PING_RESULT_SIZE];
    lower_ping_result(&mut area, &r, &[0x1000, 0x2000]);
    assert_eq!(area[0], 0);
    assert_eq!(&area[1..8], &[0xee; 7]);
    assert_eq!(&area[8..16], &[0x00, 0x10, 0, 0, 8, 0, 0, 0]);
    assert_eq!(&area[16..24], &[0x00, 0x20, 0, 0, 8, 0, 0, 0]);
    assert_eq!(&area[24..32], &[3, 0xee, 0x34, 0x12, 7, 0, 64, 0xee]);
    assert_eq!(&area[32..40], &[84, 0, 0, 0, 0, 0, 0, 0]);
    assert_eq!(&area[40..48], &[1, 0, 0, 0, 1, 0, 0, 0]);
}

#[test]
fn ping_ok_roundtrips() {
    let r: Result<IcmpPingResult, Error> = Ok(sample());
    let payloads = ping_result_payloads(&r);
    assert_eq!(payloads, vec![b"10.0.0.1".to_vec(), b"10.0.0.2".to_vec()]);
    let mut area = vec![0u8; PING_RESULT_SIZE];
    lower_ping_result(&mut area, &r, &[0x1000, -16]);
    assert_eq!(check_ping_area(&area), Ok(()));
    assert_eq!(
        ping_string_refs(&area),
        vec![StrRef { ptr: 0x1000, len: 8 }, StrRef { ptr: 0xffff_fff0, len: 8 }]
    );
    assert_eq!(check_payloads(&payloads, 2), Ok(()));
    assert_eq!(lift_ping_result(&area, payloads), r);
}

#[test]
fn ping_err_roundtrips() {
    let r: Result<IcmpPingResult, Error> =
        Err(Error::ErrorWithDescription("host unreachable".to_string()));
    let payloads = ping_result_payloads(&r);
    assert_eq!(payloads, vec![b"host unreachable".to_vec()]);
    let mut area = vec![0xaau8; PING_RESULT_SIZE];
    lower_ping_result(&mut area, &r, &[0x30]);
    assert_eq!(area[0], 1);
    assert_eq!(area[8], 0);
    assert_eq!(&area[12..20], &[0x30, 0, 0, 0, 16, 0, 0, 0]);
    assert_eq!(check_ping_area(&area), Ok(()));
    assert_eq!(ping_string_refs(&area), vec![StrRef { ptr: 0x30, len: 16 }]);
    assert_eq!(lift_ping_result(&area, payloads), r);
}

#[test]
fn ping_area_check_refuses_unknown_cases() {
    let mut area = vec![0u8; PING_RESULT_SIZE];
    area[0] = 2;
    assert_eq!(check_ping_area(&area), Err(AbiError::InvalidDiscriminant));
    area[0] = 1;
    area[8] = 1;
    assert_eq!(check_ping_area(&area), Err(AbiError::InvalidDiscriminant));
    area[8] = 0;
    assert_eq!(check_ping_area(&area), Ok(()));
    assert_eq!(check_ping_area(&area[..40]), Err(AbiError::AreaSize));
}

#[test]
fn ping_lift_reads_fields_written_by_hand() {
    let mut area = vec![0u8; PING_RESULT_SIZE];
    area[24] = 11;
    area[26] = 0xff;
    area[27] = 0xff;
    area[28] = 2;
    area[30] = 255;
    area[32..40].copy_from_slice(&u64::MAX.to_le_bytes());
    area[40..48].copy_from_slice(&5u64.to_le_bytes());
    let r = lift_ping_result(&area, vec![b"a".to_vec(), "é".as_bytes().to_vec()]).unwrap();
    assert_eq!(r.src_ip, "a");
    assert_eq!(r.dst_ip, "é");
    assert_eq!(r.icmp_code, 11);
    assert_eq!(r.identifier, 0xffff);
    assert_eq!(r.seq, 2);
    assert_eq!(r.ttl, 255);
    assert_eq!(r.packet_size, u64::MAX);
    assert_eq!(r.duration_in_microseconds, 5);
}

#[test]
fn ping_options_roundtrip() {
    let (a, b, c) = lower_ping_options(0xffff, 255, 9);
    assert_eq!((a, b, c), (65535, 255, 9));
    assert_eq!(lift_ping_options(a, b, c), Ok((0xffff, 255, 9)));
}

#[test]
fn ping_options_out_of_range_are_bad_ints() {
    assert_eq!(lift_ping_options(65536, 0, 0), Err(LiftError::BadInt));
    assert_eq!(lift_ping_options(-1, 0, 0), Err(LiftError::BadInt));
    assert_eq!(lift_ping_options(0, 256, 0), Err(LiftError::BadInt));
    assert_eq!(lift_ping_options(0, 0, 70000), Err(LiftError::BadInt));
    assert_eq!(lift_ping_options(0, 0, 0), Ok((0, 0, 0)));
}
