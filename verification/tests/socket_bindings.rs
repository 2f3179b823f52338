use ingen_sdk::abi::{AbiError, LiftError, StrRef};
use ingen_sdk::socket::{
    check_fd_area, error_result_payloads, fd_string_refs, lift_bool, lift_fd_result,
    lift_shutdown_option, lift_tcp_bind_options, lift_tcp_connect_options, lift_u32,
    lower_bool_result, lower_fd_result, lower_string_result, lower_u32, lower_u32_result,
    lower_unit_result, string_result_payloads, Error, ShutdownOption, TcpBindOptions,
    TcpConnectOptions, SOCKET_RESULT_SIZE,
};

fn err(d: &str) -> Error {
    Error::ErrorWithDescription(d.to_string())
}

#[test]
fn fd_ok_roundtrips() {
    let r: Result<i32, Error> = Ok(-5);
    let mut area = vec![0x77u8; SOCKET_RESULT_SIZE];
    lower_fd_result(&mut area, &r, 0);
    assert_eq!(&area[0..8], &[0, 0x77, 0x77, 0x77, 0xfb, 0xff, 0xff, 0xff]);
    assert_eq!(check_fd_area(&area), Ok(()));
    assert_eq!(fd_string_refs(&area), vec![]);
    assert_eq!(error_result_payloads(&r), Vec::<Vec<u8>>::new());
    assert_eq!(lift_fd_result(&area, vec![]), r);
}

#[test]
fn fd_err_roundtrips() {
    let r: Result<i32, Error> = Err(err("address in use"));
    let payloads = error_result_payloads(&r);
    assert_eq!(payloads, vec![b"address in use".to_vec()]);
    let mut area = vec![0u8; SOCKET_RESULT_SIZE];
    lower_fd_result(&mut area, &r, 0x4000);
    assert_eq!(area, vec![1, 0, 0, 0, 0, 0, 0, 0, 0, 0x40, 0, 0, 14, 0, 0, 0]);
    assert_eq!(fd_string_refs(&area), vec![StrRef { ptr: 0x4000, len: 14 }]);
    assert_eq!(lift_fd_result(&area, payloads), r);
}

#[test]
fn fd_area_check_refuses_unknown_cases() {
    let mut area = vec![0u8; SOCKET_RESULT_SIZE];
    area[0] = 3;
    assert_eq!(check_fd_area(&area), Err(AbiError::InvalidDiscriminant));
    area[0] = 1;
    area[4] = 2;
    assert_eq!(check_fd_area(&area), Err(AbiError::InvalidDiscriminant));
    assert_eq!(check_fd_area(&area[..8]), Err(AbiError::AreaSize));
}

#[test]
fn other_results_lower_to_exact_bytes() {
    let mut area = vec![9u8; SOCKET_RESULT_SIZE];
    lower_unit_result(&mut area, &Ok(()), 0);
    assert_eq!(area[0], 0);
    assert_eq!(&area[1..], &[9u8; 15]);

    let mut area = vec![0u8; SOCKET_RESULT_SIZE];
    lower_u32_result(&mut area, &Ok(0xffff_fffe), 0);
    assert_eq!(&area[0..8], &[0, 0, 0, 0, 0xfe, 0xff, 0xff, 0xff]);

    let mut area = vec![0u8; SOCKET_RESULT_SIZE];
    lower_bool_result(&mut area, &Ok(true), 0);
    assert_eq!(&area[0..5], &[0, 0, 0, 0, 1]);
    lower_bool_result(&mut area, &Ok(false), 0);
    assert_eq!(&area[0..5], &[0, 0, 0, 0, 0]);

    let r: Result<String, Error> = Ok("127.0.0.1:80".to_string());
    assert_eq!(string_result_payloads(&r), vec![b"127.0.0.1:80".to_vec()]);
    let mut area = vec![0u8; SOCKET_RESULT_SIZE];
    lower_string_result(&mut area, &r, 0x80);
    assert_eq!(&area[0..12], &[0, 0, 0, 0, 0x80, 0, 0, 0, 12, 0, 0, 0]);

    let r: Result<String, Error> = Err(err("not connected"));
    assert_eq!(string_result_payloads(&r), vec![b"not connected".to_vec()]);
    let mut area = vec![0u8; SOCKET_RESULT_SIZE];
    lower_string_result(&mut area, &r, 0x90);
    assert_eq!(area, vec![1, 0, 0, 0, 0, 0, 0, 0, 0x90, 0, 0, 0, 13, 0, 0, 0]);

    let mut area = vec![0u8; SOCKET_RESULT_SIZE];
    lower_unit_result(&mut area, &Err(err("x")), 0x10);
    assert_eq!(area, vec![1, 0, 0, 0, 0, 0, 0, 0, 0x10, 0, 0, 0, 1, 0, 0, 0]);
}

#[test]
fn bool_and_shutdown_arguments() {
    assert_eq!(lift_bool(0), Ok(false));
    assert_eq!(lift_bool(1), Ok(true));
    assert_eq!(lift_bool(2), Err(LiftError::InvalidBool));
    assert_eq!(lift_bool(-1), Err(LiftError::InvalidBool));
    assert_eq!(lift_shutdown_option(0), Ok(ShutdownOption::Read));
    assert_eq!(lift_shutdown_option(1), Ok(ShutdownOption::Write));
    assert_eq!(lift_shutdown_option(2), Ok(ShutdownOption::Both));
    assert_eq!(lift_shutdown_option(3), Err(LiftError::InvalidShutdownOption));
}

#[test]
fn u32_arguments_keep_their_bits() {
    assert_eq!(lower_u32(u32::MAX), -1);
    assert_eq!(lower_u32(0x8000_0000), i32::MIN);
    assert_eq!(lower_u32(5000), 5000);
    assert_eq!(lift_u32(-1), u32::MAX);
    assert_eq!(lift_u32(lower_u32(3_000_000_000)), 3_000_000_000);
}

#[test]
fn tcp_options_lift() {
    assert_eq!(
        lift_tcp_bind_options(-1, 1, 0),
        Ok(TcpBindOptions { backlog: u32::MAX, nonblocking: true, reuse_address: false })
    );
    assert_eq!(lift_tcp_bind_options(5, 2, 0), Err(LiftError::InvalidBool));
    assert_eq!(lift_tcp_bind_options(5, 0, 7), Err(LiftError::InvalidBool));
    assert_eq!(
        lift_tcp_connect_options("0.0.0.0:0", 0, 250),
        Ok(TcpConnectOptions {
            local_endpoint: "0.0.0.0:0",
            nonblocking: false,
            connect_timeout_in_ms: 250
        })
    );
    assert_eq!(lift_tcp_connect_options("x", 9, 0), Err(LiftError::InvalidBool));
}
