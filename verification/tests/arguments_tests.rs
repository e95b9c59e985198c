use dsnfs::arguments::{
    validate_chunk_size, validate_port, ProgramConfig, ProgramMode, ReceivingModeData,
    SendingModeData,
};

#[test]
fn ports_within_the_sixteen_bit_range_pass() {
    assert!(validate_port("0".to_string()).is_ok());
    assert!(validate_port("8080".to_string()).is_ok());
    assert!(validate_port("65535".to_string()).is_ok());
}

#[test]
fn out_of_range_ports_fail_with_the_bounds_message() {
    assert_eq!(
        validate_port("65536".to_string()).unwrap_err(),
        "Port is out of bounds (0-65535)"
    );
    assert_eq!(
        validate_port("123456789012345678901234567890".to_string()).unwrap_err(),
        "Port is out of bounds (0-65535)"
    );
}

#[test]
fn non_numeric_ports_fail_as_invalid() {
    assert_eq!(validate_port("abc".to_string()).unwrap_err(), "Invalid port");
    assert_eq!(validate_port("".to_string()).unwrap_err(), "Invalid port");
    assert_eq!(validate_port("-1".to_string()).unwrap_err(), "Invalid port");
    assert_eq!(validate_port("80x".to_string()).unwrap_err(), "Invalid port");
}

#[test]
fn chunk_sizes_between_one_and_the_frame_ceiling_pass() {
    assert!(validate_chunk_size("1".to_string()).is_ok());
    assert!(validate_chunk_size("256".to_string()).is_ok());
    assert!(validate_chunk_size("65535".to_string()).is_ok());
}

#[test]
fn zero_and_oversized_chunk_sizes_fail() {
    assert_eq!(
        validate_chunk_size("0".to_string()).unwrap_err(),
        "Chunk size is out of bounds (1-65535)"
    );
    assert_eq!(
        validate_chunk_size("65536".to_string()).unwrap_err(),
        "Chunk size is out of bounds (1-65535)"
    );
}

#[test]
fn non_numeric_chunk_sizes_fail_as_invalid() {
    assert_eq!(validate_chunk_size("big".to_string()).unwrap_err(), "Invalid chunk size");
    assert_eq!(validate_chunk_size("".to_string()).unwrap_err(), "Invalid chunk size");
}

#[test]
fn receiving_config_hands_back_its_parts() {
    let data = ReceivingModeData::new("incoming".to_string());
    let cfg = ProgramConfig::new(9000, ProgramMode::Receiving(data));
    assert_eq!(cfg.get_port(), 9000);
    match cfg.get_mode() {
        ProgramMode::Receiving(d) => assert_eq!(d.get_destination(), "incoming"),
        ProgramMode::Sending(_) => panic!("expected the receiving mode"),
    }
}

#[test]
fn sending_config_hands_back_its_parts() {
    let files = vec!["a.txt".to_string(), "b.txt".to_string()];
    let data = SendingModeData::new("127.0.0.1".to_string(), files.clone(), 256);
    let cfg = ProgramConfig::new(4242, ProgramMode::Sending(data));
    assert_eq!(cfg.get_port(), 4242);
    match cfg.get_mode() {
        ProgramMode::Sending(d) => {
            assert_eq!(d.get_address(), "127.0.0.1");
            assert_eq!(d.get_chunk_size(), 256);
            assert_eq!(d.get_files(), files);
        }
        ProgramMode::Receiving(_) => panic!("expected the sending mode"),
    }
}
