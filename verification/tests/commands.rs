use mems_lidar::{encode_command, HexError, START_MEASUREMENT_COMMAND, STOP_MEASUREMENT_COMMAND};

#[test]
fn measurement_commands_encode() {
    assert_eq!(encode_command(START_MEASUREMENT_COMMAND), Ok(vec![0x5A, 0x29]));
    assert_eq!(encode_command(STOP_MEASUREMENT_COMMAND), Ok(vec![0x5A, 0x30]));
}

#[test]
fn spaces_and_prefixes_are_dropped() {
    assert_eq!(encode_command("0x5A 0x29"), Ok(vec![0x5A, 0x29]));
    assert_eq!(encode_command(" 5a  29 "), Ok(vec![0x5A, 0x29]));
    assert_eq!(encode_command("0x0x7e"), Ok(vec![0x7E]));
    assert_eq!(encode_command(""), Ok(vec![]));
}

#[test]
fn prefixes_are_removed_without_overlap() {
    // "00xx" loses its inner "0x" and leaves "0x", which is not hex.
    assert_eq!(
        encode_command("00xx"),
        Err(HexError::InvalidCharacter { c: 'x', index: 1 })
    );
}

#[test]
fn odd_length_is_refused() {
    assert_eq!(encode_command("5A2"), Err(HexError::OddLength));
}

#[test]
fn first_bad_digit_is_reported() {
    assert_eq!(
        encode_command("5AG9Z1"),
        Err(HexError::InvalidCharacter { c: 'G', index: 2 })
    );
}
