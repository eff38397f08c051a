use corgos::semihosting::Semihosting;

#[test]
fn hex_text_of_values() {
    assert_eq!(Semihosting::dbg_hex_text(0x0123_4567_89ab_cdef), b"0x0123456789abcdef\0".to_vec());
    assert_eq!(Semihosting::dbg_hex_text(0), b"0x0000000000000000\0".to_vec());
    assert_eq!(Semihosting::dbg_hex_text(u64::MAX), b"0xffffffffffffffff\0".to_vec());
}
