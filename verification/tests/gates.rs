use hack::gates::{
    add16, and16, full_adder, get_bit, half_adder, inc16, mux16, nand16, not16, or16, set_bit,
    xor16,
};

#[test]
fn gates_test_get_bit() {
    let value: u16 = 0b1010_0000_0000_1010;

    assert!(!get_bit(value, 0));
    assert!(get_bit(value, 1));
    assert!(!get_bit(value, 2));
    assert!(get_bit(value, 3));
    assert!(!get_bit(value, 4));
}

#[test]
fn gates_test_set_bit() {
    let a: u16 = 0x0000;
    let b: u16 = 0xFFFF;

    let c = set_bit(a, 0, true);
    assert_eq!(c, 0b1);

    let c = set_bit(a, 1, true);
    assert_eq!(c, 0b10);

    let c = set_bit(b, 0, false);
    assert_eq!(c, 0xFFFE);
}

#[test]
fn gates_test_nand16() {
    assert_eq!(nand16(0xFFFF, 0xFFFF), 0x0000);
    assert_eq!(nand16(0x0000, 0x0000), 0xFFFF);
    assert_eq!(nand16(0xFFFF, 0x0000), 0xFFFF);
}

#[test]
fn gates_test_not16() {
    assert_eq!(not16(0x0000), 0xFFFF);
    assert_eq!(not16(0xFFFF), 0x0000);
}

#[test]
fn gates_test_and16() {
    assert_eq!(and16(0b0011, 0b0101), 0b0001);
}

#[test]
fn test_or16() {
    assert_eq!(or16(0b0011, 0b0101), 0b0111);
}

#[test]
fn test_xor16() {
    assert_eq!(xor16(0b0011, 0b0101), 0b0110);
}

#[test]
fn test_mux16_select_a() {
    let x = 0x1042;
    let y = 0xFFA2;
    assert_eq!(mux16(x, y, true), x);
}

#[test]
fn test_mux16_select_b() {
    let x = 0x1042;
    let y = 0xFFA2;
    assert_eq!(mux16(x, y, false), y);
}

#[test]
fn gates_test_half_adder() {
    assert_eq!(half_adder(false, false), (false, false));
    assert_eq!(half_adder(false, true), (true, false));
    assert_eq!(half_adder(true, false), (true, false));
    assert_eq!(half_adder(true, true), (false, true));
}

#[test]
fn gates_test_full_adder() {
    assert_eq!(full_adder(false, false, false), (false, false));
    assert_eq!(full_adder(false, false, true), (true, false));
    assert_eq!(full_adder(false, true, false), (true, false));
    assert_eq!(full_adder(false, true, true), (false, true));
    assert_eq!(full_adder(true, false, false), (true, false));
    assert_eq!(full_adder(true, false, true), (false, true));
    assert_eq!(full_adder(true, true, false), (false, true));
    assert_eq!(full_adder(true, true, true), (true, true));
}

#[test]
fn gates_test_add16() {
    assert_eq!(add16(0b0001, 0b0001), 0b0010);
    assert_eq!(add16(0b0101, 0b0000), 0b0101);
}

#[test]
fn test_inc16() {
    assert_eq!(inc16(0x0000), 0x0001);
    assert_eq!(inc16(0xFFFF), 0x0000);
}

#[test]
fn test_add16_wraps() {
    assert_eq!(add16(0xFFFF, 0x0001), 0x0000);
    assert_eq!(add16(0x8000, 0x8000), 0x0000);
    assert_eq!(add16(0xABCD, 0x1234), 0xBE01);
}

#[test]
fn test_set_bit_preserves_others() {
    let a: u16 = 0b1010_1010_1010_1010;
    assert_eq!(set_bit(a, 0, true), 0b1010_1010_1010_1011);
    assert_eq!(set_bit(a, 15, false), 0b0010_1010_1010_1010);
    assert_eq!(set_bit(a, 1, true), a);
}
