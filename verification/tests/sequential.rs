use hack::sequential::{Counter16, Dff, Ram32K, Register16};

#[test]
fn sequential_test_dff_basic_behavior() {
    let mut dff = Dff::new();

    assert_eq!(dff.get_output(), 0);

    dff.set_input(0xFFFF);
    assert_eq!(dff.get_output(), 0);

    dff.tick();
    assert_eq!(dff.get_output(), 0xFFFF);
}

#[test]
fn sequential_test_dff_multiple_ticks() {
    let mut dff = Dff::new();

    dff.set_input(0xAAAA);
    dff.tick();
    assert_eq!(dff.get_output(), 0xAAAA);

    dff.set_input(0x5555);
    assert_eq!(dff.get_output(), 0xAAAA);

    dff.tick();
    assert_eq!(dff.get_output(), 0x5555);
}

#[test]
fn sequential_test_register_behavior() {
    let mut reg = Register16::new();
    assert_eq!(reg.get_output(), 0x0);

    let input1 = 0xAAAA;
    reg.set_input(input1, true);
    assert_eq!(reg.get_output(), 0x0);
    reg.tick();
    assert_eq!(reg.get_output(), input1);

    let input2 = 0xBCBC;
    reg.set_input(input2, false);
    reg.tick();
    assert_eq!(reg.get_output(), input1);
    reg.set_input(input2, true);
    reg.tick();
    assert_eq!(reg.get_output(), input2);
}

#[test]
fn sequential_test_counter_init() {
    let counter = Counter16::new();

    assert_eq!(counter.get_output(), 0x0);
}

#[test]
fn test_counter_load() {
    let mut counter = Counter16::new();
    let input = 0x10F0;

    assert_eq!(counter.get_output(), 0x0);
    counter.set_input(input, false, true, false);
    assert_eq!(counter.get_output(), 0x0);
    counter.tick();
    assert_eq!(counter.get_output(), input);
}

#[test]
fn sequential_test_counter_reset() {
    let mut counter = Counter16::new();
    let input = 0x10F0;

    assert_eq!(counter.get_output(), 0x0);
    counter.set_input(input, false, true, false);
    assert_eq!(counter.get_output(), 0x0);
    counter.tick();
    assert_eq!(counter.get_output(), input);

    counter.set_input(input, true, false, false);
    assert_eq!(counter.get_output(), input);
    counter.tick();
    assert_eq!(counter.get_output(), 0x0);
}

#[test]
fn sequential_test_counter_inc() {
    let mut counter = Counter16::new();
    let input = 0x10F0;

    assert_eq!(counter.get_output(), 0x0);
    counter.set_input(input, false, false, true);
    counter.tick();
    assert_eq!(counter.get_output(), 1);
}

#[test]
fn test_counter_priority() {
    let mut counter = Counter16::new();
    let input = 0x10F0;

    counter.set_input(input, true, true, true);
    counter.tick();
    assert_eq!(counter.get_output(), 0);

    counter.set_input(input, false, true, true);
    counter.tick();
    assert_eq!(counter.get_output(), input);

    counter.set_input(0x5555, false, false, true);
    counter.tick();
    assert_eq!(counter.get_output(), input + 1);

    counter.set_input(0x5555, false, false, false);
    counter.tick();
    assert_eq!(counter.get_output(), input + 1);
}

#[test]
fn test_ram32k_initial_state() {
    let ram = Ram32K::new();
    for addr in [0, 1, 100, 1023, 32767] {
        assert_eq!(ram.get(addr), 0);
    }
}

#[test]
fn test_ram32k_write_and_read_single_address() {
    let mut ram = Ram32K::new();
    let addr = 12345;
    let value = 0xBEEF;

    ram.set(addr, value);
    assert_eq!(ram.get(addr), 0);

    ram.tick();
    assert_eq!(ram.get(addr), value);
}

#[test]
fn test_ram32k_multiple_addresses_independent() {
    let mut ram = Ram32K::new();
    let addr1 = 100;
    let addr2 = 200;
    let val1 = 0x1111;
    let val2 = 0x2222;

    ram.set(addr1, val1);
    ram.set(addr2, val2);
    ram.tick();

    assert_eq!(ram.get(addr1), val1);
    assert_eq!(ram.get(addr2), val2);
}

#[test]
fn test_ram32k_write_same_address_multiple_times() {
    let mut ram = Ram32K::new();
    let addr = 30000;

    ram.set(addr, 0xAAAA);
    ram.tick();
    assert_eq!(ram.get(addr), 0xAAAA);

    ram.set(addr, 0xBBBB);
    ram.tick();
    assert_eq!(ram.get(addr), 0xBBBB);
}
