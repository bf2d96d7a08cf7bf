use hack::memory::{Counter16, Dff, Ram16K, Register16, Rom32K};

#[test]
fn memory_test_dff_basic_behavior() {
    let mut dff = Dff::new();

    assert_eq!(dff.get_output(), 0);

    dff.set_input(0xFFFF);
    assert_eq!(dff.get_output(), 0);

    dff.tick();
    assert_eq!(dff.get_output(), 0xFFFF);
}

#[test]
fn memory_test_dff_multiple_ticks() {
    let mut dff = Dff::new();

    dff.set_input(0xAAAA);
    dff.tick();
    assert_eq!(dff.get_output(), 0xAAAA);

    dff.set_input(0x5555);
    assert_eq!(dff.get_output(), 0xAAAA);

    dff.tick();
    assert_eq!(dff.get_output(), 0x5555);
}

#[test]
fn memory_test_register_behavior() {
    let mut reg = Register16::new();
    assert_eq!(reg.get(), 0x0);

    let input1 = 0xAAAA;
    reg.set(input1);
    assert_eq!(reg.get(), 0x0);
    reg.tick();
    assert_eq!(reg.get(), input1);

    let input2 = 0xBCBC;
    reg.set(input2);
    reg.tick();
    assert_eq!(reg.get(), input2);
}

#[test]
fn memory_test_counter_init() {
    let counter = Counter16::new();

    assert_eq!(counter.get(), 0x0);
}

#[test]
fn test_counter_set() {
    let mut counter = Counter16::new();
    let input = 0x10F0;

    assert_eq!(counter.get(), 0x0);
    counter.set(input);
    assert_eq!(counter.get(), 0x0);
    counter.tick();
    assert_eq!(counter.get(), input);
}

#[test]
fn memory_test_counter_reset() {
    let mut counter = Counter16::new();
    let input = 0x10F0;

    counter.set(input);
    counter.tick();
    assert_eq!(counter.get(), input);
    counter.reset();
    counter.tick();
    assert_eq!(counter.get(), 0x0);
}

#[test]
fn memory_test_counter_inc() {
    let mut counter = Counter16::new();

    assert_eq!(counter.get(), 0x0);
    counter.inc();
    counter.tick();
    assert_eq!(counter.get(), 1);
}

#[test]
fn test_counter_inc_wraps() {
    let mut counter = Counter16::new();
    counter.set(0xFFFF);
    counter.tick();
    counter.inc();
    counter.tick();
    assert_eq!(counter.get(), 0);
}

#[test]
fn test_ram16k_initial_state() {
    let ram = Ram16K::new();
    for addr in [0, 1, 100, 1023, 16000] {
        assert_eq!(ram.get(addr), 0);
    }
}

#[test]
fn test_ram16k_write_and_read_single_address() {
    let mut ram = Ram16K::new();
    let addr = 0x2FFF;
    let value = 0xBEEF;

    ram.set(addr, value);
    assert_eq!(ram.get(addr), 0);

    ram.tick();
    assert_eq!(ram.get(addr), value);
}

#[test]
fn test_ram16k_multiple_addresses_independent() {
    let mut ram = Ram16K::new();
    let addr1 = 100;
    let addr2 = 200;
    let val1 = 0x1111;
    let val2 = 0x2222;

    ram.set(addr1, val1);
    ram.set(addr2, val2);
    ram.tick();

    assert_eq!(ram.get(addr1), val1);
    assert_eq!(ram.get(addr2), val2);
}

#[test]
fn test_ram16k_write_same_address_multiple_times() {
    let mut ram = Ram16K::new();
    let addr = 15000;

    ram.set(addr, 0xAAAA);
    ram.tick();
    assert_eq!(ram.get(addr), 0xAAAA);

    ram.set(addr, 0xBBBB);
    ram.tick();
    assert_eq!(ram.get(addr), 0xBBBB);
}

#[test]
fn test_rom32k_basic() {
    let mut rom = Rom32K::new();
    let address: usize = 0;

    rom.set(address, 10);
    rom.tick();
    assert_eq!(rom.get(address), 10);
}
