use led_matrix::machine::Machine;
use led_matrix::machine::MachineError;

#[test]
fn new_machine_is_reset_with_program_loaded() {
    let m = Machine::new(&[1, 2, 3]);
    assert_eq!(m.memory().len(), 4096);
    assert_eq!(&m.memory()[0..3], &[1, 2, 3]);
    assert!(m.memory()[3..].iter().all(|&b| b == 0));
    assert_eq!(m.regs().len(), 16);
    assert!(m.regs().iter().all(|&r| r == 0));
}

#[test]
fn set_reg_writes_and_rejects_out_of_range() {
    let mut m = Machine::new(&[]);
    assert!(m.set_reg(3, 12345).is_ok());
    assert_eq!(m.regs()[3], 12345);
    assert!(matches!(m.set_reg(17, 1), Err(MachineError::TooBigSize)));
    assert_eq!(m.regs()[3], 12345);
}

#[test]
fn moveif_copies_only_on_nonzero_condition() {
    let mut m = Machine::new(&[]);
    m.set_reg(2, 77).unwrap();
    // condition register 3 is zero: no move
    assert_eq!(m.moveif(1, 2, 3), Ok(false));
    assert_eq!(m.regs()[1], 0);
    // nonzero condition: the move happens
    m.set_reg(3, 1).unwrap();
    assert_eq!(m.moveif(1, 2, 3), Ok(false));
    assert_eq!(m.regs()[1], 77);
    // a bad destination is rejected once the condition holds
    assert_eq!(m.moveif(16, 2, 3), Err(MachineError::BadRegisterName));
}

#[test]
fn store_then_load_round_trips_little_endian() {
    let mut m = Machine::new(&[]);
    m.set_reg(1, 100).unwrap(); // address
    m.set_reg(2, 0x1234_5678).unwrap(); // value
    assert_eq!(m.store(1, 2), Ok(false));
    assert_eq!(&m.memory()[100..104], &[0x78, 0x56, 0x34, 0x12]);
    m.set_reg(4, 100).unwrap();
    assert_eq!(m.load(5, 4), Ok(false));
    assert_eq!(m.regs()[5], 0x1234_5678);
    // bad register names are rejected
    assert_eq!(m.store(16, 2), Err(MachineError::BadRegisterName));
    assert_eq!(m.load(5, 16), Err(MachineError::BadRegisterName));
}

#[test]
fn loadimm_sign_extends() {
    let mut m = Machine::new(&[]);
    assert_eq!(m.loadimm(1, 0x39, 0x30), Ok(false));
    assert_eq!(m.regs()[1], 0x3039); // 12345
    assert_eq!(m.loadimm(2, 0xFF, 0xFF), Ok(false));
    assert_eq!(m.regs()[2], u32::MAX); // -1 as i16, sign-extended
    assert_eq!(m.loadimm(3, 0x00, 0x80), Ok(false));
    assert_eq!(m.regs()[3], 0xFFFF_8000); // -32768
    assert_eq!(m.loadimm(16, 0, 0), Err(MachineError::BadRegisterName));
}

#[test]
fn sub_wraps_modulo_two_to_the_thirty_two() {
    let mut m = Machine::new(&[]);
    m.set_reg(1, 5).unwrap();
    m.set_reg(2, 7).unwrap();
    assert_eq!(m.sub(3, 1, 2), Ok(false));
    assert_eq!(m.regs()[3], (5u32).wrapping_sub(7));
    assert_eq!(m.sub(3, 2, 1), Ok(false));
    assert_eq!(m.regs()[3], 2);
    assert_eq!(m.sub(16, 1, 2), Err(MachineError::BadRegisterName));
}

#[test]
fn step_advances_ip_by_one_and_executes() {
    // loadimm r1, 263 (l=7, h=1), then the window at ip=1 is a moveif
    // whose condition register 7 is zero, then the window at ip=2 exits
    let mut m = Machine::new(&[4, 1, 7, 1, 7, 0, 0, 0]);
    let mut out = Vec::new();
    assert_eq!(m.step_on(&mut out), Ok(false));
    assert_eq!(m.regs()[0], 1);
    assert_eq!(m.regs()[1], 263);
    assert_eq!(m.step_on(&mut out), Ok(false)); // moveif, condition 0
    assert_eq!(m.regs()[0], 2);
    assert_eq!(m.step_on(&mut out), Ok(true)); // exit
    assert!(out.is_empty());
}

#[test]
fn step_prints_decimal() {
    let mut m = Machine::new(&[8, 1, 0, 0]);
    m.set_reg(1, 12345).unwrap();
    let mut out = Vec::new();
    assert_eq!(m.step_on(&mut out), Ok(false));
    assert_eq!(out, b"12345".to_vec());
}

#[test]
fn step_prints_zero_as_one_digit() {
    let mut m = Machine::new(&[8, 1, 0, 0]);
    let mut out = Vec::new();
    assert_eq!(m.step_on(&mut out), Ok(false));
    assert_eq!(out, b"0".to_vec());
}

#[test]
fn step_prints_low_byte_as_character() {
    let mut m = Machine::new(&[6, 1, 0, 0]);
    m.set_reg(1, 0x141).unwrap(); // low byte 0x41, 'A'
    let mut out = Vec::new();
    assert_eq!(m.step_on(&mut out), Ok(false));
    assert_eq!(out, b"A".to_vec());
}

#[test]
fn step_prints_high_byte_as_two_byte_utf8() {
    let mut m = Machine::new(&[6, 1, 0, 0]);
    m.set_reg(1, 233).unwrap(); // U+00E9
    let mut out = Vec::new();
    assert_eq!(m.step_on(&mut out), Ok(false));
    assert_eq!(out, "é".as_bytes().to_vec());
}

#[test]
fn run_stops_at_exit() {
    // loadimm r1, 263; a zero-condition moveif; exit
    let mut m = Machine::new(&[4, 1, 7, 1, 7, 0, 0, 0]);
    let mut out = Vec::new();
    assert_eq!(m.run_on(&mut out), Ok(()));
    assert_eq!(m.regs()[1], 263);
    assert!(out.is_empty());
}

#[test]
fn run_surfaces_instruction_errors() {
    // loadimm r1, 65; the window at ip=1 is a moveif whose condition
    // (register 0, now 2) is nonzero and whose destination 65 is bad
    let mut m = Machine::new(&[4, 1, 65, 0, 0, 0, 0, 0]);
    let mut out = Vec::new();
    assert_eq!(m.run_on(&mut out), Err(MachineError::BadRegisterName));
    assert_eq!(m.regs()[1], 65);
}
