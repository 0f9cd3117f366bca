use modbus_crc::bench::{benchmark, run, run_iterations, BenchmarkResult, MAX_ITERATIONS};
use modbus_crc::crc::{checksum_hex, LookupTable, CRC};

fn crc_of(data: &[u8]) -> u16 {
    let table = LookupTable::new();
    CRC::new().calculate(&table, data)
}

#[test]
fn known_modbus_frame_checksum() {
    let frame = [0x01, 0x10, 0x00, 0x11, 0x00, 0x03, 0x06, 0x1A, 0xC4, 0xBA, 0xD0];
    // The CRC-16/MODBUS register is 0x677F; its low byte is sent first.
    assert_eq!(crc_of(&frame), 0x7F67);
}

#[test]
fn standard_check_string_checksum() {
    // CRC-16/MODBUS of "123456789" is 0x4B37.
    assert_eq!(crc_of(b"123456789"), 0x374B);
}

#[test]
fn read_holding_register_frame_checksum() {
    // The frame 01 03 00 00 00 01 is sent with the CRC bytes 84 0A.
    assert_eq!(crc_of(&[0x01, 0x03, 0x00, 0x00, 0x00, 0x01]), 0x840A);
}

#[test]
fn empty_input_gives_ffff() {
    assert_eq!(crc_of(&[]), 0xFFFF);
}

#[test]
fn repeated_calculations_agree_and_reset() {
    let table = LookupTable::new();
    let data = [0x01, 0x10];
    let mut engine = CRC::new();
    let first = engine.calculate(&table, &data);
    let second = engine.calculate(&table, &data);
    assert_eq!(first, second);
    engine.calculate(&table, &[0xAA, 0xBB, 0xCC]);
    assert_eq!(engine.calculate(&table, &data), first);
    assert_eq!(CRC::new().calculate(&table, &data), first);
    assert_eq!(first, 0x01EC);
}

#[test]
fn single_byte_checksum() {
    // One zero byte: register 0xFFFF ^ 0x00 shifted eight times gives 0x40BF.
    assert_eq!(crc_of(&[0x00]), 0xBF40);
}

#[test]
fn longest_input_is_accepted() {
    let data = vec![0xFFu8; 256];
    let a = crc_of(&data);
    let b = crc_of(&data);
    assert_eq!(a, b);
}

#[test]
fn table_entries_match_modbus_tables() {
    let table = LookupTable::new();
    assert_eq!(table.high(0), 0x00);
    assert_eq!(table.high(1), 0xC1);
    assert_eq!(table.high(2), 0x81);
    assert_eq!(table.high(3), 0x40);
    assert_eq!(table.low(0), 0x00);
    assert_eq!(table.low(1), 0xC0);
    assert_eq!(table.low(2), 0xC1);
    assert_eq!(table.low(3), 0x01);
    assert_eq!(table.high(255), 0x40);
    assert_eq!(table.low(255), 0x40);
}

#[test]
fn checksum_hex_is_four_uppercase_digits() {
    assert_eq!(checksum_hex(0x7F67), "7F67");
    assert_eq!(checksum_hex(0x01EC), "01EC");
    assert_eq!(checksum_hex(0x0000), "0000");
    assert_eq!(checksum_hex(0xABCD), "ABCD");
    assert_eq!(checksum_hex(0xFFFF), "FFFF");
}

#[test]
fn benchmark_checksum_ignores_iteration_count() {
    let table = LookupTable::new();
    let data = [0x01, 0x10, 0x00, 0x11, 0x00, 0x03, 0x06, 0x1A, 0xC4, 0xBA, 0xD0];
    let one = benchmark(&table, &data, 1);
    let many = benchmark(&table, &data, 1000);
    assert_eq!(one.checksum, many.checksum);
    assert_eq!(one.checksum, 0x7F67);
    assert_eq!(one.average_nanos, one.total_nanos);
    assert_eq!(many.average_nanos, many.total_nanos / 1000);
}

#[test]
fn benchmark_result_average_rounds_down() {
    let r = BenchmarkResult::new(0x1234, 1001, 10);
    assert_eq!(r.checksum, 0x1234);
    assert_eq!(r.total_nanos, 1001);
    assert_eq!(r.average_nanos, 100);
}

#[test]
fn run_iterations_returns_last_checksum() {
    let table = LookupTable::new();
    assert_eq!(run_iterations(&table, &[0x01, 0x10], 5), 0x01EC);
    assert_eq!(run_iterations(&table, &[], 1), 0xFFFF);
}

#[test]
fn run_parses_then_benchmarks() {
    let table = LookupTable::new();
    let r = run(&table, "01 10 00 11 00 03 06 1A C4 BA D0", 3).unwrap();
    assert_eq!(r.checksum, 0x7F67);
    assert_eq!(r.average_nanos, r.total_nanos / 3);
    assert!(run(&table, "010", 1).is_err());
    assert!(MAX_ITERATIONS == 1_000_000_000);
}
