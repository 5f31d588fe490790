//! Tests of the blocking driver against the simulated transport: the
//! write/read round trip, the busy-retry bound, abort on chunk failure,
//! and the command-header encoding.

use m24c64_driver::frame::{bus_target, write_frame};
use m24c64_driver::sim::{SimDelay, SimTransport};
use m24c64_driver::M24C64;

#[test]
fn round_trip() {
    let sim = SimTransport::new(8192);
    let mut delay = SimDelay::new();
    let mut eeprom = M24C64::new_blocking(sim, 0);
    let data = [0x10u8, 0x20, 0x30, 0x40];
    assert!(eeprom.write_blocking(0x12, &data, &mut delay).is_ok());
    let mut out = vec![0u8; 4];
    assert!(eeprom.read_blocking(0x12, &mut out).is_ok());
    assert_eq!(out, vec![0x10, 0x20, 0x30, 0x40]);
    assert_eq!(eeprom.bus_ref().last_target_byte(), 0x50);
}

#[test]
fn multi_chunk_round_trip() {
    let sim = SimTransport::new(8192);
    let mut delay = SimDelay::new();
    let mut eeprom = M24C64::new(sim, 5);
    let data: Vec<u8> = (0..40).map(|i| i as u8).collect();
    assert!(eeprom.write_blocking(30, &data, &mut delay).is_ok());
    // Chunks (30, 2), (32, 32), (64, 6): one transaction each,
    // addressed to the family code with the E pins folded in.
    assert_eq!(eeprom.bus_ref().write_calls(), 3);
    assert_eq!(eeprom.bus_ref().last_target_byte(), 0x55);
    let mut out = vec![0u8; 40];
    assert!(eeprom.read_blocking(30, &mut out).is_ok());
    assert_eq!(out, data);
    assert_eq!(eeprom.bus_ref().write_read_calls(), 3);
}

#[test]
fn retry_succeeds_on_tenth_attempt() {
    let sim = SimTransport::with_schedule(vec![0u8; 64], vec![false; 9], true);
    let mut delay = SimDelay::new();
    let mut eeprom = M24C64::new_blocking(sim, 0);
    assert!(eeprom.write_blocking(0, &[0xAA], &mut delay).is_ok());
    assert_eq!(eeprom.bus_ref().write_calls(), 10);
    assert_eq!(delay.ticks(), 9);
    assert_eq!(eeprom.bus_ref().mem_byte(0), 0xAA);
}

#[test]
fn retry_exhaustion_surfaces_error_without_eleventh_attempt() {
    let sim = SimTransport::with_schedule(vec![0u8; 64], Vec::new(), false);
    let mut delay = SimDelay::new();
    let mut eeprom = M24C64::new_blocking(sim, 0);
    assert!(eeprom.write_blocking(0, &[0xAA], &mut delay).is_err());
    assert_eq!(eeprom.bus_ref().write_calls(), 10);
    assert_eq!(delay.ticks(), 9);
    assert_eq!(eeprom.bus_ref().mem_byte(0), 0x00);
}

#[test]
fn multi_chunk_write_aborts_on_failed_chunk() {
    // Three chunks: (0, 32), (32, 32), (64, 16). The first transaction
    // is acknowledged, everything after it fails, so chunk 2 exhausts
    // its retries and chunk 3 is never attempted.
    let sim = SimTransport::with_schedule(vec![0u8; 128], vec![true], false);
    let mut delay = SimDelay::new();
    let mut eeprom = M24C64::new_blocking(sim, 0);
    let data = [0x11u8; 80];
    assert!(eeprom.write_blocking(0, &data, &mut delay).is_err());
    assert_eq!(eeprom.bus_ref().write_calls(), 11);
    // Chunk 1 is committed, nothing after it is.
    for i in 0..32 {
        assert_eq!(eeprom.bus_ref().mem_byte(i), 0x11);
    }
    for i in 32..128 {
        assert_eq!(eeprom.bus_ref().mem_byte(i), 0x00);
    }
}

#[test]
fn header_encoding_is_big_endian() {
    let sim = SimTransport::new(8192);
    let mut delay = SimDelay::new();
    let mut eeprom = M24C64::new_blocking(sim, 0);
    assert!(eeprom.write_blocking(0x1234, &[1, 2, 3, 4], &mut delay).is_ok());
    assert_eq!(eeprom.scratch_byte(0), 0x12);
    assert_eq!(eeprom.scratch_byte(1), 0x34);
    let frame = eeprom.bus_ref().last_frame();
    assert_eq!(frame[0], 0x12);
    assert_eq!(frame[1], 0x34);
    assert_eq!(&frame[2..], &[1, 2, 3, 4]);
    assert_eq!(eeprom.bus_ref().last_target_byte(), 0x50);
}

#[test]
fn read_failure_is_not_retried() {
    let sim = SimTransport::with_schedule(vec![0u8; 64], Vec::new(), false);
    let mut eeprom = M24C64::new_blocking(sim, 0);
    let mut out = vec![0u8; 4];
    assert!(eeprom.read_blocking(0, &mut out).is_err());
    assert_eq!(eeprom.bus_ref().write_read_calls(), 1);
    assert_eq!(eeprom.bus_ref().calls(), 1);
}

#[test]
fn failed_read_leaves_destination_after_failing_chunk_untouched() {
    let contents: Vec<u8> = (0..64).map(|i| i as u8).collect();
    let sim = SimTransport::with_schedule(contents, vec![true], false);
    let mut eeprom = M24C64::new_blocking(sim, 0);
    let mut out = vec![0xFFu8; 64];
    assert!(eeprom.read_blocking(0, &mut out).is_err());
    for i in 0..32 {
        assert_eq!(out[i], i as u8);
    }
    for i in 32..64 {
        assert_eq!(out[i], 0xFF);
    }
}

#[test]
fn empty_operations_issue_no_transactions() {
    let sim = SimTransport::new(256);
    let mut delay = SimDelay::new();
    let mut eeprom = M24C64::new_blocking(sim, 0);
    assert!(eeprom.write_blocking(100, &[], &mut delay).is_ok());
    let mut out: Vec<u8> = Vec::new();
    assert!(eeprom.read_blocking(100, &mut out).is_ok());
    assert_eq!(eeprom.bus_ref().calls(), 0);
    assert_eq!(delay.ticks(), 0);
}

#[test]
fn write_frame_prepends_header() {
    assert_eq!(write_frame(0x1234, &[0xAB]), vec![0x12, 0x34, 0xAB]);
    assert_eq!(write_frame(0, &[]), vec![0x00, 0x00]);
    assert_eq!(write_frame(0x00FF, &[1, 2]), vec![0x00, 0xFF, 1, 2]);
}

#[test]
fn bus_target_folds_e_pins_into_family_code() {
    assert_eq!(bus_target(0), 0x50);
    assert_eq!(bus_target(3), 0x53);
    assert_eq!(bus_target(7), 0x57);
}
