use foc_rust::bytes;
use foc_rust::drivers::debug_uart::Uart2Sink;
use foc_rust::drivers::flash::{
    self, check_errors, check_write, current_slot, other_metadata_addr, other_slot_range, page_of,
    pages_to_erase, write_slot_config, FlashError, FlashOp, StatusFlags,
};
use foc_rust::hal;
use foc_rust::key_store;
use foc_rust::metadata::{self, Metadata};
use foc_rust::tasks::motor::{Edge, MotorGate};
use foc_rust::uds::crypto::AesBlock;

#[test]
fn byte_orders() {
    assert_eq!(bytes::u16_to_le(0x1234), [0x34, 0x12]);
    assert_eq!(bytes::u16_from_le(0x34, 0x12), 0x1234);
    assert_eq!(bytes::u32_to_le(0x1234_5678), 0x1234_5678u32.to_le_bytes());
    assert_eq!(bytes::u32_to_be(0x1234_5678), 0x1234_5678u32.to_be_bytes());
    assert_eq!(bytes::u32_from_le([0x78, 0x56, 0x34, 0x12]), 0x1234_5678);
    let v = 0x0123_4567_89AB_CDEFu64;
    assert_eq!(bytes::u64_to_le(v), v.to_le_bytes());
    assert_eq!(bytes::u64_from_le(v.to_le_bytes()), v);
}

#[test]
fn slots() {
    assert_eq!(current_slot(0x0800_2000), 0);
    assert_eq!(current_slot(0x0801_0800), 1);
    assert_eq!(other_slot_range(0), (0x0801_0800, 0x0801_F000));
    assert_eq!(other_slot_range(1), (0x0800_2000, 0x0801_0800));
    assert_eq!(other_metadata_addr(0), 0x0801_EFE0);
    assert_eq!(other_metadata_addr(1), 0x0801_07E0);
    assert_eq!(metadata::metadata_addr(0), 0x0801_07E0);
    assert_eq!(metadata::metadata_addr(1), 0x0801_EFE0);
    assert_eq!(metadata::slot_base(0), 0x0800_2000);
}

#[test]
fn pages() {
    assert_eq!(page_of(0x0800_0000), 0);
    assert_eq!(page_of(0x0801_F800), 63);
    assert_eq!(pages_to_erase(0x0800_6000, 0x0800_6800), vec![12]);
    assert_eq!(pages_to_erase(0x0801_3000, 0x0801_F800), (38u8..63).collect::<Vec<u8>>());
    assert_eq!(pages_to_erase(0x0800_6800, 0x0800_6000), Vec::<u8>::new());
    assert_eq!(hal::flash::erase_app_region(), (0u8..63).collect::<Vec<u8>>());
}

#[test]
fn write_checks() {
    assert_eq!(check_write(0x0801_3000, 0x0801_3000, 0x0801_F800), Ok(()));
    assert_eq!(check_write(0x0801_3004, 0x0801_3000, 0x0801_F800), Err(FlashError::Unaligned));
    assert_eq!(check_write(0x0801_2FF8, 0x0801_3000, 0x0801_F800), Err(FlashError::OutOfBounds));
    assert_eq!(check_write(0x0801_F7F8, 0x0801_3000, 0x0801_F800), Ok(()));
    assert_eq!(check_write(0x0801_F800, 0x0801_3000, 0x0801_F800), Err(FlashError::OutOfBounds));
    assert_eq!(check_write(0x10, 0x100, 0x200), Err(FlashError::OutOfBounds));
    assert_eq!(check_write(0x200, 0x100, 0x200), Err(FlashError::OutOfBounds));
    assert_eq!(check_write(0xFFFF_FFFF, 0, 0), Err(FlashError::Unaligned));
    assert_eq!(hal::flash::check_app_write(0x0801_F7F8), Ok(()));
    assert_eq!(hal::flash::check_app_write(0x0801_F800), Err(FlashError::OutOfBounds));
    assert_eq!(hal::flash::check_app_write(0x0800_0001), Err(FlashError::Unaligned));
}

#[test]
fn controller_errors() {
    let none = StatusFlags {
        progerr: false,
        wrperr: false,
        pgaerr: false,
        sizerr: false,
        pgserr: false,
    };
    assert_eq!(check_errors(none), Ok(()));
    assert_eq!(check_errors(StatusFlags { progerr: true, ..none }), Err(FlashError::ProgramError));
    assert_eq!(check_errors(StatusFlags { wrperr: true, ..none }), Err(FlashError::ProgramError));
    assert_eq!(check_errors(StatusFlags { pgaerr: true, ..none }), Err(FlashError::ProgramError));
    assert_eq!(check_errors(StatusFlags { sizerr: true, ..none }), Err(FlashError::ProgramError));
    assert_eq!(check_errors(StatusFlags { pgserr: true, ..none }), Err(FlashError::ProgramError));
}

#[test]
fn slot_configuration() {
    let ops = write_slot_config(0x55);
    assert_eq!(ops[0], FlashOp::Erase { start: 0x0801_F800, end: 0x0802_0000 });
    assert_eq!(
        ops[1],
        FlashOp::Write {
            offset: 0x0801_FFF8,
            region_start: 0x0801_FFF8,
            region_end: 0x0802_0000,
            value: 0x55,
        }
    );
}

fn sample() -> Metadata {
    Metadata {
        magic: 0xF0C1_001A,
        image_size: 40_000,
        image_crc32: 0xDEAD_BEEF,
        build_timestamp: 1_700_000_000,
        version: *b"1.2.3\0\0\0\0\0\0\0\0\0\0\0",
    }
}

fn written(m: &Metadata) -> [u8; 32] {
    let mut block = [0u8; 32];
    let writes = metadata::write_metadata(0x0801_EFE0, m).unwrap();
    for (addr, value) in writes {
        let at = (addr - 0x0801_EFE0) as usize;
        block[at..at + 8].copy_from_slice(&value.to_le_bytes());
    }
    block
}

#[test]
fn metadata_reads_back() {
    assert_eq!(metadata::read(&written(&sample())), Some(sample()));
    let block = written(&sample());
    assert_eq!(&block[0..4], &0xF0C1_001Au32.to_le_bytes());
    assert_eq!(&block[12..16], &1_700_000_000u32.to_le_bytes());
}

#[test]
fn metadata_refusals() {
    assert_eq!(metadata::read(&[0xFF; 32]), None);
    assert_eq!(metadata::read(&written(&Metadata { magic: 1, ..sample() })), None);
    assert_eq!(metadata::read(&written(&Metadata { version: [0; 16], ..sample() })), None);
    assert_eq!(metadata::read(&written(&Metadata { version: [0xFF; 16], ..sample() })), None);
    let blank = Metadata { build_timestamp: 0xFFFF_FFFF, ..sample() };
    assert_eq!(metadata::read(&written(&blank)), None);
    assert_eq!(
        metadata::write_metadata(0x0800_07F0, &sample()).unwrap_err(),
        FlashError::CrossPage
    );
}

#[test]
fn short_metadata() {
    let words = hal::flash::write_metadata(0x1111_1111, 0x2222_2222, 0x3333_3333);
    assert_eq!(words[0], (0x0801_F800, 0x2222_2222_1111_1111));
    assert_eq!(words[1], (0x0801_F808, 0xFFFF_FFFF_3333_3333));
}

#[test]
fn blank_key_store_has_no_keys() {
    assert!(key_store::load(&[0xFFFF_FFFF; 12]).is_none());
}

#[test]
fn saved_keys_are_loaded() {
    let keys = [AesBlock([1; 16]), AesBlock([2; 16]), AesBlock([0xFF; 16])];
    let mut mem = vec![0u8; 2048];
    let ops = key_store::store(&keys);
    assert_eq!(ops.len(), 7);
    for op in ops {
        match op {
            FlashOp::Erase { start, end } => {
                assert_eq!((start, end), (0x0801_F800, 0x0802_0000));
                mem = vec![0xFF; 2048];
            }
            FlashOp::Write { offset, region_start, region_end, value } => {
                assert_eq!(check_write(offset, region_start, region_end), Ok(()));
                let at = (offset - 0x0801_F800) as usize;
                mem[at..at + 8].copy_from_slice(&value.to_le_bytes());
            }
            FlashOp::Read { .. } => panic!("nothing to read"),
        }
    }
    let words: Vec<u32> = mem[..48]
        .chunks(4)
        .map(|c| u32::from_le_bytes([c[0], c[1], c[2], c[3]]))
        .collect();
    assert_eq!(key_store::load(&words).unwrap(), keys);
}

#[test]
fn start_takes_stored_keys() {
    let fresh = [AesBlock([1; 16]), AesBlock([2; 16]), AesBlock([3; 16])];
    let mut blank = [0xFFFF_FFFF; 12];
    assert!(key_store::is_erased(&blank));
    let (keys, ops) = key_store::init(&blank, fresh);
    assert_eq!(keys, fresh);
    assert_eq!(ops, key_store::store(&fresh));
    blank[11] = 0x7FFF_FFFF;
    assert!(!key_store::is_erased(&blank));
    let (keys, ops) = key_store::init(&blank, fresh);
    let mut last = [0xFF; 16];
    last[15] = 0x7F;
    assert_eq!(keys, [AesBlock([0xFF; 16]), AesBlock([0xFF; 16]), AesBlock(last)]);
    assert!(ops.is_empty());
    assert_eq!(key_store::next_init_op(&ops, 0, true), None);
}

#[test]
fn first_metadata_word_decides() {
    let words = metadata::write_metadata(0x0801_EFE0, &sample()).unwrap();
    assert_eq!(metadata::next_metadata_word(&words, 0, false), Some(words[0]));
    assert_eq!(metadata::next_metadata_word(&words, 1, false), None);
    assert_eq!(metadata::next_metadata_word(&words, 3, true), Some(words[3]));
    assert_eq!(metadata::next_metadata_word(&words, 4, true), None);
    let short = hal::flash::write_metadata(1, 2, 3);
    assert_eq!(hal::flash::next_metadata_word(&short, 1, true), Some(short[1]));
    assert_eq!(hal::flash::next_metadata_word(&short, 1, false), None);
    assert_eq!(hal::flash::next_metadata_word(&short, 2, true), None);
}

#[test]
fn saving_stops_where_it_must() {
    let ops = key_store::store(&[AesBlock([1; 16]); 3]);
    assert_eq!(key_store::next_store_op(&ops, 0, false), Some(ops[0]));
    assert_eq!(key_store::next_store_op(&ops, 1, false), None);
    assert_eq!(key_store::next_store_op(&ops, 3, false), None);
    assert_eq!(key_store::next_store_op(&ops, 3, true), Some(ops[3]));
    assert_eq!(key_store::next_store_op(&ops, 7, true), None);
    assert_eq!(key_store::next_init_op(&ops, 1, false), None);
    assert_eq!(key_store::next_init_op(&ops, 3, false), Some(ops[3]));
    assert_eq!(key_store::next_init_op(&ops, 7, true), None);
}

#[test]
fn keys_from_random_words() {
    let key = key_store::generate_key_from_rng([Some(0x0403_0201), Some(2), Some(3), Some(4)]);
    assert_eq!(key.0, [1, 2, 3, 4, 2, 0, 0, 0, 3, 0, 0, 0, 4, 0, 0, 0]);
    let late = key_store::generate_key_from_rng([Some(1), Some(2), None, Some(4)]);
    assert_eq!(late.0, [0; 16]);
}

#[test]
fn sink_gives_its_uart_back() {
    assert_eq!(Uart2Sink::new(17u8).into_inner(), 17);
}

#[test]
fn bridge_follows_the_command() {
    let mut g = MotorGate::new();
    assert_eq!(g.on_command(false), Edge::Steady);
    assert_eq!(g.on_command(true), Edge::Rising);
    assert!(!g.end_tick(false, false).enable);
    assert_eq!(g.on_command(true), Edge::Steady);
    assert!(g.end_tick(false, true).enable);
    assert!(!g.end_tick(true, true).enable);
    assert_eq!(g.on_command(false), Edge::Falling);
    assert!(!g.end_tick(false, true).enable);
}

#[test]
fn trace_every_so_many_ticks() {
    let mut g = MotorGate::new();
    let traces = (0..4000).filter(|_| g.end_tick(false, false).trace).count();
    assert_eq!(traces, 2);
    g.tick = u32::MAX;
    assert!(g.end_tick(false, false).trace);
    assert_eq!(g.tick, 0);
}

#[test]
fn flash_layout() {
    assert_eq!(flash::METADATA_SIZE, 32);
    assert_eq!(hal::flash::METADATA_ADDR, hal::flash::APP_END);
}
