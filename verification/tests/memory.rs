use rusty_vm::memory::{
    count_used, dump_text, encode_rom, join_bytes, Memory, RomPatch, RomSizeError, ROM_BYTES,
    ROM_WORDS,
};

fn image_bytes() -> Vec<u8> {
    let mut bytes = vec![0u8; ROM_BYTES];
    bytes[0] = 0x12;
    bytes[1] = 0x34;
    bytes[2] = 0x00;
    bytes[3] = 0xFF;
    bytes[0x2000] = 0xA0;
    bytes[0x2001] = 0x02;
    bytes[ROM_BYTES - 2] = 0xFE;
    bytes[ROM_BYTES - 1] = 0xDC;
    bytes
}

#[test]
fn init_reads_big_endian_words() {
    let memory = Memory::init(&image_bytes()).expect("an image of the right size");
    assert!(memory.is_wf());
    assert_eq!(memory.rom.len(), ROM_WORDS);
    assert_eq!(memory.rom[0], 0x1234);
    assert_eq!(memory.rom[1], 0x00FF);
    assert_eq!(memory.rom[2], 0x0000);
    assert_eq!(memory.rom[0x1000], 0xA002);
    assert_eq!(memory.rom[0xFFFF], 0xFEDC);
}

#[test]
fn init_clears_the_ram() {
    let memory = Memory::init(&image_bytes()).expect("an image of the right size");
    assert_eq!(memory.ram.len(), 1024);
    assert!(memory.ram.iter().all(|word| *word == 0));
}

#[test]
fn init_refuses_a_short_image() {
    let bytes = vec![0u8; ROM_BYTES - 1];
    assert_eq!(Memory::init(&bytes).err(), Some(RomSizeError { found: ROM_BYTES - 1 }));
}

#[test]
fn init_refuses_a_long_image() {
    let bytes = vec![0u8; ROM_BYTES + 2];
    assert_eq!(Memory::init(&bytes).err(), Some(RomSizeError { found: ROM_BYTES + 2 }));
}

#[test]
fn init_refuses_an_empty_image() {
    assert_eq!(Memory::init(&[]).err(), Some(RomSizeError { found: 0 }));
}

#[test]
fn to_bytes_is_the_inverse_of_init() {
    let bytes = image_bytes();
    let memory = Memory::init(&bytes).expect("an image of the right size");
    assert_eq!(memory.to_bytes(), bytes);
}

#[test]
fn encode_rom_writes_high_byte_first() {
    assert_eq!(encode_rom(&vec![0x1234, 0x00A0, 0xFF00]), vec![0x12, 0x34, 0x00, 0xA0, 0xFF, 0x00]);
    assert_eq!(encode_rom(&Vec::new()), Vec::<u8>::new());
}

#[test]
fn join_bytes_puts_the_first_byte_high() {
    assert_eq!(join_bytes(0x12, 0x34), 0x1234);
    assert_eq!(join_bytes(0x00, 0xFF), 0x00FF);
    assert_eq!(join_bytes(0xFF, 0xFF), 0xFFFF);
}

#[test]
fn update_names_the_two_bytes_of_the_word() {
    let mut memory = Memory::init(&image_bytes()).expect("an image of the right size");
    memory.rom[0x0300] = 0xA001;
    assert_eq!(memory.update(0x0300), RomPatch { offset: 0x0600, high: 0xA0, low: 0x01 });
    assert_eq!(memory.update(0), RomPatch { offset: 0, high: 0x12, low: 0x34 });
    assert_eq!(memory.update(0xFFFF), RomPatch { offset: 0x1_FFFE, high: 0xFE, low: 0xDC });
}

#[test]
fn count_used_skips_zero_and_gpu_noop() {
    assert_eq!(count_used(&vec![0x0000, 0xA000, 0x0001, 0xA001, 0x0000, 0xFFFF]), 3);
    assert_eq!(count_used(&vec![0x0000, 0xA000]), 0);
    assert_eq!(count_used(&Vec::new()), 0);
}

#[test]
fn dump_text_writes_sixteen_binary_digits_a_line() {
    let text = dump_text(&vec![0x0000, 0xFFFF, 0x8001, 0x00A1]);
    assert_eq!(
        String::from_utf8(text).expect("digits and line feeds"),
        "0000000000000000\n1111111111111111\n1000000000000001\n0000000010100001\n"
    );
    assert_eq!(dump_text(&Vec::new()), Vec::<u8>::new());
}

#[test]
fn a_memory_with_a_short_rom_is_not_well_formed() {
    assert!(Memory { rom: vec![0; ROM_WORDS], ram: [0; 1024] }.is_wf());
    assert!(!Memory { rom: vec![0; ROM_WORDS - 1], ram: [0; 1024] }.is_wf());
    assert!(!Memory { rom: vec![0; ROM_WORDS + 1], ram: [0; 1024] }.is_wf());
    assert!(!Memory { rom: Vec::new(), ram: [0; 1024] }.is_wf());
}
