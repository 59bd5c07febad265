use lc3_vm::memory::Memory;
use lc3_vm::{load_image, Cli, ErrCode};

#[test]
fn exit_codes() {
    assert_eq!(ErrCode::InvalidArgs.code(), 1);
    assert_eq!(ErrCode::MissingArgs.code(), 2);
    assert_eq!(ErrCode::Halt.code(), 3);
}

#[test]
fn cli_needs_an_image() {
    assert!(matches!(Cli::new(vec!["lc3-vm".to_string()]), Err(ErrCode::MissingArgs)));
    assert!(matches!(Cli::new(vec![]), Err(ErrCode::MissingArgs)));
}

#[test]
fn cli_keeps_arguments() {
    let cli = match Cli::new(vec!["lc3-vm".to_string(), "a.obj".to_string(), "b.obj".to_string()]) {
        Ok(c) => c,
        Err(_) => panic!("two arguments were refused"),
    };
    assert_eq!(cli.args(), &["lc3-vm".to_string(), "a.obj".to_string(), "b.obj".to_string()]);
}

#[test]
fn image_words_are_little_endian_from_origin() {
    let mut m = Memory::new();
    // origin 0x3000, then words 0x1234 and 0xABCD
    load_image(&[0x00, 0x30, 0x34, 0x12, 0xCD, 0xAB], &mut m);
    assert_eq!(m.raw()[0x3000], 0x1234);
    assert_eq!(m.raw()[0x3001], 0xABCD);
    assert_eq!(m.raw()[0x2FFF], 0);
    assert_eq!(m.raw()[0x3002], 0);
}

#[test]
fn image_with_origin_only_changes_nothing() {
    let mut m = Memory::new();
    m.memory_write(0x3000, 5);
    load_image(&[0x00, 0x30], &mut m);
    assert_eq!(m.raw()[0x3000], 5);
}

#[test]
fn image_wraps_at_end_of_memory() {
    let mut m = Memory::new();
    load_image(&[0xFF, 0xFF, 0x01, 0x00, 0x02, 0x00], &mut m);
    assert_eq!(m.raw()[0xFFFF], 1);
    assert_eq!(m.raw()[0x0000], 2);
}

#[test]
fn oversized_image_last_word_wins() {
    let mut m = Memory::new();
    let mut image = vec![0x00, 0x10];
    for i in 0..65537u32 {
        let w = (i % 65536) as u16 ^ 0x5A5A;
        image.push((w & 0xFF) as u8);
        image.push((w >> 8) as u8);
    }
    // the word after a full lap overwrites the first one
    image.push(0x77);
    image.push(0x66);
    load_image(&image, &mut m);
    assert_eq!(m.raw()[0x1000], 0x5A5A);
    assert_eq!(m.raw()[0x1001], 0x6677);
    assert_eq!(m.raw()[0x1002], 2 ^ 0x5A5A);
}
