use tricore_probe::trap_info::{ElfSymbol, TrapError, TrapMetadata};

fn sym(name: &str, value: u64) -> ElfSymbol {
    ElfSymbol { name: Some(name.as_bytes().to_vec()), value }
}

#[test]
fn trap_class_at_table_start_is_zero() {
    let m = TrapMetadata::new(0x8000_1000);
    assert_eq!(m.trap_class(0x8000_1000), Some(0));
}

#[test]
fn trap_class_is_offset_over_entry_size() {
    let m = TrapMetadata::new(0x8000_1000);
    assert_eq!(m.trap_class(0x8000_1040), Some(2));
    assert_eq!(m.trap_class(0x8000_101f), Some(0));
    assert_eq!(m.trap_class(0x8000_1020), Some(1));
    assert_eq!(m.trap_class(0x8000_10e4), Some(7));
}

#[test]
fn trap_class_last_byte_of_table_is_seven() {
    let m = TrapMetadata::new(0x8000_1000);
    assert_eq!(m.trap_class(0x8000_10ff), Some(7));
}

#[test]
fn trap_class_end_of_table_is_none() {
    let m = TrapMetadata::new(0x8000_1000);
    assert_eq!(m.trap_class(0x8000_1100), None);
    assert_eq!(m.trap_class(0xffff_ffff), None);
}

#[test]
fn trap_class_below_table_is_none() {
    let m = TrapMetadata::new(0x8000_1000);
    assert_eq!(m.trap_class(0x8000_0fff), None);
    assert_eq!(m.trap_class(0), None);
}

#[test]
fn trap_class_table_at_top_of_address_space() {
    let m = TrapMetadata::new(0xffff_ff80);
    assert_eq!(m.trap_class(0xffff_ffff), Some(3));
}

#[test]
fn symbol_table_first_trap_table_found() {
    let symbols = vec![
        ElfSymbol { name: None, value: 5 },
        sym("main", 0x8000_2000),
        sym("first_trap_table", 0x8000_1000),
        sym("first_trap_table", 0x9000_0000),
    ];
    let m = TrapMetadata::from_symbol_table(&symbols).unwrap();
    assert_eq!(m.trap_symbol, 0x8000_1000);
}

#[test]
fn symbol_table_without_trap_symbol() {
    let symbols = vec![sym("main", 0x8000_2000), sym("first_trap_tabl", 1), sym("first_trap_table_", 2)];
    assert_eq!(TrapMetadata::from_symbol_table(&symbols).err(), Some(TrapError::MissingTrapSymbol));
    assert_eq!(TrapMetadata::from_symbol_table(&Vec::new()).err(), Some(TrapError::MissingTrapSymbol));
}

#[test]
fn symbol_table_trap_symbol_too_large() {
    let symbols = vec![sym("first_trap_table", 0x1_0000_0000)];
    assert_eq!(
        TrapMetadata::from_symbol_table(&symbols).err(),
        Some(TrapError::TrapSymbolOutOfRange)
    );
}

