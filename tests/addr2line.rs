use tricore_probe::addr2line::{address_text, Addr2LineError, Addr2LineRegistry};

fn registry() -> Addr2LineRegistry {
    Addr2LineRegistry::new("fw.elf".to_string())
}

#[test]
fn loaded_batch_resolves_by_position() {
    let mut r = registry();
    let out = b"f1\nm1.c:1\nf2\nm2.c:2\nf3\nm3.c:3\n";
    r.load(&vec![0x10, 0x20, 0x30], out).unwrap();
    let info = r.get_address_info(0x20, b"").unwrap();
    assert_eq!(info.function, "f2");
    assert_eq!(info.module, "m2.c:2");
    let info = r.cached_info(0x10).unwrap();
    assert_eq!(info.function, "f1");
    let info = r.cached_info(0x30).unwrap();
    assert_eq!(info.module, "m3.c:3");
}

#[test]
fn five_lines_for_three_addresses_mismatch() {
    let mut r = registry();
    let out = b"f1\nm1\nf2\nm2\nf3\n";
    assert_eq!(
        r.load(&vec![1, 2, 3], out),
        Err(Addr2LineError::DecoderOutputMismatch { requested: 3, lines: 5 })
    );
    assert_eq!(r.cached_info(1).err(), Some(Addr2LineError::UnresolvedAddress(1)));
    assert_eq!(r.cached_info(2).err(), Some(Addr2LineError::UnresolvedAddress(2)));
}

#[test]
fn mismatch_keeps_earlier_entries() {
    let mut r = registry();
    r.load(&vec![7], b"seven\ns.c\n").unwrap();
    assert!(r.load(&vec![7, 8], b"a\nb\nc\n").is_err());
    assert_eq!(r.cached_info(7).unwrap().function, "seven");
    assert!(r.cached_info(8).is_err());
}

#[test]
fn output_without_trailing_newline() {
    let mut r = registry();
    r.load(&vec![5], b"main\nmain.c").unwrap();
    let info = r.cached_info(5).unwrap();
    assert_eq!(info.function, "main");
    assert_eq!(info.module, "main.c");
}

#[test]
fn only_one_trailing_blank_line_dropped() {
    let mut r = registry();
    assert_eq!(
        r.load(&vec![5], b"main\nmain.c\n\n"),
        Err(Addr2LineError::DecoderOutputMismatch { requested: 1, lines: 3 })
    );
}

#[test]
fn empty_lines_inside_output_pair_up() {
    let mut r = registry();
    r.load(&vec![5, 6], b"??\n\nmain\n??:0\n").unwrap();
    assert_eq!(r.cached_info(5).unwrap().module, "");
    assert_eq!(r.cached_info(6).unwrap().module, "??:0");
}

#[test]
fn empty_batch_with_empty_output() {
    let mut r = registry();
    assert_eq!(r.load(&vec![], b""), Ok(()));
}

#[test]
fn non_text_output_is_decode_error() {
    let mut r = registry();
    let out = b"f1\nm1\nf\xff2\nm2\n";
    assert_eq!(r.load(&vec![1, 2], out), Err(Addr2LineError::DecodeError));
    assert!(r.cached_info(1).is_err());
}

#[test]
fn utf8_names_are_decoded() {
    let mut r = registry();
    r.load(&vec![1], "grüße\nß.c\n".as_bytes()).unwrap();
    assert_eq!(r.cached_info(1).unwrap().function, "grüße");
}

#[test]
fn repeated_address_takes_last_pair() {
    let mut r = registry();
    r.load(&vec![4, 4], b"a\nx\nb\ny\n").unwrap();
    assert_eq!(r.cached_info(4).unwrap().function, "b");
}

#[test]
fn unloaded_address_is_unresolved() {
    let r = registry();
    assert_eq!(r.cached_info(0x42).err(), Some(Addr2LineError::UnresolvedAddress(0x42)));
    assert_eq!(r.elf_file(), "fw.elf");
}

#[test]
fn second_load_extends_cache() {
    let mut r = registry();
    r.load(&vec![1], b"one\n1.c\n").unwrap();
    r.load(&vec![2], b"two\n2.c\n").unwrap();
    assert_eq!(r.cached_info(1).unwrap().function, "one");
    assert_eq!(r.cached_info(2).unwrap().function, "two");
}

#[test]
fn address_argument_is_upper_case_hex() {
    assert_eq!(address_text(0x8000_104a), "0x8000104A");
    assert_eq!(address_text(0), "0x0");
    assert_eq!(address_text(0xf), "0xF");
    assert_eq!(address_text(0x10), "0x10");
    assert_eq!(address_text(0xffff_ffff), "0xFFFFFFFF");
}

#[test]
fn decoder_arguments_for_batch() {
    let r = registry();
    let args = r.decoder_arguments(&vec![0x8000_1040, 0xabc]);
    assert_eq!(args, vec!["-e", "fw.elf", "-f", "-C", "0x80001040", "0xABC"]);
    assert_eq!(r.decoder_arguments(&vec![]), vec!["-e", "fw.elf", "-f", "-C"]);
}

#[test]
fn non_text_output_with_wrong_line_count_is_decode_error() {
    let mut r = registry();
    assert_eq!(r.load(&vec![1], b"\xff"), Err(Addr2LineError::DecodeError));
    assert_eq!(r.load(&vec![1, 2, 3], b"f\xff\nm\n"), Err(Addr2LineError::DecodeError));
    assert!(r.cached_info(1).is_err());
}

#[test]
fn get_address_info_uses_cache_first() {
    let mut r = registry();
    r.load(&vec![9], b"nine\n9.c\n").unwrap();
    let info = r.get_address_info(9, b"other\nx.c\n").unwrap();
    assert_eq!(info.function, "nine");
    assert_eq!(r.cached_info(9).unwrap().module, "9.c");
}

#[test]
fn get_address_info_loads_on_miss() {
    let mut r = registry();
    let info = r.get_address_info(0x30, b"f3\nm3.c\n").unwrap();
    assert_eq!(info.function, "f3");
    assert_eq!(info.module, "m3.c");
    assert_eq!(r.cached_info(0x30).unwrap().function, "f3");
}

#[test]
fn get_address_info_reports_load_failure() {
    let mut r = registry();
    assert_eq!(
        r.get_address_info(0x30, b"f3\n").err(),
        Some(Addr2LineError::DecoderOutputMismatch { requested: 1, lines: 1 })
    );
    assert!(r.cached_info(0x30).is_err());
}
