use netproto::text::HexDumpPrint;

#[test]
fn hex_dump_of_nothing_is_a_line_break() {
    assert_eq!(HexDumpPrint(&[]).to_string(), "\n");
}

#[test]
fn hex_dump_shows_sixteen_bytes_to_a_row() {
    let bytes: Vec<u8> = (0..18u8).collect();
    let text = HexDumpPrint(&bytes).to_string();
    assert_eq!(
        text,
        "\n0000   00 01 02 03 04 05 06 07 08 09 0a 0b 0c 0d 0e 0f\n0010   10 11\n"
    );
}

#[test]
fn hex_dump_offsets_grow_past_four_digits() {
    let bytes = vec![0xffu8; 0x1_0001];
    let text = HexDumpPrint(&bytes).to_string();
    assert!(text.starts_with("\n0000   ff ff"));
    assert!(text.contains("\nfff0   ff"));
    assert!(text.ends_with("\n10000   ff\n"));
}
