use hx::array::{function_text, output_array, ArraySyntax};
use hx::dump::{append_ascii, hex_dump, print_byte, print_offset};
use hx::format::{byte_to_color, offset, Format};
use hx::page::{buf_to_array, Line, Page};

const ALL: [Format; 8] = [
    Format::Octal,
    Format::LowerHex,
    Format::UpperHex,
    Format::Pointer,
    Format::Binary,
    Format::LowerExp,
    Format::UpperExp,
    Format::Unknown,
];

fn rows(p: &Page) -> Vec<Vec<u8>> {
    p.body.iter().map(|l| l.hex_body.clone()).collect()
}

#[test]
fn tokens_with_prefix() {
    assert_eq!(Format::LowerHex.format(0xab, true), "0xab");
    assert_eq!(Format::UpperHex.format(0xab, true), "0XAB");
    assert_eq!(Format::Octal.format(255, true), "0o377");
    assert_eq!(Format::Binary.format(5, true), "0b00000101");
    assert_eq!(Format::Pointer.format(0xab, true), "0x00000000000000ab");
    assert_eq!(Format::LowerExp.format(171, true), "1.71e2");
    assert_eq!(Format::Unknown.format(7, true), "??");
}

#[test]
fn tokens_without_prefix() {
    assert_eq!(Format::LowerHex.format(0x0f, false), "0f");
    assert_eq!(Format::UpperHex.format(0xfe, false), "FE");
    assert_eq!(Format::Octal.format(8, false), "010");
    assert_eq!(Format::Binary.format(255, false), "11111111");
    assert_eq!(Format::Pointer.format(0, false), "0000000000000000");
    assert_eq!(Format::LowerExp.format(0, false), "0.00e0");
    assert_eq!(Format::LowerExp.format(10, false), "1.00e1");
    assert_eq!(Format::UpperExp.format(255, false), "2.55E2");
    assert_eq!(Format::UpperExp.format(7, false), "7.00E0");
}

#[test]
fn token_width_is_constant() {
    for f in ALL {
        for prefix in [false, true] {
            let w = f.format(0, prefix).len();
            for b in 0..=255u8 {
                assert_eq!(f.format(b, prefix).len(), w, "{:?} {} {}", f, b, prefix);
            }
        }
    }
}

#[test]
fn offsets() {
    assert_eq!(offset(0), "0x00000000");
    assert_eq!(offset(0x10), "0x00000010");
    assert_eq!(offset(0x123456789), "0x123456789");
    assert_eq!(offset(u64::MAX), "0xffffffffffffffff");
    let mut s = String::new();
    print_offset(&mut s, 255);
    assert_eq!(s, "0x000000ff: ");
}

#[test]
fn colors() {
    assert_eq!(byte_to_color(0), 0x16);
    assert_eq!(byte_to_color(1), 1);
    assert_eq!(byte_to_color(255), 255);
}

#[test]
fn colored_tokens_and_gutter() {
    let mut s = String::new();
    print_byte(&mut s, 0xab, Format::LowerHex, true, true);
    assert_eq!(s, "\x1b[38;5;171m0xab\x1b[0m ");
    let mut s = String::new();
    print_byte(&mut s, 0xab, Format::LowerHex, false, false);
    assert_eq!(s, "ab ");
    let mut g = String::new();
    append_ascii(&mut g, b'A', false);
    append_ascii(&mut g, 0, false);
    append_ascii(&mut g, 127, false);
    append_ascii(&mut g, b' ', false);
    append_ascii(&mut g, b'~', false);
    assert_eq!(g, "A.. ~");
    let mut g = String::new();
    append_ascii(&mut g, 0, true);
    assert_eq!(g, "\x1b[38;5;22m.\x1b[0m");
}

#[test]
fn new_rows_and_pages_are_empty() {
    let l = Line::new();
    assert_eq!(l.bytes, 0);
    assert!(l.hex_body.is_empty());
    let p = Page::new();
    assert_eq!(p.bytes, 0);
    assert!(p.body.is_empty());
}

#[test]
fn empty_input_gives_one_empty_row() {
    for len in [0u64, 1, 5] {
        for w in [0u64, 1, 16] {
            let p = buf_to_array(&[], len, w);
            assert_eq!(p.bytes, 0);
            assert_eq!(rows(&p), vec![Vec::<u8>::new()]);
        }
    }
}

#[test]
fn exact_multiple_ends_with_empty_row() {
    let data: Vec<u8> = (0..32).collect();
    let p = buf_to_array(&data, 0, 16);
    assert_eq!(p.bytes, 32);
    assert_eq!(p.body.len(), 3);
    assert!(p.body[2].hex_body.is_empty());
    assert_eq!(p.body[1].hex_body, (16..32).collect::<Vec<u8>>());
    assert_eq!(p.body[0].bytes, 16);
}

#[test]
fn partial_last_row() {
    let data: Vec<u8> = (0..10).collect();
    let p = buf_to_array(&data, 0, 4);
    assert_eq!(rows(&p), vec![vec![0, 1, 2, 3], vec![4, 5, 6, 7], vec![8, 9]]);
    assert_eq!(p.bytes, 10);
}

#[test]
fn truncation_bounds_the_page() {
    let data: Vec<u8> = (0..10).collect();
    let p = buf_to_array(&data, 5, 4);
    assert_eq!(rows(&p), vec![vec![0, 1, 2, 3], vec![4]]);
    assert_eq!(p.bytes, 5);
    let p = buf_to_array(&data, 8, 4);
    assert_eq!(rows(&p), vec![vec![0, 1, 2, 3], vec![4, 5, 6, 7], vec![]]);
    let p = buf_to_array(&data, 100, 4);
    assert_eq!(p.bytes, 10);
    for l in 0..12u64 {
        let p = buf_to_array(&data, l, 3);
        let expect = if l == 0 { 10 } else { l.min(10) };
        assert_eq!(p.bytes, expect);
        let sum: u64 = p.body.iter().map(|r| r.bytes).sum();
        assert_eq!(sum, expect);
    }
}

#[test]
fn zero_width_puts_each_byte_in_a_row() {
    let p = buf_to_array(&[7, 8, 9], 0, 0);
    assert_eq!(rows(&p), vec![vec![7], vec![8], vec![9], vec![]]);
}

#[test]
fn hex_dump_of_sixteen_bytes() {
    let data: Vec<u8> = (0..16).collect();
    let p = buf_to_array(&data, 0, 16);
    let out = hex_dump(&p, 16, Format::LowerHex, false, true);
    let mut first = String::from("0x00000000: ");
    for b in 0..16 {
        first.push_str(&format!("0x{:02x} ", b));
    }
    first.push_str("................\n");
    assert!(out.starts_with(&first));
    let second = format!("0x00000010: {}\n", " ".repeat(80));
    assert_eq!(out, format!("{}{}   bytes: 16\n", first, second));
}

#[test]
fn hex_dump_pads_short_rows() {
    let p = buf_to_array(b"Hi!", 0, 4);
    let out = hex_dump(&p, 4, Format::UpperHex, false, false);
    assert_eq!(out, "0x00000000: 48 69 21      Hi!\n   bytes: 3\n");
}

#[test]
fn rust_array_of_one_byte() {
    let p = buf_to_array(&[0xab], 0, 10);
    assert_eq!(output_array("r", &p), "let ARRAY: [u8; 1] = [\n    0xab\n];\n");
}

#[test]
fn array_syntaxes() {
    let p = buf_to_array(&[1, 2, 3], 0, 2);
    assert_eq!(output_array("c", &p), "unsigned char ARRAY[3] = {\n    0x01, 0x02, \n    0x03\n};\n");
    assert_eq!(output_array("g", &p), "a := [3]byte{\n    0x01, 0x02, \n    0x03, \n}\n");
    assert_eq!(output_array("p", &p), "a = [\n    0x01, 0x02, \n    0x03\n]\n");
    assert_eq!(output_array("k", &p), "val a = byteArrayOf(\n    0x01, 0x02, \n    0x03\n)\n");
    assert_eq!(output_array("j", &p), "byte[] a = new byte[]{\n    0x01, 0x02, \n    0x03\n};\n");
    assert_eq!(output_array("s", &p), "let a: [UInt8] = [\n    0x01, 0x02, \n    0x03\n]\n");
    assert_eq!(output_array("f", &p), "let a = [|\n    0x01uy; 0x02uy; \n    0x03uy\n|]\n");
}

#[test]
fn unknown_array_tag() {
    let p = buf_to_array(&[0xab], 0, 10);
    assert_eq!(output_array("z", &p), "unknown array format\n    0xab\nunknown array format\n");
    assert_eq!(output_array("rr", &p), "unknown array format\n    0xab\nunknown array format\n");
    assert_eq!(ArraySyntax::from_tag(""), ArraySyntax::Unknown);
    assert_eq!(ArraySyntax::from_tag("f"), ArraySyntax::FSharp);
}

#[test]
fn waveform_layout() {
    let values: Vec<String> = (0..10).map(|i| format!("0.{:02}", i * 10)).collect();
    let out = function_text(&values);
    assert_eq!(out, "0.00,0.10,0.20,0.30,0.40,0.50,0.60,0.70,0.80,0.90,\n\n");
    assert_eq!(out.matches(',').count(), 10);
    let values: Vec<String> = (0..12).map(|i| i.to_string()).collect();
    assert_eq!(function_text(&values), "0,1,2,3,4,5,6,7,8,9,\n10,11,\n");
    assert_eq!(function_text(&Vec::new()), "\n");
}
