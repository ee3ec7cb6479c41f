use katamari_ffi::ui::definition_file::grammar::{Context, Label};
use katamari_ffi::ui::definition_file::{
    parse_document, parse_line, parse_section, DefinitionFile, Field, FieldPos, FieldType,
};
use katamari_ffi::ui::widgets::{identify_addr, ArrayRegion, Section, WithDefinitions};
use katamari_ffi::ui::{reload_due, thing_named, thing_selected};

fn field(base: isize, field_type: FieldType, name: Option<&str>) -> Field {
    Field { position: FieldPos::new(base), field_type, name: name.map(String::from) }
}

#[test]
fn field_pos_constructors() {
    let p = FieldPos::new(0x3b8);
    assert_eq!(p, FieldPos { base: 0x3b8, offset: None });
    assert_eq!(p.with_offset(8), FieldPos { base: 0x3b8, offset: Some(8) });
}

#[test]
fn sizes_of_field_types() {
    assert_eq!(FieldType::Bool.size(), 1);
    assert_eq!(FieldType::Int8 { signed: true }.size(), 1);
    assert_eq!(FieldType::Int16 { signed: false }.size(), 2);
    assert_eq!(FieldType::Int32 { signed: true }.size(), 4);
    assert_eq!(FieldType::Float.size(), 4);
    assert_eq!(FieldType::Int64 { signed: false }.size(), 8);
    assert_eq!(FieldType::Address.size(), 8);
    assert_eq!(FieldType::Vec4.size(), 16);
    assert_eq!(FieldType::Mat4.size(), 64);
    assert_eq!(FieldType::MotionVectors.size(), 208);
    assert_eq!(FieldType::Array(Box::new(FieldType::Mat4), 8).size(), 512);
    let nested = FieldType::Array(Box::new(FieldType::Array(Box::new(FieldType::Int16 { signed: true }), 3)), 4);
    assert_eq!(nested.size(), 24);
    assert_eq!(FieldType::Array(Box::new(FieldType::Vec4), 0).size(), 0);
}

#[test]
fn field_labels() {
    assert_eq!(field(0x40, FieldType::Vec4, Some("position")).label(), "position");
    assert_eq!(field(0x40, FieldType::Vec4, None).label(), "0x40");
    assert_eq!(field(0, FieldType::Bool, None).label(), "0x0");
    assert_eq!(field(0x25c, FieldType::Address, None).label(), "0x25c");
    assert_eq!(field(-1, FieldType::Bool, None).label(), "0xffffffffffffffff");
}

#[test]
fn field_start_bounds() {
    let f = field(0x10, FieldType::Float, None);
    assert!(f.starts_within(0x11));
    assert!(!f.starts_within(0x10));
    assert!(!field(-4, FieldType::Float, None).starts_within(100));
}

const KATAMARIS: ArrayRegion = ArrayRegion { name: "KATAMARI", base: 0x1000, elem_size: 0x100, count: 2 };
const THINGS: ArrayRegion = ArrayRegion { name: "THINGS", base: 0x8000, elem_size: 0x20, count: 4000 };

#[test]
fn child_of_array() {
    assert_eq!(KATAMARIS.check_for_child(0x1000), Some((0, 0)));
    assert_eq!(KATAMARIS.check_for_child(0x1105), Some((1, 5)));
    assert_eq!(KATAMARIS.check_for_child(0x11ff), Some((1, 0xff)));
    assert_eq!(KATAMARIS.check_for_child(0x1200), None);
    assert_eq!(KATAMARIS.check_for_child(0xfff), None);
}

#[test]
fn address_descriptions() {
    let arrays = [KATAMARIS, THINGS];
    let dll = 0x10_0000;
    assert_eq!(identify_addr(0x1000, 0x100, 0, &arrays, dll), "NULL");
    assert_eq!(identify_addr(0x1000, 0x100, 0x1010, &arrays, dll), "self + 0x10");
    assert_eq!(identify_addr(0x5000, 0x100, 0x1010, &arrays, dll), "KATAMARI[0] + 0x10");
    assert_eq!(identify_addr(0x5000, 0x100, 0x8000 + 0x20 * 17 + 3, &arrays, dll), "THINGS[17] + 0x3");
    assert_eq!(identify_addr(0x5000, 0x100, 0x10_abcd, &arrays, dll), "DLL + 0xABCD");
    assert_eq!(identify_addr(0x5000, 0x100, 0x4321, &arrays, dll), "0x4321");
}

#[test]
fn sections_of_a_file() {
    let defs = DefinitionFile {
        katamari: vec![field(0x40, FieldType::Vec4, Some("position"))],
        prince: vec![field(0x254, FieldType::Float, None)],
        thing: vec![],
        camera: vec![field(0x10, FieldType::Mat4, None), field(0x50, FieldType::Bool, None)],
        camera_transform: vec![field(1, FieldType::Bool, None)],
        global: vec![],
    };
    assert_eq!(defs.section(Section::Katamari), &defs.katamari[..]);
    assert_eq!(defs.section(Section::Prince), &defs.prince[..]);
    assert_eq!(defs.section(Section::Camera).len(), 2);
    assert!(defs.section(Section::Thing).is_empty());
    let w = WithDefinitions::new(7u32, &defs);
    assert_eq!(w.0, 7);
    assert_eq!(w.definitions(), &defs);
}

#[test]
fn reload_timing() {
    assert!(!reload_due(None));
    assert!(!reload_due(Some(0)));
    assert!(!reload_due(Some(2_000_000_000)));
    assert!(reload_due(Some(2_000_000_001)));
}

#[test]
fn thing_panel_bounds() {
    assert!(thing_selected(0));
    assert!(thing_selected(3999));
    assert!(!thing_selected(4000));
    assert!(!thing_selected(u16::MAX));
    assert!(thing_named(1717));
    assert!(!thing_named(1718));
}

#[test]
fn line_with_offset_and_quoted_name() {
    let parsed = parse_line("  x3b8+8 ptr \"full machine\" ; note").unwrap();
    assert_eq!(
        parsed,
        Field {
            position: FieldPos::new(0x3b8).with_offset(8),
            field_type: FieldType::Address,
            name: Some("full machine".into()),
        }
    );
}

#[test]
fn every_type_spelling() {
    let cases: Vec<(&str, FieldType)> = vec![
        ("f32", FieldType::Float),
        ("vec4", FieldType::Vec4),
        ("Vec4", FieldType::Vec4),
        ("mat4", FieldType::Mat4),
        ("Mat4", FieldType::Mat4),
        ("bool", FieldType::Bool),
        ("i8", FieldType::Int8 { signed: true }),
        ("u16", FieldType::Int16 { signed: false }),
        ("i32", FieldType::Int32 { signed: true }),
        ("u64", FieldType::Int64 { signed: false }),
        ("addr", FieldType::Address),
        ("ptr", FieldType::Address),
        ("@motion_vectors", FieldType::MotionVectors),
        ("[u8;3]", FieldType::Array(Box::new(FieldType::Int8 { signed: false }), 3)),
        ("[[f32; 2]; 0]", FieldType::Array(Box::new(FieldType::Array(Box::new(FieldType::Float), 2)), 0)),
    ];
    for (spelling, t) in cases {
        let line = format!("x10 {spelling}");
        assert_eq!(parse_line(&line).unwrap(), field(0x10, t, None), "{spelling}");
    }
}

#[test]
fn escaped_quotes_in_names() {
    let parsed = parse_line(r#"x8 u8 "say \"hi\" \\ bye""#).unwrap();
    assert_eq!(parsed.name.as_deref(), Some(r#"say "hi" \ bye"#));
}

#[test]
fn line_errors() {
    let err = parse_line("y40 f32").unwrap_err();
    assert_eq!(err.position(), 0);
    assert_eq!(err.context(), &[Context::Label(Label::FieldAddress), Context::Label(Label::Line)]);
    assert_eq!(err.message(), "y40 f32\n^\ninvalid field address");

    let err = parse_line("x40 q32").unwrap_err();
    assert_eq!(err.position(), 5);
    assert_eq!(err.message(), "x40 q32\n     ^\ninvalid field type");

    let err = parse_line("x10 u8 'abc").unwrap_err();
    assert_eq!(err.position(), 11);
    assert_eq!(err.message(), "x10 u8 'abc\n           ^\ninvalid field name\nexpected `'`");
}

#[test]
fn document_error_reports_line_and_column() {
    let input = "[prince]\nx10 u8 foo\nzz\n";
    let err = parse_document(input).unwrap_err();
    assert_eq!(err.position(), 20);
    assert_eq!(err.offset(), 20);
    assert_eq!(
        err.message(),
        "parse error at line 3, column 1\n  |\n3 | zz\n  | ^\ninvalid field address"
    );
}

#[test]
fn byte_offsets_count_utf8() {
    let input = "[global]\n× u8\n";
    let err = parse_document(input).unwrap_err();
    assert_eq!(err.position(), 9);
    assert_eq!(err.offset(), 9);
    let input = "[global]\n; ××\nq u8\n";
    let err = parse_document(input).unwrap_err();
    assert_eq!(err.position(), 14);
    assert_eq!(err.offset(), 16);
    assert_eq!(err.input(), input);
}

#[test]
fn unknown_section_refused() {
    let err = parse_document("[foo]\nx10 u8\n").unwrap_err();
    assert_eq!(err.position(), 0);
    assert!(err.context().is_empty());
}

#[test]
fn same_sections_concatenate() {
    let input = "[thing]\nx1 u8 a\n[camera]\nx2 u8\n[thing]\nx3 u8 c\n";
    let parsed = parse_document(input).unwrap();
    assert_eq!(
        parsed.thing,
        vec![
            field(1, FieldType::Int8 { signed: false }, Some("a")),
            field(3, FieldType::Int8 { signed: false }, Some("c")),
        ]
    );
    assert_eq!(parsed.camera, vec![field(2, FieldType::Int8 { signed: false }, None)]);
    assert!(parsed.katamari.is_empty());
}

#[test]
fn empty_document() {
    assert_eq!(parse_document("").unwrap(), DefinitionFile::default());
    // white space alone is no section and is left over
    let err = parse_document("\n\n  \n").unwrap_err();
    assert_eq!(err.position(), 0);
}

#[test]
fn section_with_blank_lines_and_crlf() {
    let (name, fields) = parse_section("[camera]\r\nx10 mat4 view\r\n\r\n; c\r\nx50 bool\r\n").unwrap();
    assert_eq!(name, "camera");
    assert_eq!(
        fields,
        vec![field(0x10, FieldType::Mat4, Some("view")), field(0x50, FieldType::Bool, None)]
    );
}

#[test]
fn checked_sizes() {
    assert_eq!(FieldType::Vec4.checked_size(), Some(16));
    assert_eq!(FieldType::Array(Box::new(FieldType::Mat4), 8).checked_size(), Some(512));
    let huge = FieldType::Array(Box::new(FieldType::Mat4), usize::MAX / 2);
    assert_eq!(huge.checked_size(), None);
    let nested = FieldType::Array(Box::new(huge), 0);
    assert_eq!(nested.checked_size(), None);
}

#[test]
fn spelled_line_reads_back() {
    let parsed = parse_line("x1a2b u16 speed").unwrap();
    assert_eq!(parsed, field(0x1a2b, FieldType::Int16 { signed: false }, Some("speed")));
    let wide = parse_line("xffffffffffffffff [bool; 2] flags").unwrap();
    assert_eq!(wide, field(-1, FieldType::Array(Box::new(FieldType::Bool), 2), Some("flags")));
}

#[test]
fn sections_in_either_order() {
    let a = parse_document("[camera]\nx2 u8\n[thing]\nx1 u8\n").unwrap();
    let b = parse_document("[thing]\nx1 u8\n[camera]\nx2 u8\n").unwrap();
    assert_eq!(a, b);
}

#[test]
fn single_line_caret_counts_bytes() {
    let err = parse_line("x10 ü8").unwrap_err();
    assert_eq!(err.position(), 5);
    assert_eq!(err.offset(), 6);
    assert_eq!(err.message(), "x10 ü8\n      ^\ninvalid field type");
}

#[test]
fn multi_line_column_counts_characters() {
    let err = parse_document("[prince]\nx10 ü8\n").unwrap_err();
    assert_eq!(
        err.message(),
        "parse error at line 2, column 6\n  |\n2 | x10 ü8\n  |      ^\ninvalid field type"
    );
}

#[test]
fn multi_line_column_at_a_wide_character_counts_bytes() {
    let err = parse_document("[prince]\nx10 üü\n").unwrap_err();
    assert_eq!(err.position(), 14);
    assert_eq!(
        err.message(),
        "parse error at line 2, column 7\n  |\n2 | x10 üü\n  |       ^\ninvalid field type"
    );
}

#[test]
fn error_at_end_of_input() {
    let err = parse_document("[prince]\nx10 u8 'abc").unwrap_err();
    assert_eq!(err.position(), 20);
    assert_eq!(
        err.message(),
        "parse error at line 2, column 12\n  |\n2 | x10 u8 'abc\n  |            ^\ninvalid field name\nexpected `'`"
    );
}
