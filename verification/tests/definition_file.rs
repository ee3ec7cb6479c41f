use katamari_ffi::ui::definition_file::grammar::{Context, Label};
use katamari_ffi::ui::definition_file::{DefinitionFile, Field, FieldPos, FieldType};

#[test]
fn parse_line() {
    let input = "x40 [vec4; 4] foo ;bar";
    let parsed = katamari_ffi::ui::definition_file::parse_line(input).unwrap();
    assert_eq!(
        parsed,
        Field {
            position: FieldPos::new(0x40),
            field_type: FieldType::Array(Box::new(FieldType::Vec4), 4),
            name: Some("foo".into()),
        },
    );
}

#[test]
fn parse_section() {
    let input = r#"
            [katamari]
            x40 vec4 position
            
            x50 [mat4; 8] 'the \'guys\'' ; why are there so many
            ; here be dragons
            x254 f32
            x25c addr ; what does he point to

            
        "#;
    let parsed = katamari_ffi::ui::definition_file::parse_section(input)
        .inspect_err(|e| println!("{}", e.message()))
        .unwrap();
    let expected = vec![
        Field {
            position: FieldPos::new(0x40),
            field_type: FieldType::Vec4,
            name: Some("position".into()),
        },
        Field {
            position: FieldPos::new(0x50),
            field_type: FieldType::Array(FieldType::Mat4.into(), 8),
            name: Some("the 'guys'".into()),
        },
        Field {
            position: FieldPos::new(0x254),
            field_type: FieldType::Float,
            name: None,
        },
        Field {
            position: FieldPos::new(0x25c),
            field_type: FieldType::Address,
            name: None,
        },
    ];
    assert_eq!(parsed, ("katamari".to_string(), expected));
}

#[test]
fn parse_document() {
    let input = r#"
            [katamari]
            x40 vec4 position
            
            x50 [mat4; 8] 'the \'guys\'' ; why are there so many
            ; here be dragons

            [prince]
            x254 f32
            x25c addr ; what does he point to
        "#;
    let parsed = katamari_ffi::ui::definition_file::parse_document(input)
        .inspect_err(|e| println!("{}", e.message()))
        .unwrap();
    let expected = DefinitionFile {
        katamari: vec![
            Field {
                position: FieldPos::new(0x40),
                field_type: FieldType::Vec4,
                name: Some("position".into()),
            },
            Field {
                position: FieldPos::new(0x50),
                field_type: FieldType::Array(FieldType::Mat4.into(), 8),
                name: Some("the 'guys'".into()),
            },
        ],
        prince: vec![
            Field {
                position: FieldPos::new(0x254),
                field_type: FieldType::Float,
                name: None,
            },
            Field {
                position: FieldPos::new(0x25c),
                field_type: FieldType::Address,
                name: None,
            },
        ],
        ..Default::default()
    };
    assert_eq!(parsed, expected);
}

#[test]
fn field_offset_err() {
    let input = r#"
            [prince]
            ; foo

            [global]
            x153150 ptr
            x7a050 f32
            x7a054 f32
            x7a058 f32
            xd35380 ptr
            x10EB18 u32 'CLIMB SUSTAIN LIMIT'
            ×10eac8 i16 'dust cooldown'

            [camera_transform]
            ; foo
        "#;
    let err = katamari_ffi::ui::definition_file::parse_document(input).unwrap_err();
    assert_eq!(err.offset(), err.input().find('×').unwrap());
    assert!(
        err.context()
            .iter()
            .any(|c| *c == Context::Label(Label::FieldAddress))
    );
}

#[test]
fn field_name_err() {
    let input = r#"
            [prince]
            ; foo
            x10 u8 foo

            [thing]
            x3b8+8 ptr "full machine
            x90 vec4 position
            xa0 vec4 rotation

            [camera_transform]
            ; foo
        "#;
    let err = katamari_ffi::ui::definition_file::parse_document(input).unwrap_err();
    let msg = err.message();
    println!("{msg}");
    assert!(msg.contains("invalid field name"));
    assert!(msg.contains("expected `\"`"));
}
