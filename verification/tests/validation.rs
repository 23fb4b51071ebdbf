use slinky::{AbsentNullable, FileInfoSerial, FileKind, KeepSections, Settings, SlinkyError};

fn serial() -> FileInfoSerial {
    FileInfoSerial {
        path: AbsentNullable::Absent,
        kind: AbsentNullable::Absent,
        subfile: AbsentNullable::Absent,
        pad_amount: AbsentNullable::Absent,
        section: AbsentNullable::Absent,
        linker_offset_name: AbsentNullable::Absent,
        section_order: AbsentNullable::Absent,
        dir: AbsentNullable::Absent,
        files: AbsentNullable::Absent,
        keep_sections: AbsentNullable::Absent,
        exclude_if_any: AbsentNullable::Absent,
        exclude_if_all: AbsentNullable::Absent,
        include_if_any: AbsentNullable::Absent,
        include_if_all: AbsentNullable::Absent,
    }
}

fn combo(field1: &str, field2: &str) -> SlinkyError {
    SlinkyError::InvalidFieldCombo { field1: field1.to_string(), field2: field2.to_string() }
}

#[test]
fn object_with_only_legal_fields_succeeds() {
    let mut s = serial();
    s.kind = AbsentNullable::Value(FileKind::Object);
    s.path = AbsentNullable::Value("main.o".to_string());
    let f = s.unserialize(&Settings::new_default()).unwrap();
    assert_eq!(f.kind, FileKind::Object);
    assert_eq!(f.path, "main.o");
    assert_eq!(f.subfile, "*");
    assert_eq!(f.pad_amount, 0);
    assert_eq!(f.section, "");
    assert_eq!(f.linker_offset_name, "");
    assert!(f.section_order.is_empty());
    assert_eq!(f.dir, "");
    assert!(f.files.is_empty());
    assert_eq!(f.keep_sections, KeepSections::Absent);
}

#[test]
fn archive_with_only_legal_fields_succeeds() {
    let mut s = serial();
    s.kind = AbsentNullable::Value(FileKind::Archive);
    s.path = AbsentNullable::Value("libgcc.a".to_string());
    s.subfile = AbsentNullable::Value("div.o".to_string());
    s.section_order = AbsentNullable::Value(vec![(".data".to_string(), ".rodata".to_string())]);
    let f = s.unserialize(&Settings::new_default()).unwrap();
    assert_eq!(f.kind, FileKind::Archive);
    assert_eq!(f.subfile, "div.o");
    assert_eq!(f.section_order.len(), 1);
}

#[test]
fn pad_with_only_legal_fields_succeeds() {
    let mut s = serial();
    s.kind = AbsentNullable::Value(FileKind::Pad);
    s.pad_amount = AbsentNullable::Value(16);
    s.section = AbsentNullable::Value(".text".to_string());
    let f = s.unserialize(&Settings::new_default()).unwrap();
    assert_eq!(f.kind, FileKind::Pad);
    assert_eq!(f.pad_amount, 16);
    assert_eq!(f.section, ".text");
    assert_eq!(f.path, "");
}

#[test]
fn linker_offset_with_only_legal_fields_succeeds() {
    let mut s = serial();
    s.kind = AbsentNullable::Value(FileKind::LinkerOffset);
    s.section = AbsentNullable::Value(".text".to_string());
    s.linker_offset_name = AbsentNullable::Value("mid".to_string());
    let f = s.unserialize(&Settings::new_default()).unwrap();
    assert_eq!(f.kind, FileKind::LinkerOffset);
    assert_eq!(f.linker_offset_name, "mid");
}

#[test]
fn group_with_only_legal_fields_succeeds() {
    let mut child = serial();
    child.path = AbsentNullable::Value("boot.o".to_string());
    let child = child.unserialize(&Settings::new_default()).unwrap();
    let mut s = serial();
    s.kind = AbsentNullable::Value(FileKind::Group);
    s.dir = AbsentNullable::Value("sub".to_string());
    s.files = AbsentNullable::Value(vec![child]);
    let f = s.unserialize(&Settings::new_default()).unwrap();
    assert_eq!(f.kind, FileKind::Group);
    assert_eq!(f.dir, "sub");
    assert_eq!(f.files.len(), 1);
}

#[test]
fn object_rejects_subfile() {
    let mut s = serial();
    s.kind = AbsentNullable::Value(FileKind::Object);
    s.path = AbsentNullable::Value("a.o".to_string());
    s.subfile = AbsentNullable::Value("x".to_string());
    let e = s.unserialize(&Settings::new_default()).unwrap_err();
    assert_eq!(e, combo("subfile", "non `kind: archive`"));
}

#[test]
fn object_rejects_pad_amount() {
    let mut s = serial();
    s.kind = AbsentNullable::Value(FileKind::Object);
    s.path = AbsentNullable::Value("a.o".to_string());
    s.pad_amount = AbsentNullable::Value(4);
    let e = s.unserialize(&Settings::new_default()).unwrap_err();
    assert_eq!(e, combo("pad_amount", "non `kind: pad`"));
}

#[test]
fn object_rejects_section() {
    let mut s = serial();
    s.kind = AbsentNullable::Value(FileKind::Object);
    s.path = AbsentNullable::Value("a.o".to_string());
    s.section = AbsentNullable::Value(".text".to_string());
    let e = s.unserialize(&Settings::new_default()).unwrap_err();
    assert_eq!(e, combo("section", "non `kind: pad or kind: linker_offset`"));
}

#[test]
fn object_rejects_linker_offset_name() {
    let mut s = serial();
    s.kind = AbsentNullable::Value(FileKind::Object);
    s.path = AbsentNullable::Value("a.o".to_string());
    s.linker_offset_name = AbsentNullable::Value("x".to_string());
    let e = s.unserialize(&Settings::new_default()).unwrap_err();
    assert_eq!(e, combo("linker_offset_name", "non `kind: linker_offset`"));
}

#[test]
fn object_rejects_dir_and_files() {
    let mut s = serial();
    s.kind = AbsentNullable::Value(FileKind::Object);
    s.path = AbsentNullable::Value("a.o".to_string());
    s.dir = AbsentNullable::Value("sub".to_string());
    let e = s.unserialize(&Settings::new_default()).unwrap_err();
    assert_eq!(e, combo("dir", "non `kind: group`"));

    let mut s = serial();
    s.kind = AbsentNullable::Value(FileKind::Object);
    s.path = AbsentNullable::Value("a.o".to_string());
    s.files = AbsentNullable::Value(vec![]);
    let e = s.unserialize(&Settings::new_default()).unwrap_err();
    assert_eq!(e, combo("files", "non `kind: group`"));
}

#[test]
fn archive_rejects_pad_amount_section_and_offset_name() {
    let mut s = serial();
    s.kind = AbsentNullable::Value(FileKind::Archive);
    s.path = AbsentNullable::Value("a.a".to_string());
    s.pad_amount = AbsentNullable::Value(4);
    assert_eq!(
        s.unserialize(&Settings::new_default()).unwrap_err(),
        combo("pad_amount", "non `kind: pad`")
    );

    let mut s = serial();
    s.kind = AbsentNullable::Value(FileKind::Archive);
    s.path = AbsentNullable::Value("a.a".to_string());
    s.section = AbsentNullable::Value(".text".to_string());
    assert_eq!(
        s.unserialize(&Settings::new_default()).unwrap_err(),
        combo("section", "non `kind: pad or kind: linker_offset`")
    );

    let mut s = serial();
    s.kind = AbsentNullable::Value(FileKind::Archive);
    s.path = AbsentNullable::Value("a.a".to_string());
    s.linker_offset_name = AbsentNullable::Value("x".to_string());
    assert_eq!(
        s.unserialize(&Settings::new_default()).unwrap_err(),
        combo("linker_offset_name", "non `kind: linker_offset`")
    );
}

#[test]
fn pad_rejects_path_subfile_offset_name_and_section_order() {
    let mut s = serial();
    s.kind = AbsentNullable::Value(FileKind::Pad);
    s.path = AbsentNullable::Value("a.o".to_string());
    assert_eq!(
        s.unserialize(&Settings::new_default()).unwrap_err(),
        combo("kind: pad or kind: linker_offset", "path")
    );

    let mut s = serial();
    s.kind = AbsentNullable::Value(FileKind::Pad);
    s.subfile = AbsentNullable::Value("x".to_string());
    assert_eq!(
        s.unserialize(&Settings::new_default()).unwrap_err(),
        combo("subfile", "non `kind: archive`")
    );

    let mut s = serial();
    s.kind = AbsentNullable::Value(FileKind::Pad);
    s.pad_amount = AbsentNullable::Value(4);
    s.section = AbsentNullable::Value(".text".to_string());
    s.linker_offset_name = AbsentNullable::Value("x".to_string());
    assert_eq!(
        s.unserialize(&Settings::new_default()).unwrap_err(),
        combo("linker_offset_name", "non `kind: linker_offset`")
    );

    let mut s = serial();
    s.kind = AbsentNullable::Value(FileKind::Pad);
    s.pad_amount = AbsentNullable::Value(4);
    s.section = AbsentNullable::Value(".text".to_string());
    s.section_order = AbsentNullable::Value(vec![]);
    assert_eq!(
        s.unserialize(&Settings::new_default()).unwrap_err(),
        combo("section_order", "non `kind: object` or `kind: archive`")
    );
}

#[test]
fn linker_offset_rejects_path_and_pad_amount() {
    let mut s = serial();
    s.kind = AbsentNullable::Value(FileKind::LinkerOffset);
    s.path = AbsentNullable::Value("a.o".to_string());
    assert_eq!(
        s.unserialize(&Settings::new_default()).unwrap_err(),
        combo("kind: pad or kind: linker_offset", "path")
    );

    let mut s = serial();
    s.kind = AbsentNullable::Value(FileKind::LinkerOffset);
    s.pad_amount = AbsentNullable::Value(4);
    assert_eq!(
        s.unserialize(&Settings::new_default()).unwrap_err(),
        combo("pad_amount", "non `kind: pad`")
    );
}

#[test]
fn group_rejects_path_section_and_section_order() {
    let mut s = serial();
    s.kind = AbsentNullable::Value(FileKind::Group);
    s.path = AbsentNullable::Value("a.o".to_string());
    assert_eq!(s.unserialize(&Settings::new_default()).unwrap_err(), combo("kind: group", "path"));

    let mut s = serial();
    s.kind = AbsentNullable::Value(FileKind::Group);
    s.section = AbsentNullable::Value(".text".to_string());
    assert_eq!(
        s.unserialize(&Settings::new_default()).unwrap_err(),
        combo("section", "non `kind: pad or kind: linker_offset`")
    );

    let mut s = serial();
    s.kind = AbsentNullable::Value(FileKind::Group);
    s.section_order = AbsentNullable::Value(vec![]);
    assert_eq!(
        s.unserialize(&Settings::new_default()).unwrap_err(),
        combo("section_order", "non `kind: object` or `kind: archive`")
    );
}

#[test]
fn kind_inference_archive_suffix() {
    let mut s = serial();
    s.path = AbsentNullable::Value("libs/libgcc.a".to_string());
    let f = s.unserialize(&Settings::new_default()).unwrap();
    assert_eq!(f.kind, FileKind::Archive);
    assert_eq!(f.subfile, "*");
}

#[test]
fn kind_inference_defaults_to_object() {
    let mut s = serial();
    s.path = AbsentNullable::Value("src/main.o".to_string());
    let f = s.unserialize(&Settings::new_default()).unwrap();
    assert_eq!(f.kind, FileKind::Object);

    let mut s = serial();
    s.path = AbsentNullable::Value("strange.bin".to_string());
    let f = s.unserialize(&Settings::new_default()).unwrap();
    assert_eq!(f.kind, FileKind::Object);
}

#[test]
fn from_path_inference() {
    assert_eq!(FileKind::from_path("x/y.a"), FileKind::Archive);
    assert_eq!(FileKind::from_path("x/y.o"), FileKind::Object);
    assert_eq!(FileKind::from_path("noext"), FileKind::Object);
    assert_eq!(FileKind::from_path(".a"), FileKind::Archive);
}

#[test]
fn missing_and_empty_path_errors() {
    let s = serial();
    let e = s.unserialize(&Settings::new_default()).unwrap_err();
    assert_eq!(e, SlinkyError::MissingValue { name: "path".to_string() });

    let mut s = serial();
    s.path = AbsentNullable::Value(String::new());
    let e = s.unserialize(&Settings::new_default()).unwrap_err();
    assert_eq!(e, SlinkyError::EmptyValue { name: "path".to_string() });

    let mut s = serial();
    s.kind = AbsentNullable::Value(FileKind::Object);
    s.path = AbsentNullable::Value(String::new());
    let e = s.unserialize(&Settings::new_default()).unwrap_err();
    assert_eq!(e, SlinkyError::EmptyValue { name: "path".to_string() });
}

#[test]
fn null_kind_is_missing_value() {
    let mut s = serial();
    s.kind = AbsentNullable::Null;
    s.path = AbsentNullable::Value("a.o".to_string());
    let e = s.unserialize(&Settings::new_default()).unwrap_err();
    assert_eq!(e, SlinkyError::MissingValue { name: "kind".to_string() });
}

#[test]
fn pad_requires_pad_amount_and_section() {
    let mut s = serial();
    s.kind = AbsentNullable::Value(FileKind::Pad);
    let e = s.unserialize(&Settings::new_default()).unwrap_err();
    assert_eq!(e, SlinkyError::MissingValue { name: "pad_amount".to_string() });

    let mut s = serial();
    s.kind = AbsentNullable::Value(FileKind::Pad);
    s.pad_amount = AbsentNullable::Value(8);
    let e = s.unserialize(&Settings::new_default()).unwrap_err();
    assert_eq!(e, SlinkyError::MissingValue { name: "section".to_string() });
}

#[test]
fn validation_checks_run_in_fixed_order() {
    // subfile is resolved before pad_amount, so its fault is reported first.
    let mut s = serial();
    s.kind = AbsentNullable::Value(FileKind::Pad);
    s.subfile = AbsentNullable::Value("x".to_string());
    s.pad_amount = AbsentNullable::Value(4);
    s.section = AbsentNullable::Value(".text".to_string());
    s.linker_offset_name = AbsentNullable::Value("y".to_string());
    assert_eq!(
        s.unserialize(&Settings::new_default()).unwrap_err(),
        combo("subfile", "non `kind: archive`")
    );
}

#[test]
fn archive_null_subfile_is_missing_value() {
    let mut s = serial();
    s.kind = AbsentNullable::Value(FileKind::Archive);
    s.path = AbsentNullable::Value("a.a".to_string());
    s.subfile = AbsentNullable::Null;
    let e = s.unserialize(&Settings::new_default()).unwrap_err();
    assert_eq!(e, SlinkyError::MissingValue { name: "subfile".to_string() });
}
