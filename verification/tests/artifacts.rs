use slinky::{
    AssertEntry, Document, FileInfo, FileKind, KeepSections, LinkerWriter, RequiredSymbol,
    RuntimeSettings, Segment, Settings, SymbolAssignment,
};

fn object_file(path: &str) -> FileInfo {
    FileInfo {
        path: path.to_string(),
        kind: FileKind::Object,
        subfile: "*".to_string(),
        pad_amount: 0,
        section: String::new(),
        linker_offset_name: String::new(),
        section_order: vec![],
        dir: String::new(),
        files: vec![],
        keep_sections: KeepSections::Absent,
        exclude_if_any: vec![],
        exclude_if_all: vec![],
        include_if_any: vec![],
        include_if_all: vec![],
    }
}

fn archive_file(path: &str, subfile: &str) -> FileInfo {
    let mut f = object_file(path);
    f.kind = FileKind::Archive;
    f.subfile = subfile.to_string();
    f
}

fn strings(v: &[&str]) -> Vec<String> {
    v.iter().map(|s| s.to_string()).collect()
}

fn build_doc() -> Document {
    let mut settings = Settings::new_default();
    settings.hardcoded_gp_value = Some(0x80008000);
    settings.sections_denylist = strings(&[".mdebug"]);
    settings.discard_wildcard_section = true;
    settings.symbols_header_type = "u32".to_string();

    let mut seg = Segment::new("boot".to_string());
    seg.fixed_vram = Some(0x80000450);
    seg.segment_start_align = Some(16);
    seg.subalign = Some(8);
    seg.alloc_sections = strings(&[".text", ".data"]);
    seg.noload_sections = strings(&[".bss"]);
    seg.files = vec![object_file("boot.o"), archive_file("libc.a", "mem.o")];

    let mut doc = Document::new(settings);
    doc.segments = vec![seg];
    doc.entry = Some("entrypoint".to_string());
    doc.symbol_assignments = vec![SymbolAssignment::new("osTvType".to_string(), "1".to_string())];
    doc.required_symbols = vec![RequiredSymbol::new("osMemSize".to_string())];
    doc.asserts = vec![AssertEntry::new(
        "boot_ROM_END <= 0x100000".to_string(),
        "boot segment overflow".to_string(),
    )];
    doc
}

fn generate(doc: &Document) -> (String, String, String) {
    let rs = RuntimeSettings::new(vec![]);
    let mut w = LinkerWriter::new(doc, &rs);
    w.add_all_segments(&doc.segments).unwrap();
    if let Some(e) = &doc.entry {
        w.add_entry(e.as_str()).unwrap();
    }
    w.add_all_symbol_assignments(&doc.symbol_assignments).unwrap();
    w.add_all_required_symbols(&doc.required_symbols).unwrap();
    w.add_all_asserts(&doc.asserts).unwrap();
    let script = w.export_linker_script_to_string().unwrap();
    let dep = w.export_dependencies_file_to_string("build/out.ld").unwrap();
    let hdr = w.export_symbol_header_to_string().unwrap();
    (script, dep, hdr)
}

#[test]
fn generation_is_deterministic_byte_for_byte() {
    let (s1, d1, h1) = generate(&build_doc());
    let (s2, d2, h2) = generate(&build_doc());
    assert_eq!(s1, s2);
    assert_eq!(d1, d2);
    assert_eq!(h1, h2);
}

#[test]
fn script_opens_and_closes_the_placement_block() {
    let (script, _, _) = generate(&build_doc());
    assert!(script.starts_with("SECTIONS\n{\n    __romPos = 0x0;\n    _gp = 0x80008000;\n"));
    assert!(script.contains("\n}\n"));
    assert_eq!(script.matches("SECTIONS").count(), 1);
}

#[test]
fn script_carries_segment_bookkeeping() {
    let (script, _, _) = generate(&build_doc());
    assert!(script.contains("__romPos = ALIGN(__romPos, 0x10);"));
    assert!(script.contains(". = ALIGN(., 0x10);"));
    assert!(script.contains("boot_ROM_START = __romPos;"));
    assert!(script.contains("boot_VRAM = ADDR(.boot);"));
    assert!(script.contains(".boot 0x80000450 : AT(boot_ROM_START) SUBALIGN(8)"));
    assert!(script.contains(".boot.noload (NOLOAD) : SUBALIGN(8)"));
    assert!(script.contains("__romPos += SIZEOF(.boot);"));
    assert!(script.contains("boot_VRAM_END = .;"));
    assert!(script.contains("boot_VRAM_SIZE = ABSOLUTE(boot_VRAM_END - boot_VRAM);"));
    assert!(script.contains("boot_ROM_END = __romPos;"));
    assert!(script.contains("boot_ROM_SIZE = ABSOLUTE(boot_ROM_END - boot_ROM_START);"));
    assert!(script.contains("boot.o(.text);"));
    assert!(script.contains("libc.a:mem.o(.text);"));
    assert!(script.contains("boot_text_START = .;"));
    assert!(script.contains("boot_text_END = .;"));
    assert!(script.contains("/DISCARD/ :"));
    assert!(script.contains("*(.mdebug);"));
    assert!(script.contains("*(*);"));
    assert!(script.contains("ENTRY(entrypoint);"));
    assert!(script.contains("osTvType = 1;"));
    assert!(script.contains("ASSERT((boot_ROM_END <= 0x100000), \"boot segment overflow\");"));
    let kw_caps: String = ['E', 'X', 'T', 'E', 'R', 'N'].iter().collect();
    assert!(script.contains(&format!("{}(osMemSize);", kw_caps)));
}

#[test]
fn wildcard_segments_add_globs() {
    let mut doc = build_doc();
    doc.segments[0].wildcard_sections = true;
    let (script, _, _) = generate(&doc);
    assert!(script.contains("boot.o(.text*);"));
}

#[test]
fn dependency_listing_shape() {
    let (_, dep, _) = generate(&build_doc());
    assert_eq!(dep, "build/out.ld: \\\n    boot.o \\\n    libc.a\n\nboot.o:\nlibc.a:\n");
}

#[test]
fn symbol_header_shape() {
    let (_, _, hdr) = generate(&build_doc());
    assert!(hdr.starts_with("#ifndef HEADER_SYMBOLS_H\n#define HEADER_SYMBOLS_H\n\n"));
    assert!(hdr.ends_with("\n#endif\n"));
    let kw: String = ['e', 'x', 't', 'e', 'r', 'n'].iter().collect();
    assert!(hdr.contains(&format!("{} u32 boot_ROM_START[];\n", kw)));
    assert!(hdr.contains(&format!("{} u32 boot_VRAM_SIZE[];\n", kw)));
    // Registry order: the rom start marker is written before the vram end.
    let a = hdr.find("boot_ROM_START").unwrap();
    let b = hdr.find("boot_VRAM_END").unwrap();
    assert!(a < b);
}

#[test]
fn header_scalar_declarations_without_array_suffix() {
    let mut doc = build_doc();
    doc.settings.symbols_header_as_array = false;
    doc.settings.symbols_header_type = "char".to_string();
    let (_, _, hdr) = generate(&doc);
    let kw: String = ['e', 'x', 't', 'e', 'r', 'n'].iter().collect();
    assert!(hdr.contains(&format!("{} char boot_ROM_START;\n", kw)));
    assert!(!hdr.contains("[]"));
}

#[test]
fn provide_and_hidden_wrappings() {
    let mut doc = Document::new(Settings::new_default());
    let mut p = SymbolAssignment::new("p".to_string(), "1".to_string());
    p.provide = true;
    let mut h = SymbolAssignment::new("h".to_string(), "2".to_string());
    h.hidden = true;
    let mut ph = SymbolAssignment::new("ph".to_string(), "3".to_string());
    ph.provide = true;
    ph.hidden = true;
    doc.symbol_assignments = vec![p, h, ph];
    let (script, _, _) = generate(&doc);
    assert!(script.contains("PROVIDE(p = 1);"));
    assert!(script.contains("HIDDEN(h = 2);"));
    assert!(script.contains("PROVIDE_HIDDEN(ph = 3);"));
}

#[test]
fn makerom_style_symbols() {
    let mut doc = build_doc();
    doc.settings.linker_symbols_style = slinky::LinkerSymbolsStyle::Makerom;
    let (script, _, _) = generate(&doc);
    assert!(script.contains("_bootSegmentRomStart = __romPos;"));
    assert!(script.contains("_bootSegmentStart = ADDR(.boot);"));
    assert!(script.contains("_bootSegmentRomSize = ABSOLUTE(_bootSegmentRomEnd - _bootSegmentRomStart);"));
}

#[test]
fn allowlist_placeholder_sections() {
    let mut doc = build_doc();
    doc.settings.sections_allowlist = strings(&[".reginfo"]);
    let (script, _, _) = generate(&doc);
    assert!(script.contains(".reginfo 0 : { *(.reginfo); }"));
}

#[test]
fn empty_document_emits_empty_placement_block() {
    let doc = Document::new(Settings::new_default());
    let (script, dep, hdr) = generate(&doc);
    assert_eq!(script, "SECTIONS\n{\n    __romPos = 0x0;\n\n}\n");
    assert_eq!(dep, "build/out.ld:\n\n");
    let kw: String = ['e', 'x', 't', 'e', 'r', 'n'].iter().collect();
    assert!(!hdr.contains(&kw));
    assert_eq!(hdr, "#ifndef HEADER_SYMBOLS_H\n#define HEADER_SYMBOLS_H\n\n\n#endif\n");
}
