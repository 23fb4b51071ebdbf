use slinky::{
    resolve_sections_for_file, Document, FileInfo, FileKind, KeepSections, LinkerWriter,
    RuntimeSettings, Segment, Settings, SlinkyError, SymbolAssignment, VramClass,
};

fn object_file(path: &str) -> FileInfo {
    FileInfo {
        path: path.to_string(),
        kind: FileKind::Object,
        subfile: "*".to_string(),
        pad_amount: 0,
        section: String::new(),
        linker_offset_name: String::new(),
        section_order: vec![],
        dir: String::new(),
        files: vec![],
        keep_sections: KeepSections::Absent,
        exclude_if_any: vec![],
        exclude_if_all: vec![],
        include_if_any: vec![],
        include_if_all: vec![],
    }
}

fn strings(v: &[&str]) -> Vec<String> {
    v.iter().map(|s| s.to_string()).collect()
}

fn generate(doc: &Document, tags: Vec<String>) -> (String, String, String) {
    let rs = RuntimeSettings::new(tags);
    let mut w = LinkerWriter::new(doc, &rs);
    w.add_all_segments(&doc.segments).unwrap();
    if let Some(e) = &doc.entry {
        w.add_entry(e.as_str()).unwrap();
    }
    w.add_all_symbol_assignments(&doc.symbol_assignments).unwrap();
    w.add_all_required_symbols(&doc.required_symbols).unwrap();
    w.add_all_asserts(&doc.asserts).unwrap();
    let script = w.export_linker_script_to_string().unwrap();
    let dep = w.export_dependencies_file_to_string("out.ld").unwrap();
    let hdr = w.export_symbol_header_to_string().unwrap();
    (script, dep, hdr)
}

#[test]
fn resolver_orders_redirected_sections_by_canonical_list() {
    let so = vec![(".rodata".to_string(), ".data".to_string())];

    // .rodata precedes .data in the canonical list: it renders first.
    let r = resolve_sections_for_file(&so, ".data", &strings(&[".text", ".rodata", ".data"]));
    assert_eq!(r, strings(&[".rodata", ".data"]));

    // .data precedes .rodata: the redirected content renders after.
    let r = resolve_sections_for_file(&so, ".data", &strings(&[".text", ".data", ".rodata"]));
    assert_eq!(r, strings(&[".data", ".rodata"]));

    // A redirection source is never emitted under its own name.
    let r = resolve_sections_for_file(&so, ".rodata", &strings(&[".text", ".rodata", ".data"]));
    assert!(r.is_empty());

    // A source absent from the canonical list comes first.
    let so2 = vec![(".gnu.linkonce".to_string(), ".data".to_string())];
    let r = resolve_sections_for_file(&so2, ".data", &strings(&[".text", ".data"]));
    assert_eq!(r, strings(&[".gnu.linkonce", ".data"]));

    // The current section renders even when its own name is absent from the
    // canonical list (a subgroup-inlined section), as long as it is not
    // redirected away; it precedes the absent sources.
    let r = resolve_sections_for_file(&so, ".text.hot", &strings(&[".text", ".data"]));
    assert_eq!(r, strings(&[".text.hot"]));
    let so3 = vec![(".late".to_string(), ".text.hot".to_string())];
    let r = resolve_sections_for_file(&so3, ".text.hot", &strings(&[".text", ".data"]));
    assert_eq!(r, strings(&[".text.hot", ".late"]));
}

#[test]
fn redirected_section_order_shows_in_script() {
    for (canonical, first, second) in [
        ([".rodata", ".data"], "a.o(.rodata)", "a.o(.data)"),
        ([".data", ".rodata"], "a.o(.data)", "a.o(.rodata)"),
    ] {
        let mut file = object_file("a.o");
        file.section_order = vec![(".rodata".to_string(), ".data".to_string())];
        let mut seg = Segment::new("main".to_string());
        seg.alloc_sections = strings(&canonical);
        seg.files = vec![file];
        let mut doc = Document::new(Settings::new_default());
        doc.segments = vec![seg];
        let (script, _, _) = generate(&doc, vec![]);
        let p1 = script.find(first).expect("first selector present");
        let p2 = script.find(second).expect("second selector present");
        assert!(p1 < p2, "{} should precede {}:\n{}", first, second, script);
    }
}

#[test]
fn address_class_emitted_once_and_extended_per_segment() {
    let mut s1 = Segment::new("one".to_string());
    s1.vram_class = Some("ram".to_string());
    s1.alloc_sections = strings(&[".text"]);
    s1.files = vec![object_file("one.o")];
    let mut s2 = Segment::new("two".to_string());
    s2.vram_class = Some("ram".to_string());
    s2.alloc_sections = strings(&[".text"]);
    s2.files = vec![object_file("two.o")];

    let mut doc = Document::new(Settings::new_default());
    doc.vram_classes = vec![VramClass::new("ram".to_string())];
    doc.segments = vec![s1, s2];

    let (script, _, hdr) = generate(&doc, vec![]);

    // The class start/end definitions stand exactly once across the script.
    assert_eq!(script.matches("ram_CLASS_START = ").count(), 1);
    assert_eq!(script.matches("ram_CLASS_END = 0x00000000;").count(), 1);
    // Each referencing segment raises the end once more.
    assert_eq!(script.matches("ram_CLASS_END = MAX(ram_CLASS_END, ").count(), 2);
    // The registry names the shared symbols once.
    assert_eq!(hdr.matches(" ram_CLASS_START[]").count(), 1);
    assert_eq!(hdr.matches(" ram_CLASS_END[]").count(), 1);
    assert_eq!(hdr.matches(" ram_CLASS_SIZE[]").count(), 1);
    // The class size is reported at the close of the placement block.
    assert_eq!(script.matches("ram_CLASS_SIZE = ram_CLASS_END - ram_CLASS_START;").count(), 1);
}

#[test]
fn missing_address_class_is_reported() {
    let mut seg = Segment::new("one".to_string());
    seg.vram_class = Some("nope".to_string());
    let doc = Document::new(Settings::new_default());
    let rs = RuntimeSettings::new(vec![]);
    let mut w = LinkerWriter::new(&doc, &rs);
    w.begin_sections().unwrap();
    let e = w.add_segment(&seg).unwrap_err();
    assert_eq!(
        e,
        SlinkyError::MissingVramClassForSegment {
            segment: "one".to_string(),
            vram_class: "nope".to_string(),
        }
    );
}

#[test]
fn conditional_inclusion_follows_the_four_sets() {
    let mut doc = Document::new(Settings::new_default());
    let mut excluded = SymbolAssignment::new("ex_any".to_string(), "1".to_string());
    excluded.exclude_if_any = strings(&["A"]);
    let mut needs_both = SymbolAssignment::new("inc_all".to_string(), "2".to_string());
    needs_both.include_if_all = strings(&["A", "B"]);
    doc.symbol_assignments = vec![excluded, needs_both];

    let (script_ab, _, _) = generate(&doc, strings(&["A", "B"]));
    assert!(!script_ab.contains("ex_any = 1;"));
    assert!(script_ab.contains("inc_all = 2;"));

    let (script_b, _, _) = generate(&doc, strings(&["B"]));
    assert!(script_b.contains("ex_any = 1;"));
    assert!(!script_b.contains("inc_all = 2;"));

    let (script_a, _, _) = generate(&doc, strings(&["A"]));
    assert!(!script_a.contains("ex_any = 1;"));
    assert!(!script_a.contains("inc_all = 2;"));
}

#[test]
fn conditional_inclusion_filters_whole_segments() {
    let mut seg = Segment::new("dbg".to_string());
    seg.alloc_sections = strings(&[".text"]);
    seg.files = vec![object_file("dbg.o")];
    seg.exclude_if_any = strings(&["release"]);
    let mut doc = Document::new(Settings::new_default());
    doc.segments = vec![seg];

    let (script, dep, _) = generate(&doc, strings(&["release"]));
    assert!(!script.contains("dbg.o"));
    assert!(!dep.contains("dbg.o"));

    let (script, dep, _) = generate(&doc, vec![]);
    assert!(script.contains("dbg.o(.text);"));
    assert!(dep.contains("dbg.o"));
}

#[test]
fn dependency_listing_deduplicates_referenced_paths() {
    let mut s1 = Segment::new("one".to_string());
    s1.alloc_sections = strings(&[".text", ".data"]);
    s1.files = vec![object_file("shared.o")];
    let mut s2 = Segment::new("two".to_string());
    s2.alloc_sections = strings(&[".text"]);
    s2.files = vec![object_file("shared.o"), object_file("own.o")];

    let mut doc = Document::new(Settings::new_default());
    doc.segments = vec![s1, s2];
    let (script, dep, _) = generate(&doc, vec![]);

    // The script references the object once per section and segment...
    assert_eq!(script.matches("shared.o(").count(), 3);
    // ...while the dependency listing names it once as a prerequisite and
    // once as its own dependency-free rule.
    assert_eq!(dep.matches("shared.o").count(), 2);
    assert_eq!(dep.matches("shared.o:\n").count(), 1);
    assert_eq!(dep.matches("own.o:\n").count(), 1);
    assert!(dep.starts_with("out.ld:"));
}

#[test]
fn single_segment_conflict_detection() {
    let mut settings = Settings::new_default();
    settings.single_segment_mode = true;
    let mut doc = Document::new(settings);
    doc.segments = vec![Segment::new("a".to_string()), Segment::new("b".to_string())];
    assert!(doc.single_segment_conflict());

    doc.segments.pop();
    assert!(!doc.single_segment_conflict());

    let doc2 = Document::new(Settings::new_default());
    assert!(!doc2.single_segment_conflict());
}

#[test]
fn single_segment_mode_places_sections_directly() {
    let mut settings = Settings::new_default();
    settings.single_segment_mode = true;
    let mut seg = Segment::new("all".to_string());
    seg.fixed_vram = Some(0x80000400);
    seg.alloc_sections = strings(&[".text"]);
    seg.noload_sections = strings(&[".bss"]);
    seg.files = vec![object_file("all.o")];
    let mut doc = Document::new(settings);
    doc.segments = vec![seg];

    let (script, _, _) = generate(&doc, vec![]);
    assert!(script.contains(". = 0x80000400;"));
    assert!(script.contains(".text :"));
    assert!(script.contains(".bss (NOLOAD) :"));
    assert!(script.contains("all.o(.text);"));
    assert!(script.contains("all.o(.bss);"));
    // No per-segment rom bookkeeping in single-segment mode.
    assert!(!script.contains("__romPos +="));
}

#[test]
fn group_files_render_under_extended_directory() {
    let mut inner = object_file("boot.o");
    inner.dir = String::new();
    let group = FileInfo {
        path: String::new(),
        kind: FileKind::Group,
        subfile: "*".to_string(),
        pad_amount: 0,
        section: String::new(),
        linker_offset_name: String::new(),
        section_order: vec![],
        dir: "nested".to_string(),
        files: vec![inner],
        keep_sections: KeepSections::Absent,
        exclude_if_any: vec![],
        exclude_if_all: vec![],
        include_if_any: vec![],
        include_if_all: vec![],
    };
    let mut seg = Segment::new("main".to_string());
    seg.dir = "main".to_string();
    seg.alloc_sections = strings(&[".text"]);
    seg.files = vec![group];
    let mut settings = Settings::new_default();
    settings.base_path = "build".to_string();
    let mut doc = Document::new(settings);
    doc.segments = vec![seg];

    let (script, dep, _) = generate(&doc, vec![]);
    assert!(script.contains("build/main/nested/boot.o(.text);"));
    assert!(dep.contains("build/main/nested/boot.o"));
}

#[test]
fn pad_and_linker_offset_render_only_in_their_section() {
    let pad = FileInfo {
        path: String::new(),
        kind: FileKind::Pad,
        subfile: "*".to_string(),
        pad_amount: 0x1c,
        section: ".data".to_string(),
        linker_offset_name: String::new(),
        section_order: vec![],
        dir: String::new(),
        files: vec![],
        keep_sections: KeepSections::Absent,
        exclude_if_any: vec![],
        exclude_if_all: vec![],
        include_if_any: vec![],
        include_if_all: vec![],
    };
    let marker = FileInfo {
        path: String::new(),
        kind: FileKind::LinkerOffset,
        subfile: "*".to_string(),
        pad_amount: 0,
        section: ".text".to_string(),
        linker_offset_name: "handwritten".to_string(),
        section_order: vec![],
        dir: String::new(),
        files: vec![],
        keep_sections: KeepSections::Absent,
        exclude_if_any: vec![],
        exclude_if_all: vec![],
        include_if_any: vec![],
        include_if_all: vec![],
    };
    let mut seg = Segment::new("main".to_string());
    seg.alloc_sections = strings(&[".text", ".data"]);
    seg.files = vec![pad, marker];
    let mut doc = Document::new(Settings::new_default());
    doc.segments = vec![seg];

    let (script, _, hdr) = generate(&doc, vec![]);
    assert_eq!(script.matches(". += 0x1C;").count(), 1);
    assert_eq!(script.matches("handwritten_OFFSET = .;").count(), 1);
    assert_eq!(hdr.matches(" handwritten_OFFSET[]").count(), 1);
}

#[test]
fn keep_policy_wraps_selectors() {
    let mut kept = object_file("k.o");
    kept.keep_sections = KeepSections::All(true);
    let mut some = object_file("s.o");
    some.keep_sections = KeepSections::WhichOnes(strings(&[".data"]));
    let mut seg = Segment::new("main".to_string());
    seg.alloc_sections = strings(&[".text", ".data"]);
    seg.files = vec![kept, some];
    let mut doc = Document::new(Settings::new_default());
    doc.segments = vec![seg];

    let (script, _, _) = generate(&doc, vec![]);
    assert!(script.contains("KEEP(k.o(.text));"));
    assert!(script.contains("KEEP(k.o(.data));"));
    assert!(script.contains("s.o(.text);"));
    assert!(!script.contains("KEEP(s.o(.text));"));
    assert!(script.contains("KEEP(s.o(.data));"));
}

#[test]
fn subgroups_inline_sections_after_their_parent() {
    let mut seg = Segment::new("main".to_string());
    seg.alloc_sections = strings(&[".text", ".late"]);
    seg.sections_subgroups = vec![(".text".to_string(), strings(&[".text.hot"]))];
    seg.files = vec![object_file("a.o")];
    let mut doc = Document::new(Settings::new_default());
    doc.segments = vec![seg];

    let (script, _, _) = generate(&doc, vec![]);
    let p_text = script.find("a.o(.text);").unwrap();
    let p_hot = script.find("a.o(.text.hot);").unwrap();
    assert!(p_text < p_hot);
}
