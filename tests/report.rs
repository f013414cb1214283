use malloc_info::decode::{decimal, decode_elements, Attr, Element, ElementKind, ParseError};
use malloc_info::info::{AspaceType, Size, SystemType, TotalType};
use malloc_info::xml::{parse_report, read_elements};

const SIMPLE: &str = r#"
<malloc version="1">
<heap nr="0">
<sizes>
</sizes>
<total type="fast" count="0" size="0"/>
<total type="rest" count="0" size="0"/>
<system type="current" size="135168"/>
<system type="max" size="135168"/>
<aspace type="total" size="135168"/>
<aspace type="mprotect" size="135168"/>
</heap>
<total type="fast" count="0" size="0"/>
<total type="rest" count="0" size="0"/>
<system type="current" size="135168"/>
<system type="max" size="135168"/>
<aspace type="total" size="135168"/>
<aspace type="mprotect" size="135168"/>
</malloc>
"#;

const COMPLEX: &str = r#"
<malloc version="1">
<heap nr="0">
<sizes>
</sizes>
<total type="fast" count="0" size="0"/>
<total type="rest" count="0" size="0"/>
<system type="current" size="1081344"/>
<system type="max" size="1081344"/>
<aspace type="total" size="1081344"/>
<aspace type="mprotect" size="1081344"/>
</heap>
<heap nr="1">
<sizes>
</sizes>
<total type="fast" count="0" size="0"/>
<total type="rest" count="0" size="0"/>
<system type="current" size="1032192"/>
<system type="max" size="1032192"/>
<aspace type="total" size="1032192"/>
<aspace type="mprotect" size="1032192"/>
</heap>
<total type="fast" count="0" size="0"/>
<total type="rest" count="0" size="0"/>
<system type="current" size="2113536"/>
<system type="max" size="2113536"/>
<aspace type="total" size="2113536"/>
<aspace type="mprotect" size="2113536"/>
</malloc>
"#;

const TAIL: &str = r#"<total type="fast" count="0" size="0"/>
<system type="current" size="1"/>
<aspace type="total" size="1"/>
</malloc>"#;

fn with_heaps(heaps: &str) -> String {
    format!("<malloc version=\"1\">\n{}\n{}", heaps, TAIL)
}

#[test]
fn parse_simple() {
    let parsed = parse_report(SIMPLE.as_bytes()).expect("parse XML");
    assert_eq!(parsed.version, "1");
    assert_eq!(parsed.heaps.len(), 1);
    assert_eq!(parsed.total.len(), 2);
    assert_eq!(parsed.system.len(), 2);
    assert_eq!(parsed.aspace.len(), 2);
}

#[test]
fn parse_complex() {
    let parsed = parse_report(COMPLEX.as_bytes()).expect("parse XML");
    assert_eq!(parsed.version, "1");
    assert_eq!(parsed.heaps.len(), 2);
    assert_eq!(parsed.total.len(), 2);
    assert_eq!(parsed.system.len(), 2);
    assert_eq!(parsed.aspace.len(), 2);
}

#[test]
#[should_panic]
fn parse_invalid() {
    const XML: &str = r#"
<malloc version="1">
</malloc>
"#;
    let _ = parse_report(XML.as_bytes()).expect("parse XML");
}

#[test]
fn simple_values_in_order() {
    let parsed = parse_report(SIMPLE.as_bytes()).unwrap();
    assert_eq!(parsed.heaps[0].nr, 0);
    assert_eq!(parsed.total[0].kind, TotalType::Fast);
    assert_eq!(parsed.total[1].kind, TotalType::Rest);
    assert_eq!(parsed.system[0].kind, SystemType::Current);
    assert_eq!(parsed.system[1].kind, SystemType::Max);
    assert_eq!(parsed.system[1].size, 135168);
    assert_eq!(parsed.aspace[0].kind, AspaceType::Total);
    assert_eq!(parsed.aspace[1].kind, AspaceType::Mprotect);
}

#[test]
fn arenas_keep_document_order() {
    let parsed = parse_report(COMPLEX.as_bytes()).unwrap();
    assert_eq!(parsed.heaps[0].nr, 0);
    assert_eq!(parsed.heaps[1].nr, 1);
    assert_eq!(parsed.system[0].size, 2113536);
    assert_eq!(parsed.aspace[1].size, 2113536);
}

#[test]
fn empty_sizes_section_is_present() {
    let text = with_heaps("<heap nr=\"0\"><sizes>\n</sizes></heap><heap nr=\"1\"></heap>");
    let parsed = parse_report(text.as_bytes()).unwrap();
    let first = parsed.heaps[0].sizes.as_ref().expect("section present");
    assert_eq!(first.sizes.as_ref().map(|v| v.len()), Some(0));
    assert!(parsed.heaps[1].sizes.is_none());
}

#[test]
fn size_classes_of_both_kinds() {
    let text = with_heaps(
        "<heap nr=\"3\"><sizes>\
         <size from=\"17\" to=\"32\" total=\"64\" count=\"2\"/>\
         <unsorted from=\"33\" to=\"48\" total=\"33\" count=\"1\"/>\
         </sizes></heap>",
    );
    let parsed = parse_report(text.as_bytes()).unwrap();
    assert_eq!(parsed.heaps[0].nr, 3);
    let sizes = parsed.heaps[0].sizes.as_ref().unwrap().sizes.as_ref().unwrap();
    assert_eq!(sizes.len(), 2);
    assert_eq!(sizes[0], Size::Size { from: 17, to: 32, total: 64, count: 2 });
    assert_eq!(sizes[1], Size::Unsorted { from: 33, to: 48, total: 33, count: 1 });
}

#[test]
fn unknown_types_become_other() {
    let text = r#"<malloc version="2"><heap nr="0"/>
<total type="brand-new" count="4" size="5"/>
<system type="peak" size="6"/>
<aspace type="Total" size="7"/>
</malloc>"#;
    let parsed = parse_report(text.as_bytes()).unwrap();
    assert_eq!(parsed.version, "2");
    assert_eq!(parsed.total[0].kind, TotalType::Other);
    assert_eq!(parsed.total[0].count, 4);
    assert_eq!(parsed.total[0].size, 5);
    assert_eq!(parsed.system[0].kind, SystemType::Other);
    assert_eq!(parsed.aspace[0].kind, AspaceType::Other);
    assert_eq!(parsed.aspace[0].size, 7);
}

#[test]
fn subheaps_and_mmap_kinds() {
    let text = r#"<malloc version="1"><heap nr="0"/>
<total type="mmap" count="1" size="2"/>
<system type="max" size="3"/>
<aspace type="subheaps" size="4"/>
</malloc>"#;
    let parsed = parse_report(text.as_bytes()).unwrap();
    assert_eq!(parsed.total[0].kind, TotalType::Mmap);
    assert_eq!(parsed.aspace[0].kind, AspaceType::Subheaps);
}

#[test]
fn empty_root_without_version_fails() {
    assert_eq!(parse_report(b"<malloc></malloc>"), Err(ParseError::MissingAttribute));
}

#[test]
fn root_without_arena_fails() {
    let text = "<malloc version=\"1\">\n".to_string() + TAIL;
    assert_eq!(parse_report(text.as_bytes()), Err(ParseError::MissingSection));
}

#[test]
fn missing_number_fails() {
    let text = with_heaps("<heap></heap>");
    assert_eq!(parse_report(text.as_bytes()), Err(ParseError::MissingAttribute));
}

#[test]
fn bad_number_fails() {
    let text = with_heaps("<heap nr=\"x1\"></heap>");
    assert_eq!(parse_report(text.as_bytes()), Err(ParseError::BadNumber));
}

#[test]
fn duplicate_sizes_fails() {
    let text = with_heaps("<heap nr=\"0\"><sizes/><sizes/></heap>");
    assert_eq!(parse_report(text.as_bytes()), Err(ParseError::DuplicateSizes));
}

#[test]
fn unknown_size_kind_fails() {
    let text = with_heaps("<heap nr=\"0\"><sizes><bucket/></sizes></heap>");
    assert_eq!(parse_report(text.as_bytes()), Err(ParseError::UnknownSizeKind));
}

#[test]
fn mismatched_tags_fail() {
    let text = with_heaps("<heap nr=\"0\"></sizes>");
    assert_eq!(parse_report(text.as_bytes()), Err(ParseError::Syntax));
}

#[test]
fn empty_text_has_no_root() {
    assert_eq!(parse_report(b""), Err(ParseError::NoRoot));
    assert_eq!(parse_report(b"  <!-- nothing -->  "), Err(ParseError::NoRoot));
}

#[test]
fn escaped_version_is_unescaped() {
    let text = format!("<malloc version=\"a&amp;b\"><heap nr=\"0\"/>{}", TAIL);
    let parsed = parse_report(text.as_bytes()).unwrap();
    assert_eq!(parsed.version, "a&b");
}

#[test]
fn reader_lists_elements() {
    let es = read_elements(b"<a x=\"1\"><b/></a>").unwrap();
    assert_eq!(es.len(), 3);
    assert_eq!(es[0].kind, ElementKind::Open);
    assert_eq!(es[0].name, b"a".to_vec());
    assert_eq!(es[0].attrs[0].key, b"x".to_vec());
    assert_eq!(es[0].attrs[0].value, "1");
    assert_eq!(es[1].kind, ElementKind::Leaf);
    assert_eq!(es[1].name, b"b".to_vec());
    assert_eq!(es[2].kind, ElementKind::Close);
}

fn element(kind: ElementKind, name: &str, attrs: &[(&str, &str)]) -> Element {
    Element {
        kind,
        name: name.as_bytes().to_vec(),
        attrs: attrs
            .iter()
            .map(|(k, v)| Attr { key: k.as_bytes().to_vec(), value: v.to_string() })
            .collect(),
    }
}

#[test]
fn unclosed_root_fails() {
    let es = vec![
        element(ElementKind::Open, "malloc", &[("version", "1")]),
        element(ElementKind::Leaf, "heap", &[("nr", "0")]),
    ];
    assert_eq!(decode_elements(&es), Err(ParseError::Unclosed));
}

#[test]
fn self_closing_root_lacks_sections() {
    let es = vec![element(ElementKind::Leaf, "malloc", &[("version", "1")])];
    assert_eq!(decode_elements(&es), Err(ParseError::MissingSection));
}

#[test]
fn heap_figures_are_not_root_figures() {
    let es = vec![
        element(ElementKind::Open, "malloc", &[("version", "1")]),
        element(ElementKind::Open, "heap", &[("nr", "7")]),
        element(ElementKind::Leaf, "total", &[("type", "fast"), ("count", "1"), ("size", "1")]),
        element(ElementKind::Close, "heap", &[]),
        element(ElementKind::Leaf, "total", &[("type", "rest"), ("count", "2"), ("size", "3")]),
        element(ElementKind::Leaf, "system", &[("type", "max"), ("size", "4")]),
        element(ElementKind::Open, "aspace", &[("type", "total"), ("size", "5")]),
        element(ElementKind::Leaf, "ignored", &[]),
        element(ElementKind::Close, "aspace", &[]),
        element(ElementKind::Close, "malloc", &[]),
    ];
    let m = decode_elements(&es).unwrap();
    assert_eq!(m.heaps.len(), 1);
    assert_eq!(m.heaps[0].nr, 7);
    assert_eq!(m.total.len(), 1);
    assert_eq!(m.total[0].kind, TotalType::Rest);
    assert_eq!(m.total[0].count, 2);
    assert_eq!(m.total[0].size, 3);
    assert_eq!(m.system[0].size, 4);
    assert_eq!(m.aspace.len(), 1);
}

#[test]
fn decimal_numbers() {
    assert_eq!(decimal(b"0"), Some(0));
    assert_eq!(decimal(b"135168"), Some(135168));
    assert_eq!(decimal(b"+42"), Some(42));
    assert_eq!(decimal(b""), None);
    assert_eq!(decimal(b"+"), None);
    assert_eq!(decimal(b"-1"), None);
    assert_eq!(decimal(b"12a"), None);
    assert_eq!(decimal(b" 1"), None);
    let max = usize::MAX.to_string();
    assert_eq!(decimal(max.as_bytes()), Some(usize::MAX));
    let over = format!("{}0", max);
    assert_eq!(decimal(over.as_bytes()), None);
}
