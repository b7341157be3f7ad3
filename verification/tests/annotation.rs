use dex::annotation::{
    AnnotationElement, AnnotationItem, AnnotationSetItem, AnnotationSetRefList,
    AnnotationsDirectoryItem, EncodedAnnotation, MethodAnnotations, ParameterAnnotations,
    Visibility,
};
use dex::codec::Endian;
use dex::context::DexContext;
use dex::error::Error;
use dex::jtype::TypeRef;
use dex::value::{EncodedValue, ScalarValueDecoder, ValueDecoder};

fn ctx_of(buf: Vec<u8>, endian: Endian) -> DexContext<ScalarValueDecoder> {
    DexContext::new(
        buf,
        endian,
        vec!["a".to_string(), "name".to_string(), "other".to_string()],
        vec!["LFoo;".to_string(), "LBar;".to_string()],
        ScalarValueDecoder,
        16,
    )
}

#[test]
fn element_decode_resolves_name_and_value() {
    // name index 1 ("name"), then a one-payload-byte scalar value.
    let ctx = ctx_of(vec![0x01, 0x00, 0x2a], Endian::Little);
    let (elem, consumed) = AnnotationElement::try_from_ctx(&ctx, 0).unwrap();
    assert_eq!(elem.name, "name");
    assert_eq!(elem.value.raw, vec![0x00, 0x2a]);
    assert_eq!(consumed, 3);
}

#[test]
fn element_with_bad_string_index_fails() {
    let ctx = ctx_of(vec![0x05, 0x00, 0x2a], Endian::Little);
    assert!(matches!(AnnotationElement::try_from_ctx(&ctx, 0), Err(Error::InvalidId(_))));
}

#[test]
fn annotation_item_decode() {
    // visibility 1 (Runtime), type 0, one element: name 1, value 0x00 0x2a.
    let ctx = ctx_of(vec![0x01, 0x00, 0x01, 0x01, 0x00, 0x2a], Endian::Little);
    let (item, consumed) = AnnotationItem::try_from_ctx(&ctx, 0).unwrap();
    assert_eq!(item.visibility(), Visibility::Runtime);
    assert_eq!(item.annotation().jtype().descriptor(), "LFoo;");
    assert_eq!(item.annotation().elements().len(), 1);
    assert_eq!(item.annotation.elements[0].name, "name");
    assert_eq!(consumed, 6);
}

#[test]
fn annotation_with_bad_type_index_fails() {
    // type index 9 is outside the two-entry type table.
    let ctx = ctx_of(vec![0x01, 0x09, 0x00], Endian::Little);
    assert!(matches!(AnnotationItem::try_from_ctx(&ctx, 0), Err(Error::InvalidId(_))));
}

#[test]
fn visibility_byte_three_fails_with_invalid_index() {
    // 0x03 is not a legal visibility code; the decode must fail rather
    // than default to any enumerated value.
    let ctx = ctx_of(vec![0x03, 0x00, 0x00], Endian::Little);
    assert!(matches!(AnnotationItem::try_from_ctx(&ctx, 0), Err(Error::InvalidId(_))));
}

#[test]
fn truncated_item_is_malformed() {
    let ctx = ctx_of(vec![], Endian::Little);
    let mut ctx = ctx;
    assert!(matches!(ctx.get_annotation_item(0), Err(Error::MalFormed(_))));
}

#[test]
fn set_item_repeated_offset_resolves_equal_items() {
    // Offset table [o1, o2, o1]: both o1 positions must resolve to
    // structurally equal items, in table order.
    let mut buf = vec![
        0x03, 0x00, 0x00, 0x00, // count = 3
        16, 0x00, 0x00, 0x00, // o1
        19, 0x00, 0x00, 0x00, // o2
        16, 0x00, 0x00, 0x00, // o1 again
    ];
    buf.extend_from_slice(&[0x00, 0x00, 0x00]); // item at 16: Build, LFoo;, no elements
    buf.extend_from_slice(&[0x02, 0x01, 0x00]); // item at 19: System, LBar;, no elements
    let mut ctx = ctx_of(buf, Endian::Little);
    let (set, consumed) = AnnotationSetItem::try_from_ctx(&mut ctx, 0).unwrap();
    assert_eq!(consumed, 16);
    assert_eq!(set.annotations().len(), 3);
    assert_eq!(set.annotations[0], set.annotations[2]);
    assert_ne!(set.annotations[0], set.annotations[1]);
    assert_eq!(set.annotations[0].visibility, Visibility::Build);
    assert_eq!(set.annotations[1].visibility, Visibility::System);
    assert_eq!(set.annotations[1].annotation.jtype.descriptor, "LBar;");
}

#[test]
fn set_item_offset_outside_buffer_is_bad_offset() {
    let buf = vec![
        0x01, 0x00, 0x00, 0x00, // count = 1
        100, 0x00, 0x00, 0x00, // offset beyond the 8-byte buffer
    ];
    let mut ctx = ctx_of(buf, Endian::Little);
    assert!(matches!(AnnotationSetItem::try_from_ctx(&mut ctx, 0), Err(Error::BadOffset(100, _))));
}

#[test]
fn set_item_truncated_table_is_malformed() {
    let buf = vec![
        0x02, 0x00, 0x00, 0x00, // count = 2, but only one table entry fits
        16, 0x00, 0x00, 0x00,
    ];
    let mut ctx = ctx_of(buf, Endian::Little);
    assert!(matches!(AnnotationSetItem::try_from_ctx(&mut ctx, 0), Err(Error::MalFormed(_))));
}

#[test]
fn set_item_big_endian() {
    let mut buf = vec![
        0x00, 0x00, 0x00, 0x01, // count = 1, big endian
        0x00, 0x00, 0x00, 8, // offset 8
    ];
    buf.extend_from_slice(&[0x00, 0x00, 0x00]); // item at 8
    let mut ctx = DexContext::new(
        buf,
        Endian::Big,
        vec!["a".to_string()],
        vec!["LFoo;".to_string()],
        ScalarValueDecoder,
        4,
    );
    let (set, consumed) = AnnotationSetItem::try_from_ctx(&mut ctx, 0).unwrap();
    assert_eq!(consumed, 8);
    assert_eq!(set.annotations().len(), 1);
    assert_eq!(set.annotations[0].visibility, Visibility::Build);
}

#[test]
fn set_ref_list_decode() {
    let buf = vec![
        0x01, 0x00, 0x00, 0x00, // count = 1
        8, 0x00, 0x00, 0x00, // offset of the set
        0x00, 0x00, 0x00, 0x00, // set at 8: count = 0
    ];
    let mut ctx = ctx_of(buf, Endian::Little);
    let (list, consumed) = AnnotationSetRefList::try_from_ctx(&mut ctx, 0).unwrap();
    assert_eq!(consumed, 8);
    assert_eq!(list.annotation_set_list().len(), 1);
    assert!(list.annotation_set_list[0].annotations.is_empty());
}

#[test]
fn method_annotations_decode() {
    let buf = vec![
        9, 0x00, 0x00, 0x00, // method index
        8, 0x00, 0x00, 0x00, // set offset
        0x00, 0x00, 0x00, 0x00, // set at 8: count = 0
    ];
    let mut ctx = ctx_of(buf, Endian::Little);
    let (m, consumed) = MethodAnnotations::try_from_ctx(&mut ctx, 0).unwrap();
    assert_eq!(m.method_idx(), 9);
    assert!(m.annotations().annotations.is_empty());
    assert_eq!(consumed, 8);
}

#[test]
fn parameter_annotations_decode() {
    let buf = vec![
        11, 0x00, 0x00, 0x00, // method index
        8, 0x00, 0x00, 0x00, // reference list offset
        0x00, 0x00, 0x00, 0x00, // list at 8: count = 0
    ];
    let mut ctx = ctx_of(buf, Endian::Little);
    let (p, consumed) = ParameterAnnotations::try_from_ctx(&mut ctx, 0).unwrap();
    assert_eq!(p.method_idx(), 11);
    assert!(p.annotations().annotation_set_list.is_empty());
    assert_eq!(consumed, 8);
}

#[test]
fn directory_zero_class_offset_yields_empty_set() {
    // A class annotations offset of zero denotes "no class annotations":
    // the decode succeeds with an empty set.
    let buf = vec![0u8; 16];
    let mut ctx = ctx_of(buf, Endian::Little);
    let (dir, consumed) = AnnotationsDirectoryItem::try_from_ctx(&mut ctx, 0).unwrap();
    assert!(dir.class_annotations.annotations.is_empty());
    assert!(dir.field_annotations.is_empty());
    assert!(dir.method_annotations.is_empty());
    assert!(dir.parameter_annotations.is_empty());
    assert_eq!(consumed, 16);
}

#[test]
fn directory_with_shared_class_and_field_set() {
    let mut buf = vec![
        24, 0x00, 0x00, 0x00, // class annotations offset: the set at 24
        0x01, 0x00, 0x00, 0x00, // one annotated field
        0x00, 0x00, 0x00, 0x00, // no annotated methods
        0x00, 0x00, 0x00, 0x00, // no annotated parameters
        7, 0x00, 0x00, 0x00, // field record at 16: field index 7
        24, 0x00, 0x00, 0x00, // field record: same set at 24
    ];
    buf.extend_from_slice(&[0x01, 0x00, 0x00, 0x00, 32, 0x00, 0x00, 0x00]); // set at 24
    buf.extend_from_slice(&[0x00, 0x00, 0x00]); // item at 32
    let mut ctx = ctx_of(buf, Endian::Little);
    let (dir, consumed) = AnnotationsDirectoryItem::try_from_ctx(&mut ctx, 0).unwrap();
    assert_eq!(consumed, 24);
    assert_eq!(dir.class_annotations.annotations.len(), 1);
    assert_eq!(dir.field_annotations.len(), 1);
    assert_eq!(dir.field_annotations[0].field_idx(), 7);
    // The class and the field reference the same offset, so the two sets
    // must be structurally equal.
    assert_eq!(dir.field_annotations[0].annotations, dir.class_annotations);
}

#[test]
fn find_element_returns_first_match() {
    // Elements [("a", X), ("name", Y), ("name", Z)]: the lookup must
    // return the element bound to Y.
    let ann = EncodedAnnotation {
        jtype: TypeRef { index: 0, descriptor: "LFoo;".to_string() },
        elements: vec![
            AnnotationElement { name: "a".to_string(), value: EncodedValue { raw: vec![1] } },
            AnnotationElement { name: "name".to_string(), value: EncodedValue { raw: vec![2] } },
            AnnotationElement { name: "name".to_string(), value: EncodedValue { raw: vec![3] } },
        ],
    };
    let found = ann.find_element("name").expect("element must be found");
    assert_eq!(found.value().raw, vec![2]);
    assert!(ann.find_element("missing").is_none());
}

#[test]
fn scalar_value_decoder_delimits_payloads() {
    let dec = ScalarValueDecoder;
    // Header 0x00: payload of one byte.
    let buf: Vec<u8> = vec![0x00, 0x2a, 0x99];
    let (v, n) = dec.decode_value(&buf, 0).unwrap();
    assert_eq!(v.raw, vec![0x00, 0x2a]);
    assert_eq!(n, 2);
    // Header 0x1e (null): header-only value.
    let buf: Vec<u8> = vec![0x1e];
    let (v, n) = dec.decode_value(&buf, 0).unwrap();
    assert_eq!(v.raw, vec![0x1e]);
    assert_eq!(n, 1);
    // Header 0x1c (array): aggregate payloads are not supported here.
    let buf: Vec<u8> = vec![0x1c, 0x00];
    assert!(matches!(dec.decode_value(&buf, 0), Err(Error::MalFormed(_))));
    // Header 0x20 asks for two payload bytes; only one is present.
    let buf: Vec<u8> = vec![0x20, 0x01];
    assert!(matches!(dec.decode_value(&buf, 0), Err(Error::MalFormed(_))));
}

#[test]
fn resolutions_of_one_offset_are_equal_across_calls() {
    // Two resolutions of the same offset, one of which is served by the
    // cache, must return structurally equal items.
    let buf = vec![0x00, 0x00, 0x00]; // item at 0: Build, LFoo;, no elements
    let mut ctx = ctx_of(buf, Endian::Little);
    let first = ctx.get_annotation_item(0).unwrap();
    let second = ctx.get_annotation_item(0).unwrap();
    assert_eq!(first, second);
}
