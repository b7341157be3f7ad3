use dex::codec::Endian;
use dex::context::DexContext;
use dex::encoded_item::{
    DeltaItem, EncodedCatchHandler, EncodedCatchHandlers, EncodedItemArray, EncodedItemArrayCtx,
    ExceptionType,
};
use dex::error::Error;
use dex::value::ScalarValueDecoder;

fn ctx_of(buf: Vec<u8>) -> DexContext<ScalarValueDecoder> {
    DexContext::new(
        buf,
        Endian::Little,
        vec![],
        vec!["LErrA;".to_string(), "LErrB;".to_string()],
        ScalarValueDecoder,
        8,
    )
}

#[test]
fn positive_header_yields_only_typed_handlers() {
    // header = 2: exactly two (type, address) pairs, no catch-all.
    let ctx = ctx_of(vec![0x02, 0x00, 0x0a, 0x01, 0x14]);
    let (h, consumed) = EncodedCatchHandler::try_from_ctx(&ctx, 0).unwrap();
    assert_eq!(consumed, 5);
    assert_eq!(h.handlers.len(), 2);
    match &h.handlers[0].exception {
        ExceptionType::Ty(t) => assert_eq!(t.descriptor, "LErrA;"),
        ExceptionType::BaseException => panic!("handler 0 must be typed"),
    }
    assert_eq!(h.handlers[0].addr, 10);
    match &h.handlers[1].exception {
        ExceptionType::Ty(t) => assert_eq!(t.descriptor, "LErrB;"),
        ExceptionType::BaseException => panic!("handler 1 must be typed"),
    }
    assert_eq!(h.handlers[1].addr, 20);
    assert!(h.handlers.iter().all(|c| !matches!(c.exception, ExceptionType::BaseException)));
}

#[test]
fn negative_header_appends_one_catch_all() {
    // header = -1 (0x7f): one typed pair, then a catch-all address.
    let ctx = ctx_of(vec![0x7f, 0x01, 0x05, 0x09]);
    let (h, consumed) = EncodedCatchHandler::try_from_ctx(&ctx, 0).unwrap();
    assert_eq!(consumed, 4);
    assert_eq!(h.handlers.len(), 2);
    assert!(matches!(h.handlers[0].exception, ExceptionType::Ty(_)));
    assert!(matches!(h.handlers[1].exception, ExceptionType::BaseException));
    assert_eq!(h.handlers[1].addr, 9);
}

#[test]
fn zero_header_yields_single_catch_all() {
    let ctx = ctx_of(vec![0x00, 0x2a]);
    let (h, consumed) = EncodedCatchHandler::try_from_ctx(&ctx, 0).unwrap();
    assert_eq!(consumed, 2);
    assert_eq!(h.handlers.len(), 1);
    assert!(matches!(h.handlers[0].exception, ExceptionType::BaseException));
    assert_eq!(h.handlers[0].addr, 42);
}

#[test]
fn bad_type_index_in_handler_fails() {
    // Type index 7 is outside the two-entry type table.
    let ctx = ctx_of(vec![0x01, 0x07, 0x05]);
    assert!(matches!(EncodedCatchHandler::try_from_ctx(&ctx, 0), Err(Error::InvalidId(_))));
}

#[test]
fn handlers_accessor_copies_all_handlers() {
    let ctx = ctx_of(vec![0x7f, 0x01, 0x05, 0x09]);
    let (h, _) = EncodedCatchHandler::try_from_ctx(&ctx, 0).unwrap();
    let copy = h.handlers();
    assert_eq!(copy, h.handlers);
}

#[test]
fn handler_list_records_relative_offsets() {
    // Two records; offsets are relative to the start of the list, so the
    // first record sits just after the one-byte count varint.
    let ctx = ctx_of(vec![
        0x02, // count = 2
        0x00, 0x05, // record at relative offset 1: catch-all at address 5
        0x01, 0x01, 0x06, // record at relative offset 3: one typed pair
    ]);
    let (list, consumed) = EncodedCatchHandlers::try_from_ctx(&ctx, 0).unwrap();
    assert_eq!(consumed, 6);
    assert_eq!(list.iter().len(), 2);
    assert_eq!(list.iter()[0].0, 1);
    assert_eq!(list.iter()[1].0, 3);
    let found = list.find(3).expect("record at relative offset 3 must be found");
    assert_eq!(found.handlers.len(), 1);
    assert!(matches!(found.handlers[0].exception, ExceptionType::Ty(_)));
    assert!(list.find(2).is_none());
}

#[test]
fn empty_item_array_consumes_nothing() {
    // A delta-id array of length zero yields an empty sequence and
    // consumes no per-item bytes.
    let ctx = ctx_of(vec![0x05, 0x00, 0x03]);
    let actx = EncodedItemArrayCtx::new(&ctx, 0);
    let (arr, consumed): (EncodedItemArray<DeltaItem>, usize) =
        EncodedItemArray::try_from_ctx(actx, 0).unwrap();
    assert_eq!(consumed, 0);
    assert!(arr.inner().is_empty());
}

#[test]
fn delta_ids_accumulate_from_zero() {
    // Encoded deltas [5, 0, 3] with initial previous id 0 decode, in
    // order, to absolute ids [5, 5, 8].
    let ctx = ctx_of(vec![0x05, 0x00, 0x03]);
    let actx = EncodedItemArrayCtx::new(&ctx, 3);
    let (arr, consumed): (EncodedItemArray<DeltaItem>, usize) =
        EncodedItemArray::try_from_ctx(actx, 0).unwrap();
    assert_eq!(consumed, 3);
    let ids: Vec<u64> = arr.iter().into_iter().map(|i| i.id).collect();
    assert_eq!(ids, vec![5, 5, 8]);
}

#[test]
fn item_array_propagates_varint_errors() {
    let ctx = ctx_of(vec![0x05, 0x80]);
    let actx = EncodedItemArrayCtx::new(&ctx, 2);
    let r: Result<(EncodedItemArray<DeltaItem>, usize), Error> =
        EncodedItemArray::try_from_ctx(actx, 0);
    assert!(matches!(r, Err(Error::MalFormed(_))));
}
