use nazmc::ast::item::Item;
use nazmc::display_table::{DisplayIdx, DisplayTable};
use nazmc::nir::exprs::ExprKindAndIndex;
use nazmc::nir::types::{TypeKindAndIndex, Types};
use nazmc::resolve::FileItemKindAndIdx;

#[test]
fn display_table_gives_each_string_one_index() {
    let mut table = DisplayTable::new();
    let a = table.get("س");
    let b = table.get("ص");
    let a_again = table.get("س");
    assert_eq!(a, DisplayIdx(0));
    assert_eq!(b, DisplayIdx(1));
    assert_eq!(a_again, a);
    let built = table.build();
    assert_eq!(built.display(a), "س");
    assert_eq!(built.display(b), "ص");
}

#[test]
fn expr_kind_and_index_roundtrip() {
    let packed = ExprKindAndIndex::new(ExprKindAndIndex::BIN_EXPR, 12345);
    assert_eq!(packed.kind(), ExprKindAndIndex::BIN_EXPR);
    assert_eq!(packed.index(), 12345);
    let packed = ExprKindAndIndex::new(ExprKindAndIndex::UNIT, 0);
    assert_eq!(packed.kind(), ExprKindAndIndex::UNIT);
    assert_eq!(packed.index(), 0);
    assert_eq!(ExprKindAndIndex::LITERAL, 1u64 << 59);
}

#[test]
fn type_kind_and_index_roundtrip_for_every_kind() {
    let packed = TypeKindAndIndex::new(TypeKindAndIndex::PTR_MUT, 7);
    assert_eq!(packed.kind(), TypeKindAndIndex::PTR_MUT);
    assert_eq!(packed.index(), 7);
    for kind in [
        TypeKindAndIndex::PATH,
        TypeKindAndIndex::PTR,
        TypeKindAndIndex::REF,
        TypeKindAndIndex::PTR_MUT,
        TypeKindAndIndex::REF_MUT,
        TypeKindAndIndex::SLICE,
        TypeKindAndIndex::TUPLE,
        TypeKindAndIndex::ARRAY,
        TypeKindAndIndex::LAMBDA,
    ] {
        let packed = TypeKindAndIndex::new(kind, 123456);
        assert_eq!(packed.kind(), kind);
        assert_eq!(packed.index(), 123456);
    }
    let packed = TypeKindAndIndex::new(TypeKindAndIndex::LAMBDA, 0);
    assert_eq!(packed.kind(), TypeKindAndIndex::LAMBDA);
}

#[test]
fn file_item_kind_and_idx_roundtrip() {
    for kind in [
        FileItemKindAndIdx::UNIT_STRUCT,
        FileItemKindAndIdx::TUPLE_STRUCT,
        FileItemKindAndIdx::FIELDS_STRUCT,
        FileItemKindAndIdx::FN,
    ] {
        let packed = FileItemKindAndIdx::new(kind, 99);
        assert_eq!(packed.kind(), kind);
        assert_eq!(packed.index(), 99);
    }
}

#[test]
fn item_roundtrip() {
    let item = Item::new(Item::FN, Item::PUBLIC, 42);
    assert_eq!(item.kind(), Item::FN);
    assert_eq!(item.visibility(), Item::PUBLIC);
    assert_eq!(item.index(), 42);
    let item = Item::new(Item::TUPLE_STRUCT, Item::PRIVATE, 0);
    assert_eq!(item.kind(), Item::TUPLE_STRUCT);
    assert_eq!(item.visibility(), Item::PRIVATE);
    assert_eq!(item.index(), 0);
}

#[test]
fn types_start_empty() {
    let types = Types::default();
    assert!(types.paths.is_empty());
    assert!(types.lambdas.is_empty());
}
