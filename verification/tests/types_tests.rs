use vit::ast::Type;
use vit::table::NameTable;
use vit::vtype::{
    cast_op, global_map_alloc_size, literal_width, map_alloc_size, map_kind, map_layout, map_tag, print_format,
    print_plan, same_vtype, scan_format, sort_comparator, element_scan_format, str_vtype, CastOp, MapKind, PrintPlan,
    VType,
};

#[test]
fn integer_literals_are_i32_when_they_fit() {
    assert_eq!(literal_width(42), 32);
    assert_eq!(literal_width(-7), 32);
    assert_eq!(literal_width(2147483647), 32);
    assert_eq!(literal_width(2147483648), 64);
    assert_eq!(literal_width(-2147483649), 64);
    assert_eq!(literal_width(9999999999), 64);
}

#[test]
fn casts_pick_their_conversion() {
    assert!(matches!(cast_op(&VType::Int(32), &VType::Int(64)), Some(CastOp::SignExtend)));
    assert!(matches!(cast_op(&VType::Int(64), &VType::Int(32)), Some(CastOp::Truncate)));
    assert!(matches!(cast_op(&VType::Double, &VType::Int(32)), Some(CastOp::FloatToInt)));
    assert!(matches!(cast_op(&VType::Int(32), &VType::Double), Some(CastOp::IntToFloat)));
    assert!(matches!(cast_op(&VType::Single, &VType::Double), Some(CastOp::FloatExtend)));
    assert!(matches!(cast_op(&VType::Double, &VType::Double), Some(CastOp::Keep)));
    assert!(cast_op(&str_vtype(), &VType::Int(32)).is_none());
}

#[test]
fn print_and_input_formats() {
    assert_eq!(print_format(&print_plan(&VType::Int(32)).unwrap(), false), "%d");
    assert_eq!(print_format(&print_plan(&VType::Int(64)).unwrap(), true), "%ld\n");
    assert_eq!(print_format(&print_plan(&VType::Double).unwrap(), false), "%f");
    assert_eq!(print_format(&print_plan(&str_vtype()).unwrap(), true), "%s\n");
    assert!(matches!(print_plan(&VType::Int(1)), Some(PrintPlan::Int { widen: true })));
    assert!(matches!(print_plan(&VType::Single), Some(PrintPlan::Real { widen: true })));
    assert!(print_plan(&VType::Struct("P".to_string())).is_none());
    assert_eq!(scan_format(&Type::I64), "%ld");
    assert_eq!(scan_format(&Type::F64), "%lf");
    assert_eq!(scan_format(&Type::I32), "%d");
    assert_eq!(element_scan_format(&VType::Double), "%lf");
    assert_eq!(element_scan_format(&VType::Int(64)), "%ld");
}

#[test]
fn sort_uses_a_comparator_per_element_type() {
    assert_eq!(sort_comparator(&VType::Int(32)), (4, "__vit_cmp_i32"));
    assert_eq!(sort_comparator(&VType::Int(64)), (8, "__vit_cmp_i64"));
    assert_eq!(sort_comparator(&VType::Double), (8, "__vit_cmp_f64"));
}

#[test]
fn map_kinds_and_their_storage() {
    let k = map_kind(&Type::Str, &Type::I32).unwrap();
    assert!(matches!(k, MapKind::StrI32));
    assert_eq!(map_tag(&k), "stri32");
    assert_eq!(map_alloc_size(&k), 65536);
    assert_eq!(map_layout(&k), (8, 4, 4096 * 8, 4096 * 12));
    assert!(map_kind(&Type::Bool, &Type::I32).is_none());
    assert_eq!(global_map_alloc_size(&Type::I64, &Type::I64), 81920);
    assert_eq!(global_map_alloc_size(&Type::Bool, &Type::Bool), 65536);
}

#[test]
fn every_slot_of_a_map_fits_its_allocation() {
    // the last slot's flag ends exactly within the allocation, for every kind
    for k in [MapKind::I32I32, MapKind::StrI32, MapKind::I32I64, MapKind::I64I32, MapKind::I64I64, MapKind::StrStr] {
        let (_kb, _vb, _values_at, flags_at) = map_layout(&k);
        assert!(flags_at + 4096 * 4 <= map_alloc_size(&k));
    }
}

#[test]
fn same_types_compare_equal() {
    assert!(same_vtype(&VType::Array(Box::new(VType::Int(32)), 3), &VType::Array(Box::new(VType::Int(32)), 3)));
    assert!(!same_vtype(&VType::Array(Box::new(VType::Int(32)), 3), &VType::Array(Box::new(VType::Int(32)), 4)));
    assert!(!same_vtype(&VType::Struct("A".to_string()), &VType::Struct("B".to_string())));
}

#[test]
fn the_last_insert_of_a_name_wins() {
    let mut t: NameTable<u32> = NameTable::new();
    t.insert("x".to_string(), 1);
    t.insert("y".to_string(), 2);
    t.insert("x".to_string(), 3);
    assert_eq!(t.get("x"), Some(&3));
    assert_eq!(t.get("y"), Some(&2));
    assert_eq!(t.get("z"), None);
    assert!(t.contains("y"));
    t.clear();
    assert!(!t.contains("x"));
    assert_eq!(t.len(), 0);
}
