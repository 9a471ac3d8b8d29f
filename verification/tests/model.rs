use winmd::codes::{AttributeType, HasAttribute, MemberRefParent, TypeDefOrRef, TypeOrMethodDef};
use winmd::file::{
    coded_width, index_width, Column, MetadataFile, Table, TABLE_CUSTOMATTRIBUTE, TABLE_FIELD, TABLE_GENERICPARAM,
    TABLE_INTERFACEIMPL, TABLE_MEMBERREF, TABLE_METHODDEF, TABLE_PARAM, TABLE_TYPEDEF,
    TABLE_TYPEREF, TABLE_TYPESPEC,
};
use winmd::flags::{MethodCategory, MethodFlags, TypeCategory, TypeFlags};
use winmd::interface::Interface;
use winmd::method_def::MethodDef;
use winmd::names::{can_resolve_all, resolve_all, without_repeats, TypeName};
use winmd::reader::Reader;
use winmd::row::{Row, RowRange};
use winmd::method::Method;
use winmd::tables::{
    Attribute, Field, GenericParam, InterfaceImpl, MemberRef, Param, TypeRef, TypeSpec,
};
use winmd::type_def::TypeDef;
use winmd::type_guid::{GuidConstant, TypeGuid};
use winmd::type_kind::{
    outermost, read_sig_elements, read_signature, signature_exists, Parameter, TypeKind,
};
use winmd::types::Type;

fn text(heap: &mut Vec<u8>, s: &str) -> u32 {
    let at = heap.len() as u32;
    heap.extend_from_slice(s.as_bytes());
    heap.push(0);
    at
}

fn blob(heap: &mut Vec<u8>, b: &[u8]) -> u32 {
    let at = heap.len() as u32;
    heap.push(b.len() as u8);
    heap.extend_from_slice(b);
    at
}

fn build(layout: Vec<(u16, Vec<usize>, Vec<Vec<u32>>)>, strings: Vec<u8>, blobs: Vec<u8>) -> MetadataFile {
    let mut bytes: Vec<u8> = Vec::new();
    let mut tables: Vec<Table> = Vec::new();
    for _ in 0..45 {
        tables.push(Table::new(0, 0, &Vec::new()).unwrap());
    }
    for (id, widths, rows) in layout {
        let offset = bytes.len();
        for row in &rows {
            assert_eq!(row.len(), widths.len());
            for (value, w) in row.iter().zip(widths.iter()) {
                for i in 0..*w {
                    bytes.push((*value >> (8 * i)) as u8);
                }
            }
        }
        tables[id as usize] = Table::new(offset, rows.len() as u32, &widths).unwrap();
    }
    let strings_at = bytes.len();
    bytes.extend_from_slice(&strings);
    let blobs_at = bytes.len();
    bytes.extend_from_slice(&blobs);
    MetadataFile::new(bytes, strings_at, blobs_at, tables).unwrap()
}

const RUNTIME: u32 = 0x4000;
const INTERFACE: u32 = 0x20;
const SPECIAL: u32 = 0x800;

fn type_ref(row: u32) -> u32 {
    (row + 1) * 4 + 1
}

/// One file with the interface `Windows.Foundation.IStringable` and a few
/// other types of every kind.
fn sample() -> Reader {
    let mut s: Vec<u8> = vec![0];
    let mut b: Vec<u8> = vec![0];
    let system = text(&mut s, "System");
    let metadata = text(&mut s, "Windows.Foundation.Metadata");
    let foundation = text(&mut s, "Windows.Foundation");
    let type_refs = vec![
        vec![0, text(&mut s, "ValueType"), system],
        vec![0, text(&mut s, "Attribute"), system],
        vec![0, text(&mut s, "ApiContractAttribute"), metadata],
        vec![0, text(&mut s, "Enum"), system],
        vec![0, text(&mut s, "MulticastDelegate"), system],
        vec![0, text(&mut s, "Object"), system],
        vec![0, text(&mut s, "GuidAttribute"), metadata],
        vec![0, text(&mut s, "IStringable"), foundation],
        vec![0, text(&mut s, "Missing"), foundation],
    ];
    let type_defs = vec![
        vec![RUNTIME | INTERFACE, text(&mut s, "IStringable"), foundation, 0, 1, 1],
        vec![RUNTIME, text(&mut s, "MyAttribute"), foundation, type_ref(1), 1, 2],
        vec![RUNTIME, text(&mut s, "PlainStruct"), foundation, type_ref(0), 1, 2],
        vec![RUNTIME, text(&mut s, "ContractStruct"), foundation, type_ref(0), 1, 2],
        vec![0, text(&mut s, "Hidden"), foundation, type_ref(5), 1, 2],
        vec![RUNTIME, text(&mut s, "MyEnum"), foundation, type_ref(3), 1, 2],
        vec![RUNTIME, text(&mut s, "MyDelegate"), foundation, type_ref(4), 1, 2],
        vec![RUNTIME, text(&mut s, "MyClass"), foundation, type_ref(5), 1, 2],
    ];
    let to_string = blob(&mut b, &[0x20, 0x00, 0x0e]);
    let nothing = blob(&mut b, &[0x20, 0x00, 0x01]);
    let two = blob(&mut b, &[0x20, 0x02, 0x12, type_ref(7) as u8, 0x08, 0x11, 0x08]);
    let methods = vec![
        vec![0, 0, 0, text(&mut s, "ToString"), to_string, 1],
        vec![0, 0, SPECIAL, text(&mut s, "get_Size"), nothing, 1],
        vec![0, 0, SPECIAL, text(&mut s, "Invoke"), nothing, 1],
        vec![0, 0, 0, text(&mut s, "Add"), two, 1],
        vec![0, 0, SPECIAL, text(&mut s, "put_Size"), nothing, 1],
        vec![0, 0, SPECIAL, text(&mut s, "add_Changed"), nothing, 1],
        vec![0, 0, SPECIAL, text(&mut s, "remove_Changed"), nothing, 1],
    ];
    let ctor = text(&mut s, ".ctor");
    let member_refs = vec![vec![7 * 8 + 1, ctor, 0], vec![3 * 8 + 1, ctor, 0]];
    let guid = blob(
        &mut b,
        &[
            0x01, 0x00, 0x54, 0x9F, 0x36, 0x96, 0xB6, 0x8E, 0xF0, 0x48, 0xAB, 0xCE, 0xC1, 0xB2, 0x11,
            0xE6, 0x27, 0xC3, 0x00, 0x00,
        ],
    );
    let contract = blob(&mut b, &[0x01, 0x00, 0x00, 0x00]);
    let attributes = vec![vec![1 * 32 + 3, 1 * 8 + 3, guid], vec![4 * 32 + 3, 2 * 8 + 3, contract]];
    let instance = blob(&mut b, &[0x15, 0x12, type_ref(7) as u8, 0x02, 0x0e, 0x12, 4]);
    let lost = blob(&mut b, &[0x15, 0x12, type_ref(8) as u8, 0x01, 0x08]);
    let type_specs = vec![vec![instance], vec![lost]];
    let interface_impls = vec![vec![8, 4], vec![8, type_ref(7)], vec![8, 1 * 4 + 2], vec![8, 2 * 4 + 2]];
    let generic_params = vec![vec![0, 0, 16, text(&mut s, "T")], vec![1, 0, 16, text(&mut s, "U")]];
    let file = build(
        vec![
            (TABLE_TYPEREF, vec![2, 4, 4], type_refs),
            (TABLE_TYPEDEF, vec![4, 4, 4, 2, 2, 2], type_defs),
            (TABLE_FIELD, vec![2, 4, 4], vec![]),
            (TABLE_METHODDEF, vec![4, 2, 2, 4, 4, 2], methods),
            (TABLE_PARAM, vec![2, 2, 4], vec![]),
            (TABLE_INTERFACEIMPL, vec![2, 2], interface_impls),
            (TABLE_MEMBERREF, vec![2, 4, 4], member_refs),
            (TABLE_CUSTOMATTRIBUTE, vec![2, 2, 4], attributes),
            (TABLE_TYPESPEC, vec![4], type_specs),
            (TABLE_GENERICPARAM, vec![2, 2, 2, 4], generic_params),
        ],
        s,
        b,
    );
    Reader { files: vec![file] }
}

/// One file with a single table, number 0, of one column of the given
/// width, holding `values`.
fn column(width: usize, values: &[u32]) -> Reader {
    let rows = values.iter().map(|v| vec![*v]).collect();
    Reader { files: vec![build(vec![(0, vec![width], rows)], vec![0], vec![0])] }
}

fn type_def(row: u32) -> TypeDef {
    TypeDef(Row::new(row, TABLE_TYPEDEF, 0))
}

fn method(row: u32) -> MethodDef {
    MethodDef(Row::new(row, TABLE_METHODDEF, 0))
}

#[test]
fn can_read_interface_from_reader() {
    let reader = &sample();
    let def = reader.resolve(("Windows.Foundation", "IStringable")).unwrap();
    let t = def.info(reader);
    let name = t.name();
    assert!(name.namespace == b"Windows.Foundation");
    assert!(name.name == b"IStringable");
    assert!(name.generics.is_empty());
    assert!(name.def == def);

    let t = match t {
        Type::Interface(t) => t,
        _ => panic!("Wrong type"),
    };

    assert!(t.methods.len() == 1);
    let method = &t.methods[0];
    assert!(method.name == b"ToString");
    assert!(method.params.is_empty());
    let param = method.return_type.as_ref().unwrap();
    assert!(param.kind == TypeKind::String);

    let guid = &t.guid;
    assert!(guid.0[0] == GuidConstant::U32(0x96369F54));
    assert!(guid.0[1] == GuidConstant::U16(0x8EB6));
    assert!(guid.0[2] == GuidConstant::U16(0x48F0));
    assert!(guid.0[3] == GuidConstant::U8(0xAB));
    assert!(guid.0[4] == GuidConstant::U8(0xCE));
    assert!(guid.0[5] == GuidConstant::U8(0xC1));
    assert!(guid.0[6] == GuidConstant::U8(0xB2));
    assert!(guid.0[7] == GuidConstant::U8(0x11));
    assert!(guid.0[8] == GuidConstant::U8(0xE6));
    assert!(guid.0[9] == GuidConstant::U8(0x27));
    assert!(guid.0[10] == GuidConstant::U8(0xC3));
}

#[test]
fn cells_are_little_endian() {
    let reader = column(4, &[0x96369F54, 7]);
    assert_eq!(reader.u32(Row::new(0, 0, 0), 0), 0x96369F54);
    assert_eq!(reader.u32(Row::new(1, 0, 0), 0), 7);
    let narrow = column(2, &[0x8EB6, 0x0102]);
    assert_eq!(narrow.u32(Row::new(0, 0, 0), 0), 0x8EB6);
    assert_eq!(narrow.u32(Row::new(1, 0, 0), 0), 0x0102);
    let byte = column(1, &[0xAB]);
    assert_eq!(byte.u32(Row::new(0, 0, 0), 0), 0xAB);
    assert_eq!(reader.row_count(0, 0), 2);
    assert_eq!(reader.row_count(0, 44), 0);
    assert_eq!(reader.row_count(0, 100), 0);
    assert_eq!(reader.row_count(3, 0), 0);
}

#[test]
fn strings_end_at_the_zero_byte() {
    let reader = sample();
    assert_eq!(type_def(0).name(&reader), (b"Windows.Foundation".to_vec(), b"IStringable".to_vec()));
    assert_eq!(method(1).name(&reader), b"get_Size".to_vec());
    assert_eq!(TypeRef(Row::new(6, TABLE_TYPEREF, 0)).name(&reader).1, b"GuidAttribute".to_vec());
    assert_eq!(MemberRef(Row::new(0, TABLE_MEMBERREF, 0)).name(&reader), b".ctor".to_vec());
    assert_eq!(GenericParam(Row::new(1, TABLE_GENERICPARAM, 0)).number(&reader), 1);
}

#[test]
fn blobs_follow_their_length_prefix() {
    let reader = sample();
    assert_eq!(method(0).sig(&reader), vec![0x20, 0x00, 0x0e]);
    assert_eq!(Attribute(Row::new(1, TABLE_CUSTOMATTRIBUTE, 0)).args(&reader), vec![1, 0, 0, 0]);
    let mut heap: Vec<u8> = vec![0x81, 0x02];
    for i in 0..258u32 {
        heap.push(i as u8);
    }
    let file = build(vec![(0, vec![2], vec![vec![0]])], vec![0], heap);
    let long = file.blob(0, 0, 0);
    assert_eq!(long.len(), 258);
    assert_eq!(long[257], 1);
    let mut heap: Vec<u8> = vec![0xC0, 0x00, 0x01, 0x03];
    for i in 0..259u32 {
        heap.push(i as u8);
    }
    let file = build(vec![(0, vec![2], vec![vec![0]])], vec![0], heap);
    assert_eq!(file.blob(0, 0, 0).len(), 259);
}

#[test]
fn equal_range_is_the_whole_run() {
    let reader = column(2, &[1, 1, 3, 3, 3, 7]);
    let found = reader.equal_range(0, 0, 0, 3);
    assert_eq!(found, RowRange { file: 0, table: 0, first: 2, last: 5 });
    assert_eq!(found.len(), 3);
    assert_eq!(found.get(0), Row::new(2, 0, 0));
    assert_eq!(found.to_vec(), vec![Row::new(2, 0, 0), Row::new(3, 0, 0), Row::new(4, 0, 0)]);
    assert_eq!(reader.equal_range(0, 0, 0, 1).to_vec(), vec![Row::new(0, 0, 0), Row::new(1, 0, 0)]);
    assert_eq!(reader.equal_range(0, 0, 0, 7).to_vec(), vec![Row::new(5, 0, 0)]);
}

#[test]
fn equal_range_of_an_absent_key_is_empty() {
    let reader = column(2, &[1, 1, 3, 3, 3, 7]);
    for key in [0, 2, 5, 8] {
        let found = reader.equal_range(0, 0, 0, key);
        assert!(found.is_empty());
        assert_eq!(found.len(), 0);
        assert_eq!(found.to_vec(), Vec::<Row>::new());
    }
    let empty = column(2, &[]);
    assert!(empty.equal_range(0, 0, 0, 1).is_empty());
    assert!(empty.equal_range(0, 7, 0, 1).is_empty());
}

#[test]
fn upper_bound_is_the_first_row_above_the_key() {
    let reader = column(2, &[1, 1, 3, 3, 3, 7]);
    assert_eq!(reader.upper_bound(0, 0, 0, 0), Row::new(0, 0, 0));
    assert_eq!(reader.upper_bound(0, 0, 0, 1), Row::new(2, 0, 0));
    assert_eq!(reader.upper_bound(0, 0, 0, 2), Row::new(2, 0, 0));
    assert_eq!(reader.upper_bound(0, 0, 0, 3), Row::new(5, 0, 0));
    assert_eq!(reader.upper_bound(0, 0, 0, 7), Row::new(6, 0, 0));
}

#[test]
fn list_of_a_sole_row_runs_to_the_end_of_the_target() {
    let owner = vec![vec![1u32]];
    let target = vec![vec![10u32], vec![11], vec![12], vec![13]];
    let reader =
        Reader { files: vec![build(vec![(0, vec![2], owner), (1, vec![2], target)], vec![0], vec![0])] };
    let found = reader.list(Row::new(0, 0, 0), 1, 0);
    assert_eq!(found, RowRange { file: 0, table: 1, first: 0, last: 4 });
    assert_eq!(found.len(), 4);
    assert_eq!(found.len(), reader.row_count(0, 1));
}

#[test]
fn list_ends_where_the_next_row_starts() {
    let owner = vec![vec![1u32], vec![3], vec![3], vec![4]];
    let target = vec![vec![10u32], vec![11], vec![12], vec![13], vec![14]];
    let reader =
        Reader { files: vec![build(vec![(0, vec![2], owner), (1, vec![2], target)], vec![0], vec![0])] };
    assert_eq!(reader.list(Row::new(0, 0, 0), 1, 0).to_vec(), vec![Row::new(0, 1, 0), Row::new(1, 1, 0)]);
    assert!(reader.list(Row::new(1, 0, 0), 1, 0).is_empty());
    assert_eq!(reader.list(Row::new(2, 0, 0), 1, 0).to_vec(), vec![Row::new(2, 1, 0)]);
    assert_eq!(reader.list(Row::new(3, 0, 0), 1, 0).to_vec(), vec![Row::new(3, 1, 0), Row::new(4, 1, 0)]);
}

#[test]
fn coded_indexes_round_trip() {
    for code in [4u32, 5, 6, 8, 0xFFFF_FFFC, 0xFFFF_FFFD, 0xFFFF_FFFE] {
        assert_eq!(TypeDefOrRef::decode(code, 3).encode(), code);
    }
    for code in [2u32, 3, 0xFFFF_FFFE, 0xFFFF_FFFF] {
        assert_eq!(TypeOrMethodDef::decode(code, 0).encode(), code);
    }
    for tag in [0u32, 1, 2, 3, 4, 5, 6, 13, 19] {
        for index in [1u32, 2, 0x07FF_FFFF] {
            let code = index * 32 + tag;
            assert_eq!(HasAttribute::decode(code, 0).encode(), code);
        }
    }
    for tag in [0u32, 1, 3, 4] {
        for index in [1u32, 0x1FFF_FFFF] {
            let code = index * 8 + tag;
            assert_eq!(MemberRefParent::decode(code, 0).encode(), code);
        }
    }
    for tag in [2u32, 3] {
        for index in [1u32, 0x1FFF_FFFF] {
            let code = index * 8 + tag;
            assert_eq!(AttributeType::decode(code, 0).encode(), code);
        }
    }
}

#[test]
fn coded_indexes_name_table_and_row() {
    assert_eq!(TypeDefOrRef::decode(4, 2), TypeDefOrRef::TypeDef(TypeDef(Row::new(0, TABLE_TYPEDEF, 2))));
    assert_eq!(TypeDefOrRef::decode(9, 0), TypeDefOrRef::TypeRef(TypeRef(Row::new(1, TABLE_TYPEREF, 0))));
    assert_eq!(TypeDefOrRef::decode(14, 0), TypeDefOrRef::TypeSpec(TypeSpec(Row::new(2, TABLE_TYPESPEC, 0))));
    assert_eq!(HasAttribute::TypeDef(type_def(0)).encode(), 35);
    assert_eq!(HasAttribute::MethodDef(method(2)).encode(), 96);
    assert_eq!(TypeOrMethodDef::TypeDef(type_def(4)).encode(), 10);
    assert_eq!(
        AttributeType::decode(11, 0),
        AttributeType::MemberRef(MemberRef(Row::new(0, TABLE_MEMBERREF, 0)))
    );
    assert_eq!(
        MemberRefParent::decode(57, 0),
        MemberRefParent::TypeRef(TypeRef(Row::new(6, TABLE_TYPEREF, 0)))
    );
}

#[test]
fn method_category_goes_by_flag_and_name() {
    let reader = sample();
    assert_eq!(method(1).category(&reader), MethodCategory::Get);
    assert_eq!(method(2).category(&reader), MethodCategory::Normal);
    assert_eq!(method(3).category(&reader), MethodCategory::Normal);
    assert_eq!(method(4).category(&reader), MethodCategory::Put);
    assert_eq!(method(5).category(&reader), MethodCategory::Add);
    assert_eq!(method(6).category(&reader), MethodCategory::Remove);
    assert_eq!(method(0).category(&reader), MethodCategory::Normal);
    assert!(method(1).flags(&reader).special());
    assert!(!method(3).flags(&reader).special());
    assert_eq!(method(1).flags(&reader), MethodFlags(0x800));
}

#[test]
fn method_rows_and_owner() {
    let reader = sample();
    assert!(method(0).params(&reader).is_empty());
    assert!(method(0).parent_exists(&reader));
    assert_eq!(method(0).parent(&reader), type_def(0));
    assert_eq!(method(1).parent(&reader), type_def(7));
    assert_eq!(method(2).parent(&reader), type_def(7));
    assert_eq!(method(6).parent(&reader), type_def(7));
    for row in 0..7 {
        let owner = method(row).parent(&reader);
        assert!(owner.methods(&reader).to_vec().contains(&Row::new(row, TABLE_METHODDEF, 0)));
    }
    let late = column(2, &[0, 0, 0, 0, 0, 3, 5]);
    let mut types = late.files.into_iter().next().unwrap();
    types.tables[TABLE_TYPEDEF as usize] = Table {
        offset: 0,
        rows: 2,
        width: 14,
        columns: vec![
            Column { offset: 0, width: 2 },
            Column { offset: 2, width: 2 },
            Column { offset: 4, width: 2 },
            Column { offset: 6, width: 2 },
            Column { offset: 8, width: 2 },
            Column { offset: 10, width: 2 },
        ],
    };
    types.bytes = vec![0, 0, 0, 0, 0, 0, 0, 0, 0, 0, 3, 0, 0, 0, 0, 0, 0, 0, 0, 0, 0, 0, 0, 0, 5, 0, 0, 0];
    let late = Reader { files: vec![types] };
    assert!(late.is_well_formed());
    assert!(!method(0).parent_exists(&late));
    assert!(!method(1).parent_exists(&late));
    assert!(method(2).parent_exists(&late));
    assert_eq!(method(2).parent(&late), type_def(0));
    assert_eq!(method(3).parent(&late), type_def(0));
    assert_eq!(method(4).parent(&late), type_def(1));
    assert!(method(0).attributes(&reader).is_empty());
}

#[test]
fn ignore_follows_flags_base_and_attributes() {
    let reader = sample();
    assert!(!type_def(0).ignore(&reader));
    assert!(type_def(1).ignore(&reader));
    assert!(type_def(2).ignore(&reader));
    assert!(!type_def(3).ignore(&reader));
    assert!(type_def(4).ignore(&reader));
    assert!(!type_def(5).ignore(&reader));
    assert!(!type_def(7).ignore(&reader));
}

#[test]
fn type_category_goes_by_flag_and_base() {
    let reader = sample();
    assert_eq!(type_def(0).category(&reader), TypeCategory::Interface);
    assert_eq!(type_def(2).category(&reader), TypeCategory::Struct);
    assert_eq!(type_def(5).category(&reader), TypeCategory::Enum);
    assert_eq!(type_def(6).category(&reader), TypeCategory::Delegate);
    assert_eq!(type_def(7).category(&reader), TypeCategory::Class);
    assert_eq!(type_def(1).category(&reader), TypeCategory::Class);
    assert_eq!(type_def(0).flags(&reader), TypeFlags(0x4020));
    assert!(type_def(0).flags(&reader).windows_runtime());
    assert!(type_def(0).flags(&reader).interface());
    assert!(!type_def(4).flags(&reader).windows_runtime());
}

#[test]
fn type_rows() {
    let reader = sample();
    assert_eq!(type_def(0).methods(&reader).to_vec(), vec![Row::new(0, TABLE_METHODDEF, 0)]);
    assert!(type_def(1).methods(&reader).is_empty());
    assert_eq!(type_def(7).methods(&reader).len(), 6);
    assert!(type_def(0).fields(&reader).is_empty());
    assert_eq!(type_def(0).fields(&reader).table, TABLE_FIELD);
    assert!(type_def(0).generics(&reader).is_empty());
    assert_eq!(type_def(0).generics(&reader).table, TABLE_GENERICPARAM);
    assert_eq!(type_def(7).interfaces(&reader).len(), 4);
    assert_eq!(type_def(7).interfaces(&reader).table, TABLE_INTERFACEIMPL);
    assert!(type_def(0).interfaces(&reader).is_empty());
    assert_eq!(type_def(0).attributes(&reader).to_vec(), vec![Row::new(0, TABLE_CUSTOMATTRIBUTE, 0)]);
    assert_eq!(type_def(3).attributes(&reader).to_vec(), vec![Row::new(1, TABLE_CUSTOMATTRIBUTE, 0)]);
    assert!(type_def(2).attributes(&reader).is_empty());
    assert_eq!(type_def(1).extends(&reader), TypeDefOrRef::TypeRef(TypeRef(Row::new(1, TABLE_TYPEREF, 0))));
    assert_eq!(type_def(1).extends(&reader).name(&reader), (b"System".to_vec(), b"Attribute".to_vec()));
}

#[test]
fn attributes_are_found_by_the_name_of_their_type() {
    let reader = sample();
    let guid = ("Windows.Foundation.Metadata", "GuidAttribute");
    let contract = ("Windows.Foundation.Metadata", "ApiContractAttribute");
    assert!(type_def(0).has_attribute(&reader, guid));
    assert!(!type_def(0).has_attribute(&reader, contract));
    assert!(type_def(3).has_attribute(&reader, contract));
    assert!(!type_def(2).has_attribute(&reader, contract));
    assert_eq!(type_def(0).attribute(&reader, guid), Attribute(Row::new(0, TABLE_CUSTOMATTRIBUTE, 0)));
    assert_eq!(type_def(3).attribute(&reader, contract), Attribute(Row::new(1, TABLE_CUSTOMATTRIBUTE, 0)));
    let attribute = Attribute(Row::new(0, TABLE_CUSTOMATTRIBUTE, 0));
    assert_eq!(attribute.name(&reader), (b"Windows.Foundation.Metadata".to_vec(), b"GuidAttribute".to_vec()));
    assert_eq!(
        attribute.constructor(&reader),
        AttributeType::MemberRef(MemberRef(Row::new(0, TABLE_MEMBERREF, 0)))
    );
}

#[test]
fn resolve_finds_the_first_type_of_the_name() {
    let reader = sample();
    assert_eq!(reader.resolve(("Windows.Foundation", "MyClass")), Some(type_def(7)));
    assert_eq!(reader.resolve(("Windows.Foundation", "Missing")), None);
    assert_eq!(reader.resolve(("Windows", "MyClass")), None);
    let mut two = sample();
    two.files.insert(0, column(2, &[1]).files.remove(0));
    assert_eq!(
        two.resolve(("Windows.Foundation", "IStringable")),
        Some(TypeDef(Row::new(0, TABLE_TYPEDEF, 1)))
    );
    assert_eq!(TypeRef(Row::new(7, TABLE_TYPEREF, 0)).resolve(&reader), Some(type_def(0)));
    assert_eq!(TypeRef(Row::new(8, TABLE_TYPEREF, 0)).resolve(&reader), None);
}

#[test]
fn guid_that_was_not_computed() {
    let guid = TypeGuid::new();
    assert_eq!(guid.0.len(), 11);
    for constant in guid.0.iter() {
        assert_eq!(*constant, GuidConstant::U8(0));
    }
    assert_eq!(TypeGuid::default(), guid);
    assert_eq!(GuidConstant::default(), GuidConstant::U8(0));
}

#[test]
fn guid_from_attribute_value() {
    let args: Vec<u8> = vec![1, 0, 1, 2, 3, 4, 5, 6, 7, 8, 9, 10, 11, 12, 13, 14, 15, 16, 0, 0];
    let guid = TypeGuid::from_args(&args);
    assert_eq!(guid.0[0], GuidConstant::U32(0x04030201));
    assert_eq!(guid.0[1], GuidConstant::U16(0x0605));
    assert_eq!(guid.0[2], GuidConstant::U16(0x0807));
    assert_eq!(guid.0[3], GuidConstant::U8(9));
    assert_eq!(guid.0[10], GuidConstant::U8(16));
}

#[test]
fn signatures_give_return_type_and_parameters() {
    let string = TypeDefOrRef::TypeRef(TypeRef(Row::new(7, TABLE_TYPEREF, 0)));
    let sig: Vec<u8> = vec![0x20, 0x02, 0x12, 33, 0x08, 0x11, 0x08];
    let (returns, params) = read_signature(&sig, 0);
    assert_eq!(returns, Some(Parameter { kind: TypeKind::Type(string) }));
    assert_eq!(
        params,
        vec![
            Parameter { kind: TypeKind::I32 },
            Parameter { kind: TypeKind::Type(TypeDefOrRef::TypeDef(type_def(1))) },
        ]
    );
    let sig: Vec<u8> = vec![0x00, 0x03, 0x01, 0x13, 0x01, 0x0e, 0x1c];
    let (returns, params) = read_signature(&sig, 0);
    assert_eq!(returns, None);
    assert_eq!(
        params,
        vec![
            Parameter { kind: TypeKind::Var(1) },
            Parameter { kind: TypeKind::String },
            Parameter { kind: TypeKind::Object },
        ]
    );
}

#[test]
fn dependencies_are_the_types_referred_to() {
    let reader = sample();
    let class = Interface {
        name: TypeName::from_type_def(&reader, type_def(7)),
        guid: TypeGuid::new(),
        methods: type_def(7)
            .methods(&reader)
            .to_vec()
            .into_iter()
            .map(|row| Method::from_method_def(&reader, MethodDef(row), &Vec::new()))
            .collect(),
        interfaces: Vec::new(),
    };
    assert_eq!(class.methods.len(), 6);
    assert_eq!(class.methods[2].name, b"Add".to_vec());
    assert_eq!(class.methods[2].kind, MethodCategory::Normal);
    assert_eq!(
        class.methods[2].references(),
        vec![
            TypeDefOrRef::TypeRef(TypeRef(Row::new(7, TABLE_TYPEREF, 0))),
            TypeDefOrRef::TypeDef(type_def(1)),
        ]
    );
    assert!(can_resolve_all(&reader, &class.methods[2].references()));
    assert_eq!(class.methods[2].dependencies(&reader), vec![type_def(0), type_def(1)]);
    assert_eq!(class.references(), class.methods[2].references());
    assert_eq!(class.dependencies(&reader), vec![type_def(0), type_def(1)]);
    let lost = vec![
        TypeDefOrRef::TypeRef(TypeRef(Row::new(8, TABLE_TYPEREF, 0))),
        TypeDefOrRef::TypeDef(type_def(3)),
        TypeDefOrRef::TypeSpec(TypeSpec(Row::new(0, TABLE_TYPESPEC, 0))),
    ];
    assert_eq!(resolve_all(&reader, &lost), vec![type_def(3)]);
    assert!(!can_resolve_all(&reader, &vec![TypeDefOrRef::TypeDef(type_def(9))]));
    let stringable = Interface::from_type_def(&reader, type_def(0));
    assert!(stringable.dependencies(&reader).is_empty());
    assert!(stringable.interfaces.is_empty());
}

#[test]
fn interfaces_from_implementations() {
    let reader = sample();
    let rows = type_def(7).interfaces(&reader);
    let direct = Interface::from_interface_impl(&reader, InterfaceImpl(rows.get(0))).unwrap();
    assert_eq!(direct.name.name, b"IStringable".to_vec());
    assert_eq!(direct.methods.len(), 1);
    let named = Interface::from_interface_impl(&reader, InterfaceImpl(rows.get(1))).unwrap();
    assert_eq!(named.name.def, type_def(0));
    assert_eq!(named.guid.0[0], GuidConstant::U32(0x96369F54));
    let instance = Interface::from_interface_impl(&reader, InterfaceImpl(rows.get(2))).unwrap();
    assert_eq!(instance.name.def, type_def(0));
    assert_eq!(instance.name.namespace, b"Windows.Foundation".to_vec());
    assert_eq!(
        instance.name.generics,
        vec![TypeKind::String, TypeKind::Type(TypeDefOrRef::TypeDef(type_def(0)))]
    );
    assert_eq!(instance.guid, TypeGuid::new());
    assert!(instance.methods.is_empty());
    assert_eq!(instance.references(), vec![TypeDefOrRef::TypeDef(type_def(0))]);
    assert_eq!(instance.dependencies(&reader), vec![type_def(0)]);
    assert!(Interface::from_interface_impl(&reader, InterfaceImpl(rows.get(3))).is_none());
    assert_eq!(
        InterfaceImpl(rows.get(1)).interface(&reader),
        TypeDefOrRef::TypeRef(TypeRef(Row::new(7, TABLE_TYPEREF, 0)))
    );
}

#[test]
fn types_other_than_interfaces_are_held_by_name() {
    let reader = sample();
    match type_def(5).info(&reader) {
        Type::Enum(name) => assert_eq!(name.name, b"MyEnum".to_vec()),
        _ => panic!("Wrong type"),
    }
    match Type::from_type_def(&reader, type_def(7)) {
        Type::Class(name) => assert_eq!(name.def, type_def(7)),
        _ => panic!("Wrong type"),
    }
    assert!(matches!(type_def(2).info(&reader), Type::Struct(_)));
    assert!(matches!(type_def(6).info(&reader), Type::Delegate(_)));
}

#[test]
fn column_widths_follow_table_sizes() {
    assert_eq!(index_width(0), 2);
    assert_eq!(index_width(65535), 2);
    assert_eq!(index_width(65536), 4);
    assert_eq!(index_width(u32::MAX), 4);
    assert_eq!(coded_width(16383, 4), 2);
    assert_eq!(coded_width(16384, 4), 4);
    assert_eq!(coded_width(2047, 32), 2);
    assert_eq!(coded_width(2048, 32), 4);
    assert_eq!(coded_width(32767, 2), 2);
    assert_eq!(coded_width(32768, 2), 4);
}

#[test]
fn tables_are_laid_out_without_gaps() {
    let table = Table::new(10, 3, &vec![4, 2, 2]).unwrap();
    assert_eq!(table.offset, 10);
    assert_eq!(table.rows, 3);
    assert_eq!(table.width, 8);
    assert_eq!(
        table.columns,
        vec![
            Column { offset: 0, width: 4 },
            Column { offset: 4, width: 2 },
            Column { offset: 6, width: 2 },
        ]
    );
    assert_eq!(Table::new(0, 1, &vec![usize::MAX, 1]), None);
    assert!(table.is_well_formed(34));
    assert!(!table.is_well_formed(33));
}

#[test]
fn files_are_checked_when_made() {
    let table = Table::new(0, 2, &vec![2]).unwrap();
    assert!(MetadataFile::new(vec![0; 4], 4, 4, vec![table.clone()]).is_some());
    assert!(MetadataFile::new(vec![0; 3], 3, 3, vec![table]).is_none());
    let odd = Table { offset: 0, rows: 1, width: 3, columns: vec![Column { offset: 0, width: 3 }] };
    assert!(MetadataFile::new(vec![0; 8], 8, 8, vec![odd]).is_none());
    let wide = Table { offset: 0, rows: 1, width: 2, columns: vec![Column { offset: 1, width: 2 }] };
    assert!(MetadataFile::new(vec![0; 8], 8, 8, vec![wide]).is_none());
    let huge = Table { offset: 1, rows: u32::MAX, width: usize::MAX, columns: vec![] };
    assert!(MetadataFile::new(vec![0; 8], 8, 8, vec![huge]).is_none());
    assert!(sample().is_well_formed());
    let mut broken = sample();
    broken.files[0].bytes.truncate(10);
    assert!(!broken.is_well_formed());
}

#[test]
fn cells_texts_and_blobs_can_be_asked_for() {
    let reader = sample();
    assert!(reader.cell_exists(Row::new(0, TABLE_TYPEDEF, 0), 5));
    assert!(!reader.cell_exists(Row::new(0, TABLE_TYPEDEF, 0), 6));
    assert!(!reader.cell_exists(Row::new(8, TABLE_TYPEDEF, 0), 0));
    assert!(!reader.cell_exists(Row::new(0, TABLE_TYPEDEF, 1), 0));
    assert!(!reader.cell_exists(Row::new(0, 200, 0), 0));
    assert!(reader.text_exists(Row::new(0, TABLE_TYPEDEF, 0), 1));
    assert!(!reader.text_exists(Row::new(9, TABLE_TYPEDEF, 0), 1));
    assert!(reader.blob_exists(Row::new(0, TABLE_METHODDEF, 0), 4));
    assert!(!reader.blob_exists(Row::new(0, TABLE_METHODDEF, 0), 9));
    let open = build(
        vec![(0, vec![2, 2], vec![vec![1, 1], vec![4, 9], vec![0, 3], vec![9, 0]])],
        vec![0, 65, 66],
        vec![0, 2, 7, 0x80],
    );
    assert!(open.text_exists(0, 0, 0));
    assert_eq!(open.str(0, 0, 0), vec![65, 66]);
    assert!(!open.text_exists(1, 0, 0));
    assert!(!open.text_exists(3, 0, 0));
    assert!(open.text_exists(2, 0, 0));
    assert_eq!(open.str(2, 0, 0), Vec::<u8>::new());
    assert!(open.blob_exists(0, 0, 1));
    assert_eq!(open.blob(0, 0, 1), vec![7, 0x80]);
    assert!(!open.blob_exists(1, 0, 1));
    assert!(!open.blob_exists(2, 0, 1));
}

#[test]
fn generic_parameters_stand_for_themselves() {
    let reader = sample();
    let rows = type_def(7).generics(&reader);
    assert_eq!(rows.to_vec(), vec![Row::new(0, TABLE_GENERICPARAM, 0), Row::new(1, TABLE_GENERICPARAM, 0)]);
    assert_eq!(GenericParam(rows.get(0)).name(&reader), b"T".to_vec());
    assert_eq!(GenericParam(rows.get(1)).name(&reader), b"U".to_vec());
    let name = TypeName::from_type_def(&reader, type_def(7));
    assert_eq!(
        name.generics,
        vec![
            TypeKind::Generic(GenericParam(Row::new(0, TABLE_GENERICPARAM, 0))),
            TypeKind::Generic(GenericParam(Row::new(1, TABLE_GENERICPARAM, 0))),
        ]
    );
    assert!(name.dependencies(&reader).is_empty());
    let method = Method::from_method_def(&reader, method(1), &name.generics);
    assert_eq!(method.generics, name.generics);
    assert_eq!(method.kind, MethodCategory::Get);
    assert_eq!(method.return_type, None);
}

#[test]
fn checks_tell_what_the_file_holds() {
    let reader = sample();
    assert!(reader.is_well_formed());
    assert!(reader.type_names_exist());
    for row in 0..8 {
        assert!(type_def(row).can_ignore(&reader));
        assert!(type_def(row).name_exists(&reader));
        assert!(type_def(row).attributes_exist(&reader));
        assert_eq!(Type::can_build(&reader, type_def(row)), row != 4);
        assert_eq!(Interface::can_build(&reader, type_def(row)), row == 0);
        assert_eq!(type_def(row).extends_exists(&reader), row != 0);
        assert_eq!(type_def(row).base_exists(&reader), row != 0);
        assert!(type_def(row).can_category(&reader));
    }
    assert!(!type_def(8).can_ignore(&reader));
    assert!(!type_def(8).can_category(&reader));
    assert!(!Type::can_build(&reader, type_def(8)));
    for row in 0..7 {
        assert!(method(row).can_category(&reader));
        assert!(Method::can_build(&reader, method(row)));
    }
    assert!(!method(7).can_category(&reader));
    assert!(!Method::can_build(&reader, method(7)));
    let rows = type_def(7).interfaces(&reader);
    for i in 0..4 {
        let key = InterfaceImpl(rows.get(i));
        assert!(key.interface_exists(&reader));
        assert!(Interface::can_build_code(&reader, key.interface(&reader)));
    }
    assert!(!Interface::can_build_code(&reader, TypeDefOrRef::TypeDef(type_def(7))));
    assert!(!Interface::can_build_code(&reader, TypeDefOrRef::TypeSpec(TypeSpec(Row::new(2, TABLE_TYPESPEC, 0)))));
    assert!(reader.list_exists(Row::new(0, TABLE_TYPEDEF, 0), 5));
    assert!(!reader.list_exists(Row::new(0, TABLE_TYPEDEF, 0), 3));
    assert!(reader.column_exists(0, TABLE_PARAM, 9));
    assert!(!reader.column_exists(0, TABLE_TYPEDEF, 6));
    assert!(!reader.column_exists(1, TABLE_TYPEDEF, 0));
    assert!(Attribute(Row::new(0, TABLE_CUSTOMATTRIBUTE, 0)).name_exists(&reader));
    assert!(!Attribute(Row::new(2, TABLE_CUSTOMATTRIBUTE, 0)).name_exists(&reader));
    assert!(TypeDefOrRef::is_valid(4));
    assert!(!TypeDefOrRef::is_valid(3));
    assert!(!TypeDefOrRef::is_valid(7));
    assert!(HasAttribute::is_valid(32 + 19));
    assert!(!HasAttribute::is_valid(32 + 7));
    assert!(!AttributeType::is_valid(8));
    assert!(!MemberRefParent::is_valid(8 + 2));
    assert!(!TypeOrMethodDef::is_valid(1));
}

#[test]
fn signatures_that_cannot_be_read_are_told() {
    assert!(signature_exists(&vec![0x20, 0x00, 0x0e]));
    assert!(signature_exists(&vec![0x20, 0x00, 0x01]));
    assert!(signature_exists(&vec![0x20, 0x02, 0x12, 33, 0x08, 0x11, 0x08]));
    assert!(!signature_exists(&vec![]));
    assert!(!signature_exists(&vec![0x20]));
    assert!(!signature_exists(&vec![0x20, 0x00]));
    assert!(!signature_exists(&vec![0x20, 0x01, 0x0e]));
    assert!(!signature_exists(&vec![0x20, 0x00, 0x15]));
    assert!(!signature_exists(&vec![0x20, 0x00, 0x12]));
    assert!(!signature_exists(&vec![0x20, 0x00, 0x12, 3]));
    assert!(!signature_exists(&vec![0x20, 0x80]));
    assert!(TypeName::instance_exists(&vec![0x15, 0x12, 33, 0x02, 0x0e, 0x12, 4]));
    assert!(!TypeName::instance_exists(&vec![0x15, 0x12, 33, 0x02, 0x0e]));
    assert!(!TypeName::instance_exists(&vec![0x14, 0x12, 33, 0x00]));
    assert!(!TypeName::instance_exists(&vec![0x15, 0x13, 33, 0x00]));
    assert!(TypeName::instance_exists(&vec![0x15, 0x11, 33, 0x00]));
}

#[test]
fn fields_and_parameters_are_read_from_their_rows() {
    let mut s: Vec<u8> = vec![0];
    let mut b: Vec<u8> = vec![0];
    let fields = vec![vec![6, text(&mut s, "Width"), blob(&mut b, &[0x06, 0x08])]];
    let params = vec![vec![0, 0, text(&mut s, "")], vec![0, 1, text(&mut s, "value")]];
    let file = build(vec![(TABLE_FIELD, vec![2, 4, 4], fields), (TABLE_PARAM, vec![2, 2, 4], params)], s, b);
    let reader = Reader { files: vec![file] };
    let field = Field(Row::new(0, TABLE_FIELD, 0));
    assert_eq!(field.name(&reader), b"Width".to_vec());
    assert_eq!(field.sig(&reader), vec![0x06, 0x08]);
    let param = Param(Row::new(1, TABLE_PARAM, 0));
    assert_eq!(param.name(&reader), b"value".to_vec());
    assert_eq!(param.sequence(&reader), 1);
    assert_eq!(Param(Row::new(0, TABLE_PARAM, 0)).sequence(&reader), 0);
}

#[test]
fn signatures_with_arrays_references_and_instantiations() {
    let stringable = TypeDefOrRef::TypeRef(TypeRef(Row::new(7, TABLE_TYPEREF, 0)));
    let first = TypeDefOrRef::TypeDef(type_def(1));
    let sig: Vec<u8> = vec![
        0x20, 0x02, 0x15, 0x12, 8, 0x02, 0x0e, 0x13, 0x00, 0x1d, 0x0e, 0x10, 0x15, 0x12, 33, 0x01, 0x1d,
        0x08,
    ];
    assert!(signature_exists(&sig));
    let (returns, params) = read_signature(&sig, 0);
    assert_eq!(returns, Some(Parameter { kind: TypeKind::Instance(first, 2) }));
    assert_eq!(params, vec![Parameter { kind: TypeKind::Array }, Parameter { kind: TypeKind::ByRef }]);
    assert_eq!(
        read_sig_elements(&sig, 0),
        vec![
            TypeKind::Instance(first, 2),
            TypeKind::String,
            TypeKind::Var(0),
            TypeKind::Array,
            TypeKind::String,
            TypeKind::ByRef,
            TypeKind::Instance(stringable, 1),
            TypeKind::Array,
            TypeKind::I32,
        ]
    );
    let modified: Vec<u8> = vec![0x00, 0x01, 0x01, 0x1f, 33, 0x1e, 0x02];
    assert!(signature_exists(&modified));
    let (returns, params) = read_signature(&modified, 0);
    assert_eq!(returns, None);
    assert_eq!(params, vec![Parameter { kind: TypeKind::Modified(stringable) }]);
    assert_eq!(
        read_sig_elements(&modified, 0),
        vec![TypeKind::Modified(stringable), TypeKind::MethodVar(2)]
    );
    for cut in 2..sig.len() {
        assert!(!signature_exists(&sig[..cut].to_vec()));
    }
    assert!(!signature_exists(&vec![0x20, 0x00, 0x15, 0x13, 8, 0x00]));
    assert!(!signature_exists(&vec![0x20, 0x00, 0x1d]));
    assert!(!signature_exists(&vec![0x20, 0x00, 0x14]));
}

#[test]
fn nested_references_are_dependencies() {
    let mut s: Vec<u8> = vec![0];
    let mut b: Vec<u8> = vec![0];
    let space = text(&mut s, "N");
    let types = vec![
        vec![RUNTIME | INTERFACE, text(&mut s, "IList"), space, 0, 1, 1],
        vec![RUNTIME | INTERFACE, text(&mut s, "IItem"), space, 0, 1, 2],
    ];
    let sig = blob(&mut b, &[0x20, 0x01, 0x01, 0x1d, 0x15, 0x12, 4, 0x01, 0x12, 8]);
    let methods = vec![vec![0, 0, 0, text(&mut s, "Fill"), sig, 1]];
    let file = build(
        vec![
            (TABLE_TYPEDEF, vec![4, 4, 4, 2, 2, 2], types),
            (TABLE_METHODDEF, vec![4, 2, 2, 4, 4, 2], methods),
        ],
        s,
        b,
    );
    let reader = Reader { files: vec![file] };
    assert!(Method::can_build(&reader, method(0)));
    let fill = Method::from_method_def(&reader, method(0), &Vec::new());
    assert_eq!(fill.params, vec![Parameter { kind: TypeKind::Array }]);
    assert_eq!(
        fill.elements,
        vec![
            TypeKind::Array,
            TypeKind::Instance(TypeDefOrRef::TypeDef(type_def(0)), 1),
            TypeKind::Type(TypeDefOrRef::TypeDef(type_def(1))),
        ]
    );
    assert_eq!(fill.dependencies(&reader), vec![type_def(0), type_def(1)]);
    assert_eq!(method(0).parent(&reader), type_def(0));
}

#[test]
fn dependencies_hold_each_definition_once() {
    let mut s: Vec<u8> = vec![0];
    let mut b: Vec<u8> = vec![0];
    let space = text(&mut s, "N");
    let types = vec![
        vec![RUNTIME | INTERFACE, text(&mut s, "IList"), space, 0, 1, 1],
        vec![RUNTIME | INTERFACE, text(&mut s, "IItem"), space, 0, 1, 3],
    ];
    let add = blob(&mut b, &[0x20, 0x01, 0x01, 0x12, 8]);
    let find = blob(&mut b, &[0x20, 0x01, 0x12, 8, 0x15, 0x12, 4, 0x01, 0x12, 8]);
    let methods =
        vec![vec![0, 0, 0, text(&mut s, "Add"), add, 1], vec![0, 0, 0, text(&mut s, "Find"), find, 1]];
    let file = build(
        vec![
            (TABLE_TYPEDEF, vec![4, 4, 4, 2, 2, 2], types),
            (TABLE_METHODDEF, vec![4, 2, 2, 4, 4, 2], methods),
        ],
        s,
        b,
    );
    let reader = Reader { files: vec![file] };
    let list = TypeDefOrRef::TypeDef(type_def(0));
    let item = TypeDefOrRef::TypeDef(type_def(1));
    let mut name = TypeName::from_type_def(&reader, type_def(0));
    name.generics = vec![TypeKind::Type(item), TypeKind::Type(item)];
    assert_eq!(name.dependencies(&reader), vec![type_def(1)]);
    let interface = Interface {
        name,
        guid: TypeGuid::new(),
        methods: vec![
            Method::from_method_def(&reader, method(0), &Vec::new()),
            Method::from_method_def(&reader, method(1), &Vec::new()),
        ],
        interfaces: Vec::new(),
    };
    assert!(interface.are_methods_tied());
    assert_eq!(interface.references(), vec![item, item, item, item, list, item]);
    assert!(can_resolve_all(&reader, &interface.references()));
    assert_eq!(interface.dependencies(&reader), vec![type_def(1), type_def(0)]);
    assert_eq!(interface.methods[1].references(), vec![item, list, item]);
    assert_eq!(interface.methods[1].dependencies(&reader), vec![type_def(1), type_def(0)]);
    assert_eq!(interface.methods[0].dependencies(&reader), vec![type_def(1)]);
    assert_eq!(
        without_repeats(&vec![type_def(3), type_def(1), type_def(3), type_def(1), type_def(2)]),
        vec![type_def(3), type_def(1), type_def(2)]
    );
    assert!(without_repeats(&Vec::new()).is_empty());
}

#[test]
fn elements_are_tied_to_parameters_and_return_value() {
    let reader = sample();
    for row in 0..7 {
        assert!(Method::from_method_def(&reader, method(row), &Vec::new()).is_tied());
    }
    let item = TypeDefOrRef::TypeDef(type_def(1));
    let mut made = Method::from_method_def(&reader, method(3), &Vec::new());
    assert_eq!(
        outermost(&made.elements),
        vec![made.return_type.unwrap().kind, made.params[0].kind, made.params[1].kind]
    );
    made.elements.push(TypeKind::Type(item));
    assert!(!made.is_tied());
    made.elements.pop();
    assert!(made.is_tied());
    made.params.pop();
    assert!(!made.is_tied());
    made.elements = vec![TypeKind::Array];
    assert!(!made.is_tied());
    let nested = vec![
        TypeKind::Instance(item, 2),
        TypeKind::Array,
        TypeKind::String,
        TypeKind::I32,
        TypeKind::ByRef,
        TypeKind::Type(item),
        TypeKind::Bool,
    ];
    assert_eq!(outermost(&nested), vec![TypeKind::Instance(item, 2), TypeKind::ByRef, TypeKind::Bool]);
    assert!(outermost(&Vec::new()).is_empty());
    let late = Interface {
        name: TypeName::from_type_def(&reader, type_def(7)),
        guid: TypeGuid::new(),
        methods: vec![made],
        interfaces: Vec::new(),
    };
    assert!(!late.are_methods_tied());
}
