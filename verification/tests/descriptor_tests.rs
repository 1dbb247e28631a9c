use search_writer::descriptor::{encode_descriptor, IndexDescriptor};
use search_writer::document::{SearchFieldDef, SearchFieldType};

#[test]
fn descriptor_encoding_is_exact() {
    let record = IndexDescriptor {
        fields: vec![
            SearchFieldDef { name: "id".to_string(), field_type: SearchFieldType::Unsigned },
            SearchFieldDef { name: "body".to_string(), field_type: SearchFieldType::Text },
        ],
        uuid: "ab".to_string(),
        key_field_index: 0,
        is_dirty: false,
        is_pending_drop: false,
        is_pending_create: true,
    };
    let bytes = encode_descriptor(&record);
    let expected: Vec<u8> = vec![
        1, // format version
        0, 0, 1, // dirty, pending drop, pending create
        0, 0, 0, 0, 0, 0, 0, 0, // key field index
        2, 0, 0, 0, 0, 0, 0, 0, b'a', b'b', // uuid
        2, 0, 0, 0, 0, 0, 0, 0, // field count
        0, // unsigned field
        2, 0, 0, 0, 0, 0, 0, 0, b'i', b'd', // its name
        1, // text field
        4, 0, 0, 0, 0, 0, 0, 0, b'b', b'o', b'd', b'y', // its name
    ];
    assert_eq!(bytes, expected);
}

#[test]
fn descriptor_encoding_reflects_the_flags() {
    let record = IndexDescriptor {
        fields: vec![],
        uuid: "".to_string(),
        key_field_index: 3,
        is_dirty: true,
        is_pending_drop: true,
        is_pending_create: false,
    };
    let bytes = encode_descriptor(&record);
    let expected: Vec<u8> = vec![
        1, // format version
        1, 1, 0, // dirty, pending drop, pending create
        3, 0, 0, 0, 0, 0, 0, 0, // key field index
        0, 0, 0, 0, 0, 0, 0, 0, // empty uuid
        0, 0, 0, 0, 0, 0, 0, 0, // no fields
    ];
    assert_eq!(bytes, expected);
}
