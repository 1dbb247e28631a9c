//! The persisted index descriptor.
//!
//! Index creation writes one record into the index directory so that
//! other processes opening the directory later observe a consistent
//! definition: the field schema, the creator's unique id, and the
//! lifecycle flags. The record is written exactly once, at creation
//! time, and never mutated afterwards by this crate.
//!
//! The byte format is this crate's own: a version byte, the three
//! lifecycle flags, the key field index, the uuid, and the field list;
//! every integer is little-endian, every string is length-prefixed
//! utf-8.

use vstd::prelude::*;

use crate::document::{SearchFieldDef, SearchFieldType};

verus! {

/// First byte of every encoded descriptor.
pub const DESCRIPTOR_FORMAT_VERSION: u8 = 1;

/// File name of the descriptor inside the index directory.
pub const DESCRIPTOR_FILE_NAME: &'static str = "search_index_descriptor.bin";

/// The record persisted at index creation.
pub struct IndexDescriptor {
    pub fields: Vec<SearchFieldDef>,
    pub uuid: String,
    pub key_field_index: usize,
    pub is_dirty: bool,
    pub is_pending_drop: bool,
    pub is_pending_create: bool,
}

pub open spec fn bool_byte(b: bool) -> u8 {
    if b {
        1u8
    } else {
        0u8
    }
}

pub open spec fn field_type_byte(t: SearchFieldType) -> u8 {
    match t {
        SearchFieldType::Unsigned => 0u8,
        SearchFieldType::Text => 1u8,
    }
}

pub open spec fn u64_le_bytes(n: u64) -> Seq<u8> {
    seq![
        (n & 0xff) as u8,
        ((n >> 8) & 0xff) as u8,
        ((n >> 16) & 0xff) as u8,
        ((n >> 24) & 0xff) as u8,
        ((n >> 32) & 0xff) as u8,
        ((n >> 40) & 0xff) as u8,
        ((n >> 48) & 0xff) as u8,
        ((n >> 56) & 0xff) as u8,
    ]
}

/// The value a little-endian eight-byte run stands for.
pub open spec fn u64_of_le_bytes(b: Seq<u8>) -> u64
    recommends
        b.len() == 8,
{
    (b[0] as u64) | (b[1] as u64) << 8 | (b[2] as u64) << 16 | (b[3] as u64) << 24 | (
    b[4] as u64) << 32 | (b[5] as u64) << 40 | (b[6] as u64) << 48 | (b[7] as u64) << 56
}

/// The little-endian encoding loses nothing: the eight bytes decode
/// back to the encoded value.
pub proof fn lemma_u64_le_bytes_roundtrip(n: u64)
    ensures
        u64_of_le_bytes(u64_le_bytes(n)) == n,
{
    assert((((n & 0xff) as u8) as u64) | ((((n >> 8) & 0xff) as u8) as u64) << 8 | ((((n >> 16)
        & 0xff) as u8) as u64) << 16 | ((((n >> 24) & 0xff) as u8) as u64) << 24 | ((((n >> 32)
        & 0xff) as u8) as u64) << 32 | ((((n >> 40) & 0xff) as u8) as u64) << 40 | ((((n >> 48)
        & 0xff) as u8) as u64) << 48 | ((((n >> 56) & 0xff) as u8) as u64) << 56 == n) by (bit_vector);
}

/// A string encodes as its utf-8 length followed by its utf-8 bytes.
pub open spec fn encode_str(s: Seq<char>) -> Seq<u8> {
    u64_le_bytes(vstd::utf8::encode_utf8(s).len() as u64) + vstd::utf8::encode_utf8(s)
}

/// The string encoding is self-describing and lossless: the first
/// eight bytes decode to the payload length, and the payload decodes
/// back to exactly the encoded characters.
pub proof fn lemma_encode_str_roundtrip(s: Seq<char>)
    requires
        vstd::utf8::encode_utf8(s).len() <= u64::MAX,
    ensures
        encode_str(s).len() == 8 + vstd::utf8::encode_utf8(s).len(),
        u64_of_le_bytes(encode_str(s).take(8)) == vstd::utf8::encode_utf8(s).len(),
        vstd::utf8::decode_utf8(encode_str(s).skip(8)) == s,
{
    broadcast use vstd::utf8::encode_utf8_decode_utf8;

    let payload = vstd::utf8::encode_utf8(s);
    let e = encode_str(s);
    assert(e.take(8) =~= u64_le_bytes(payload.len() as u64));
    assert(e.skip(8) =~= payload);
    lemma_u64_le_bytes_roundtrip(payload.len() as u64);
}

/// A field encodes as its type byte followed by its name.
pub open spec fn encode_field(f: SearchFieldDef) -> Seq<u8> {
    seq![field_type_byte(f.field_type)] + encode_str(f.name@)
}

pub open spec fn encode_fields(fields: Seq<SearchFieldDef>) -> Seq<u8>
    decreases fields.len(),
{
    if fields.len() == 0 {
        Seq::empty()
    } else {
        encode_fields(fields.drop_last()) + encode_field(fields.last())
    }
}

/// The full descriptor encoding.
pub open spec fn encode_descriptor_spec(d: IndexDescriptor) -> Seq<u8> {
    seq![
        DESCRIPTOR_FORMAT_VERSION,
        bool_byte(d.is_dirty),
        bool_byte(d.is_pending_drop),
        bool_byte(d.is_pending_create),
    ] + u64_le_bytes(d.key_field_index as u64) + encode_str(d.uuid@) + u64_le_bytes(
        d.fields@.len() as u64,
    ) + encode_fields(d.fields@)
}

fn push_u64_le(out: &mut Vec<u8>, n: u64)
    ensures
        final(out)@ == old(out)@ + u64_le_bytes(n),
{
    out.push((n & 0xff) as u8);
    out.push(((n >> 8) & 0xff) as u8);
    out.push(((n >> 16) & 0xff) as u8);
    out.push(((n >> 24) & 0xff) as u8);
    out.push(((n >> 32) & 0xff) as u8);
    out.push(((n >> 40) & 0xff) as u8);
    out.push(((n >> 48) & 0xff) as u8);
    out.push(((n >> 56) & 0xff) as u8);
    proof {
        assert(out@ =~= old(out)@ + u64_le_bytes(n));
    }
}

fn push_str(out: &mut Vec<u8>, s: &String)
    ensures
        final(out)@ == old(out)@ + encode_str(s@),
{
    let mut bytes = s.as_str().as_bytes_vec();
    push_u64_le(out, bytes.len() as u64);
    out.append(&mut bytes);
    proof {
        assert(out@ =~= old(out)@ + encode_str(s@));
    }
}

/// Encodes the descriptor exactly as `encode_descriptor_spec` states.
pub fn encode_descriptor(d: &IndexDescriptor) -> (r: Vec<u8>)
    ensures
        r@ == encode_descriptor_spec(*d),
{
    let mut out: Vec<u8> = Vec::new();
    out.push(DESCRIPTOR_FORMAT_VERSION);
    out.push(if d.is_dirty {
        1u8
    } else {
        0u8
    });
    out.push(if d.is_pending_drop {
        1u8
    } else {
        0u8
    });
    out.push(if d.is_pending_create {
        1u8
    } else {
        0u8
    });
    push_u64_le(&mut out, d.key_field_index as u64);
    push_str(&mut out, &d.uuid);
    push_u64_le(&mut out, d.fields.len() as u64);
    let ghost prefix: Seq<u8> = out@;
    let n = d.fields.len();
    let mut i: usize = 0;
    while i < n
        invariant
            n == d.fields@.len(),
            i <= n,
            out@ == prefix + encode_fields(d.fields@.take(i as int)),
        decreases n - i,
    {
        let field = &d.fields[i];
        match field.field_type {
            SearchFieldType::Unsigned => out.push(0u8),
            SearchFieldType::Text => out.push(1u8),
        }
        push_str(&mut out, &field.name);
        proof {
            let fs = d.fields@;
            assert(fs.take(i + 1).drop_last() =~= fs.take(i as int));
            assert(fs.take(i + 1).last() == fs[i as int]);
            assert(out@ =~= prefix + encode_fields(fs.take(i + 1)));
        }
        i = i + 1;
    }
    proof {
        assert(d.fields@.take(n as int) =~= d.fields@);
        assert(out@ =~= encode_descriptor_spec(*d));
    }
    out
}

/// What a reader of the descriptor file recovers: the same record, as
/// plain mathematical values.
#[verifier::ext_equal]
pub struct DescriptorView {
    pub fields: Seq<(u8, Seq<char>)>,
    pub uuid: Seq<char>,
    pub key_field_index: u64,
    pub is_dirty: bool,
    pub is_pending_drop: bool,
    pub is_pending_create: bool,
}

pub open spec fn field_views(fields: Seq<SearchFieldDef>) -> Seq<(u8, Seq<char>)> {
    fields.map_values(|f: SearchFieldDef| (field_type_byte(f.field_type), f.name@))
}

pub open spec fn descriptor_view(d: IndexDescriptor) -> DescriptorView {
    DescriptorView {
        fields: field_views(d.fields@),
        uuid: d.uuid@,
        key_field_index: d.key_field_index as u64,
        is_dirty: d.is_dirty,
        is_pending_drop: d.is_pending_drop,
        is_pending_create: d.is_pending_create,
    }
}

/// Reads one length-prefixed string at `off`; on success returns the
/// characters and the offset just past them.
pub open spec fn decode_str_at(b: Seq<u8>, off: int) -> Option<(Seq<char>, int)> {
    if off + 8 > b.len() {
        None
    } else {
        let len = u64_of_le_bytes(b.subrange(off, off + 8)) as int;
        if off + 8 + len > b.len() {
            None
        } else if !vstd::utf8::valid_utf8(b.subrange(off + 8, off + 8 + len)) {
            None
        } else {
            Some((vstd::utf8::decode_utf8(b.subrange(off + 8, off + 8 + len)), off + 8 + len))
        }
    }
}

/// Reads `count` encoded fields starting at `off`; on success returns
/// their type bytes and names, and the offset just past them.
pub open spec fn decode_fields_at(b: Seq<u8>, off: int, count: nat) -> Option<
    (Seq<(u8, Seq<char>)>, int),
>
    decreases count,
{
    if count == 0 {
        Some((Seq::empty(), off))
    } else if off + 1 > b.len() {
        None
    } else {
        match decode_str_at(b, off + 1) {
            None => None,
            Some(parsed_name) => match decode_fields_at(b, parsed_name.1, (count - 1) as nat) {
                None => None,
                Some(parsed_rest) => Some(
                    (seq![(b[off], parsed_name.0)] + parsed_rest.0, parsed_rest.1),
                ),
            },
        }
    }
}

/// Reads a whole descriptor back from its bytes; `None` on any
/// malformed input, including trailing bytes.
pub open spec fn decode_descriptor_spec(b: Seq<u8>) -> Option<DescriptorView> {
    if b.len() < 12 || b[0] != DESCRIPTOR_FORMAT_VERSION {
        None
    } else {
        let key_field_index = u64_of_le_bytes(b.subrange(4, 12));
        match decode_str_at(b, 12) {
            None => None,
            Some(parsed_uuid) => if parsed_uuid.1 + 8 > b.len() {
                None
            } else {
                let count = u64_of_le_bytes(b.subrange(parsed_uuid.1, parsed_uuid.1 + 8));
                match decode_fields_at(b, parsed_uuid.1 + 8, count as nat) {
                    None => None,
                    Some(parsed_fields) => if parsed_fields.1 != b.len() {
                        None
                    } else {
                        Some(
                            DescriptorView {
                                fields: parsed_fields.0,
                                uuid: parsed_uuid.0,
                                key_field_index,
                                is_dirty: b[1] == 1,
                                is_pending_drop: b[2] == 1,
                                is_pending_create: b[3] == 1,
                            },
                        )
                    },
                }
            },
        }
    }
}

/// The field list also encodes head first.
proof fn lemma_encode_fields_head(fields: Seq<SearchFieldDef>)
    requires
        fields.len() > 0,
    ensures
        encode_fields(fields) == encode_field(fields[0]) + encode_fields(fields.drop_first()),
    decreases fields.len(),
{
    if fields.len() == 1 {
        assert(fields.drop_last() =~= Seq::<SearchFieldDef>::empty());
        assert(fields.drop_first() =~= Seq::<SearchFieldDef>::empty());
        assert(encode_fields(fields) =~= encode_field(fields[0]) + encode_fields(
            fields.drop_first(),
        ));
    } else {
        lemma_encode_fields_head(fields.drop_last());
        assert(fields.drop_last()[0] == fields[0]);
        assert(fields.drop_last().drop_first() =~= fields.drop_first().drop_last());
        assert(fields.drop_first().last() == fields.last());
        assert(encode_fields(fields) =~= encode_field(fields[0]) + encode_fields(
            fields.drop_first(),
        ));
    }
}

/// A string parses back out of any buffer that holds its encoding.
proof fn lemma_decode_str_at_encode(b: Seq<u8>, off: int, s: Seq<char>)
    requires
        0 <= off,
        vstd::utf8::encode_utf8(s).len() <= u64::MAX,
        off + encode_str(s).len() <= b.len(),
        b.subrange(off, off + encode_str(s).len()) == encode_str(s),
    ensures
        decode_str_at(b, off) == Some((s, off + encode_str(s).len())),
{
    broadcast use vstd::utf8::encode_utf8_decode_utf8, vstd::utf8::encode_utf8_valid_utf8;

    let payload = vstd::utf8::encode_utf8(s);
    let e = encode_str(s);
    let prefix = u64_le_bytes(payload.len() as u64);
    assert forall|j: int| 0 <= j < 8 implies b.subrange(off, off + 8)[j] == prefix[j] by {
        assert(b.subrange(off, off + e.len() as int)[j] == e[j]);
        assert((prefix + payload)[j] == prefix[j]);
    }
    assert(b.subrange(off, off + 8) =~= prefix);
    lemma_u64_le_bytes_roundtrip(payload.len() as u64);
    assert forall|j: int| 0 <= j < payload.len() implies b.subrange(
        off + 8,
        off + 8 + payload.len() as int,
    )[j] == payload[j] by {
        assert(b.subrange(off, off + e.len() as int)[8 + j] == e[8 + j]);
        assert((prefix + payload)[8 + j] == payload[j]);
    }
    assert(b.subrange(off + 8, off + 8 + payload.len() as int) =~= payload);
}

/// The field list parses back out of any buffer that holds its
/// encoding.
proof fn lemma_decode_fields_at_encode(b: Seq<u8>, off: int, fields: Seq<SearchFieldDef>)
    requires
        0 <= off,
        off + encode_fields(fields).len() <= b.len(),
        b.subrange(off, off + encode_fields(fields).len()) == encode_fields(fields),
        forall|i: int|
            0 <= i < fields.len() ==> vstd::utf8::encode_utf8(#[trigger] fields[i].name@).len()
                <= u64::MAX,
    ensures
        decode_fields_at(b, off, fields.len() as nat) == Some(
            (field_views(fields), off + encode_fields(fields).len()),
        ),
    decreases fields.len(),
{
    if fields.len() == 0 {
        assert(decode_fields_at(b, off, 0) == Some((Seq::<(u8, Seq<char>)>::empty(), off)));
        assert(field_views(fields) =~= Seq::<(u8, Seq<char>)>::empty());
    } else {
        lemma_encode_fields_head(fields);
        let total = encode_fields(fields);
        let head = fields[0];
        let head_bytes = encode_field(head);
        let rest = fields.drop_first();
        let rest_bytes = encode_fields(rest);
        let name_bytes = encode_str(head.name@);
        assert(b[off] == field_type_byte(head.field_type)) by {
            assert(b.subrange(off, off + total.len() as int)[0] == total[0]);
            assert((head_bytes + rest_bytes)[0] == head_bytes[0]);
            assert((seq![field_type_byte(head.field_type)] + name_bytes)[0] == field_type_byte(
                head.field_type,
            ));
        }
        assert forall|j: int| 0 <= j < name_bytes.len() implies b.subrange(
            off + 1,
            off + 1 + name_bytes.len() as int,
        )[j] == name_bytes[j] by {
            assert(b.subrange(off, off + total.len() as int)[1 + j] == total[1 + j]);
            assert((head_bytes + rest_bytes)[1 + j] == head_bytes[1 + j]);
            assert((seq![field_type_byte(head.field_type)] + name_bytes)[1 + j] == name_bytes[j]);
        }
        assert(b.subrange(off + 1, off + 1 + name_bytes.len() as int) =~= name_bytes);
        lemma_decode_str_at_encode(b, off + 1, head.name@);
        let off_rest = off + 1 + name_bytes.len() as int;
        assert forall|j: int| 0 <= j < rest_bytes.len() implies b.subrange(
            off_rest,
            off_rest + rest_bytes.len() as int,
        )[j] == rest_bytes[j] by {
            let k: int = head_bytes.len() + j;
            assert(b.subrange(off, off + total.len() as int)[k] == total[k]);
            assert((head_bytes + rest_bytes)[head_bytes.len() + j] == rest_bytes[j]);
        }
        assert(b.subrange(off_rest, off_rest + rest_bytes.len() as int) =~= rest_bytes);
        assert(forall|i: int|
            0 <= i < rest.len() ==> vstd::utf8::encode_utf8(#[trigger] rest[i].name@).len()
                <= u64::MAX);
        lemma_decode_fields_at_encode(b, off_rest, rest);
        assert(seq![(b[off], head.name@)] + field_views(rest) =~= field_views(fields));
        assert(off_rest + rest_bytes.len() == off + encode_fields(fields).len());
    }
}

/// Nothing is lost: a persisted descriptor decodes back to exactly the
/// record that was encoded, for every record whose strings and field
/// count the length prefixes can carry.
#[verifier::rlimit(60)]
pub proof fn lemma_descriptor_roundtrip(d: IndexDescriptor)
    requires
        vstd::utf8::encode_utf8(d.uuid@).len() <= u64::MAX,
        d.fields@.len() <= u64::MAX,
        forall|i: int|
            0 <= i < d.fields@.len() ==> vstd::utf8::encode_utf8(
                #[trigger] d.fields@[i].name@,
            ).len() <= u64::MAX,
    ensures
        decode_descriptor_spec(encode_descriptor_spec(d)) == Some(descriptor_view(d)),
{
    let b = encode_descriptor_spec(d);
    let uuid_bytes = encode_str(d.uuid@);
    let count_off: int = 12 + uuid_bytes.len() as int;
    let fields_off: int = count_off + 8;
    assert(b[0] == DESCRIPTOR_FORMAT_VERSION);
    assert(b.subrange(4, 12) =~= u64_le_bytes(d.key_field_index as u64));
    lemma_u64_le_bytes_roundtrip(d.key_field_index as u64);
    assert(b.subrange(12, 12 + uuid_bytes.len() as int) =~= uuid_bytes);
    lemma_decode_str_at_encode(b, 12, d.uuid@);
    assert(b.subrange(count_off, fields_off) =~= u64_le_bytes(d.fields@.len() as u64));
    lemma_u64_le_bytes_roundtrip(d.fields@.len() as u64);
    assert(b.subrange(fields_off, fields_off + encode_fields(d.fields@).len()) =~= encode_fields(
        d.fields@,
    ));
    lemma_decode_fields_at_encode(b, fields_off, d.fields@);
    assert(fields_off + encode_fields(d.fields@).len() == b.len());
    assert(b[1] == bool_byte(d.is_dirty) && b[2] == bool_byte(d.is_pending_drop) && b[3]
        == bool_byte(d.is_pending_create));
    assert(decode_descriptor_spec(b) == Some(descriptor_view(d)));
}

} // verus!
