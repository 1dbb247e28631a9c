//! Plain-value document and schema types handed to the coordinator.
//!
//! The host addresses index fields by the numeric field id the engine
//! assigned at schema-build time (ids are dense, in order of
//! definition). A document is a list of (field id, value) pairs; the
//! key field holds the host's row identifier as an unsigned value.

use vstd::prelude::*;

verus! {

/// One value stored in a document field.
pub enum FieldValue {
    Unsigned(u64),
    Text(String),
}

/// Spec-level image of a field value.
pub enum FieldValueV {
    Unsigned(u64),
    Text(Seq<char>),
}

impl View for FieldValue {
    type V = FieldValueV;

    open spec fn view(&self) -> FieldValueV {
        match self {
            FieldValue::Unsigned(u) => FieldValueV::Unsigned(*u),
            FieldValue::Text(s) => FieldValueV::Text(s@),
        }
    }
}

/// One field of a document: the engine field id and the value.
pub struct FieldEntry {
    pub field_id: u32,
    pub value: FieldValue,
}

/// Spec-level image of a field entry.
pub struct FieldEntryV {
    pub field_id: u32,
    pub value: FieldValueV,
}

impl View for FieldEntry {
    type V = FieldEntryV;

    open spec fn view(&self) -> FieldEntryV {
        FieldEntryV { field_id: self.field_id, value: self.value@ }
    }
}

/// A document to be inserted, as plain values.
pub struct SearchDocument {
    pub entries: Vec<FieldEntry>,
}

impl View for SearchDocument {
    type V = Seq<FieldEntryV>;

    open spec fn view(&self) -> Seq<FieldEntryV> {
        self.entries@.map_values(|e: FieldEntry| e@)
    }
}

/// The type of one schema field.
pub enum SearchFieldType {
    /// An unsigned 64-bit field, indexed and stored; the key field of
    /// an index has this type.
    Unsigned,
    /// A tokenized text field, indexed and stored.
    Text,
}

/// One schema field: a name and a type.
pub struct SearchFieldDef {
    pub name: String,
    pub field_type: SearchFieldType,
}

/// Whether no two field definitions share a name. The engine's schema
/// builder does not admit a repeated name, so index creation rejects
/// definitions that break this.
pub open spec fn distinct_field_names(fields: Seq<SearchFieldDef>) -> bool {
    forall|i: int, j: int|
        0 <= i < j < fields.len() ==> (#[trigger] fields[i].name@) != (#[trigger] fields[j].name@)
}

/// Whether the two strings hold the same characters.
fn str_eq(a: &String, b: &String) -> (r: bool)
    ensures
        r == (a@ == b@),
{
    broadcast use vstd::utf8::encode_utf8_decode_utf8;

    let abytes = a.as_str().as_bytes_vec();
    let bbytes = b.as_str().as_bytes_vec();
    proof {
        assert(vstd::utf8::decode_utf8(vstd::utf8::encode_utf8(a@)) == a@);
        assert(vstd::utf8::decode_utf8(vstd::utf8::encode_utf8(b@)) == b@);
    }
    if abytes.len() != bbytes.len() {
        proof {
            assert(a@ != b@) by {
                if a@ == b@ {
                    assert(vstd::utf8::encode_utf8(a@) == vstd::utf8::encode_utf8(b@));
                }
            }
        }
        return false;
    }
    let n = abytes.len();
    let mut i: usize = 0;
    while i < n
        invariant
            n == abytes@.len(),
            n == bbytes@.len(),
            i <= n,
            abytes@ == vstd::utf8::encode_utf8(a@),
            bbytes@ == vstd::utf8::encode_utf8(b@),
            forall|k: int| 0 <= k < i ==> abytes@[k] == bbytes@[k],
        decreases n - i,
    {
        if abytes[i] != bbytes[i] {
            proof {
                assert(a@ != b@) by {
                    if a@ == b@ {
                        assert(vstd::utf8::encode_utf8(a@) == vstd::utf8::encode_utf8(b@));
                    }
                }
            }
            return false;
        }
        i = i + 1;
    }
    proof {
        assert(abytes@ =~= bbytes@);
        assert(vstd::utf8::decode_utf8(vstd::utf8::encode_utf8(a@)) == vstd::utf8::decode_utf8(
            vstd::utf8::encode_utf8(b@),
        ));
    }
    true
}

/// Whether some field name occurs twice in the definitions.
pub fn has_duplicate_field_name(fields: &Vec<SearchFieldDef>) -> (r: bool)
    ensures
        r == !distinct_field_names(fields@),
{
    let n = fields.len();
    let mut i: usize = 0;
    while i < n
        invariant
            n == fields@.len(),
            i <= n,
            forall|x: int, y: int|
                0 <= x < y < fields@.len() && x < i ==> (#[trigger] fields@[x].name@) != (
                #[trigger] fields@[y].name@),
        decreases n - i,
    {
        let mut j: usize = i + 1;
        while j < n
            invariant
                n == fields@.len(),
                i < n,
                i < j <= n,
                forall|x: int, y: int|
                    0 <= x < y < fields@.len() && x < i ==> (#[trigger] fields@[x].name@) != (
                    #[trigger] fields@[y].name@),
                forall|y: int|
                    i < y < j ==> fields@[i as int].name@ != (#[trigger] fields@[y].name@),
            decreases n - j,
        {
            if str_eq(&fields[i].name, &fields[j].name) {
                proof {
                    assert(!distinct_field_names(fields@)) by {
                        assert(fields@[i as int].name@ == fields@[j as int].name@);
                    }
                }
                return true;
            }
            j = j + 1;
        }
        i = i + 1;
    }
    proof {
        assert(distinct_field_names(fields@));
    }
    false
}

} // verus!
