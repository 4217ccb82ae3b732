use vstd::prelude::*;

use crate::json::{parse_json, parsed_json, JsonValue};
use crate::record::{members_map, member_names, CanonicalRecord};

verus! {

/// Why a message produced no records.
#[derive(Debug, Clone, Copy, PartialEq, Eq, Structural)]
pub enum Warning {
    /// The text is not JSON.
    Unparsable,
    /// The payload is an empty array.
    NoRecords,
    /// The payload is neither an object nor an array holding an object.
    Unsupported,
}

/// The members of an object; nothing for any other value.
pub open spec fn object_members(v: JsonValue) -> Seq<(String, JsonValue)> {
    match v {
        JsonValue::Object(m) => m@,
        _ => Seq::empty(),
    }
}

/// The records that the objects among `items` make, in order; other items
/// are passed over.
pub open spec fn object_records(items: Seq<JsonValue>) -> Seq<Map<Seq<char>, JsonValue>>
    decreases items.len(),
{
    if items.len() == 0 {
        Seq::empty()
    } else {
        let r = object_records(items.drop_last());
        if items.last() is Object {
            r.push(members_map(object_members(items.last())))
        } else {
            r
        }
    }
}

/// What a parsed payload normalizes to: the records, or the reason there
/// are none.
pub open spec fn normalized(doc: Option<JsonValue>) -> Result<Seq<Map<Seq<char>, JsonValue>>, Warning> {
    match doc {
        None => Err(Warning::Unparsable),
        Some(JsonValue::Object(m)) => Ok(seq![members_map(m@)]),
        Some(JsonValue::Array(items)) => {
            if items@.len() == 0 {
                Err(Warning::NoRecords)
            } else if object_records(items@).len() == 0 {
                Err(Warning::Unsupported)
            } else {
                Ok(object_records(items@))
            }
        },
        Some(_) => Err(Warning::Unsupported),
    }
}

pub open spec fn records_view(rs: Seq<CanonicalRecord>) -> Seq<Map<Seq<char>, JsonValue>> {
    rs.map_values(|r: CanonicalRecord| r@)
}

pub open spec fn all_wf(rs: Seq<CanonicalRecord>) -> bool {
    forall|i: int| 0 <= i < rs.len() ==> #[trigger] rs[i].wf()
}

/// The result of normalizing, in terms of the records' views.
pub open spec fn normalizes_to(
    r: Result<Vec<CanonicalRecord>, Warning>,
    doc: Option<JsonValue>,
) -> bool {
    match r {
        Ok(rs) => all_wf(rs@) && normalized(doc) == Ok::<_, Warning>(records_view(rs@)),
        Err(w) => normalized(doc) == Err::<Seq<Map<Seq<char>, JsonValue>>, _>(w),
    }
}

/// Turns a parsed payload into canonical records: an object gives one
/// record, an array gives one record per object in it.
pub fn normalize_value(doc: Option<JsonValue>) -> (r: Result<Vec<CanonicalRecord>, Warning>)
    ensures
        normalizes_to(r, doc),
{
    match doc {
        None => Err(Warning::Unparsable),
        Some(JsonValue::Object(m)) => {
            let ghost s = m@;
            let rec = CanonicalRecord::from_members(m);
            let mut rs: Vec<CanonicalRecord> = Vec::new();
            rs.push(rec);
            assert(records_view(rs@) =~= seq![members_map(s)]);
            Ok(rs)
        },
        Some(JsonValue::Array(items)) => {
            let ghost s = items@;
            if items.len() == 0 {
                return Err(Warning::NoRecords);
            }
            let rs = records_of_items(items);
            if rs.len() == 0 {
                Err(Warning::Unsupported)
            } else {
                Ok(rs)
            }
        },
        Some(_) => Err(Warning::Unsupported),
    }
}

fn records_of_items(items: Vec<JsonValue>) -> (rs: Vec<CanonicalRecord>)
    ensures
        all_wf(rs@),
        records_view(rs@) == object_records(items@),
{
    let ghost s = items@;
    let mut rest = items;
    let mut rs: Vec<CanonicalRecord> = Vec::new();
    let n = rest.len();
    let mut i: usize = 0;
    while i < n
        invariant
            n == s.len(),
            i <= n,
            rest@ == s.skip(i as int),
            all_wf(rs@),
            records_view(rs@) == object_records(s.take(i as int)),
        decreases n - i,
    {
        let item = rest.remove(0);
        assert(item == s[i as int]);
        assert(s.take(i + 1).drop_last() =~= s.take(i as int));
        let ghost before = rs@;
        match item {
            JsonValue::Object(m) => {
                rs.push(CanonicalRecord::from_members(m));
                assert(records_view(rs@) =~= records_view(before).push(rs@.last()@));
            },
            _ => {},
        }
        i = i + 1;
        assert(rest@ =~= s.skip(i as int));
    }
    assert(s.take(n as int) =~= s);
    rs
}

/// Parses `raw` as a JSON payload and normalizes it; a text that is not JSON
/// gives `Err(Warning::Unparsable)`.
pub fn normalize(raw: &str) -> (r: Result<Vec<CanonicalRecord>, Warning>)
    ensures
        normalizes_to(r, parsed_json(raw@)),
{
    normalize_value(parse_json(raw))
}

proof fn lemma_all_objects(items: Seq<JsonValue>)
    requires
        forall|i: int| 0 <= i < items.len() ==> #[trigger] items[i] is Object,
    ensures
        object_records(items).len() == items.len(),
        forall|i: int|
            0 <= i < items.len() ==> #[trigger] object_records(items)[i] == members_map(
                object_members(items[i]),
            ),
    decreases items.len(),
{
    if items.len() > 0 {
        let p = items.drop_last();
        assert forall|i: int| 0 <= i < p.len() implies #[trigger] p[i] is Object by {
            assert(p[i] == items[i]);
        }
        lemma_all_objects(p);
        assert(items[items.len() - 1] is Object);
    }
}

/// An array of N objects, N at least one, normalizes to exactly N records,
/// and each record has the field names of its object.
pub proof fn lemma_one_record_per_object(items: Vec<JsonValue>)
    requires
        items@.len() >= 1,
        forall|i: int| 0 <= i < items@.len() ==> #[trigger] items@[i] is Object,
    ensures
        normalized(Some(JsonValue::Array(items))) is Ok,
        normalized(Some(JsonValue::Array(items)))->Ok_0.len() == items@.len(),
        forall|i: int|
            0 <= i < items@.len() ==> (#[trigger] normalized(
                Some(JsonValue::Array(items)),
            )->Ok_0[i]).dom() == member_names(object_members(items@[i])),
{
    lemma_all_objects(items@);
    assert forall|i: int| 0 <= i < items@.len() implies (#[trigger] normalized(
        Some(JsonValue::Array(items)),
    )->Ok_0[i]).dom() == member_names(object_members(items@[i])) by {
        crate::record::lemma_members_names(object_members(items@[i]));
    }
}

/// A single object and an array holding just that object normalize alike.
pub proof fn lemma_object_as_singleton(object: JsonValue, items: Vec<JsonValue>)
    requires
        object is Object,
        items@ == seq![object],
    ensures
        normalized(Some(object)) == normalized(Some(JsonValue::Array(items))),
{
    assert(items@.drop_last() =~= Seq::<JsonValue>::empty());
    assert(object_records(items@.drop_last()) =~= Seq::empty());
    assert(items@.last() == object);
    assert(object_records(items@) =~= seq![members_map(object_members(object))]);
}

} // verus!
