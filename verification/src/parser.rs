//! Turning one raw line into a typed sample.

use vstd::prelude::*;
use crate::fields::{split_fields, split_line};
use crate::numeric::{parse_i32, parsed_i32};
use crate::timestamp::{parse_rfc3339, rfc3339_timestamp, Timestamp};

verus! {

/// Why a raw line was refused. The variants are distinguishable so the
/// loop can tell a structural shortfall from a field that fails its
/// parse.
#[derive(Clone, Copy, Debug, PartialEq, Eq, Structural)]
pub enum ParseError {
    /// The timestamp field is not a well-formed RFC 3339 string.
    MalformedTimestamp,
    /// The meter-id or value field is not a decimal integer in range.
    MalformedInteger,
    /// A configured column index lies past the last field of the line.
    MissingField,
}

/// Which target table a run ingests into. Each kind carries its own
/// input column layout, because upstream sources emit a different
/// number and order of fields per meter type.
#[derive(Clone, Copy, Debug, PartialEq, Eq, Structural)]
pub enum TableKind {
    Power,
    Water,
}

/// The target table together with the zero-based positions of the
/// timestamp, meter-id and value fields within a comma-split line.
#[derive(Clone, Copy, Debug, PartialEq, Eq, Structural)]
pub struct TableSpec {
    pub kind: TableKind,
    pub timestamp_column_index: usize,
    pub meter_id_column_index: usize,
    pub value_column_index: usize,
}

impl TableKind {
    /// The column layout of this table kind.
    pub open spec fn spec_layout(self) -> TableSpec {
        match self {
            TableKind::Power => TableSpec {
                kind: self,
                timestamp_column_index: 0,
                meter_id_column_index: 3,
                value_column_index: 7,
            },
            TableKind::Water => TableSpec {
                kind: self,
                timestamp_column_index: 0,
                meter_id_column_index: 6,
                value_column_index: 7,
            },
        }
    }

    /// Build the column layout of this table kind.
    pub fn layout(&self) -> (r: TableSpec)
        ensures
            r == self.spec_layout(),
    {
        match self {
            TableKind::Power => TableSpec {
                kind: TableKind::Power,
                timestamp_column_index: 0,
                meter_id_column_index: 3,
                value_column_index: 7,
            },
            TableKind::Water => TableSpec {
                kind: TableKind::Water,
                timestamp_column_index: 0,
                meter_id_column_index: 6,
                value_column_index: 7,
            },
        }
    }

    /// The table's name, for storage statements.
    pub fn name(&self) -> (r: &'static str)
        ensures
            *self == TableKind::Power ==> r@ == "power"@,
            *self == TableKind::Water ==> r@ == "water"@,
    {
        match self {
            TableKind::Power => "power",
            TableKind::Water => "water",
        }
    }
}

/// The bytes of the process argument that selects the water table.
pub open spec fn water_selector() -> Seq<u8> {
    seq![119u8, 97u8, 116u8, 101u8, 114u8]
}

/// Resolve the table kind from the process's selector argument: the
/// bytes of `water` select the water table, and anything else falls
/// back to the power table — a deliberate leniency, unrecognized
/// selectors do not error.
pub fn kind_from_selector(selector: &[u8]) -> (r: TableKind)
    ensures
        r == (if selector@ == water_selector() {
            TableKind::Water
        } else {
            TableKind::Power
        }),
{
    if selector.len() == 5 && selector[0] == 119 && selector[1] == 97 && selector[2] == 116
        && selector[3] == 101 && selector[4] == 114 {
        proof {
            assert(selector@ =~= water_selector());
        }
        TableKind::Water
    } else {
        proof {
            if selector@ == water_selector() {
                assert(selector@.len() == 5);
                assert(selector@[0] == 119 && selector@[1] == 97 && selector@[2] == 116
                    && selector@[3] == 101 && selector@[4] == 114);
            }
        }
        TableKind::Power
    }
}

/// One meter reading: immutable once constructed, either accepted for
/// a write or discarded, never mutated.
#[derive(Clone, Copy, Debug, PartialEq, Eq, Structural)]
pub struct Sample {
    pub sampled: Timestamp,
    pub meter_id: i32,
    pub value: i32,
}

/// What parsing one line under a layout yields. The fields are the
/// comma-split of the line; the timestamp field is examined first, then
/// the meter id, then the value. For each, an index past the last field
/// is a `MissingField`; a present field that fails its parse is
/// malformed.
pub open spec fn spec_parse(line: Seq<u8>, layout: TableSpec) -> Result<Sample, ParseError> {
    let fields = split_fields(line);
    if layout.timestamp_column_index >= fields.len() {
        Err(ParseError::MissingField)
    } else if rfc3339_timestamp(fields[layout.timestamp_column_index as int]) is None {
        Err(ParseError::MalformedTimestamp)
    } else if layout.meter_id_column_index >= fields.len() {
        Err(ParseError::MissingField)
    } else if parsed_i32(fields[layout.meter_id_column_index as int]) is None {
        Err(ParseError::MalformedInteger)
    } else if layout.value_column_index >= fields.len() {
        Err(ParseError::MissingField)
    } else if parsed_i32(fields[layout.value_column_index as int]) is None {
        Err(ParseError::MalformedInteger)
    } else {
        Ok(Sample {
            sampled: rfc3339_timestamp(fields[layout.timestamp_column_index as int]).unwrap(),
            meter_id: parsed_i32(fields[layout.meter_id_column_index as int]).unwrap(),
            value: parsed_i32(fields[layout.value_column_index as int]).unwrap(),
        })
    }
}

/// Parse one raw line into a sample under the table's column layout.
/// Pure: no side effects, a function of its two inputs alone.
pub fn parse(line: &[u8], layout: &TableSpec) -> (r: Result<Sample, ParseError>)
    ensures
        r == spec_parse(line@, *layout),
{
    let fields = split_line(line);
    if layout.timestamp_column_index >= fields.len() {
        return Err(ParseError::MissingField);
    }
    let sampled = match parse_rfc3339(fields[layout.timestamp_column_index].as_slice()) {
        Some(t) => t,
        None => return Err(ParseError::MalformedTimestamp),
    };
    if layout.meter_id_column_index >= fields.len() {
        return Err(ParseError::MissingField);
    }
    let meter_id = match parse_i32(fields[layout.meter_id_column_index].as_slice()) {
        Some(v) => v,
        None => return Err(ParseError::MalformedInteger),
    };
    if layout.value_column_index >= fields.len() {
        return Err(ParseError::MissingField);
    }
    let value = match parse_i32(fields[layout.value_column_index].as_slice()) {
        Some(v) => v,
        None => return Err(ParseError::MalformedInteger),
    };
    Ok(Sample { sampled, meter_id, value })
}

/// Column-layout correctness for the water table: on a line of at least
/// eight fields whose timestamp, seventh and eighth fields parse, the
/// water layout reads the meter id from the field at index six and the
/// value from the field at index seven.
pub proof fn lemma_water_layout(line: Seq<u8>)
    requires
        split_fields(line).len() >= 8,
        rfc3339_timestamp(split_fields(line)[0]) is Some,
        parsed_i32(split_fields(line)[6]) is Some,
        parsed_i32(split_fields(line)[7]) is Some,
    ensures
        spec_parse(line, TableKind::Water.spec_layout()) == Ok::<Sample, ParseError>(
            Sample {
                sampled: rfc3339_timestamp(split_fields(line)[0]).unwrap(),
                meter_id: parsed_i32(split_fields(line)[6]).unwrap(),
                value: parsed_i32(split_fields(line)[7]).unwrap(),
            },
        ),
{
}

} // verus!
