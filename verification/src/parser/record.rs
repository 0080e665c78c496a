use crate::error::SqliteVizError;
use crate::model::cell::{Record, RecordV, SerialType, Value, ValueV, spec_serial_size,
    spec_serial_type_from_raw};
use crate::parser::bytes::{copy_bytes, lemma_be_uint_bound, read_be_uint, spec_be_sint,
    spec_be_uint, spec_pow256};
use crate::parser::varint::{parse_varint, spec_parse_varint, spec_varint_at};
use crate::text::{decode_text, utf8_lossy_of};
use vstd::prelude::*;

verus! {

/// The value of serial type `st` whose bytes start at `off`, assuming
/// the bytes fit inside `data`. Fixed-width integers are big-endian
/// two's complement; `Float64` keeps its raw bit pattern; `Zero` and
/// `One` are constants without value bytes; `Reserved` reads as null.
pub open spec fn spec_value_at(data: Seq<u8>, off: int, st: SerialType) -> ValueV {
    match st {
        SerialType::Null => ValueV::Null,
        SerialType::Int8 => ValueV::Integer(spec_be_sint(data, off, 1) as i64),
        SerialType::Int16 => ValueV::Integer(spec_be_sint(data, off, 2) as i64),
        SerialType::Int24 => ValueV::Integer(spec_be_sint(data, off, 3) as i64),
        SerialType::Int32 => ValueV::Integer(spec_be_sint(data, off, 4) as i64),
        SerialType::Int48 => ValueV::Integer(spec_be_sint(data, off, 6) as i64),
        SerialType::Int64 => ValueV::Integer(spec_be_sint(data, off, 8) as i64),
        SerialType::Float64 => ValueV::Real(spec_be_uint(data, off, 8) as u64),
        SerialType::Zero => ValueV::Integer(0),
        SerialType::One => ValueV::Integer(1),
        SerialType::Reserved(_) => ValueV::Null,
        SerialType::Blob(n) => ValueV::Blob(data.subrange(off, off + n)),
        SerialType::Text(n) => ValueV::Text(utf8_lossy_of(data.subrange(off, off + n))),
    }
}

/// The value decoded for one column at `off`: null when the declared
/// width does not fit in the remaining bytes, the decoded value
/// otherwise.
pub open spec fn spec_column_value(data: Seq<u8>, off: int, st: SerialType) -> ValueV {
    if off + spec_serial_size(st) > data.len() {
        ValueV::Null
    } else {
        spec_value_at(data, off, st)
    }
}

/// The serial types listed in a record header: one varint after
/// another from `off`, until the cumulative offset reaches the
/// announced `header_size` or the buffer runs out.
pub open spec fn spec_column_types(data: Seq<u8>, off: int, header_size: int) -> Seq<SerialType>
    decreases (if header_size - off < 0 { 0int } else { header_size - off }),
{
    if off >= header_size || off >= data.len() || off < 0 {
        Seq::empty()
    } else {
        match spec_varint_at(data, off) {
            Some((code, len)) => {
                if len < 1 {
                    Seq::empty()
                } else {
                    seq![spec_serial_type_from_raw(code)] + spec_column_types(
                        data,
                        off + len,
                        header_size,
                    )
                }
            },
            None => Seq::empty(),
        }
    }
}

/// The column values for `types`, decoded one after another from
/// `off`, each advancing the offset by its declared width whether or
/// not its bytes were available.
pub open spec fn spec_values(data: Seq<u8>, off: int, types: Seq<SerialType>) -> Seq<ValueV>
    decreases types.len(),
{
    if types.len() == 0 {
        Seq::empty()
    } else {
        seq![spec_column_value(data, off, types[0])] + spec_values(
            data,
            off + spec_serial_size(types[0]),
            types.drop_first(),
        )
    }
}

/// The record encoded in `data`: the header-size varint, the serial
/// types of the header, and the values that follow the header.
/// `None` exactly when `data` is empty.
pub open spec fn spec_parse_record(data: Seq<u8>) -> Option<RecordV> {
    match spec_parse_varint(data) {
        None => None,
        Some((header_size, header_size_len)) => {
            let types = spec_column_types(data, header_size_len, header_size as int);
            Some(
                RecordV {
                    header_size,
                    column_types: types,
                    values: spec_values(data, header_size as int, types),
                },
            )
        },
    }
}

/// Decode one value whose bytes fit inside `data`.
fn parse_value(data: &[u8], off: usize, st: SerialType) -> (r: Value)
    requires
        off + spec_serial_size(st) <= data@.len(),
    ensures
        r@ == spec_value_at(data@, off as int, st),
{
    let dlen = data.len();
    proof {
        reveal_with_fuel(spec_pow256, 9);
        lemma_be_uint_bound(data@, off as int, 1);
        lemma_be_uint_bound(data@, off as int, 2);
        lemma_be_uint_bound(data@, off as int, 3);
        lemma_be_uint_bound(data@, off as int, 4);
        lemma_be_uint_bound(data@, off as int, 6);
        lemma_be_uint_bound(data@, off as int, 8);
    }
    match st {
        SerialType::Null => Value::Null,
        SerialType::Int8 => {
            let raw = read_be_uint(data, off, 1);
            if raw >= 0x80 {
                Value::Integer(raw as i64 - 0x100)
            } else {
                Value::Integer(raw as i64)
            }
        },
        SerialType::Int16 => {
            let raw = read_be_uint(data, off, 2);
            if raw >= 0x8000 {
                Value::Integer(raw as i64 - 0x1_0000)
            } else {
                Value::Integer(raw as i64)
            }
        },
        SerialType::Int24 => {
            let raw = read_be_uint(data, off, 3);
            if raw >= 0x80_0000 {
                Value::Integer(raw as i64 - 0x100_0000)
            } else {
                Value::Integer(raw as i64)
            }
        },
        SerialType::Int32 => {
            let raw = read_be_uint(data, off, 4);
            if raw >= 0x8000_0000 {
                Value::Integer(raw as i64 - 0x1_0000_0000)
            } else {
                Value::Integer(raw as i64)
            }
        },
        SerialType::Int48 => {
            let raw = read_be_uint(data, off, 6);
            if raw >= 0x8000_0000_0000 {
                Value::Integer(raw as i64 - 0x1_0000_0000_0000)
            } else {
                Value::Integer(raw as i64)
            }
        },
        SerialType::Int64 => {
            let raw = read_be_uint(data, off, 8);
            if raw >= 0x8000_0000_0000_0000 {
                let mag = u64::MAX - raw + 1;
                if mag == 0x8000_0000_0000_0000 {
                    Value::Integer(i64::MIN)
                } else {
                    Value::Integer(-(mag as i64))
                }
            } else {
                Value::Integer(raw as i64)
            }
        },
        SerialType::Float64 => Value::Real(read_be_uint(data, off, 8)),
        SerialType::Zero => Value::Integer(0),
        SerialType::One => Value::Integer(1),
        SerialType::Reserved(_) => Value::Null,
        SerialType::Blob(n) => Value::Blob(copy_bytes(data, off, n as usize)),
        SerialType::Text(n) => {
            let bytes = copy_bytes(data, off, n as usize);
            Value::Text(decode_text(bytes.as_slice()))
        },
    }
}

/// Decode a record: the header-size varint, then the serial types of
/// the header, then one value per type. Only an empty buffer is an
/// error; a header or payload that ends early degrades to fewer
/// columns or null values, never a failure.
pub fn parse_record(data: &[u8]) -> (r: Result<Record, SqliteVizError>)
    ensures
        r is Err <==> data@.len() == 0,
        r matches Err(e) ==> e == (SqliteVizError::UnexpectedEof { context: "record" }),
        r matches Ok(rec) ==> Some(rec@) == spec_parse_record(data@),
{
    let dlen = data.len();
    if dlen == 0 {
        return Err(SqliteVizError::UnexpectedEof { context: "record" });
    }
    let (header_size, header_size_len) = match parse_varint(data) {
        Ok(p) => p,
        Err(_) => {
            return Err(SqliteVizError::UnexpectedEof { context: "record" });
        },
    };

    let ghost types_full = spec_column_types(data@, header_size_len as int, header_size as int);

    let mut offset: usize = header_size_len;
    let mut column_types: Vec<SerialType> = Vec::new();
    while (offset as u64) < header_size && offset < dlen
        invariant
            dlen == data@.len(),
            offset <= dlen,
            types_full =~= column_types@ + spec_column_types(
                data@,
                offset as int,
                header_size as int,
            ),
        decreases dlen - offset,
    {
        let tail = vstd::slice::slice_subrange(data, offset, dlen);
        match parse_varint(tail) {
            Ok((code, len)) => {
                column_types.push(SerialType::from_raw(code));
                proof {
                    assert(spec_varint_at(data@, offset as int) == Some((code, len as int)));
                    assert(types_full =~= column_types@ + spec_column_types(
                        data@,
                        offset + len,
                        header_size as int,
                    ));
                }
                offset = offset + len;
            },
            Err(_) => {
                proof {
                    assert(false);
                }
            },
        }
    }
    proof {
        assert(types_full =~= column_types@);
    }

    let mut values: Vec<Value> = Vec::new();
    let mut voff: u64 = header_size;
    let mut past_end: bool = false;
    let ghost mut spec_off: int = header_size as int;
    let mut i: usize = 0;
    proof {
        assert(values.deep_view() =~= Seq::<ValueV>::empty());
        assert(types_full.skip(0) =~= types_full);
    }
    while i < column_types.len()
        invariant
            dlen == data@.len(),
            column_types@ == types_full,
            i <= column_types@.len(),
            0 <= spec_off,
            !past_end ==> voff == spec_off,
            past_end ==> spec_off > u64::MAX,
            spec_values(data@, header_size as int, types_full) =~= values.deep_view()
                + spec_values(data@, spec_off, types_full.skip(i as int)),
        decreases column_types@.len() - i,
    {
        let st = column_types[i];
        let size: u64 = st.size();
        let ghost prev_values = values.deep_view();
        proof {
            assert(types_full.skip(i as int)[0] == types_full[i as int]);
            assert(types_full.skip(i as int).drop_first() =~= types_full.skip(i as int + 1));
        }
        if past_end || voff > dlen as u64 || size > dlen as u64 - voff {
            values.push(Value::Null);
            proof {
                assert(spec_column_value(data@, spec_off, types_full[i as int]) == ValueV::Null);
                assert(values.deep_view() =~= prev_values + seq![ValueV::Null]);
            }
        } else {
            let v = parse_value(data, voff as usize, st);
            values.push(v);
            proof {
                assert(spec_column_value(data@, spec_off, types_full[i as int]) == v@);
                assert(values.deep_view() =~= prev_values + seq![v@]);
            }
        }
        proof {
            spec_off = spec_off + size;
        }
        if !past_end {
            if voff > u64::MAX - size {
                past_end = true;
            } else {
                voff = voff + size;
            }
        }
        i = i + 1;
    }
    proof {
        assert(types_full.skip(types_full.len() as int) =~= Seq::<SerialType>::empty());
        assert(spec_values(data@, header_size as int, types_full) =~= values.deep_view());
    }

    let rec = Record { header_size, column_types, values };
    proof {
        assert(rec@.column_types =~= spec_parse_record(data@)->Some_0.column_types);
        assert(rec@.values =~= spec_parse_record(data@)->Some_0.values);
    }
    Ok(rec)
}

} // verus!
