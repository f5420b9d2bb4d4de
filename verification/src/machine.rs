//! The bind opcode stream as a state machine over mathematical values.
//!
//! This is what the interpreter is held to: [`step`] says what one opcode does
//! to the state, [`run_from`] what the rest of a stream yields, [`run_pass`]
//! what a whole pass yields.

use crate::error::BindError;
use crate::layout::Segment;
use crate::opcodes::{
    immediate, operation, BIND_OPCODE_ADD_ADDR_ULEB, BIND_OPCODE_DONE, BIND_OPCODE_DO_BIND,
    BIND_OPCODE_DO_BIND_ADD_ADDR_IMM_SCALED, BIND_OPCODE_DO_BIND_ADD_ADDR_ULEB,
    BIND_OPCODE_DO_BIND_ULEB_TIMES_SKIPPING_ULEB, BIND_OPCODE_SET_ADDEND_SLEB,
    BIND_OPCODE_SET_DYLIB_ORDINAL_IMM, BIND_OPCODE_SET_DYLIB_ORDINAL_ULEB,
    BIND_OPCODE_SET_DYLIB_SPECIAL_IMM, BIND_OPCODE_SET_SEGMENT_AND_OFFSET_ULEB,
    BIND_OPCODE_SET_SYMBOL_TRAILING_FLAGS_IMM, BIND_OPCODE_SET_TYPE_IMM,
};
use crate::reader::{decode_error, name_at, opcode_at, sleb128_at, uleb128_at};
use crate::record::Record;
use vstd::prelude::*;

verus! {

/// An import as a mathematical value.
pub struct ImportView {
    pub name: Seq<char>,
    pub dylib: Seq<char>,
    pub is_lazy: bool,
    pub offset: u64,
    pub size: usize,
    pub address: u64,
    pub addend: i64,
    pub is_weak: bool,
    pub start_of_sequence_offset: u64,
}

/// What a pass over one opcode stream is given, and does not change.
pub struct Pass {
    /// The binary's bytes, cut off where the stream ends.
    pub bytes: Seq<u8>,
    /// Where the stream begins in `bytes`.
    pub start: int,
    /// Where the stream ends.
    pub end: int,
    /// Whether this is the lazy stream.
    pub is_lazy: bool,
    /// The names of the libraries, by ordinal.
    pub libs: Seq<Seq<char>>,
    /// The segments, by index.
    pub segments: Seq<Segment>,
    /// The number of bytes in a pointer.
    pub pointer_size: int,
}

/// What a pass changes as it goes.
pub struct State {
    /// The binding record.
    pub record: Record,
    /// The offset in the bytes of what is read next.
    pub cursor: int,
    /// Where, counted from the start of the stream, the current sub-sequence began.
    pub start_of_sequence: int,
    /// The imports emitted so far, in the order of emission.
    pub imports: Seq<ImportView>,
}

/// `x` reduced to 64 bits, as unsigned arithmetic that wraps leaves it.
#[verifier::opaque]
pub open spec fn wrap64(x: int) -> u64 {
    (x % 0x1_0000_0000_0000_0000) as u64
}

/// What fits in 64 bits is left as it is.
pub proof fn lemma_wrap64_fits(x: u64)
    ensures
        wrap64(x as int) == x,
{
    reveal(wrap64);
}

/// Adding that wraps is adding, reduced to 64 bits.
pub proof fn lemma_wrapping_add(a: u64, b: u64)
    ensures
        a.wrapping_add(b) == wrap64(a + b),
{
    reveal(wrap64);
}

/// Reducing one term to 64 bits before adding changes nothing of the reduced sum.
pub proof fn lemma_wrap64_add(x: int, y: int)
    ensures
        wrap64(wrap64(x) + y) == wrap64(x + y),
        wrap64(x + wrap64(y)) == wrap64(x + y),
{
    reveal(wrap64);
}

/// `record` with its segment offset moved on by `delta`, wrapping.
pub open spec fn advanced(record: Record, delta: int) -> Record {
    Record { seg_offset: wrap64(record.seg_offset + delta), ..record }
}

/// The import that `record` stands for, in `segment` and from the library `dylib`.
pub open spec fn import_of(
    record: Record,
    dylib: Seq<char>,
    segment: Segment,
    start_of_sequence: int,
) -> ImportView {
    ImportView {
        name: record.symbol_name,
        dylib,
        is_lazy: record.is_lazy,
        offset: wrap64(segment.fileoff + record.seg_offset),
        size: if record.is_lazy {
            8
        } else {
            0
        },
        address: wrap64(segment.vmaddr + record.seg_offset),
        addend: record.addend,
        is_weak: record.is_weak(),
        start_of_sequence_offset: start_of_sequence as u64,
    }
}

/// The import that a bind of `record` emits, or the error where the record
/// names a segment or a library that the tables do not hold.  The segment is
/// looked up first.
pub open spec fn bind(
    record: Record,
    libs: Seq<Seq<char>>,
    segments: Seq<Segment>,
    start_of_sequence: int,
) -> Result<ImportView, BindError> {
    if record.seg_index >= segments.len() {
        Err(
            BindError::SegmentOutOfRange {
                index: record.seg_index as usize,
                len: segments.len() as usize,
            },
        )
    } else if record.symbol_library_ordinal >= libs.len() {
        Err(
            BindError::OrdinalOutOfRange {
                ordinal: record.symbol_library_ordinal as usize,
                len: libs.len() as usize,
            },
        )
    } else {
        Ok(
            import_of(
                record,
                libs[record.symbol_library_ordinal as int],
                segments[record.seg_index as int],
                start_of_sequence,
            ),
        )
    }
}

/// The imports of `count` binds in a row, the segment offset moving on by
/// `stride` after each.
pub open spec fn repeated_imports(
    record: Record,
    libs: Seq<Seq<char>>,
    segments: Seq<Segment>,
    start_of_sequence: int,
    count: nat,
    stride: int,
) -> Seq<ImportView> {
    Seq::new(
        count,
        |i: int|
            import_of(
                advanced(record, i * stride),
                libs[record.symbol_library_ordinal as int],
                segments[record.seg_index as int],
                start_of_sequence,
            ),
    )
}

/// What `count` binds in a row yield, the segment offset moving on by `stride`
/// after each: the record as the last bind leaves it and the imports, or the
/// error of the first bind.  No bind at all changes nothing and cannot fail.
pub open spec fn repeated_bind(
    record: Record,
    libs: Seq<Seq<char>>,
    segments: Seq<Segment>,
    start_of_sequence: int,
    count: nat,
    stride: int,
) -> Result<(Record, Seq<ImportView>), BindError> {
    if count == 0 {
        Ok((record, Seq::empty()))
    } else {
        match bind(record, libs, segments, start_of_sequence) {
            Ok(_) => Ok(
                (
                    advanced(record, count * stride),
                    repeated_imports(record, libs, segments, start_of_sequence, count, stride),
                ),
            ),
            Err(e) => Err(e),
        }
    }
}

/// What the opcode byte `opcode` does to `state`, whose cursor stands behind
/// that byte.
pub open spec fn execute(pass: Pass, state: State, opcode: u8) -> Result<State, BindError> {
    let op = operation(opcode);
    let imm = immediate(opcode);
    let record = state.record;
    let cursor = state.cursor;
    if op == BIND_OPCODE_DONE {
        Ok(
            State {
                record: Record::fresh(pass.is_lazy),
                start_of_sequence: cursor - pass.start,
                ..state
            },
        )
    } else if op == BIND_OPCODE_SET_DYLIB_ORDINAL_IMM {
        Ok(State { record: Record { symbol_library_ordinal: imm, ..record }, ..state })
    } else if op == BIND_OPCODE_SET_DYLIB_ORDINAL_ULEB {
        match uleb128_at(pass.bytes, cursor) {
            Some((ordinal, next)) => Ok(
                State {
                    record: Record { symbol_library_ordinal: (ordinal % 256) as u8, ..record },
                    cursor: next,
                    ..state
                },
            ),
            None => Err(decode_error(cursor as usize)),
        }
    } else if op == BIND_OPCODE_SET_DYLIB_SPECIAL_IMM {
        Ok(State { record: Record { special_dylib: imm, ..record }, ..state })
    } else if op == BIND_OPCODE_SET_SYMBOL_TRAILING_FLAGS_IMM {
        match name_at(pass.bytes, cursor) {
            Some((name, next)) => Ok(
                State {
                    record: Record { symbol_name: name, symbol_flags: imm, ..record },
                    cursor: next,
                    ..state
                },
            ),
            None => Err(decode_error(cursor as usize)),
        }
    } else if op == BIND_OPCODE_SET_TYPE_IMM {
        Ok(State { record: Record { bind_type: imm, ..record }, ..state })
    } else if op == BIND_OPCODE_SET_ADDEND_SLEB {
        match sleb128_at(pass.bytes, cursor) {
            Some((addend, next)) => Ok(
                State { record: Record { addend, ..record }, cursor: next, ..state },
            ),
            None => Err(decode_error(cursor as usize)),
        }
    } else if op == BIND_OPCODE_SET_SEGMENT_AND_OFFSET_ULEB {
        match uleb128_at(pass.bytes, cursor) {
            Some((seg_offset, next)) => Ok(
                State {
                    record: Record { seg_index: imm, seg_offset, ..record },
                    cursor: next,
                    ..state
                },
            ),
            None => Err(decode_error(cursor as usize)),
        }
    } else if op == BIND_OPCODE_ADD_ADDR_ULEB {
        match uleb128_at(pass.bytes, cursor) {
            Some((delta, next)) => Ok(
                State { record: advanced(record, delta as int), cursor: next, ..state },
            ),
            None => Err(decode_error(cursor as usize)),
        }
    } else if op == BIND_OPCODE_DO_BIND {
        match bind(record, pass.libs, pass.segments, state.start_of_sequence) {
            Ok(import) => Ok(
                State {
                    record: advanced(record, pass.pointer_size),
                    imports: state.imports.push(import),
                    ..state
                },
            ),
            Err(e) => Err(e),
        }
    } else if op == BIND_OPCODE_DO_BIND_ADD_ADDR_ULEB {
        match bind(record, pass.libs, pass.segments, state.start_of_sequence) {
            Ok(import) => match uleb128_at(pass.bytes, cursor) {
                Some((delta, next)) => Ok(
                    State {
                        record: advanced(record, delta + pass.pointer_size),
                        cursor: next,
                        imports: state.imports.push(import),
                        ..state
                    },
                ),
                None => Err(decode_error(cursor as usize)),
            },
            Err(e) => Err(e),
        }
    } else if op == BIND_OPCODE_DO_BIND_ADD_ADDR_IMM_SCALED {
        match bind(record, pass.libs, pass.segments, state.start_of_sequence) {
            Ok(import) => Ok(
                State {
                    record: advanced(record, imm * pass.pointer_size + pass.pointer_size),
                    imports: state.imports.push(import),
                    ..state
                },
            ),
            Err(e) => Err(e),
        }
    } else if op == BIND_OPCODE_DO_BIND_ULEB_TIMES_SKIPPING_ULEB {
        match uleb128_at(pass.bytes, cursor) {
            Some((count, middle)) => match uleb128_at(pass.bytes, middle) {
                Some((skip, next)) => match repeated_bind(
                    record,
                    pass.libs,
                    pass.segments,
                    state.start_of_sequence,
                    count as nat,
                    skip + pass.pointer_size,
                ) {
                    Ok((bound, emitted)) => Ok(
                        State {
                            record: bound,
                            cursor: next,
                            imports: state.imports + emitted,
                            ..state
                        },
                    ),
                    Err(e) => Err(e),
                },
                None => Err(decode_error(middle as usize)),
            },
            None => Err(decode_error(cursor as usize)),
        }
    } else {
        Ok(state)
    }
}

/// What the opcode at the cursor, with its operands, does to `state`.
pub open spec fn step(pass: Pass, state: State) -> Result<State, BindError> {
    match opcode_at(pass.bytes, state.cursor) {
        Some(opcode) => execute(pass, State { cursor: state.cursor + 1, ..state }, opcode),
        None => Err(decode_error(state.cursor as usize)),
    }
}

/// What the stream yields from `state` on: the imports emitted once the
/// cursor has reached the end of the stream, or the first error.
pub open spec fn run_from(pass: Pass, state: State) -> Result<Seq<ImportView>, BindError>
    decreases pass.bytes.len() - state.cursor,
{
    if state.cursor >= pass.end {
        Ok(state.imports)
    } else {
        match step(pass, state) {
            Ok(next) => run_from(pass, next),
            Err(e) => Err(e),
        }
    }
}

/// The state that a pass begins in.
pub open spec fn initial(pass: Pass) -> State {
    State {
        record: Record::fresh(pass.is_lazy),
        cursor: pass.start,
        start_of_sequence: 0,
        imports: Seq::empty(),
    }
}

/// What a whole pass yields: its imports in the order of emission, or the
/// error that ended it.
pub open spec fn run_pass(pass: Pass) -> Result<Seq<ImportView>, BindError> {
    run_from(pass, initial(pass))
}

} // verus!
