//! What holds of every opcode stream, proved of the state machine that the
//! interpreter is held to.

use crate::error::BindError;
use crate::imports::{names, outcome, BindInterpreter, Import};
use crate::layout::{PointerWidth, Segment};
use crate::machine::{
    bind, initial, lemma_wrap64_add, repeated_imports, run_from, run_pass, step, wrap64,
    ImportView, Pass, State,
};
use crate::opcodes::{
    immediate, operation, BIND_OPCODE_DONE, BIND_OPCODE_DO_BIND,
    BIND_OPCODE_DO_BIND_ADD_ADDR_IMM_SCALED, BIND_OPCODE_DO_BIND_ADD_ADDR_ULEB,
    BIND_OPCODE_SET_DYLIB_ORDINAL_ULEB, BIND_OPCODE_SET_SYMBOL_TRAILING_FLAGS_IMM,
};
use crate::reader::{decode_error, nul_free_len, opcode_at, uleb128_at};
use crate::record::Record;
use vstd::prelude::*;

verus! {

/// Every step reads at least the opcode byte and nothing behind the end of
/// the bytes.
pub proof fn lemma_step_advances(pass: Pass, state: State)
    requires
        step(pass, state) is Ok,
    ensures
        state.cursor < step(pass, state)->Ok_0.cursor <= pass.bytes.len(),
{
}

/// A `DONE` opcode puts a fresh record in the place of whatever the opcodes
/// before it had set: library ordinal, addend and segment offset are zero
/// again and the symbol name is empty.  The sub-sequence that follows begins
/// behind the opcode, and that offset, counted from the start of the stream,
/// is what its imports will carry.  No import is emitted.
pub proof fn lemma_done_resets(pass: Pass, state: State, opcode: u8)
    requires
        opcode_at(pass.bytes, state.cursor) == Some(opcode),
        operation(opcode) == BIND_OPCODE_DONE,
    ensures
        step(pass, state) == Ok::<State, BindError>(
            State {
                record: Record::fresh(pass.is_lazy),
                cursor: state.cursor + 1,
                start_of_sequence: state.cursor + 1 - pass.start,
                imports: state.imports,
            },
        ),
        Record::fresh(pass.is_lazy).symbol_library_ordinal == 0,
        Record::fresh(pass.is_lazy).addend == 0,
        Record::fresh(pass.is_lazy).symbol_name == Seq::<char>::empty(),
        Record::fresh(pass.is_lazy).seg_offset == 0,
{
}

/// Whether `later` holds the imports of `earlier` and behind them only
/// imports that carry `start_of_sequence`.
pub open spec fn extended_within_sequence(
    earlier: Seq<ImportView>,
    later: Seq<ImportView>,
    start_of_sequence: int,
) -> bool {
    &&& earlier.len() <= later.len()
    &&& forall|i: int| 0 <= i < earlier.len() ==> #[trigger] later[i] == earlier[i]
    &&& forall|i: int|
        earlier.len() <= i < later.len() ==> (#[trigger] later[i]).start_of_sequence_offset
            == start_of_sequence as u64
}

/// No opcode but `DONE` moves the start of the sequence, and every import
/// that a step emits carries the start of the sequence that the step found.
/// The imports emitted before stay as they are.
pub proof fn lemma_imports_carry_start_of_sequence(pass: Pass, state: State, opcode: u8)
    requires
        opcode_at(pass.bytes, state.cursor) == Some(opcode),
        step(pass, state) is Ok,
    ensures
        operation(opcode) != BIND_OPCODE_DONE ==> step(pass, state)->Ok_0.start_of_sequence
            == state.start_of_sequence,
        extended_within_sequence(
            state.imports,
            step(pass, state)->Ok_0.imports,
            state.start_of_sequence,
        ),
{
}

/// The state after `n` more opcodes, none of them `DONE`, if there are as
/// many and none of them fails.
pub open spec fn after_steps_without_done(pass: Pass, state: State, n: nat) -> Option<State>
    decreases n,
{
    if n == 0 {
        Some(state)
    } else {
        match opcode_at(pass.bytes, state.cursor) {
            Some(opcode) if operation(opcode) != BIND_OPCODE_DONE => match step(pass, state) {
                Ok(next) => after_steps_without_done(pass, next, (n - 1) as nat),
                Err(_) => None,
            },
            _ => None,
        }
    }
}

/// As long as no `DONE` is met, the start of the sequence stays and every
/// import that is emitted carries it.
pub proof fn lemma_sequence_is_carried(pass: Pass, state: State, n: nat)
    requires
        after_steps_without_done(pass, state, n) is Some,
    ensures
        after_steps_without_done(pass, state, n)->Some_0.start_of_sequence
            == state.start_of_sequence,
        extended_within_sequence(
            state.imports,
            after_steps_without_done(pass, state, n)->Some_0.imports,
            state.start_of_sequence,
        ),
    decreases n,
{
    if n > 0 {
        let opcode = opcode_at(pass.bytes, state.cursor)->Some_0;
        let next = step(pass, state)->Ok_0;
        lemma_imports_carry_start_of_sequence(pass, state, opcode);
        lemma_sequence_is_carried(pass, next, (n - 1) as nat);
    }
}

/// Every import that is emitted behind a `DONE` opcode and before the next
/// one carries, as the start of its sequence, the offset of the byte behind
/// that `DONE` opcode, counted from the start of the stream.
pub proof fn lemma_imports_after_done(pass: Pass, state: State, opcode: u8, n: nat)
    requires
        opcode_at(pass.bytes, state.cursor) == Some(opcode),
        operation(opcode) == BIND_OPCODE_DONE,
        after_steps_without_done(pass, step(pass, state)->Ok_0, n) is Some,
    ensures
        extended_within_sequence(
            state.imports,
            after_steps_without_done(pass, step(pass, state)->Ok_0, n)->Some_0.imports,
            state.cursor + 1 - pass.start,
        ),
{
    lemma_done_resets(pass, state, opcode);
    lemma_sequence_is_carried(pass, step(pass, state)->Ok_0, n);
}

/// Whether every import of `imports` is marked as the stream it came from
/// demands: lazy and of size 8 in the lazy stream, not lazy and of size 0 in
/// the eager one.
pub open spec fn marked(imports: Seq<ImportView>, is_lazy: bool) -> bool {
    forall|i: int|
        0 <= i < imports.len() ==> (#[trigger] imports[i]).is_lazy == is_lazy && imports[i].size
            == (if is_lazy {
            8usize
        } else {
            0usize
        })
}

/// A step keeps the record in its stream and marks what it emits.
proof fn lemma_step_marks(pass: Pass, state: State)
    requires
        state.record.is_lazy == pass.is_lazy,
        marked(state.imports, pass.is_lazy),
        step(pass, state) is Ok,
    ensures
        step(pass, state)->Ok_0.record.is_lazy == pass.is_lazy,
        marked(step(pass, state)->Ok_0.imports, pass.is_lazy),
{
}

/// The rest of a stream marks what it emits.
proof fn lemma_run_from_marks(pass: Pass, state: State)
    requires
        state.record.is_lazy == pass.is_lazy,
        marked(state.imports, pass.is_lazy),
        run_from(pass, state) is Ok,
    ensures
        marked(run_from(pass, state)->Ok_0, pass.is_lazy),
    decreases pass.bytes.len() - state.cursor,
{
    if state.cursor < pass.end {
        lemma_step_advances(pass, state);
        lemma_step_marks(pass, state);
        lemma_run_from_marks(pass, step(pass, state)->Ok_0);
    }
}

/// Every import of the lazy stream is lazy and of size 8, every import of the
/// eager stream is not lazy and of size 0, whatever the width of a pointer.
pub proof fn lemma_pass_marks_imports(pass: Pass)
    requires
        run_pass(pass) is Ok,
    ensures
        marked(run_pass(pass)->Ok_0, pass.is_lazy),
{
    lemma_run_from_marks(pass, initial(pass));
}

/// In what an interpreter returns, the imports of the eager stream come
/// first and are all not lazy and of size 0; those of the lazy stream follow
/// and are all lazy and of size 8.
pub proof fn lemma_imports_marked(
    interpreter: BindInterpreter<'_>,
    libs: Seq<Seq<char>>,
    segments: Seq<Segment>,
    ctx: PointerWidth,
)
    requires
        interpreter.spec_imports(libs, segments, ctx) is Ok,
    ensures
        ({
            let all = interpreter.spec_imports(libs, segments, ctx)->Ok_0;
            let eager = run_pass(interpreter.pass(false, libs, segments, ctx))->Ok_0;
            &&& eager.len() <= all.len()
            &&& forall|i: int|
                0 <= i < eager.len() ==> !(#[trigger] all[i]).is_lazy && all[i].size == 0
            &&& forall|i: int|
                eager.len() <= i < all.len() ==> (#[trigger] all[i]).is_lazy && all[i].size == 8
        }),
{
    lemma_pass_marks_imports(interpreter.pass(false, libs, segments, ctx));
    lemma_pass_marks_imports(interpreter.pass(true, libs, segments, ctx));
}

/// A bind of a record whose library ordinal the library table does not hold
/// ends the pass with an error that says so, whichever of the opcodes that
/// bind once makes it.
pub proof fn lemma_missing_library_fails(pass: Pass, state: State, opcode: u8)
    requires
        state.cursor < pass.end,
        opcode_at(pass.bytes, state.cursor) == Some(opcode),
        operation(opcode) == BIND_OPCODE_DO_BIND || operation(opcode)
            == BIND_OPCODE_DO_BIND_ADD_ADDR_ULEB || operation(opcode)
            == BIND_OPCODE_DO_BIND_ADD_ADDR_IMM_SCALED,
        state.record.seg_index < pass.segments.len(),
        state.record.symbol_library_ordinal >= pass.libs.len(),
    ensures
        run_from(pass, state) == Err::<Seq<ImportView>, BindError>(
            BindError::OrdinalOutOfRange {
                ordinal: state.record.symbol_library_ordinal as usize,
                len: pass.libs.len() as usize,
            },
        ),
{
}

/// A library ordinal that `SET_DYLIB_ORDINAL_ULEB` sets and that, cut to one
/// byte, the library table does not hold ends the pass with an error that
/// says so as soon as the next opcode binds.
pub proof fn lemma_ordinal_beyond_table_fails(
    pass: Pass,
    state: State,
    opcode: u8,
    ordinal: u64,
    next: int,
    bind_opcode: u8,
)
    requires
        state.cursor < pass.end,
        opcode_at(pass.bytes, state.cursor) == Some(opcode),
        operation(opcode) == BIND_OPCODE_SET_DYLIB_ORDINAL_ULEB,
        uleb128_at(pass.bytes, state.cursor + 1) == Some((ordinal, next)),
        ordinal % 256 >= pass.libs.len(),
        next < pass.end,
        opcode_at(pass.bytes, next) == Some(bind_opcode),
        operation(bind_opcode) == BIND_OPCODE_DO_BIND || operation(bind_opcode)
            == BIND_OPCODE_DO_BIND_ADD_ADDR_ULEB || operation(bind_opcode)
            == BIND_OPCODE_DO_BIND_ADD_ADDR_IMM_SCALED,
        state.record.seg_index < pass.segments.len(),
    ensures
        run_from(pass, state) == Err::<Seq<ImportView>, BindError>(
            BindError::OrdinalOutOfRange {
                ordinal: (ordinal % 256) as usize,
                len: pass.libs.len() as usize,
            },
        ),
{
    let set = step(pass, state)->Ok_0;
    assert(step(pass, state) is Ok);
    lemma_missing_library_fails(pass, set, bind_opcode);
}

/// Where no zero byte follows, the run without a zero byte reaches the end.
proof fn lemma_nul_free_to_end(bytes: Seq<u8>, from: int)
    requires
        0 <= from <= bytes.len(),
        forall|i: int| from <= i < bytes.len() ==> bytes[i] != 0,
    ensures
        from + nul_free_len(bytes, from) == bytes.len(),
    decreases bytes.len() - from,
{
    if from < bytes.len() {
        lemma_nul_free_to_end(bytes, from + 1);
    }
}

/// A symbol name that no zero byte ends before the stream does ends the pass
/// with a decode error at the offset at which the name begins.
pub proof fn lemma_unterminated_name_fails(pass: Pass, state: State, opcode: u8)
    requires
        state.cursor < pass.end,
        opcode_at(pass.bytes, state.cursor) == Some(opcode),
        operation(opcode) == BIND_OPCODE_SET_SYMBOL_TRAILING_FLAGS_IMM,
        forall|i: int| state.cursor < i < pass.bytes.len() ==> pass.bytes[i] != 0,
    ensures
        run_from(pass, state) == Err::<Seq<ImportView>, BindError>(
            decode_error((state.cursor + 1) as usize),
        ),
{
    lemma_nul_free_to_end(pass.bytes, state.cursor + 1);
}

/// `DO_BIND_ADD_ADDR_IMM_SCALED` emits the import of the record as it stands
/// and then moves the segment offset on by the immediate times the size of a
/// pointer and by the size of a pointer once more, wrapping: by 24 for an
/// immediate of 2 and pointers of 8 bytes.
pub proof fn lemma_scaled_bind_advances(pass: Pass, state: State, opcode: u8)
    requires
        opcode_at(pass.bytes, state.cursor) == Some(opcode),
        operation(opcode) == BIND_OPCODE_DO_BIND_ADD_ADDR_IMM_SCALED,
        bind(state.record, pass.libs, pass.segments, state.start_of_sequence) is Ok,
    ensures
        step(pass, state) == Ok::<State, BindError>(
            State {
                record: Record {
                    seg_offset: wrap64(
                        state.record.seg_offset + immediate(opcode) * pass.pointer_size
                            + pass.pointer_size,
                    ),
                    ..state.record
                },
                cursor: state.cursor + 1,
                start_of_sequence: state.start_of_sequence,
                imports: state.imports.push(
                    bind(
                        state.record,
                        pass.libs,
                        pass.segments,
                        state.start_of_sequence,
                    )->Ok_0,
                ),
            },
        ),
        immediate(opcode) == 2 && pass.pointer_size == 8 ==> step(
            pass,
            state,
        )->Ok_0.record.seg_offset == wrap64(state.record.seg_offset + 24),
{
}

/// In a row of binds, each import lies `stride` behind the one before it,
/// wrapping, and all are of the same symbol and the same library.
pub proof fn lemma_repeated_imports_stride(
    record: Record,
    libs: Seq<Seq<char>>,
    segments: Seq<Segment>,
    start_of_sequence: int,
    count: nat,
    stride: int,
    i: int,
)
    requires
        0 <= i,
        i + 1 < count,
    ensures
        ({
            let imports = repeated_imports(
                record,
                libs,
                segments,
                start_of_sequence,
                count,
                stride,
            );
            &&& imports[i + 1].address == wrap64(imports[i].address + stride)
            &&& imports[i + 1].offset == wrap64(imports[i].offset + stride)
            &&& imports[i + 1].name == imports[i].name
            &&& imports[i + 1].dylib == imports[i].dylib
        }),
{
    assert((i + 1) * stride == i * stride + stride) by (nonlinear_arith);
    let segment = segments[record.seg_index as int];
    let here = record.seg_offset + i * stride;
    lemma_wrap64_add(segment.vmaddr as int, here);
    lemma_wrap64_add(segment.vmaddr as int, here + stride);
    lemma_wrap64_add(segment.vmaddr + here, stride);
    lemma_wrap64_add(segment.fileoff as int, here);
    lemma_wrap64_add(segment.fileoff as int, here + stride);
    lemma_wrap64_add(segment.fileoff + here, stride);
}

/// Two extractions from one interpreter with the same tables and the same
/// pointer width return the same: the same imports in the same order, or the
/// same error.
pub proof fn lemma_imports_deterministic(
    interpreter: BindInterpreter<'_>,
    libs: Seq<&str>,
    segments: Seq<Segment>,
    ctx: PointerWidth,
    first: Result<Vec<Import<'_>>, BindError>,
    second: Result<Vec<Import<'_>>, BindError>,
)
    requires
        outcome(first) == interpreter.spec_imports(names(libs), segments, ctx),
        outcome(second) == interpreter.spec_imports(names(libs), segments, ctx),
    ensures
        outcome(first) == outcome(second),
{
}

} // verus!
