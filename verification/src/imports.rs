//! Dynamically linked symbolic imports, and the interpreter that finds them.

use crate::error::BindError;
use crate::layout::{PointerWidth, Segment};
use crate::machine::{
    advanced, bind, execute, lemma_wrap64_add, lemma_wrap64_fits, lemma_wrapping_add,
    repeated_bind, repeated_imports, run_from, run_pass, step, wrap64, ImportView, Pass, State,
};
use crate::opcodes::{
    lemma_immediate_bound, BIND_IMMEDIATE_MASK, BIND_OPCODE_ADD_ADDR_ULEB, BIND_OPCODE_DONE,
    BIND_OPCODE_DO_BIND, BIND_OPCODE_DO_BIND_ADD_ADDR_IMM_SCALED,
    BIND_OPCODE_DO_BIND_ADD_ADDR_ULEB, BIND_OPCODE_DO_BIND_ULEB_TIMES_SKIPPING_ULEB,
    BIND_OPCODE_MASK, BIND_OPCODE_SET_ADDEND_SLEB, BIND_OPCODE_SET_DYLIB_ORDINAL_IMM,
    BIND_OPCODE_SET_DYLIB_ORDINAL_ULEB, BIND_OPCODE_SET_DYLIB_SPECIAL_IMM,
    BIND_OPCODE_SET_SEGMENT_AND_OFFSET_ULEB, BIND_OPCODE_SET_SYMBOL_TRAILING_FLAGS_IMM,
    BIND_OPCODE_SET_TYPE_IMM,
};
use crate::reader::{read_name, read_opcode, read_sleb128, read_uleb128};
use crate::record::{BindInformation, Record};
use core::ops::Range;
use vstd::prelude::*;
use vstd::slice::slice_subrange;

verus! {

/// A dynamically linked symbolic import.
#[derive(Debug)]
pub struct Import<'a> {
    /// The symbol name the dynamic linker uses to resolve this import.
    pub name: &'a str,
    /// The library this symbol belongs to.
    pub dylib: &'a str,
    /// Whether the symbol is lazily resolved or not.
    pub is_lazy: bool,
    /// The offset in the binary at which this import is found.
    pub offset: u64,
    /// The size of this import.
    pub size: usize,
    /// The virtual memory address at which this import is found.
    pub address: u64,
    /// The addend of this import.
    pub addend: i64,
    /// Whether this import is weak.
    pub is_weak: bool,
    /// The offset in the stream of bind opcodes at which the sub-sequence
    /// that caused this import began.
    pub start_of_sequence_offset: u64,
}

impl<'a> View for Import<'a> {
    type V = ImportView;

    open spec fn view(&self) -> ImportView {
        ImportView {
            name: self.name@,
            dylib: self.dylib@,
            is_lazy: self.is_lazy,
            offset: self.offset,
            size: self.size,
            address: self.address,
            addend: self.addend,
            is_weak: self.is_weak,
            start_of_sequence_offset: self.start_of_sequence_offset,
        }
    }
}

/// The imports of a list as mathematical values.
pub open spec fn views(imports: Seq<Import<'_>>) -> Seq<ImportView> {
    imports.map_values(|import: Import<'_>| import@)
}

/// The names of a table of libraries as mathematical values.
pub open spec fn names(libs: Seq<&str>) -> Seq<Seq<char>> {
    libs.map_values(|lib: &str| lib@)
}

impl<'a> Import<'a> {
    /// The import that the binding record `bi` stands for.  Its offset and
    /// its address are those of the record's segment, moved on by the
    /// record's segment offset, wrapping.  Fails where the record names a
    /// segment that `segments` does not hold or a library that `libs` does not
    /// hold; the segment is looked up first.
    pub fn new(
        bi: &BindInformation<'a>,
        libs: &[&'a str],
        segments: &[Segment],
        start_of_sequence_offset: usize,
    ) -> (r: Result<Import<'a>, BindError>)
        ensures
            match r {
                Ok(import) => bind(
                    bi@,
                    names(libs@),
                    segments@,
                    start_of_sequence_offset as int,
                ) == Ok::<ImportView, BindError>(import@),
                Err(e) => bind(bi@, names(libs@), segments@, start_of_sequence_offset as int)
                    == Err::<ImportView, BindError>(e),
            },
    {
        let seg_index = bi.seg_index as usize;
        if seg_index >= segments.len() {
            return Err(BindError::SegmentOutOfRange { index: seg_index, len: segments.len() });
        }
        let ordinal = bi.symbol_library_ordinal as usize;
        if ordinal >= libs.len() {
            return Err(BindError::OrdinalOutOfRange { ordinal, len: libs.len() });
        }
        let (offset, address) = {
            let segment = &segments[seg_index];
            (segment.fileoff.wrapping_add(bi.seg_offset), segment.vmaddr.wrapping_add(bi.seg_offset))
        };
        let size: usize = if bi.is_lazy {
            8
        } else {
            0
        };
        proof {
            lemma_wrapping_add(segments@[seg_index as int].fileoff, bi.seg_offset);
            lemma_wrapping_add(segments@[seg_index as int].vmaddr, bi.seg_offset);
        }
        Ok(
            Import {
                name: bi.symbol_name,
                dylib: libs[ordinal],
                is_lazy: bi.is_lazy,
                offset,
                size,
                address,
                addend: bi.addend,
                is_weak: bi.is_weak(),
                start_of_sequence_offset: start_of_sequence_offset as u64,
            },
        )
    }
}

/// The segment offset of the bind that follows a bind at `seg_offset`: moved
/// on by `extra` and by the size of a pointer, wrapping.
pub fn next_offset(seg_offset: u64, extra: u64, ctx: PointerWidth) -> (next: u64)
    ensures
        next == wrap64(seg_offset + extra + ctx.size()),
{
    let size = ctx.size() as u64;
    proof {
        lemma_wrapping_add(seg_offset, extra);
        lemma_wrapping_add(seg_offset.wrapping_add(extra), size);
        lemma_wrap64_add(seg_offset + extra, size as int);
    }
    seg_offset.wrapping_add(extra).wrapping_add(size)
}

/// Adds the import that `bind_info` stands for to `imports`, or fails and
/// leaves `imports` alone.
fn emit<'a>(
    bind_info: &BindInformation<'a>,
    libs: &[&'a str],
    segments: &[Segment],
    start_of_sequence: usize,
    imports: &mut Vec<Import<'a>>,
) -> (r: Result<(), BindError>)
    ensures
        match bind(bind_info@, names(libs@), segments@, start_of_sequence as int) {
            Ok(import) => r is Ok && views(final(imports)@) == views(old(imports)@).push(import),
            Err(e) => r == Err::<(), BindError>(e) && final(imports)@ == old(imports)@,
        },
{
    let import = Import::new(bind_info, libs, segments, start_of_sequence)?;
    proof {
        assert(views(imports@.push(import)) =~= views(imports@).push(import@));
    }
    imports.push(import);
    Ok(())
}

/// Moving on `i` times by `stride` and once more is moving on `i + 1` times.
proof fn lemma_advanced_again(record: Record, i: int, stride: int)
    ensures
        advanced(advanced(record, i * stride), stride) == advanced(record, (i + 1) * stride),
{
    assert((i + 1) * stride == i * stride + stride) by (nonlinear_arith);
    lemma_wrap64_add(record.seg_offset + i * stride, stride);
}

/// Binds `bind_info` `count` times in a row: each bind adds an import to
/// `imports`, then moves the segment offset on by `skip` and the size of a
/// pointer, wrapping.  Fails, before anything is added or moved, where `count`
/// is not zero and the record cannot be bound.
pub fn bind_times<'a>(
    bind_info: &mut BindInformation<'a>,
    count: u64,
    skip: u64,
    ctx: PointerWidth,
    libs: &[&'a str],
    segments: &[Segment],
    start_of_sequence: usize,
    imports: &mut Vec<Import<'a>>,
) -> (r: Result<(), BindError>)
    ensures
        match repeated_bind(
            old(bind_info)@,
            names(libs@),
            segments@,
            start_of_sequence as int,
            count as nat,
            skip + ctx.size(),
        ) {
            Ok((bound, emitted)) => {
                &&& r is Ok
                &&& final(bind_info)@ == bound
                &&& views(final(imports)@) == views(old(imports)@) + emitted
            },
            Err(e) => {
                &&& r == Err::<(), BindError>(e)
                &&& final(bind_info)@ == old(bind_info)@
                &&& final(imports)@ == old(imports)@
            },
        },
{
    let ghost first = bind_info@;
    let ghost before = views(imports@);
    let ghost stride = skip + ctx.size();
    proof {
        lemma_wrap64_fits(first.seg_offset);
        assert(0 * stride == 0) by (nonlinear_arith);
    }
    let mut i: u64 = 0;
    while i < count
        invariant
            i <= count,
            first == old(bind_info)@,
            before == views(old(imports)@),
            stride == skip + ctx.size(),
            bind_info@ == advanced(first, i * stride),
            i == 0 ==> bind_info@ == first && imports@ == old(imports)@,
            i > 0 ==> bind(first, names(libs@), segments@, start_of_sequence as int) is Ok,
            views(imports@) =~= before + repeated_imports(
                first,
                names(libs@),
                segments@,
                start_of_sequence as int,
                i as nat,
                stride,
            ),
        decreases count - i,
    {
        emit(bind_info, libs, segments, start_of_sequence, imports)?;
        bind_info.seg_offset = next_offset(bind_info.seg_offset, skip, ctx);
        proof {
            lemma_advanced_again(first, i as int, stride);
        }
        i += 1;
    }
    Ok(())
}

/// The stream of `size` bytes that begins at `off`: where it starts and where
/// it ends.  An end that no offset can hold is the greatest offset.
pub open spec fn stream_range(off: u32, size: u32) -> (int, int) {
    (
        off as int,
        if off + size > usize::MAX {
            usize::MAX as int
        } else {
            off + size
        },
    )
}

/// The result of an extraction as a mathematical value.
pub open spec fn outcome(r: Result<Vec<Import<'_>>, BindError>) -> Result<
    Seq<ImportView>,
    BindError,
> {
    match r {
        Ok(imports) => Ok(views(imports@)),
        Err(e) => Err(e),
    }
}

/// An interpreter for bind opcodes.  It runs on the eager stream, which binds
/// at load time (mostly data that a library exports), and on the lazy stream,
/// which binds at first use (mostly functions).
pub struct BindInterpreter<'a> {
    data: &'a [u8],
    location: Range<usize>,
    lazy_location: Range<usize>,
}

impl<'a> Clone for BindInterpreter<'a> {
    /// An interpreter for the same binary and the same two streams.
    fn clone(&self) -> (interpreter: Self)
        ensures
            interpreter == *self,
    {
        BindInterpreter {
            data: self.data,
            location: self.location.start..self.location.end,
            lazy_location: self.lazy_location.start..self.lazy_location.end,
        }
    }
}

impl<'a> BindInterpreter<'a> {
    /// The bytes of the binary.
    pub closed spec fn data(&self) -> Seq<u8> {
        self.data@
    }

    /// Where the eager stream starts and ends in the binary.
    pub closed spec fn eager_range(&self) -> (int, int) {
        (self.location.start as int, self.location.end as int)
    }

    /// Where the lazy stream starts and ends in the binary.
    pub closed spec fn lazy_range(&self) -> (int, int) {
        (self.lazy_location.start as int, self.lazy_location.end as int)
    }

    /// The pass over the eager stream, or over the lazy one.  A stream ends
    /// where its range ends, or with the binary where the range runs past it,
    /// and nothing behind that end is ever read.
    pub open spec fn pass(
        &self,
        is_lazy: bool,
        libs: Seq<Seq<char>>,
        segments: Seq<Segment>,
        ctx: PointerWidth,
    ) -> Pass {
        let (start, end) = if is_lazy {
            self.lazy_range()
        } else {
            self.eager_range()
        };
        Pass {
            bytes: if 0 <= end < self.data().len() {
                self.data().take(end)
            } else {
                self.data()
            },
            start,
            end,
            is_lazy,
            libs,
            segments,
            pointer_size: ctx.size() as int,
        }
    }

    /// What [`BindInterpreter::imports`] returns: the imports of the eager
    /// stream, then those of the lazy stream, or the first error.
    pub open spec fn spec_imports(
        &self,
        libs: Seq<Seq<char>>,
        segments: Seq<Segment>,
        ctx: PointerWidth,
    ) -> Result<Seq<ImportView>, BindError> {
        match run_pass(self.pass(false, libs, segments, ctx)) {
            Ok(eager) => match run_pass(self.pass(true, libs, segments, ctx)) {
                Ok(lazy) => Ok(eager + lazy),
                Err(e) => Err(e),
            },
            Err(e) => Err(e),
        }
    }

    /// The range of a stream of `size` bytes that begins at `off`.
    fn get_pos(off: u32, size: u32) -> (r: Range<usize>)
        ensures
            (r.start as int, r.end as int) == stream_range(off, size),
    {
        let start = off as usize;
        start..start.saturating_add(size as usize)
    }

    /// An interpreter for the binary `bytes`, whose eager stream is the
    /// `bind_size` bytes from `bind_off` on and whose lazy stream is the
    /// `lazy_bind_size` bytes from `lazy_bind_off` on.  A range that does not
    /// lie within `bytes` is not refused here: the pass over it fails.
    pub fn new(
        bytes: &'a [u8],
        bind_off: u32,
        bind_size: u32,
        lazy_bind_off: u32,
        lazy_bind_size: u32,
    ) -> (interpreter: Self)
        ensures
            interpreter.data() == bytes@,
            interpreter.eager_range() == stream_range(bind_off, bind_size),
            interpreter.lazy_range() == stream_range(lazy_bind_off, lazy_bind_size),
    {
        let location = Self::get_pos(bind_off, bind_size);
        let lazy_location = Self::get_pos(lazy_bind_off, lazy_bind_size);
        BindInterpreter { data: bytes, location, lazy_location }
    }

    /// The range of the eager stream.
    pub fn location(&self) -> (r: Range<usize>)
        ensures
            (r.start as int, r.end as int) == self.eager_range(),
    {
        self.location.start..self.location.end
    }

    /// The range of the lazy stream.
    pub fn lazy_location(&self) -> (r: Range<usize>)
        ensures
            (r.start as int, r.end as int) == self.lazy_range(),
    {
        self.lazy_location.start..self.lazy_location.end
    }

    /// The imports in this binary: those of the eager stream in the order of
    /// the stream, then those of the lazy stream.  `libs` holds the library
    /// names by ordinal, `segments` the segments by index.
    pub fn imports(&self, libs: &[&'a str], segments: &[Segment], ctx: PointerWidth) -> (r:
        Result<Vec<Import<'a>>, BindError>)
        ensures
            outcome(r) == self.spec_imports(names(libs@), segments@, ctx),
    {
        let mut imports = Vec::new();
        proof {
            assert(views(imports@) =~= Seq::<ImportView>::empty());
        }
        self.run(false, libs, segments, ctx, &mut imports)?;
        let ghost eager = views(imports@);
        self.run(true, libs, segments, ctx, &mut imports)?;
        proof {
            assert(Seq::<ImportView>::empty() + eager =~= eager);
        }
        Ok(imports)
    }

    /// Runs the pass over the eager stream, or over the lazy one, and adds
    /// its imports to `imports`.
    fn run(
        &self,
        is_lazy: bool,
        libs: &[&'a str],
        segments: &[Segment],
        ctx: PointerWidth,
        imports: &mut Vec<Import<'a>>,
    ) -> (r: Result<(), BindError>)
        ensures
            match run_pass(self.pass(is_lazy, names(libs@), segments@, ctx)) {
                Ok(emitted) => r is Ok && views(final(imports)@) == views(old(imports)@)
                    + emitted,
                Err(e) => r == Err::<(), BindError>(e),
            },
    {
        let location = if is_lazy {
            &self.lazy_location
        } else {
            &self.location
        };
        let start = location.start;
        let end = location.end;
        let stream = if end < self.data.len() {
            slice_subrange(self.data, 0, end)
        } else {
            self.data
        };
        let size = ctx.size() as u64;
        let ghost pass = self.pass(is_lazy, names(libs@), segments@, ctx);
        let ghost before = views(imports@);
        let ghost mut emitted = Seq::<ImportView>::empty();
        let mut bind_info = BindInformation::new(is_lazy);
        let mut offset = start;
        let mut start_of_sequence: usize = 0;
        proof {
            assert(before + emitted =~= before);
        }
        while offset < end
            invariant
                pass == self.pass(is_lazy, names(libs@), segments@, ctx),
                pass.bytes == stream@,
                pass.start == start,
                pass.end == end,
                size == ctx.size(),
                start <= offset,
                stream@.len() <= end,
                before == views(old(imports)@),
                views(imports@) == before + emitted,
                run_from(
                    pass,
                    State {
                        record: bind_info@,
                        cursor: offset as int,
                        start_of_sequence: start_of_sequence as int,
                        imports: emitted,
                    },
                ) == run_pass(pass),
            decreases end - offset,
        {
            let ghost state = State {
                record: bind_info@,
                cursor: offset as int,
                start_of_sequence: start_of_sequence as int,
                imports: emitted,
            };
            let ghost at = State { cursor: offset + 1, ..state };
            let opcode = read_opcode(stream, &mut offset)?;
            assert(step(pass, state) == execute(pass, at, opcode));
            let imm = opcode & BIND_IMMEDIATE_MASK;
            proof {
                lemma_immediate_bound(opcode);
            }
            match opcode & BIND_OPCODE_MASK {
                // nothing is recorded: the next sub-sequence begins with a fresh record
                BIND_OPCODE_DONE => {
                    bind_info = BindInformation::new(is_lazy);
                    start_of_sequence = offset - start;
                },
                BIND_OPCODE_SET_DYLIB_ORDINAL_IMM => {
                    bind_info.symbol_library_ordinal = imm;
                },
                BIND_OPCODE_SET_DYLIB_ORDINAL_ULEB => {
                    let symbol_library_ordinal = read_uleb128(stream, &mut offset)?;
                    assert(symbol_library_ordinal as u8 == (symbol_library_ordinal % 256) as u8)
                        by (bit_vector);
                    bind_info.symbol_library_ordinal =
                    #[verifier::truncate]
                    (symbol_library_ordinal as u8);
                },
                BIND_OPCODE_SET_DYLIB_SPECIAL_IMM => {
                    bind_info.special_dylib = imm;
                },
                BIND_OPCODE_SET_SYMBOL_TRAILING_FLAGS_IMM => {
                    let symbol_name = read_name(stream, &mut offset)?;
                    bind_info.symbol_name = symbol_name;
                    bind_info.symbol_flags = imm;
                },
                BIND_OPCODE_SET_TYPE_IMM => {
                    bind_info.bind_type = imm;
                },
                BIND_OPCODE_SET_ADDEND_SLEB => {
                    let addend = read_sleb128(stream, &mut offset)?;
                    bind_info.addend = addend;
                },
                BIND_OPCODE_SET_SEGMENT_AND_OFFSET_ULEB => {
                    let seg_offset = read_uleb128(stream, &mut offset)?;
                    bind_info.seg_index = imm;
                    bind_info.seg_offset = seg_offset;
                },
                BIND_OPCODE_ADD_ADDR_ULEB => {
                    let addr = read_uleb128(stream, &mut offset)?;
                    proof {
                        lemma_wrapping_add(bind_info.seg_offset, addr);
                    }
                    let seg_offset = bind_info.seg_offset.wrapping_add(addr);
                    bind_info.seg_offset = seg_offset;
                },
                // the record is bound as it stands, then made ready for the next bind
                BIND_OPCODE_DO_BIND => {
                    emit(&bind_info, libs, segments, start_of_sequence, imports)?;
                    proof {
                        emitted = emitted.push(bind(
                            state.record,
                            pass.libs,
                            pass.segments,
                            state.start_of_sequence,
                        )->Ok_0);
                        assert(views(imports@) =~= before + emitted);
                    }
                    bind_info.seg_offset = next_offset(bind_info.seg_offset, 0, ctx);
                },
                BIND_OPCODE_DO_BIND_ADD_ADDR_ULEB => {
                    emit(&bind_info, libs, segments, start_of_sequence, imports)?;
                    proof {
                        emitted = emitted.push(bind(
                            state.record,
                            pass.libs,
                            pass.segments,
                            state.start_of_sequence,
                        )->Ok_0);
                        assert(views(imports@) =~= before + emitted);
                    }
                    let addr = read_uleb128(stream, &mut offset)?;
                    bind_info.seg_offset = next_offset(bind_info.seg_offset, addr, ctx);
                },
                BIND_OPCODE_DO_BIND_ADD_ADDR_IMM_SCALED => {
                    emit(&bind_info, libs, segments, start_of_sequence, imports)?;
                    proof {
                        emitted = emitted.push(bind(
                            state.record,
                            pass.libs,
                            pass.segments,
                            state.start_of_sequence,
                        )->Ok_0);
                        assert(views(imports@) =~= before + emitted);
                    }
                    let scale = imm;
                    assert(scale * size <= 120) by (nonlinear_arith)
                        requires
                            scale <= 15,
                            size <= 8,
                    ;
                    let scaled = (scale as u64) * size;
                    bind_info.seg_offset = next_offset(bind_info.seg_offset, scaled, ctx);
                },
                BIND_OPCODE_DO_BIND_ULEB_TIMES_SKIPPING_ULEB => {
                    let count = read_uleb128(stream, &mut offset)?;
                    let skip = read_uleb128(stream, &mut offset)?;
                    bind_times(
                        &mut bind_info,
                        count,
                        skip,
                        ctx,
                        libs,
                        segments,
                        start_of_sequence,
                        imports,
                    )?;
                    proof {
                        emitted = emitted + repeated_bind(
                            state.record,
                            pass.libs,
                            pass.segments,
                            state.start_of_sequence,
                            count as nat,
                            skip + size,
                        )->Ok_0.1;
                        assert(views(imports@) =~= before + emitted);
                    }
                },
                _ => {},
            }
        }
        Ok(())
    }
}

} // verus!
