//! The binding record: what the opcodes of one sub-sequence have set so far.

use crate::opcodes::{BIND_SYMBOL_FLAGS_WEAK_IMPORT, BIND_TYPE_POINTER};
use vstd::prelude::*;

verus! {

/// The state that the opcodes accumulate and that every bind is made from.
#[derive(Debug)]
pub struct BindInformation<'a> {
    /// The index of the segment to bind in.
    pub seg_index: u8,
    /// The offset within that segment.
    pub seg_offset: u64,
    /// The kind of pointer to bind.
    pub bind_type: u8,
    /// The index of the library that the symbol comes from.
    pub symbol_library_ordinal: u8,
    /// The name of the symbol.
    pub symbol_name: &'a str,
    /// The flags of the symbol.
    pub symbol_flags: u8,
    /// What is added to the symbol's address.
    pub addend: i64,
    /// The marker of a special library, kept as the stream gives it.
    pub special_dylib: u8,
    /// Whether the record belongs to the lazy stream.
    pub is_lazy: bool,
}

/// A binding record as a mathematical value.
pub struct Record {
    pub seg_index: u8,
    pub seg_offset: u64,
    pub bind_type: u8,
    pub symbol_library_ordinal: u8,
    pub symbol_name: Seq<char>,
    pub symbol_flags: u8,
    pub addend: i64,
    pub special_dylib: u8,
    pub is_lazy: bool,
}

impl Record {
    /// The record that every pass and every sub-sequence starts from.
    pub open spec fn fresh(is_lazy: bool) -> Record {
        Record {
            seg_index: 0,
            seg_offset: 0,
            bind_type: if is_lazy {
                BIND_TYPE_POINTER
            } else {
                0
            },
            symbol_library_ordinal: 0,
            symbol_name: Seq::empty(),
            symbol_flags: 0,
            addend: 0,
            special_dylib: 1,
            is_lazy,
        }
    }

    /// Whether the flags mark the symbol as a weak import.
    pub open spec fn is_weak(self) -> bool {
        self.symbol_flags & BIND_SYMBOL_FLAGS_WEAK_IMPORT != 0
    }
}

impl<'a> View for BindInformation<'a> {
    type V = Record;

    open spec fn view(&self) -> Record {
        Record {
            seg_index: self.seg_index,
            seg_offset: self.seg_offset,
            bind_type: self.bind_type,
            symbol_library_ordinal: self.symbol_library_ordinal,
            symbol_name: self.symbol_name@,
            symbol_flags: self.symbol_flags,
            addend: self.addend,
            special_dylib: self.special_dylib,
            is_lazy: self.is_lazy,
        }
    }
}

impl<'a> BindInformation<'a> {
    /// A fresh record for the eager stream, or for the lazy stream, whose binds
    /// are of pointers unless an opcode says otherwise.
    pub fn new(is_lazy: bool) -> (bind_info: Self)
        ensures
            bind_info@ == Record::fresh(is_lazy),
    {
        let mut bind_info = BindInformation::default();
        if is_lazy {
            bind_info.is_lazy = true;
            bind_info.bind_type = BIND_TYPE_POINTER;
        }
        bind_info
    }

    /// Whether the flags mark the symbol as a weak import.
    pub fn is_weak(&self) -> (weak: bool)
        ensures
            weak == self@.is_weak(),
    {
        self.symbol_flags & BIND_SYMBOL_FLAGS_WEAK_IMPORT != 0
    }
}

impl<'a> Default for BindInformation<'a> {
    /// The fresh record of the eager stream.
    fn default() -> (bind_info: Self)
        ensures
            bind_info@ == Record::fresh(false),
    {
        proof {
            reveal_strlit("");
        }
        let bind_info = BindInformation {
            seg_index: 0,
            seg_offset: 0x0,
            bind_type: 0x0,
            special_dylib: 1,
            symbol_library_ordinal: 0,
            symbol_name: "",
            symbol_flags: 0,
            addend: 0,
            is_lazy: false,
        };
        assert(bind_info.symbol_name@ =~= Seq::<char>::empty());
        bind_info
    }
}

} // verus!
