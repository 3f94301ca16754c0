//! The one-byte tags that select top-level record kinds.

use vstd::prelude::*;

verus! {

pub const TAG_STRING: u8 = 0x01;

pub const TAG_LOAD_CLASS: u8 = 0x02;

pub const TAG_UNLOAD_CLASS: u8 = 0x03;

pub const TAG_STACK_FRAME: u8 = 0x04;

pub const TAG_STACK_TRACE: u8 = 0x05;

pub const TAG_HEAP_DUMP: u8 = 0x0C;

pub const TAG_HEAP_DUMP_SEGMENT: u8 = 0x1C;

} // verus!
