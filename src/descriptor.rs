use vstd::prelude::*;

verus! {

/// Type field of a code or data segment descriptor.
#[derive(Clone, Copy, Debug, PartialEq, Eq, Structural)]
pub enum SegmentDescriptorType {
    DataReadWrite,
    CodeExecuteRead,
}

impl SegmentDescriptorType {
    pub open spec fn spec_code(self) -> u16 {
        match self {
            SegmentDescriptorType::DataReadWrite => 2,
            SegmentDescriptorType::CodeExecuteRead => 10,
        }
    }

    /// The value of the descriptor's four-bit type field.
    pub fn code(&self) -> (r: u16)
        ensures
            r == self.spec_code(),
    {
        match self {
            SegmentDescriptorType::DataReadWrite => 2,
            SegmentDescriptorType::CodeExecuteRead => 10,
        }
    }
}

/// Type field of a system descriptor.
#[derive(Clone, Copy, Debug, PartialEq, Eq, Structural)]
pub enum SystemDescriptorType {
    InterruptGate,
}

impl SystemDescriptorType {
    pub open spec fn spec_code(self) -> u16 {
        match self {
            SystemDescriptorType::InterruptGate => 14,
        }
    }

    /// The value of the descriptor's four-bit type field.
    pub fn code(&self) -> (r: u16)
        ensures
            r == self.spec_code(),
    {
        match self {
            SystemDescriptorType::InterruptGate => 14,
        }
    }
}

/// Operand of `lgdt`, `lidt` and `sidt`: the last valid byte offset of a
/// descriptor table and the table's linear address.
#[derive(Clone, Copy, Debug, PartialEq, Eq, Structural)]
pub struct DescriptorTablePointer {
    limit: u16,
    base: u64,
}

impl DescriptorTablePointer {
    pub closed spec fn spec_limit(&self) -> u16 {
        self.limit
    }

    pub closed spec fn spec_base(&self) -> u64 {
        self.base
    }

    pub fn new(limit: u16, base: u64) -> (r: Self)
        ensures
            r.spec_limit() == limit,
            r.spec_base() == base,
    {
        DescriptorTablePointer { limit, base }
    }

    pub fn get_base(&self) -> (r: u64)
        ensures
            r == self.spec_base(),
    {
        self.base
    }

    pub fn get_limit(&self) -> (r: u16)
        ensures
            r == self.spec_limit(),
    {
        self.limit
    }
}

/// The `limit` of a table of `entries` descriptors of `entry_bytes` bytes
/// each: the offset of its last byte.
pub open spec fn table_limit(entries: nat, entry_bytes: nat) -> int {
    entries * entry_bytes - 1
}

} // verus!
