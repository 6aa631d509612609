use vstd::prelude::*;

use crate::descriptor::{table_limit, SegmentDescriptorType};

verus! {

/// A code or data segment descriptor in its 64-bit hardware format: type in
/// bits 40-43, descriptor kind (`S`, set for code and data) in bit 44,
/// privilege level in bits 45-46, present in bit 47, available in bit 52,
/// 64-bit code in bit 53, default operation size in bit 54. Base and limit
/// stay zero: they are ignored in 64-bit mode.
#[derive(Clone, Copy, Debug, PartialEq, Eq, Structural)]
pub struct SegmentDescriptor(pub u64);

/// Size in bytes of one segment descriptor.
pub const SEGMENT_DESCRIPTOR_BYTES: usize = 8;

/// Number of entries in the global descriptor table: null, code, data.
pub const GDT_SIZE: usize = 3;

impl SegmentDescriptor {
    pub open spec fn spec_type(self) -> u64 {
        (self.0 >> 40u64) & 0xf
    }

    pub open spec fn spec_system_segment(self) -> bool {
        (self.0 >> 44u64) & 1 == 1
    }

    pub open spec fn spec_descriptor_privilege_level(self) -> u64 {
        (self.0 >> 45u64) & 0x3
    }

    pub open spec fn spec_present(self) -> bool {
        (self.0 >> 47u64) & 1 == 1
    }

    pub open spec fn spec_available(self) -> bool {
        (self.0 >> 52u64) & 1 == 1
    }

    pub open spec fn spec_long_mode(self) -> bool {
        (self.0 >> 53u64) & 1 == 1
    }

    pub open spec fn spec_default_operation_size(self) -> u64 {
        (self.0 >> 54u64) & 1
    }

    pub open spec fn spec_code_segment() -> SegmentDescriptor {
        SegmentDescriptor((10u64 << 40u64) | (1u64 << 44u64) | (1u64 << 47u64) | (1u64 << 53u64))
    }

    pub open spec fn spec_data_segment() -> SegmentDescriptor {
        SegmentDescriptor((2u64 << 40u64) | (1u64 << 44u64) | (1u64 << 47u64))
    }

    /// The null descriptor.
    pub fn empty() -> (r: Self)
        ensures
            r.0 == 0,
    {
        SegmentDescriptor(0)
    }

    /// The kernel's 64-bit code segment: execute/read, present, privilege
    /// level 0.
    pub fn make_code_segment() -> (r: Self)
        ensures
            r.0 == (10u64 << 40u64) | (1u64 << 44u64) | (1u64 << 47u64) | (1u64 << 53u64),
            r.spec_type() == SegmentDescriptorType::CodeExecuteRead.spec_code(),
            r.spec_system_segment(),
            r.spec_descriptor_privilege_level() == 0,
            r.spec_present(),
            !r.spec_available(),
            r.spec_long_mode(),
            r.spec_default_operation_size() == 0,
    {
        let t = SegmentDescriptorType::CodeExecuteRead.code() as u64;
        let bits: u64 = (t << 40u64) | (1u64 << 44u64) | (1u64 << 47u64) | (1u64 << 53u64);
        assert(t == 10);
        let b = (10u64 << 40u64) | (1u64 << 44u64) | (1u64 << 47u64) | (1u64 << 53u64);
        assert(((b >> 40u64) & 0xf) == 10 && (b >> 44u64) & 1 == 1 && (b >> 45u64) & 0x3 == 0
            && (b >> 47u64) & 1 == 1 && (b >> 52u64) & 1 == 0 && (b >> 53u64) & 1 == 1
            && (b >> 54u64) & 1 == 0) by (bit_vector)
            requires
                b == (10u64 << 40u64) | (1u64 << 44u64) | (1u64 << 47u64) | (1u64 << 53u64),
        ;
        SegmentDescriptor(bits)
    }

    /// The kernel's data segment: read/write, present, privilege level 0.
    pub fn make_data_segment() -> (r: Self)
        ensures
            r.0 == (2u64 << 40u64) | (1u64 << 44u64) | (1u64 << 47u64),
            r.spec_type() == SegmentDescriptorType::DataReadWrite.spec_code(),
            r.spec_system_segment(),
            r.spec_descriptor_privilege_level() == 0,
            r.spec_present(),
            !r.spec_available(),
    {
        let t = SegmentDescriptorType::DataReadWrite.code() as u64;
        let bits: u64 = (t << 40u64) | (1u64 << 44u64) | (1u64 << 47u64);
        assert(t == 2);
        let b = (2u64 << 40u64) | (1u64 << 44u64) | (1u64 << 47u64);
        assert(((b >> 40u64) & 0xf) == 2 && (b >> 44u64) & 1 == 1 && (b >> 45u64) & 0x3 == 0
            && (b >> 47u64) & 1 == 1 && (b >> 52u64) & 1 == 0) by (bit_vector)
            requires
                b == (2u64 << 40u64) | (1u64 << 44u64) | (1u64 << 47u64),
        ;
        SegmentDescriptor(bits)
    }
}

/// The global descriptor table.
pub struct GlobalDescriptorTable {
    data: [SegmentDescriptor; 3],
}

impl GlobalDescriptorTable {
    pub closed spec fn entries(&self) -> Seq<SegmentDescriptor> {
        self.data@
    }

    /// A table of null descriptors.
    pub fn new() -> (r: Self)
        ensures
            r.entries().len() == GDT_SIZE,
            forall|i: int| 0 <= i < GDT_SIZE ==> r.entries()[i].0 == 0,
    {
        GlobalDescriptorTable { data: [SegmentDescriptor::empty(); 3] }
    }

    pub fn set_entry(&mut self, idx: usize, entry: SegmentDescriptor)
        requires
            idx < GDT_SIZE,
        ensures
            final(self).entries() == old(self).entries().update(idx as int, entry),
    {
        self.data[idx] = entry;
    }

    pub fn entry(&self, idx: usize) -> (r: SegmentDescriptor)
        requires
            idx < GDT_SIZE,
        ensures
            r == self.entries()[idx as int],
    {
        self.data[idx]
    }

    /// Offset of the table's last byte, for the descriptor table register.
    pub fn get_limit(&self) -> (r: u16)
        ensures
            r == table_limit(GDT_SIZE as nat, SEGMENT_DESCRIPTOR_BYTES as nat),
    {
        (GDT_SIZE * SEGMENT_DESCRIPTOR_BYTES - 1) as u16
    }
}

/// The table the kernel runs with: null descriptor, code segment at
/// selector 0x08, data segment at selector 0x10.
pub fn kernel_gdt() -> (r: GlobalDescriptorTable)
    ensures
        r.entries() == seq![
            SegmentDescriptor(0),
            SegmentDescriptor::spec_code_segment(),
            SegmentDescriptor::spec_data_segment(),
        ],
{
    let mut gdt = GlobalDescriptorTable::new();
    gdt.set_entry(1, SegmentDescriptor::make_code_segment());
    gdt.set_entry(2, SegmentDescriptor::make_data_segment());
    proof {
        assert(gdt.entries() =~= seq![
            SegmentDescriptor(0),
            SegmentDescriptor::spec_code_segment(),
            SegmentDescriptor::spec_data_segment(),
        ]);
    }
    gdt
}

} // verus!
