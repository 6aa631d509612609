use vstd::prelude::*;

use crate::descriptor::{table_limit, SystemDescriptorType};

verus! {

/// The interrupt vectors that the kernel installs handlers for.
#[derive(Clone, Copy, Debug, PartialEq, Eq, Structural)]
pub enum InterruptVector {
    DivisionError,
    DoubleFault,
    XHCI,
    Timer,
}

impl InterruptVector {
    pub open spec fn spec_number(self) -> u8 {
        match self {
            InterruptVector::DivisionError => 0x00,
            InterruptVector::DoubleFault => 0x08,
            InterruptVector::XHCI => 0x40,
            InterruptVector::Timer => 0x41,
        }
    }

    /// The vector number, that is the index in the descriptor table.
    pub fn number(&self) -> (r: u8)
        ensures
            r == self.spec_number(),
    {
        match self {
            InterruptVector::DivisionError => 0x00,
            InterruptVector::DoubleFault => 0x08,
            InterruptVector::XHCI => 0x40,
            InterruptVector::Timer => 0x41,
        }
    }
}

/// Bookkeeping for nested critical sections on one core. Entering the
/// outermost section remembers whether interrupts were enabled; inner
/// sections change nothing; only leaving the outermost section enables
/// interrupts again, and only if they were enabled before it.
#[derive(Clone, Copy, Debug)]
pub struct CriticalSection {
    depth: u64,
    enabled_outside: bool,
}

impl CriticalSection {
    /// How many sections are open.
    pub closed spec fn depth(&self) -> nat {
        self.depth as nat
    }

    /// Whether interrupts were enabled when the outermost open section was
    /// entered.
    pub closed spec fn enabled_outside(&self) -> bool {
        self.enabled_outside
    }

    pub fn new() -> (r: Self)
        ensures
            r.depth() == 0,
            !r.enabled_outside(),
    {
        CriticalSection { depth: 0, enabled_outside: false }
    }

    pub fn depth_now(&self) -> (r: u64)
        ensures
            r == self.depth(),
    {
        self.depth
    }

    /// Opens a section, `interrupts_enabled` being the current state of the
    /// interrupt flag. Returns whether interrupts must now be disabled.
    pub fn enter(&mut self, interrupts_enabled: bool) -> (disable: bool)
        requires
            old(self).depth() < u64::MAX,
        ensures
            final(self).depth() == old(self).depth() + 1,
            final(self).enabled_outside() == if old(self).depth() == 0 {
                interrupts_enabled
            } else {
                old(self).enabled_outside()
            },
            disable == interrupts_enabled,
    {
        if self.depth == 0 {
            self.enabled_outside = interrupts_enabled;
        }
        self.depth = self.depth + 1;
        interrupts_enabled
    }

    /// Closes the innermost open section. Returns whether interrupts must now
    /// be enabled again: only when the outermost section closes and they were
    /// enabled before it.
    pub fn leave(&mut self) -> (enable: bool)
        requires
            old(self).depth() > 0,
        ensures
            final(self).depth() == old(self).depth() - 1,
            final(self).enabled_outside() == (final(self).depth() > 0 && old(self).enabled_outside()),
            enable == (final(self).depth() == 0 && old(self).enabled_outside()),
    {
        self.depth = self.depth - 1;
        let enable = self.depth == 0 && self.enabled_outside;
        if self.depth == 0 {
            self.enabled_outside = false;
        }
        enable
    }
}

/// Attribute word of an interrupt gate: interrupt stack table index in bits
/// 0-2, gate type in bits 8-11, privilege level in bits 13-14, present in
/// bit 15.
#[derive(Clone, Copy, Debug, PartialEq, Eq, Structural)]
pub struct IDTAttribute(pub u16);

impl View for IDTAttribute {
    type V = u16;

    open spec fn view(&self) -> u16 {
        self.0
    }
}

impl IDTAttribute {
    pub open spec fn spec_type(self) -> u16 {
        (self@ >> 8u16) & 0xf
    }

    pub open spec fn spec_descriptor_privilege_level(self) -> u16 {
        (self@ >> 13u16) & 0x3
    }

    pub open spec fn spec_present(self) -> bool {
        (self@ >> 15u16) & 1 == 1
    }

    pub open spec fn spec_interrupt_stack_table(self) -> u16 {
        self@ & 0x7
    }

    pub fn empty() -> (r: Self)
        ensures
            r@ == 0,
    {
        IDTAttribute(0)
    }

    /// A present gate of `descriptor_type` for privilege level
    /// `descriptor_privilege_level` (its low two bits), with no interrupt
    /// stack table.
    pub fn new(descriptor_type: SystemDescriptorType, descriptor_privilege_level: u16) -> (r: Self)
        ensures
            r@ == ((descriptor_type.spec_code() & 0xf) << 8u16) | ((descriptor_privilege_level
                & 0x3) << 13u16) | 0x8000u16,
            r.spec_type() == descriptor_type.spec_code() & 0xf,
            r.spec_descriptor_privilege_level() == descriptor_privilege_level & 0x3,
            r.spec_present(),
            r.spec_interrupt_stack_table() == 0,
    {
        let t = descriptor_type.code();
        let bits: u16 = ((t & 0xf) << 8u16) | ((descriptor_privilege_level & 0x3) << 13u16) | 0x8000u16;
        let d = descriptor_privilege_level;
        assert((((((t & 0xf) << 8u16) | ((d & 0x3) << 13u16) | 0x8000u16) >> 8u16) & 0xf) == t & 0xf)
            by (bit_vector);
        assert((((((t & 0xf) << 8u16) | ((d & 0x3) << 13u16) | 0x8000u16) >> 13u16) & 0x3) == d & 0x3)
            by (bit_vector);
        assert((((((t & 0xf) << 8u16) | ((d & 0x3) << 13u16) | 0x8000u16) >> 15u16) & 1) == 1)
            by (bit_vector);
        assert(((((t & 0xf) << 8u16) | ((d & 0x3) << 13u16) | 0x8000u16) & 0x7) == 0) by (bit_vector);
        IDTAttribute(bits)
    }
}

/// One entry of the interrupt descriptor table: a handler's address split
/// in three parts, the code segment it runs in, and its attributes.
#[derive(Clone, Copy, Debug, PartialEq, Eq, Structural)]
pub struct InterruptDescriptor {
    pub offset_low: u16,
    pub segment_selector: u16,
    pub attr: IDTAttribute,
    pub offset_middle: u16,
    pub offset_high: u32,
    pub reserved: u32,
}

/// Size in bytes of one interrupt descriptor.
pub const INTERRUPT_DESCRIPTOR_BYTES: usize = 16;

/// Number of entries in the interrupt descriptor table.
pub const IDT_SIZE: usize = 256;

impl InterruptDescriptor {
    /// The handler address that the three offset parts make up.
    pub open spec fn handler(self) -> int {
        self.offset_low + self.offset_middle * 0x1_0000 + self.offset_high * 0x1_0000_0000
    }

    /// The entry of a vector with no handler: all zero.
    pub open spec fn spec_empty() -> InterruptDescriptor {
        InterruptDescriptor {
            offset_low: 0,
            segment_selector: 0,
            attr: IDTAttribute(0),
            offset_middle: 0,
            offset_high: 0,
            reserved: 0,
        }
    }

    pub fn empty() -> (r: Self)
        ensures
            r == InterruptDescriptor::spec_empty(),
    {
        InterruptDescriptor {
            offset_low: 0,
            segment_selector: 0,
            attr: IDTAttribute::empty(),
            offset_middle: 0,
            offset_high: 0,
            reserved: 0,
        }
    }

    /// The entry for the handler at address `handler`, run in the code
    /// segment `segment_selector`.
    pub fn new(attr: IDTAttribute, handler: u64, segment_selector: u16) -> (r: Self)
        ensures
            r.handler() == handler,
            r.attr == attr,
            r.segment_selector == segment_selector,
            r.reserved == 0,
    {
        let lo = handler & 0xffff;
        let mid = (handler & 0xffff_0000) >> 16u64;
        let hi = handler >> 32u64;
        assert(lo <= 0xffff && mid <= 0xffff && hi <= 0xffff_ffff) by (bit_vector)
            requires
                lo == handler & 0xffff,
                mid == (handler & 0xffff_0000) >> 16u64,
                hi == handler >> 32u64,
        ;
        assert(handler == lo + mid * 0x1_0000 + hi * 0x1_0000_0000) by (bit_vector)
            requires
                lo == handler & 0xffff,
                mid == (handler & 0xffff_0000) >> 16u64,
                hi == handler >> 32u64,
        ;
        let offset_low = lo as u16;
        let offset_middle = mid as u16;
        let offset_high = hi as u32;
        InterruptDescriptor { offset_low, segment_selector, attr, offset_middle, offset_high, reserved: 0 }
    }

    /// Low word of the hardware format: offset bits 0-15, selector,
    /// attributes, offset bits 16-31.
    pub open spec fn raw_low(self) -> u64 {
        self.offset_low as u64 | (self.segment_selector as u64) << 16u64 | (self.attr@ as u64) << 32u64
            | (self.offset_middle as u64) << 48u64
    }

    /// High word of the hardware format: offset bits 32-63, then zero.
    pub open spec fn raw_high(self) -> u64 {
        self.offset_high as u64 | (self.reserved as u64) << 32u64
    }

    /// The two 64-bit words in which the processor reads this entry.
    pub fn to_raw(&self) -> (r: (u64, u64))
        ensures
            r == (self.raw_low(), self.raw_high()),
    {
        let low = self.offset_low as u64 | (self.segment_selector as u64) << 16u64
            | (self.attr.0 as u64) << 32u64 | (self.offset_middle as u64) << 48u64;
        let high = self.offset_high as u64 | (self.reserved as u64) << 32u64;
        (low, high)
    }
}

/// The interrupt descriptor table.
pub struct InterruptDescriptorTable {
    data: [InterruptDescriptor; 256],
}

impl InterruptDescriptorTable {
    pub closed spec fn entries(&self) -> Seq<InterruptDescriptor> {
        self.data@
    }

    /// A table of empty entries.
    pub fn new() -> (r: Self)
        ensures
            r.entries().len() == IDT_SIZE,
            forall|i: int| 0 <= i < IDT_SIZE ==> r.entries()[i] == InterruptDescriptor::spec_empty(),
    {
        InterruptDescriptorTable { data: [InterruptDescriptor::empty(); 256] }
    }

    pub fn set_entry(&mut self, idx: usize, entry: InterruptDescriptor)
        requires
            idx < IDT_SIZE,
        ensures
            final(self).entries() == old(self).entries().update(idx as int, entry),
    {
        self.data[idx] = entry;
    }

    pub fn entry(&self, idx: usize) -> (r: InterruptDescriptor)
        requires
            idx < IDT_SIZE,
        ensures
            r == self.entries()[idx as int],
    {
        self.data[idx]
    }

    /// Offset of the table's last byte, for the descriptor table register.
    pub fn get_limit(&self) -> (r: u16)
        ensures
            r == table_limit(IDT_SIZE as nat, INTERRUPT_DESCRIPTOR_BYTES as nat),
    {
        (IDT_SIZE * INTERRUPT_DESCRIPTOR_BYTES - 1) as u16
    }
}

/// Interrupt gate of the kernel for the handler at address `handler`: present,
/// privilege level 0, running in code segment `code_selector`.
pub open spec fn kernel_gate(handler: u64, code_selector: u16) -> InterruptDescriptor {
    InterruptDescriptor {
        offset_low: (handler & 0xffff) as u16,
        segment_selector: code_selector,
        attr: IDTAttribute((14u16 << 8u16) | 0x8000u16),
        offset_middle: ((handler & 0xffff_0000) >> 16u64) as u16,
        offset_high: (handler >> 32u64) as u32,
        reserved: 0,
    }
}

/// The table the kernel runs with: interrupt gates for the division error,
/// double fault, xHCI and timer vectors, at the given handler addresses,
/// and empty entries for every other vector.
pub fn kernel_idt(
    division_error: u64,
    double_fault: u64,
    xhci: u64,
    timer: u64,
    code_selector: u16,
) -> (r: InterruptDescriptorTable)
    ensures
        r.entries().len() == IDT_SIZE,
        r.entries()[0x00] == kernel_gate(division_error, code_selector),
        r.entries()[0x08] == kernel_gate(double_fault, code_selector),
        r.entries()[0x40] == kernel_gate(xhci, code_selector),
        r.entries()[0x41] == kernel_gate(timer, code_selector),
        forall|i: int|
            0 <= i < IDT_SIZE && i != 0x00 && i != 0x08 && i != 0x40 && i != 0x41
                ==> r.entries()[i] == InterruptDescriptor::spec_empty(),
{
    let mut idt = InterruptDescriptorTable::new();
    let vectors = [
        (InterruptVector::DivisionError, division_error),
        (InterruptVector::DoubleFault, double_fault),
        (InterruptVector::XHCI, xhci),
        (InterruptVector::Timer, timer),
    ];
    let ghost start = idt.entries();
    let mut i: usize = 0;
    while i < 4
        invariant
            0 <= i <= 4,
            vectors@ == seq![
                (InterruptVector::DivisionError, division_error),
                (InterruptVector::DoubleFault, double_fault),
                (InterruptVector::XHCI, xhci),
                (InterruptVector::Timer, timer),
            ],
            idt.entries().len() == IDT_SIZE,
            forall|j: int|
                0 <= j < i ==> idt.entries()[vectors@[j].0.spec_number() as int] == kernel_gate(
                    vectors@[j].1,
                    code_selector,
                ),
            forall|v: int|
                0 <= v < IDT_SIZE && (forall|j: int| 0 <= j < i ==> vectors@[j].0.spec_number() != v)
                    ==> idt.entries()[v] == start[v],
            start.len() == IDT_SIZE,
            forall|v: int| 0 <= v < IDT_SIZE ==> start[v] == InterruptDescriptor::spec_empty(),
        decreases 4 - i,
    {
        let (vector, handler) = vectors[i];
        let attr = IDTAttribute::new(SystemDescriptorType::InterruptGate, 0);
        let entry = InterruptDescriptor::new(attr, handler, code_selector);
        proof {
            let b = handler;
            assert(((b & 0xffff) as u16) as int + (((b & 0xffff_0000) >> 16u64) as u16) as int
                * 0x1_0000 + ((b >> 32u64) as u32) as int * 0x1_0000_0000 == b as int) by {
                assert((b & 0xffff) <= 0xffff && ((b & 0xffff_0000) >> 16u64) <= 0xffff && (b
                    >> 32u64) <= 0xffff_ffff) by (bit_vector);
                assert(b == (b & 0xffff) + ((b & 0xffff_0000) >> 16u64) * 0x1_0000 + (b >> 32u64)
                    * 0x1_0000_0000) by (bit_vector);
            }
            assert(attr@ == (14u16 << 8u16) | 0x8000u16) by {
                assert(((((14u16 & 0xf) << 8u16) | ((0u16 & 0x3) << 13u16) | 0x8000u16))
                    == (14u16 << 8u16) | 0x8000u16) by (bit_vector);
            }
            lemma_gate_parts_determine(entry, kernel_gate(handler, code_selector));
        }
        idt.set_entry(vector.number() as usize, entry);
        i = i + 1;
    }
    proof {
        assert forall|v: int|
            0 <= v < IDT_SIZE && v != 0x00 && v != 0x08 && v != 0x40 && v != 0x41 implies idt.entries()[v]
                == InterruptDescriptor::spec_empty() by {
            assert(i == 4);
            assert(vectors@[0].0.spec_number() == 0x00);
            assert(vectors@[1].0.spec_number() == 0x08);
            assert(vectors@[2].0.spec_number() == 0x40);
            assert(vectors@[3].0.spec_number() == 0x41);
            assert(forall|j: int| 0 <= j < i ==> vectors@[j].0.spec_number() != v);
            assert(idt.entries()[v] == start[v]);
        }
    }
    idt
}

/// Two entries with the same fields and the same handler address are equal.
proof fn lemma_gate_parts_determine(a: InterruptDescriptor, b: InterruptDescriptor)
    requires
        a.handler() == b.handler(),
        a.segment_selector == b.segment_selector,
        a.attr == b.attr,
        a.reserved == b.reserved,
    ensures
        a == b,
{
    assert(a.offset_low == b.offset_low && a.offset_middle == b.offset_middle && a.offset_high
        == b.offset_high) by (nonlinear_arith)
        requires
            a.offset_low + a.offset_middle * 0x1_0000 + a.offset_high * 0x1_0000_0000 == b.offset_low
                + b.offset_middle * 0x1_0000 + b.offset_high * 0x1_0000_0000,
            0 <= a.offset_low < 0x1_0000,
            0 <= b.offset_low < 0x1_0000,
            0 <= a.offset_middle < 0x1_0000,
            0 <= b.offset_middle < 0x1_0000,
    ;
}

} // verus!
