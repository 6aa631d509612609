use mikanos_kernel::descriptor::{DescriptorTablePointer, SegmentDescriptorType, SystemDescriptorType};
use mikanos_kernel::interrupt::{
    kernel_idt, CriticalSection, IDTAttribute, InterruptDescriptor, InterruptDescriptorTable,
    InterruptVector,
};
use mikanos_kernel::segment::{kernel_gdt, GlobalDescriptorTable, SegmentDescriptor};

#[test]
fn descriptor_table_pointer_keeps_limit_and_base() {
    let p = DescriptorTablePointer::new(0x0fff, 0xffff_8000_0000_1000);
    assert_eq!(p.get_limit(), 0x0fff);
    assert_eq!(p.get_base(), 0xffff_8000_0000_1000);
}

#[test]
fn descriptor_type_codes() {
    assert_eq!(SegmentDescriptorType::DataReadWrite.code(), 2);
    assert_eq!(SegmentDescriptorType::CodeExecuteRead.code(), 10);
    assert_eq!(SystemDescriptorType::InterruptGate.code(), 14);
}

#[test]
fn interrupt_vector_numbers() {
    assert_eq!(InterruptVector::DivisionError.number(), 0x00);
    assert_eq!(InterruptVector::DoubleFault.number(), 0x08);
    assert_eq!(InterruptVector::XHCI.number(), 0x40);
    assert_eq!(InterruptVector::Timer.number(), 0x41);
}

#[test]
fn interrupt_gate_attribute_bits() {
    assert_eq!(IDTAttribute::empty().0, 0);
    assert_eq!(IDTAttribute::new(SystemDescriptorType::InterruptGate, 0).0, 0x8e00);
    assert_eq!(IDTAttribute::new(SystemDescriptorType::InterruptGate, 3).0, 0xee00);
    assert_eq!(IDTAttribute::new(SystemDescriptorType::InterruptGate, 7).0, 0xee00);
}

#[test]
fn interrupt_descriptor_splits_handler_address() {
    let attr = IDTAttribute::new(SystemDescriptorType::InterruptGate, 0);
    let d = InterruptDescriptor::new(attr, 0x1234_5678_9abc_def0, 0x08);
    assert_eq!(d.offset_low, 0xdef0);
    assert_eq!(d.offset_middle, 0x9abc);
    assert_eq!(d.offset_high, 0x1234_5678);
    assert_eq!(d.segment_selector, 0x08);
    assert_eq!(d.attr, attr);
    assert_eq!(d.to_raw(), (0x9abc_8e00_0008_def0, 0x1234_5678));
    let e = InterruptDescriptor::empty();
    assert_eq!(e.to_raw(), (0, 0));
}

#[test]
fn interrupt_descriptor_table_entries() {
    let mut idt = InterruptDescriptorTable::new();
    assert_eq!(idt.get_limit(), 4095);
    assert_eq!(idt.entry(200), InterruptDescriptor::empty());
    let attr = IDTAttribute::new(SystemDescriptorType::InterruptGate, 0);
    let d = InterruptDescriptor::new(attr, 0xabcd, 0x08);
    idt.set_entry(0x41, d);
    assert_eq!(idt.entry(0x41), d);
    assert_eq!(idt.entry(0x40), InterruptDescriptor::empty());
}

#[test]
fn kernel_idt_installs_four_gates() {
    let idt = kernel_idt(0x1000, 0x2000, 0x3000, 0x4000, 0x08);
    let attr = IDTAttribute::new(SystemDescriptorType::InterruptGate, 0);
    assert_eq!(idt.entry(0x00), InterruptDescriptor::new(attr, 0x1000, 0x08));
    assert_eq!(idt.entry(0x08), InterruptDescriptor::new(attr, 0x2000, 0x08));
    assert_eq!(idt.entry(0x40), InterruptDescriptor::new(attr, 0x3000, 0x08));
    assert_eq!(idt.entry(0x41), InterruptDescriptor::new(attr, 0x4000, 0x08));
    assert_eq!(idt.entry(0x01), InterruptDescriptor::empty());
    assert_eq!(idt.entry(0xff), InterruptDescriptor::empty());
}

#[test]
fn segment_descriptor_encodings() {
    assert_eq!(SegmentDescriptor::empty().0, 0);
    assert_eq!(SegmentDescriptor::make_code_segment().0, 0x0020_9a00_0000_0000);
    assert_eq!(SegmentDescriptor::make_data_segment().0, 0x0000_9200_0000_0000);
}

#[test]
fn global_descriptor_table_layout() {
    let empty = GlobalDescriptorTable::new();
    assert_eq!(empty.get_limit(), 23);
    assert_eq!(empty.entry(1).0, 0);
    let gdt = kernel_gdt();
    assert_eq!(gdt.entry(0).0, 0);
    assert_eq!(gdt.entry(1), SegmentDescriptor::make_code_segment());
    assert_eq!(gdt.entry(2), SegmentDescriptor::make_data_segment());
}

#[test]
fn nested_critical_sections_enable_interrupts_only_at_the_outermost_exit() {
    let mut cs = CriticalSection::new();
    assert!(cs.enter(true));
    assert!(!cs.enter(false));
    assert!(!cs.enter(false));
    assert_eq!(cs.depth_now(), 3);
    assert!(!cs.leave());
    assert!(!cs.leave());
    assert!(cs.leave());
    assert_eq!(cs.depth_now(), 0);
}

#[test]
fn critical_section_entered_with_interrupts_off_leaves_them_off() {
    let mut cs = CriticalSection::new();
    assert!(!cs.enter(false));
    assert!(!cs.leave());
    assert!(cs.enter(true));
    assert!(cs.leave());
}
