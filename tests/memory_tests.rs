use mikanos_kernel::graphics::PixelColor;
use mikanos_kernel::memory_manager::{BitmapMemoryManager, FrameID, MemoryRegion, MAX_NUM_PAGE_FRAME, PAGE_SIZE};
use mikanos_kernel::mouse::{move_position, MouseEvent};

#[test]
fn allocations_are_first_fit() {
    let mut m = BitmapMemoryManager::new();
    m.set_memory_range(FrameID(1), FrameID(100));
    assert_eq!(m.allocate(3), Some(FrameID(1)));
    assert_eq!(m.allocate(2), Some(FrameID(4)));
    assert!(m.get_bit(FrameID(1)));
    assert!(m.get_bit(FrameID(5)));
    assert!(!m.get_bit(FrameID(6)));
    m.free(FrameID(2), 1);
    assert!(!m.get_bit(FrameID(2)));
    assert_eq!(m.allocate(2), Some(FrameID(6)));
    assert_eq!(m.allocate(1), Some(FrameID(2)));
}

#[test]
fn allocation_fails_when_no_run_is_long_enough() {
    let mut m = BitmapMemoryManager::new();
    m.set_memory_range(FrameID(10), FrameID(20));
    assert_eq!(m.allocate(11), None);
    assert_eq!(m.allocate(10), Some(FrameID(10)));
    assert_eq!(m.allocate(1), None);
    m.free(FrameID(15), 2);
    assert_eq!(m.allocate(3), None);
    assert_eq!(m.allocate(2), Some(FrameID(15)));
}

#[test]
fn zero_frame_allocation_returns_range_start() {
    let mut m = BitmapMemoryManager::new();
    m.set_memory_range(FrameID(7), FrameID(9));
    assert_eq!(m.allocate(0), Some(FrameID(7)));
    assert!(!m.get_bit(FrameID(7)));
}

#[test]
fn bits_of_neighbouring_frames_are_independent() {
    let mut m = BitmapMemoryManager::new();
    m.set_bit(FrameID(8), true);
    m.set_bit(FrameID(15), true);
    assert!(m.get_bit(FrameID(8)));
    assert!(m.get_bit(FrameID(15)));
    assert!(!m.get_bit(FrameID(9)));
    assert!(!m.get_bit(FrameID(7)));
    assert!(!m.get_bit(FrameID(16)));
    m.set_bit(FrameID(8), false);
    assert!(!m.get_bit(FrameID(8)));
    assert!(m.get_bit(FrameID(15)));
    assert!(!m.get_bit(FrameID(MAX_NUM_PAGE_FRAME - 1)));
}

#[test]
fn frame_addresses() {
    assert_eq!(FrameID(3).get_addr(), 3 * PAGE_SIZE);
    assert_eq!(FrameID(3).offset(4), FrameID(7));
}

#[test]
fn pixel_color_keeps_components() {
    let c = PixelColor::new(1, 2, 3);
    assert_eq!((c.r, c.g, c.b), (1, 2, 3));
}

#[test]
fn cursor_moves_and_stays_on_screen() {
    let ev = MouseEvent::new(0, -10, 0);
    assert_eq!(ev.displacement_x, -10);
    assert_eq!(move_position((200, 300), &ev, (800, 600)), (190, 300));
    assert_eq!(move_position((5, 300), &ev, (800, 600)), (0, 300));
    let down = MouseEvent::new(1, 127, 127);
    assert_eq!(move_position((790, 590), &down, (800, 600)), (800, 600));
    assert_eq!(move_position((0, 0), &MouseEvent::new(0, -128, -128), (800, 600)), (0, 0));
}

#[test]
fn memory_map_marks_holes_and_unusable_regions() {
    let regions = [
        MemoryRegion { phys_start: 0, page_count: 1, usable: true },
        MemoryRegion { phys_start: 0x2000, page_count: 2, usable: false },
        MemoryRegion { phys_start: 0x5000, page_count: 3, usable: true },
    ];
    let mut m = BitmapMemoryManager::new();
    m.init_from_regions(&regions);
    for f in 1..=4 {
        assert!(m.get_bit(FrameID(f)));
    }
    for f in [0, 5, 6, 7, 8] {
        assert!(!m.get_bit(FrameID(f)));
    }
    assert_eq!(m.allocate(1), Some(FrameID(5)));
    assert_eq!(m.allocate(3), None);
    assert_eq!(m.allocate(2), Some(FrameID(6)));
    assert_eq!(m.allocate(1), None);
}
