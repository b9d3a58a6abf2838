use chronos::text::base_name;
use chronos::allocator::{get_heap_usage, HEAP_SIZE};
use chronos::compositor::Window;
use chronos::gdt::get_user_selectors;
use chronos::process::{Process, ProcessState, Registers};
use chronos::window_manager::add_window;
use linked_list_allocator::Heap;
use std::alloc::Layout;
use std::mem::MaybeUninit;

#[test]
fn heap_usage_is_read_from_the_heap() {
    let heap = Heap::empty();
    assert_eq!(get_heap_usage(&heap), (0, 0));
    assert_eq!(get_heap_usage(&heap), (heap.used(), heap.size()));
    assert_eq!(HEAP_SIZE, 32 * 1024 * 1024);
}

#[test]
fn heap_usage_tells_used_from_managed_bytes() {
    let memory: &'static mut [MaybeUninit<u8>] =
        Box::leak(vec![MaybeUninit::new(0u8); 8192].into_boxed_slice());
    let mut heap = Heap::empty();
    heap.init_from_slice(memory);
    let (used, size) = get_heap_usage(&heap);
    assert_eq!(used, 0);
    assert!(size > 8000 && size <= 8192);
    heap.allocate_first_fit(Layout::from_size_align(1024, 8).unwrap()).unwrap();
    let (used, size_after) = get_heap_usage(&heap);
    assert_eq!(size_after, size);
    assert!(used >= 1024 && used < size);
    assert_eq!((used, size), (heap.used(), heap.size()));
}

#[test]
fn user_selectors_ask_for_ring_three() {
    assert_eq!(get_user_selectors(0x20, 0x18), (0x23, 0x1b));
    assert_eq!(get_user_selectors(0x23, 0x1b), (0x23, 0x1b));
    assert_eq!(get_user_selectors(0, 0), (3, 3));
}

#[test]
fn windows_are_added_on_top() {
    let mut windows = Vec::new();
    add_window(&mut windows, Window::new(0, 0, 50, 50, "a"));
    add_window(&mut windows, Window::new(0, 0, 50, 50, "b"));
    let titles: Vec<&str> = windows.iter().map(|w| w.title.as_str()).collect();
    assert_eq!(titles, vec!["a", "b"]);
}

#[test]
fn processes_hold_plain_values() {
    let r = Registers::default();
    assert_eq!((r.rax, r.r15, r.rdi), (0, 0, 0));
    let p = Process {
        id: 1,
        name: "init".to_string(),
        stack_pointer: 0x1000,
        state: ProcessState::Ready,
        page_table_phys: 0x2000,
    };
    let q = p.clone();
    assert_eq!((q.id, q.name.as_str(), q.stack_pointer, q.page_table_phys), (1, "init", 0x1000, 0x2000));
    assert!(q.state == ProcessState::Ready);
    assert!(ProcessState::Running != ProcessState::Blocked);
}

#[test]
fn the_last_part_of_a_path() {
    assert_eq!(base_name("/boot/modules/app.elf"), "app.elf");
    assert_eq!(base_name("app.elf"), "app.elf");
    assert_eq!(base_name("/app.elf"), "app.elf");
    assert_eq!(base_name("dir/"), "");
    assert_eq!(base_name(""), "");
    assert_eq!(base_name("/"), "");
    assert_eq!(base_name("a//b"), "b");
    assert_eq!(base_name("é/ü"), "ü");
}
