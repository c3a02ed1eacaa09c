use chip8_core::error::CpuError;
use chip8_core::stack::{Stack, STACK_CAPACITY};

#[test]
fn new_stack_is_empty() {
    let s = Stack::new();
    assert_eq!(s.len(), 0);
    assert!(s.is_empty());
}

#[test]
fn pop_on_empty_stack_fails() {
    let mut s = Stack::new();
    assert_eq!(s.pop(), Err(CpuError::StackUnderflow));
    assert_eq!(s.len(), 0);
}

#[test]
fn pops_come_in_reverse_order_of_pushes() {
    let mut s = Stack::new();
    assert_eq!(s.push(0x200), Ok(()));
    assert_eq!(s.push(0x300), Ok(()));
    assert_eq!(s.push(0x400), Ok(()));
    assert_eq!(s.len(), 3);
    assert!(!s.is_empty());
    assert_eq!(s.pop(), Ok(0x400));
    assert_eq!(s.pop(), Ok(0x300));
    assert_eq!(s.push(0x500), Ok(()));
    assert_eq!(s.pop(), Ok(0x500));
    assert_eq!(s.pop(), Ok(0x200));
    assert_eq!(s.pop(), Err(CpuError::StackUnderflow));
}

#[test]
fn lifo_holds_for_every_run_length_up_to_capacity() {
    for run in 0..=STACK_CAPACITY {
        let mut s = Stack::new();
        for i in 0..run {
            assert_eq!(s.push(0x200 + 2 * i as u16), Ok(()));
        }
        assert_eq!(s.len(), run);
        for i in (0..run).rev() {
            assert_eq!(s.pop(), Ok(0x200 + 2 * i as u16));
        }
        assert!(s.is_empty());
    }
}

#[test]
fn push_at_capacity_fails_and_keeps_the_stack() {
    let mut s = Stack::new();
    for i in 0..16u16 {
        assert_eq!(s.push(i), Ok(()));
    }
    assert_eq!(STACK_CAPACITY, 16);
    assert_eq!(s.len(), 16);
    assert_eq!(s.push(99), Err(CpuError::StackOverflow));
    assert_eq!(s.len(), 16);
    assert_eq!(s.pop(), Ok(15));
    assert_eq!(s.len(), 15);
    assert_eq!(s.push(99), Ok(()));
    assert_eq!(s.pop(), Ok(99));
}
