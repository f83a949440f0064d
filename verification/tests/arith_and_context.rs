use sal4::arith::{extract, ilog2_of, trailing_zeros_of};
use sal4::context::UserContext;
use sal4::kernel::boot::mm::BootArena;
use sal4::kernel::cap::utils::align_up;

#[test]
fn extract_takes_the_middle_bits() {
    assert_eq!(extract(0xABCD, 4, 8), 0xBC);
    assert_eq!(extract(0xABCD, 0, 4), 0xD);
    assert_eq!(extract(0xABCD, 12, 4), 0xA);
}

#[test]
fn extract_at_the_word_edges() {
    assert_eq!(extract(usize::MAX, 64, 8), 0);
    assert_eq!(extract(0x1234, 0, 64), 0x1234);
    assert_eq!(extract(0x1234, 0, 0), 0);
    assert_eq!(extract(usize::MAX, 56, 8), 0xFF);
}

#[test]
fn align_up_rounds_to_the_next_multiple() {
    assert_eq!(align_up(5000, 4096), 8192);
    assert_eq!(align_up(4096, 4096), 4096);
    assert_eq!(align_up(0, 4096), 0);
    assert_eq!(align_up(13, 8), 16);
    assert_eq!(align_up(7, 1), 7);
    assert_eq!(BootArena::align_up(4097, 4096), 8192);
}

#[test]
fn trailing_zeros_and_log2() {
    assert_eq!(trailing_zeros_of(0), 64);
    assert_eq!(trailing_zeros_of(8), 3);
    assert_eq!(trailing_zeros_of(12), 2);
    assert_eq!(trailing_zeros_of(0x8000_0000), 31);
    assert_eq!(ilog2_of(1), 0);
    assert_eq!(ilog2_of(4096), 12);
    assert_eq!(ilog2_of(4097), 12);
    assert_eq!(ilog2_of(usize::MAX), 63);
}

#[test]
fn user_context_registers() {
    let mut ctx = UserContext::user(0x8040_0000);
    assert_eq!(ctx.pc(), 0x8040_0000);
    assert!(ctx.interrupt);
    assert!(!ctx.supervisor);
    assert_eq!(ctx.a(0), 0);
    ctx.set_a(0, 7);
    ctx.set_a(7, 16);
    ctx.set_sp(0x9000);
    assert_eq!(ctx.a(0), 7);
    assert_eq!(ctx.a(7), 16);
    assert_eq!(ctx.x[10], 0);
    assert_eq!(ctx.x[9], 7);
    assert_eq!(ctx.x[16], 16);
    assert_eq!(ctx.sp(), 0x9000);
    ctx.move_next();
    assert_eq!(ctx.pc(), 0x8040_0004);
}

#[test]
fn move_next_wraps_at_the_top_of_the_address_space() {
    let mut ctx = UserContext::user(usize::MAX - 1);
    ctx.move_next();
    assert_eq!(ctx.pc(), 2);
    let empty = UserContext::empty();
    assert_eq!(empty.pc(), 0);
    assert!(!empty.interrupt);
}
