use sal4::common::invocation::{OBJECT_FRAME, UNTYPED_RETYPE};
use sal4::common::{CPtr, SlotRegion};
use sal4::kernel::boot::rootserver::RootserverImage;
use sal4::kernel::boot::{bootstrap, BootObjectLayout};
use sal4::rootserver::{
    invocation_succeeded, request_first_frame_retype, slot_region_len, untyped_count, user_image_frame_count,
    InvokeRequest,
};

#[test]
fn cptr_round_trip() {
    assert_eq!(CPtr::new(42).raw(), 42);
    assert_eq!(CPtr::new(42), CPtr::new(42));
}

#[test]
fn slot_region_lengths() {
    assert_eq!(slot_region_len(SlotRegion { start: CPtr::new(6), end: CPtr::new(9) }), 3);
    assert_eq!(slot_region_len(SlotRegion { start: CPtr::new(9), end: CPtr::new(6) }), 0);
    assert_eq!(slot_region_len(SlotRegion { start: CPtr::new(5), end: CPtr::new(5) }), 0);
}

#[test]
fn rootserver_reads_the_bootinfo() {
    let st = bootstrap(
        0x8022_0000,
        RootserverImage { start: 0x8040_0000, end: 0x8040_2345 },
        BootObjectLayout {
            bootinfo_size: 4096,
            bootinfo_align: 4096,
            slot_size: 64,
            slot_align: 8,
            tcb_size: 360,
            tcb_align: 8,
        },
    );
    assert_eq!(user_image_frame_count(&st.bootinfo), 3);
    let n = untyped_count(&st.bootinfo);
    assert_eq!(n, st.bootinfo.empty.start.raw() - 9);
    let req = request_first_frame_retype(&st.bootinfo);
    assert_eq!(
        req,
        InvokeRequest { service: 9, label: UNTYPED_RETYPE, arg0: OBJECT_FRAME, arg1: 9 + n, arg2: 12 }
    );
}

#[test]
fn success_is_a_zero_return() {
    assert!(invocation_succeeded(0));
    assert!(!invocation_succeeded(-1));
    assert!(!invocation_succeeded(1));
}
