use oscons::cpu::{msr_halves, msr_value, rdrand_outcome, with_long_mode, with_pae, with_paging, with_protected_mode, EFER_MSR};
use oscons::realmode::{
    a20_check_verdict, a20_next_step, a20_probe_high, a20_probe_low, disk_next_step, disk_read_succeeded,
    fast_a20_value, kbc_input_full, A20Method, A20Step, DiskStep, SegPtr,
};
use oscons::text::{push_decimal, push_hex};

#[test]
fn mode_switch_bits() {
    assert_eq!(with_protected_mode(0x10), 0x11);
    assert_eq!(with_paging(0x11), 0x8000_0011);
    assert_eq!(with_pae(0x0), 0x20);
    assert_eq!(with_long_mode(0x1), 0x101);
    assert_eq!(EFER_MSR, 0xC000_0080);
}

#[test]
fn msr_halves_join_back() {
    assert_eq!(msr_value(0x89AB_CDEF, 0x0123_4567), 0x0123_4567_89AB_CDEF);
    let (lo, hi) = msr_halves(0x0123_4567_89AB_CDEF);
    assert_eq!((lo, hi), (0x89AB_CDEF, 0x0123_4567));
    assert_eq!(msr_value(lo, hi), 0x0123_4567_89AB_CDEF);
}

#[test]
fn rdrand_retries_until_carry() {
    assert_eq!(rdrand_outcome(0, 5), None);
    assert_eq!(rdrand_outcome(1, 5), Some(5));
}

#[test]
fn a20_probes_are_one_mib_apart() {
    assert_eq!(a20_probe_low().linear_address(), 0x500);
    assert_eq!(a20_probe_high().linear_address(), 0x10_0500);
    assert_eq!(SegPtr(0x07C0, 0x0010).linear_address(), 0x7C10);
    assert!(!a20_check_verdict(0xFF));
    assert!(a20_check_verdict(0x00));
}

#[test]
fn a20_methods_are_tried_in_order() {
    assert_eq!(a20_next_step(None, true), A20Step::Enabled);
    assert_eq!(a20_next_step(None, false), A20Step::Try(A20Method::Bios));
    assert_eq!(a20_next_step(Some(A20Method::Bios), false), A20Step::Try(A20Method::KeyboardController));
    assert_eq!(a20_next_step(Some(A20Method::KeyboardController), false), A20Step::Try(A20Method::FastGate));
    assert_eq!(a20_next_step(Some(A20Method::FastGate), false), A20Step::Failed);
    assert_eq!(a20_next_step(Some(A20Method::FastGate), true), A20Step::Enabled);
    assert!(kbc_input_full(0x02));
    assert!(!kbc_input_full(0xFD));
    assert_eq!(fast_a20_value(0x01), 0x03);
}

#[test]
fn stage_two_is_read_at_most_three_times() {
    assert!(disk_read_succeeded(true, 48));
    assert!(!disk_read_succeeded(true, 47));
    assert!(!disk_read_succeeded(false, 48));
    assert_eq!(disk_next_step(1, true), DiskStep::JumpToStage2);
    assert_eq!(disk_next_step(1, false), DiskStep::Retry);
    assert_eq!(disk_next_step(2, false), DiskStep::Retry);
    assert_eq!(disk_next_step(3, false), DiskStep::GiveUp);
}

#[test]
fn numbers_render_as_hex_and_decimal() {
    let mut out = Vec::new();
    push_hex(&mut out, 0);
    out.push(b' ');
    push_hex(&mut out, 0xBEEF);
    out.push(b' ');
    push_hex(&mut out, u64::MAX);
    out.push(b' ');
    push_decimal(&mut out, 0);
    out.push(b' ');
    push_decimal(&mut out, 18446744073709551615);
    assert_eq!(String::from_utf8(out).unwrap(), "0 beef ffffffffffffffff 0 18446744073709551615");
}
