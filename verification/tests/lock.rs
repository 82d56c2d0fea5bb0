//! The critical-section protocol.

use opal::console::{oops_enter, oops_exit, print_takes_lock, Oops};
use opal::sync::{LockStep, Outcome, Section};

#[test]
fn an_uncontended_section_goes_straight_through() {
    let mut s = Section::new();
    assert_eq!(s.step(), LockStep::Mask);
    s.advance(Outcome::Masked { daif: 0x3c0 });
    assert_eq!(s.step(), LockStep::Acquire);
    s.advance(Outcome::Tried { won: true });
    assert_eq!(s.step(), LockStep::Run);
    s.advance(Outcome::Performed);
    assert_eq!(s.step(), LockStep::Release);
    s.advance(Outcome::Performed);
    assert_eq!(s.step(), LockStep::Restore { daif: 0x3c0 });
    s.advance(Outcome::Performed);
    assert_eq!(s.step(), LockStep::Done);
    s.advance(Outcome::Performed);
    assert_eq!(s.step(), LockStep::Done);
}

#[test]
fn a_contended_section_waits_and_tries_again() {
    let mut s = Section::new();
    s.advance(Outcome::Masked { daif: 0 });
    s.advance(Outcome::Tried { won: false });
    assert_eq!(s.step(), LockStep::Wait);
    s.advance(Outcome::Saw { held: true });
    assert_eq!(s.step(), LockStep::Wait);
    s.advance(Outcome::Saw { held: false });
    assert_eq!(s.step(), LockStep::Acquire);
    s.advance(Outcome::Tried { won: true });
    assert_eq!(s.step(), LockStep::Run);
    s.advance(Outcome::Performed);
    s.advance(Outcome::Performed);
    assert_eq!(s.step(), LockStep::Restore { daif: 0 });
}

#[test]
fn emergency_mode_skips_the_lock() {
    let mut o = Oops::new();
    assert!(print_takes_lock(&o));
    assert!(!oops_enter(&mut o));
    assert!(!print_takes_lock(&o));
    assert!(oops_enter(&mut o));
    oops_exit(&mut o);
    assert!(print_takes_lock(&o));
    assert!(!oops_enter(&mut o));
}
