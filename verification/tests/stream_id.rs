//! Stream identifier arithmetic.

use quic_dispatch::stream_id::{is_bidi, is_local};

#[test]
fn bidi_low_two_bits() {
    // Bit 1 clear: bidirectional.
    assert!(is_bidi(0));
    assert!(is_bidi(1));
    assert!(!is_bidi(2));
    assert!(!is_bidi(3));
    assert!(is_bidi(4));
    assert!(is_bidi(5));
    assert!(!is_bidi(6));
    assert!(!is_bidi(7));
    assert!(is_bidi(8));
    assert!(is_bidi(u64::MAX - 3));
    assert!(!is_bidi(u64::MAX));
}

#[test]
fn local_initiator_bit() {
    // Bit 0: 0 = client-initiated, 1 = server-initiated.
    assert!(is_local(4, false));
    assert!(!is_local(4, true));
    assert!(is_local(5, true));
    assert!(!is_local(5, false));
    assert!(is_local(0, false));
    assert!(!is_local(0, true));
    assert!(is_local(u64::MAX, true));
    assert!(!is_local(u64::MAX, false));
}
