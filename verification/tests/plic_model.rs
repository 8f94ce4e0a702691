use plic::HartContext;
use plic::InterruptSource;
use plic::Plic;

#[test]
fn test() {
    assert_eq!(plic::total_size(), 0x20_0000 + 15872 * 4096);
}

#[test]
fn layout_offsets() {
    assert_eq!(plic::COUNT_SOURCE, 1024);
    assert_eq!(plic::COUNT_CONTEXT, 15872);
    assert_eq!(plic::PENDING_WORDS, 32);
    assert_eq!(plic::ENABLE_WORDS, 507904);
    assert_eq!(plic::priority_offset(0), 0x0000);
    assert_eq!(plic::priority_offset(1), 0x0004);
    assert_eq!(plic::priority_offset(1023), 0x0ffc);
    assert_eq!(plic::pending_word_offset(0), 0x1000);
    assert_eq!(plic::pending_word_offset(31), 0x107c);
    assert_eq!(plic::enable_word_offset(0), 0x2000);
    assert_eq!(plic::enable_word_offset(32), 0x2080);
    assert_eq!(plic::enable_word_offset(507903), 0x1f1ffc);
    assert_eq!(plic::threshold_offset(0), 0x20_0000);
    assert_eq!(plic::threshold_offset(1), 0x20_1000);
    assert_eq!(plic::threshold_offset(15871), 0x3fff000);
    assert_eq!(plic::claim_complete_offset(0), 0x20_0004);
    assert_eq!(plic::claim_complete_offset(2), 0x20_2004);
    assert_eq!(plic::total_size(), 0x400_0000);
}

#[test]
fn priority_round_trip() {
    let mut plic = Plic::new();
    assert_eq!(plic.get_priority(1), 0);
    plic.set_priority(1, 7);
    assert_eq!(plic.get_priority(1), 7);
    plic.set_priority(1023, u32::MAX);
    assert_eq!(plic.get_priority(1023), u32::MAX);
    assert_eq!(plic.get_priority(1), 7);
    plic.set_priority(1, 0);
    assert_eq!(plic.get_priority(1), 0);
}

#[test]
fn disable_source_zeroes_priority() {
    let mut plic = Plic::new();
    plic.set_priority(42, 9);
    assert_eq!(plic.get_priority(42), 9);
    plic.disable_source(42);
    assert_eq!(plic.get_priority(42), 0);
}

#[test]
fn probe_priority_bits_mask() {
    let mut plic = Plic::new();
    plic.set_priority(5, 3);
    let mask = plic.probe_priority_bits(5);
    assert_eq!(mask, u32::MAX);
    assert_eq!(plic.get_priority(5), mask);
    assert_eq!(plic.get_priority(6), 0);
}

#[test]
fn probe_threshold_bits_mask() {
    let mut plic = Plic::new();
    let mask = plic.probe_threshold_bits(3);
    assert_eq!(mask, u32::MAX);
    assert_eq!(plic.get_threshold(3), mask);
    assert_eq!(plic.get_threshold(2), 0);
}

#[test]
fn threshold_round_trip() {
    let mut plic = Plic::new();
    assert_eq!(plic.get_threshold(0), 0);
    plic.set_threshold(0, 11);
    assert_eq!(plic.get_threshold(0), 11);
    plic.set_threshold(15871, 4);
    assert_eq!(plic.get_threshold(15871), 4);
    assert_eq!(plic.get_threshold(0), 11);
}

#[test]
fn enable_bit_independence() {
    let mut plic = Plic::new();
    plic.enable(3, 0);
    assert!(plic.is_enabled(3, 0));
    // Neighbouring source in the same context, same packed word.
    assert!(!plic.is_enabled(1, 0));
    assert!(!plic.is_enabled(4, 0));
    assert!(!plic.is_enabled(30, 0));
    // Same source in another context.
    assert!(!plic.is_enabled(3, 1));
    assert!(!plic.is_enabled(3, 15871));
    // Bits that share the word with an enabled one survive a disable.
    plic.enable(1, 0);
    plic.enable(30, 0);
    plic.disable(3, 0);
    assert!(!plic.is_enabled(3, 0));
    assert!(plic.is_enabled(1, 0));
    assert!(plic.is_enabled(30, 0));
    // Cross-context independence of the same source id.
    plic.enable(3, 7);
    plic.disable(3, 7);
    assert!(plic.is_enabled(1, 0));
    assert!(!plic.is_enabled(3, 7));
}

#[test]
fn pending_read_only_except_claim() {
    let mut plic = Plic::new();
    plic.raise_interrupt(7);
    assert!(plic.is_pending(7));
    assert!(!plic.is_pending(8));
    plic.set_priority(7, 5);
    plic.enable(7, 0);
    plic.disable(7, 0);
    plic.set_threshold(0, 1);
    plic.probe_priority_bits(7);
    plic.probe_threshold_bits(0);
    plic.complete(0, 7);
    assert!(plic.is_pending(7));
    assert!(!plic.is_pending(8));
    // Only claim moves a pending bit: it clears the claimed source's.
    plic.set_priority(7, 5);
    plic.enable(7, 0);
    plic.set_threshold(0, 0);
    assert_eq!(plic.claim(0), Some(7));
    assert!(!plic.is_pending(7));
}

#[test]
fn claim_complete_pairing() {
    let mut plic = Plic::new();
    plic.set_priority(10, 5);
    plic.enable(10, 2);
    plic.raise_interrupt(10);
    assert!(plic.is_pending(10));
    assert_eq!(plic.claim(2), Some(10));
    assert!(!plic.is_pending(10));
    // Held until completion: a new assertion is absorbed.
    plic.raise_interrupt(10);
    assert!(!plic.is_pending(10));
    assert_eq!(plic.claim(2), None);
    // Completion restores eligibility for a new assertion.
    plic.complete(2, 10);
    plic.raise_interrupt(10);
    assert!(plic.is_pending(10));
    assert_eq!(plic.claim(2), Some(10));
    plic.complete(2, 10);
}

#[test]
fn threshold_gates_claim() {
    let mut plic = Plic::new();
    plic.set_priority(3, 1);
    plic.enable(3, 0);
    plic.raise_interrupt(3);
    // Priority equal to the threshold is not claimable.
    plic.set_threshold(0, 1);
    assert_eq!(plic.claim(0), None);
    assert!(plic.is_pending(3));
    // Strictly above the threshold it is.
    plic.set_threshold(0, 0);
    assert_eq!(plic.claim(0), Some(3));
}

#[test]
fn claim_on_reset_returns_none() {
    let mut plic = Plic::new();
    assert_eq!(plic.claim(0), None);
    assert_eq!(plic.claim(15871), None);
}

#[test]
fn claim_requires_enable_bit() {
    let mut plic = Plic::new();
    plic.set_priority(6, 4);
    plic.raise_interrupt(6);
    assert_eq!(plic.claim(0), None);
    plic.enable(6, 1);
    // Enabled in context 1 only.
    assert_eq!(plic.claim(0), None);
    assert_eq!(plic.claim(1), Some(6));
}

#[test]
fn claim_requires_nonzero_priority() {
    let mut plic = Plic::new();
    plic.enable(9, 0);
    plic.raise_interrupt(9);
    // Priority 0 means "never interrupt".
    assert_eq!(plic.claim(0), None);
    plic.set_priority(9, 1);
    assert_eq!(plic.claim(0), Some(9));
}

#[test]
fn claim_picks_highest_priority() {
    let mut plic = Plic::new();
    plic.set_priority(7, 2);
    plic.set_priority(9, 6);
    plic.set_priority(300, 4);
    for s in [7u32, 9, 300] {
        plic.enable(s, 0);
        plic.raise_interrupt(s);
    }
    assert_eq!(plic.claim(0), Some(9));
    assert_eq!(plic.claim(0), Some(300));
    assert_eq!(plic.claim(0), Some(7));
    assert_eq!(plic.claim(0), None);
}

#[test]
fn claim_breaks_priority_ties_by_lowest_id() {
    let mut plic = Plic::new();
    for s in [40u32, 8, 900] {
        plic.set_priority(s, 5);
        plic.enable(s, 4);
        plic.raise_interrupt(s);
    }
    assert_eq!(plic.claim(4), Some(8));
    assert_eq!(plic.claim(4), Some(40));
    assert_eq!(plic.claim(4), Some(900));
}

#[test]
fn raw_identifier_resolution() {
    assert_eq!(5u32.id(), 5);
    assert_eq!(1023u32.id(), 1023);
    assert_eq!(0usize.index(), 0);
    assert_eq!(15871usize.index(), 15871);
}
