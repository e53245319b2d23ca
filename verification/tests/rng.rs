use pdfix::rng::XorShift64;

#[test]
fn xorshift_is_deterministic() {
    let mut a = XorShift64::new(42);
    let mut b = XorShift64::new(42);
    for _ in 0..32 {
        assert_eq!(a.next_u64(), b.next_u64());
    }
}

#[test]
fn xorshift_zero_seed_uses_constant() {
    // seed=0 is replaced with a fixed non-zero seed inside ::new
    let mut a = XorShift64::new(0);
    let mut b = XorShift64::new(0);
    assert_eq!(a.next_u64(), b.next_u64());
}

#[test]
fn xorshift_color_in_unit_range() {
    // A colour component is the top 24 bits of a value over 2^24.
    let mut r = XorShift64::new(1);
    for _ in 0..1000 {
        let c = [r.next_u24(), r.next_u24(), r.next_u24()].map(|m| (m as f32) / ((1u32 << 24) as f32));
        for v in c {
            assert!(v >= 0.0 && v < 1.0, "value out of range: {v}");
        }
    }
}

#[test]
fn xorshift_known_values() {
    let mut r = XorShift64::new(1);
    assert_eq!(r.next_u64(), 1082269761);
    assert_eq!(r.next_u64(), 1152992998833853505);
    assert_eq!(r.next_u24(), 10165892);
    let mut z = XorShift64::new(0);
    assert_eq!(z.next_u64(), 2689028537476737099);
    let mut f = XorShift64::new(0xDEAD_BEEF_C0DE_BABE);
    assert_eq!(f.next_u64(), 2689028537476737099);
}

#[test]
fn xorshift_never_yields_zero() {
    let mut r = XorShift64::new(1);
    for _ in 0..10000 {
        assert_ne!(r.next_u64(), 0);
    }
}
