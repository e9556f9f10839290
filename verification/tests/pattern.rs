use bitspattern::bitspattern::BitsPattern;

const WIDTHS: [usize; 4] = [8, 16, 32, 64];

#[test]
fn round_trip_all_widths() {
    let p = BitsPattern::new("1?0?1?").unwrap();
    for &w in WIDTHS.iter() {
        for _ in 0..200 {
            let v = p.generate(w).unwrap();
            assert!(p.fit(v, w));
        }
    }
}

#[test]
fn round_trip_full_width_pattern() {
    let template: String = "10?".repeat(21) + "?";
    let p = BitsPattern::new(&template).unwrap();
    assert_eq!(p.len(), 64);
    for _ in 0..200 {
        let v = p.generate(64).unwrap();
        assert!(p.fit(v, 64));
    }
}

#[test]
fn fixed_pattern_deterministic() {
    let p = BitsPattern::new("10110").unwrap();
    let first = p.generate(8).unwrap();
    assert_eq!(first, 0b10110);
    for &w in WIDTHS.iter() {
        for _ in 0..100 {
            assert_eq!(p.generate(w).unwrap(), 0b10110);
        }
    }
}

#[test]
fn wildcard_coverage() {
    let p = BitsPattern::new("????").unwrap();
    let mut ones = [0u32; 4];
    let mut seen = [false; 16];
    for _ in 0..10_000 {
        let v = p.generate(8).unwrap();
        assert!(v < 16);
        seen[v as usize] = true;
        for (i, count) in ones.iter_mut().enumerate() {
            if (v >> i) & 1 == 1 {
                *count += 1;
            }
        }
    }
    for &count in ones.iter() {
        assert!(
            (4000..=6000).contains(&count),
            "wildcard bit systematically biased: {count} ones in 10000 draws"
        );
    }
    assert!(seen.iter().filter(|&&s| s).count() > 1);
}

#[test]
fn non_fit_rejection() {
    let p = BitsPattern::new("101").unwrap();
    assert!(p.fit(0b101, 8));
    // Flipping any fixed bit of the only fitting low bits must reject.
    assert!(!p.fit(0b100, 8));
    assert!(!p.fit(0b111, 8));
    assert!(!p.fit(0b001, 8));
    // Bits above the pattern length are free.
    assert!(p.fit(0b11111101, 8));
}

#[test]
fn non_fit_rejection_with_wildcards() {
    let p = BitsPattern::new("1?0").unwrap();
    assert!(p.fit(0b100, 8));
    assert!(p.fit(0b110, 8));
    assert!(!p.fit(0b101, 8)); // fixed zero position holds a one
    assert!(!p.fit(0b010, 8)); // fixed one position holds a zero
}

#[test]
fn width_mismatch_short_circuit() {
    let p = BitsPattern::new("101010101").unwrap(); // 9 bits
    assert_eq!(p.len(), 9);
    for v in [0u64, 0b101010101, u64::MAX] {
        assert!(!p.fit(v, 8));
    }
    let long: String = "?".repeat(65);
    let p = BitsPattern::new(&long).unwrap();
    for &w in WIDTHS.iter() {
        assert!(!p.fit(0, w));
    }
}

#[test]
fn whitespace_insensitivity() {
    let a = BitsPattern::new("1 0 1?").unwrap();
    let b = BitsPattern::new("101?").unwrap();
    assert_eq!(a, b);
    let c = BitsPattern::new("  1  01 ? ").unwrap();
    assert_eq!(a, c);
}

#[test]
fn concrete_addw_scenario() {
    let p = BitsPattern::new("00000000000100000???????????????").unwrap();
    assert_eq!(p.len(), 32);
    assert!(p.fit(0x0010421c, 32));
    for _ in 0..100 {
        let v = p.generate(32).unwrap();
        assert!(p.fit(v, 32));
        // The 17 fixed high-order bits spell the opcode field.
        assert_eq!(v >> 15, 0b00000000000100000);
    }
}

#[test]
fn empty_pattern() {
    let p = BitsPattern::new("").unwrap();
    assert_eq!(p.len(), 0);
    for &w in WIDTHS.iter() {
        assert_eq!(p.generate(w).unwrap(), 0);
        for v in [0u64, 1, 0xdead_beef, u64::MAX] {
            assert!(p.fit(v, w));
        }
    }
    assert_eq!(p.generate(0).unwrap(), 0);
    let spaces = BitsPattern::new("   ").unwrap();
    assert_eq!(p, spaces);
}

#[test]
fn format_error_reports_bad_character() {
    let e = BitsPattern::new("10x?").unwrap_err();
    assert_eq!(e.found, 'x');
    assert!(BitsPattern::new("2").is_err());
    assert!(BitsPattern::new("10?1_").is_err());
}

#[test]
fn width_error_on_too_long_pattern() {
    let p = BitsPattern::new("101010101").unwrap(); // 9 bits
    assert!(p.generate(8).is_err());
    assert!(p.generate(9).is_ok());
    assert!(p.generate(64).is_ok());
    let long: String = "0".repeat(65);
    let p = BitsPattern::new(&long).unwrap();
    assert!(p.generate(64).is_err());
}

#[test]
fn pattern_length_counts_significant_characters() {
    let p = BitsPattern::new("1 0 1").unwrap();
    assert_eq!(p.len(), 3);
}
