use gshot::decimal::{decimal_text, padded_decimal, parse_u32};
use gshot::score::{
    high_score_from_text, high_score_save, should_save_score, tip_follows_player, tip_split_count,
    GameScore, EXACT_SCORE_LIMIT,
};

#[test]
fn add_score_accumulates() {
    let mut s = GameScore::new();
    assert!(!s.add_score(300));
    assert!(!s.add_score(900));
    assert_eq!(s.get_score(), 1200);
}

#[test]
fn add_score_earns_life_at_each_multiple() {
    let mut s = GameScore::new();
    assert!(!s.add_score(49_999));
    assert!(s.add_score(1));
    assert_eq!(s.get_score(), 50_000);
    assert!(!s.add_score(49_999));
    assert!(s.add_score(10_000));
    assert_eq!(s.get_score(), 109_999);
}

#[test]
fn add_score_crossing_two_multiples_earns_one_signal() {
    let mut s = GameScore::new();
    assert!(s.add_score(120_000));
    assert_eq!(s.get_score(), 120_000);
}

#[test]
fn reset_score_clears() {
    let mut s = GameScore::new();
    s.add_score(777);
    s.reset_score();
    assert_eq!(s.get_score(), 0);
}

#[test]
fn sub_score_saturates_at_zero() {
    let mut s = GameScore::new();
    s.add_score(500);
    s.sub_score(200);
    assert_eq!(s.get_score(), 300);
    s.sub_score(1000);
    assert_eq!(s.get_score(), 0);
}

#[test]
fn sub_score_negative_empties() {
    let mut s = GameScore::new();
    s.add_score(4_000_000);
    s.sub_score(-1);
    assert_eq!(s.get_score(), 0);
}

#[test]
fn padded_decimal_pads_to_width() {
    let t: String = padded_decimal(1234, 7).into_iter().collect();
    assert_eq!(t, "0001234");
    let t: String = padded_decimal(0, 7).into_iter().collect();
    assert_eq!(t, "0000000");
    let t: String = padded_decimal(123_456_789, 7).into_iter().collect();
    assert_eq!(t, "123456789");
}

#[test]
fn padded_decimal_matches_format() {
    for v in [0u64, 7, 10, 99, 100, 9_999_999, 10_000_000, u64::MAX] {
        let t: String = padded_decimal(v, 7).into_iter().collect();
        assert_eq!(t, format!("{:0>7}", v));
    }
}

#[test]
fn padded_decimal_reads_back() {
    let t: String = padded_decimal(50_300, 7).into_iter().collect();
    assert_eq!(t.parse::<u64>().unwrap(), 50_300);
}

#[test]
fn high_score_parses_plain_number() {
    assert_eq!(high_score_from_text(b"12345"), 12345);
    assert_eq!(high_score_from_text(b"+42"), 42);
    assert_eq!(high_score_from_text(b"0007"), 7);
    assert_eq!(high_score_from_text(b"4294967295"), 4_294_967_295);
}

#[test]
fn high_score_refuses_other_text() {
    assert_eq!(high_score_from_text(b""), 0);
    assert_eq!(high_score_from_text(b"+"), 0);
    assert_eq!(high_score_from_text(b"-5"), 0);
    assert_eq!(high_score_from_text(b"12a"), 0);
    assert_eq!(high_score_from_text(b" 12"), 0);
    assert_eq!(high_score_from_text(b"12\n"), 0);
    assert_eq!(high_score_from_text(b"4294967296"), 0);
    assert_eq!(high_score_from_text(b"99999999999999999999"), 0);
}

#[test]
fn high_score_matches_std_parse() {
    for t in ["", "0", "+1", "++1", "-0", "4294967295", "4294967296", "12 ", "x", "007"] {
        assert_eq!(high_score_from_text(t.as_bytes()), t.parse::<u32>().unwrap_or(0));
    }
}

#[test]
fn save_unless_high_score_is_greater() {
    assert!(should_save_score(100, 100));
    assert!(should_save_score(100, 200));
    assert!(!should_save_score(300, 200));
}

#[test]
fn tip_split_rounds_up() {
    assert_eq!(tip_split_count(0), 0);
    assert_eq!(tip_split_count(1), 1);
    assert_eq!(tip_split_count(30), 15);
    assert_eq!(tip_split_count(100), 50);
    assert_eq!(tip_split_count(5), 3);
    for n in 0usize..200 {
        assert_eq!(tip_split_count(n), (n as f32 * 0.5).ceil() as usize);
    }
}

#[test]
fn tips_follow_idle_player() {
    assert!(tip_follows_player(false, false, false));
    assert!(!tip_follows_player(true, false, false));
    assert!(tip_follows_player(true, true, false));
    assert!(!tip_follows_player(false, true, true));
}

#[test]
fn score_from_saved_value() {
    let mut s = GameScore::from_score(49_000);
    assert_eq!(s.get_score(), 49_000);
    assert!(s.add_score(1_000));
}

#[test]
fn lives_signalled_match_multiples_passed() {
    let gains = [300u32, 900, 2500, 10000, 50000, 300, 100, 49_999, 1, 50000];
    let mut s = GameScore::new();
    let mut signalled = 0;
    for g in gains {
        if s.add_score(g) {
            signalled += 1;
        }
    }
    assert_eq!(signalled, s.get_score() / 50000);
}

#[test]
fn parse_u32_like_std() {
    for t in ["", "0", "+1", "++1", "-0", "4294967295", "4294967296", "12 ", "x", "007", "+"] {
        assert_eq!(parse_u32(t.as_bytes()), t.parse::<u32>().ok());
    }
}

#[test]
fn counters_show_only_digits() {
    for v in [0u64, 5, 1234567, 98765432109] {
        assert!(padded_decimal(v, 7).iter().all(|c| c.is_ascii_digit()));
    }
}

#[test]
fn life_up_matches_single_precision_within_limit() {
    let starts = [0u32, 49_999, 50_000, 99_999, 16_749_990, 16_749_999, 16_777_000];
    let adds = [0u32, 1, 9, 10, 100, 300, 2500, 50_000];
    for start in starts {
        for add in adds {
            if start + add > EXACT_SCORE_LIMIT {
                continue;
            }
            let mut s = GameScore::from_score(start);
            let want = ((start + add) as f32 / 50000.0).floor() > (start as f32 / 50000.0).floor();
            assert_eq!(s.add_score(add), want, "{} + {}", start, add);
        }
    }
}

#[test]
fn decimal_text_is_format() {
    for v in [0u32, 7, 10, 50_000, u32::MAX] {
        assert_eq!(decimal_text(v), format!("{}", v).into_bytes());
        assert_eq!(high_score_from_text(&decimal_text(v)), v);
    }
}

#[test]
fn high_score_save_keeps_the_best() {
    assert_eq!(high_score_save(b"", 0), Some(b"0".to_vec()));
    assert_eq!(high_score_save(b"1200", 900), None);
    assert_eq!(high_score_save(b"1200", 1200), Some(b"1200".to_vec()));
    assert_eq!(high_score_save(b"1200", 50_300), Some(b"50300".to_vec()));
    assert_eq!(high_score_save(b"junk", 5), Some(b"5".to_vec()));
}
