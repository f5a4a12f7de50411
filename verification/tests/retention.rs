use webpaste::config::{Config, MAX_EXPIRE_AGE, MAX_FILE_SIZE, MIN_EXPIRE_AGE};
use webpaste::retention::calc_retention;

#[test]
fn empty_file_is_kept_longest() {
    let config = Config::default();
    assert!(config.check());
    assert_eq!(calc_retention(&config, 0), MAX_EXPIRE_AGE);
    assert_eq!(calc_retention(&config, 0), 31_536_000);
}

#[test]
fn file_at_the_ceiling_is_kept_shortest() {
    let config = Config::default();
    assert_eq!(calc_retention(&config, MAX_FILE_SIZE), MIN_EXPIRE_AGE);
    assert_eq!(calc_retention(&config, MAX_FILE_SIZE), 2_592_000);
}

#[test]
fn retention_follows_the_cubic_curve() {
    let config = Config::default();
    assert_eq!(calc_retention(&config, 5), 31_535_999);
    assert_eq!(calc_retention(&config, 1024 * 1024), 31_366_737);
    assert_eq!(calc_retention(&config, 100 * 1024 * 1024), 17_673_353);
    assert_eq!(calc_retention(&config, MAX_FILE_SIZE / 2), 6_210_000);
    assert_eq!(calc_retention(&config, MAX_FILE_SIZE - 1), 2_592_000);
}

#[test]
fn retention_never_grows_with_size() {
    let config = Config::default();
    let mut last = calc_retention(&config, 0);
    let mut size: usize = 0;
    while size <= MAX_FILE_SIZE {
        let now = calc_retention(&config, size);
        assert!(now <= last);
        assert!(MIN_EXPIRE_AGE <= now && now <= MAX_EXPIRE_AGE);
        last = now;
        size += 4 * 1024 * 1024 + 17;
    }
}

#[test]
fn retention_on_other_settings() {
    let mut config = Config::default();
    config.min_expire_duration = 10;
    config.max_expire_duration = 110;
    config.max_file_size = 10;
    assert!(config.check());
    assert_eq!(calc_retention(&config, 0), 110);
    assert_eq!(calc_retention(&config, 1), 82);
    assert_eq!(calc_retention(&config, 5), 22);
    assert_eq!(calc_retention(&config, 9), 10);
    assert_eq!(calc_retention(&config, 10), 10);
}

#[test]
fn equal_bounds_give_a_flat_curve() {
    let mut config = Config::default();
    config.min_expire_duration = 60;
    config.max_expire_duration = 60;
    config.max_file_size = usize::MAX;
    assert!(config.check());
    assert_eq!(calc_retention(&config, 0), 60);
    assert_eq!(calc_retention(&config, 12345), 60);
}

#[test]
fn settings_outside_the_curve_are_told_apart() {
    let mut config = Config::default();
    config.min_expire_duration = -1;
    assert!(!config.check());

    let mut config = Config::default();
    config.min_expire_duration = config.max_expire_duration + 1;
    assert!(!config.check());

    let mut config = Config::default();
    config.max_file_size = 0;
    assert!(!config.check());

    let mut config = Config::default();
    config.min_expire_duration = 0;
    config.max_expire_duration = i64::MAX;
    config.max_file_size = usize::MAX;
    assert!(config.check());
}

fn curve(min: i64, max: i64, ceiling: u64, size: u64) -> i64 {
    let mut config = Config::default();
    config.min_expire_duration = min;
    config.max_expire_duration = max;
    config.max_file_size = ceiling as usize;
    assert!(config.check());
    calc_retention(&config, size as usize)
}

#[test]
fn the_curve_is_exact_on_the_largest_settings() {
    if usize::BITS < 64 {
        return;
    }
    let m = u64::MAX;
    assert_eq!(curve(0, i64::MAX, m, 0), 9_223_372_036_854_775_807);
    assert_eq!(curve(0, i64::MAX, m, 1), 9_223_372_036_854_775_805);
    assert_eq!(curve(0, i64::MAX, m, 6_148_914_691_236_517_205), 2_732_850_973_882_896_535);
    assert_eq!(curve(0, i64::MAX, m, m - 1), 0);
    assert_eq!(curve(0, i64::MAX, m, m), 0);
    assert_eq!(curve(7, i64::MAX, m, 12_345_678_901_234_567), 9_204_865_909_452_646_302);
    assert_eq!(
        curve(0, i64::MAX, 1_099_511_627_776, 549_755_826_233),
        1_152_921_426_938_824_399
    );
    assert_eq!(curve(2_592_000, 31_536_000, 1_099_511_627_776, 1_073_741_824), 31_451_285);
    assert_eq!(
        curve(1, 1_000_000_000_000_000_000, 10_000_000_000_000_000_000, 3_000_000_000_000_000_000),
        343_000_000_000_000_000
    );
}

#[test]
fn the_curve_agrees_with_wide_arithmetic_on_small_settings() {
    for ceiling in 1u64..=12 {
        for span in [0i64, 1, 2, 7, 100, 1001] {
            for size in 0..=ceiling {
                let room = (ceiling - size) as i128;
                let exact = 5 + (span as i128 * room * room * room)
                    / (ceiling as i128 * ceiling as i128 * ceiling as i128);
                assert_eq!(curve(5, 5 + span, ceiling, size) as i128, exact);
            }
        }
    }
}
