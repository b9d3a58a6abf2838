use chronos::state::{adjust_budget, get_my_ip, set_my_ip, State};

#[test]
fn state_starts_with_defaults() {
    let s = State::new();
    assert_eq!(s.cycle_budget, 2_500_000);
    assert_eq!(s.key_count, 0);
    assert_eq!(s.my_ip, 0);
    assert_eq!((s.screen_width, s.screen_height), (1024, 768));
    assert_eq!(get_my_ip(&s), [0, 0, 0, 0]);
}

#[test]
fn ip_is_packed_big_end_first() {
    let mut s = State::new();
    set_my_ip(&mut s, [10, 0, 2, 15]);
    assert_eq!(s.my_ip, 0x0a00_020f);
    assert_eq!(get_my_ip(&s), [10, 0, 2, 15]);
    set_my_ip(&mut s, [255, 254, 253, 252]);
    assert_eq!(s.my_ip, 0xfffe_fdfc);
    assert_eq!(get_my_ip(&s), [255, 254, 253, 252]);
    assert_eq!(s.cycle_budget, 2_500_000);
}

#[test]
fn budget_goes_up_and_down() {
    let mut s = State::new();
    adjust_budget(&mut s, 100_000);
    assert_eq!(s.cycle_budget, 2_600_000);
    adjust_budget(&mut s, -2_000_000);
    assert_eq!(s.cycle_budget, 600_000);
    adjust_budget(&mut s, -100_000);
    assert_eq!(s.cycle_budget, 500_000);
    adjust_budget(&mut s, -100_000);
    assert_eq!(s.cycle_budget, 500_000);
    adjust_budget(&mut s, 0);
    assert_eq!(s.cycle_budget, 500_000);
    adjust_budget(&mut s, 1);
    adjust_budget(&mut s, -500_001);
    assert_eq!(s.cycle_budget, 0);
}

#[test]
fn key_counter_wraps() {
    let mut s = State::new();
    s.count_key();
    s.count_key();
    assert_eq!(s.key_count, 2);
    s.key_count = u64::MAX;
    s.count_key();
    assert_eq!(s.key_count, 0);
}
