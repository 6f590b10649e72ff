use storage_node::stat_store::{Ratio, StatStore, StatStoreFunc, Stats};

fn stats(connection: u32) -> Stats {
    Stats {
        first_online: 1000,
        region: String::from("europe"),
        uptime: vec![8, 20],
        capacity: 4000,
        connection,
        uptime_counter: 500,
    }
}

fn store(connection: u32) -> StatStore {
    StatStore::new_at(stats(connection), String::from("/state"), 5000)
}

#[test]
fn connection_rating_steps() {
    assert_eq!(store(0).connection_rating(), Ratio { num: 1, den: 10 });
    assert_eq!(store(5999).connection_rating(), Ratio { num: 1, den: 10 });
    assert_eq!(store(6000).connection_rating(), Ratio { num: 3, den: 10 });
    assert_eq!(store(15999).connection_rating(), Ratio { num: 3, den: 10 });
    assert_eq!(store(16000).connection_rating(), Ratio { num: 4, den: 10 });
    assert_eq!(store(49999).connection_rating(), Ratio { num: 4, den: 10 });
    assert_eq!(store(50000).connection_rating(), Ratio { num: 6, den: 10 });
    assert_eq!(store(199999).connection_rating(), Ratio { num: 6, den: 10 });
    assert_eq!(store(200000).connection_rating(), Ratio { num: 8, den: 10 });
    assert_eq!(store(999999).connection_rating(), Ratio { num: 8, den: 10 });
    assert_eq!(store(1000000).connection_rating(), Ratio { num: 10, den: 10 });
    assert_eq!(store(u32::MAX).connection_rating(), Ratio { num: 10, den: 10 });
}

#[test]
fn uptime_rating_is_the_window_over_the_day() {
    assert_eq!(store(1).uptime_rating(), Ratio { num: 12, den: 24 });
}

#[test]
fn uptime_rating_of_a_reversed_window_is_negative() {
    let mut s = stats(1);
    s.uptime = vec![20, 8];
    let st = StatStore::new_at(s, String::from("/state"), 5000);
    assert_eq!(st.uptime_rating(), Ratio { num: -12, den: 24 });
}

#[test]
fn uptime_left_rating_is_minutes_left_over_the_window() {
    assert_eq!(store(1).uptime_left_rating_at(90), Ratio { num: 90, den: 720 });
    assert_eq!(store(1).uptime_left_rating_at(-30), Ratio { num: -30, den: 720 });
}

#[test]
fn capacity_rating_is_what_is_left_over_the_quota() {
    assert_eq!(store(1).capacity_rating(1000), Ratio { num: 1000, den: 4000 });
    assert_eq!(store(1).capacity_rating(u64::MAX), Ratio { num: u64::MAX as i128, den: 4000 });
}

#[test]
fn uptime_count_rating_is_seconds_seen_over_seconds_since_first_online() {
    assert_eq!(store(1).uptime_count_rating_at(3000), Ratio { num: 500, den: 2000 });
}

#[test]
fn uptime_count_rating_is_zero_at_the_first_second() {
    assert_eq!(store(1).uptime_count_rating_at(1000), Ratio { num: 0, den: 1 });
}

#[test]
fn uptime_count_rating_before_first_online_has_a_negative_divisor() {
    assert_eq!(store(1).uptime_count_rating_at(900), Ratio { num: 500, den: -100 });
}

#[test]
fn total_rating_collects_the_five_parts() {
    let rating = store(20000).total_rating_at(1000, 3000, Some(90));
    assert_eq!(rating.connection, Ratio { num: 4, den: 10 });
    assert_eq!(rating.capacity, Ratio { num: 1000, den: 4000 });
    assert_eq!(rating.uptime, Ratio { num: 12, den: 24 });
    assert_eq!(rating.uptime_left, Some(Ratio { num: 90, den: 720 }));
    assert_eq!(rating.uptime_count, Ratio { num: 500, den: 2000 });
    assert_eq!(store(20000).total_rating_at(1000, 3000, None).uptime_left, None);
}

#[test]
fn total_rating_by_the_clock() {
    let rating = store(20000).total_rating(1000);
    assert_eq!(rating.connection, Ratio { num: 4, den: 10 });
    assert_eq!(rating.capacity, Ratio { num: 1000, den: 4000 });
    assert_eq!(rating.uptime, Ratio { num: 12, den: 24 });
    assert_eq!(rating.uptime_count.num, 500);
    assert!(rating.uptime_count.den > 1_600_000_000);
    if let Some(left) = rating.uptime_left {
        assert_eq!(left.den, 720);
        assert!(left.num > -24 * 60 && left.num <= 24 * 60);
    }
}

#[test]
fn clock_ratings_agree_with_the_stored_values() {
    let st = store(1);
    let count = st.uptime_count_rating();
    assert_eq!(count.num, 500);
    assert!(count.den > 1_600_000_000);
    if let Some(left) = st.uptime_left_rating() {
        assert_eq!(left.den, 720);
    }
}

#[test]
fn new_store_notes_the_first_start_once() {
    let mut s = stats(1);
    s.first_online = 0;
    let st = StatStore::new_at(s, String::from("/state"), 777);
    assert_eq!(st.stats.first_online, 777);
    assert_eq!(st.path, "/state");
    let kept = StatStore::new_at(stats(1), String::from("/state"), 777);
    assert_eq!(kept.stats.first_online, 1000);
}

#[test]
fn new_store_by_the_clock() {
    let mut s = stats(1);
    s.first_online = 0;
    let st = StatStore::new(s, String::from("/state"));
    assert!(st.stats.first_online > 1_600_000_000);
    let kept = StatStore::new(stats(1), String::from("/state"));
    assert_eq!(kept.stats.first_online, 1000);
    assert_eq!(kept.stats.region, "europe");
}

#[test]
fn increase_uptime_counter_adds_the_seconds() {
    let mut st = store(1);
    st.increase_uptime_counter(30);
    assert_eq!(st.stats.uptime_counter, 530);
    st.increase_uptime_counter(0);
    assert_eq!(st.stats.uptime_counter, 530);
}

#[test]
fn uptime_left_rating_of_a_window_that_ends_at_no_hour_of_the_day() {
    let mut s = stats(1);
    s.uptime = vec![8, 24];
    let st = StatStore::new_at(s, String::from("/state"), 5000);
    assert_eq!(st.uptime_left_rating(), None);
    let mut s = stats(1);
    s.uptime = vec![8, u32::MAX];
    let st = StatStore::new_at(s, String::from("/state"), 5000);
    assert_eq!(st.uptime_left_rating(), None);
    assert_eq!(st.total_rating(1000).uptime_left, None);
}
