//! The node's descriptors and the parts of its rating.
//!
//! Each part of the rating is kept as an exact quotient of two integers; the
//! weights are applied where the ping is put on the wire.

use vstd::prelude::*;
use crate::clock::{minutes_until, unix_now};

verus! {

/// A quotient `num / den` of two integers, kept unreduced. A zero `den` is
/// allowed: the quotient is then not a number.
#[derive(Clone, Copy, Debug, PartialEq, Eq, Structural)]
pub struct Ratio {
    pub num: i128,
    pub den: i128,
}

/// The descriptors of a node.
pub struct Stats {
    /// When the node first went online, in seconds since the Unix epoch;
    /// zero before that.
    pub first_online: u64,
    pub region: String,
    /// The hours of the day between which the operator keeps the node
    /// online: the first hour, then the last.
    pub uptime: Vec<u32>,
    /// The declared quota in bytes.
    pub capacity: u64,
    /// The speed of the connection in kbit/s.
    pub connection: u32,
    /// The seconds that the node has been seen online.
    pub uptime_counter: u64,
}

/// What a [`Stats`] holds.
pub struct StatsView {
    pub first_online: u64,
    pub region: Seq<char>,
    pub uptime: Seq<u32>,
    pub capacity: u64,
    pub connection: u32,
    pub uptime_counter: u64,
}

impl View for Stats {
    type V = StatsView;

    open spec fn view(&self) -> StatsView {
        StatsView {
            first_online: self.first_online,
            region: self.region@,
            uptime: self.uptime@,
            capacity: self.capacity,
            connection: self.connection,
            uptime_counter: self.uptime_counter,
        }
    }
}

/// The five parts of a node's rating.
#[derive(Clone, Copy, Debug, PartialEq, Eq, Structural)]
pub struct Rating {
    pub connection: Ratio,
    pub capacity: Ratio,
    pub uptime: Ratio,
    /// Nothing where the local clock has no unique time for the last hour
    /// of the window today.
    pub uptime_left: Option<Ratio>,
    pub uptime_count: Ratio,
}

impl StatsView {
    /// The descriptors name both ends of the uptime window.
    pub open spec fn wf(self) -> bool {
        self.uptime.len() >= 2
    }

    /// The tenths that the connection speed is worth.
    pub open spec fn connection_tenths(self) -> int {
        if self.connection < 6000 {
            1
        } else if self.connection < 16000 {
            3
        } else if self.connection < 50000 {
            4
        } else if self.connection < 200000 {
            6
        } else if self.connection < 1000000 {
            8
        } else {
            10
        }
    }

    /// The hours of the uptime window.
    pub open spec fn window_hours(self) -> int {
        self.uptime[1] - self.uptime[0]
    }

    /// The rating of the connection speed.
    pub open spec fn connection_rating(self) -> Ratio {
        Ratio { num: self.connection_tenths() as i128, den: 10 }
    }

    /// The share of the quota that is left.
    pub open spec fn capacity_rating(self, capacity_left: u64) -> Ratio {
        Ratio { num: capacity_left as i128, den: self.capacity as i128 }
    }

    /// The share of the day that the window covers.
    pub open spec fn uptime_rating(self) -> Ratio {
        Ratio { num: self.window_hours() as i128, den: 24 }
    }

    /// The share of the window that lies ahead, `minutes_left` minutes
    /// before its last hour.
    pub open spec fn uptime_left_rating(self, minutes_left: i64) -> Ratio {
        Ratio { num: minutes_left as i128, den: (self.window_hours() * 60) as i128 }
    }

    /// The share of the time since the node first went online that it has
    /// been seen online; zero at the very second it first went online.
    pub open spec fn uptime_count_rating(self, now: i64) -> Ratio {
        if now - self.first_online == 0 {
            Ratio { num: 0, den: 1 }
        } else {
            Ratio { num: self.uptime_counter as i128, den: (now - self.first_online) as i128 }
        }
    }

    /// All five parts of the rating.
    pub open spec fn total_rating(self, capacity_left: u64, now: i64, minutes_left: Option<i64>) -> Rating {
        Rating {
            connection: self.connection_rating(),
            capacity: self.capacity_rating(capacity_left),
            uptime: self.uptime_rating(),
            uptime_left: match minutes_left {
                Some(m) => Some(self.uptime_left_rating(m)),
                None => None,
            },
            uptime_count: self.uptime_count_rating(now),
        }
    }

    /// The descriptors with the time of the first start filled in, where it
    /// was not yet known.
    pub open spec fn started_at(self, now: i64) -> StatsView {
        if self.first_online == 0 {
            StatsView { first_online: now as u64, ..self }
        } else {
            self
        }
    }
}

/// The descriptors of a node, with the state directory they are kept in.
pub struct StatStore {
    pub stats: Stats,
    pub path: String,
}

/// What a [`StatStore`] holds.
pub struct StatStoreView {
    pub stats: StatsView,
    pub path: Seq<char>,
}

impl View for StatStore {
    type V = StatStoreView;

    open spec fn view(&self) -> StatStoreView {
        StatStoreView { stats: self.stats@, path: self.path@ }
    }
}

/// The operations of the descriptor store.
pub trait StatStoreFunc: Sized + View<V = StatStoreView> {
    /// A store of the given descriptors. Where they do not yet say when the
    /// node first went online, the time `now` is noted.
    fn new_at(stats: Stats, path: String, now: i64) -> (store: StatStore)
        ensures
            store@ == (StatStoreView { stats: stats@.started_at(now), path: path@ }),
    ;

    /// A store of the given descriptors. Where they do not yet say when the
    /// node first went online, the time of the system clock is noted.
    fn new(stats: Stats, path: String) -> (store: StatStore)
        ensures
            exists|now: i64|
                store@ == (StatStoreView { stats: #[trigger] stats@.started_at(now), path: path@ }),
    ;

    /// All parts of the rating, for the given readings of the clock.
    fn total_rating_at(&self, capacity_left: u64, now: i64, minutes_left: Option<i64>) -> (rating: Rating)
        requires
            self@.stats.wf(),
        ensures
            rating == self@.stats.total_rating(capacity_left, now, minutes_left),
    ;

    /// All parts of the rating, by the system clock.
    fn total_rating(&self, capacity_left: u64) -> (rating: Rating)
        requires
            self@.stats.wf(),
        ensures
            exists|now: i64, minutes_left: Option<i64>|
                rating == #[trigger] self@.stats.total_rating(capacity_left, now, minutes_left),
    ;

    /// The rating of the connection speed, in tenths.
    fn connection_rating(&self) -> (rating: Ratio)
        ensures
            rating == self@.stats.connection_rating(),
    ;

    /// The share of the quota that is left.
    fn capacity_rating(&self, capacity_left: u64) -> (rating: Ratio)
        ensures
            rating == self@.stats.capacity_rating(capacity_left),
    ;

    /// The share of the day that the uptime window covers.
    fn uptime_rating(&self) -> (rating: Ratio)
        requires
            self@.stats.wf(),
        ensures
            rating == self@.stats.uptime_rating(),
    ;

    /// The share of the uptime window that lies ahead, `minutes_left`
    /// minutes before its last hour; negative once the hour has passed.
    fn uptime_left_rating_at(&self, minutes_left: i64) -> (rating: Ratio)
        requires
            self@.stats.wf(),
        ensures
            rating == self@.stats.uptime_left_rating(minutes_left),
    ;

    /// The share of the uptime window that lies ahead, by the system clock;
    /// nothing where the window's last hour is no hour of the day, or where
    /// the local clock has no unique time for it today.
    fn uptime_left_rating(&self) -> (rating: Option<Ratio>)
        requires
            self@.stats.wf(),
        ensures
            self@.stats.uptime[1] >= 24 ==> rating is None,
            rating is Some ==> exists|minutes_left: i64|
                rating->0 == #[trigger] self@.stats.uptime_left_rating(minutes_left),
    ;

    /// The share of the time since the node first went online, up to `now`,
    /// that it has been seen online.
    fn uptime_count_rating_at(&self, now: i64) -> (rating: Ratio)
        ensures
            rating == self@.stats.uptime_count_rating(now),
    ;

    /// The share of the time since the node first went online that it has
    /// been seen online, by the system clock.
    fn uptime_count_rating(&self) -> (rating: Ratio)
        ensures
            exists|now: i64| rating == #[trigger] self@.stats.uptime_count_rating(now),
    ;

    /// Adds the seconds to the time that the node has been seen online.
    fn increase_uptime_counter(&mut self, inc: u64)
        requires
            old(self)@.stats.uptime_counter + inc <= u64::MAX,
        ensures
            final(self)@ == (StatStoreView {
                stats: StatsView {
                    uptime_counter: (old(self)@.stats.uptime_counter + inc) as u64,
                    ..old(self)@.stats
                },
                ..old(self)@
            }),
    ;
}

impl StatStoreFunc for StatStore {
    fn new_at(stats: Stats, path: String, now: i64) -> (store: StatStore) {
        let mut stats = stats;
        if stats.first_online == 0 {
            stats.first_online = now as u64;
        }
        StatStore { stats, path }
    }

    fn new(stats: Stats, path: String) -> (store: StatStore) {
        let now = unix_now();
        let store = StatStore::new_at(stats, path, now);
        assert(store@ == (StatStoreView { stats: stats@.started_at(now), path: path@ }));
        store
    }

    fn total_rating_at(&self, capacity_left: u64, now: i64, minutes_left: Option<i64>) -> (rating: Rating) {
        Rating {
            connection: self.connection_rating(),
            capacity: self.capacity_rating(capacity_left),
            uptime: self.uptime_rating(),
            uptime_left: match minutes_left {
                Some(m) => Some(self.uptime_left_rating_at(m)),
                None => None,
            },
            uptime_count: self.uptime_count_rating_at(now),
        }
    }

    fn total_rating(&self, capacity_left: u64) -> (rating: Rating) {
        let minutes_left = minutes_until(self.stats.uptime[1], 0, 0);
        let now = unix_now();
        let rating = self.total_rating_at(capacity_left, now, minutes_left);
        assert(rating == self@.stats.total_rating(capacity_left, now, minutes_left));
        rating
    }

    fn connection_rating(&self) -> (rating: Ratio) {
        let speed = self.stats.connection;
        let tenths: i128 = if speed < 6000 {
            1
        } else if speed < 16000 {
            3
        } else if speed < 50000 {
            4
        } else if speed < 200000 {
            6
        } else if speed < 1000000 {
            8
        } else {
            10
        };
        Ratio { num: tenths, den: 10 }
    }

    fn capacity_rating(&self, capacity_left: u64) -> (rating: Ratio) {
        Ratio { num: capacity_left as i128, den: self.stats.capacity as i128 }
    }

    fn uptime_rating(&self) -> (rating: Ratio) {
        let up = self.stats.uptime[0] as i128;
        let down = self.stats.uptime[1] as i128;
        Ratio { num: down - up, den: 24 }
    }

    fn uptime_left_rating_at(&self, minutes_left: i64) -> (rating: Ratio) {
        let up = self.stats.uptime[0] as i128;
        let down = self.stats.uptime[1] as i128;
        Ratio { num: minutes_left as i128, den: (down - up) * 60 }
    }

    fn uptime_left_rating(&self) -> (rating: Option<Ratio>) {
        match minutes_until(self.stats.uptime[1], 0, 0) {
            Some(minutes_left) => {
                let rating = self.uptime_left_rating_at(minutes_left);
                assert(rating == self@.stats.uptime_left_rating(minutes_left));
                Some(rating)
            },
            None => None,
        }
    }

    fn uptime_count_rating_at(&self, now: i64) -> (rating: Ratio) {
        let total_seconds = now as i128 - self.stats.first_online as i128;
        if total_seconds == 0 {
            Ratio { num: 0, den: 1 }
        } else {
            Ratio { num: self.stats.uptime_counter as i128, den: total_seconds }
        }
    }

    fn uptime_count_rating(&self) -> (rating: Ratio) {
        let now = unix_now();
        let rating = self.uptime_count_rating_at(now);
        assert(rating == self@.stats.uptime_count_rating(now));
        rating
    }

    fn increase_uptime_counter(&mut self, inc: u64) {
        self.stats.uptime_counter = self.stats.uptime_counter + inc;
    }
}

} // verus!
