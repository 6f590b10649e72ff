use storage_node::app_state::AppState;
use storage_node::config::ConfigFromFile;
use storage_node::config_store::Monitor;
use storage_node::distribution_service::{
    distant_region, Dispatch, DistributionService, DistributionStep,
};
use storage_node::file_store::FileStoreFunc;
use storage_node::stat_store::Stats;

fn monitor(addr: &str, region: &str) -> Monitor {
    Monitor { addr: String::from(addr), bound: vec![String::from(region)] }
}

fn fleet() -> (Monitor, Vec<Monitor>) {
    (
        monitor("http://m1", "europe"),
        vec![
            monitor("http://m2", "europe"),
            monitor("http://m3", "asia"),
            monitor("http://m4", "asia"),
            monitor("http://m5", "oceania"),
        ],
    )
}

fn addrs(plan: &Vec<Dispatch>) -> Vec<String> {
    plan.iter().map(|d| d.monitor.addr.clone()).collect()
}

fn state() -> AppState {
    AppState::new(
        ConfigFromFile {
            fingerprint: String::from("node-1"),
            port: 8080,
            manager_addr: String::from("http://manager"),
            ipv6: None,
        },
        Stats {
            first_online: 1000,
            region: String::from("europe"),
            uptime: vec![8, 20],
            capacity: 1000,
            connection: 20000,
            uptime_counter: 0,
        },
        monitor("http://m1", "europe"),
        vec![monitor("http://m1", "europe")],
        false,
        false,
        "/state",
        vec![],
    )
}

#[test]
fn foreign_monitors_leave_out_the_own_address() {
    let own = monitor("http://m1", "europe");
    let all = vec![
        monitor("http://m2", "europe"),
        monitor("http://m1", "europe"),
        monitor("http://m3", "asia"),
        monitor("http://m1", "asia"),
    ];
    let foreign = DistributionService::foreign_monitors(&own, &all);
    let got: Vec<String> = foreign.iter().map(|m| m.addr.clone()).collect();
    assert_eq!(got, vec![String::from("http://m2"), String::from("http://m3")]);
}

#[test]
fn simple_distribution_reaches_every_monitor_with_three_replicas() {
    let (own, foreign) = fleet();
    let plan = DistributionService::simple_distribution("node-1", &own, &foreign, "abc");
    assert_eq!(
        addrs(&plan),
        vec!["http://m1", "http://m2", "http://m3", "http://m4", "http://m5"]
    );
    assert_eq!(plan[0].url, "http://m1/distribute/abc?forward=false");
    assert_eq!(plan[3].url, "http://m4/distribute/abc?forward=false");
    for (i, d) in plan.iter().enumerate() {
        assert_eq!(d.request.replications, 3);
        assert_eq!(d.request.fingerprint, "node-1");
        assert_eq!(d.request.to_own_monitor, i == 0);
    }
}

#[test]
fn a_request_to_the_address_of_the_own_monitor_says_so() {
    let own = monitor("http://m1", "europe");
    let others = vec![monitor("http://m2", "asia"), monitor("http://m1", "asia")];
    let plan = DistributionService::simple_distribution("node-1", &own, &others, "abc");
    assert_eq!(addrs(&plan), vec!["http://m1", "http://m2", "http://m1"]);
    assert!(plan[0].request.to_own_monitor);
    assert!(!plan[1].request.to_own_monitor);
    assert!(plan[2].request.to_own_monitor);
}

#[test]
fn non_prioritized_distribution_asks_for_all_replicas() {
    let (own, foreign) = fleet();
    let plan = DistributionService::non_prioritized_distribution("node-1", &own, &foreign, "abc");
    assert_eq!(plan.len(), 5);
    for (i, d) in plan.iter().enumerate() {
        assert_eq!(d.request.replications, -1);
        assert_eq!(d.request.to_own_monitor, i == 0);
    }
}

#[test]
fn group_monitors_groups_by_first_region_in_order_of_appearance() {
    let (own, foreign) = fleet();
    let groups = DistributionService::group_monitors(&own, &foreign);
    let got: Vec<Vec<String>> =
        groups.iter().map(|g| g.iter().map(|m| m.addr.clone()).collect()).collect();
    assert_eq!(
        got,
        vec![
            vec![String::from("http://m1"), String::from("http://m2")],
            vec![String::from("http://m3"), String::from("http://m4")],
            vec![String::from("http://m5")],
        ]
    );
}

#[test]
fn region_based_plan_follows_the_draws() {
    let (own, foreign) = fleet();
    let groups = DistributionService::group_monitors(&own, &foreign);
    let plan = DistributionService::region_based_plan("node-1", &own, &groups, "abc", &vec![1, 1, 0]);
    assert_eq!(addrs(&plan), vec!["http://m1", "http://m4", "http://m5"]);
    let plan = DistributionService::region_based_plan("node-1", &own, &groups, "abc", &vec![0, 0, 0]);
    assert_eq!(addrs(&plan), vec!["http://m1", "http://m3", "http://m5"]);
    assert!(plan[0].request.to_own_monitor);
    assert!(!plan[1].request.to_own_monitor);
    assert!(!plan[2].request.to_own_monitor);
    assert_eq!(plan[1].url, "http://m3/distribute/abc?forward=false");
}

#[test]
fn region_fan_out_placement() {
    let (own, foreign) = fleet();
    let mut seen_m3 = false;
    let mut seen_m4 = false;
    for _ in 0..200 {
        let plan = DistributionService::region_based_distribution("node-1", &own, &foreign, "abc");
        assert_eq!(plan.len(), 3);
        assert_eq!(plan[0].monitor.addr, "http://m1");
        assert!(plan[0].request.to_own_monitor);
        assert!(plan[1].monitor.addr == "http://m3" || plan[1].monitor.addr == "http://m4");
        assert!(!plan[1].request.to_own_monitor);
        assert_eq!(plan[2].monitor.addr, "http://m5");
        assert!(!plan[2].request.to_own_monitor);
        for d in plan.iter() {
            assert_eq!(d.request.replications, 2);
            assert_eq!(d.request.fingerprint, "node-1");
            assert_eq!(d.url, format!("{}/distribute/abc?forward=false", d.monitor.addr));
        }
        seen_m3 = seen_m3 || plan[1].monitor.addr == "http://m3";
        seen_m4 = seen_m4 || plan[1].monitor.addr == "http://m4";
    }
    assert!(seen_m3 && seen_m4);
}

#[test]
fn region_based_distribution_of_a_lone_monitor() {
    let own = monitor("http://m1", "europe");
    let plan = DistributionService::region_based_distribution("node-1", &own, &vec![], "abc");
    assert_eq!(addrs(&plan), vec!["http://m1"]);
    assert!(plan[0].request.to_own_monitor);
}

#[test]
fn distant_regions() {
    let distant = |r: &str| distant_region(&String::from(r));
    assert_eq!(distant("europe"), Some(String::from("south_america")));
    assert_eq!(distant("south_america"), Some(String::from("europe")));
    assert_eq!(distant("north_america"), Some(String::from("oceania")));
    assert_eq!(distant("asia"), Some(String::from("north_america")));
    assert_eq!(distant("oceania"), Some(String::from("europe")));
    assert_eq!(distant("africa"), None);
    assert_eq!(distant(""), None);
}

#[test]
fn locale_policy_needs_a_monitor_in_the_distant_region() {
    let (own, foreign) = fleet();
    assert!(!DistributionService::locale_is_placeable(&own, &foreign));
    let mut more = foreign.clone();
    more.push(monitor("http://m6", "south_america"));
    assert!(DistributionService::locale_is_placeable(&own, &more));
    let lost = monitor("http://m0", "africa");
    assert!(!DistributionService::locale_is_placeable(&lost, &more));
}

#[test]
fn locale_based_plan_follows_the_draws() {
    let own = monitor("http://m1", "europe");
    let foreign = vec![
        monitor("http://m2", "europe"),
        monitor("http://m3", "europe"),
        monitor("http://m6", "south_america"),
        monitor("http://m7", "south_america"),
    ];
    let groups = DistributionService::group_monitors(&own, &foreign);
    let plan = DistributionService::locale_based_plan("node-1", &own, &groups, "abc", &vec![0, 2], 1);
    assert_eq!(addrs(&plan), vec!["http://m1", "http://m3", "http://m7"]);
    assert!(plan[0].request.to_own_monitor);
    assert!(!plan[1].request.to_own_monitor);
    let plan = DistributionService::locale_based_plan("node-1", &own, &groups, "abc", &vec![1, 2], 0);
    assert_eq!(addrs(&plan), vec!["http://m2", "http://m1", "http://m6"]);
    assert!(!plan[0].request.to_own_monitor);
    assert!(plan[1].request.to_own_monitor);
    for d in plan.iter() {
        assert_eq!(d.request.replications, 2);
    }
}

#[test]
fn locale_distribution_keeps_two_near_and_sends_one_far() {
    let own = monitor("http://m1", "europe");
    let foreign = vec![
        monitor("http://m2", "europe"),
        monitor("http://m3", "europe"),
        monitor("http://m5", "oceania"),
        monitor("http://m6", "south_america"),
        monitor("http://m7", "south_america"),
    ];
    for _ in 0..100 {
        let plan = DistributionService::locale_distribution("node-1", &own, &foreign, "abc");
        assert_eq!(plan.len(), 3);
        assert_eq!(plan[0].monitor.bound[0], "europe");
        assert_eq!(plan[1].monitor.bound[0], "europe");
        assert!(plan[0].monitor.addr != plan[1].monitor.addr);
        let own_count = plan.iter().filter(|d| d.monitor.addr == "http://m1").count();
        assert_eq!(own_count, 1);
        assert_eq!(plan[2].monitor.bound[0], "south_america");
        for d in plan.iter() {
            assert_eq!(d.request.replications, 2);
            assert_eq!(d.request.to_own_monitor, d.monitor.addr == "http://m1");
            assert_eq!(d.url, format!("{}/distribute/abc?forward=false", d.monitor.addr));
        }
    }
}

#[test]
fn locale_distribution_of_a_lone_own_monitor() {
    let own = monitor("http://m1", "asia");
    let foreign = vec![monitor("http://m8", "north_america")];
    let plan = DistributionService::locale_distribution("node-1", &own, &foreign, "abc");
    assert_eq!(addrs(&plan), vec!["http://m1", "http://m8"]);
}

#[test]
fn next_step_takes_the_oldest_hash_or_rests() {
    let service = DistributionService::new(10);
    assert_eq!(service.timeout, 10);
    let mut state = state();
    assert!(matches!(service.next_step(&mut state), DistributionStep::Sleep(10)));
    state.file_store.insert_file_to_distribute("h1");
    state.file_store.insert_file_to_distribute("h2");
    match service.next_step(&mut state) {
        DistributionStep::Distribute(hash) => assert_eq!(hash, "h1"),
        DistributionStep::Sleep(_) => panic!("a hash was queued"),
    }
    match service.next_step(&mut state) {
        DistributionStep::Distribute(hash) => assert_eq!(hash, "h2"),
        DistributionStep::Sleep(_) => panic!("a hash was queued"),
    }
    assert!(matches!(service.next_step(&mut state), DistributionStep::Sleep(10)));
}
