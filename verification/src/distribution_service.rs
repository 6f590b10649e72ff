//! Placement of newly stored files: which monitors are asked to replicate a
//! file, and with what request, under each placement policy.

use vstd::prelude::*;
use rand::seq::IteratorRandom;
use rand::thread_rng;
use crate::app_state::{AppState, AppStateView};
use crate::config_store::{monitor_views, option_view, Monitor, MonitorView};
use crate::file_store::{FileStoreFunc, FileStoreView};
use crate::http_requests::{distribute_url, DistributionRequest};
use crate::placement::{
    DispatchView, add_to_groups, all_bound, broadcast_plan, dispatch_to, distant_region_of,
    foreign_of, group_position, grouped, has_addr, lemma_add_keeps_partitioned,
    lemma_group_position, lemma_grouped_covers, lemma_locale_plan_near_and_far,
    lemma_region_plan_one_per_region, locale_picked, locale_placeable, locale_plan, members_at,
    near_and_far, one_per_region, partitioned, region_of, region_plan, valid_draw, valid_picks,
};

verus! {

/// The contents of a list of groups of monitors.
pub open spec fn group_views(groups: Seq<Vec<Monitor>>) -> Seq<Seq<MonitorView>> {
    Seq::new(groups.len(), |g: int| monitor_views(groups[g]@))
}


/// One request to send: the monitor, the address to post to, and the body.
pub struct Dispatch {
    pub url: String,
    pub monitor: Monitor,
    pub request: DistributionRequest,
}

impl View for Dispatch {
    type V = DispatchView;

    open spec fn view(&self) -> DispatchView {
        DispatchView { url: self.url@, monitor: self.monitor@, request: self.request@ }
    }
}

/// The contents of a list of requests to send.
pub open spec fn dispatch_views(plan: Seq<Dispatch>) -> Seq<DispatchView> {
    Seq::new(plan.len(), |i: int| plan[i]@)
}

/// Draws up to `amount` different indices below `len` at random: calls
/// `rand::seq::IteratorRandom::choose_multiple` on the range `0..len` with
/// `rand::thread_rng()`. The contract states what holds of every draw: as
/// many indices as asked for, or all there are; each below `len`; no index
/// twice. Large amounts are left out, since the call reserves room for them.
#[verifier::external_body]
fn choose_positions(len: usize, amount: usize) -> (picks: Vec<usize>)
    requires
        amount <= 1024,
    ensures
        valid_draw(len as int, amount as int, picks@),
{
    (0..len).choose_multiple(&mut thread_rng(), amount)
}

/// The index of the first group of the region, or the number of groups.
fn find_group(groups: &Vec<Vec<Monitor>>, region: &String) -> (at: usize)
    requires
        partitioned(group_views(groups@)),
    ensures
        at == group_position(group_views(groups@), region@),
        at <= groups@.len(),
{
    let mut i: usize = 0;
    while i < groups.len()
        invariant
            i <= groups.len(),
            partitioned(group_views(groups@)),
            forall|g: int| 0 <= g < i ==> region_of(#[trigger] group_views(groups@)[g][0]) != region@,
        decreases groups.len() - i,
    {
        proof {
            let views = group_views(groups@);
            assert(views[i as int].len() > 0);
            assert(views[i as int][0].bound.len() > 0);
            assert(views[i as int][0] == groups@[i as int]@[0]@);
        }
        if groups[i][0].bound[0] == *region {
            proof {
                lemma_group_position(group_views(groups@), region@, i as int);
            }
            return i;
        }
        i += 1;
    }
    proof {
        lemma_group_position(group_views(groups@), region@, i as int);
    }
    i
}

/// Puts one more monitor into the groups.
fn add_monitor(groups: &mut Vec<Vec<Monitor>>, monitor: Monitor)
    requires
        partitioned(group_views(old(groups)@)),
        monitor@.bound.len() > 0,
    ensures
        group_views(final(groups)@) == add_to_groups(group_views(old(groups)@), monitor@),
        partitioned(group_views(final(groups)@)),
{
    let at = find_group(groups, &monitor.bound[0]);
    proof {
        lemma_add_keeps_partitioned(group_views(groups@), monitor@);
    }
    if at < groups.len() {
        let mut group = groups.remove(at);
        group.push(monitor);
        groups.insert(at, group);
        assert(group_views(groups@) =~~= add_to_groups(group_views(old(groups)@), monitor@));
    } else {
        let mut group: Vec<Monitor> = Vec::new();
        group.push(monitor);
        groups.push(group);
        assert(group_views(groups@) =~~= add_to_groups(group_views(old(groups)@), monitor@));
    }
}

/// The request that hands the file with the given hash to a monitor.
fn make_dispatch(
    monitor: &Monitor,
    to_own_monitor: bool,
    replications: i32,
    fingerprint: &str,
    hash: &str,
) -> (dispatch: Dispatch)
    ensures
        dispatch@ == dispatch_to(monitor@, to_own_monitor, replications, fingerprint@, hash@),
{
    Dispatch {
        url: distribute_url(monitor.addr.as_str(), hash),
        monitor: monitor.clone(),
        request: DistributionRequest {
            replications,
            to_own_monitor,
            fingerprint: String::from_str(fingerprint),
        },
    }
}

/// The plan that hands a file to every monitor.
fn broadcast(
    own_fingerprint: &str,
    own_monitor: &Monitor,
    foreign_monitors: &Vec<Monitor>,
    hash: &str,
    replications: i32,
) -> (plan: Vec<Dispatch>)
    ensures
        dispatch_views(plan@) == broadcast_plan(
            own_monitor@,
            monitor_views(foreign_monitors@),
            own_fingerprint@,
            hash@,
            replications,
        ),
{
    let mut plan: Vec<Dispatch> = Vec::new();
    plan.push(make_dispatch(own_monitor, true, replications, own_fingerprint, hash));
    let mut i: usize = 0;
    while i < foreign_monitors.len()
        invariant
            i <= foreign_monitors.len(),
            plan@.len() == i + 1,
            plan@[0]@ == dispatch_to(own_monitor@, true, replications, own_fingerprint@, hash@),
            forall|k: int|
                0 <= k < i ==> plan@[k + 1]@ == dispatch_to(
                    foreign_monitors@[k]@,
                    foreign_monitors@[k]@.addr == own_monitor@.addr,
                    replications,
                    own_fingerprint@,
                    hash@,
                ),
        decreases foreign_monitors.len() - i,
    {
        let monitor = &foreign_monitors[i];
        let to_own_monitor = monitor.addr == own_monitor.addr;
        plan.push(make_dispatch(monitor, to_own_monitor, replications, own_fingerprint, hash));
        i += 1;
    }
    assert(dispatch_views(plan@) =~= broadcast_plan(
        own_monitor@,
        monitor_views(foreign_monitors@),
        own_fingerprint@,
        hash@,
        replications,
    ));
    plan
}


/// Whether one of the monitors has the address.
fn contains_addr(monitors: &Vec<Monitor>, addr: &String) -> (found: bool)
    ensures
        found == has_addr(monitor_views(monitors@), addr@),
{
    let mut i: usize = 0;
    while i < monitors.len()
        invariant
            i <= monitors.len(),
            forall|k: int| 0 <= k < i ==> (#[trigger] monitor_views(monitors@)[k]).addr != addr@,
        decreases monitors.len() - i,
    {
        if monitors[i].addr == *addr {
            assert(monitor_views(monitors@)[i as int].addr == addr@);
            return true;
        }
        i += 1;
    }
    false
}

/// The region that files of the given region are also sent to, far from it.
pub fn distant_region(region: &String) -> (distant: Option<String>)
    ensures
        option_view(distant) == distant_region_of(region@),
{
    if *region == String::from_str("europe") {
        Some(String::from_str("south_america"))
    } else if *region == String::from_str("south_america") {
        Some(String::from_str("europe"))
    } else if *region == String::from_str("north_america") {
        Some(String::from_str("oceania"))
    } else if *region == String::from_str("asia") {
        Some(String::from_str("north_america"))
    } else if *region == String::from_str("oceania") {
        Some(String::from_str("europe"))
    } else {
        None
    }
}

/// What the distribution service does next.
pub enum DistributionStep {
    /// Hand the file with this hash to the monitors that the placement
    /// policy picks.
    Distribute(String),
    /// Nothing is queued: rest for this many seconds.
    Sleep(u64),
}

/// The service that hands newly stored files to monitors for replication.
pub struct DistributionService {
    /// The seconds to rest when nothing is queued.
    pub timeout: u64,
}

impl DistributionService {
    /// A service that rests for `timeout` seconds when nothing is queued.
    pub fn new(timeout: u64) -> (service: DistributionService)
        ensures
            service.timeout == timeout,
    {
        DistributionService { timeout }
    }

    /// The monitors other than the own one: those of the list whose address
    /// differs from its address, in order.
    pub fn foreign_monitors(own_monitor: &Monitor, monitors: &Vec<Monitor>) -> (foreign: Vec<Monitor>)
        ensures
            monitor_views(foreign@) == foreign_of(own_monitor@, monitor_views(monitors@)),
    {
        let ghost all = monitor_views(monitors@);
        let mut foreign: Vec<Monitor> = Vec::new();
        let mut i: usize = 0;
        assert(all.take(0) =~= Seq::empty());
        assert(monitor_views(foreign@) =~= Seq::empty());
        while i < monitors.len()
            invariant
                i <= monitors.len(),
                all == monitor_views(monitors@),
                monitor_views(foreign@) == foreign_of(own_monitor@, all.take(i as int)),
            decreases monitors.len() - i,
        {
            let ghost before = monitor_views(foreign@);
            proof {
                assert(all.take(i + 1).drop_last() =~= all.take(i as int));
                assert(all.take(i + 1).last() == monitors@[i as int]@);
            }
            if monitors[i].addr != own_monitor.addr {
                foreign.push(monitors[i].clone());
                assert(monitor_views(foreign@) =~= before.push(monitors@[i as int]@));
            }
            i += 1;
        }
        assert(all.take(i as int) =~= all);
        foreign
    }

    /// Takes the oldest hash out of the distribution queue, to be handed to
    /// the monitors; where the queue is empty, the service is to rest.
    pub fn next_step(&self, state: &mut AppState) -> (step: DistributionStep)
        requires
            old(state)@.wf(),
        ensures
            final(state)@.wf(),
            old(state)@.file_store.files_to_distribute.len() == 0 ==> step
                == DistributionStep::Sleep(self.timeout) && final(state)@ == old(state)@,
            old(state)@.file_store.files_to_distribute.len() > 0 ==> {
                &&& step is Distribute
                &&& step->Distribute_0@ == old(state)@.file_store.files_to_distribute[0]
                &&& final(state)@ == (AppStateView {
                    file_store: FileStoreView {
                        files_to_distribute: old(state)@.file_store.files_to_distribute.drop_first(),
                        ..old(state)@.file_store
                    },
                    ..old(state)@
                })
            },
    {
        match state.file_store.next_file_to_distribute() {
            Some(hash) => DistributionStep::Distribute(hash),
            None => DistributionStep::Sleep(self.timeout),
        }
    }

    /// Hands the file to every monitor, the own one first, and asks each
    /// for as many replicas as it has nodes.
    pub fn non_prioritized_distribution(
        own_fingerprint: &str,
        own_monitor: &Monitor,
        foreign_monitors: &Vec<Monitor>,
        hash: &str,
    ) -> (plan: Vec<Dispatch>)
        ensures
            dispatch_views(plan@) == broadcast_plan(
                own_monitor@,
                monitor_views(foreign_monitors@),
                own_fingerprint@,
                hash@,
                -1i32,
            ),
    {
        broadcast(own_fingerprint, own_monitor, foreign_monitors, hash, -1)
    }

    /// Hands the file to every monitor, the own one first, and asks each
    /// for three replicas.
    pub fn simple_distribution(
        own_fingerprint: &str,
        own_monitor: &Monitor,
        foreign_monitors: &Vec<Monitor>,
        hash: &str,
    ) -> (plan: Vec<Dispatch>)
        ensures
            dispatch_views(plan@) == broadcast_plan(
                own_monitor@,
                monitor_views(foreign_monitors@),
                own_fingerprint@,
                hash@,
                3,
            ),
    {
        broadcast(own_fingerprint, own_monitor, foreign_monitors, hash, 3)
    }

    /// The own monitor and the others, grouped by primary region: the
    /// groups in the order in which their regions first occur, the own
    /// monitor first in its group.
    pub fn group_monitors(own_monitor: &Monitor, monitors: &Vec<Monitor>) -> (groups: Vec<Vec<Monitor>>)
        requires
            own_monitor@.bound.len() > 0,
            all_bound(monitor_views(monitors@)),
        ensures
            group_views(groups@) == grouped(seq![own_monitor@] + monitor_views(monitors@)),
            partitioned(group_views(groups@)),
    {
        let ghost all = seq![own_monitor@] + monitor_views(monitors@);
        let mut groups: Vec<Vec<Monitor>> = Vec::new();
        proof {
            assert(group_views(groups@) =~= grouped(all.take(0)));
            assert(all.take(1).drop_last() =~= all.take(0));
            assert(all.take(1).last() == own_monitor@);
        }
        add_monitor(&mut groups, own_monitor.clone());
        let mut i: usize = 0;
        while i < monitors.len()
            invariant
                i <= monitors.len(),
                all == seq![own_monitor@] + monitor_views(monitors@),
                all_bound(monitor_views(monitors@)),
                group_views(groups@) == grouped(all.take(i + 1)),
                partitioned(group_views(groups@)),
            decreases monitors.len() - i,
        {
            proof {
                assert(all.take(i + 2).drop_last() =~= all.take(i + 1));
                assert(all.take(i + 2).last() == monitors@[i as int]@);
                assert(monitor_views(monitors@)[i as int].bound.len() > 0);
            }
            add_monitor(&mut groups, monitors[i].clone());
            i += 1;
        }
        assert(all.take(i + 1) =~= all);
        groups
    }

    /// Hands the file to the monitor that stands for each group when the
    /// draw fell on the given member of each, and asks each for two
    /// replicas.
    pub fn region_based_plan(
        own_fingerprint: &str,
        own_monitor: &Monitor,
        groups: &Vec<Vec<Monitor>>,
        hash: &str,
        picks: &Vec<usize>,
    ) -> (plan: Vec<Dispatch>)
        requires
            own_monitor@.bound.len() > 0,
            partitioned(group_views(groups@)),
            valid_picks(group_views(groups@), picks@),
        ensures
            dispatch_views(plan@) == region_plan(
                group_views(groups@),
                own_monitor@,
                own_fingerprint@,
                hash@,
                picks@,
            ),
    {
        let ghost views = group_views(groups@);
        let mut plan: Vec<Dispatch> = Vec::new();
        let mut g: usize = 0;
        while g < groups.len()
            invariant
                g <= groups.len(),
                views == group_views(groups@),
                own_monitor@.bound.len() > 0,
                partitioned(views),
                valid_picks(views, picks@),
                plan@.len() == g,
                forall|k: int|
                    0 <= k < g ==> plan@[k]@ == region_plan(
                        views,
                        own_monitor@,
                        own_fingerprint@,
                        hash@,
                        picks@,
                    )[k],
            decreases groups.len() - g,
        {
            proof {
                assert(picks@[g as int] < views[g as int].len());
                assert(views[g as int].len() > 0);
                assert(views[g as int][0].bound.len() > 0);
                assert(views[g as int][0] == groups@[g as int]@[0]@);
                assert(views[g as int][picks@[g as int] as int] == groups@[g as int]@[picks@[g as int] as int]@);
            }
            let group = &groups[g];
            let drawn = &group[picks[g]];
            let in_own_region = group[0].bound[0] == own_monitor.bound[0];
            let dispatch = if in_own_region && drawn.addr != own_monitor.addr {
                make_dispatch(own_monitor, true, 2, own_fingerprint, hash)
            } else {
                make_dispatch(drawn, drawn.addr == own_monitor.addr, 2, own_fingerprint, hash)
            };
            plan.push(dispatch);
            g += 1;
        }
        assert(dispatch_views(plan@) =~= region_plan(
            views,
            own_monitor@,
            own_fingerprint@,
            hash@,
            picks@,
        ));
        plan
    }

    /// Hands the file to one monitor of each region, drawn at random, but
    /// to the own monitor in the own region, and asks each for two replicas.
    pub fn region_based_distribution(
        own_fingerprint: &str,
        own_monitor: &Monitor,
        foreign_monitors: &Vec<Monitor>,
        hash: &str,
    ) -> (plan: Vec<Dispatch>)
        requires
            own_monitor@.bound.len() > 0,
            all_bound(monitor_views(foreign_monitors@)),
        ensures
            ({
                let groups = grouped(seq![own_monitor@] + monitor_views(foreign_monitors@));
                &&& exists|picks: Seq<usize>|
                    valid_picks(groups, picks) && dispatch_views(plan@) == #[trigger] region_plan(
                        groups,
                        own_monitor@,
                        own_fingerprint@,
                        hash@,
                        picks,
                    )
                &&& one_per_region(groups, own_monitor@, dispatch_views(plan@))
            }),
    {
        let groups = Self::group_monitors(own_monitor, foreign_monitors);
        let ghost views = group_views(groups@);
        let mut picks: Vec<usize> = Vec::new();
        let mut g: usize = 0;
        while g < groups.len()
            invariant
                g <= groups.len(),
                views == group_views(groups@),
                partitioned(views),
                picks@.len() == g,
                forall|k: int| 0 <= k < g ==> (#[trigger] picks@[k]) < views[k].len(),
            decreases groups.len() - g,
        {
            proof {
                assert(views[g as int].len() > 0);
                assert(views[g as int].len() == groups@[g as int]@.len());
            }
            let drawn = choose_positions(groups[g].len(), 1);
            picks.push(drawn[0]);
            g += 1;
        }
        let plan = Self::region_based_plan(own_fingerprint, own_monitor, &groups, hash, &picks);
        proof {
            lemma_region_plan_one_per_region(
                views,
                own_monitor@,
                own_fingerprint@,
                hash@,
                picks@,
            );
        }
        plan
    }

    /// Whether the policy that keeps a file near and sends it far can be
    /// applied: the own region has a distant region, and one of the monitors
    /// lies there.
    pub fn locale_is_placeable(own_monitor: &Monitor, foreign_monitors: &Vec<Monitor>) -> (placeable: bool)
        requires
            own_monitor@.bound.len() > 0,
            all_bound(monitor_views(foreign_monitors@)),
        ensures
            placeable == locale_placeable(
                grouped(seq![own_monitor@] + monitor_views(foreign_monitors@)),
                own_monitor@,
            ),
    {
        let groups = Self::group_monitors(own_monitor, foreign_monitors);
        match distant_region(&own_monitor.bound[0]) {
            Some(distant) => find_group(&groups, &distant) < groups.len(),
            None => false,
        }
    }

    /// Hands the file to the members of the own group on which the draw
    /// fell, the own monitor among them, and to the member of the distant
    /// group on which the draw fell, and asks each for two replicas.
    pub fn locale_based_plan(
        own_fingerprint: &str,
        own_monitor: &Monitor,
        groups: &Vec<Vec<Monitor>>,
        hash: &str,
        locale_picks: &Vec<usize>,
        distant_pick: usize,
    ) -> (plan: Vec<Dispatch>)
        requires
            own_monitor@.bound.len() > 0,
            partitioned(group_views(groups@)),
            group_position(group_views(groups@), region_of(own_monitor@)) < groups@.len(),
            locale_placeable(group_views(groups@), own_monitor@),
            valid_draw(
                group_views(groups@)[group_position(
                    group_views(groups@),
                    region_of(own_monitor@),
                )].len() as int,
                2,
                locale_picks@,
            ),
            distant_pick < group_views(groups@)[group_position(
                group_views(groups@),
                distant_region_of(region_of(own_monitor@))->0,
            )].len(),
        ensures
            dispatch_views(plan@) == locale_plan(
                group_views(groups@),
                own_monitor@,
                own_fingerprint@,
                hash@,
                locale_picks@,
                distant_pick,
            ),
    {
        let ghost views = group_views(groups@);
        let own_at = find_group(groups, &own_monitor.bound[0]);
        let own_group = &groups[own_at];
        proof {
            assert(views[own_at as int].len() > 0);
            assert(views[own_at as int].len() == own_group@.len());
        }
        let mut chosen: Vec<Monitor> = Vec::new();
        let mut i: usize = 0;
        while i < locale_picks.len()
            invariant
                i <= locale_picks.len(),
                views == group_views(groups@),
                own_at < groups@.len(),
                *own_group == groups@[own_at as int],
                valid_draw(own_group@.len() as int, 2, locale_picks@),
                chosen@.len() == i,
                forall|k: int|
                    0 <= k < i ==> chosen@[k]@ == members_at(views[own_at as int], locale_picks@)[k],
            decreases locale_picks.len() - i,
        {
            proof {
                assert(locale_picks@[i as int] < own_group@.len());
                assert(views[own_at as int][locale_picks@[i as int] as int]
                    == own_group@[locale_picks@[i as int] as int]@);
            }
            chosen.push(own_group[locale_picks[i]].clone());
            i += 1;
        }
        assert(monitor_views(chosen@) =~= members_at(views[own_at as int], locale_picks@));
        if !contains_addr(&chosen, &own_monitor.addr) {
            let ghost before = monitor_views(chosen@);
            chosen.pop();
            chosen.push(own_monitor.clone());
            assert(monitor_views(chosen@) =~= before.drop_last().push(own_monitor@));
        }
        assert(monitor_views(chosen@) == locale_picked(
            views[own_at as int],
            own_monitor@,
            locale_picks@,
        ));
        let ghost near = monitor_views(chosen@);
        match distant_region(&own_monitor.bound[0]) {
            Some(distant) => {
                let distant_at = find_group(groups, &distant);
                proof {
                    assert(views[distant_at as int][distant_pick as int]
                        == groups@[distant_at as int]@[distant_pick as int]@);
                }
                chosen.push(groups[distant_at][distant_pick].clone());
                assert(monitor_views(chosen@) =~= near.push(
                    views[distant_at as int][distant_pick as int],
                ));
            },
            None => {},
        }
        let ghost all = monitor_views(chosen@);
        let mut plan: Vec<Dispatch> = Vec::new();
        let mut k: usize = 0;
        while k < chosen.len()
            invariant
                k <= chosen.len(),
                all == monitor_views(chosen@),
                plan@.len() == k,
                forall|j: int|
                    0 <= j < k ==> plan@[j]@ == dispatch_to(
                        all[j],
                        all[j].addr == own_monitor@.addr,
                        2,
                        own_fingerprint@,
                        hash@,
                    ),
            decreases chosen.len() - k,
        {
            let monitor = &chosen[k];
            assert(all[k as int] == monitor@);
            plan.push(
                make_dispatch(
                    monitor,
                    monitor.addr == own_monitor.addr,
                    2,
                    own_fingerprint,
                    hash,
                ),
            );
            k += 1;
        }
        assert(dispatch_views(plan@) =~= locale_plan(
            views,
            own_monitor@,
            own_fingerprint@,
            hash@,
            locale_picks@,
            distant_pick,
        ));
        plan
    }

    /// Hands the file to two monitors of the own region, drawn at random,
    /// the own monitor among them, and to one monitor of the distant
    /// region, drawn at random, and asks each for two replicas.
    pub fn locale_distribution(
        own_fingerprint: &str,
        own_monitor: &Monitor,
        foreign_monitors: &Vec<Monitor>,
        hash: &str,
    ) -> (plan: Vec<Dispatch>)
        requires
            own_monitor@.bound.len() > 0,
            all_bound(monitor_views(foreign_monitors@)),
            locale_placeable(
                grouped(seq![own_monitor@] + monitor_views(foreign_monitors@)),
                own_monitor@,
            ),
        ensures
            ({
                let groups = grouped(seq![own_monitor@] + monitor_views(foreign_monitors@));
                let own_group = groups[group_position(groups, region_of(own_monitor@))];
                let distant_group = groups[group_position(
                    groups,
                    distant_region_of(region_of(own_monitor@))->0,
                )];
                &&& exists|locale_picks: Seq<usize>, distant_pick: usize|
                    {
                        &&& valid_draw(own_group.len() as int, 2, locale_picks)
                        &&& distant_pick < distant_group.len()
                        &&& dispatch_views(plan@) == #[trigger] locale_plan(
                            groups,
                            own_monitor@,
                            own_fingerprint@,
                            hash@,
                            locale_picks,
                            distant_pick,
                        )
                    }
                &&& near_and_far(own_monitor@, dispatch_views(plan@))
            }),
    {
        let groups = Self::group_monitors(own_monitor, foreign_monitors);
        let ghost views = group_views(groups@);
        proof {
            let all = seq![own_monitor@] + monitor_views(foreign_monitors@);
            assert forall|i: int| 0 <= i < all.len() implies (#[trigger] all[i]).bound.len() > 0 by {
                if i > 0 {
                    assert(all[i] == monitor_views(foreign_monitors@)[i - 1]);
                }
            }
            assert(all[0] == own_monitor@);
            lemma_grouped_covers(all, 0);
        }
        let own_at = find_group(&groups, &own_monitor.bound[0]);
        proof {
            assert(views[own_at as int].len() == groups@[own_at as int]@.len());
        }
        let locale_picks = choose_positions(groups[own_at].len(), 2);
        let distant_pick = match distant_region(&own_monitor.bound[0]) {
            Some(distant) => {
                let distant_at = find_group(&groups, &distant);
                proof {
                    assert(views[distant_at as int].len() > 0);
                    assert(views[distant_at as int].len() == groups@[distant_at as int]@.len());
                }
                let drawn = choose_positions(groups[distant_at].len(), 1);
                drawn[0]
            },
            None => 0,
        };
        let plan = Self::locale_based_plan(
            own_fingerprint,
            own_monitor,
            &groups,
            hash,
            &locale_picks,
            distant_pick,
        );
        assert(dispatch_views(plan@) == locale_plan(
            views,
            own_monitor@,
            own_fingerprint@,
            hash@,
            locale_picks@,
            distant_pick,
        ));
        proof {
            lemma_locale_plan_near_and_far(
                views,
                own_monitor@,
                own_fingerprint@,
                hash@,
                locale_picks@,
                distant_pick,
            );
        }
        plan
    }
}

} // verus!
