//! The placement policies as mathematics: how monitors fall into groups by
//! region, which requests each policy makes for given draws, and what holds
//! of those requests whatever the draws.

use vstd::prelude::*;
use crate::config_store::MonitorView;
use crate::http_requests::{distribute_url_of, DistributionRequestView};

verus! {

/// The primary region of a monitor.
pub open spec fn region_of(monitor: MonitorView) -> Seq<char> {
    monitor.bound[0]
}

/// Every monitor of the list names a primary region.
pub open spec fn all_bound(monitors: Seq<MonitorView>) -> bool {
    forall|i: int| 0 <= i < monitors.len() ==> (#[trigger] monitors[i]).bound.len() > 0
}

/// The index of the first group whose monitors lie in the given region, or
/// the number of groups where there is none.
pub open spec fn group_position(groups: Seq<Seq<MonitorView>>, region: Seq<char>) -> int
    decreases groups.len(),
{
    if groups.len() == 0 {
        0
    } else if region_of(groups[0][0]) == region {
        0
    } else {
        1 + group_position(groups.drop_first(), region)
    }
}

/// The groups with one more monitor: at the end of the group of its region,
/// or in a new last group where its region has none yet.
pub open spec fn add_to_groups(groups: Seq<Seq<MonitorView>>, monitor: MonitorView) -> Seq<Seq<MonitorView>> {
    let at = group_position(groups, region_of(monitor));
    if at < groups.len() {
        groups.update(at, groups[at].push(monitor))
    } else {
        groups.push(seq![monitor])
    }
}

/// The monitors grouped by primary region: the groups in the order in which
/// their regions first occur, the monitors of a group in the order of the
/// list.
pub open spec fn grouped(monitors: Seq<MonitorView>) -> Seq<Seq<MonitorView>>
    decreases monitors.len(),
{
    if monitors.len() == 0 {
        Seq::empty()
    } else {
        add_to_groups(grouped(monitors.drop_last()), monitors.last())
    }
}

/// The groups are a partition by region: none is empty, the monitors of a
/// group share their primary region, and no two groups share theirs.
pub open spec fn partitioned(groups: Seq<Seq<MonitorView>>) -> bool {
    &&& forall|g: int| 0 <= g < groups.len() ==> (#[trigger] groups[g]).len() > 0
    &&& forall|g: int, k: int|
        0 <= g < groups.len() && 0 <= k < groups[g].len() ==> {
            &&& (#[trigger] groups[g][k]).bound.len() > 0
            &&& region_of(groups[g][k]) == region_of(groups[g][0])
        }
    &&& forall|g: int, h: int|
        0 <= g < h < groups.len() ==> region_of(#[trigger] groups[g][0]) != region_of(
            #[trigger] groups[h][0],
        )
}

/// `group_position` is the first index whose group lies in the region.
pub proof fn lemma_group_position(groups: Seq<Seq<MonitorView>>, region: Seq<char>, at: int)
    requires
        0 <= at <= groups.len(),
        forall|g: int| 0 <= g < at ==> region_of(#[trigger] groups[g][0]) != region,
        at < groups.len() ==> region_of(groups[at][0]) == region,
    ensures
        group_position(groups, region) == at,
    decreases groups.len(),
{
    if groups.len() > 0 && at > 0 {
        let rest = groups.drop_first();
        assert(region_of(groups[0][0]) != region);
        assert forall|g: int| 0 <= g < at - 1 implies region_of(#[trigger] rest[g][0]) != region by {
            assert(rest[g] == groups[g + 1]);
            assert(region_of(groups[g + 1][0]) != region);
        }
        lemma_group_position(rest, region, at - 1);
    }
}

/// What `group_position` returns is in range, points at a group of the
/// region where it is an index, and no earlier group lies in the region.
pub proof fn lemma_group_position_is_first(groups: Seq<Seq<MonitorView>>, region: Seq<char>)
    ensures
        0 <= group_position(groups, region) <= groups.len(),
        group_position(groups, region) < groups.len() ==> region_of(
            groups[group_position(groups, region)][0],
        ) == region,
        forall|g: int|
            0 <= g < group_position(groups, region) ==> region_of(#[trigger] groups[g][0])
                != region,
    decreases groups.len(),
{
    if groups.len() > 0 && region_of(groups[0][0]) != region {
        let rest = groups.drop_first();
        lemma_group_position_is_first(rest, region);
        assert forall|g: int| 0 <= g < group_position(groups, region) implies region_of(
            #[trigger] groups[g][0],
        ) != region by {
            if g > 0 {
                assert(rest[g - 1] == groups[g]);
            }
        }
    }
}

/// Adding a monitor that names a region keeps a partition a partition.
pub proof fn lemma_add_keeps_partitioned(groups: Seq<Seq<MonitorView>>, monitor: MonitorView)
    requires
        partitioned(groups),
        monitor.bound.len() > 0,
    ensures
        partitioned(add_to_groups(groups, monitor)),
{
    let region = region_of(monitor);
    lemma_group_position_is_first(groups, region);
    let at = group_position(groups, region);
    let after = add_to_groups(groups, monitor);
    assert forall|g: int, k: int| 0 <= g < after.len() && 0 <= k < after[g].len() implies {
        &&& (#[trigger] after[g][k]).bound.len() > 0
        &&& region_of(after[g][k]) == region_of(after[g][0])
    } by {
        if g == at {
            if at < groups.len() {
                if k < groups[g].len() {
                    assert(after[g][k] == groups[g][k]);
                }
                assert(after[g][0] == groups[g][0]);
            }
        } else {
            assert(after[g][k] == groups[g][k]);
        }
    }
    assert forall|g: int, h: int| 0 <= g < h < after.len() implies region_of(
        #[trigger] after[g][0],
    ) != region_of(#[trigger] after[h][0]) by {
        if g < groups.len() {
            assert(after[g][0] == groups[g][0]);
        }
        if h < groups.len() {
            assert(after[h][0] == groups[h][0]);
        }
    }
}

/// Grouping monitors that each name a region gives a partition.
pub proof fn lemma_grouped_partitioned(monitors: Seq<MonitorView>)
    requires
        all_bound(monitors),
    ensures
        partitioned(grouped(monitors)),
    decreases monitors.len(),
{
    if monitors.len() > 0 {
        let init = monitors.drop_last();
        assert forall|i: int| 0 <= i < init.len() implies (#[trigger] init[i]).bound.len() > 0 by {
            assert(init[i] == monitors[i]);
        }
        lemma_grouped_partitioned(init);
        lemma_add_keeps_partitioned(grouped(init), monitors.last());
    }
}

/// What a [`Dispatch`] holds.
pub struct DispatchView {
    pub url: Seq<char>,
    pub monitor: MonitorView,
    pub request: DistributionRequestView,
}

/// The request that hands the file with the given hash to a monitor.
pub open spec fn dispatch_to(
    monitor: MonitorView,
    to_own_monitor: bool,
    replications: i32,
    fingerprint: Seq<char>,
    hash: Seq<char>,
) -> DispatchView {
    DispatchView {
        url: distribute_url_of(monitor.addr, hash),
        monitor,
        request: DistributionRequestView { replications, to_own_monitor, fingerprint },
    }
}

/// The plan that hands a file to every monitor: to the own one first, then
/// to the others in order. A request says that it goes to the own monitor
/// when it goes to the address of the own monitor.
pub open spec fn broadcast_plan(
    own: MonitorView,
    foreign: Seq<MonitorView>,
    fingerprint: Seq<char>,
    hash: Seq<char>,
    replications: i32,
) -> Seq<DispatchView> {
    seq![dispatch_to(own, true, replications, fingerprint, hash)] + Seq::new(
        foreign.len(),
        |i: int|
            dispatch_to(foreign[i], foreign[i].addr == own.addr, replications, fingerprint, hash),
    )
}

/// The monitor that stands for a group when the draw fell on its member at
/// `pick`: that member, but the own monitor in the group of the own region.
pub open spec fn region_pick(group: Seq<MonitorView>, own: MonitorView, pick: int) -> MonitorView {
    if region_of(group[0]) == region_of(own) && group[pick].addr != own.addr {
        own
    } else {
        group[pick]
    }
}

/// One index into each group.
pub open spec fn valid_picks(groups: Seq<Seq<MonitorView>>, picks: Seq<usize>) -> bool {
    &&& picks.len() == groups.len()
    &&& forall|g: int| 0 <= g < groups.len() ==> (#[trigger] picks[g]) < groups[g].len()
}

/// The plan that hands a file to one monitor of each region, for the given
/// draws.
pub open spec fn region_plan(
    groups: Seq<Seq<MonitorView>>,
    own: MonitorView,
    fingerprint: Seq<char>,
    hash: Seq<char>,
    picks: Seq<usize>,
) -> Seq<DispatchView> {
    Seq::new(
        groups.len(),
        |g: int|
            {
                let monitor = region_pick(groups[g], own, picks[g] as int);
                dispatch_to(monitor, monitor.addr == own.addr, 2, fingerprint, hash)
            },
    )
}

/// The region that files of the given region are also sent to, far from
/// it; nothing for a region outside the table.
pub open spec fn distant_region_of(region: Seq<char>) -> Option<Seq<char>> {
    if region == "europe"@ {
        Some("south_america"@)
    } else if region == "south_america"@ {
        Some("europe"@)
    } else if region == "north_america"@ {
        Some("oceania"@)
    } else if region == "asia"@ {
        Some("north_america"@)
    } else if region == "oceania"@ {
        Some("europe"@)
    } else {
        None
    }
}

/// Whether one of the monitors has the address.
pub open spec fn has_addr(monitors: Seq<MonitorView>, addr: Seq<char>) -> bool {
    exists|i: int| 0 <= i < monitors.len() && (#[trigger] monitors[i]).addr == addr
}

/// The members of a group at the given indices, in that order.
pub open spec fn members_at(group: Seq<MonitorView>, picks: Seq<usize>) -> Seq<MonitorView> {
    Seq::new(picks.len(), |i: int| group[picks[i] as int])
}

/// The monitors of the own region that a file goes to when the draw fell on
/// the members of the own group at `picks`: those members, the last of them
/// giving way to the own monitor where the draw missed it.
pub open spec fn locale_picked(group: Seq<MonitorView>, own: MonitorView, picks: Seq<usize>) -> Seq<MonitorView> {
    let chosen = members_at(group, picks);
    if has_addr(chosen, own.addr) {
        chosen
    } else {
        chosen.drop_last().push(own)
    }
}

/// Up to `amount` different indices into a list of `len` items: as many as
/// asked for, or all there are.
pub open spec fn valid_draw(len: int, amount: int, picks: Seq<usize>) -> bool {
    &&& picks.len() == if amount <= len { amount } else { len }
    &&& forall|i: int| 0 <= i < picks.len() ==> (#[trigger] picks[i]) < len
    &&& forall|i: int, j: int| 0 <= i < j < picks.len() ==> picks[i] != picks[j]
}

/// The policy that keeps a file near and sends it far can be applied: the
/// own region has a distant region, and that region has a monitor.
pub open spec fn locale_placeable(groups: Seq<Seq<MonitorView>>, own: MonitorView) -> bool {
    &&& distant_region_of(region_of(own)) is Some
    &&& group_position(groups, distant_region_of(region_of(own))->0) < groups.len()
}

/// The plan that hands a file to two monitors of the own region and to one
/// of its distant region, for the given draws.
pub open spec fn locale_plan(
    groups: Seq<Seq<MonitorView>>,
    own: MonitorView,
    fingerprint: Seq<char>,
    hash: Seq<char>,
    locale_picks: Seq<usize>,
    distant_pick: usize,
) -> Seq<DispatchView> {
    let own_group = groups[group_position(groups, region_of(own))];
    let distant_group = groups[group_position(groups, distant_region_of(region_of(own))->0)];
    let chosen = locale_picked(own_group, own, locale_picks).push(
        distant_group[distant_pick as int],
    );
    Seq::new(
        chosen.len(),
        |i: int| dispatch_to(chosen[i], chosen[i].addr == own.addr, 2, fingerprint, hash),
    )
}

/// The monitors of the list whose address is not that of the own monitor,
/// in order.
pub open spec fn foreign_of(own: MonitorView, monitors: Seq<MonitorView>) -> Seq<MonitorView>
    decreases monitors.len(),
{
    if monitors.len() == 0 {
        Seq::empty()
    } else if monitors.last().addr != own.addr {
        foreign_of(own, monitors.drop_last()).push(monitors.last())
    } else {
        foreign_of(own, monitors.drop_last())
    }
}

/// Adding a monitor moves no group: a region keeps its place among the
/// groups, and the region of the new monitor has a place afterwards.
pub proof fn lemma_add_keeps_positions(
    groups: Seq<Seq<MonitorView>>,
    monitor: MonitorView,
    region: Seq<char>,
)
    requires
        partitioned(groups),
    ensures
        group_position(groups, region) < groups.len() ==> group_position(
            add_to_groups(groups, monitor),
            region,
        ) == group_position(groups, region),
        group_position(add_to_groups(groups, monitor), region_of(monitor)) < add_to_groups(
            groups,
            monitor,
        ).len(),
{
    let after = add_to_groups(groups, monitor);
    let at = group_position(groups, region_of(monitor));
    lemma_group_position_is_first(groups, region_of(monitor));
    lemma_group_position_is_first(groups, region);
    assert forall|g: int| 0 <= g < groups.len() implies (#[trigger] after[g])[0] == groups[g][0] by {
        assert(groups[g].len() > 0);
    }
    assert forall|g: int| 0 <= g < at implies region_of(#[trigger] after[g][0]) != region_of(
        monitor,
    ) by {
        assert(after[g][0] == groups[g][0]);
        assert(region_of(groups[g][0]) != region_of(monitor));
    }
    lemma_group_position(after, region_of(monitor), at);
    let place = group_position(groups, region);
    if place < groups.len() {
        assert forall|g: int| 0 <= g < place implies region_of(#[trigger] after[g][0])
            != region by {
            assert(after[g][0] == groups[g][0]);
            assert(region_of(groups[g][0]) != region);
        }
        assert(after[place][0] == groups[place][0]);
        lemma_group_position(after, region, place);
    }
}

/// The region of each monitor of a list has a group once the list is
/// grouped.
pub proof fn lemma_grouped_covers(monitors: Seq<MonitorView>, i: int)
    requires
        all_bound(monitors),
        0 <= i < monitors.len(),
    ensures
        group_position(grouped(monitors), region_of(monitors[i])) < grouped(monitors).len(),
    decreases monitors.len(),
{
    let init = monitors.drop_last();
    assert forall|k: int| 0 <= k < init.len() implies (#[trigger] init[k]).bound.len() > 0 by {
        assert(init[k] == monitors[k]);
    }
    lemma_grouped_partitioned(init);
    lemma_add_keeps_positions(grouped(init), monitors.last(), region_of(monitors[i]));
    lemma_group_position_is_first(grouped(init), region_of(monitors.last()));
    assert(grouped(monitors) == add_to_groups(grouped(init), monitors.last()));
    assert(grouped(monitors).len() >= grouped(init).len());
    if i < monitors.len() - 1 {
        assert(init[i] == monitors[i]);
        lemma_grouped_covers(init, i);
    } else {
        assert(monitors[i] == monitors.last());
    }
}

/// The plan reaches each region once: it has one request for each group, to
/// a monitor of the group's region, with two replicas asked for; and the
/// request for the own region goes to the address of the own monitor and
/// says so.
pub open spec fn one_per_region(
    groups: Seq<Seq<MonitorView>>,
    own: MonitorView,
    plan: Seq<DispatchView>,
) -> bool {
    &&& plan.len() == groups.len()
    &&& forall|g: int|
        0 <= g < groups.len() ==> {
            &&& region_of((#[trigger] plan[g]).monitor) == region_of(groups[g][0])
            &&& plan[g].request.replications == 2
            &&& plan[g].request.to_own_monitor == (plan[g].monitor.addr == own.addr)
            &&& region_of(groups[g][0]) == region_of(own) ==> plan[g].monitor.addr == own.addr
        }
}

/// Whatever the draws, the plan of the region policy reaches each region
/// once, and the own region through the own monitor.
pub proof fn lemma_region_plan_one_per_region(
    groups: Seq<Seq<MonitorView>>,
    own: MonitorView,
    fingerprint: Seq<char>,
    hash: Seq<char>,
    picks: Seq<usize>,
)
    requires
        partitioned(groups),
        valid_picks(groups, picks),
    ensures
        one_per_region(groups, own, region_plan(groups, own, fingerprint, hash, picks)),
{
    let plan = region_plan(groups, own, fingerprint, hash, picks);
    assert forall|g: int| 0 <= g < groups.len() implies {
        &&& region_of((#[trigger] plan[g]).monitor) == region_of(groups[g][0])
        &&& plan[g].request.replications == 2
        &&& plan[g].request.to_own_monitor == (plan[g].monitor.addr == own.addr)
        &&& region_of(groups[g][0]) == region_of(own) ==> plan[g].monitor.addr == own.addr
    } by {
        assert(picks[g] < groups[g].len());
        assert(region_of(groups[g][picks[g] as int]) == region_of(groups[g][0]));
    }
}


/// Every monitor of a group comes from the list that was grouped.
pub proof fn lemma_grouped_members(monitors: Seq<MonitorView>, g: int, k: int)
    requires
        all_bound(monitors),
        0 <= g < grouped(monitors).len(),
        0 <= k < grouped(monitors)[g].len(),
    ensures
        monitors.contains(grouped(monitors)[g][k]),
    decreases monitors.len(),
{
    if monitors.len() > 0 {
        let init = monitors.drop_last();
        let last = monitors.last();
        assert forall|i: int| 0 <= i < init.len() implies (#[trigger] init[i]).bound.len() > 0 by {
            assert(init[i] == monitors[i]);
        }
        let before = grouped(init);
        lemma_group_position_is_first(before, region_of(last));
        let at = group_position(before, region_of(last));
        assert(monitors[monitors.len() - 1] == last);
        if g < before.len() && k < before[g].len() {
            assert(grouped(monitors)[g][k] == before[g][k]);
            lemma_grouped_members(init, g, k);
            let i = choose|i: int| 0 <= i < init.len() && init[i] == before[g][k];
            assert(monitors[i] == before[g][k]);
        } else {
            assert(grouped(monitors)[g][k] == last);
        }
    }
}

/// The region policy sends one request for each region in which a monitor
/// lies, to a monitor of that region, and the request for the own region
/// to the own monitor, whatever the draws: the groups of the monitors are a
/// partition by region, the region of every monitor has a group, and the
/// plan reaches each group once.
pub proof fn lemma_region_fan_out(
    own: MonitorView,
    foreign: Seq<MonitorView>,
    fingerprint: Seq<char>,
    hash: Seq<char>,
    picks: Seq<usize>,
)
    requires
        own.bound.len() > 0,
        all_bound(foreign),
        valid_picks(grouped(seq![own] + foreign), picks),
    ensures
        ({
            let all = seq![own] + foreign;
            let groups = grouped(all);
            let plan = region_plan(groups, own, fingerprint, hash, picks);
            &&& partitioned(groups)
            &&& forall|i: int|
                0 <= i < all.len() ==> group_position(groups, region_of(#[trigger] all[i]))
                    < groups.len()
            &&& one_per_region(groups, own, plan)
        }),
{
    let all = seq![own] + foreign;
    assert forall|i: int| 0 <= i < all.len() implies (#[trigger] all[i]).bound.len() > 0 by {
        if i > 0 {
            assert(all[i] == foreign[i - 1]);
        }
    }
    lemma_grouped_partitioned(all);
    assert forall|i: int| 0 <= i < all.len() implies group_position(
        grouped(all),
        region_of(#[trigger] all[i]),
    ) < grouped(all).len() by {
        lemma_grouped_covers(all, i);
    }
    lemma_region_plan_one_per_region(grouped(all), own, fingerprint, hash, picks);
}


/// The plan keeps a file near and sends it far: all its requests but the
/// last go to monitors of the own region, one of them to the address of the
/// own monitor; the last goes to a monitor of the distant region; each asks
/// for two replicas and says whether it goes to the own monitor.
pub open spec fn near_and_far(own: MonitorView, plan: Seq<DispatchView>) -> bool {
    &&& 2 <= plan.len() <= 3
    &&& forall|i: int|
        0 <= i < plan.len() - 1 ==> region_of((#[trigger] plan[i]).monitor) == region_of(own)
    &&& exists|i: int| 0 <= i < plan.len() - 1 && (#[trigger] plan[i]).monitor.addr == own.addr
    &&& Some(region_of(plan.last().monitor)) == distant_region_of(region_of(own))
    &&& forall|i: int|
        0 <= i < plan.len() ==> {
            &&& (#[trigger] plan[i]).request.replications == 2
            &&& plan[i].request.to_own_monitor == (plan[i].monitor.addr == own.addr)
        }
}

/// Whatever the draws, the plan of the locale policy keeps a file near and
/// sends it far.
pub proof fn lemma_locale_plan_near_and_far(
    groups: Seq<Seq<MonitorView>>,
    own: MonitorView,
    fingerprint: Seq<char>,
    hash: Seq<char>,
    locale_picks: Seq<usize>,
    distant_pick: usize,
)
    requires
        partitioned(groups),
        group_position(groups, region_of(own)) < groups.len(),
        locale_placeable(groups, own),
        valid_draw(groups[group_position(groups, region_of(own))].len() as int, 2, locale_picks),
        distant_pick < groups[group_position(
            groups,
            distant_region_of(region_of(own))->0,
        )].len(),
    ensures
        near_and_far(own, locale_plan(groups, own, fingerprint, hash, locale_picks, distant_pick)),
{
    let plan = locale_plan(groups, own, fingerprint, hash, locale_picks, distant_pick);
    let far = distant_region_of(region_of(own))->0;
    lemma_group_position_is_first(groups, region_of(own));
    lemma_group_position_is_first(groups, far);
    let own_group = groups[group_position(groups, region_of(own))];
    let distant_group = groups[group_position(groups, far)];
    let drawn = members_at(own_group, locale_picks);
    let near = locale_picked(own_group, own, locale_picks);
    assert(own_group.len() > 0);
    assert(near.len() == locale_picks.len());
    assert(1 <= near.len() <= 2);
    assert forall|i: int| 0 <= i < near.len() implies region_of(#[trigger] near[i]) == region_of(
        own,
    ) by {
        if has_addr(drawn, own.addr) || i < near.len() - 1 {
            assert(near[i] == own_group[locale_picks[i] as int]);
            assert(locale_picks[i] < own_group.len());
        }
    }
    let at = if has_addr(drawn, own.addr) {
        choose|i: int| 0 <= i < drawn.len() && (#[trigger] drawn[i]).addr == own.addr
    } else {
        near.len() - 1
    };
    assert(near[at].addr == own.addr);
    assert(plan[at].monitor == near[at]);
    assert forall|i: int| 0 <= i < plan.len() - 1 implies region_of((#[trigger] plan[i]).monitor)
        == region_of(own) by {
        assert(plan[i].monitor == near[i]);
    }
    assert(plan.last().monitor == distant_group[distant_pick as int]);
    assert(region_of(distant_group[distant_pick as int]) == region_of(distant_group[0]));
}

} // verus!
