//! The order in which jobs run.

use vstd::prelude::*;

verus! {

/// A job and the jobs that must have run before it.
pub struct Node {
    pub uuid: u128,
    pub depends_on: Vec<u128>,
}

/// A job and its dependencies, as a sequence.
pub struct NodeView {
    pub uuid: u128,
    pub depends_on: Seq<u128>,
}

impl View for Node {
    type V = NodeView;

    open spec fn view(&self) -> NodeView {
        NodeView { uuid: self.uuid, depends_on: self.depends_on@ }
    }
}

/// The nodes of a list.
pub open spec fn nodes_view(nodes: Seq<Node>) -> Seq<NodeView> {
    nodes.map_values(|n: Node| n@)
}

/// The groups of a list.
pub open spec fn groups_view(groups: Seq<Vec<u128>>) -> Seq<Seq<u128>> {
    groups.map_values(|g: Vec<u128>| g@)
}

/// The job is in one of the groups.
pub open spec fn is_placed(groups: Seq<Seq<u128>>, uuid: u128) -> bool {
    exists|g: int| 0 <= g < groups.len() && (#[trigger] groups[g]).contains(uuid)
}

/// All that the job depends on is in one of the groups.
pub open spec fn ready(node: NodeView, groups: Seq<Seq<u128>>) -> bool {
    forall|d: int|
        0 <= d < node.depends_on.len() ==> is_placed(groups, #[trigger] node.depends_on[d])
}

/// The job is the next one's turn: it is in no group yet, and all that it depends on is.
pub open spec fn due(node: NodeView, groups: Seq<Seq<u128>>) -> bool {
    !is_placed(groups, node.uuid) && ready(node, groups)
}

/// A job of the list has this name, and it is its turn.
pub open spec fn due_by_name(nodes: Seq<NodeView>, groups: Seq<Seq<u128>>, uuid: u128) -> bool {
    exists|i: int|
        0 <= i < nodes.len() && due(#[trigger] nodes[i], groups) && nodes[i].uuid == uuid
}

/// The jobs whose turn it is once the jobs of `groups` have run.
pub open spec fn next_group(nodes: Seq<NodeView>, groups: Seq<Seq<u128>>) -> Seq<u128>
    decreases nodes.len(),
{
    if nodes.len() == 0 {
        Seq::empty()
    } else if due(nodes.last(), groups) {
        next_group(nodes.drop_last(), groups).push(nodes.last().uuid)
    } else {
        next_group(nodes.drop_last(), groups)
    }
}

/// The first `k` groups.
pub open spec fn rounds(nodes: Seq<NodeView>, k: nat) -> Seq<Seq<u128>>
    decreases k,
{
    if k == 0 {
        Seq::empty()
    } else {
        rounds(nodes, (k - 1) as nat).push(next_group(nodes, rounds(nodes, (k - 1) as nat)))
    }
}

/// Every job is in one of the groups.
pub open spec fn all_placed(nodes: Seq<NodeView>, groups: Seq<Seq<u128>>) -> bool {
    forall|i: int| 0 <= i < nodes.len() ==> is_placed(groups, (#[trigger] nodes[i]).uuid)
}

/// The groups in which the jobs run: each holds the jobs whose turn it is after the ones before,
/// none is empty, and together they hold every job.
pub open spec fn run_groups(nodes: Seq<NodeView>, groups: Seq<Seq<u128>>) -> bool {
    &&& groups == rounds(nodes, groups.len())
    &&& forall|g: int| 0 <= g < groups.len() ==> (#[trigger] groups[g]).len() > 0
    &&& all_placed(nodes, groups)
}

/// After `k` groups jobs are left over, and it is the turn of none.
pub open spec fn stuck(nodes: Seq<NodeView>, k: nat) -> bool {
    next_group(nodes, rounds(nodes, k)).len() == 0 && !all_placed(nodes, rounds(nodes, k))
}

/// The number of jobs that are in no group.
spec fn unplaced(nodes: Seq<NodeView>, groups: Seq<Seq<u128>>) -> nat
    decreases nodes.len(),
{
    if nodes.len() == 0 {
        0
    } else {
        unplaced(nodes.drop_last(), groups) + (if is_placed(groups, nodes.last().uuid) {
            0nat
        } else {
            1nat
        })
    }
}

/// A job that is in a group stays there when a group is added.
proof fn lemma_placed_push(groups: Seq<Seq<u128>>, group: Seq<u128>, uuid: u128)
    ensures
        is_placed(groups.push(group), uuid) <==> is_placed(groups, uuid) || group.contains(uuid),
{
    let more = groups.push(group);
    if is_placed(groups, uuid) {
        let g = choose|g: int| 0 <= g < groups.len() && (#[trigger] groups[g]).contains(uuid);
        assert(more[g].contains(uuid));
    }
    if group.contains(uuid) {
        assert(more[groups.len() as int].contains(uuid));
    }
    if is_placed(more, uuid) {
        let g = choose|g: int| 0 <= g < more.len() && (#[trigger] more[g]).contains(uuid);
        if g < groups.len() {
            assert(groups[g].contains(uuid));
        }
    }
}

/// The next group holds the jobs whose turn it is, and no others.
pub proof fn lemma_next_group(nodes: Seq<NodeView>, groups: Seq<Seq<u128>>)
    ensures
        forall|i: int|
            0 <= i < nodes.len() && due(#[trigger] nodes[i], groups) ==> next_group(
                nodes,
                groups,
            ).contains(nodes[i].uuid),
        forall|j: int|
            0 <= j < next_group(nodes, groups).len() ==> due_by_name(
                nodes,
                groups,
                #[trigger] next_group(nodes, groups)[j],
            ),
    decreases nodes.len(),
{
    if nodes.len() > 0 {
        let less = nodes.drop_last();
        let group = next_group(nodes, groups);
        let rest = next_group(less, groups);
        lemma_next_group(less, groups);
        assert forall|i: int|
            0 <= i < nodes.len() && due(#[trigger] nodes[i], groups) implies group.contains(
            nodes[i].uuid,
        ) by {
            if i < less.len() {
                assert(less[i] == nodes[i]);
                let j = choose|j: int| 0 <= j < rest.len() && rest[j] == nodes[i].uuid;
                assert(group[j] == nodes[i].uuid);
            } else {
                assert(group[group.len() - 1] == nodes[i].uuid);
            }
        }
        assert forall|j: int| 0 <= j < group.len() implies due_by_name(
            nodes,
            groups,
            #[trigger] group[j],
        ) by {
            if j < rest.len() {
                assert(due_by_name(less, groups, rest[j]));
                let i = choose|i: int|
                    0 <= i < less.len() && due(#[trigger] less[i], groups) && less[i].uuid
                        == rest[j];
                assert(nodes[i] == less[i]);
            } else {
                assert(due(nodes[nodes.len() - 1], groups));
            }
        }
    }
}

/// A group that is added leaves no more jobs over than before, and fewer if it places one.
proof fn lemma_unplaced(nodes: Seq<NodeView>, groups: Seq<Seq<u128>>, group: Seq<u128>)
    ensures
        unplaced(nodes, groups.push(group)) <= unplaced(nodes, groups),
        (exists|i: int|
            0 <= i < nodes.len() && group.contains((#[trigger] nodes[i]).uuid) && !is_placed(
                groups,
                nodes[i].uuid,
            )) ==> unplaced(nodes, groups.push(group)) < unplaced(nodes, groups),
    decreases nodes.len(),
{
    if nodes.len() > 0 {
        let less = nodes.drop_last();
        lemma_unplaced(less, groups, group);
        lemma_placed_push(groups, group, nodes.last().uuid);
        if exists|i: int|
            0 <= i < nodes.len() && group.contains((#[trigger] nodes[i]).uuid) && !is_placed(
                groups,
                nodes[i].uuid,
            ) {
            let i = choose|i: int|
                0 <= i < nodes.len() && group.contains((#[trigger] nodes[i]).uuid) && !is_placed(
                    groups,
                    nodes[i].uuid,
                );
            if i < less.len() {
                assert(less[i] == nodes[i]);
            }
        }
    }
}

/// Whether a job is in one of the groups.
fn placed_in(groups: &Vec<Vec<u128>>, uuid: u128) -> (placed: bool)
    ensures
        placed == is_placed(groups_view(groups@), uuid),
{
    let mut g: usize = 0;
    while g < groups.len()
        invariant
            g <= groups@.len(),
            forall|k: int| 0 <= k < g ==> !(#[trigger] groups@[k])@.contains(uuid),
        decreases groups@.len() - g,
    {
        let group = &groups[g];
        let mut j: usize = 0;
        while j < group.len()
            invariant
                g < groups@.len(),
                group@ == groups@[g as int]@,
                j <= group@.len(),
                forall|k: int| 0 <= k < j ==> group@[k] != uuid,
            decreases group@.len() - j,
        {
            if group[j] == uuid {
                assert(group@[j as int] == uuid);
                assert(groups_view(groups@)[g as int] == group@);
                assert(groups_view(groups@)[g as int].contains(uuid));
                return true;
            }
            j += 1;
        }
        g += 1;
    }
    assert forall|k: int| 0 <= k < groups@.len() implies !(#[trigger] groups_view(
        groups@,
    )[k]).contains(uuid) by {
        assert(groups_view(groups@)[k] == groups@[k]@);
    }
    false
}

/// Whether it is a job's turn.
fn is_due(node: &Node, groups: &Vec<Vec<u128>>) -> (turn: bool)
    ensures
        turn == due(node@, groups_view(groups@)),
{
    if placed_in(groups, node.uuid) {
        return false;
    }
    let mut d: usize = 0;
    while d < node.depends_on.len()
        invariant
            d <= node.depends_on@.len(),
            forall|k: int|
                0 <= k < d ==> is_placed(groups_view(groups@), #[trigger] node.depends_on@[k]),
        decreases node.depends_on@.len() - d,
    {
        if !placed_in(groups, node.depends_on[d]) {
            assert(node@.depends_on[d as int] == node.depends_on@[d as int]);
            return false;
        }
        d += 1;
    }
    true
}

/// The jobs whose turn it is.
fn due_jobs(nodes: &Vec<Node>, groups: &Vec<Vec<u128>>) -> (group: Vec<u128>)
    ensures
        group@ == next_group(nodes_view(nodes@), groups_view(groups@)),
{
    let mut group: Vec<u128> = Vec::new();
    let mut i: usize = 0;
    while i < nodes.len()
        invariant
            i <= nodes@.len(),
            group@ == next_group(nodes_view(nodes@).take(i as int), groups_view(groups@)),
        decreases nodes@.len() - i,
    {
        proof {
            let seen = nodes_view(nodes@).take(i + 1);
            assert(seen.drop_last() =~= nodes_view(nodes@).take(i as int));
            assert(seen.last() == nodes@[i as int]@);
        }
        if is_due(&nodes[i], groups) {
            group.push(nodes[i].uuid);
        }
        i += 1;
    }
    assert(nodes_view(nodes@).take(nodes@.len() as int) =~= nodes_view(nodes@));
    group
}

/// A job of the list has this name.
pub open spec fn is_named(nodes: Seq<NodeView>, uuid: u128) -> bool {
    exists|i: int| 0 <= i < nodes.len() && (#[trigger] nodes[i]).uuid == uuid
}

/// The job depends on one that is not in the list.
pub open spec fn waits_for_stranger(nodes: Seq<NodeView>, node: NodeView) -> bool {
    exists|d: int|
        0 <= d < node.depends_on.len() && !is_named(nodes, #[trigger] node.depends_on[d])
}

/// Some job depends on one that is not in the list.
pub open spec fn has_stranger(nodes: Seq<NodeView>) -> bool {
    exists|i: int| 0 <= i < nodes.len() && waits_for_stranger(nodes, #[trigger] nodes[i])
}

/// What is said of jobs that cannot be ordered.
pub open spec fn no_order_message(nodes: Seq<NodeView>) -> Seq<char> {
    if has_stranger(nodes) {
        "A job depends on a job that is not part of the pipeline"@
    } else {
        "The jobs depend on one another in a circle"@
    }
}

/// Whether a job of the list has this name.
fn name_is_known(nodes: &Vec<Node>, uuid: u128) -> (known: bool)
    ensures
        known == is_named(nodes_view(nodes@), uuid),
{
    let mut i: usize = 0;
    while i < nodes.len()
        invariant
            i <= nodes@.len(),
            forall|k: int| 0 <= k < i ==> (#[trigger] nodes_view(nodes@)[k]).uuid != uuid,
        decreases nodes@.len() - i,
    {
        assert(nodes_view(nodes@)[i as int] == nodes@[i as int]@);
        if nodes[i].uuid == uuid {
            return true;
        }
        i += 1;
    }
    false
}

/// Whether some job depends on one that is not in the list.
fn stranger_is_wanted(nodes: &Vec<Node>) -> (wanted: bool)
    ensures
        wanted == has_stranger(nodes_view(nodes@)),
{
    let ghost all = nodes_view(nodes@);
    let mut i: usize = 0;
    while i < nodes.len()
        invariant
            all == nodes_view(nodes@),
            i <= nodes@.len(),
            forall|k: int| 0 <= k < i ==> !waits_for_stranger(all, #[trigger] all[k]),
        decreases nodes@.len() - i,
    {
        assert(all[i as int] == nodes@[i as int]@);
        let list = &nodes[i].depends_on;
        let mut d: usize = 0;
        while d < list.len()
            invariant
                all == nodes_view(nodes@),
                i < nodes@.len(),
                all[i as int].depends_on == list@,
                d <= list@.len(),
                forall|k: int| 0 <= k < d ==> is_named(all, #[trigger] list@[k]),
            decreases list@.len() - d,
        {
            if !name_is_known(nodes, list[d]) {
                assert(!is_named(all, all[i as int].depends_on[d as int]));
                assert(waits_for_stranger(all, all[i as int]));
                return true;
            }
            d += 1;
        }
        i += 1;
    }
    false
}

/// Puts jobs into groups that can run one after the other: a job comes as soon as all that it
/// depends on has been. Where jobs wait for one another, or for a job that is not there, they
/// cannot be ordered, and it is said which.
pub fn topological_sort(nodes: &Vec<Node>) -> (sorted: Result<Vec<Vec<u128>>, String>)
    ensures
        match sorted {
            Ok(groups) => run_groups(nodes_view(nodes@), groups_view(groups@)),
            Err(s) => s@ == no_order_message(nodes_view(nodes@)) && exists|k: nat|
                stuck(nodes_view(nodes@), k),
        },
        forall|order: Seq<u128>| runs_in_order(nodes_view(nodes@), order) ==> sorted is Ok,
        forall|rank: spec_fn(u128) -> nat| ranked(nodes_view(nodes@), rank) ==> sorted is Ok,
        sorted matches Ok(groups) ==> (forall|i: int|
            0 <= i < nodes@.len() ==> runs_before(
                groups@,
                groups@.len() as int,
                (#[trigger] nodes@[i]).uuid,
            )),
        sorted matches Ok(groups) ==> ((forall|a: int, b: int|
            0 <= a < b < nodes@.len() ==> (#[trigger] nodes@[a]).uuid != (
            #[trigger] nodes@[b]).uuid) ==> forall|g: int, i: int, d: int|
            0 <= g < groups@.len() && 0 <= i < nodes@.len() && #[trigger] groups@[g]@.contains(
                nodes@[i].uuid,
            ) && 0 <= d < nodes@[i].depends_on@.len() ==> runs_before(
                groups@,
                g,
                #[trigger] nodes@[i].depends_on@[d],
            )),
{
    let ghost all = nodes_view(nodes@);
    let mut groups: Vec<Vec<u128>> = Vec::new();
    assert(groups_view(groups@) =~= Seq::empty());
    loop
        invariant
            all == nodes_view(nodes@),
            groups_view(groups@) == rounds(all, groups@.len()),
            forall|g: int| 0 <= g < groups@.len() ==> (#[trigger] groups@[g])@.len() > 0,
        decreases unplaced(all, groups_view(groups@)),
    {
        let group = due_jobs(nodes, &groups);
        if group.len() == 0 {
            let mut i: usize = 0;
            while i < nodes.len()
                invariant
                    all == nodes_view(nodes@),
                    groups_view(groups@) == rounds(all, groups@.len()),
                    next_group(all, groups_view(groups@)).len() == 0,
                    i <= nodes@.len(),
                    forall|j: int|
                        0 <= j < i ==> is_placed(groups_view(groups@), (#[trigger] all[j]).uuid),
                decreases nodes@.len() - i,
            {
                assert(all[i as int] == nodes@[i as int]@);
                if !placed_in(&groups, nodes[i].uuid) {
                    assert(!is_placed(groups_view(groups@), all[i as int].uuid));
                    assert(stuck(all, groups@.len()));
                    proof {
                        assert forall|order: Seq<u128>| !runs_in_order(all, order) by {
                            law_refused_jobs_have_no_order(all, groups@.len(), order);
                        }
                        assert forall|rank: spec_fn(u128) -> nat| !ranked(all, rank) by {
                            law_ranked_jobs_are_ordered(all, groups@.len(), rank);
                        }
                    }
                    if stranger_is_wanted(nodes) {
                        return Err(
                            "A job depends on a job that is not part of the pipeline".to_owned(),
                        );
                    }
                    return Err("The jobs depend on one another in a circle".to_owned());
                }
                i += 1;
            }
            assert forall|g: int| 0 <= g < groups@.len() implies (#[trigger] groups_view(
                groups@,
            )[g]).len() > 0 by {
                assert(groups@[g]@.len() > 0);
            }
            proof {
                lemma_all_run(nodes@, groups@);
                if forall|a: int, b: int|
                    0 <= a < b < nodes@.len() ==> (#[trigger] nodes@[a]).uuid != (
                    #[trigger] nodes@[b]).uuid {
                    lemma_all_wait(nodes@, groups@);
                }
            }
            return Ok(groups);
        }
        proof {
            let before = groups_view(groups@);
            lemma_next_group(all, before);
            lemma_unplaced(all, before, group@);
            assert(due_by_name(all, before, group@[0]));
            let i = choose|i: int|
                0 <= i < all.len() && due(#[trigger] all[i], before) && all[i].uuid == group@[0];
            assert(group@.contains(all[i].uuid));
            assert(groups_view(groups@.push(group)) =~= before.push(group@));
        }
        groups.push(group);
    }
}

/// A group is the same, however many come after it.
proof fn lemma_rounds_prefix(nodes: Seq<NodeView>, k: nat, g: nat)
    requires
        g <= k,
    ensures
        rounds(nodes, k).len() == k,
        rounds(nodes, k).take(g as int) == rounds(nodes, g),
        g < k ==> rounds(nodes, k)[g as int] == next_group(nodes, rounds(nodes, g)),
    decreases k,
{
    if k > 0 {
        let before = rounds(nodes, (k - 1) as nat);
        if g < k {
            lemma_rounds_prefix(nodes, (k - 1) as nat, g);
            assert(rounds(nodes, k).take(g as int) =~= before.take(g as int));
        } else {
            lemma_rounds_prefix(nodes, (k - 1) as nat, (k - 1) as nat);
            assert(rounds(nodes, k).take(k as int) =~= rounds(nodes, k));
        }
    } else {
        assert(rounds(nodes, k).take(0) =~= Seq::empty());
    }
}

/// A job of a group is a job of the list, all that it depends on is in the groups before, and it is
/// in none of those itself.
pub proof fn law_dependencies_come_first(nodes: Seq<NodeView>, groups: Seq<Seq<u128>>, g: int, j: int)
    requires
        run_groups(nodes, groups),
        0 <= g < groups.len(),
        0 <= j < groups[g].len(),
    ensures
        exists|i: int|
            0 <= i < nodes.len() && (#[trigger] nodes[i]).uuid == groups[g][j] && ready(
                nodes[i],
                groups.take(g),
            ),
        !is_placed(groups.take(g), groups[g][j]),
{
    lemma_rounds_prefix(nodes, groups.len(), g as nat);
    lemma_next_group(nodes, groups.take(g));
    assert(due_by_name(nodes, groups.take(g), groups[g][j]));
    let i = choose|i: int|
        0 <= i < nodes.len() && due(#[trigger] nodes[i], groups.take(g)) && nodes[i].uuid
            == next_group(nodes, groups.take(g))[j];
    assert(nodes[i].uuid == groups[g][j]);
}

/// Where no two jobs have the same name, the next group names none twice.
proof fn lemma_group_once(nodes: Seq<NodeView>, groups: Seq<Seq<u128>>)
    requires
        forall|a: int, b: int|
            0 <= a < b < nodes.len() ==> (#[trigger] nodes[a]).uuid != (#[trigger] nodes[b]).uuid,
    ensures
        next_group(nodes, groups).no_duplicates(),
    decreases nodes.len(),
{
    if nodes.len() > 0 {
        let less = nodes.drop_last();
        let rest = next_group(less, groups);
        assert forall|a: int, b: int| 0 <= a < b < less.len() implies (#[trigger] less[a]).uuid != (
        #[trigger] less[b]).uuid by {
            assert(nodes[a].uuid != nodes[b].uuid);
        }
        lemma_group_once(less, groups);
        lemma_next_group(less, groups);
        let group = next_group(nodes, groups);
        assert forall|x: int, y: int| 0 <= x < group.len() && 0 <= y < group.len() && x != y implies group[x]
            != group[y] by {
            if x < rest.len() && y == rest.len() {
                lemma_not_in_rest(nodes, groups, x);
            }
            if y < rest.len() && x == rest.len() {
                lemma_not_in_rest(nodes, groups, y);
            }
        }
    }
}

/// The last job is not among the ones before it.
proof fn lemma_not_in_rest(nodes: Seq<NodeView>, groups: Seq<Seq<u128>>, x: int)
    requires
        nodes.len() > 0,
        forall|a: int, b: int|
            0 <= a < b < nodes.len() ==> (#[trigger] nodes[a]).uuid != (#[trigger] nodes[b]).uuid,
        0 <= x < next_group(nodes.drop_last(), groups).len(),
    ensures
        next_group(nodes.drop_last(), groups)[x] != nodes.last().uuid,
{
    let less = nodes.drop_last();
    lemma_next_group(less, groups);
    assert(due_by_name(less, groups, next_group(less, groups)[x]));
    let i = choose|i: int|
        0 <= i < less.len() && due(#[trigger] less[i], groups) && less[i].uuid == next_group(
            less,
            groups,
        )[x];
    assert(nodes[i].uuid != nodes[nodes.len() - 1].uuid);
}

/// Where no two jobs have the same name, every job is in exactly one place of one group.
pub proof fn law_each_job_runs_once(
    nodes: Seq<NodeView>,
    groups: Seq<Seq<u128>>,
    g: int,
    j: int,
    h: int,
    k: int,
)
    requires
        run_groups(nodes, groups),
        forall|a: int, b: int|
            0 <= a < b < nodes.len() ==> (#[trigger] nodes[a]).uuid != (#[trigger] nodes[b]).uuid,
        0 <= g <= h < groups.len(),
        0 <= j < groups[g].len(),
        0 <= k < groups[h].len(),
        groups[g][j] == groups[h][k],
    ensures
        g == h && j == k,
{
    if g < h {
        law_dependencies_come_first(nodes, groups, h, k);
        assert(groups.take(h)[g].contains(groups[g][j]));
    } else {
        lemma_rounds_prefix(nodes, groups.len(), g as nat);
        lemma_group_once(nodes, groups.take(g));
    }
}

/// Every single job that a job depends on is in a group before its own, where no two jobs have the
/// same name.
pub proof fn law_every_dependency_runs_before(
    nodes: Seq<NodeView>,
    groups: Seq<Seq<u128>>,
    g: int,
    i: int,
    d: int,
)
    requires
        run_groups(nodes, groups),
        forall|a: int, b: int|
            0 <= a < b < nodes.len() ==> (#[trigger] nodes[a]).uuid != (#[trigger] nodes[b]).uuid,
        0 <= g < groups.len(),
        0 <= i < nodes.len(),
        groups[g].contains(nodes[i].uuid),
        0 <= d < nodes[i].depends_on.len(),
    ensures
        exists|h: int| 0 <= h < g && (#[trigger] groups[h]).contains(nodes[i].depends_on[d]),
{
    let j = choose|j: int| 0 <= j < groups[g].len() && groups[g][j] == nodes[i].uuid;
    law_dependencies_come_first(nodes, groups, g, j);
    let k = choose|k: int|
        0 <= k < nodes.len() && (#[trigger] nodes[k]).uuid == groups[g][j] && ready(
            nodes[k],
            groups.take(g),
        );
    assert(k == i) by {
        if k < i {
            assert(nodes[k].uuid != nodes[i].uuid);
        }
        if i < k {
            assert(nodes[i].uuid != nodes[k].uuid);
        }
    }
    let before = groups.take(g);
    let wanted = nodes[i].depends_on[d];
    assert(is_placed(before, wanted));
    let h = choose|h: int| 0 <= h < before.len() && (#[trigger] before[h]).contains(wanted);
    assert(before[h] == groups[h]);
}

/// Every job of the list is in some group, every group holds jobs of the list only, and no group is
/// empty.
pub proof fn law_groups_hold_the_jobs(nodes: Seq<NodeView>, groups: Seq<Seq<u128>>)
    requires
        run_groups(nodes, groups),
    ensures
        forall|i: int|
            0 <= i < nodes.len() ==> exists|g: int|
                0 <= g < groups.len() && (#[trigger] groups[g]).contains(
                    (#[trigger] nodes[i]).uuid,
                ),
        forall|g: int, j: int|
            0 <= g < groups.len() && 0 <= j < groups[g].len() ==> exists|i: int|
                0 <= i < nodes.len() && (#[trigger] nodes[i]).uuid == #[trigger] groups[g][j],
        forall|g: int| 0 <= g < groups.len() ==> (#[trigger] groups[g]).len() > 0,
{
    assert forall|g: int, j: int| 0 <= g < groups.len() && 0 <= j < groups[g].len() implies exists|
        i: int,
    |
        0 <= i < nodes.len() && (#[trigger] nodes[i]).uuid == #[trigger] groups[g][j] by {
        law_dependencies_come_first(nodes, groups, g, j);
    }
    assert forall|i: int| 0 <= i < nodes.len() implies exists|g: int|
        0 <= g < groups.len() && (#[trigger] groups[g]).contains((#[trigger] nodes[i]).uuid) by {
        assert(is_placed(groups, nodes[i].uuid));
    }
}

/// No job waits longer than it must: a job behind the first group depends on one of the group right
/// before its own.
pub proof fn law_jobs_run_early(nodes: Seq<NodeView>, groups: Seq<Seq<u128>>, g: int, j: int)
    requires
        run_groups(nodes, groups),
        0 < g < groups.len(),
        0 <= j < groups[g].len(),
    ensures
        exists|i: int, d: int|
            0 <= i < nodes.len() && nodes[i].uuid == groups[g][j] && 0 <= d
                < nodes[i].depends_on.len() && groups[g - 1].contains(
                #[trigger] nodes[i].depends_on[d],
            ),
{
    let now = groups.take(g);
    let earlier = groups.take(g - 1);
    lemma_rounds_prefix(nodes, groups.len(), g as nat);
    lemma_rounds_prefix(nodes, groups.len(), (g - 1) as nat);
    lemma_next_group(nodes, now);
    lemma_next_group(nodes, earlier);
    assert(now =~= earlier.push(groups[g - 1]));
    assert(due_by_name(nodes, now, groups[g][j]));
    let i = choose|i: int|
        0 <= i < nodes.len() && due(#[trigger] nodes[i], now) && nodes[i].uuid == next_group(
            nodes,
            now,
        )[j];
    lemma_placed_push(earlier, groups[g - 1], nodes[i].uuid);
    assert(!due(nodes[i], earlier));
    let d = choose|d: int|
        0 <= d < nodes[i].depends_on.len() && !is_placed(
            earlier,
            #[trigger] nodes[i].depends_on[d],
        );
    lemma_placed_push(earlier, groups[g - 1], nodes[i].depends_on[d]);
    assert(groups[g - 1].contains(nodes[i].depends_on[d]));
}

/// The job is in one of the first `g` groups.
pub open spec fn runs_before(groups: Seq<Vec<u128>>, g: int, uuid: u128) -> bool {
    exists|h: int| 0 <= h < g && (#[trigger] groups[h])@.contains(uuid)
}

/// Every job of a sorted list is in some group, said of the lists themselves.
proof fn lemma_all_run(nodes: Seq<Node>, groups: Seq<Vec<u128>>)
    requires
        run_groups(nodes_view(nodes), groups_view(groups)),
    ensures
        forall|i: int|
            0 <= i < nodes.len() ==> runs_before(
                groups,
                groups.len() as int,
                (#[trigger] nodes[i]).uuid,
            ),
{
    let all = nodes_view(nodes);
    let views = groups_view(groups);
    assert forall|i: int| 0 <= i < nodes.len() implies runs_before(
        groups,
        groups.len() as int,
        (#[trigger] nodes[i]).uuid,
    ) by {
        assert(all[i] == nodes[i]@);
        assert(is_placed(views, all[i].uuid));
        let g = choose|g: int| 0 <= g < views.len() && (#[trigger] views[g]).contains(all[i].uuid);
        assert(views[g] == groups[g]@);
    }
}

/// Every single job that a job depends on runs before it, said of the lists themselves.
proof fn lemma_all_wait(nodes: Seq<Node>, groups: Seq<Vec<u128>>)
    requires
        run_groups(nodes_view(nodes), groups_view(groups)),
        forall|a: int, b: int|
            0 <= a < b < nodes.len() ==> (#[trigger] nodes[a]).uuid != (#[trigger] nodes[b]).uuid,
    ensures
        forall|g: int, i: int, d: int|
            0 <= g < groups.len() && 0 <= i < nodes.len() && #[trigger] groups[g]@.contains(
                nodes[i].uuid,
            ) && 0 <= d < nodes[i].depends_on@.len() ==> runs_before(
                groups,
                g,
                #[trigger] nodes[i].depends_on@[d],
            ),
{
    let all = nodes_view(nodes);
    let views = groups_view(groups);
    assert forall|a: int, b: int| 0 <= a < b < all.len() implies (#[trigger] all[a]).uuid != (
    #[trigger] all[b]).uuid by {
        assert(nodes[a].uuid != nodes[b].uuid);
    }
    assert forall|g: int, i: int, d: int|
        0 <= g < groups.len() && 0 <= i < nodes.len() && #[trigger] groups[g]@.contains(
            nodes[i].uuid,
        ) && 0 <= d < nodes[i].depends_on@.len() implies runs_before(
        groups,
        g,
        #[trigger] nodes[i].depends_on@[d],
    ) by {
        assert(views[g] == groups[g]@);
        assert(all[i] == nodes[i]@);
        law_every_dependency_runs_before(all, views, g, i, d);
        let h = choose|h: int| 0 <= h < g && (#[trigger] views[h]).contains(all[i].depends_on[d]);
        assert(views[h] == groups[h]@);
    }
}

/// What is said of jobs that cannot be ordered is that one depends on a job that is not in the list,
/// exactly if one does, and otherwise that they depend on one another.
pub proof fn law_no_order_message(nodes: Seq<NodeView>)
    ensures
        (exists|i: int, d: int|
            0 <= i < nodes.len() && 0 <= d < nodes[i].depends_on.len() && (forall|k: int|
                0 <= k < nodes.len() ==> (#[trigger] nodes[k]).uuid
                    != #[trigger] nodes[i].depends_on[d])) ==> no_order_message(nodes)
            == "A job depends on a job that is not part of the pipeline"@,
        (forall|i: int, d: int|
            0 <= i < nodes.len() && 0 <= d < nodes[i].depends_on.len() ==> exists|k: int|
                0 <= k < nodes.len() && (#[trigger] nodes[k]).uuid
                    == #[trigger] nodes[i].depends_on[d]) ==> no_order_message(nodes)
            == "The jobs depend on one another in a circle"@,
{
    if exists|i: int, d: int|
        0 <= i < nodes.len() && 0 <= d < nodes[i].depends_on.len() && (forall|k: int|
            0 <= k < nodes.len() ==> (#[trigger] nodes[k]).uuid
                != #[trigger] nodes[i].depends_on[d]) {
        let (i, d) = choose|i: int, d: int|
            0 <= i < nodes.len() && 0 <= d < nodes[i].depends_on.len() && (forall|k: int|
                0 <= k < nodes.len() ==> (#[trigger] nodes[k]).uuid
                    != #[trigger] nodes[i].depends_on[d]);
        assert(!is_named(nodes, nodes[i].depends_on[d]));
        assert(waits_for_stranger(nodes, nodes[i]));
    }
    if forall|i: int, d: int|
        0 <= i < nodes.len() && 0 <= d < nodes[i].depends_on.len() ==> exists|k: int|
            0 <= k < nodes.len() && (#[trigger] nodes[k]).uuid == #[trigger] nodes[i].depends_on[d] {
        if has_stranger(nodes) {
            let i = choose|i: int|
                0 <= i < nodes.len() && waits_for_stranger(nodes, #[trigger] nodes[i]);
            let d = choose|d: int|
                0 <= d < nodes[i].depends_on.len() && !is_named(
                    nodes,
                    #[trigger] nodes[i].depends_on[d],
                );
            let k = choose|k: int|
                0 <= k < nodes.len() && (#[trigger] nodes[k]).uuid == nodes[i].depends_on[d];
            assert(is_named(nodes, nodes[i].depends_on[d]));
        }
    }
}

/// The jobs can be given ranks such that all that a job depends on is in the list and ranks below it.
pub open spec fn ranked(nodes: Seq<NodeView>, rank: spec_fn(u128) -> nat) -> bool {
    forall|i: int, d: int|
        0 <= i < nodes.len() && 0 <= d < nodes[i].depends_on.len() ==> rank(
            #[trigger] nodes[i].depends_on[d],
        ) < rank(nodes[i].uuid) && exists|k: int|
            0 <= k < nodes.len() && (#[trigger] nodes[k]).uuid == nodes[i].depends_on[d]
}

/// Where no job is due any more, every job that has a rank is in a group.
proof fn lemma_ranked_is_placed(
    nodes: Seq<NodeView>,
    k: nat,
    rank: spec_fn(u128) -> nat,
    i: int,
)
    requires
        ranked(nodes, rank),
        next_group(nodes, rounds(nodes, k)).len() == 0,
        0 <= i < nodes.len(),
    ensures
        is_placed(rounds(nodes, k), nodes[i].uuid),
    decreases rank(nodes[i].uuid),
{
    let groups = rounds(nodes, k);
    assert forall|d: int| 0 <= d < nodes[i].depends_on.len() implies is_placed(
        groups,
        #[trigger] nodes[i].depends_on[d],
    ) by {
        let m = choose|m: int|
            0 <= m < nodes.len() && (#[trigger] nodes[m]).uuid == nodes[i].depends_on[d];
        lemma_ranked_is_placed(nodes, k, rank, m);
    }
    assert(ready(nodes[i], groups));
    lemma_next_group(nodes, groups);
    if !is_placed(groups, nodes[i].uuid) {
        assert(due(nodes[i], groups));
    }
}

/// Jobs that can be given ranks, each above all that it depends on, are never refused.
pub proof fn law_ranked_jobs_are_ordered(
    nodes: Seq<NodeView>,
    k: nat,
    rank: spec_fn(u128) -> nat,
)
    requires
        stuck(nodes, k),
    ensures
        !ranked(nodes, rank),
{
    if ranked(nodes, rank) {
        assert forall|i: int| 0 <= i < nodes.len() implies is_placed(
            rounds(nodes, k),
            (#[trigger] nodes[i]).uuid,
        ) by {
            lemma_ranked_is_placed(nodes, k, rank, i);
        }
    }
}

/// Where no two jobs have the same name, jobs that are put into groups depend on no job that is not
/// among them.
pub proof fn law_strangers_are_refused(nodes: Seq<NodeView>, groups: Seq<Seq<u128>>)
    requires
        run_groups(nodes, groups),
        forall|a: int, b: int|
            0 <= a < b < nodes.len() ==> (#[trigger] nodes[a]).uuid != (#[trigger] nodes[b]).uuid,
    ensures
        !has_stranger(nodes),
{
    if has_stranger(nodes) {
        let i = choose|i: int| 0 <= i < nodes.len() && waits_for_stranger(nodes, #[trigger] nodes[i]);
        let d = choose|d: int|
            0 <= d < nodes[i].depends_on.len() && !is_named(
                nodes,
                #[trigger] nodes[i].depends_on[d],
            );
        assert(is_placed(groups, nodes[i].uuid));
        let g = choose|g: int|
            0 <= g < groups.len() && (#[trigger] groups[g]).contains(nodes[i].uuid);
        let j = choose|j: int| 0 <= j < groups[g].len() && groups[g][j] == nodes[i].uuid;
        law_dependencies_come_first(nodes, groups, g, j);
        let k = choose|k: int|
            0 <= k < nodes.len() && (#[trigger] nodes[k]).uuid == groups[g][j] && ready(
                nodes[k],
                groups.take(g),
            );
        assert(k == i) by {
            if k < i {
                assert(nodes[k].uuid != nodes[i].uuid);
            }
            if i < k {
                assert(nodes[i].uuid != nodes[k].uuid);
            }
        }
        let before = groups.take(g);
        let wanted = nodes[i].depends_on[d];
        assert(is_placed(before, wanted));
        let h = choose|h: int| 0 <= h < before.len() && (#[trigger] before[h]).contains(wanted);
        assert(before[h] == groups[h]);
        let m = choose|m: int| 0 <= m < groups[h].len() && groups[h][m] == wanted;
        law_dependencies_come_first(nodes, groups, h, m);
    }
}

/// An order in which the jobs could run: it names jobs only, every one of them, and each behind all
/// that it depends on.
pub open spec fn runs_in_order(nodes: Seq<NodeView>, order: Seq<u128>) -> bool {
    &&& forall|p: int|
        0 <= p < order.len() ==> exists|i: int|
            0 <= i < nodes.len() && (#[trigger] nodes[i]).uuid == #[trigger] order[p]
    &&& forall|i: int| 0 <= i < nodes.len() ==> order.contains((#[trigger] nodes[i]).uuid)
    &&& forall|i: int, p: int|
        0 <= i < nodes.len() && 0 <= p < order.len() ==> #[trigger] waits_its_turn(
            nodes[i],
            order,
            p,
        )
}

/// If the job stands at position `p`, all that it depends on stands before it.
pub open spec fn waits_its_turn(node: NodeView, order: Seq<u128>, p: int) -> bool {
    node.uuid == order[p] ==> forall|d: int|
        0 <= d < node.depends_on.len() ==> order.take(p).contains(#[trigger] node.depends_on[d])
}

/// While jobs can still be ordered, one of those that are left over is due.
proof fn lemma_order_is_placed(nodes: Seq<NodeView>, order: Seq<u128>, k: nat, p: int)
    requires
        runs_in_order(nodes, order),
        next_group(nodes, rounds(nodes, k)).len() == 0,
        0 <= p < order.len(),
    ensures
        is_placed(rounds(nodes, k), order[p]),
    decreases p,
{
    let groups = rounds(nodes, k);
    let i = choose|i: int| 0 <= i < nodes.len() && (#[trigger] nodes[i]).uuid == order[p];
    assert forall|d: int| 0 <= d < nodes[i].depends_on.len() implies is_placed(
        groups,
        #[trigger] nodes[i].depends_on[d],
    ) by {
        assert(waits_its_turn(nodes[i], order, p));
        assert(order.take(p).contains(nodes[i].depends_on[d]));
        let q = choose|q: int|
            0 <= q < order.take(p).len() && order.take(p)[q] == nodes[i].depends_on[d];
        lemma_order_is_placed(nodes, order, k, q);
    }
    assert(ready(nodes[i], groups));
    lemma_next_group(nodes, groups);
    if !is_placed(groups, order[p]) {
        assert(due(nodes[i], groups));
    }
}

/// Jobs are refused only if there is no order in which they could run.
pub proof fn law_refused_jobs_have_no_order(nodes: Seq<NodeView>, k: nat, order: Seq<u128>)
    requires
        stuck(nodes, k),
    ensures
        !runs_in_order(nodes, order),
{
    if runs_in_order(nodes, order) {
        assert forall|i: int| 0 <= i < nodes.len() implies is_placed(
            rounds(nodes, k),
            (#[trigger] nodes[i]).uuid,
        ) by {
            assert(order.contains(nodes[i].uuid));
            let p = choose|p: int| 0 <= p < order.len() && order[p] == nodes[i].uuid;
            lemma_order_is_placed(nodes, order, k, p);
        }
    }
}

/// Jobs and groups are seen as they are, in order.
pub proof fn law_jobs_are_seen(nodes: Seq<Node>, groups: Seq<Vec<u128>>)
    ensures
        nodes_view(nodes).len() == nodes.len(),
        forall|i: int|
            0 <= i < nodes.len() ==> (#[trigger] nodes_view(nodes)[i]).uuid == nodes[i].uuid
                && nodes_view(nodes)[i].depends_on == nodes[i].depends_on@,
        groups_view(groups).len() == groups.len(),
        forall|g: int| 0 <= g < groups.len() ==> #[trigger] groups_view(groups)[g] == groups[g]@,
{
}

/// The jobs of the next group come in the order of the list.
proof fn lemma_group_in_order(nodes: Seq<NodeView>, groups: Seq<Seq<u128>>, j: int, k: int)
    requires
        0 <= j < k < next_group(nodes, groups).len(),
    ensures
        exists|a: int, b: int|
            0 <= a < b < nodes.len() && (#[trigger] nodes[a]).uuid == next_group(nodes, groups)[j]
                && (#[trigger] nodes[b]).uuid == next_group(nodes, groups)[k],
    decreases nodes.len(),
{
    let less = nodes.drop_last();
    let rest = next_group(less, groups);
    if k < rest.len() {
        lemma_group_in_order(less, groups, j, k);
        let (a, b) = choose|a: int, b: int|
            0 <= a < b < less.len() && (#[trigger] less[a]).uuid == rest[j] && (
            #[trigger] less[b]).uuid == rest[k];
        assert(nodes[a] == less[a]);
        assert(nodes[b] == less[b]);
    } else {
        lemma_next_group(less, groups);
        assert(due_by_name(less, groups, rest[j]));
        let a = choose|a: int|
            0 <= a < less.len() && due(#[trigger] less[a], groups) && less[a].uuid == rest[j];
        assert(nodes[a] == less[a]);
        assert(nodes[nodes.len() - 1].uuid == next_group(nodes, groups)[k]);
    }
}

/// The jobs of a group come in the order in which the list has them.
pub proof fn law_groups_keep_the_order(
    nodes: Seq<NodeView>,
    groups: Seq<Seq<u128>>,
    g: int,
    j: int,
    k: int,
)
    requires
        run_groups(nodes, groups),
        0 <= g < groups.len(),
        0 <= j < k < groups[g].len(),
    ensures
        exists|a: int, b: int|
            0 <= a < b < nodes.len() && (#[trigger] nodes[a]).uuid == groups[g][j] && (
            #[trigger] nodes[b]).uuid == groups[g][k],
{
    lemma_rounds_prefix(nodes, groups.len(), g as nat);
    lemma_group_in_order(nodes, groups.take(g), j, k);
}

} // verus!
