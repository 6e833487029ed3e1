//! The writes that apply a profile: in what order they are made, what they
//! leave in the files, and how the activation ended.

use crate::error::Error;
use crate::sysfs::{Node, Store, Write};
use vstd::prelude::*;

verus! {

/// The writes that apply a profile. The writes of one group are made in
/// order; the groups do not depend on each other.
#[derive(Debug, PartialEq, Eq)]
pub struct Plan {
    pub groups: Vec<Vec<Write>>,
}

impl View for Plan {
    type V = Seq<Seq<Write>>;

    open spec fn view(&self) -> Seq<Seq<Write>> {
        self.groups@.map_values(|group: Vec<Write>| group@)
    }
}

/// Whether write `w` of group `g` was made: a write without a report counts
/// as not made.
pub open spec fn made(done: Seq<Seq<bool>>, g: int, w: int) -> bool {
    0 <= g < done.len() && 0 <= w < done[g].len() && done[g][w]
}

/// Whether every write of the plan was made.
pub open spec fn all_made(groups: Seq<Seq<Write>>, done: Seq<Seq<bool>>) -> bool {
    forall|g: int, w: int|
        0 <= g < groups.len() && 0 <= w < groups[g].len() ==> #[trigger] made(done, g, w)
}

/// Whether write `w` of group `g` is the first of the plan that was not
/// made, in the order of the groups and, in a group, of its writes.
pub open spec fn is_first_failure(
    groups: Seq<Seq<Write>>,
    done: Seq<Seq<bool>>,
    g: int,
    w: int,
) -> bool {
    &&& 0 <= g < groups.len()
    &&& 0 <= w < groups[g].len()
    &&& !made(done, g, w)
    &&& forall|h: int, v: int|
        0 <= h < groups.len() && 0 <= v < groups[h].len() && (h < g || (h == g && v < w))
            ==> #[trigger] made(done, h, v)
}

/// What the reports of a plan's groups hold, group by group.
pub open spec fn reports_of(done: Seq<Vec<bool>>) -> Seq<Seq<bool>> {
    done.map_values(|group: Vec<bool>| group@)
}

impl Plan {
    /// The plan without writes.
    pub fn empty() -> (plan: Plan)
        ensures
            plan@ == Seq::<Seq<Write>>::empty(),
    {
        let plan = Plan { groups: Vec::new() };
        assert(plan@ =~= Seq::<Seq<Write>>::empty());
        plan
    }

    /// How an activation ended, from the report of each write: `true` where
    /// it was made. It succeeds where every write was made. Else it fails
    /// with the first write that was not, whatever came of the writes after
    /// it.
    pub fn outcome(&self, done: &Vec<Vec<bool>>) -> (outcome: Result<(), Error>)
        ensures
            match outcome {
                Ok(()) => all_made(self@, reports_of(done@)),
                Err(error) => exists|g: int, w: int|
                    is_first_failure(self@, reports_of(done@), g, w) && error == Error::Io(
                        self@[g][w].node,
                    ),
            },
    {
        let ghost groups = self@;
        let ghost reports = reports_of(done@);
        let mut g: usize = 0;
        while g < self.groups.len()
            invariant
                g <= self.groups.len(),
                groups == self@,
                reports == reports_of(done@),
                forall|h: int, v: int|
                    0 <= h < g && 0 <= v < groups[h].len() ==> #[trigger] made(reports, h, v),
            decreases self.groups.len() - g,
        {
            let group = &self.groups[g];
            assert(groups[g as int] == group@);
            let mut w: usize = 0;
            while w < group.len()
                invariant
                    g < self.groups.len(),
                    w <= group.len(),
                    groups == self@,
                    groups[g as int] == group@,
                    reports == reports_of(done@),
                    forall|h: int, v: int|
                        0 <= h < g && 0 <= v < groups[h].len() ==> #[trigger] made(reports, h, v),
                    forall|v: int| 0 <= v < w ==> #[trigger] made(reports, g as int, v),
                decreases group.len() - w,
            {
                let was_made = g < done.len() && w < done[g].len() && done[g][w];
                proof {
                    if g < done.len() {
                        assert(reports[g as int] == done@[g as int]@);
                    }
                    assert(was_made == made(reports, g as int, w as int));
                }
                if !was_made {
                    proof {
                        assert(is_first_failure(groups, reports, g as int, w as int));
                    }
                    return Err(Error::Io(group[w].node));
                }
                w += 1;
            }
            g += 1;
        }
        Ok(())
    }
}

/// The store after `writes` were made to it, in order.
pub open spec fn written(store: Store, writes: Seq<Write>) -> Store
    decreases writes.len(),
{
    if writes.len() == 0 {
        store
    } else {
        written(store, writes.drop_last()).insert(
            writes.last().node,
            writes.last().value.spec_text(),
        )
    }
}

/// The store after the writes of `groups` were made to it, group by group.
pub open spec fn written_groups(store: Store, groups: Seq<Seq<Write>>) -> Store
    decreases groups.len(),
{
    if groups.len() == 0 {
        store
    } else {
        written(written_groups(store, groups.drop_last()), groups.last())
    }
}

/// Whether every write of `writes` to `node` carries `text`.
pub open spec fn writes_agree(writes: Seq<Write>, node: Node, text: Seq<char>) -> bool {
    forall|i: int|
        0 <= i < writes.len() && (#[trigger] writes[i]).node == node ==> writes[i].value.spec_text()
            == text
}

/// Whether a write of `writes` goes to `node`.
pub open spec fn writes_touch(writes: Seq<Write>, node: Node) -> bool {
    exists|i: int| 0 <= i < writes.len() && (#[trigger] writes[i]).node == node
}

/// Whether every write of `groups` to `node` carries `text`.
pub open spec fn groups_agree(groups: Seq<Seq<Write>>, node: Node, text: Seq<char>) -> bool {
    forall|g: int| 0 <= g < groups.len() ==> writes_agree(#[trigger] groups[g], node, text)
}

/// Whether a write of `groups` goes to `node`.
pub open spec fn groups_touch(groups: Seq<Seq<Write>>, node: Node) -> bool {
    exists|g: int| 0 <= g < groups.len() && writes_touch(#[trigger] groups[g], node)
}

/// A file holds what was written to it: where every write to `node` carries
/// `text`, and one is made or the file held `text` before, the file holds
/// `text` after the writes.
pub proof fn lemma_written_agreed(store: Store, writes: Seq<Write>, node: Node, text: Seq<char>)
    requires
        writes_agree(writes, node, text),
        writes_touch(writes, node) || (store.contains_key(node) && store[node] == text),
    ensures
        written(store, writes).contains_key(node),
        written(store, writes)[node] == text,
    decreases writes.len(),
{
    if writes.len() > 0 {
        let front = writes.drop_last();
        let last = writes.last();
        assert forall|i: int| 0 <= i < front.len() && (#[trigger] front[i]).node
            == node implies front[i].value.spec_text() == text by {
            assert(front[i] == writes[i]);
        }
        if last.node != node {
            if writes_touch(writes, node) {
                let i = choose|i: int| 0 <= i < writes.len() && (#[trigger] writes[i]).node == node;
                assert(front[i] == writes[i]);
            }
            lemma_written_agreed(store, front, node, text);
        }
    }
}

/// A file holds what was written to it, group by group.
pub proof fn lemma_written_groups_agreed(
    store: Store,
    groups: Seq<Seq<Write>>,
    node: Node,
    text: Seq<char>,
)
    requires
        groups_agree(groups, node, text),
        groups_touch(groups, node) || (store.contains_key(node) && store[node] == text),
    ensures
        written_groups(store, groups).contains_key(node),
        written_groups(store, groups)[node] == text,
    decreases groups.len(),
{
    if groups.len() > 0 {
        let front = groups.drop_last();
        let last = groups.last();
        assert forall|g: int| 0 <= g < front.len() implies writes_agree(
            #[trigger] front[g],
            node,
            text,
        ) by {
            assert(front[g] == groups[g]);
        }
        assert(writes_agree(last, node, text));
        if writes_touch(last, node) {
            lemma_written_agreed(written_groups(store, front), last, node, text);
        } else {
            if groups_touch(groups, node) {
                let g = choose|g: int|
                    0 <= g < groups.len() && writes_touch(#[trigger] groups[g], node);
                assert(front[g] == groups[g]);
            }
            lemma_written_groups_agreed(store, front, node, text);
            lemma_written_agreed(written_groups(store, front), last, node, text);
        }
    }
}

} // verus!
