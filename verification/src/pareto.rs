//! Dominance between objective vectors, and the bounded front of
//! non-dominated individuals.
use vstd::prelude::*;

verus! {

/// An individual as a mathematical value: its parameters and its fitness.
pub type Entry = (Seq<i64>, Seq<i64>);

/// `a` dominates `b`: no worse in every objective and strictly better in at
/// least one. Smaller is better. Vectors of different arity are incomparable.
pub open spec fn dominates(a: Seq<i64>, b: Seq<i64>) -> bool {
    &&& a.len() == b.len()
    &&& forall|k: int| 0 <= k < a.len() ==> a[k] <= b[k]
    &&& exists|k: int| 0 <= k < a.len() && a[k] < b[k]
}

/// No member dominates another.
pub open spec fn antichain(front: Seq<Entry>) -> bool {
    forall|i: int, j: int|
        0 <= i < front.len() && 0 <= j < front.len() && i != j ==> !dominates(
            #[trigger] front[i].1,
            #[trigger] front[j].1,
        )
}

/// What a front must always be: mutually non-dominated, within its limit,
/// and of at most one member when tracking a single best.
pub open spec fn is_front(front: Seq<Entry>, single: bool, limit: nat) -> bool {
    &&& antichain(front)
    &&& front.len() <= limit
    &&& single ==> front.len() <= 1
}

/// A candidate with fitness `ys` is turned away: some member dominates it,
/// or, when a single best is tracked, it fails to beat some member.
pub open spec fn rejects(front: Seq<Entry>, single: bool, ys: Seq<i64>) -> bool {
    exists|i: int|
        0 <= i < front.len() && (dominates(#[trigger] front[i].1, ys) || (single && !dominates(
            ys,
            front[i].1,
        )))
}

/// The members that a newcomer with fitness `ys` does not dominate, in their
/// old order.
pub open spec fn survivors(front: Seq<Entry>, ys: Seq<i64>) -> Seq<Entry>
    decreases front.len(),
{
    if front.len() == 0 {
        Seq::empty()
    } else if dominates(ys, front.last().1) {
        survivors(front.drop_last(), ys)
    } else {
        survivors(front.drop_last(), ys).push(front.last())
    }
}

/// Eviction: an over-full front loses its earliest members.
pub open spec fn trimmed(front: Seq<Entry>, limit: nat) -> Seq<Entry> {
    if front.len() > limit {
        front.skip(front.len() - limit)
    } else {
        front
    }
}

/// The front after `cand` has been considered.
pub open spec fn considered(front: Seq<Entry>, single: bool, limit: nat, cand: Entry) -> Seq<
    Entry,
> {
    if rejects(front, single, cand.1) {
        front
    } else {
        trimmed(survivors(front, cand.1).push(cand), limit)
    }
}

/// Dominance is transitive.
pub proof fn lemma_dominates_transitive(a: Seq<i64>, b: Seq<i64>, c: Seq<i64>)
    requires
        dominates(a, b),
        dominates(b, c),
    ensures
        dominates(a, c),
{
    let k = choose|k: int| 0 <= k < a.len() && a[k] < b[k];
    assert(a[k] < c[k]);
}

/// Survivors are members of the old front that the newcomer does not
/// dominate, and they still form an antichain.
pub proof fn lemma_survivors(front: Seq<Entry>, ys: Seq<i64>)
    ensures
        survivors(front, ys).len() <= front.len(),
        forall|k: int|
            0 <= k < survivors(front, ys).len() ==> {
                &&& front.contains(#[trigger] survivors(front, ys)[k])
                &&& !dominates(ys, survivors(front, ys)[k].1)
            },
        antichain(front) ==> antichain(survivors(front, ys)),
    decreases front.len(),
{
    if front.len() > 0 {
        let head = front.drop_last();
        let rest = survivors(head, ys);
        lemma_survivors(head, ys);
        assert forall|k: int| 0 <= k < rest.len() implies front.contains(#[trigger] rest[k]) by {
            let j = choose|j: int| 0 <= j < head.len() && head[j] == rest[k];
            assert(front[j] == rest[k]);
        }
        let out = survivors(front, ys);
        if !dominates(ys, front.last().1) {
            assert(out == rest.push(front.last()));
            assert(front[front.len() - 1] == front.last());
            assert(front.contains(front.last()));
        }
        if antichain(front) {
            assert(antichain(head)) by {
                assert forall|i: int, j: int|
                    0 <= i < head.len() && 0 <= j < head.len() && i != j implies !dominates(
                    #[trigger] head[i].1,
                    #[trigger] head[j].1,
                ) by {
                    assert(head[i] == front[i] && head[j] == front[j]);
                }
            }
            if !dominates(ys, front.last().1) {
                let n = front.len() - 1;
                assert forall|i: int, j: int|
                    0 <= i < out.len() && 0 <= j < out.len() && i != j implies !dominates(
                    #[trigger] out[i].1,
                    #[trigger] out[j].1,
                ) by {
                    if i < rest.len() && j < rest.len() {
                        assert(out[i] == rest[i] && out[j] == rest[j]);
                    } else if i < rest.len() {
                        let p = choose|p: int| 0 <= p < head.len() && head[p] == rest[i];
                        assert(front[p] == out[i] && front[n] == out[j]);
                    } else {
                        let p = choose|p: int| 0 <= p < head.len() && head[p] == rest[j];
                        assert(front[p] == out[j] && front[n] == out[i]);
                    }
                }
            }
        }
    }
}

/// Considering a candidate keeps a front a front: afterwards no member
/// dominates another and the limit is respected.
pub proof fn lemma_considered_is_front(front: Seq<Entry>, single: bool, limit: nat, cand: Entry)
    requires
        is_front(front, single, limit),
    ensures
        is_front(considered(front, single, limit, cand), single, limit),
{
    if !rejects(front, single, cand.1) {
        let kept = survivors(front, cand.1);
        lemma_survivors(front, cand.1);
        let grown = kept.push(cand);
        assert forall|i: int, j: int|
            0 <= i < grown.len() && 0 <= j < grown.len() && i != j implies !dominates(
            #[trigger] grown[i].1,
            #[trigger] grown[j].1,
        ) by {
            if i < kept.len() && j < kept.len() {
                assert(grown[i] == kept[i] && grown[j] == kept[j]);
            } else if i < kept.len() {
                assert(grown[i] == kept[i]);
                assert(!dominates(cand.1, kept[i].1));
                let p = choose|p: int| 0 <= p < front.len() && front[p] == kept[i];
                assert(!dominates(front[p].1, cand.1));
            } else {
                assert(grown[j] == kept[j]);
                assert(!dominates(cand.1, kept[j].1));
            }
        }
        let out = trimmed(grown, limit);
        if grown.len() > limit {
            let d = grown.len() - limit;
            assert forall|i: int, j: int|
                0 <= i < out.len() && 0 <= j < out.len() && i != j implies !dominates(
                #[trigger] out[i].1,
                #[trigger] out[j].1,
            ) by {
                assert(out[i] == grown[i + d] && out[j] == grown[j + d]);
            }
        }
        if single && front.len() > 0 {
            if kept.len() > 0 {
                let p = choose|p: int| 0 <= p < front.len() && front[p] == kept[0];
                assert(front.contains(kept[0]));
                assert(dominates(cand.1, front[p].1));
                assert(false);
            }
        }
    }
}

/// When a single best is tracked it never gets worse: after a candidate has
/// been considered the best is the old one, or one that dominates it.
pub proof fn lemma_best_never_worsens(front: Seq<Entry>, limit: nat, cand: Entry)
    requires
        is_front(front, true, limit),
        front.len() == 1,
    ensures
        considered(front, true, limit, cand).len() == 1,
        considered(front, true, limit, cand)[0] == front[0] || dominates(
            considered(front, true, limit, cand)[0].1,
            front[0].1,
        ),
{
    if !rejects(front, true, cand.1) {
        lemma_survivors(front, cand.1);
        let kept = survivors(front, cand.1);
        assert(dominates(cand.1, front[0].1));
        if kept.len() > 0 {
            let p = choose|p: int| 0 <= p < front.len() && front[p] == kept[0];
            assert(front.contains(kept[0]));
            assert(dominates(cand.1, front[p].1));
            assert(false);
        }
        assert(kept.push(cand)[0] == cand);
    }
}

/// A copy of `v`.
pub fn copy_of(v: &Vec<i64>) -> (out: Vec<i64>)
    ensures
        out@ == v@,
{
    let mut out: Vec<i64> = Vec::new();
    let mut k: usize = 0;
    while k < v.len()
        invariant
            k <= v.len(),
            out@ == v@.take(k as int),
        decreases v.len() - k,
    {
        out.push(v[k]);
        proof {
            assert(v@.take(k + 1) == v@.take(k as int).push(v@[k as int]));
        }
        k += 1;
    }
    proof {
        assert(v@.take(v.len() as int) == v@);
    }
    out
}

/// Decides dominance between two fitness vectors.
pub fn is_dominating(a: &Vec<i64>, b: &Vec<i64>) -> (yes: bool)
    ensures
        yes == dominates(a@, b@),
{
    if a.len() != b.len() {
        return false;
    }
    let mut strict = false;
    let mut k: usize = 0;
    while k < a.len()
        invariant
            k <= a.len(),
            a.len() == b.len(),
            forall|j: int| 0 <= j < k ==> a@[j] <= b@[j],
            strict <==> exists|j: int| 0 <= j < k && a@[j] < b@[j],
        decreases a.len() - k,
    {
        if a[k] > b[k] {
            return false;
        }
        if a[k] < b[k] {
            strict = true;
        }
        k += 1;
    }
    strict
}

/// One candidate solution: a parameter vector and its fitness.
pub struct Individual {
    pub xs: Vec<i64>,
    pub ys: Vec<i64>,
}

impl Individual {
    pub open spec fn view(&self) -> Entry {
        (self.xs@, self.ys@)
    }
}

/// A stored sequence of individuals as mathematical entries.
pub open spec fn entries(members: Seq<Individual>) -> Seq<Entry> {
    Seq::new(members.len(), |i: int| members[i]@)
}

/// The front tracker. Its members stand in insertion order; when a
/// newcomer makes it over-full, the earliest-inserted member is evicted.
/// Tracking a single best is the degenerate case in which a newcomer
/// must beat the current member to replace it.
pub struct Pareto {
    limit: usize,
    single: bool,
    members: Vec<Individual>,
}

impl Pareto {
    pub closed spec fn view(&self) -> Seq<Entry> {
        entries(self.members@)
    }

    pub closed spec fn spec_limit(&self) -> usize {
        self.limit
    }

    pub closed spec fn spec_single(&self) -> bool {
        self.single
    }

    pub open spec fn wf(&self) -> bool {
        is_front(self@, self.spec_single(), self.spec_limit() as nat)
    }

    /// An empty front that will hold at most `limit` members.
    pub fn new(limit: usize, single: bool) -> (front: Pareto)
        ensures
            front.wf(),
            front@ == Seq::<Entry>::empty(),
            front.spec_limit() == limit,
            front.spec_single() == single,
    {
        let front = Pareto { limit, single, members: Vec::new() };
        proof {
            assert(front@ =~= Seq::<Entry>::empty());
        }
        front
    }

    /// The most members the front will hold.
    #[verifier::when_used_as_spec(spec_limit)]
    pub fn limit(&self) -> (limit: usize)
        ensures
            limit == self.spec_limit(),
    {
        self.limit
    }

    /// Whether a single best is tracked.
    #[verifier::when_used_as_spec(spec_single)]
    pub fn single(&self) -> (single: bool)
        ensures
            single == self.spec_single(),
    {
        self.single
    }

    /// The number of members.
    pub fn len(&self) -> (n: usize)
        ensures
            n == self@.len(),
    {
        self.members.len()
    }

    /// The member at `index`, counted in insertion order.
    pub fn member(&self, index: usize) -> (m: &Individual)
        requires
            index < self@.len(),
        ensures
            m@ == self@[index as int],
    {
        &self.members[index]
    }

    /// Offers a candidate to the front. It is taken unless `rejects` holds;
    /// taking it removes every member it dominates, appends it, and evicts
    /// the earliest member if the limit is exceeded.
    pub fn consider(&mut self, xs: Vec<i64>, ys: Vec<i64>) -> (taken: bool)
        requires
            old(self).wf(),
        ensures
            final(self).wf(),
            final(self).spec_limit() == old(self).spec_limit(),
            final(self).spec_single() == old(self).spec_single(),
            taken == !rejects(old(self)@, old(self).spec_single(), ys@),
            final(self)@ == considered(
                old(self)@,
                old(self).spec_single(),
                old(self).spec_limit() as nat,
                (xs@, ys@),
            ),
    {
        let ghost before = self@;
        let ghost cand: Entry = (xs@, ys@);
        let n = self.members.len();
        let mut i: usize = 0;
        while i < n
            invariant
                i <= n,
                n == self.members.len(),
                self@ == before,
                before == old(self)@,
                old(self).wf(),
                self.limit == old(self).limit,
                self.single == old(self).single,
                forall|j: int|
                    0 <= j < i ==> !(dominates(#[trigger] before[j].1, ys@) || (self.single
                        && !dominates(ys@, before[j].1))),
            decreases n - i,
        {
            let m = &self.members[i];
            proof {
                assert(before[i as int] == m@);
            }
            if is_dominating(&m.ys, &ys) || (self.single && !is_dominating(&ys, &m.ys)) {
                proof {
                    assert(dominates(before[i as int].1, ys@) || (self.single && !dominates(
                        ys@,
                        before[i as int].1,
                    )));
                }
                return false;
            }
            i += 1;
        }
        let mut kept: Vec<Individual> = Vec::new();
        let mut i: usize = 0;
        proof {
            assert(before.take(0) =~= Seq::<Entry>::empty());
            assert(entries(kept@) =~= Seq::<Entry>::empty());
        }
        while i < n
            invariant
                i <= n,
                n == self.members.len(),
                self@ == before,
                before == old(self)@,
                old(self).wf(),
                self.limit == old(self).limit,
                self.single == old(self).single,
                entries(kept@) == survivors(before.take(i as int), ys@),
            decreases n - i,
        {
            let m = &self.members[i];
            let ghost prior = entries(kept@);
            proof {
                assert(before[i as int] == m@);
                assert(before.take(i + 1).drop_last() =~= before.take(i as int));
                assert(before.take(i + 1).last() == before[i as int]);
            }
            if !is_dominating(&ys, &m.ys) {
                kept.push(Individual { xs: copy_of(&m.xs), ys: copy_of(&m.ys) });
                proof {
                    assert(entries(kept@) =~= prior.push(m@));
                }
            }
            i += 1;
        }
        proof {
            assert(before.take(n as int) =~= before);
            lemma_survivors(before, ys@);
            lemma_considered_is_front(before, self.single, self.limit as nat, cand);
        }
        let ghost base = entries(kept@);
        kept.push(Individual { xs, ys });
        proof {
            assert(entries(kept@) =~= base.push(cand));
        }
        if kept.len() > self.limit {
            let ghost grown = entries(kept@);
            let _ = kept.remove(0);
            proof {
                assert(entries(kept@) =~= grown.skip(1));
            }
        }
        self.members = kept;
        true
    }

    /// The members in insertion order, each as parameters and fitness.
    pub fn front(&self) -> (out: Vec<(Vec<i64>, Vec<i64>)>)
        ensures
            out@.len() == self@.len(),
            forall|i: int|
                0 <= i < out@.len() ==> (#[trigger] out@[i]).0@ == self@[i].0 && out@[i].1@
                    == self@[i].1,
    {
        let mut out: Vec<(Vec<i64>, Vec<i64>)> = Vec::new();
        let mut i: usize = 0;
        while i < self.members.len()
            invariant
                i <= self.members.len(),
                out@.len() == i,
                forall|j: int|
                    0 <= j < i ==> (#[trigger] out@[j]).0@ == self@[j].0 && out@[j].1@
                        == self@[j].1,
            decreases self.members.len() - i,
        {
            let m = &self.members[i];
            out.push((copy_of(&m.xs), copy_of(&m.ys)));
            i += 1;
        }
        out
    }
}

} // verus!
