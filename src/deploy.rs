//! Deployment decisions: which entries apply to this machine, which link to
//! make next, and when to stop. The filesystem work itself is done by the
//! caller, which reports each link's outcome back.
use vstd::prelude::*;
use crate::model::{texts, Dartfile, DartfileView, Dotfile, DotfileView, Strategy};

verus! {

/// Whether the two tag lists have a tag in common.
pub open spec fn shares_tag(a: Seq<Seq<char>>, b: Seq<Seq<char>>) -> bool {
    exists|i: int, j: int| 0 <= i < a.len() && 0 <= j < b.len() && a[i] == b[j]
}

/// Whether an entry applies to a machine with these tags.
pub open spec fn applies(d: DotfileView, machine: Seq<Seq<char>>) -> bool {
    shares_tag(d.identifiers, machine)
}

/// The positions, in manifest order, of the applicable entries among the first `n`.
pub open spec fn plan_upto(d: DartfileView, n: int) -> Seq<int>
    decreases n,
{
    if n <= 0 {
        Seq::empty()
    } else if applies(d.dots[n - 1], d.machine) {
        plan_upto(d, n - 1).push(n - 1)
    } else {
        plan_upto(d, n - 1)
    }
}

/// The positions, in manifest order, of all applicable entries.
pub open spec fn plan(d: DartfileView) -> Seq<int> {
    plan_upto(d, d.dots.len() as int)
}

/// A link to create: the entry's position, its source, its destination and how.
#[derive(Debug, PartialEq, Eq)]
pub struct LinkRequest {
    pub index: usize,
    pub location: String,
    pub destination: String,
    pub strategy: Strategy,
}

/// What happened when a requested link was made.
#[derive(Debug, PartialEq, Eq)]
pub enum LinkOutcome {
    /// The link was created.
    Linked,
    /// The source could not be resolved to a real path; the cause as text.
    SourceUnresolved(String),
    /// The link could not be created; the cause as text.
    LinkFailed(String),
}

/// A failed deployment, naming the entry by its position in the manifest.
#[derive(Debug, PartialEq, Eq)]
pub enum DeployError {
    SourceResolutionFailed { index: usize, location: String, cause: String },
    LinkCreationFailed { index: usize, destination: String, cause: String },
}

/// What the deployment asks for next.
#[derive(Debug, PartialEq, Eq)]
pub enum DeployStep {
    /// Create this link and report its outcome.
    Link(LinkRequest),
    /// The deployment is over, with this result.
    Done(Result<(), DeployError>),
}

/// The link that entry `i` asks for.
pub open spec fn request_of(d: Dotfile, i: int) -> LinkRequest {
    LinkRequest {
        index: i as usize,
        location: d.location,
        destination: d.destination,
        strategy: d.strategy,
    }
}

/// The step after the `k`-th applicable entry, given the outcomes reported so far.
pub open spec fn step_at(f: Dartfile, outcomes: Seq<LinkOutcome>, k: int) -> DeployStep
    decreases plan(f@).len() - k,
{
    let p = plan(f@);
    if k < 0 || k >= p.len() {
        DeployStep::Done(Ok(()))
    } else if k >= outcomes.len() {
        DeployStep::Link(request_of(f.dots@[p[k]], p[k]))
    } else {
        match outcomes[k] {
            LinkOutcome::Linked => step_at(f, outcomes, k + 1),
            LinkOutcome::SourceUnresolved(c) => DeployStep::Done(
                Err(
                    DeployError::SourceResolutionFailed {
                        index: p[k] as usize,
                        location: f.dots@[p[k]].location,
                        cause: c,
                    },
                ),
            ),
            LinkOutcome::LinkFailed(c) => DeployStep::Done(
                Err(
                    DeployError::LinkCreationFailed {
                        index: p[k] as usize,
                        destination: f.dots@[p[k]].destination,
                        cause: c,
                    },
                ),
            ),
        }
    }
}

/// The next step of a fail-fast deployment in manifest order, given the
/// outcomes of the links made so far (the `k`-th outcome for the `k`-th link).
pub open spec fn deploy_step(f: Dartfile, outcomes: Seq<LinkOutcome>) -> DeployStep {
    step_at(f, outcomes, 0)
}

/// A plan prefix lists positions below its bound.
pub proof fn lemma_plan_bound(d: DartfileView, n: int)
    requires
        0 <= n,
    ensures
        forall|j: int| 0 <= j < plan_upto(d, n).len() ==> 0 <= #[trigger] plan_upto(d, n)[j] < n,
    decreases n,
{
    if n > 0 {
        lemma_plan_bound(d, n - 1);
        let prev = plan_upto(d, n - 1);
        assert forall|j: int| 0 <= j < plan_upto(d, n).len() implies 0 <= #[trigger] plan_upto(
            d,
            n,
        )[j] < n by {
            if j < prev.len() {
                assert(plan_upto(d, n)[j] == prev[j]);
            }
        }
    }
}

/// A longer plan prefix extends a shorter one, and what it adds lies past the shorter bound.
pub proof fn lemma_plan_prefix(d: DartfileView, m: int, n: int)
    requires
        0 <= m <= n,
    ensures
        plan_upto(d, m).len() <= plan_upto(d, n).len(),
        forall|j: int| 0 <= j < plan_upto(d, m).len() ==> plan_upto(d, n)[j] == plan_upto(d, m)[j],
        forall|j: int|
            plan_upto(d, m).len() <= j < plan_upto(d, n).len() ==> #[trigger] plan_upto(d, n)[j] >= m,
    decreases n - m,
{
    if n > m {
        lemma_plan_prefix(d, m, n - 1);
    }
}

/// Whether two lists of strings have a string in common.
fn have_common_elements(vec1: &[String], vec2: &[String]) -> (r: bool)
    ensures
        r == shares_tag(texts(vec1@), texts(vec2@)),
{
    let mut i: usize = 0;
    while i < vec1.len()
        invariant
            i <= vec1@.len(),
            forall|a: int, b: int|
                0 <= a < i && 0 <= b < vec2@.len() ==> vec1@[a]@ != vec2@[b]@,
        decreases vec1@.len() - i,
    {
        let mut j: usize = 0;
        while j < vec2.len()
            invariant
                i < vec1@.len(),
                j <= vec2@.len(),
                forall|a: int, b: int|
                    0 <= a < i && 0 <= b < vec2@.len() ==> vec1@[a]@ != vec2@[b]@,
                forall|b: int| 0 <= b < j ==> vec1@[i as int]@ != vec2@[b]@,
            decreases vec2@.len() - j,
        {
            if vec1[i] == vec2[j] {
                assert(texts(vec1@)[i as int] == texts(vec2@)[j as int]);
                return true;
            }
            j = j + 1;
        }
        i = i + 1;
    }
    assert(!shares_tag(texts(vec1@), texts(vec2@))) by {
        assert forall|a: int, b: int|
            0 <= a < texts(vec1@).len() && 0 <= b < texts(vec2@).len() implies texts(vec1@)[a]
            != texts(vec2@)[b] by {
            assert(vec1@[a]@ != vec2@[b]@);
        }
    }
    false
}

impl Dotfile {
    /// The link this entry asks for, as entry `index`, on a machine with these
    /// tags: none unless one of its own tags is among them.
    pub fn create_symlink(&self, index: usize, machine_identifiers: &[String]) -> (r: Option<
        LinkRequest,
    >)
        ensures
            applies(self@, texts(machine_identifiers@)) ==> r == Some(request_of(*self, index as int)),
            !applies(self@, texts(machine_identifiers@)) ==> r is None,
    {
        if have_common_elements(self.identifiers.as_slice(), machine_identifiers) {
            Some(
                LinkRequest {
                    index,
                    location: self.location.clone(),
                    destination: self.destination.clone(),
                    strategy: self.strategy,
                },
            )
        } else {
            None
        }
    }
}

impl Dartfile {
    /// The next step of the deployment, given the outcomes of the links made
    /// so far, in order. Entries apply in manifest order when they share a tag
    /// with the machine; others are skipped. The first failed link ends the
    /// deployment with an error naming its entry: nothing after it is linked,
    /// and links made before it stay.
    pub fn create_symlinks(&self, outcomes: &[LinkOutcome]) -> (r: DeployStep)
        ensures
            r == deploy_step(*self, outcomes@),
    {
        let ghost p = plan(self@);
        let n = self.dots.len();
        let mut i: usize = 0;
        let mut k: usize = 0;
        proof {
            lemma_plan_prefix(self@, 0, n as int);
        }
        while i < n
            invariant
                n == self.dots@.len(),
                p == plan(self@),
                i <= n,
                k == plan_upto(self@, i as int).len(),
                k <= p.len(),
                k <= outcomes@.len(),
                forall|j: int| 0 <= j < k ==> p[j] == plan_upto(self@, i as int)[j],
                forall|j: int| 0 <= j < k ==> p[j] < i,
                deploy_step(*self, outcomes@) == step_at(*self, outcomes@, k as int),
            decreases n - i,
        {
            proof {
                lemma_plan_prefix(self@, i as int, n as int);
                lemma_plan_prefix(self@, i + 1, n as int);
                lemma_plan_bound(self@, i + 1);
            }
            match self.dots[i].create_symlink(i, self.machine.identifiers.as_slice()) {
                Some(req) => {
                    assert(p[k as int] == i);
                    if k < outcomes.len() {
                        match &outcomes[k] {
                            LinkOutcome::Linked => {
                                k = k + 1;
                            },
                            LinkOutcome::SourceUnresolved(c) => {
                                return DeployStep::Done(
                                    Err(
                                        DeployError::SourceResolutionFailed {
                                            index: i,
                                            location: self.dots[i].location.clone(),
                                            cause: c.clone(),
                                        },
                                    ),
                                );
                            },
                            LinkOutcome::LinkFailed(c) => {
                                return DeployStep::Done(
                                    Err(
                                        DeployError::LinkCreationFailed {
                                            index: i,
                                            destination: self.dots[i].destination.clone(),
                                            cause: c.clone(),
                                        },
                                    ),
                                );
                            },
                        }
                    } else {
                        return DeployStep::Link(req);
                    }
                },
                None => {},
            }
            i = i + 1;
        }
        DeployStep::Done(Ok(()))
    }
}

/// The position of the entry that a deployment error names.
pub open spec fn failed_entry(e: DeployError) -> usize {
    match e {
        DeployError::SourceResolutionFailed { index, .. } => index,
        DeployError::LinkCreationFailed { index, .. } => index,
    }
}

/// Outcomes that agree up to and including a failure give the same step from any earlier position.
proof fn lemma_step_ignores_later(
    f: Dartfile,
    s: Seq<LinkOutcome>,
    t: Seq<LinkOutcome>,
    k: int,
    m: int,
)
    requires
        0 <= k < m <= plan(f@).len(),
        m <= s.len(),
        m <= t.len(),
        forall|j: int| k <= j < m ==> s[j] == t[j],
        forall|j: int| k <= j < m - 1 ==> s[j] is Linked,
        !(s[m - 1] is Linked),
    ensures
        step_at(f, s, k) == step_at(f, t, k),
        step_at(f, s, k) == step_at(f, s, m - 1),
    decreases m - k,
{
    if k < m - 1 {
        lemma_step_ignores_later(f, s, t, k + 1, m);
    }
}

/// While every outcome so far is a success, the next step links the next applicable entry.
proof fn lemma_step_links_next(f: Dartfile, s: Seq<LinkOutcome>, k: int)
    requires
        0 <= k <= s.len() < plan(f@).len(),
        forall|j: int| k <= j < s.len() ==> s[j] is Linked,
    ensures
        step_at(f, s, k) == DeployStep::Link(
            request_of(f.dots@[plan(f@)[s.len() as int]], plan(f@)[s.len() as int]),
        ),
    decreases s.len() - k,
{
    if k < s.len() {
        lemma_step_links_next(f, s, k + 1);
    }
}

/// Deployment is fail-fast and keeps manifest order: when the links for the
/// first applicable entries succeeded and the next one failed, the entries
/// before it were each asked for in turn, the deployment ends with an error
/// naming the failed entry, and no outcome reported after it changes that
/// (no later entry is attempted).
pub proof fn lemma_fail_fast(f: Dartfile, done: Seq<LinkOutcome>, later: Seq<LinkOutcome>)
    requires
        0 < done.len() <= plan(f@).len(),
        forall|j: int| 0 <= j < done.len() - 1 ==> done[j] is Linked,
        !(done.last() is Linked),
    ensures
        forall|j: int|
            0 <= j < done.len() ==> #[trigger] deploy_step(f, done.subrange(0, j))
                == DeployStep::Link(request_of(f.dots@[plan(f@)[j]], plan(f@)[j])),
        deploy_step(f, done) matches DeployStep::Done(Err(e)) && failed_entry(e) == plan(
            f@,
        )[done.len() - 1] as usize,
        deploy_step(f, done + later) == deploy_step(f, done),
{
    let m = done.len() as int;
    let t = done + later;
    lemma_step_ignores_later(f, done, t, 0, m);
    assert forall|j: int| 0 <= j < done.len() implies #[trigger] deploy_step(
        f,
        done.subrange(0, j),
    ) == DeployStep::Link(request_of(f.dots@[plan(f@)[j]], plan(f@)[j])) by {
        lemma_step_links_next(f, done.subrange(0, j), 0);
    }
}

} // verus!
