use vstd::prelude::*;
use crate::client_config::ProviderConfiguration;

verus! {

/// The key providers are tried by: their priority, unset ones last.
pub open spec fn priority_key(p: ProviderConfiguration) -> u32 {
    match p.priority {
        Some(x) => x,
        None => u32::MAX,
    }
}

/// Entry `a`, first at position `ia` of the input, comes before entry `b`,
/// first at position `ib`: by key, and by input position among equal keys.
pub open spec fn comes_before(ka: u32, ia: int, kb: u32, ib: int) -> bool {
    ka < kb || (ka == kb && ia < ib)
}

/// Position `t` of the input is one of the first `len` entries of `perm`.
pub open spec fn used_within(perm: Seq<int>, len: int, t: int) -> bool {
    exists|k: int| 0 <= k < len && perm[k] == t
}

/// `sorted` is `orig` reordered by `perm` (entry `k` of `sorted` is entry
/// `perm[k]` of `orig`, each entry of `orig` used once), in priority order,
/// equal priorities keeping their input order.
pub open spec fn is_priority_order(orig: Seq<ProviderConfiguration>, sorted: Seq<ProviderConfiguration>, perm: Seq<int>) -> bool {
    &&& perm.len() == orig.len()
    &&& sorted.len() == orig.len()
    &&& forall|k: int| 0 <= k < perm.len() ==> 0 <= #[trigger] perm[k] < orig.len() && sorted[k] == orig[perm[k]]
    &&& forall|t: int| 0 <= t < orig.len() ==> #[trigger] used_within(perm, perm.len() as int, t)
    &&& forall|k: int, l: int| 0 <= k < l < perm.len() ==> comes_before(
        priority_key(#[trigger] sorted[k]),
        perm[k],
        priority_key(#[trigger] sorted[l]),
        perm[l],
    )
}

/// The priority key of one provider.
pub fn provider_priority(p: &ProviderConfiguration) -> (res: u32)
    ensures
        res == priority_key(*p),
{
    match p.priority {
        Some(x) => x,
        None => u32::MAX,
    }
}

/// Orders providers by priority, lowest first, unset priorities last, as a
/// stable sort does: providers of equal priority keep their order.
pub fn sort_by_priority(providers: Vec<ProviderConfiguration>) -> (sorted: Vec<ProviderConfiguration>)
    ensures
        exists|perm: Seq<int>| is_priority_order(providers@, sorted@, perm),
{
    let ghost orig = providers@;
    let mut v = providers;
    let n = v.len();
    let ghost mut perm: Seq<int> = Seq::new(n as nat, |k: int| k);
    if n == 0 {
        assert(is_priority_order(orig, v@, perm));
        return v;
    }
    assert(perm[0] == 0);
    assert(used_within(perm, 1, 0));
    let mut i: usize = 1;
    while i < n
        invariant
            1 <= i <= n,
            n == orig.len(),
            v@.len() == n,
            perm.len() == n,
            forall|k: int| 0 <= k < n ==> 0 <= #[trigger] perm[k] < n && v@[k] == orig[perm[k]],
            forall|k: int| i <= k < n ==> #[trigger] perm[k] == k,
            forall|t: int| 0 <= t < i ==> #[trigger] used_within(perm, i as int, t),
            forall|k: int| 0 <= k < i ==> #[trigger] perm[k] < i,
            forall|k: int, l: int| 0 <= k < l < i ==> comes_before(
                priority_key(#[trigger] v@[k]),
                perm[k],
                priority_key(#[trigger] v@[l]),
                perm[l],
            ),
        decreases n - i,
    {
        let ghost before_v = v@;
        assert(perm[i as int] == i);
        let x = v.remove(i);
        let kx = provider_priority(&x);
        assert(x == orig[i as int]);
        let mut j: usize = i;
        while j > 0 && provider_priority(&v[j - 1]) > kx
            invariant
                j <= i,
                i < n,
                before_v.len() == n,
                v@ == before_v.remove(i as int),
                forall|m: int| j <= m < i ==> priority_key(#[trigger] before_v[m]) > kx,
            decreases j,
        {
            assert(v@[j - 1] == before_v[j - 1]);
            j = j - 1;
        }
        proof {
            // Keys along the sorted prefix never decrease.
            assert forall|m: int| 0 <= m < j implies priority_key(#[trigger] before_v[m]) <= kx by {
                if j > 0 {
                    let last = j - 1;
                    if m < last {
                        assert(comes_before(priority_key(before_v[m]), perm[m], priority_key(before_v[last]), perm[last]));
                    }
                }
            }
        }
        v.insert(j, x);
        let ghost old_perm = perm;
        proof {
            perm = Seq::new(n as nat, |k: int|
                if k < j { old_perm[k] } else if k == j { i as int } else if k <= i { old_perm[k - 1] } else { old_perm[k] });
            assert forall|k: int| 0 <= k < n implies
                v@[k] == (if k < j { before_v[k] } else if k == j { x } else if k <= i { before_v[k - 1] } else { before_v[k] })
            by {}
            assert forall|k: int| 0 <= k < n implies 0 <= #[trigger] perm[k] < n && v@[k] == orig[perm[k]] by {
                if k < j {
                } else if k == j {
                } else if k <= i {
                    assert(old_perm[k - 1] == perm[k]);
                } else {
                }
            }
            assert forall|t: int| 0 <= t < i + 1 implies #[trigger] used_within(perm, i + 1, t) by {
                if t == i {
                    assert(perm[j as int] == t);
                } else {
                    assert(used_within(old_perm, i as int, t));
                    let k0 = choose|k: int| 0 <= k < i && old_perm[k] == t;
                    if k0 < j {
                        assert(perm[k0] == t);
                    } else {
                        assert(perm[k0 + 1] == t);
                    }
                }
            }
            assert forall|k: int, l: int| 0 <= k < l < i + 1 implies comes_before(
                priority_key(#[trigger] v@[k]),
                perm[k],
                priority_key(#[trigger] v@[l]),
                perm[l],
            ) by {
                let ok = if k < j { k } else { k - 1 };
                let ol = if l < j { l } else { l - 1 };
                if k != j && l != j {
                    assert(v@[k] == before_v[ok] && perm[k] == old_perm[ok]);
                    assert(v@[l] == before_v[ol] && perm[l] == old_perm[ol]);
                    assert(comes_before(priority_key(before_v[ok]), old_perm[ok], priority_key(before_v[ol]), old_perm[ol]));
                } else if k == j {
                    assert(v@[l] == before_v[ol]);
                    assert(priority_key(before_v[ol]) > kx);
                } else {
                    assert(v@[k] == before_v[ok]);
                    assert(priority_key(before_v[ok]) <= kx);
                    assert(old_perm[ok] < i);
                }
            }
        }
        i = i + 1;
    }
    assert forall|t: int| 0 <= t < orig.len() implies #[trigger] used_within(perm, perm.len() as int, t) by {
        assert(used_within(perm, n as int, t));
    }
    assert(is_priority_order(orig, v@, perm));
    v
}

proof fn lemma_prefix_agrees(
    orig: Seq<ProviderConfiguration>,
    s1: Seq<ProviderConfiguration>,
    p1: Seq<int>,
    s2: Seq<ProviderConfiguration>,
    p2: Seq<int>,
    k: int,
)
    requires
        is_priority_order(orig, s1, p1),
        is_priority_order(orig, s2, p2),
        0 <= k <= orig.len(),
    ensures
        forall|m: int| 0 <= m < k ==> p1[m] == p2[m],
    decreases k,
{
    if k > 0 {
        lemma_prefix_agrees(orig, s1, p1, s2, p2, k - 1);
        let c = k - 1;
        let a = p1[c];
        let b = p2[c];
        if a != b {
            let ka = priority_key(orig[a]);
            let kb = priority_key(orig[b]);
            assert(s1[c] == orig[a]);
            assert(s2[c] == orig[b]);
            if comes_before(ka, a, kb, b) {
                // `a` stands in `p2` somewhere; before `c` it would repeat in `p1`,
                // after `c` it would break the order of `p2`.
                assert(used_within(p2, p2.len() as int, a));
                let m = choose|m: int| 0 <= m < p2.len() && p2[m] == a;
                if m < c {
                    assert(p1[m] == a);
                    assert(comes_before(priority_key(s1[m]), p1[m], priority_key(s1[c]), p1[c]));
                } else {
                    assert(s2[m] == orig[a]);
                    assert(comes_before(priority_key(s2[c]), p2[c], priority_key(s2[m]), p2[m]));
                }
            } else {
                assert(comes_before(kb, b, ka, a));
                assert(used_within(p1, p1.len() as int, b));
                let m = choose|m: int| 0 <= m < p1.len() && p1[m] == b;
                if m < c {
                    assert(p2[m] == b);
                    assert(comes_before(priority_key(s2[m]), p2[m], priority_key(s2[c]), p2[c]));
                } else {
                    assert(s1[m] == orig[b]);
                    assert(comes_before(priority_key(s1[c]), p1[c], priority_key(s1[m]), p1[m]));
                }
            }
        }
    }
}

/// The order providers are tried in is fully determined by the input: any
/// two priority orders of the same list are the same list.
pub proof fn priority_order_is_unique(
    orig: Seq<ProviderConfiguration>,
    s1: Seq<ProviderConfiguration>,
    p1: Seq<int>,
    s2: Seq<ProviderConfiguration>,
    p2: Seq<int>,
)
    requires
        is_priority_order(orig, s1, p1),
        is_priority_order(orig, s2, p2),
    ensures
        s1 == s2,
{
    lemma_prefix_agrees(orig, s1, p1, s2, p2, orig.len() as int);
    assert forall|k: int| 0 <= k < s1.len() implies s1[k] == s2[k] by {
        assert(s1[k] == orig[p1[k]]);
        assert(s2[k] == orig[p2[k]]);
    }
    assert(s1 =~= s2);
}

/// In a priority order, keys never decrease, and providers of equal
/// priority keep their input order.
pub proof fn priority_order_is_ascending_and_stable(
    orig: Seq<ProviderConfiguration>,
    sorted: Seq<ProviderConfiguration>,
    perm: Seq<int>,
    k: int,
    l: int,
)
    requires
        is_priority_order(orig, sorted, perm),
        0 <= k < l < sorted.len(),
    ensures
        priority_key(sorted[k]) <= priority_key(sorted[l]),
        priority_key(sorted[k]) == priority_key(sorted[l]) ==> perm[k] < perm[l],
{
    assert(comes_before(priority_key(sorted[k]), perm[k], priority_key(sorted[l]), perm[l]));
}

/// The pause before trying the providers again, in seconds.
pub const RETRY_PAUSE_SECS: u64 = 5;

/// A provider's key is its priority; providers without one come after all
/// others.
pub proof fn unset_priorities_come_last(p: ProviderConfiguration, q: ProviderConfiguration)
    ensures
        p.priority matches Some(x) ==> priority_key(p) == x,
        p.priority is None ==> priority_key(q) <= priority_key(p),
{
}

/// The number of sub-connections a provider's balanced connection gets.
pub fn provider_threads(p: &ProviderConfiguration) -> (res: usize)
    ensures
        res == match p.threads {
            Some(t) => t,
            None => 1,
        },
{
    match p.threads {
        Some(t) => t,
        None => 1,
    }
}

/// The client's walk over its providers: each in turn, then a pause, then
/// again from the first, until cancelled.
pub struct ProviderRotation {
    pub count: usize,
    pub next: usize,
}

/// What the client does next.
#[derive(Clone, Copy, Debug, PartialEq, Eq, Structural)]
pub enum RotationStep {
    /// Bridge through the provider at this position of the sorted list.
    Try { index: usize },
    /// Every provider has been tried: pause, then start over.
    Pause { secs: u64 },
    /// Cancelled: stop.
    Stop,
}

/// Where the client's loop stands when it asks for the next step.
#[derive(Clone, Copy, Debug, PartialEq, Eq, Structural)]
pub enum RotationEvent {
    /// Before the first provider, after a bridge ended, or after a pause:
    /// the loop looks at cancellation here.
    Checked { cancelled: bool },
    /// The provider's balanced connection could not be set up: the loop goes
    /// on to the next provider without looking at cancellation; after the
    /// last provider it looks (`cancelled`) before pausing.
    BalancerFailed { cancelled: bool },
}

/// The rotation's transition: next position and step.
pub open spec fn rotation_step(count: usize, next: usize, event: RotationEvent) -> (usize, RotationStep) {
    let cancelled = match event {
        RotationEvent::Checked { cancelled } => cancelled,
        RotationEvent::BalancerFailed { cancelled } => cancelled && next >= count,
    };
    if cancelled {
        (next, RotationStep::Stop)
    } else if next < count {
        ((next + 1) as usize, RotationStep::Try { index: next })
    } else {
        (0, RotationStep::Pause { secs: RETRY_PAUSE_SECS })
    }
}

impl ProviderRotation {
    /// The next position is at most one past the last provider.
    pub open spec fn wf(self) -> bool {
        self.next <= self.count
    }

    /// A rotation over `count` providers, at the first.
    pub fn new(count: usize) -> (res: ProviderRotation)
        ensures
            res.wf(),
            res.count == count,
            res.next == 0,
    {
        ProviderRotation { count, next: 0 }
    }

    /// The next step: stop where cancellation was seen, else the next
    /// provider in order, or a pause once every provider has been tried (a
    /// provider whose balancer could not be set up is passed over without
    /// looking at cancellation, except after the last provider of a round).
    pub fn next_step(&mut self, event: RotationEvent) -> (step: RotationStep)
        requires
            old(self).wf(),
        ensures
            final(self).wf(),
            final(self).count == old(self).count,
            (final(self).next, step) == rotation_step(old(self).count, old(self).next, event),
    {
        let cancelled = match event {
            RotationEvent::Checked { cancelled } => cancelled,
            RotationEvent::BalancerFailed { cancelled } => cancelled && self.next >= self.count,
        };
        if cancelled {
            RotationStep::Stop
        } else if self.next < self.count {
            let index = self.next;
            self.next = self.next + 1;
            RotationStep::Try { index }
        } else {
            self.next = 0;
            RotationStep::Pause { secs: RETRY_PAUSE_SECS }
        }
    }
}

/// Without cancellation, a round tries every provider once, in order, and
/// then pauses: from the first position, step `k` tries provider `k`.
pub proof fn rotation_tries_each_in_order(count: usize, k: usize)
    requires
        k <= count,
    ensures
        ({
            let (next, step) = rotation_step(count, k, RotationEvent::Checked { cancelled: false });
            &&& k < count ==> step == RotationStep::Try { index: k } && next == k + 1
            &&& k == count ==> step == RotationStep::Pause { secs: RETRY_PAUSE_SECS } && next == 0
        }),
{
}

/// Whether the event saw cancellation.
pub open spec fn saw_cancellation(event: RotationEvent) -> bool {
    match event {
        RotationEvent::Checked { cancelled } => cancelled,
        RotationEvent::BalancerFailed { cancelled } => cancelled,
    }
}

/// The client stops only when cancellation was seen. A failed balancer part
/// way through a round goes on to the next provider as if nothing were
/// cancelled; after the last provider it is looked at like any other point.
pub proof fn rotation_stops_only_when_cancelled(count: usize, next: usize, event: RotationEvent)
    requires
        next <= count,
    ensures
        rotation_step(count, next, event).1 == RotationStep::Stop ==> saw_cancellation(event),
        event is Checked && saw_cancellation(event) ==> rotation_step(count, next, event).1 == RotationStep::Stop,
        next < count && event is BalancerFailed ==> rotation_step(count, next, event)
            == ((next + 1) as usize, RotationStep::Try { index: next }),
        next == count && event is BalancerFailed ==> rotation_step(count, next, event) == rotation_step(
            count,
            next,
            RotationEvent::Checked { cancelled: saw_cancellation(event) },
        ),
        !saw_cancellation(event) && next < count ==> rotation_step(count, next, event)
            == ((next + 1) as usize, RotationStep::Try { index: next }),
        !saw_cancellation(event) && next == count ==> rotation_step(count, next, event)
            == (0usize, RotationStep::Pause { secs: 5 }),
{
}

/// What the server's accept loop met.
#[derive(Clone, Copy, Debug, PartialEq, Eq, Structural)]
pub enum AcceptEvent {
    /// The shutdown signal fired.
    Cancelled,
    /// A connection task ended.
    TaskEnded,
    /// Accepting failed; `cancelled` tells whether shutdown had begun.
    AcceptFailed { cancelled: bool },
    /// A connection came in; `permit` tells whether the limit leaves room.
    Accepted { permit: bool },
}

/// What the server does about it.
#[derive(Clone, Copy, Debug, PartialEq, Eq, Structural)]
pub enum AcceptAction {
    /// Leave the loop and wait for the tasks to end.
    Shutdown,
    /// Go on accepting.
    Continue,
    /// Serve the new connection in a task of its own.
    Serve,
    /// Close the new connection: the limit is reached.
    Reject,
}

/// The server's decision on one event of its accept loop.
pub open spec fn spec_accept_decision(event: AcceptEvent) -> AcceptAction {
    match event {
        AcceptEvent::Cancelled => AcceptAction::Shutdown,
        AcceptEvent::TaskEnded => AcceptAction::Continue,
        AcceptEvent::AcceptFailed { cancelled } => if cancelled { AcceptAction::Shutdown } else { AcceptAction::Continue },
        AcceptEvent::Accepted { permit } => if permit { AcceptAction::Serve } else { AcceptAction::Reject },
    }
}

/// Decides what the server does about one event of its accept loop: it
/// shuts down once cancelled, serves a connection while the limit leaves
/// room and closes it otherwise, and goes on after a failed accept.
pub fn accept_decision(event: AcceptEvent) -> (action: AcceptAction)
    ensures
        action == spec_accept_decision(event),
{
    match event {
        AcceptEvent::Cancelled => AcceptAction::Shutdown,
        AcceptEvent::TaskEnded => AcceptAction::Continue,
        AcceptEvent::AcceptFailed { cancelled } => if cancelled { AcceptAction::Shutdown } else { AcceptAction::Continue },
        AcceptEvent::Accepted { permit } => if permit { AcceptAction::Serve } else { AcceptAction::Reject },
    }
}

/// The server serves exactly the connections accepted with room under the
/// limit, closes exactly those accepted without it, and shuts down exactly
/// when shutdown was signalled or an accept failed after it.
pub proof fn accept_decisions_follow_the_limit(event: AcceptEvent)
    ensures
        spec_accept_decision(event) == AcceptAction::Serve <==> event == (AcceptEvent::Accepted { permit: true }),
        spec_accept_decision(event) == AcceptAction::Reject <==> event == (AcceptEvent::Accepted { permit: false }),
        spec_accept_decision(event) == AcceptAction::Shutdown <==> (event == AcceptEvent::Cancelled || event
            == (AcceptEvent::AcceptFailed { cancelled: true })),
{
}

} // verus!
