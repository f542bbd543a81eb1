use vstd::prelude::*;

use crate::steam_renderer::{advanced, aged, expires, ids_ordered, SteamParticle, SteamRendererOptions};
use vstd::arithmetic::div_mod::{lemma_fundamental_div_mod, lemma_fundamental_div_mod_converse};

verus! {

/// The store after one simulation step: every particle advanced, in the same
/// order, and those that reach their lifespan on this step left out.
pub open spec fn step_all(ps: Seq<(u32, SteamParticle)>, o: SteamRendererOptions) -> Seq<(u32, SteamParticle)>
    decreases ps.len(),
{
    if ps.len() == 0 {
        Seq::empty()
    } else {
        let rest = step_all(ps.drop_last(), o);
        let (id, p) = ps.last();
        if expires(p) {
            rest
        } else {
            rest.push((id, advanced(p, o)))
        }
    }
}

/// Whether a particle with the id `id` is in the store.
pub open spec fn has_id(ps: Seq<(u32, SteamParticle)>, id: u32) -> bool {
    exists|j: int| 0 <= j < ps.len() && ps[j].0 == id
}

/// The store after `n` simulation steps.
pub open spec fn run(ps: Seq<(u32, SteamParticle)>, o: SteamRendererOptions, n: nat) -> Seq<(u32, SteamParticle)>
    decreases n,
{
    if n == 0 {
        ps
    } else {
        step_all(run(ps, o, (n - 1) as nat), o)
    }
}

/// A particle after `n` simulation steps, were it never removed.
pub open spec fn advanced_n(p: SteamParticle, o: SteamRendererOptions, n: nat) -> SteamParticle
    decreases n,
{
    if n == 0 {
        p
    } else {
        advanced(advanced_n(p, o, (n - 1) as nat), o)
    }
}

/// Every id after a step is below any bound on the ids before it.
pub proof fn lemma_step_ids_below(ps: Seq<(u32, SteamParticle)>, o: SteamRendererOptions, b: int)
    requires
        forall|m: int| 0 <= m < ps.len() ==> ps[m].0 < b,
    ensures
        forall|j: int| 0 <= j < step_all(ps, o).len() ==> step_all(ps, o)[j].0 < b,
    decreases ps.len(),
{
    if ps.len() > 0 {
        let rest = ps.drop_last();
        assert forall|m: int| 0 <= m < rest.len() implies rest[m].0 < b by {
            assert(rest[m] == ps[m]);
        }
        lemma_step_ids_below(rest, o, b);
        let r = step_all(rest, o);
        let s = step_all(ps, o);
        assert(ps.last().0 < b);
        if !expires(ps.last().1) {
            assert(s == r.push((ps.last().0, advanced(ps.last().1, o))));
            assert forall|j: int| 0 <= j < s.len() implies s[j].0 < b by {
                if j < r.len() {
                    assert(s[j] == r[j]);
                }
            }
        }
    }
}

/// A step keeps the ids in increasing order and below the same bound.
pub proof fn lemma_step_ordered(ps: Seq<(u32, SteamParticle)>, o: SteamRendererOptions, b: int)
    requires
        ids_ordered(ps, b),
    ensures
        ids_ordered(step_all(ps, o), b),
    decreases ps.len(),
{
    if ps.len() > 0 {
        let rest = ps.drop_last();
        assert forall|m: int| 0 <= m < rest.len() implies rest[m].0 < ps.last().0 by {
            assert(rest[m] == ps[m]);
        }
        lemma_step_ordered(rest, o, b);
        lemma_step_ids_below(rest, o, ps.last().0 as int);
    }
}

/// A particle that survives a step is found after it, advanced, under its id.
pub proof fn lemma_step_keeps(ps: Seq<(u32, SteamParticle)>, o: SteamRendererOptions, m: int) -> (j: int)
    requires
        0 <= m < ps.len(),
        !expires(ps[m].1),
    ensures
        0 <= j < step_all(ps, o).len(),
        step_all(ps, o)[j] == (ps[m].0, advanced(ps[m].1, o)),
    decreases ps.len(),
{
    let rest = ps.drop_last();
    let r = step_all(rest, o);
    if m == ps.len() - 1 {
        r.len() as int
    } else {
        assert(rest[m] == ps[m]);
        let j = lemma_step_keeps(rest, o, m);
        if !expires(ps.last().1) {
            assert(step_all(ps, o)[j] == r[j]);
        }
        j
    }
}

/// Where every particle with a given id expires, no particle has that id
/// after the step.
pub proof fn lemma_step_drops(ps: Seq<(u32, SteamParticle)>, o: SteamRendererOptions, id: u32)
    requires
        forall|m: int| 0 <= m < ps.len() && ps[m].0 == id ==> expires(ps[m].1),
    ensures
        forall|j: int| 0 <= j < step_all(ps, o).len() ==> step_all(ps, o)[j].0 != id,
    decreases ps.len(),
{
    if ps.len() > 0 {
        let rest = ps.drop_last();
        assert forall|m: int| 0 <= m < rest.len() && rest[m].0 == id implies expires(rest[m].1) by {
            assert(rest[m] == ps[m]);
        }
        lemma_step_drops(rest, o, id);
        let r = step_all(rest, o);
        let s = step_all(ps, o);
        if !expires(ps.last().1) {
            assert forall|j: int| 0 <= j < s.len() implies s[j].0 != id by {
                if j < r.len() {
                    assert(s[j] == r[j]);
                }
            }
        }
    }
}

/// While a particle stays within its lifespan, each step adds one to its age
/// and leaves its lifespan and flip interval as they were.
pub proof fn lemma_advanced_age(p: SteamParticle, o: SteamRendererOptions, n: nat)
    requires
        p.frames + n <= p.lifespan,
    ensures
        advanced_n(p, o, n).frames == p.frames + n,
        advanced_n(p, o, n).lifespan == p.lifespan,
        advanced_n(p, o, n).frames_between_flips == p.frames_between_flips,
    decreases n,
{
    if n > 0 {
        lemma_advanced_age(p, o, (n - 1) as nat);
    }
}

/// Follows one particle of a store with ordered ids through `n` steps within
/// its lifespan, and returns where it stands after them.
pub proof fn lemma_run_tracks(
    ps: Seq<(u32, SteamParticle)>,
    o: SteamRendererOptions,
    b: int,
    m: int,
    n: nat,
) -> (j: int)
    requires
        ids_ordered(ps, b),
        0 <= m < ps.len(),
        ps[m].1.frames + n < ps[m].1.lifespan,
    ensures
        ids_ordered(run(ps, o, n), b),
        0 <= j < run(ps, o, n).len(),
        run(ps, o, n)[j] == (ps[m].0, advanced_n(ps[m].1, o, n)),
    decreases n,
{
    if n == 0 {
        m
    } else {
        let prev = run(ps, o, (n - 1) as nat);
        let j0 = lemma_run_tracks(ps, o, b, m, (n - 1) as nat);
        lemma_advanced_age(ps[m].1, o, (n - 1) as nat);
        lemma_step_ordered(prev, o, b);
        lemma_step_keeps(prev, o, j0)
    }
}

/// Expiry: a particle spawned with lifespan `L` (at least one step) is in
/// the store at age `k` after each of its first `L - 1` steps, and is gone
/// after exactly `L` steps.
pub proof fn lemma_expiry(ps: Seq<(u32, SteamParticle)>, o: SteamRendererOptions, b: int, m: int)
    requires
        ids_ordered(ps, b),
        0 <= m < ps.len(),
        ps[m].1.frames == 0,
        ps[m].1.lifespan >= 1,
    ensures
        forall|k: nat, j: int|
            k < ps[m].1.lifespan && 0 <= j < run(ps, o, k).len() && #[trigger] run(ps, o, k)[j].0
                == ps[m].0 ==> run(ps, o, k)[j].1.frames == k,
        forall|k: nat| k < ps[m].1.lifespan ==> #[trigger] has_id(run(ps, o, k), ps[m].0),
        !has_id(run(ps, o, ps[m].1.lifespan as nat), ps[m].0),
{
    let id = ps[m].0;
    let p = ps[m].1;
    assert forall|k: nat, i: int|
        k < ps[m].1.lifespan && 0 <= i < run(ps, o, k).len() && #[trigger] run(ps, o, k)[i].0 == ps[m].0
            implies run(ps, o, k)[i].1.frames == k by {
        let j = lemma_run_tracks(ps, o, b, m, k);
        lemma_advanced_age(ps[m].1, o, k);
        let r = run(ps, o, k);
        if i < j {
            assert(r[i].0 < r[j].0);
        } else if j < i {
            assert(r[j].0 < r[i].0);
        }
    }
    assert forall|k: nat| k < ps[m].1.lifespan implies #[trigger] has_id(run(ps, o, k), ps[m].0) by {
        let j = lemma_run_tracks(ps, o, b, m, k);
        assert(run(ps, o, k)[j].0 == ps[m].0);
    }
    let last = (p.lifespan - 1) as nat;
    let prev = run(ps, o, last);
    let j = lemma_run_tracks(ps, o, b, m, last);
    lemma_advanced_age(p, o, last);
    assert forall|i: int| 0 <= i < prev.len() && prev[i].0 == id implies expires(prev[i].1) by {
        if i != j {
            if i < j {
                assert(prev[i].0 < prev[j].0);
            } else {
                assert(prev[j].0 < prev[i].0);
            }
        }
    }
    lemma_step_drops(prev, o, id);
    assert(run(ps, o, p.lifespan as nat) == step_all(prev, o));
}

/// A particle after `n` calls of `update`.
pub open spec fn aged_n(p: SteamParticle, n: nat) -> SteamParticle
    decreases n,
{
    if n == 0 {
        p
    } else {
        aged(aged_n(p, (n - 1) as nat))
    }
}

/// Flip cadence of `update`: counted from a flip or from spawn, over calls
/// that all leave the particle within its lifespan, the orientation changes
/// exactly on calls `d`, `2d`, `3d`, ... where `d = frames_between_flips + 1`,
/// and on no other.
pub proof fn lemma_update_cadence(p: SteamParticle, n: nat)
    requires
        p.frames_since_last_flip == 0,
        p.frames_between_flips < u32::MAX,
        p.frames + n < p.lifespan,
    ensures
        aged_n(p, n).frames_since_last_flip == n as int % (p.frames_between_flips as int + 1),
        aged_n(p, n).left == (p.left != ((n as int / (p.frames_between_flips as int + 1)) % 2 == 1)),
        aged_n(p, n).frames == p.frames + n,
        aged_n(p, n).lifespan == p.lifespan,
        aged_n(p, n).frames_between_flips == p.frames_between_flips,
    decreases n,
{
    if n > 0 {
        let m: int = n - 1;
        let d: int = p.frames_between_flips as int + 1;
        lemma_update_cadence(p, m as nat);
        lemma_fundamental_div_mod(m, d);
        assert(d * (m / d) == (m / d) * d) by (nonlinear_arith);
        if m % d + 1 == d {
            assert(n == (m / d + 1) * d + 0) by (nonlinear_arith)
                requires
                    m == d * (m / d) + m % d,
                    m % d + 1 == d,
                    n == m + 1,
            ;
            lemma_fundamental_div_mod_converse(n as int, d, m / d + 1, 0);
        } else {
            lemma_fundamental_div_mod_converse(n as int, d, m / d, m % d + 1);
        }
    }
}

/// Whole simulation steps change a particle's orientation and counters as
/// the same number of `update` calls does.
pub proof fn lemma_steps_age_like_updates(p: SteamParticle, o: SteamRendererOptions, n: nat)
    ensures
        advanced_n(p, o, n).left == aged_n(p, n).left,
        advanced_n(p, o, n).frames == aged_n(p, n).frames,
        advanced_n(p, o, n).frames_since_last_flip == aged_n(p, n).frames_since_last_flip,
        advanced_n(p, o, n).lifespan == aged_n(p, n).lifespan,
        advanced_n(p, o, n).frames_between_flips == aged_n(p, n).frames_between_flips,
    decreases n,
{
    if n > 0 {
        lemma_steps_age_like_updates(p, o, (n - 1) as nat);
    }
}

/// Flip cadence of the simulation: counted from a flip or from spawn, a
/// particle that stays within its lifespan changes orientation exactly on
/// every `(frames_between_flips + 1)`-th step, and on no other.
pub proof fn lemma_flip_cadence(p: SteamParticle, o: SteamRendererOptions, n: nat)
    requires
        p.frames_since_last_flip == 0,
        p.frames_between_flips < u32::MAX,
        p.frames + n < p.lifespan,
    ensures
        advanced_n(p, o, n).frames_since_last_flip == n as int % (p.frames_between_flips as int + 1),
        advanced_n(p, o, n).left == (p.left != ((n as int / (p.frames_between_flips as int + 1)) % 2
            == 1)),
{
    lemma_update_cadence(p, n);
    lemma_steps_age_like_updates(p, o, n);
}

/// Taking one entry out of a store keeps its ids ordered.
pub proof fn lemma_remove_ordered(ps: Seq<(u32, SteamParticle)>, b: int, j: int)
    requires
        ids_ordered(ps, b),
        0 <= j < ps.len(),
    ensures
        ids_ordered(ps.remove(j), b),
{
    let r = ps.remove(j);
    assert forall|a: int, c: int| 0 <= a < c < r.len() implies r[a].0 < r[c].0 by {
        let a0 = if a < j { a } else { a + 1 };
        let c0 = if c < j { c } else { c + 1 };
        assert(r[a] == ps[a0] && r[c] == ps[c0]);
    }
    assert forall|a: int| 0 <= a < r.len() implies r[a].0 < b by {
        let a0 = if a < j { a } else { a + 1 };
        assert(r[a] == ps[a0]);
    }
}

/// Whether one public call on a store run with settings `o` can take its
/// live particles and next id from `s` to `t`, as the calls' contracts say:
/// a spawn adds one particle under the next id and raises that id by one; a
/// simulation step applies `step_all`; drawing a frame changes neither; a
/// removal takes out one entry, or none.
pub open spec fn store_call(
    s: (Seq<(u32, SteamParticle)>, int),
    t: (Seq<(u32, SteamParticle)>, int),
    o: SteamRendererOptions,
) -> bool {
    ||| exists|p: SteamParticle| t == (#[trigger] s.0.push((s.1 as u32, p)), s.1 + 1)
    ||| t == (step_all(s.0, o), s.1)
    ||| t == s
    ||| exists|j: int| 0 <= j < s.0.len() && t == (#[trigger] s.0.remove(j), s.1)
}

/// The ids stay ordered along a run of calls, and the next id never falls.
pub proof fn lemma_calls_keep_ids_ordered(
    ss: Seq<(Seq<(u32, SteamParticle)>, int)>,
    o: SteamRendererOptions,
    k: int,
)
    requires
        0 <= k < ss.len(),
        ss[0].0.len() == 0,
        ss[0].1 == 0,
        forall|i: int| 0 <= i < ss.len() - 1 ==> #[trigger] store_call(ss[i], ss[i + 1], o),
        forall|i: int| 0 <= i < ss.len() ==> #[trigger] ss[i].1 <= u32::MAX,
    ensures
        ids_ordered(ss[k].0, ss[k].1),
        forall|m: int| 0 <= m <= k ==> #[trigger] ss[m].1 <= ss[k].1,
    decreases k,
{
    if k > 0 {
        lemma_calls_keep_ids_ordered(ss, o, k - 1);
        let s = ss[k - 1];
        let t = ss[k];
        assert(store_call(ss[k - 1], ss[(k - 1) + 1], o));
        assert((k - 1) + 1 == k);
        if exists|p: SteamParticle| t == (#[trigger] s.0.push((s.1 as u32, p)), s.1 + 1) {
            let p = choose|p: SteamParticle| t == (#[trigger] s.0.push((s.1 as u32, p)), s.1 + 1);
            assert(t.0[s.0.len() as int] == (s.1 as u32, p));
            assert forall|a: int| 0 <= a < s.0.len() implies t.0[a] == s.0[a] by {}
        } else if t == (step_all(s.0, o), s.1) {
            lemma_step_ordered(s.0, o, s.1);
        } else if t == s {
        } else {
            let j = choose|j: int| 0 <= j < s.0.len() && t == (#[trigger] s.0.remove(j), s.1);
            lemma_remove_ordered(s.0, s.1, j);
        }
    }
}

/// Id uniqueness over any run of calls on a new store (no particles, next id
/// zero): in every state the live ids are distinct and below the next id, the
/// next id never falls, and an id issued by a spawn was held by no particle of
/// any earlier state, so no id is ever issued twice, removals included.
pub proof fn lemma_ids_never_reused(ss: Seq<(Seq<(u32, SteamParticle)>, int)>, o: SteamRendererOptions)
    requires
        ss.len() > 0,
        ss[0].0.len() == 0,
        ss[0].1 == 0,
        forall|i: int| 0 <= i < ss.len() - 1 ==> #[trigger] store_call(ss[i], ss[i + 1], o),
        forall|i: int| 0 <= i < ss.len() ==> #[trigger] ss[i].1 <= u32::MAX,
    ensures
        forall|k: int, a: int, b: int|
            0 <= k < ss.len() && 0 <= a < b < ss[k].0.len() ==> #[trigger] ss[k].0[a].0 != #[trigger] ss[k].0[b].0,
        forall|m: int, k: int| 0 <= m <= k < ss.len() ==> #[trigger] ss[m].1 <= #[trigger] ss[k].1,
        forall|k: int, m: int, a: int|
            0 <= m <= k < ss.len() - 1 && ss[k + 1].1 != ss[k].1 && 0 <= a < ss[m].0.len()
                ==> #[trigger] ss[m].0[a].0 != #[trigger] ss[k].1,
{
    assert forall|k: int, a: int, b: int|
        0 <= k < ss.len() && 0 <= a < b < ss[k].0.len() implies #[trigger] ss[k].0[a].0
        != #[trigger] ss[k].0[b].0 by {
        lemma_calls_keep_ids_ordered(ss, o, k);
    }
    assert forall|m: int, k: int| 0 <= m <= k < ss.len() implies #[trigger] ss[m].1 <= #[trigger] ss[k].1 by {
        lemma_calls_keep_ids_ordered(ss, o, k);
    }
    assert forall|k: int, m: int, a: int|
        0 <= m <= k < ss.len() - 1 && ss[k + 1].1 != ss[k].1 && 0 <= a < ss[m].0.len()
        implies #[trigger] ss[m].0[a].0 != #[trigger] ss[k].1 by {
        lemma_calls_keep_ids_ordered(ss, o, m);
        lemma_calls_keep_ids_ordered(ss, o, k);
    }
}

} // verus!
