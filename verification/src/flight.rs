//! The missiles in flight: firing adds to them, a tick shows and advances them and
//! removes those whose flight is complete.

use vstd::prelude::*;
use crate::fixed::{MAX_STEP, UNIT};
use crate::missile::{Missile, Placement, Scatter};
use crate::sample::scatter;
use crate::target::{all_in_world, closest_enemy, closest_target};
use crate::vec3::Vec3;

verus! {

/// The missiles of `s` whose flight is not complete, in their order.
pub open spec fn in_flight(s: Seq<Missile>) -> Seq<Missile> {
    s.filter(|m: Missile| !m.completed())
}

/// `after` is what one tick of length `dt` leaves of `before`: the missiles whose
/// flight was not complete when the tick began, in their order, each `dt` further on
/// and otherwise as it was.
pub open spec fn is_tick_of(before: Seq<Missile>, after: Seq<Missile>, dt: int) -> bool {
    &&& after.len() == in_flight(before).len()
    &&& forall|k: int|
        0 <= k < after.len() ==> (#[trigger] in_flight(before)[k]).advances_to(after[k], dt)
}

/// The missiles in flight, oldest first.
pub struct Missiles {
    list: Vec<Missile>,
}

impl View for Missiles {
    type V = Seq<Missile>;

    closed spec fn view(&self) -> Seq<Missile> {
        self.list@
    }
}

impl Missiles {
    /// Every missile held can be evaluated.
    pub open spec fn wf(&self) -> bool {
        forall|i: int| 0 <= i < self@.len() ==> (#[trigger] self@[i]).wf()
    }

    /// No missile is in flight.
    pub fn new() -> (s: Missiles)
        ensures
            s@ == Seq::<Missile>::empty(),
            s.wf(),
    {
        Missiles { list: Vec::new() }
    }

    /// How many missiles are in flight.
    pub fn len(&self) -> (n: usize)
        ensures
            n == self@.len(),
    {
        self.list.len()
    }

    /// The missile at `index`, counted from the oldest.
    pub fn get(&self, index: usize) -> (m: Option<Missile>)
        ensures
            m == if index < self@.len() {
                Some(self@[index as int])
            } else {
                None
            },
    {
        if index < self.list.len() {
            Some(self.list[index])
        } else {
            None
        }
    }

    /// One player's attempt to fire, with the random part given: launches a missile
    /// at the closest enemy, or does nothing where there is no enemy.  The enemies
    /// are only read, and the missiles already in flight stay as they are.
    pub fn fire(&mut self, player: Vec3, enemies: &Vec<Vec3>, scatter: Scatter) -> (fired: Option<
        Missile,
    >)
        requires
            old(self).wf(),
            player.in_world(),
            all_in_world(enemies@),
            scatter.in_range(),
        ensures
            final(self).wf(),
            fired is None <==> enemies.len() == 0,
            fired is None ==> final(self)@ == old(self)@,
            fired matches Some(m) ==> final(self)@ == old(self)@.push(m) && m.is_launch(
                player,
                closest_target(player@, enemies@),
                scatter,
            ),
    {
        match closest_enemy(&player, enemies) {
            Some(k) => {
                let m = Missile::launch(player, enemies[k], scatter);
                self.list.push(m);
                proof {
                    assert(self@ =~= old(self)@.push(m));
                    assert forall|i: int| 0 <= i < self@.len() implies (#[trigger] self@[i]).wf() by {
                        if i < old(self)@.len() {
                            assert(old(self)@[i].wf());
                        }
                    }
                }
                Some(m)
            },
            None => None,
        }
    }

    /// Fires for every player when either trigger is active: the key that was just
    /// pressed, or the key that is held.  Each player with an enemy to aim at
    /// launches one missile at the closest one; both triggers together still launch
    /// one.  Returns the missiles launched, in the order of the players.
    pub fn shoot_missile(
        &mut self,
        just_pressed: bool,
        held: bool,
        players: &Vec<Vec3>,
        enemies: &Vec<Vec3>,
    ) -> (fired: Vec<Missile>)
        requires
            old(self).wf(),
            all_in_world(players@),
            all_in_world(enemies@),
        ensures
            final(self).wf(),
            final(self)@ == old(self)@ + fired@,
            fired.len() == if (just_pressed || held) && enemies.len() > 0 {
                players.len()
            } else {
                0
            },
            forall|i: int|
                0 <= i < fired.len() ==> (#[trigger] fired[i]).is_random_launch(
                    players[i],
                    closest_target(players[i]@, enemies@),
                ),
    {
        let mut fired: Vec<Missile> = Vec::new();
        if just_pressed || held {
            let mut rng = rand::thread_rng();
            let mut i: usize = 0;
            while i < players.len()
                invariant
                    i <= players.len(),
                    self.wf(),
                    all_in_world(players@),
                    all_in_world(enemies@),
                    self@ == old(self)@ + fired@,
                    fired.len() == if enemies.len() > 0 {
                        i
                    } else {
                        0
                    },
                    forall|j: int|
                        0 <= j < fired.len() ==> (#[trigger] fired[j]).is_random_launch(
                            players[j],
                            closest_target(players[j]@, enemies@),
                        ),
                decreases players.len() - i,
            {
                let random = scatter(&mut rng);
                let player = players[i];
                match self.fire(player, enemies, random) {
                    Some(m) => {
                        fired.push(m);
                    },
                    None => {},
                }
                i += 1;
            }
        }
        fired
    }

    /// One tick of length `dt`.  For every missile, in order: its placement at the
    /// progress it had when the tick began; then its progress grows by `dt`.  A missile
    /// whose flight was complete when the tick began is shown this once more, marked
    /// `retired`, and is gone when the tick ends.
    pub fn move_missiles(&mut self, dt: u32) -> (shown: Vec<Placement>)
        requires
            old(self).wf(),
            dt <= MAX_STEP,
        ensures
            final(self).wf(),
            shown.len() == old(self)@.len(),
            forall|i: int|
                0 <= i < shown.len() ==> old(self)@[i].shown_as(#[trigger] shown[i]) && shown[i].wf(),
            is_tick_of(old(self)@, final(self)@, dt as int),
    {
        let ghost before = self@;
        let mut shown: Vec<Placement> = Vec::new();
        let mut kept: Vec<Missile> = Vec::new();
        let mut i: usize = 0;
        while i < self.list.len()
            invariant
                i <= self.list.len(),
                self.list@ == before,
                forall|j: int| 0 <= j < before.len() ==> (#[trigger] before[j]).wf(),
                dt <= MAX_STEP,
                shown.len() == i,
                forall|j: int| 0 <= j < i ==> before[j].shown_as(#[trigger] shown[j]) && shown[j].wf(),
                forall|j: int| 0 <= j < kept.len() ==> (#[trigger] kept[j]).wf(),
                is_tick_of(before.take(i as int), kept@, dt as int),
            decreases self.list.len() - i,
        {
            let mut missile: Missile = self.list[i];
            assert(before[i as int].wf());
            let placement = missile.placement();
            shown.push(placement);
            missile.advance(dt);
            proof {
                assert(before.take(i + 1) == before.take(i as int).push(before[i as int]));
                lemma_in_flight_push(before.take(i as int), before[i as int]);
            }
            if !placement.retired {
                kept.push(missile);
            }
            i += 1;
        }
        proof {
            assert(before.take(i as int) == before);
        }
        self.list = kept;
        shown
    }
}

/// The number of ticks of length `dt` after which a flight is complete: `1 / dt`,
/// rounded up.
pub open spec fn ticks_to_complete(dt: int) -> int {
    (UNIT + dt - 1) / dt
}

/// With ticks of one length, the progress first reaches one after
/// `ticks_to_complete(dt)` of them: one tick fewer falls short.
pub proof fn lemma_ticks_to_complete(dt: int)
    requires
        dt > 0,
    ensures
        ticks_to_complete(dt) >= 1,
        (ticks_to_complete(dt) - 1) * dt < UNIT <= ticks_to_complete(dt) * dt,
{
    let x: int = UNIT + dt - 1;
    let n: int = x / dt;
    vstd::arithmetic::div_mod::lemma_fundamental_div_mod(x, dt);
    assert(0 <= x % dt < dt) by (nonlinear_arith)
        requires
            dt > 0,
    ;
    assert(n * dt == dt * n && (n - 1) * dt == dt * n - dt) by (nonlinear_arith);
    assert(n >= 1) by (nonlinear_arith)
        requires
            dt * n >= 1_000_000,
            dt > 0,
    ;
}

/// Nothing is in flight where there is no missile.
pub proof fn lemma_in_flight_empty()
    ensures
        in_flight(Seq::<Missile>::empty()) == Seq::<Missile>::empty(),
{
    reveal(Seq::filter);
}

/// One more missile at the end is one more in flight, unless its flight is complete.
pub proof fn lemma_in_flight_push(s: Seq<Missile>, m: Missile)
    ensures
        in_flight(s.push(m)) == if m.completed() {
            in_flight(s)
        } else {
            in_flight(s).push(m)
        },
{
    s.lemma_filter_push(m, |m: Missile| !m.completed());
}

/// A lone missile is in flight unless its flight is complete.
proof fn lemma_in_flight_single(m: Missile)
    ensures
        in_flight(seq![m]) == if m.completed() {
            Seq::<Missile>::empty()
        } else {
            seq![m]
        },
{
    lemma_in_flight_empty();
    lemma_in_flight_push(Seq::empty(), m);
    assert(seq![m] == Seq::<Missile>::empty().push(m));
}

/// A missile launched before the first of a run of equal ticks is still alone in
/// flight after `k` of them, `k * dt` further on, for every `k` up to
/// `ticks_to_complete(dt)`.
proof fn lemma_progress_after(states: Seq<Seq<Missile>>, m: Missile, dt: int, k: int)
    requires
        dt > 0,
        m.progress == 0,
        states.len() == ticks_to_complete(dt) + 2,
        states[0] == seq![m],
        forall|i: int|
            0 <= i < states.len() - 1 ==> is_tick_of(#[trigger] states[i], states[i + 1], dt),
        0 <= k <= ticks_to_complete(dt),
    ensures
        states[k].len() == 1,
        m.advances_to(states[k][0], k * dt),
    decreases k,
{
    if k == 0 {
        assert(0 * dt == 0) by (nonlinear_arith);
    } else {
        lemma_progress_after(states, m, dt, k - 1);
        lemma_ticks_to_complete(dt);
        let n = ticks_to_complete(dt);
        let x = states[k - 1][0];
        assert((k - 1) * dt <= (n - 1) * dt) by (nonlinear_arith)
            requires
                k <= n,
                dt > 0,
        ;
        assert(states[k - 1] == seq![x]);
        lemma_in_flight_single(x);
        assert(is_tick_of(states[k - 1], states[k - 1 + 1], dt));
        assert(in_flight(states[k - 1])[0].advances_to(states[k][0], dt));
        assert((k - 1) * dt + dt == k * dt) by (nonlinear_arith);
    }
}

/// With ticks of one length `dt`, a missile launched before the first tick is in
/// flight, `k * dt` along, after each of the first `ticks_to_complete(dt)` ticks; its
/// flight is complete after the last of them and not before; and the tick that
/// follows removes it.  `states[k]` holds the missiles after `k` ticks.
pub proof fn lemma_flight_lasts(states: Seq<Seq<Missile>>, m: Missile, dt: int)
    requires
        dt > 0,
        m.progress == 0,
        states.len() == ticks_to_complete(dt) + 2,
        states[0] == seq![m],
        forall|i: int|
            0 <= i < states.len() - 1 ==> is_tick_of(#[trigger] states[i], states[i + 1], dt),
    ensures
        forall|k: int|
            0 <= k <= ticks_to_complete(dt) ==> (#[trigger] states[k]).len() == 1 && m.advances_to(
                states[k][0],
                k * dt,
            ),
        forall|k: int| 0 <= k < ticks_to_complete(dt) ==> !(#[trigger] states[k])[0].completed(),
        states[ticks_to_complete(dt)][0].completed(),
        states[ticks_to_complete(dt) + 1].len() == 0,
{
    let n = ticks_to_complete(dt);
    lemma_ticks_to_complete(dt);
    assert forall|k: int| 0 <= k <= n implies (#[trigger] states[k]).len() == 1 && m.advances_to(
        states[k][0],
        k * dt,
    ) by {
        lemma_progress_after(states, m, dt, k);
    }
    assert forall|k: int| 0 <= k < n implies !(#[trigger] states[k])[0].completed() by {
        lemma_progress_after(states, m, dt, k);
        assert(k * dt <= (n - 1) * dt) by (nonlinear_arith)
            requires
                k <= n - 1,
                dt > 0,
        ;
    }
    lemma_progress_after(states, m, dt, n);
    let last = states[n][0];
    assert(states[n] == seq![last]);
    lemma_in_flight_single(last);
    assert(is_tick_of(states[n], states[n + 1], dt));
}

/// A tick never re-aims: every missile it leaves in flight is one of those that
/// were in flight before, with the start, the target and both control points it had
/// then, and `dt` further on.
pub proof fn lemma_aim_is_frozen(before: Seq<Missile>, after: Seq<Missile>, dt: int, k: int)
    requires
        is_tick_of(before, after, dt),
        0 <= k < after.len(),
    ensures
        exists|j: int| 0 <= j < before.len() && (#[trigger] before[j]).advances_to(after[k], dt),
{
    let alive = |m: Missile| !m.completed();
    let x = in_flight(before)[k];
    assert(in_flight(before).contains(x));
    before.lemma_filter_contains_rev(alive, x);
    let j = choose|j: int| 0 <= j < before.len() && before[j] == x;
    assert(before[j].advances_to(after[k], dt));
}

} // verus!
