use vstd::prelude::*;

use crate::actor::{Actor, KeysPressed, UpdateInfo};
use crate::ball::spec_fixed_update;
use crate::math_helper::DT_LIMIT;
use crate::player_paddle::spec_paddle_update;

verus! {

/// The frame-rate cap: a frame is processed only after this much wall
/// time (1/60 s, in microseconds) has passed.
pub const TARGET_FRAMETIME_MICROS: u64 = 16666;

/// The fixed physics quantum (1/60 s, in microseconds): every
/// `fixed_update` call covers exactly this much simulated time.
pub const FIXED_UPDATE_TIME_MICROS: u64 = 16666;

pub fn should_process_frame(elapsed_micros: u64) -> (r: bool)
    ensures
        r == (elapsed_micros >= TARGET_FRAMETIME_MICROS),
{
    elapsed_micros >= TARGET_FRAMETIME_MICROS
}

/// The fixed-timestep accumulator: wall time piles into `carry_micros`,
/// and each frame as many whole quanta as exceed it are paid out as
/// fixed steps.
#[derive(Copy, Clone, Debug, PartialEq, Eq, Structural)]
pub struct FixedTimer {
    pub carry_micros: u64,
}

impl FixedTimer {
    pub fn new() -> (t: FixedTimer)
        ensures
            t.carry_micros == 0,
    {
        FixedTimer { carry_micros: 0 }
    }

    /// Feeds one frame's elapsed wall time in and pays out the number of
    /// fixed steps to run: steps are taken while the carry strictly
    /// exceeds the quantum, so the leftover carry is positive whenever
    /// any step was taken, and never more than one quantum.
    pub fn advance(&mut self, elapsed_micros: u64) -> (steps: u64)
        requires
            old(self).carry_micros + elapsed_micros <= u64::MAX,
        ensures
            steps * FIXED_UPDATE_TIME_MICROS + final(self).carry_micros == old(self).carry_micros
                + elapsed_micros,
            final(self).carry_micros <= FIXED_UPDATE_TIME_MICROS,
            old(self).carry_micros + elapsed_micros <= FIXED_UPDATE_TIME_MICROS ==> steps == 0,
            old(self).carry_micros + elapsed_micros > FIXED_UPDATE_TIME_MICROS
                ==> final(self).carry_micros > 0,
    {
        let mut c: u64 = self.carry_micros + elapsed_micros;
        let ghost c0 = c;
        let mut steps: u64 = 0;
        while c > FIXED_UPDATE_TIME_MICROS
            invariant
                steps * FIXED_UPDATE_TIME_MICROS + c == c0,
                c0 > FIXED_UPDATE_TIME_MICROS ==> c > 0,
                c0 <= FIXED_UPDATE_TIME_MICROS ==> steps == 0,
            decreases c,
        {
            c = c - FIXED_UPDATE_TIME_MICROS;
            steps = steps + 1;
        }
        self.carry_micros = c;
        steps
    }
}

/// One actor's variable-rate update, as the collection sees it: paddles
/// read the keys and resolve against static geometry; the ball, walls
/// and scoreboard do nothing at variable rate.
pub open spec fn spec_update_at(actors: Seq<Actor>, i: int, keys: KeysPressed, dt: int) -> Seq<Actor> {
    match actors[i] {
        Actor::PlayerPaddle(p) => actors.update(
            i,
            Actor::PlayerPaddle(spec_paddle_update(p, actors, i, keys, dt)),
        ),
        _ => actors,
    }
}

/// The whole `update` pass from actor `i` on, in collection order; each
/// actor sees the collection as the previous ones left it.
pub open spec fn spec_update_all_from(
    actors: Seq<Actor>,
    i: int,
    keys: KeysPressed,
    dt: int,
) -> Seq<Actor>
    decreases actors.len() - i,
{
    if i < 0 || i >= actors.len() {
        actors
    } else {
        spec_update_all_from(spec_update_at(actors, i, keys, dt), i + 1, keys, dt)
    }
}

/// One actor's fixed-rate update: only the ball integrates and resolves
/// collisions, possibly writing a score into another actor; `k` chooses
/// its random respawn direction if it scores.
pub open spec fn spec_fixed_at(actors: Seq<Actor>, i: int, dt: int, k: int) -> Seq<Actor> {
    match actors[i] {
        Actor::Ball(b) => {
            let r = spec_fixed_update(b, actors, i, dt, k);
            r.1.update(i, Actor::Ball(r.0))
        },
        _ => actors,
    }
}

/// The whole `fixed_update` pass from actor `i` on, with `ks[i]` the
/// respawn direction the ball in slot `i` would use.
pub open spec fn spec_fixed_all_from(actors: Seq<Actor>, i: int, dt: int, ks: Seq<int>) -> Seq<
    Actor,
>
    decreases actors.len() - i,
        via spec_fixed_all_from_decreases
{
    if i < 0 || i >= actors.len() {
        actors
    } else {
        spec_fixed_all_from(spec_fixed_at(actors, i, dt, ks[i]), i + 1, dt, ks)
    }
}

#[via_fn]
proof fn spec_fixed_all_from_decreases(actors: Seq<Actor>, i: int, dt: int, ks: Seq<int>) {
    if 0 <= i && i < actors.len() {
        lemma_fixed_at_len(actors, i, dt, ks[i]);
    }
}

/// One slot's fixed update keeps the collection's length.
pub proof fn lemma_fixed_at_len(actors: Seq<Actor>, i: int, dt: int, k: int)
    requires
        0 <= i < actors.len(),
    ensures
        spec_fixed_at(actors, i, dt, k).len() == actors.len(),
{
    match actors[i] {
        Actor::Ball(b) => {
            let r = spec_fixed_update(b, actors, i, dt, k);
            crate::ball::lemma_fixed_update_from_len(
                crate::ball::spec_integrate(b, dt),
                actors,
                i,
                0,
                k,
            );
            assert(r.1.len() == actors.len());
            assert(spec_fixed_at(actors, i, dt, k) == r.1.update(i, Actor::Ball(r.0)));
        },
        _ => {},
    }
}

/// The simulation's actor arena: the loop owns it exclusively, actors
/// are addressed by stable index, and none are added or removed while
/// the game runs.
pub struct World {
    pub actors: Vec<Actor>,
}

impl World {
    pub open spec fn wf(self) -> bool {
        forall|j: int| 0 <= j < self.actors@.len() ==> (#[trigger] self.actors@[j]).wf()
    }

    pub fn new() -> (w: World)
        ensures
            w.actors@.len() == 0,
            w.wf(),
    {
        World { actors: Vec::new() }
    }

    /// All actors are constructed once at startup.
    pub fn add_actor(&mut self, a: Actor)
        requires
            a.wf(),
        ensures
            final(self).actors@ == old(self).actors@.push(a),
            old(self).wf() ==> final(self).wf(),
    {
        self.actors.push(a);
    }

    /// Invokes the variable-rate update on every actor once, in
    /// collection order, with the elapsed wall time in `info`.
    pub fn update_all(&mut self, info: &UpdateInfo)
        requires
            old(self).wf(),
            info.elapsed_micros <= DT_LIMIT,
        ensures
            final(self).wf(),
            final(self).actors@ == spec_update_all_from(
                old(self).actors@,
                0,
                info.keys_pressed,
                info.elapsed_micros as int,
            ),
            final(self).actors@.len() == old(self).actors@.len(),
    {
        let ghost a0 = self.actors@;
        let ghost keys = info.keys_pressed;
        let ghost dt = info.elapsed_micros as int;
        let n = self.actors.len();
        let mut i: usize = 0;
        while i < n
            invariant
                self.wf(),
                i <= n,
                n == self.actors@.len(),
                self.actors@.len() == a0.len(),
                keys == info.keys_pressed,
                dt == info.elapsed_micros as int,
                info.elapsed_micros <= DT_LIMIT,
                spec_update_all_from(a0, 0, keys, dt) == spec_update_all_from(
                    self.actors@,
                    i as int,
                    keys,
                    dt,
                ),
            decreases n - i,
        {
            let ghost cur = self.actors@;
            let a = self.actors[i];
            match a {
                Actor::PlayerPaddle(mut p) => {
                    p.update(i, &self.actors, info);
                    self.actors[i] = Actor::PlayerPaddle(p);
                    proof {
                        assert(self.actors@ == spec_update_at(cur, i as int, keys, dt));
                    }
                },
                _ => {
                    proof {
                        assert(self.actors@ == spec_update_at(cur, i as int, keys, dt));
                    }
                },
            }
            proof {
                assert(spec_update_all_from(cur, i as int, keys, dt) == spec_update_all_from(
                    self.actors@,
                    i as int + 1,
                    keys,
                    dt,
                ));
            }
            i += 1;
        }
    }

    /// Invokes the fixed-rate update on every actor once, in collection
    /// order, with exactly the fixed quantum in `info`. The respawn
    /// directions any scoring balls drew are random, so the outcome is
    /// pinned down up to the choice of one direction per slot.
    pub fn fixed_update_all(&mut self, info: &UpdateInfo)
        requires
            old(self).wf(),
            info.elapsed_micros <= DT_LIMIT,
        ensures
            final(self).wf(),
            final(self).actors@.len() == old(self).actors@.len(),
            exists|ks: Seq<int>|
                ks.len() == old(self).actors@.len() && final(self).actors@
                    == spec_fixed_all_from(old(self).actors@, 0, info.elapsed_micros as int, ks),
    {
        let ghost a0 = self.actors@;
        let ghost dt = info.elapsed_micros as int;
        let ghost mut ks_acc: Seq<int> = Seq::empty();
        let n = self.actors.len();
        let mut i: usize = 0;
        while i < n
            invariant
                self.wf(),
                i <= n,
                n == self.actors@.len(),
                self.actors@.len() == a0.len(),
                dt == info.elapsed_micros as int,
                info.elapsed_micros <= DT_LIMIT,
                ks_acc.len() == i as int,
                forall|ks: Seq<int>|
                    (ks.len() == a0.len() && (forall|l: int| 0 <= l < i as int ==> ks[l] == ks_acc[l]))
                        ==> #[trigger] spec_fixed_all_from(a0, 0, dt, ks) == spec_fixed_all_from(
                        self.actors@,
                        i as int,
                        dt,
                        ks,
                    ),
            decreases n - i,
        {
            let ghost cur = self.actors@;
            let a = self.actors[i];
            match a {
                Actor::Ball(mut b) => {
                    let ghost b_in = b;
                    b.fixed_update(i, &mut self.actors, info);
                    let ghost mid = self.actors@;
                    self.actors[i] = Actor::Ball(b);
                    proof {
                        let ki = choose|k: int|
                            (b, mid) == spec_fixed_update(b_in, cur, i as int, dt, k);
                        assert((b, mid) == spec_fixed_update(b_in, cur, i as int, dt, ki));
                        assert(self.actors@ == spec_fixed_at(cur, i as int, dt, ki));
                        let ks_prev = ks_acc;
                        ks_acc = ks_acc.push(ki);
                        assert forall|ks: Seq<int>|
                            ks.len() == a0.len() && (forall|l: int|
                                0 <= l < i as int + 1 ==> ks[l] == ks_acc[l]) implies #[trigger]
                        spec_fixed_all_from(a0, 0, dt, ks) == spec_fixed_all_from(
                            self.actors@,
                            i as int + 1,
                            dt,
                            ks,
                        ) by {
                            assert(forall|l: int| 0 <= l < i as int ==> ks[l] == ks_prev[l]);
                            assert(spec_fixed_all_from(a0, 0, dt, ks) == spec_fixed_all_from(
                                cur,
                                i as int,
                                dt,
                                ks,
                            ));
                            assert(ks[i as int] == ki);
                            assert(spec_fixed_all_from(cur, i as int, dt, ks)
                                == spec_fixed_all_from(
                                spec_fixed_at(cur, i as int, dt, ks[i as int]),
                                i as int + 1,
                                dt,
                                ks,
                            ));
                        }
                    }
                },
                _ => {
                    proof {
                        let ks_prev = ks_acc;
                        ks_acc = ks_acc.push(0);
                        assert forall|ks: Seq<int>|
                            ks.len() == a0.len() && (forall|l: int|
                                0 <= l < i as int + 1 ==> ks[l] == ks_acc[l]) implies #[trigger]
                        spec_fixed_all_from(a0, 0, dt, ks) == spec_fixed_all_from(
                            self.actors@,
                            i as int + 1,
                            dt,
                            ks,
                        ) by {
                            assert(forall|l: int| 0 <= l < i as int ==> ks[l] == ks_prev[l]);
                            assert(spec_fixed_all_from(a0, 0, dt, ks) == spec_fixed_all_from(
                                cur,
                                i as int,
                                dt,
                                ks,
                            ));
                            assert(spec_fixed_at(cur, i as int, dt, ks[i as int]) == cur);
                        }
                    }
                },
            }
            i += 1;
        }
        proof {
            let ksw = ks_acc + Seq::new((a0.len() - ks_acc.len()) as nat, |x: int| 0int);
            assert(ksw.len() == a0.len());
            assert(forall|l: int| 0 <= l < i as int ==> ksw[l] == ks_acc[l]);
            assert(spec_fixed_all_from(a0, 0, dt, ksw) == spec_fixed_all_from(
                self.actors@,
                i as int,
                dt,
                ksw,
            ));
        }
    }
}

} // verus!
