//! Rigid-body state and its per-tick velocity integration.

use vstd::prelude::*;

use crate::fixed::{fits64, fxmul, iabs, lemma_mul_bound, lemma_tdiv_mono, SCALE};
use crate::vector::{v3_abs_le, v3_add, v3_scale, V3};

verus! {

/// Per-entity rigid-body state.
#[derive(Clone, Copy, Debug)]
pub struct Rigidbody {
    pub lock_movement: bool,
    pub lock_rotation: bool,
    pub affected_by_gravity: bool,
    pub dynamic_friction: i64,
    pub static_friction: i64,
    pub mass: i64,
    pub inertia_tensor: V3,
    pub linear_velocity: V3,
    pub angular_velocity: V3,
    /// Id of the owning entity, set when attached.
    pub owner: Option<u64>,
}

/// Bounds on time step and gravity under which a tick cannot overflow.
pub open spec fn tick_args_ok(dt: int, gravity: int) -> bool {
    0 <= dt <= 3600 * SCALE as int && iabs(gravity) <= 0x10_0000
}

/// Velocity bounds under which a tick cannot overflow.
pub open spec fn rb_velocities_ok(rb: Rigidbody) -> bool {
    v3_abs_le(rb.linear_velocity, 0x4000_0000) && v3_abs_le(rb.angular_velocity, 0x4000_0000)
}

/// The linear velocity after one tick: gravity pull added to z when the body
/// feels gravity, everything zeroed when movement is locked.
pub open spec fn tick_linear_velocity(rb: Rigidbody, dt: int, gravity: int) -> V3 {
    if rb.lock_movement {
        V3 { x: 0i64, y: 0i64, z: 0i64 }
    } else if rb.affected_by_gravity {
        v3_add(rb.linear_velocity, V3 { x: 0i64, y: 0i64, z: fxmul(gravity, dt) as i64 })
    } else {
        rb.linear_velocity
    }
}

/// The angular velocity after one tick: zeroed when rotation is locked.
pub open spec fn tick_angular_velocity(rb: Rigidbody) -> V3 {
    if rb.lock_rotation {
        V3 { x: 0i64, y: 0i64, z: 0i64 }
    } else {
        rb.angular_velocity
    }
}

impl Default for Rigidbody {
    /// An unlocked, gravity-free unit-mass body at rest with friction 0.6.
    fn default() -> (r: Rigidbody)
        ensures
            r == default_rigidbody(),
    {
        Rigidbody {
            lock_movement: false,
            lock_rotation: false,
            affected_by_gravity: false,
            dynamic_friction: 600,
            static_friction: 600,
            mass: SCALE,
            inertia_tensor: V3 { x: SCALE, y: SCALE, z: SCALE },
            linear_velocity: V3 { x: 0, y: 0, z: 0 },
            angular_velocity: V3 { x: 0, y: 0, z: 0 },
            owner: None,
        }
    }
}

/// The stock rigid body handed out by `Default` and the constructors.
pub open spec fn default_rigidbody() -> Rigidbody {
    Rigidbody {
        lock_movement: false,
        lock_rotation: false,
        affected_by_gravity: false,
        dynamic_friction: 600i64,
        static_friction: 600i64,
        mass: SCALE,
        inertia_tensor: V3 { x: SCALE, y: SCALE, z: SCALE },
        linear_velocity: V3 { x: 0i64, y: 0i64, z: 0i64 },
        angular_velocity: V3 { x: 0i64, y: 0i64, z: 0i64 },
        owner: None,
    }
}

impl Rigidbody {
    /// A stock body of the given mass, unaffected by gravity.
    pub fn new(mass: i64) -> (r: Rigidbody)
        ensures
            r == (Rigidbody { mass, ..default_rigidbody() }),
    {
        let mut r = Self::default();
        r.mass = mass;
        r
    }

    /// A stock body of the given mass that feels gravity.
    pub fn new_with_gravity(mass: i64) -> (r: Rigidbody)
        ensures
            r == (Rigidbody { mass, affected_by_gravity: true, ..default_rigidbody() }),
    {
        let mut r = Self::default();
        r.mass = mass;
        r.affected_by_gravity = true;
        r
    }

    /// One integration tick: applies gravity to the stored linear velocity,
    /// zeroes locked velocities, and returns the position and rotation
    /// deltas computed from the updated velocities — gravity and locks act
    /// before the displacement is measured.
    pub fn tick(&mut self, dt: i64, gravity: i64) -> (deltas: (V3, V3))
        requires
            tick_args_ok(dt as int, gravity as int),
            rb_velocities_ok(*old(self)),
        ensures
            final(self).linear_velocity == tick_linear_velocity(*old(self), dt as int,
                gravity as int),
            final(self).angular_velocity == tick_angular_velocity(*old(self)),
            final(self).lock_movement == old(self).lock_movement,
            final(self).lock_rotation == old(self).lock_rotation,
            final(self).affected_by_gravity == old(self).affected_by_gravity,
            final(self).dynamic_friction == old(self).dynamic_friction,
            final(self).static_friction == old(self).static_friction,
            final(self).mass == old(self).mass,
            final(self).inertia_tensor == old(self).inertia_tensor,
            final(self).owner == old(self).owner,
            deltas.0 == v3_scale(tick_linear_velocity(*old(self), dt as int, gravity as int),
                dt as int),
            deltas.1 == v3_scale(tick_angular_velocity(*old(self)), dt as int),
    {
        proof {
            lemma_tick_products(*self, dt as int, gravity as int);
        }
        if self.affected_by_gravity {
            let pull = crate::fixed::mul_fx(gravity, dt);
            self.linear_velocity = self.linear_velocity.add(
                &V3 { x: 0, y: 0, z: pull },
            );
        }
        if self.lock_movement {
            self.linear_velocity = V3 { x: 0, y: 0, z: 0 };
        }
        if self.lock_rotation {
            self.angular_velocity = V3 { x: 0, y: 0, z: 0 };
        }
        (self.linear_velocity.scale(dt), self.angular_velocity.scale(dt))
    }
}

/// Every product of a tick stays far within range: the gravity pull, the
/// updated velocities and their displacements over the time step.
pub proof fn lemma_tick_products(rb: Rigidbody, dt: int, gravity: int)
    requires
        tick_args_ok(dt, gravity),
        rb_velocities_ok(rb),
    ensures
        iabs(fxmul(gravity, dt)) <= 0x4000_0000_0000,
        fits64(rb.linear_velocity.z + fxmul(gravity, dt)),
        v3_abs_le(tick_linear_velocity(rb, dt, gravity), 0x8000_0000_0000),
        v3_abs_le(tick_angular_velocity(rb), 0x4000_0000),
        iabs(fxmul(tick_linear_velocity(rb, dt, gravity).x as int, dt)) <= 0x800_0000_0000_0000,
        iabs(fxmul(tick_linear_velocity(rb, dt, gravity).y as int, dt)) <= 0x800_0000_0000_0000,
        iabs(fxmul(tick_linear_velocity(rb, dt, gravity).z as int, dt)) <= 0x800_0000_0000_0000,
        iabs(fxmul(tick_angular_velocity(rb).x as int, dt)) <= 0x800_0000_0000_0000,
        iabs(fxmul(tick_angular_velocity(rb).y as int, dt)) <= 0x800_0000_0000_0000,
        iabs(fxmul(tick_angular_velocity(rb).z as int, dt)) <= 0x800_0000_0000_0000,
{
    lemma_mul_bound(gravity, dt, 0x10_0000, 3600 * SCALE as int);
    lemma_tdiv_mono(gravity * dt, SCALE as int, 0x10_0000 * (3600 * SCALE as int));
    let lv = tick_linear_velocity(rb, dt, gravity);
    let av = tick_angular_velocity(rb);
    assert(v3_abs_le(lv, 0x8000_0000_0000));
    lemma_mul_bound(lv.x as int, dt, 0x8000_0000_0000, 3600 * SCALE as int);
    lemma_mul_bound(lv.y as int, dt, 0x8000_0000_0000, 3600 * SCALE as int);
    lemma_mul_bound(lv.z as int, dt, 0x8000_0000_0000, 3600 * SCALE as int);
    lemma_mul_bound(av.x as int, dt, 0x8000_0000_0000, 3600 * SCALE as int);
    lemma_mul_bound(av.y as int, dt, 0x8000_0000_0000, 3600 * SCALE as int);
    lemma_mul_bound(av.z as int, dt, 0x8000_0000_0000, 3600 * SCALE as int);
    lemma_tdiv_mono(lv.x * dt, SCALE as int, 0x8000_0000_0000int * (3600 * SCALE as int));
    lemma_tdiv_mono(lv.y * dt, SCALE as int, 0x8000_0000_0000int * (3600 * SCALE as int));
    lemma_tdiv_mono(lv.z * dt, SCALE as int, 0x8000_0000_0000int * (3600 * SCALE as int));
    lemma_tdiv_mono(av.x * dt, SCALE as int, 0x8000_0000_0000int * (3600 * SCALE as int));
    lemma_tdiv_mono(av.y * dt, SCALE as int, 0x8000_0000_0000int * (3600 * SCALE as int));
    lemma_tdiv_mono(av.z * dt, SCALE as int, 0x8000_0000_0000int * (3600 * SCALE as int));
}

/// The linear velocity of a gravity-affected, unlocked body after `n` ticks
/// with no collisions.
pub open spec fn velocity_after_ticks(v0: V3, dt: int, gravity: int, n: nat) -> V3
    decreases n,
{
    if n == 0 {
        v0
    } else {
        v3_add(
            velocity_after_ticks(v0, dt, gravity, (n - 1) as nat),
            V3 { x: 0i64, y: 0i64, z: fxmul(gravity, dt) as i64 },
        )
    }
}

/// Under gravity alone, the velocity after `n` ticks is exactly the starting
/// velocity plus `n` times the per-tick pull: integration is exact, with no
/// damping and no rounding drift.
pub proof fn lemma_gravity_only_velocity(v0: V3, dt: int, gravity: int, n: nat)
    requires
        tick_args_ok(dt, gravity),
        v3_abs_le(v0, 0x4000_0000),
        n <= 0x1_0000,
    ensures
        velocity_after_ticks(v0, dt, gravity, n).x == v0.x,
        velocity_after_ticks(v0, dt, gravity, n).y == v0.y,
        velocity_after_ticks(v0, dt, gravity, n).z == v0.z + n * fxmul(gravity, dt),
        v3_abs_le(velocity_after_ticks(v0, dt, gravity, n), 0x4000_0000int + n * 0x4000_0000_0000),
    decreases n,
{
    lemma_mul_bound(gravity, dt, 0x10_0000, 3600 * SCALE as int);
    lemma_tdiv_mono(gravity * dt, SCALE as int, 0x10_0000 * (3600 * SCALE as int));
    if n > 0 {
        let m = (n - 1) as nat;
        lemma_gravity_only_velocity(v0, dt, gravity, m);
        let prev = velocity_after_ticks(v0, dt, gravity, m);
        let inc = fxmul(gravity, dt);
        assert(m * 0x4000_0000_0000 + 0x4000_0000_0000 == n * 0x4000_0000_0000)
            by (nonlinear_arith)
            requires
                n == m + 1,
        ;
        assert(m * inc + inc == n * inc) by (nonlinear_arith)
            requires
                n == m + 1,
        ;
        assert(iabs(prev.z as int) <= 0x4000_0000int + m * 0x4000_0000_0000);
        assert(m * 0x4000_0000_0000 <= 0x1_0000 * 0x4000_0000_0000) by (nonlinear_arith)
            requires
                m <= 0x1_0000,
        ;
        assert(velocity_after_ticks(v0, dt, gravity, n) == v3_add(
            prev,
            V3 { x: 0i64, y: 0i64, z: inc as i64 },
        ));
        assert(fits64(prev.z + inc));
        assert(velocity_after_ticks(v0, dt, gravity, n).z == prev.z + inc);
        assert(prev.z + inc == v0.z + m * inc + inc);
        assert(velocity_after_ticks(v0, dt, gravity, n).z == v0.z + n * inc);
    } else {
        assert(n * fxmul(gravity, dt) == 0) by (nonlinear_arith)
            requires
                n == 0,
        ;
        assert(n * 0x4000_0000_0000 == 0) by (nonlinear_arith)
            requires
                n == 0,
        ;
    }
}

} // verus!
