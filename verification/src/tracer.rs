//! The shading engine's control: one `Tracer` follows a primary ray through
//! its mirror bounces and says, step by step, what has to be evaluated next
//! and which contributions enter the colour.
//!
//! The caller owns the numbers. It casts the rays and evaluates the lighting
//! terms the tracer asks for, in the order it asks for them, and reports back
//! the per-object distances each ray produced.

use vstd::prelude::*;
use crate::hit::{in_front, lemma_nearest, nearest, nearest_intersection, Hit};
use crate::scalar::{
    is_greater_than_zero, is_nearer, is_negative, is_positive, lemma_order_of_bits,
};

verus! {

/// The depth a primary ray is traced to: the number of surfaces, each seen in
/// the mirror of the one before, whose colour enters a pixel.
pub const RECURSION_DEPTH: usize = 2;

/// What the tracer is waiting for.
#[derive(Clone, Copy, Debug, PartialEq, Eq, Structural)]
pub enum Stage {
    /// The distances at which the current ray meets each object.
    Intersect,
    /// The distances at which the shadow ray towards the light of this index
    /// meets each object, and the distance to that light.
    Shadow(usize),
    /// The mirror ray at the shaded point.
    Reflect,
    /// Nothing: the colour is complete.
    Done,
}

/// What one step contributes to the colour.
#[derive(Clone, Copy, Debug, PartialEq, Eq, Structural)]
pub enum Shade {
    /// The ray leaves the scene: this bounce has the background colour.
    Background,
    /// The ray sees this surface: the bounce starts with its ambient term.
    Ambient(Hit),
    /// The light of this index reaches the shaded point: add its diffuse term.
    Diffuse(usize),
    /// The light of this index is hidden: it adds nothing.
    Shadowed(usize),
    /// Continue with the mirror ray; what it sees is added, attenuated, to
    /// this bounce.
    Bounce,
}

/// A light is hidden from a shaded point when the shadow ray meets a surface
/// strictly before it reaches the light. A light whose distance is zero,
/// negative or no number is never behind a surface.
pub open spec fn occluded(occluder: Option<Hit>, light_distance: u64) -> bool {
    occluder matches Some(hit) && is_positive(light_distance) && hit.distance < light_distance
}

/// A hidden light is farther away, as a number, than the surface that hides
/// it.
pub proof fn lemma_occluded_in_numbers(
    reports: Seq<Option<u64>>,
    light_distance: u64,
)
    requires
        reports.len() <= usize::MAX,
    ensures
        occluded(nearest(reports), light_distance) <==> is_positive(light_distance) && exists|
            k: int,
        |
            0 <= k < reports.len() && in_front(#[trigger] reports[k]) is Some && is_nearer(
                in_front(reports[k]).unwrap(),
                light_distance,
            ),
{
    lemma_nearest(reports);
    if is_positive(light_distance) {
        match nearest(reports) {
            Some(hit) => {
                assert(in_front(reports[hit.object as int]) == Some(hit.distance));
                lemma_order_of_bits(hit.distance, light_distance);
                assert forall|k: int|
                    0 <= k < reports.len() && in_front(#[trigger] reports[k]) is Some && is_nearer(
                        in_front(reports[k]).unwrap(),
                        light_distance,
                    ) implies hit.distance < light_distance by {
                    lemma_order_of_bits(in_front(reports[k]).unwrap(), light_distance);
                }
            },
            None => {},
        }
    }
}

/// The share of a light that a surface receives, given the cosine of the
/// angle between the surface normal and the direction to the light: the
/// cosine where the light is in front of the surface, and zero where it is
/// behind it, level with it, or where the cosine is no number. Never
/// negative.
pub open spec fn facing(cosine: u64) -> u64 {
    if is_positive(cosine) {
        cosine
    } else {
        0
    }
}

/// The Lambert term's `max(0, cosine)`, on the bit pattern of the cosine.
pub fn lambert_cosine(cosine: u64) -> (share: u64)
    ensures
        share == facing(cosine),
        !is_negative(share),
{
    if is_greater_than_zero(cosine) {
        cosine
    } else {
        0
    }
}

/// Decides whether the nearest hit of a shadow ray hides the light.
pub fn is_occluded(occluder: Option<Hit>, light_distance: u64) -> (hidden: bool)
    ensures
        hidden == occluded(occluder, light_distance),
{
    match occluder {
        Some(hit) => is_greater_than_zero(light_distance) && hit.distance < light_distance,
        None => false,
    }
}

/// The state of a trace, as a value.
pub struct TraceState {
    /// Bounces that may still be followed, the current one included.
    pub depth: nat,
    /// Number of lights in the scene.
    pub lights: nat,
    pub stage: Stage,
}

impl TraceState {
    /// The lights can be counted, a shadow stage names one of them, and work
    /// is pending only while a bounce is left.
    pub open spec fn wf(self) -> bool {
        &&& self.lights <= usize::MAX
        &&& self.stage matches Stage::Shadow(k) ==> k < self.lights
        &&& self.stage != Stage::Done ==> self.depth > 0
    }

    /// The trace of a primary ray with `depth` bounces allowed: with none, it
    /// is complete before anything is evaluated.
    pub open spec fn start(depth: nat, lights: nat) -> TraceState {
        TraceState { depth, lights, stage: if depth == 0 { Stage::Done } else { Stage::Intersect } }
    }

    /// The stage that follows the lights up to and excluding index `next`.
    pub open spec fn light_or_reflect(self, next: nat) -> Stage {
        if next < self.lights {
            Stage::Shadow(next as usize)
        } else {
            Stage::Reflect
        }
    }

    /// The current ray was cast and reports `distances`, one entry per
    /// object.
    pub open spec fn on_intersect(self, distances: Seq<Option<u64>>) -> (TraceState, Option<Shade>) {
        if self.stage != Stage::Intersect {
            (self, None)
        } else {
            match nearest(distances) {
                None => (TraceState { stage: Stage::Done, ..self }, Some(Shade::Background)),
                Some(hit) => (
                    TraceState { stage: self.light_or_reflect(0), ..self },
                    Some(Shade::Ambient(hit)),
                ),
            }
        }
    }

    /// The shadow ray towards the pending light was cast and reports
    /// `distances`; the light itself is `light_distance` away.
    pub open spec fn on_shadow(self, distances: Seq<Option<u64>>, light_distance: u64) -> (
        TraceState,
        Option<Shade>,
    ) {
        match self.stage {
            Stage::Shadow(k) => (
                TraceState { stage: self.light_or_reflect((k + 1) as nat), ..self },
                Some(
                    if occluded(nearest(distances), light_distance) {
                        Shade::Shadowed(k)
                    } else {
                        Shade::Diffuse(k)
                    },
                ),
            ),
            _ => (self, None),
        }
    }

    /// The mirror ray was built and becomes the current ray, one bounce
    /// deeper.
    pub open spec fn on_reflect(self) -> (TraceState, Option<Shade>) {
        if self.stage != Stage::Reflect {
            (self, None)
        } else {
            let depth = (self.depth - 1) as nat;
            (
                TraceState {
                    depth,
                    stage: if depth == 0 { Stage::Done } else { Stage::Intersect },
                    ..self
                },
                Some(Shade::Bounce),
            )
        }
    }

    /// An upper bound on the number of steps the trace still accepts.
    pub open spec fn steps_left(self) -> nat {
        let deeper = (self.depth - 1) * (self.lights + 2);
        match self.stage {
            Stage::Intersect => (self.lights + 2 + deeper) as nat,
            Stage::Shadow(k) => (self.lights - k + 1 + deeper) as nat,
            Stage::Reflect => (1 + deeper) as nat,
            Stage::Done => 0,
        }
    }
}

/// With no bounce allowed a trace is complete from the start, whatever the
/// scene holds: the tracer asks for nothing, so no ray is cast, and it
/// accepts no report.
pub proof fn lemma_depth_zero_is_terminal(
    lights: nat,
    distances: Seq<Option<u64>>,
    light_distance: u64,
)
    ensures
        TraceState::start(0, lights).stage == Stage::Done,
        TraceState::start(0, lights).on_intersect(distances) == (
            TraceState::start(0, lights),
            None::<Shade>,
        ),
        TraceState::start(0, lights).on_shadow(distances, light_distance) == (
            TraceState::start(0, lights),
            None::<Shade>,
        ),
        TraceState::start(0, lights).on_reflect() == (TraceState::start(0, lights), None::<Shade>),
{
}

/// A trace is bounded: it starts with `depth * (lights + 2)` steps left, every
/// accepted step keeps the state well formed and uses up at least one of
/// them, and a refused step changes nothing.
pub proof fn lemma_trace_is_bounded(
    state: TraceState,
    distances: Seq<Option<u64>>,
    light_distance: u64,
)
    requires
        state.wf(),
    ensures
        TraceState::start(state.depth, state.lights).wf(),
        TraceState::start(state.depth, state.lights).steps_left() == state.depth * (state.lights
            + 2),
        state.stage == Stage::Done <==> state.steps_left() == 0,
        step_uses_up(state, state.on_intersect(distances)),
        step_uses_up(state, state.on_shadow(distances, light_distance)),
        step_uses_up(state, state.on_reflect()),
{
    let lights = state.lights as int;
    let depth = state.depth as int;
    assert((depth - 1) * (lights + 2) + (lights + 2) == depth * (lights + 2))
        by (nonlinear_arith);
    assert(depth >= 1 ==> (depth - 1) * (lights + 2) >= 0) by (nonlinear_arith)
        requires
            lights >= 0,
    ;
    assert((depth - 2) * (lights + 2) + (lights + 2) == (depth - 1) * (lights + 2))
        by (nonlinear_arith);
    assert(0 * (lights + 2) == 0);
}

/// The outcome of a step, against the state before it: accepted, and then
/// the state is well formed with fewer steps left; or refused, and then the
/// state is the same.
pub open spec fn step_uses_up(before: TraceState, outcome: (TraceState, Option<Shade>)) -> bool {
    if outcome.1 is Some {
        outcome.0.wf() && outcome.0.steps_left() < before.steps_left() && outcome.0.lights
            == before.lights
    } else {
        outcome.0 == before
    }
}

/// Follows one primary ray through its bounces.
pub struct Tracer {
    depth: usize,
    lights: usize,
    stage: Stage,
}

impl View for Tracer {
    type V = TraceState;

    closed spec fn view(&self) -> TraceState {
        TraceState { depth: self.depth as nat, lights: self.lights as nat, stage: self.stage }
    }
}

impl Tracer {
    #[verifier::type_invariant]
    spec fn inv(self) -> bool {
        self@.wf()
    }

    /// Begins the trace of a primary ray in a scene with `lights` lights,
    /// following at most `depth` bounces.
    pub fn new(depth: usize, lights: usize) -> (tracer: Tracer)
        ensures
            tracer@ == TraceState::start(depth as nat, lights as nat),
            tracer@.wf(),
    {
        let stage = if depth == 0 {
            Stage::Done
        } else {
            Stage::Intersect
        };
        Tracer { depth, lights, stage }
    }

    /// What the tracer is waiting for.
    pub fn stage(&self) -> (stage: Stage)
        ensures
            stage == self@.stage,
            self@.wf(),
    {
        proof {
            use_type_invariant(self);
        }
        self.stage
    }

    /// Bounces that may still be followed.
    pub fn depth(&self) -> (depth: usize)
        ensures
            depth == self@.depth,
    {
        self.depth
    }

    /// Number of lights in the scene.
    pub fn lights(&self) -> (lights: usize)
        ensures
            lights == self@.lights,
    {
        self.lights
    }

    fn light_or_reflect(&self, next: usize) -> (stage: Stage)
        ensures
            stage == self@.light_or_reflect(next as nat),
    {
        if next < self.lights {
            Stage::Shadow(next)
        } else {
            Stage::Reflect
        }
    }

    /// Reports the distances at which the current ray meets the objects of
    /// the scene, in scene order. Answers `Stage::Intersect`; at any other
    /// stage the call changes nothing and returns `None`.
    pub fn on_intersect(&mut self, distances: &Vec<Option<u64>>) -> (shade: Option<Shade>)
        ensures
            (final(self)@, shade) == old(self)@.on_intersect(distances@),
            final(self)@.wf(),
    {
        proof {
            use_type_invariant(&*self);
        }
        match self.stage {
            Stage::Intersect => {
                match nearest_intersection(distances) {
                    None => {
                        *self = Tracer { depth: self.depth, lights: self.lights, stage: Stage::Done };
                        Some(Shade::Background)
                    },
                    Some(hit) => {
                        let stage = self.light_or_reflect(0);
                        *self = Tracer { depth: self.depth, lights: self.lights, stage };
                        Some(Shade::Ambient(hit))
                    },
                }
            },
            _ => None,
        }
    }

    /// Reports the distances at which the shadow ray towards the pending
    /// light meets the objects of the scene, and the distance to the light.
    /// Answers `Stage::Shadow`; at any other stage the call changes nothing
    /// and returns `None`.
    pub fn on_shadow(&mut self, distances: &Vec<Option<u64>>, light_distance: u64) -> (shade: Option<
        Shade,
    >)
        ensures
            (final(self)@, shade) == old(self)@.on_shadow(distances@, light_distance),
            final(self)@.wf(),
    {
        proof {
            use_type_invariant(&*self);
        }
        match self.stage {
            Stage::Shadow(k) => {
                let hidden = is_occluded(nearest_intersection(distances), light_distance);
                let stage = self.light_or_reflect(k + 1);
                *self = Tracer { depth: self.depth, lights: self.lights, stage };
                if hidden {
                    Some(Shade::Shadowed(k))
                } else {
                    Some(Shade::Diffuse(k))
                }
            },
            _ => None,
        }
    }

    /// Reports that the mirror ray at the shaded point was built. Answers
    /// `Stage::Reflect`; at any other stage the call changes nothing and
    /// returns `None`.
    pub fn on_reflect(&mut self) -> (shade: Option<Shade>)
        ensures
            (final(self)@, shade) == old(self)@.on_reflect(),
            final(self)@.wf(),
    {
        proof {
            use_type_invariant(&*self);
        }
        match self.stage {
            Stage::Reflect => {
                let depth: usize = self.depth - 1;
                let stage = if depth == 0 {
                    Stage::Done
                } else {
                    Stage::Intersect
                };
                *self = Tracer { depth, lights: self.lights, stage };
                Some(Shade::Bounce)
            },
            _ => None,
        }
    }
}

} // verus!
