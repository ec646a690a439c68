//! The entity store and the tick that drives the three passes over it.
//!
//! An entity is an index into four parallel component tables. A pass takes
//! part in an entity only if the entity has every component the pass needs.

use vstd::prelude::*;
use crate::animator::{all_wf, animated_all, Animator};
use crate::components::{animation_fault, component_at, AnimationError, MovementAnimation, Position, Sprite, Velocity};
use crate::input::{InputResolver, KeyEvent, MotionModel, MotionState};
use crate::physics::{advanced_all, Physics};

verus! {

/// The identity of an entity: its slot in the component tables.
#[derive(Debug, Clone, Copy, PartialEq, Eq, Structural)]
pub struct Entity {
    pub index: usize,
}

/// What a renderer needs to draw one entity.
#[derive(Debug, Clone, Copy, PartialEq, Eq, Structural)]
pub struct RenderSnapshot {
    pub position: Position,
    pub sprite: Sprite,
}

/// What an optional motion state stands for.
pub open spec fn model_of(motion: Option<MotionState>) -> Option<MotionModel> {
    match motion {
        Some(state) => Some(state@),
        None => None,
    }
}

/// What a table of motion states stands for.
pub open spec fn motion_models(motions: Seq<Option<MotionState>>) -> Seq<Option<MotionModel>> {
    Seq::new(motions.len(), |i: int| model_of(motions[i]))
}

/// What an `EntityStore` stands for: one table per component, indexed by
/// entity.
#[verifier::ext_equal]
pub struct StoreModel {
    pub positions: Seq<Option<Position>>,
    pub velocities: Seq<Option<Velocity>>,
    pub animations: Seq<Option<MovementAnimation>>,
    pub motions: Seq<Option<MotionModel>>,
}

impl StoreModel {
    /// The store without entities.
    pub open spec fn empty() -> StoreModel {
        StoreModel { positions: Seq::empty(), velocities: Seq::empty(), animations: Seq::empty(), motions: Seq::empty() }
    }

    /// The number of entities.
    pub open spec fn len(self) -> nat {
        self.positions.len()
    }

    /// The tables are equally long and every animation can be animated.
    pub open spec fn wf(self) -> bool {
        &&& self.velocities.len() == self.positions.len()
        &&& self.animations.len() == self.positions.len()
        &&& self.motions.len() == self.positions.len()
        &&& all_wf(self.animations)
    }

    /// The store with one more entity, which has the given components.
    pub open spec fn with_entity(
        self,
        position: Option<Position>,
        velocity: Option<Velocity>,
        animation: Option<MovementAnimation>,
        motion: Option<MotionModel>,
    ) -> StoreModel {
        StoreModel {
            positions: self.positions.push(position),
            velocities: self.velocities.push(velocity),
            animations: self.animations.push(animation),
            motions: self.motions.push(motion),
        }
    }

    /// The store after the input pass has handled one event for `entity`.
    /// Only an entity with a motion state takes part; a repeat changes
    /// nothing; otherwise the resolved velocity becomes the entity's
    /// velocity.
    pub open spec fn handled(self, entity: int, event: KeyEvent, move_speed: i32) -> StoreModel {
        match component_at(self.motions, entity) {
            Some(motion) => if event.is_repeat() || entity >= self.velocities.len() {
                self
            } else {
                let next = motion.apply(event, move_speed);
                StoreModel {
                    velocities: self.velocities.update(entity, Some(next.velocity())),
                    motions: self.motions.update(entity, Some(next)),
                    ..self
                }
            },
            None => self,
        }
    }

    /// The store after the input pass has handled `events` for `entity` in
    /// the order received.
    pub open spec fn handled_all(self, entity: int, events: Seq<KeyEvent>, move_speed: i32) -> StoreModel
        decreases events.len(),
    {
        if events.len() == 0 {
            self
        } else {
            self.handled_all(entity, events.drop_last(), move_speed).handled(entity, events.last(), move_speed)
        }
    }

    /// The store after the position pass.
    pub open spec fn moved(self) -> StoreModel {
        StoreModel { positions: advanced_all(self.positions, self.velocities), ..self }
    }

    /// The store after the animation pass.
    pub open spec fn animated(self) -> StoreModel {
        StoreModel { animations: animated_all(self.animations, self.velocities), ..self }
    }

    /// The store one tick later: input, then positions, then animations, each
    /// pass seeing what the one before it wrote.
    pub open spec fn ticked(self, entity: int, events: Seq<KeyEvent>, move_speed: i32) -> StoreModel {
        self.handled_all(entity, events, move_speed).moved().animated()
    }

    /// What is drawn for `entity`: its position, and the current frame of its
    /// animation for the way it faces. An entity without position, velocity
    /// or animation is not drawn.
    pub open spec fn snapshot(self, entity: int) -> Option<RenderSnapshot> {
        match (component_at(self.positions, entity), component_at(self.velocities, entity), component_at(self.animations, entity)) {
            (Some(position), Some(velocity), Some(animation)) => Some(
                RenderSnapshot { position, sprite: animation.current_sprite(velocity.direction) },
            ),
            _ => None,
        }
    }
}

/// Associates entities with their components.
#[derive(Debug)]
pub struct EntityStore {
    positions: Vec<Option<Position>>,
    velocities: Vec<Option<Velocity>>,
    animations: Vec<Option<MovementAnimation>>,
    motions: Vec<Option<MotionState>>,
}

impl View for EntityStore {
    type V = StoreModel;

    closed spec fn view(&self) -> StoreModel {
        StoreModel {
            positions: self.positions@,
            velocities: self.velocities@,
            animations: self.animations@,
            motions: motion_models(self.motions@),
        }
    }
}

impl EntityStore {
    #[verifier::type_invariant]
    spec fn valid(self) -> bool {
        self@.wf()
    }

    /// A store without entities.
    pub fn new() -> (store: EntityStore)
        ensures
            store@ == StoreModel::empty(),
    {
        EntityStore { positions: Vec::new(), velocities: Vec::new(), animations: Vec::new(), motions: Vec::new() }
    }

    /// The number of entities. Every store is well-formed.
    pub fn len(&self) -> (n: usize)
        ensures
            n == self@.len(),
            self@.wf(),
    {
        proof {
            use_type_invariant(self);
        }
        self.positions.len()
    }

    /// Adds an entity with the given components and returns its identity. An
    /// animation that cannot be animated is refused, and the store stays as
    /// it was.
    pub fn create_entity(
        &mut self,
        position: Option<Position>,
        velocity: Option<Velocity>,
        animation: Option<MovementAnimation>,
        motion: Option<MotionState>,
    ) -> (r: Result<Entity, AnimationError>)
        ensures
            match r {
                Ok(entity) => {
                    &&& animation matches Some(a) ==> a.wf()
                    &&& entity.index == old(self)@.len()
                    &&& final(self)@ == old(self)@.with_entity(position, velocity, animation, model_of(motion))
                },
                Err(e) => {
                    &&& animation matches Some(a) && animation_fault(
                        a.current_frame as int,
                        a.up_frames@.len() as int,
                        a.down_frames@.len() as int,
                        a.left_frames@.len() as int,
                        a.right_frames@.len() as int,
                    ) == Some(e)
                    &&& final(self)@ == old(self)@
                },
            },
    {
        proof {
            use_type_invariant(&*self);
        }
        match &animation {
            Some(a) => {
                if a.down_frames.len() != a.up_frames.len() || a.left_frames.len() != a.up_frames.len()
                    || a.right_frames.len() != a.up_frames.len() {
                    return Err(AnimationError::FrameCountMismatch);
                }
                if a.current_frame >= a.up_frames.len() {
                    return Err(AnimationError::FrameOutOfRange);
                }
            },
            None => {},
        }
        let mut taken = EntityStore::new();
        std::mem::swap(self, &mut taken);
        let EntityStore { mut positions, mut velocities, mut animations, mut motions } = taken;
        let index = positions.len();
        positions.push(position);
        velocities.push(velocity);
        animations.push(animation);
        motions.push(motion);
        *self = EntityStore { positions, velocities, animations, motions };
        Ok(Entity { index })
    }

    /// The position of `entity`, if it has one.
    pub fn position(&self, entity: Entity) -> (r: Option<Position>)
        ensures
            r == component_at(self@.positions, entity.index as int),
    {
        if entity.index < self.positions.len() {
            self.positions[entity.index]
        } else {
            None
        }
    }

    /// The velocity of `entity`, if it has one.
    pub fn velocity(&self, entity: Entity) -> (r: Option<Velocity>)
        ensures
            r == component_at(self@.velocities, entity.index as int),
    {
        if entity.index < self.velocities.len() {
            self.velocities[entity.index]
        } else {
            None
        }
    }

    /// The animation of `entity`, if it has one.
    pub fn animation(&self, entity: Entity) -> (r: Option<&MovementAnimation>)
        ensures
            r matches Some(a) ==> a.wf(),
            match r {
                Some(a) => component_at(self@.animations, entity.index as int) == Some(*a),
                None => component_at(self@.animations, entity.index as int) is None,
            },
    {
        proof {
            use_type_invariant(self);
        }
        if entity.index < self.animations.len() {
            self.animations[entity.index].as_ref()
        } else {
            None
        }
    }

    /// The motion state of `entity`, if it is controllable.
    pub fn motion(&self, entity: Entity) -> (r: Option<&MotionState>)
        ensures
            match r {
                Some(m) => component_at(self@.motions, entity.index as int) == Some(m@),
                None => component_at(self@.motions, entity.index as int) is None,
            },
    {
        if entity.index < self.motions.len() {
            self.motions[entity.index].as_ref()
        } else {
            None
        }
    }

    /// What a renderer needs to draw `entity` after a tick.
    pub fn snapshot(&self, entity: Entity) -> (r: Option<RenderSnapshot>)
        ensures
            r == self@.snapshot(entity.index as int),
    {
        match (self.position(entity), self.velocity(entity), self.animation(entity)) {
            (Some(position), Some(velocity), Some(animation)) => Some(
                RenderSnapshot { position, sprite: animation.sprite(velocity.direction) },
            ),
            _ => None,
        }
    }

    /// The input pass for one event: resolves it against the motion state of
    /// `entity` and writes the resulting velocity.
    pub fn handle_event(&mut self, resolver: &InputResolver, entity: Entity, event: KeyEvent)
        ensures
            final(self)@ == old(self)@.handled(entity.index as int, event, resolver.speed()),
    {
        proof {
            use_type_invariant(&*self);
        }
        let mut taken = EntityStore::new();
        std::mem::swap(self, &mut taken);
        let EntityStore { positions, mut velocities, animations, mut motions } = taken;
        let index = entity.index;
        if index < motions.len() && index < velocities.len() {
            match &mut motions[index] {
                Some(state) => {
                    let repeat = match event {
                        KeyEvent::KeyDown { repeat, .. } => repeat,
                        KeyEvent::KeyUp { repeat, .. } => repeat,
                    };
                    if !repeat {
                        let velocity = resolver.apply(state, event);
                        velocities[index] = Some(velocity);
                    }
                },
                None => {},
            }
        }
        *self = EntityStore { positions, velocities, animations, motions };
    }

    /// The input pass for the events of one tick, in the order received.
    pub fn handle_events(&mut self, resolver: &InputResolver, entity: Entity, events: &Vec<KeyEvent>)
        ensures
            final(self)@ == old(self)@.handled_all(entity.index as int, events@, resolver.speed()),
            events@.len() == 0 ==> final(self)@ == old(self)@,
            final(self)@.len() == old(self)@.len(),
    {
        proof {
            lemma_input_pass(self@, entity.index as int, events@, resolver.speed());
        }
        let mut i: usize = 0;
        while i < events.len()
            invariant
                i <= events@.len(),
                self@ == old(self)@.handled_all(entity.index as int, events@.take(i as int), resolver.speed()),
            decreases events@.len() - i,
        {
            assert(events@.take(i + 1).drop_last() == events@.take(i as int));
            self.handle_event(resolver, entity, events[i]);
            i = i + 1;
        }
        assert(events@.take(i as int) == events@);
    }

    /// One tick: the input pass for `events`, routed to `entity`, then the
    /// position pass, then the animation pass.
    pub fn tick(&mut self, resolver: &InputResolver, entity: Entity, events: &Vec<KeyEvent>)
        ensures
            final(self)@ == old(self)@.ticked(entity.index as int, events@, resolver.speed()),
            final(self)@.len() == old(self)@.len(),
    {
        proof {
            lemma_input_pass(self@, entity.index as int, events@, resolver.speed());
        }
        self.handle_events(resolver, entity, events);
        proof {
            use_type_invariant(&*self);
        }
        let mut taken = EntityStore::new();
        std::mem::swap(self, &mut taken);
        let EntityStore { mut positions, velocities, mut animations, motions } = taken;
        let mut physics = Physics;
        physics.run(&mut positions, &velocities);
        let mut animator = Animator;
        animator.run(&mut animations, &velocities);
        *self = EntityStore { positions, velocities, animations, motions };
    }
}

/// Whether any of `events` is a fresh press or release.
pub open spec fn any_fresh(events: Seq<KeyEvent>) -> bool {
    exists|i: int| 0 <= i < events.len() && !(#[trigger] events[i]).is_repeat()
}

/// What the input pass does to the store as a whole. It touches no position
/// and no animation, keeps the number of entities, and leaves every entity
/// but the one addressed alone. If that entity has a motion state, the state
/// becomes what the resolver makes of the events, and its velocity becomes
/// the resolved velocity as soon as one event was fresh.
pub proof fn lemma_input_pass(s: StoreModel, entity: int, events: Seq<KeyEvent>, move_speed: i32)
    ensures
        ({
            let r = s.handled_all(entity, events, move_speed);
            &&& r.positions == s.positions
            &&& r.animations == s.animations
            &&& r.velocities.len() == s.velocities.len()
            &&& r.motions.len() == s.motions.len()
            &&& forall|j: int| 0 <= j < s.velocities.len() && j != entity ==> r.velocities[j] == s.velocities[j]
            &&& forall|j: int| 0 <= j < s.motions.len() && j != entity ==> r.motions[j] == s.motions[j]
            &&& match component_at(s.motions, entity) {
                Some(motion) => if entity < s.velocities.len() {
                    &&& r.motions[entity] == Some(motion.apply_all(events, move_speed))
                    &&& r.velocities[entity] == if any_fresh(events) {
                        Some(motion.apply_all(events, move_speed).velocity())
                    } else {
                        s.velocities[entity]
                    }
                } else {
                    r == s
                },
                None => r == s,
            }
            &&& !any_fresh(events) ==> r == s
        }),
    decreases events.len(),
{
    if events.len() > 0 {
        let front = events.drop_last();
        lemma_input_pass(s, entity, front, move_speed);
        if any_fresh(events) {
            let i = choose|i: int| 0 <= i < events.len() && !(#[trigger] events[i]).is_repeat();
            if i < front.len() {
                assert(front[i] == events[i]);
            }
        }
    }
}

/// A tick without events changes no motion state and no velocity, and it
/// leaves the position and the animation of every entity alone that has no
/// velocity or stands still. The input pass alone changes nothing at all.
pub proof fn lemma_tick_without_events(s: StoreModel, entity: int, move_speed: i32)
    ensures
        s.handled_all(entity, Seq::empty(), move_speed) == s,
        s.ticked(entity, Seq::empty(), move_speed).motions == s.motions,
        s.ticked(entity, Seq::empty(), move_speed).velocities == s.velocities,
        forall|i: int|
            0 <= i < s.positions.len() && (component_at(s.velocities, i) matches Some(v) ==> v.speed == 0)
                ==> #[trigger] s.ticked(entity, Seq::empty(), move_speed).positions[i] == s.positions[i],
        forall|i: int|
            0 <= i < s.animations.len() && (component_at(s.velocities, i) matches Some(v) ==> v.speed == 0)
                ==> #[trigger] s.ticked(entity, Seq::empty(), move_speed).animations[i] == s.animations[i],
{
}

} // verus!
