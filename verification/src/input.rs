//! Resolving overlapping directional keys into one velocity.
//!
//! The keys currently held are kept in press order. The first key pressed
//! from rest sets the heading; further presses are only recorded. When a held
//! key is released the heading passes to the earliest key still held, and the
//! entity stops when none is left.

use std::collections::VecDeque;
use vstd::prelude::*;
use crate::components::{Direction, Velocity};

verus! {

/// Speed of the player while a movement key is held.
pub const PLAYER_MOVEMENT_SPEED: i32 = 5;

/// A decoded directional key event.
#[derive(Debug, Clone, Copy, PartialEq, Eq, Structural)]
pub enum KeyEvent {
    KeyDown { direction: Direction, repeat: bool },
    KeyUp { direction: Direction, repeat: bool },
}

impl KeyEvent {
    /// Whether the keyboard generated the event on its own for a key that
    /// stays pressed.
    pub open spec fn is_repeat(self) -> bool {
        match self {
            KeyEvent::KeyDown { repeat, .. } => repeat,
            KeyEvent::KeyUp { repeat, .. } => repeat,
        }
    }
}

/// The predicate that holds of every direction but `dir`.
pub open spec fn differs_from(dir: Direction) -> spec_fn(Direction) -> bool {
    |d: Direction| d != dir
}

/// `held` with every entry equal to `dir` taken out, the rest in order.
pub open spec fn without(held: Seq<Direction>, dir: Direction) -> Seq<Direction> {
    held.filter(differs_from(dir))
}

/// What a `MotionState` stands for: speed, heading and the held keys in
/// press order.
#[verifier::ext_equal]
pub struct MotionModel {
    pub speed: i32,
    pub direction: Direction,
    pub held: Seq<Direction>,
}

impl MotionModel {
    /// At rest, facing `direction`, with no key held.
    pub open spec fn idle(direction: Direction) -> MotionModel {
        MotionModel { speed: 0, direction, held: Seq::empty() }
    }

    /// The velocity that the rest of the tick sees.
    pub open spec fn velocity(self) -> Velocity {
        Velocity { speed: self.speed, direction: self.direction }
    }

    /// No key is held twice, the speed is zero or `move_speed`, a moving
    /// entity has a key held, and while keys are held the heading is the
    /// earliest of them.
    pub open spec fn wf(self, move_speed: i32) -> bool {
        &&& self.held.no_duplicates()
        &&& (self.speed == 0 || self.speed == move_speed)
        &&& (self.speed != 0 ==> self.held.len() > 0)
        &&& (self.held.len() > 0 ==> self.direction == self.held[0])
    }

    /// The state after a fresh press of `dir`.
    pub open spec fn press(self, dir: Direction, move_speed: i32) -> MotionModel {
        MotionModel {
            speed: move_speed,
            direction: if self.held.len() == 0 { dir } else { self.direction },
            held: if self.held.contains(dir) { self.held } else { self.held.push(dir) },
        }
    }

    /// The state after a release of `dir`. A release of a key that is not
    /// held stops the entity and leaves the rest alone.
    pub open spec fn release(self, dir: Direction, move_speed: i32) -> MotionModel {
        if !self.held.contains(dir) {
            MotionModel { speed: 0, direction: self.direction, held: self.held }
        } else {
            let rest = without(self.held, dir);
            if rest.len() == 0 {
                MotionModel { speed: 0, direction: self.direction, held: rest }
            } else {
                MotionModel { speed: move_speed, direction: rest[0], held: rest }
            }
        }
    }

    /// The state after one event; repeats change nothing.
    pub open spec fn apply(self, event: KeyEvent, move_speed: i32) -> MotionModel {
        match event {
            KeyEvent::KeyDown { direction, repeat } => if repeat { self } else { self.press(direction, move_speed) },
            KeyEvent::KeyUp { direction, repeat } => if repeat { self } else { self.release(direction, move_speed) },
        }
    }

    /// The state after `events`, applied in the order received.
    pub open spec fn apply_all(self, events: Seq<KeyEvent>, move_speed: i32) -> MotionModel
        decreases events.len(),
    {
        if events.len() == 0 {
            self
        } else {
            self.apply_all(events.drop_last(), move_speed).apply(events.last(), move_speed)
        }
    }
}

/// Speed, heading and held keys of one controllable entity.
#[derive(Debug, Clone, PartialEq, Eq)]
pub struct MotionState {
    /// Zero at rest, the movement speed while moving.
    pub speed: i32,
    /// The last resolved heading; kept while at rest.
    pub direction: Direction,
    /// The keys currently pressed, in press order.
    pub held_queue: VecDeque<Direction>,
}

impl View for MotionState {
    type V = MotionModel;

    open spec fn view(&self) -> MotionModel {
        MotionModel { speed: self.speed, direction: self.direction, held: self.held_queue@ }
    }
}

impl MotionState {
    /// At rest, facing `direction`, with no key held.
    pub fn new(direction: Direction) -> (state: MotionState)
        ensures
            state@ == MotionModel::idle(direction),
    {
        MotionState { speed: 0, direction, held_queue: VecDeque::new() }
    }

    /// The velocity that the rest of the tick sees.
    pub fn velocity(&self) -> (v: Velocity)
        ensures
            v == self@.velocity(),
    {
        Velocity { speed: self.speed, direction: self.direction }
    }

    /// Whether the key for `dir` is held.
    pub fn is_held(&self, dir: Direction) -> (found: bool)
        ensures
            found == self@.held.contains(dir),
    {
        let mut i: usize = 0;
        while i < self.held_queue.len()
            invariant
                i <= self.held_queue@.len(),
                forall|j: int| 0 <= j < i ==> self.held_queue@[j] != dir,
            decreases self.held_queue@.len() - i,
        {
            if self.held_queue[i] == dir {
                return true;
            }
            i = i + 1;
        }
        false
    }
}

/// Turns key events into the motion of one entity.
#[derive(Debug, Clone, Copy, PartialEq, Eq)]
pub struct InputResolver {
    move_speed: i32,
}

impl InputResolver {
    #[verifier::type_invariant]
    spec fn positive(self) -> bool {
        self.move_speed > 0
    }

    /// The speed given to a moving entity.
    pub closed spec fn speed(self) -> i32 {
        self.move_speed
    }

    /// A resolver that moves entities at `move_speed`.
    pub fn new(move_speed: i32) -> (resolver: InputResolver)
        requires
            move_speed > 0,
        ensures
            resolver.speed() == move_speed,
    {
        InputResolver { move_speed }
    }

    /// The speed given to a moving entity.
    pub fn move_speed(&self) -> (s: i32)
        ensures
            s == self.speed(),
            s > 0,
    {
        proof {
            use_type_invariant(self);
        }
        self.move_speed
    }

    /// Handles a key press. A repeat changes nothing. A fresh press records
    /// the key unless it is already held, sets the entity moving, and turns it
    /// to `dir` only if no key was held before.
    pub fn on_key_down(&self, state: &mut MotionState, dir: Direction, repeat: bool) -> (v: Velocity)
        ensures
            final(state)@ == old(state)@.apply(KeyEvent::KeyDown { direction: dir, repeat }, self.speed()),
            repeat ==> *final(state) == *old(state),
            !repeat ==> v.speed > 0,
            v == final(state)@.velocity(),
            old(state)@.wf(self.speed()) ==> final(state)@.wf(self.speed()),
    {
        proof {
            if state@.wf(self.speed()) {
                lemma_apply_keeps_wf(state@, KeyEvent::KeyDown { direction: dir, repeat }, self.speed());
            }
        }
        if !repeat {
            let was_idle = state.held_queue.len() == 0;
            if !state.is_held(dir) {
                state.held_queue.push_back(dir);
            }
            state.speed = self.move_speed();
            if was_idle {
                state.direction = dir;
            }
        }
        state.velocity()
    }

    /// Handles a key release. A repeat changes nothing. A release of a held
    /// key takes it out of the queue: the entity stops if none is left, and
    /// else moves on towards the earliest key still held. A release of a key
    /// that is not held stops the entity.
    pub fn on_key_up(&self, state: &mut MotionState, dir: Direction, repeat: bool) -> (v: Velocity)
        ensures
            final(state)@ == old(state)@.apply(KeyEvent::KeyUp { direction: dir, repeat }, self.speed()),
            repeat ==> *final(state) == *old(state),
            v == final(state)@.velocity(),
            old(state)@.wf(self.speed()) ==> final(state)@.wf(self.speed()),
    {
        proof {
            if state@.wf(self.speed()) {
                lemma_apply_keeps_wf(state@, KeyEvent::KeyUp { direction: dir, repeat }, self.speed());
            }
        }
        if !repeat {
            if !state.is_held(dir) {
                state.speed = 0;
            } else {
                let rest = queue_without(&state.held_queue, dir);
                if rest.len() == 0 {
                    state.speed = 0;
                } else {
                    state.speed = self.move_speed();
                    state.direction = rest[0];
                }
                state.held_queue = rest;
            }
        }
        state.velocity()
    }

    /// Handles one event of either kind.
    pub fn apply(&self, state: &mut MotionState, event: KeyEvent) -> (v: Velocity)
        ensures
            final(state)@ == old(state)@.apply(event, self.speed()),
            event.is_repeat() ==> *final(state) == *old(state),
            v == final(state)@.velocity(),
            old(state)@.wf(self.speed()) ==> final(state)@.wf(self.speed()),
    {
        match event {
            KeyEvent::KeyDown { direction, repeat } => self.on_key_down(state, direction, repeat),
            KeyEvent::KeyUp { direction, repeat } => self.on_key_up(state, direction, repeat),
        }
    }

    /// Handles the events of one tick in the order received. With no events
    /// the state is left as it was.
    pub fn apply_all(&self, state: &mut MotionState, events: &Vec<KeyEvent>) -> (v: Velocity)
        ensures
            final(state)@ == old(state)@.apply_all(events@, self.speed()),
            events@.len() == 0 ==> *final(state) == *old(state),
            v == final(state)@.velocity(),
            old(state)@.wf(self.speed()) ==> final(state)@.wf(self.speed()),
    {
        proof {
            if state@.wf(self.speed()) {
                lemma_apply_all_keeps_wf(state@, events@, self.speed());
            }
        }
        let mut i: usize = 0;
        while i < events.len()
            invariant
                i <= events@.len(),
                state@ == old(state)@.apply_all(events@.take(i as int), self.speed()),
                events@.len() == 0 ==> *state == *old(state),
            decreases events@.len() - i,
        {
            assert(events@.take(i + 1).drop_last() == events@.take(i as int));
            self.apply(state, events[i]);
            i = i + 1;
        }
        assert(events@.take(i as int) == events@);
        state.velocity()
    }
}

/// A copy of `queue` without the entries equal to `dir`.
fn queue_without(queue: &VecDeque<Direction>, dir: Direction) -> (rest: VecDeque<Direction>)
    ensures
        rest@ == without(queue@, dir),
{
    let mut rest: VecDeque<Direction> = VecDeque::new();
    let mut i: usize = 0;
    proof {
        reveal(Seq::filter);
    }
    while i < queue.len()
        invariant
            i <= queue@.len(),
            rest@ == without(queue@.take(i as int), dir),
        decreases queue@.len() - i,
    {
        proof {
            reveal(Seq::filter);
            assert(queue@.take(i + 1).drop_last() == queue@.take(i as int));
        }
        let d = queue[i];
        if d != dir {
            rest.push_back(d);
        }
        i = i + 1;
    }
    assert(queue@.take(i as int) == queue@);
    rest
}

/// The presses, none a repeat, of `dirs` in order.
pub open spec fn presses(dirs: Seq<Direction>) -> Seq<KeyEvent> {
    dirs.map_values(|d: Direction| KeyEvent::KeyDown { direction: d, repeat: false })
}

/// The keys held after `events`, given those held before: each fresh press
/// adds its key, each fresh release takes its key away.
pub open spec fn held_keys(before: Set<Direction>, events: Seq<KeyEvent>) -> Set<Direction>
    decreases events.len(),
{
    if events.len() == 0 {
        before
    } else {
        let earlier = held_keys(before, events.drop_last());
        match events.last() {
            KeyEvent::KeyDown { direction, repeat } => if repeat { earlier } else { earlier.insert(direction) },
            KeyEvent::KeyUp { direction, repeat } => if repeat { earlier } else { earlier.remove(direction) },
        }
    }
}

/// Taking a key out of the queue removes exactly that key and keeps the
/// others in their order: a queue without the key is left as it is, and from
/// a queue that holds it once the one entry is cut out.
pub proof fn lemma_without(held: Seq<Direction>, dir: Direction)
    ensures
        forall|d: Direction| without(held, dir).contains(d) <==> (held.contains(d) && d != dir),
        without(held, dir).len() <= held.len(),
        held.no_duplicates() ==> without(held, dir).no_duplicates(),
        !held.contains(dir) ==> without(held, dir) == held,
        held.no_duplicates() && held.contains(dir) ==> without(held, dir) == held.remove(held.index_of(dir)),
    decreases held.len(),
{
    reveal(Seq::filter);
    if held.len() > 0 {
        let front = held.drop_last();
        let last = held.last();
        lemma_without(front, dir);
        let kept = without(front, dir);
        assert(front.push(last) == held);
        assert(without(held, dir) == if last != dir { kept.push(last) } else { kept });
        assert forall|d: Direction| without(held, dir).contains(d) <==> (held.contains(d) && d != dir) by {
            lemma_contains_push(front, last, d);
            lemma_contains_push(kept, last, d);
        }
        if held.no_duplicates() {
            assert(front.no_duplicates());
            assert(!front.contains(last));
            if held.contains(dir) {
                let k = held.index_of(dir);
                if last == dir {
                    assert(k == held.len() - 1);
                } else {
                    assert(k == front.index_of(dir));
                }
            }
        }
    }
}

/// A queue with one more key at its end holds that key and what it held
/// before.
proof fn lemma_contains_push(held: Seq<Direction>, dir: Direction, d: Direction)
    ensures
        held.push(dir).contains(d) <==> (held.contains(d) || d == dir),
{
    let grown = held.push(dir);
    if grown.contains(d) {
        let i = choose|i: int| 0 <= i < grown.len() && grown[i] == d;
        if i < held.len() {
            assert(held[i] == d);
        }
    }
    if held.contains(d) {
        let i = choose|i: int| 0 <= i < held.len() && held[i] == d;
        assert(grown[i] == d);
    }
    if d == dir {
        assert(grown[held.len() as int] == d);
    }
}

/// After a fresh event the entity moves exactly if a key is held. The one
/// exception is the release of a key that was not held: it stops the entity
/// and leaves the queue as it was.
pub proof fn lemma_moving_iff_key_held(m: MotionModel, event: KeyEvent, move_speed: i32)
    requires
        move_speed != 0,
        !event.is_repeat(),
    ensures
        match event {
            KeyEvent::KeyDown { .. } => {
                &&& m.apply(event, move_speed).speed != 0
                &&& m.apply(event, move_speed).held.len() > 0
            },
            KeyEvent::KeyUp { direction, .. } => if m.held.contains(direction) {
                m.apply(event, move_speed).speed != 0 <==> m.apply(event, move_speed).held.len() > 0
            } else {
                &&& m.apply(event, move_speed).speed == 0
                &&& m.apply(event, move_speed).held == m.held
            },
        },
{
}

/// One event leaves a well-formed state well-formed.
pub proof fn lemma_apply_keeps_wf(m: MotionModel, event: KeyEvent, move_speed: i32)
    requires
        m.wf(move_speed),
    ensures
        m.apply(event, move_speed).wf(move_speed),
{
    match event {
        KeyEvent::KeyDown { direction, repeat } => {
            if !repeat && !m.held.contains(direction) {
                let grown = m.held.push(direction);
                assert forall|i: int, j: int| 0 <= i < grown.len() && 0 <= j < grown.len() && i != j implies grown[i] != grown[j] by {
                    if i < m.held.len() && j < m.held.len() {
                        assert(m.held[i] != m.held[j]);
                    }
                }
            }
        },
        KeyEvent::KeyUp { direction, .. } => {
            lemma_without(m.held, direction);
        },
    }
}

/// Any run of events leaves a well-formed state well-formed: no key is ever
/// held twice, and the heading is the earliest key still held.
pub proof fn lemma_apply_all_keeps_wf(m: MotionModel, events: Seq<KeyEvent>, move_speed: i32)
    requires
        m.wf(move_speed),
    ensures
        m.apply_all(events, move_speed).wf(move_speed),
    decreases events.len(),
{
    if events.len() > 0 {
        lemma_apply_all_keeps_wf(m, events.drop_last(), move_speed);
        lemma_apply_keeps_wf(m.apply_all(events.drop_last(), move_speed), events.last(), move_speed);
    }
}

/// After any run of events the queue holds exactly the keys pressed and not
/// yet released.
pub proof fn lemma_queue_holds_pressed_keys(m: MotionModel, events: Seq<KeyEvent>, move_speed: i32)
    ensures
        m.apply_all(events, move_speed).held.to_set() == held_keys(m.held.to_set(), events),
    decreases events.len(),
{
    if events.len() > 0 {
        let earlier = m.apply_all(events.drop_last(), move_speed);
        lemma_queue_holds_pressed_keys(m, events.drop_last(), move_speed);
        match events.last() {
            KeyEvent::KeyDown { direction, .. } => {
                assert forall|d: Direction| earlier.held.push(direction).contains(d) <==> (earlier.held.contains(d) || d == direction) by {
                    lemma_contains_push(earlier.held, direction, d);
                }
            },
            KeyEvent::KeyUp { direction, .. } => {
                lemma_without(earlier.held, direction);
            },
        }
    }
}

/// Fresh presses of distinct keys, none of them held before, line up behind
/// the keys already held in the order pressed. The entity then moves; it
/// faces the first key pressed if it started with none held, and keeps its
/// heading otherwise.
pub proof fn lemma_distinct_presses(m: MotionModel, dirs: Seq<Direction>, move_speed: i32)
    requires
        dirs.no_duplicates(),
        forall|i: int| 0 <= i < dirs.len() ==> !m.held.contains(#[trigger] dirs[i]),
    ensures
        m.apply_all(presses(dirs), move_speed).held == m.held + dirs,
        m.held.no_duplicates() ==> m.apply_all(presses(dirs), move_speed).held.no_duplicates(),
        dirs.len() > 0 ==> m.apply_all(presses(dirs), move_speed).speed == move_speed,
        dirs.len() > 0 && m.held.len() == 0 ==> m.apply_all(presses(dirs), move_speed).direction == dirs[0],
        dirs.len() == 0 || m.held.len() > 0 ==> m.apply_all(presses(dirs), move_speed).direction == m.direction,
    decreases dirs.len(),
{
    if dirs.len() > 0 {
        let front = dirs.drop_last();
        let last = dirs.last();
        assert(presses(dirs).drop_last() == presses(front));
        assert(front.no_duplicates());
        assert forall|i: int| 0 <= i < front.len() implies !m.held.contains(#[trigger] front[i]) by {
            assert(front[i] == dirs[i]);
        }
        lemma_distinct_presses(m, front, move_speed);
        let earlier = m.apply_all(presses(front), move_speed);
        assert(!earlier.held.contains(last)) by {
            if earlier.held.contains(last) {
                let i = choose|i: int| 0 <= i < earlier.held.len() && earlier.held[i] == last;
                if i >= m.held.len() {
                    assert(dirs[i - m.held.len()] == dirs[dirs.len() - 1]);
                }
            }
        }
        if m.held.no_duplicates() {
            let all = m.held + dirs;
            assert forall|i: int, j: int| 0 <= i < all.len() && 0 <= j < all.len() && i != j implies all[i] != all[j] by {
                if i < m.held.len() && j >= m.held.len() {
                    assert(m.held.contains(all[i]));
                } else if j < m.held.len() && i >= m.held.len() {
                    assert(m.held.contains(all[j]));
                }
            }
        }
    }
}

} // verus!
