use movement_core::animator::Animator;
use movement_core::components::{Direction, MovementAnimation, Sprite, Velocity};
use movement_core::geometry::Rect;

fn walker() -> MovementAnimation {
    MovementAnimation::from_sheet(0, Rect::new(0, 0, 26, 36))
}

fn moving(direction: Direction) -> Velocity {
    Velocity { speed: 5, direction }
}

fn resting(direction: Direction) -> Velocity {
    Velocity { speed: 0, direction }
}

#[test]
fn frame_cycles_with_period_three_while_moving() {
    let mut anim = walker();
    let mut seen = Vec::new();
    for _ in 0..7 {
        Animator::step(&mut anim, moving(Direction::Right));
        seen.push(anim.current_frame);
    }
    assert_eq!(seen, vec![1, 2, 0, 1, 2, 0, 1]);
}

#[test]
fn frame_holds_at_rest_and_resumes_where_it_stopped() {
    let mut anim = walker();
    Animator::step(&mut anim, moving(Direction::Left));
    Animator::step(&mut anim, moving(Direction::Left));
    assert_eq!(anim.current_frame, 2);
    for _ in 0..5 {
        Animator::step(&mut anim, resting(Direction::Left));
        assert_eq!(anim.current_frame, 2);
    }
    Animator::step(&mut anim, moving(Direction::Left));
    assert_eq!(anim.current_frame, 0);
    Animator::step(&mut anim, resting(Direction::Up));
    assert_eq!(anim.current_frame, 0);
    Animator::step(&mut anim, moving(Direction::Up));
    assert_eq!(anim.current_frame, 1);
}

#[test]
fn step_changes_only_the_current_frame() {
    let mut anim = walker();
    let before = anim.clone();
    Animator::step(&mut anim, moving(Direction::Down));
    assert_eq!(anim.up_frames, before.up_frames);
    assert_eq!(anim.down_frames, before.down_frames);
    assert_eq!(anim.left_frames, before.left_frames);
    assert_eq!(anim.right_frames, before.right_frames);
    assert_eq!(anim.current_frame, 1);
    let at_rest = anim.clone();
    Animator::step(&mut anim, resting(Direction::Down));
    assert_eq!(anim, at_rest);
}

#[test]
fn step_returns_the_sprite_of_the_heading_and_new_frame() {
    let mut anim = walker();
    let s = Animator::step(&mut anim, moving(Direction::Up));
    assert_eq!(s, Sprite { spritesheet: 0, region: Rect::new(26, 108, 26, 36) });
    let s = Animator::step(&mut anim, moving(Direction::Left));
    assert_eq!(s, Sprite { spritesheet: 0, region: Rect::new(52, 36, 26, 36) });
    let s = Animator::step(&mut anim, resting(Direction::Down));
    assert_eq!(s, Sprite { spritesheet: 0, region: Rect::new(52, 0, 26, 36) });
    let s = Animator::step(&mut anim, moving(Direction::Right));
    assert_eq!(s, Sprite { spritesheet: 0, region: Rect::new(0, 72, 26, 36) });
}

#[test]
fn cycle_length_follows_the_number_of_frames() {
    let frame = Sprite { spritesheet: 1, region: Rect::new(0, 0, 8, 8) };
    let mut anim = MovementAnimation::new(0, vec![frame; 5], vec![frame; 5], vec![frame; 5], vec![frame; 5]).unwrap();
    let mut seen = Vec::new();
    for _ in 0..6 {
        Animator::step(&mut anim, moving(Direction::Down));
        seen.push(anim.current_frame);
    }
    assert_eq!(seen, vec![1, 2, 3, 4, 0, 1]);

    let mut single = MovementAnimation::new(0, vec![frame], vec![frame], vec![frame], vec![frame]).unwrap();
    Animator::step(&mut single, moving(Direction::Down));
    assert_eq!(single.current_frame, 0);
}

#[test]
fn run_animates_entities_that_have_both_components() {
    let mut animations = vec![Some(walker()), None, Some(walker()), Some(walker())];
    let velocities = vec![Some(moving(Direction::Up)), Some(moving(Direction::Up)), None, Some(resting(Direction::Up))];
    let mut animator = Animator;
    animator.run(&mut animations, &velocities);
    let frames: Vec<Option<usize>> = animations.iter().map(|a| a.as_ref().map(|a| a.current_frame)).collect();
    assert_eq!(frames, vec![Some(1), None, Some(0), Some(0)]);
    animator.run(&mut animations, &velocities);
    animator.run(&mut animations, &velocities);
    let frames: Vec<Option<usize>> = animations.iter().map(|a| a.as_ref().map(|a| a.current_frame)).collect();
    assert_eq!(frames, vec![Some(0), None, Some(0), Some(0)]);
}

#[test]
fn run_with_tables_of_unequal_length() {
    let mut animations = vec![Some(walker()), Some(walker())];
    let velocities = vec![Some(moving(Direction::Left))];
    let mut animator = Animator;
    animator.run(&mut animations, &velocities);
    assert_eq!(animations[0].as_ref().unwrap().current_frame, 1);
    assert_eq!(animations[1].as_ref().unwrap().current_frame, 0);
}
