use movement_core::components::{AnimationError, Direction, MovementAnimation, Sprite};
use movement_core::geometry::Rect;

fn strip(sheet: usize, row: i32, n: usize) -> Vec<Sprite> {
    let mut frames = Vec::new();
    for i in 0..n {
        frames.push(Sprite { spritesheet: sheet, region: Rect::new(10 * i as i32, 10 * row, 10, 10) });
    }
    frames
}

#[test]
fn animation_with_equal_frame_counts_is_accepted() {
    let anim = MovementAnimation::new(1, strip(0, 3, 2), strip(0, 0, 2), strip(0, 1, 2), strip(0, 2, 2)).unwrap();
    assert_eq!(anim.current_frame, 1);
    assert_eq!(anim.up_frames, strip(0, 3, 2));
    assert_eq!(anim.down_frames, strip(0, 0, 2));
    assert_eq!(anim.left_frames, strip(0, 1, 2));
    assert_eq!(anim.right_frames, strip(0, 2, 2));
    assert!(anim.is_valid());
}

#[test]
fn animation_with_unequal_frame_counts_is_refused() {
    let r = MovementAnimation::new(0, strip(0, 3, 3), strip(0, 0, 2), strip(0, 1, 3), strip(0, 2, 3));
    assert_eq!(r, Err(AnimationError::FrameCountMismatch));
    let r = MovementAnimation::new(0, strip(0, 3, 3), strip(0, 0, 3), strip(0, 1, 4), strip(0, 2, 3));
    assert_eq!(r, Err(AnimationError::FrameCountMismatch));
    let r = MovementAnimation::new(0, strip(0, 3, 3), strip(0, 0, 3), strip(0, 1, 3), strip(0, 2, 0));
    assert_eq!(r, Err(AnimationError::FrameCountMismatch));
}

#[test]
fn mismatch_is_reported_before_a_bad_frame_index() {
    let r = MovementAnimation::new(9, strip(0, 3, 1), strip(0, 0, 2), strip(0, 1, 1), strip(0, 2, 1));
    assert_eq!(r, Err(AnimationError::FrameCountMismatch));
}

#[test]
fn animation_with_frame_index_past_the_end_is_refused() {
    let r = MovementAnimation::new(3, strip(0, 3, 3), strip(0, 0, 3), strip(0, 1, 3), strip(0, 2, 3));
    assert_eq!(r, Err(AnimationError::FrameOutOfRange));
    let r = MovementAnimation::new(2, strip(0, 3, 3), strip(0, 0, 3), strip(0, 1, 3), strip(0, 2, 3));
    assert!(r.is_ok());
}

#[test]
fn animation_without_frames_is_refused() {
    let r = MovementAnimation::new(0, Vec::new(), Vec::new(), Vec::new(), Vec::new());
    assert_eq!(r, Err(AnimationError::FrameOutOfRange));
}

#[test]
fn is_valid_sees_what_was_changed_by_hand() {
    let mut anim = MovementAnimation::new(0, strip(0, 3, 3), strip(0, 0, 3), strip(0, 1, 3), strip(0, 2, 3)).unwrap();
    assert!(anim.is_valid());
    anim.current_frame = 3;
    assert!(!anim.is_valid());
    anim.current_frame = 2;
    anim.left_frames.pop();
    assert!(!anim.is_valid());
}

#[test]
fn frames_and_sprite_follow_the_direction() {
    let anim = MovementAnimation::new(1, strip(5, 3, 3), strip(5, 0, 3), strip(5, 1, 3), strip(5, 2, 3)).unwrap();
    assert_eq!(anim.frames(Direction::Up), &strip(5, 3, 3));
    assert_eq!(anim.frames(Direction::Down), &strip(5, 0, 3));
    assert_eq!(anim.frames(Direction::Left), &strip(5, 1, 3));
    assert_eq!(anim.frames(Direction::Right), &strip(5, 2, 3));
    assert_eq!(anim.sprite(Direction::Up), Sprite { spritesheet: 5, region: Rect::new(10, 30, 10, 10) });
    assert_eq!(anim.sprite(Direction::Down), Sprite { spritesheet: 5, region: Rect::new(10, 0, 10, 10) });
    assert_eq!(anim.sprite(Direction::Left), Sprite { spritesheet: 5, region: Rect::new(10, 10, 10, 10) });
    assert_eq!(anim.sprite(Direction::Right), Sprite { spritesheet: 5, region: Rect::new(10, 20, 10, 10) });
}
