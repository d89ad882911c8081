use bouncy_ball::life::Life;
use bouncy_ball::obstacles::{Obstacle, ObstacleKind};
use bouncy_ball::physics::Point;
use bouncy_ball::render::{
    frame_intents, pointer_in_world, start_audio, tick_audio, AudioIntent, DrawIntent, Label,
    Sound, Texture, Tint, ALPHA_FULL,
};
use bouncy_ball::world::{TickEvents, World};

#[test]
fn frame_lists_background_then_scene() {
    let mut w = World::new(600_000, 6, 2_000_000);
    w.obstacles = vec![
        Obstacle { x: 5_000, y: -100_000, scale: 2, kind: ObstacleKind::Seeking },
        Obstacle { x: 5_000, y: -5_000_000, scale: 1, kind: ObstacleKind::Normal },
    ];
    // pointer at the ball's corner plus a 3-4-5 offset of 300 pixels
    let pointer = Point { x: 300_000 + 180_000, y: 240_000 };
    let frame = frame_intents(&w, 800_000, pointer);
    assert_eq!(frame.len(), 18 + 4 + 1 + 2);
    assert_eq!(
        frame[0],
        DrawIntent::Sprite { texture: Texture::Sky, x: 0, y: 0, size: 600_000, quarter_turns: 0 }
    );
    match frame[4] {
        DrawIntent::Sprite { y, size, .. } => {
            // second tile at -600000, ball at 0: shifted by a tenth of 600000
            assert_eq!(y, -600_000 - 60_000);
            assert_eq!(size, 600_000);
        }
        other => panic!("unexpected {:?}", other),
    }
    assert_eq!(
        frame[20],
        DrawIntent::Sprite { texture: Texture::Ball, x: 300_000, y: 0, size: 64_000, quarter_turns: 0 }
    );
    assert_eq!(
        frame[21],
        DrawIntent::Line {
            x1: 332_000,
            y1: 32_000,
            x2: 480_000,
            y2: 240_000,
            thickness: 2_000,
            tint: Tint::Aim,
            alpha: 500_000
        }
    );
    // farther than the playfield width: opacity capped, thickness not
    let far = Point { x: 300_000 + 720_000, y: 960_000 };
    match frame_intents(&w, 800_000, far)[21] {
        DrawIntent::Line { thickness, alpha, .. } => {
            assert_eq!(thickness, 8_000);
            assert_eq!(alpha, ALPHA_FULL);
        }
        other => panic!("unexpected {:?}", other),
    }
    assert_eq!(
        frame[22],
        DrawIntent::Sprite {
            texture: Texture::SeekingObstacle,
            x: 300_000,
            y: -100_000,
            size: 128_000,
            quarter_turns: 0
        }
    );
    assert_eq!(
        frame[24],
        DrawIntent::Text { label: Label::Score(0), x: 90_000, y: 32_000, size: 64_000 }
    );
}

#[test]
fn dead_frame_adds_overlay() {
    let mut w = World::new(600_000, 6, 2_000_000);
    w.obstacles.clear();
    w.life = Life::Dead;
    w.fade = 250_000;
    w.score.score = -40;
    w.score.highest_y = -40;
    let frame = frame_intents(&w, 800_000, Point { x: 0, y: 0 });
    let n = frame.len();
    assert_eq!(n, 18 + 4 + 2 + 3);
    assert_eq!(
        frame[n - 3],
        DrawIntent::Rect { x: 0, y: -400_000, w: 600_000, h: 800_000, tint: Tint::Black, alpha: 250_000 }
    );
    assert_eq!(frame[n - 2], DrawIntent::Text { label: Label::Died, x: 16_000, y: 0, size: 128_000 });
    assert_eq!(
        frame[n - 1],
        DrawIntent::Text { label: Label::FinalScore(40), x: 16_000, y: 64_000, size: 38_000 }
    );
    // marker: the ball is 40 below the best altitude
    assert_eq!(
        frame[n - 5],
        DrawIntent::Rect { x: 0, y: -40, w: 600_000, h: 4_000, tint: Tint::White, alpha: 4 }
    );
}

#[test]
fn pointer_maps_into_world() {
    assert_eq!(pointer_in_world(-1_000_000, 100_000, 500_000, 600_000, 800_000), Point { x: 100_000, y: -900_000 });
    assert_eq!(pointer_in_world(0, -5, 0, 600_000, 800_000), Point { x: 0, y: -400_000 });
    assert_eq!(pointer_in_world(0, 700_000, 0, 600_000, 800_000).x, 600_000);
}

#[test]
fn sounds_follow_events() {
    assert_eq!(start_audio(), AudioIntent { sound: Sound::Music, looped: true, volume: 400_000 });
    let hit = TickEvents { wall_hit: true, died: false, spawned: false };
    assert_eq!(
        tick_audio(&hit),
        Some(AudioIntent { sound: Sound::WallHit, looped: false, volume: ALPHA_FULL })
    );
    let quiet = TickEvents { wall_hit: false, died: true, spawned: true };
    assert_eq!(tick_audio(&quiet), None);
}
