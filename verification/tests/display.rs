use matrix_protocol::animation::{
    Animation, RotatingPlasmaAnimation, StaticAnimation, StoredAnimation, PLASMA_VALUE,
};
use matrix_protocol::color::{channel_sum, exceeds_current_limit, gamma_correct, Frame, GAMMA8, RGB8};
use matrix_protocol::geometry::{to_chain_order, xy_to_index, MATRIX_PIXEL_COUNT, MATRIX_WIDTH};
use matrix_protocol::matrix::LedMatrix;
use matrix_protocol::player::{DeviceStorage, Mode, Player, TickPlan, PROCEDURAL_DELAY_MS};
use matrix_protocol::protocol::Command;

const BLACK: RGB8 = RGB8 { r: 0, g: 0, b: 0 };

fn row_major_frame() -> Frame {
    let mut frame = [BLACK; MATRIX_PIXEL_COUNT];
    for (i, p) in frame.iter_mut().enumerate() {
        *p = RGB8 { r: i as u8, g: 0, b: 1 };
    }
    frame
}

#[test]
fn gamma_table_values() {
    assert_eq!(GAMMA8[0], 0);
    assert_eq!(GAMMA8[37], 1);
    assert_eq!(GAMMA8[100], 13);
    assert_eq!(GAMMA8[128], 28);
    assert_eq!(GAMMA8[200], 117);
    assert_eq!(GAMMA8[255], 255);
}

#[test]
fn gamma_correct_maps_every_channel() {
    let mut pixels = vec![RGB8 { r: 255, g: 128, b: 0 }, RGB8 { r: 200, g: 100, b: 37 }];
    gamma_correct(&mut pixels);
    assert_eq!(pixels, vec![RGB8 { r: 255, g: 28, b: 0 }, RGB8 { r: 117, g: 13, b: 1 }]);
    let mut empty: Vec<RGB8> = Vec::new();
    gamma_correct(&mut empty);
    assert!(empty.is_empty());
}

#[test]
fn channel_sum_adds_every_channel() {
    assert_eq!(channel_sum(&[]), 0);
    assert_eq!(channel_sum(&[RGB8 { r: 1, g: 2, b: 3 }, RGB8 { r: 255, g: 255, b: 255 }]), 771);
    assert_eq!(channel_sum(&[RGB8 { r: 255, g: 255, b: 255 }; MATRIX_PIXEL_COUNT]), 195_840);
}

#[test]
fn chain_order_follows_the_wiring() {
    let frame = row_major_frame();
    let chain = to_chain_order(&frame);
    for y in 0..16 {
        for x in 0..MATRIX_WIDTH {
            assert_eq!(chain[xy_to_index(x, y)], frame[y * MATRIX_WIDTH + x]);
        }
    }
    assert_eq!(chain[16].r, 31);
    assert_eq!(chain[31].r, 16);
}

#[test]
fn new_matrix_is_dark_and_pending() {
    let mut m = LedMatrix::new();
    assert!(m.should_refresh());
    assert!(m.pixels().iter().all(|p| *p == BLACK));
    assert_eq!(m.show(), Some([BLACK; MATRIX_PIXEL_COUNT]));
    assert!(!m.should_refresh());
    assert_eq!(m.show(), None);
}

#[test]
fn show_sends_gamma_corrected_colours_once() {
    let mut m = LedMatrix::new();
    m.set_color(RGB8 { r: 128, g: 200, b: 255 });
    let sent = m.show().unwrap();
    assert!(sent.iter().all(|p| *p == RGB8 { r: 28, g: 117, b: 255 }));
    // The picture itself is kept uncorrected.
    assert!(m.pixels().iter().all(|p| *p == RGB8 { r: 128, g: 200, b: 255 }));
    assert_eq!(m.show(), None);
    m.request_refresh();
    assert_eq!(m.show(), Some(sent));
}

#[test]
fn set_places_the_led_on_the_zig_zag() {
    let mut m = LedMatrix::new();
    m.show();
    let red = RGB8 { r: 255, g: 0, b: 0 };
    m.set(0, 1, red);
    assert!(m.should_refresh());
    assert_eq!(m.pixels()[31], red);
    assert_eq!(m.pixels().iter().filter(|p| **p == red).count(), 1);
    m.clear();
    assert!(m.pixels().iter().all(|p| *p == BLACK));
}

#[test]
fn set_frame_and_set_pixels() {
    let mut m = LedMatrix::new();
    let frame = row_major_frame();
    m.set_frame(&frame);
    assert_eq!(*m.pixels(), to_chain_order(&frame));
    m.show();
    m.set_pixels(frame);
    assert!(m.should_refresh());
    assert_eq!(*m.pixels(), frame);
}

#[test]
fn plasma_frame_uses_the_hsv_colour_of_each_hue() {
    let plasma = RotatingPlasmaAnimation;
    // Hue 0 at full saturation is pure red; hue 85 is pure green.
    let frame = plasma.frame_from_hues(&[0u8; MATRIX_PIXEL_COUNT]);
    assert!(frame.iter().all(|p| *p == RGB8 { r: PLASMA_VALUE, g: 0, b: 0 }));
    let mut hues = [0u8; MATRIX_PIXEL_COUNT];
    hues[1 * MATRIX_WIDTH + 0] = 85;
    let frame = plasma.frame_from_hues(&hues);
    assert_eq!(frame[xy_to_index(0, 1)], RGB8 { r: 0, g: PLASMA_VALUE, b: 0 });
    assert_eq!(frame[31], RGB8 { r: 0, g: PLASMA_VALUE, b: 0 });
    assert_eq!(frame[16], RGB8 { r: PLASMA_VALUE, g: 0, b: 0 });
}

#[test]
fn static_animation_loops_over_its_frames() {
    let frames: &'static [Frame] =
        Box::leak(vec![[BLACK; MATRIX_PIXEL_COUNT], row_major_frame()].into_boxed_slice());
    let mut anim = StaticAnimation::new(frames);
    assert_eq!(anim.next_frame(0), frames[0]);
    assert_eq!(anim.next_frame(1), frames[1]);
    assert_eq!(anim.next_frame(7), frames[1]);
    assert_eq!(anim.next_frame(u32::MAX), frames[1]);
}

#[test]
fn stored_animation_and_storage_start_empty() {
    let anim = StoredAnimation::new();
    assert_eq!(anim.frame_count, 0);
    assert_eq!(anim.fps, 30);
    assert!(anim.frames.iter().all(|f| f.iter().all(|p| *p == BLACK)));
    let storage = DeviceStorage::new();
    assert_eq!(storage.brightness_percent, 100);
    assert_eq!(storage.max_amper, 500);
    assert_eq!(storage.current_animation, 0);
    assert_eq!(storage.custom_animation.frame_count, 0);
}

#[test]
fn player_applies_commands() {
    let mut player = Player::new();
    let mut m = LedMatrix::new();
    let mut storage = DeviceStorage::new();
    assert_eq!(player.mode, Mode::Live);

    player.apply_command(Command::SelectAnimation(2), &mut m, &mut storage);
    assert_eq!(player.mode, Mode::Procedural);

    let frame = row_major_frame();
    m.show();
    player.apply_command(Command::SetFrame(frame), &mut m, &mut storage);
    assert_eq!(player.mode, Mode::Live);
    assert_eq!(*m.pixels(), to_chain_order(&frame));

    m.show();
    player.apply_command(Command::SetBrightness(250), &mut m, &mut storage);
    assert_eq!(storage.brightness_percent, 100);
    assert!(m.should_refresh());
    player.apply_command(Command::SetBrightness(40), &mut m, &mut storage);
    assert_eq!(storage.brightness_percent, 40);

    player.anim_idx = 5;
    player.apply_command(Command::PlayUploadedAnimation, &mut m, &mut storage);
    assert_eq!(player.mode, Mode::Uploaded);
    assert_eq!(player.anim_idx, 0);

    player.apply_command(Command::UploadAnimationEnd, &mut m, &mut storage);
    assert_eq!(player.mode, Mode::Uploaded);
}

#[test]
fn player_ticks() {
    let mut player = Player::new();
    let mut m = LedMatrix::new();
    let mut storage = DeviceStorage::new();

    let plan = player.next_tick(&mut m, &storage);
    assert_eq!(plan, TickPlan { plasma_tick: None, delay_ms: PROCEDURAL_DELAY_MS });

    player.mode = Mode::Procedural;
    assert_eq!(player.next_tick(&mut m, &storage).plasma_tick, Some(0));
    assert_eq!(player.next_tick(&mut m, &storage).plasma_tick, Some(1));
    assert_eq!(player.tick, 2);

    // Nothing stored yet: fall back to the procedural animation.
    player.mode = Mode::Uploaded;
    let plan = player.next_tick(&mut m, &storage);
    assert_eq!(plan, TickPlan { plasma_tick: None, delay_ms: PROCEDURAL_DELAY_MS });
    assert_eq!(player.mode, Mode::Procedural);

    let frame = row_major_frame();
    storage.custom_animation.frames[1] = frame;
    storage.custom_animation.frame_count = 2;
    storage.custom_animation.fps = 8;
    player.mode = Mode::Uploaded;
    player.anim_idx = 3;
    let plan = player.next_tick(&mut m, &storage);
    assert_eq!(plan, TickPlan { plasma_tick: None, delay_ms: 125 });
    assert_eq!(player.anim_idx, 4);
    assert_eq!(*m.pixels(), to_chain_order(&frame));
}

#[test]
fn gamma_never_brightens_and_keeps_order() {
    for v in 0..=255usize {
        assert!(GAMMA8[v] as usize <= v);
        if v < 255 {
            assert!(GAMMA8[v] <= GAMMA8[v + 1]);
        }
    }
    let mut dim = vec![RGB8 { r: 10, g: 100, b: 0 }, RGB8 { r: 200, g: 0, b: 255 }];
    let mut bright = vec![RGB8 { r: 60, g: 101, b: 1 }, RGB8 { r: 255, g: 9, b: 255 }];
    gamma_correct(&mut dim);
    gamma_correct(&mut bright);
    for (d, b) in dim.iter().zip(bright.iter()) {
        assert!(d.r <= b.r && d.g <= b.g && d.b <= b.b);
    }
    assert_eq!(bright[1], RGB8 { r: 255, g: 0, b: 255 });
}

#[test]
fn plasma_colours_match_smart_leds_for_every_hue() {
    let plasma = RotatingPlasmaAnimation;
    let mut hues = [0u8; MATRIX_PIXEL_COUNT];
    for (i, h) in hues.iter_mut().enumerate() {
        *h = i as u8;
    }
    let frame = plasma.frame_from_hues(&hues);
    for y in 0..16 {
        for x in 0..MATRIX_WIDTH {
            let hue = hues[y * MATRIX_WIDTH + x];
            let c = smart_leds::hsv::hsv2rgb(smart_leds::hsv::Hsv { hue, sat: 255, val: PLASMA_VALUE });
            let p = frame[xy_to_index(x, y)];
            assert_eq!((p.r, p.g, p.b), (c.r, c.g, c.b));
            assert!(p.r <= PLASMA_VALUE && p.g <= PLASMA_VALUE && p.b <= PLASMA_VALUE);
        }
    }
    // hue 89: q falls to 22, t rises to 2 within the green sector
    let mut hues = [0u8; MATRIX_PIXEL_COUNT];
    hues[0] = 89;
    assert_eq!(plasma.frame_from_hues(&hues)[0], RGB8 { r: 0, g: 25, b: 2 });
}

#[test]
fn channel_sum_of_many_dark_pixels() {
    // More pixels than a full-white bound would allow, but a small sum.
    let pixels = vec![RGB8 { r: 0, g: 1, b: 0 }; 6_000_000];
    assert_eq!(channel_sum(&pixels), 6_000_000);
}

#[test]
fn current_limit_matches_the_estimate() {
    // 256 idle mA plus sum * 20 / 255: exactly 1500 mA at a channel sum of 15861.
    let mut frame = [BLACK; MATRIX_PIXEL_COUNT];
    assert!(!exceeds_current_limit(&frame));
    let mut remaining: u32 = 15861;
    for p in frame.iter_mut() {
        let r = remaining.min(255);
        p.r = r as u8;
        remaining -= r;
    }
    assert_eq!(channel_sum(&frame), 15861);
    assert!(!exceeds_current_limit(&frame));
    frame[255].g = 1;
    assert!(exceeds_current_limit(&frame));
    assert!(exceeds_current_limit(&[RGB8 { r: 255, g: 255, b: 255 }; MATRIX_PIXEL_COUNT]));
}

#[test]
fn uploaded_frames_cycle_modulo_the_frame_count() {
    let mut player = Player::new();
    let mut m = LedMatrix::new();
    let mut storage = DeviceStorage::new();
    let frame = row_major_frame();
    storage.custom_animation.frames[2] = frame;
    storage.custom_animation.frame_count = 40;
    storage.custom_animation.fps = 30;
    player.mode = Mode::Uploaded;
    player.anim_idx = 42;
    let plan = player.next_tick(&mut m, &storage);
    assert_eq!(plan.delay_ms, 33);
    assert_eq!(*m.pixels(), to_chain_order(&frame));
}
