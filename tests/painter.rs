use raysnail::painter::{
    append, floor_sqrt, pixel_action, Painter, PainterCommand, PainterController,
    PassivePainterController, PassivePixelController, PixelAction, PixelController,
};

#[test]
fn new_painter_defaults() {
    let p = Painter::new(40, 20);
    assert_eq!(p.width(), 40);
    assert_eq!(p.height(), 20);
    assert_eq!(p.sample_count(), 25);
    assert_eq!(p.sqrt_spp(), 5);
    assert!(p.uses_gamma());
    assert!(p.is_parallel());
}

#[test]
fn samples_round_down_to_square() {
    let p = Painter::new(4, 4).samples(122);
    assert_eq!(p.sqrt_spp(), 11);
    assert_eq!(p.sample_count(), 121);
    let p = p.samples(4);
    assert_eq!(p.sqrt_spp(), 2);
    assert_eq!(p.sample_count(), 4);
    let p = p.samples(0);
    assert_eq!(p.sample_count(), 0);
}

#[test]
fn floor_sqrt_exact_values() {
    assert_eq!(floor_sqrt(0), 0);
    assert_eq!(floor_sqrt(1), 1);
    assert_eq!(floor_sqrt(24), 4);
    assert_eq!(floor_sqrt(25), 5);
    assert_eq!(floor_sqrt(usize::MAX), (1usize << (usize::BITS / 2)) - 1);
}

#[test]
fn builders_change_one_setting() {
    let p = Painter::new(8, 6).gamma(false).parallel(false).threads(3);
    assert!(!p.uses_gamma());
    assert!(!p.is_parallel());
    assert_eq!(p.worker_count(16), 4);
    assert_eq!(p.thread_count(), 4);
    assert_eq!(p.width(), 8);
    assert_eq!(p.sample_count(), 25);
}

#[test]
fn worker_count_uses_cpus_when_unset() {
    let p = Painter::new(8, 6);
    assert_eq!(p.worker_count(7), 8);
    assert_eq!(p.worker_count(usize::MAX), usize::MAX);
    assert!(p.thread_count() >= 1);
}

#[test]
fn worker_rows_interleave() {
    let p = Painter::new(8, 7);
    assert_eq!(p.worker_rows(1, 3), vec![1, 4]);
    assert_eq!(p.worker_rows(0, 3), vec![0, 3, 6]);
    assert_eq!(p.worker_rows(9, 3), Vec::<usize>::new());
}

#[test]
fn append_places_worker_lines() {
    let mut result = vec![0u8; 8];
    // two threads, width 2, image of 4 rows; worker 1 rendered rows 1 and 3
    append(&mut result, &vec![1, 2, 3, 4], 1, 2, 2);
    assert_eq!(result, vec![0, 0, 1, 2, 0, 0, 3, 4]);
    append(&mut result, &vec![5, 6, 7, 8], 0, 2, 2);
    assert_eq!(result, vec![5, 6, 1, 2, 7, 8, 3, 4]);
}

#[test]
fn append_drops_lines_past_the_image() {
    let mut result = vec![0u8; 4];
    append(&mut result, &vec![1, 1, 2, 2, 3, 3], 0, 1, 2);
    assert_eq!(result, vec![1, 1, 2, 2]);
}

#[test]
fn pixel_action_priorities() {
    assert_eq!(pixel_action(true, true), PixelAction::Blank);
    assert_eq!(pixel_action(true, false), PixelAction::Blank);
    assert_eq!(pixel_action(false, true), PixelAction::Render);
    assert_eq!(pixel_action(false, false), PixelAction::Skip);
}

#[test]
fn passive_controllers() {
    assert_eq!(PassivePainterController {}.receive_command(), PainterCommand::Continue);
    assert!(PassivePixelController {}.calculate_pixel(3, 9));
}
