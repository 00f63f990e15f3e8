use cli_kit::field::ParticleField;
use cli_kit::lifecycle::LifecycleGuard;
use cli_kit::particle::Particle;
use cli_kit::render::{fits_header, FrameOutcome, LoopState, RenderLoop, TerminalDimensions, FRAME_PERIOD_MILLIS};
use cli_kit::terminal::{Color, TerminalMode, TerminalOp};
use cli_kit::watcher::{InputWatcher, ReadEvent, WatcherAction};
use rand::rngs::StdRng;
use rand::SeedableRng;

fn seeded(seed: u64) -> StdRng {
    StdRng::seed_from_u64(seed)
}

#[test]
fn particle_moves_one_row_down() {
    let mut p = Particle::with_color(7, 3, 200, 'k');
    p.update_with(24, 55);
    assert_eq!(p, Particle { x: 7, y: 4, color: 200, glyph: 'k' });
}

#[test]
fn particle_wraps_at_the_bottom_edge() {
    let mut p = Particle::with_color(7, 23, 200, 'k');
    p.update_with(24, 55);
    assert_eq!(p, Particle { x: 55, y: 0, color: 200, glyph: 'k' });
}

#[test]
fn particle_below_the_screen_wraps() {
    let mut p = Particle::with_color(7, 40, 1, 'z');
    p.update_with(24, 3);
    assert_eq!(p, Particle { x: 3, y: 0, color: 1, glyph: 'z' });
}

#[test]
fn particle_on_the_last_possible_row_wraps_without_overflow() {
    let mut p = Particle::with_color(7, u16::MAX, 1, 'z');
    p.update_with(u16::MAX, 9);
    assert_eq!(p, Particle { x: 9, y: 0, color: 1, glyph: 'z' });
}

#[test]
fn particle_on_a_screen_without_rows_stays_on_row_zero() {
    let mut p = Particle::with_color(7, 0, 1, 'z');
    p.update_with(0, 2);
    assert_eq!(p, Particle { x: 2, y: 0, color: 1, glyph: 'z' });
}

#[test]
fn new_particle_keeps_place_and_glyph() {
    let mut rng = seeded(1);
    let p = Particle::new(12, 5, 'Q', &mut rng);
    assert_eq!((p.x, p.y, p.glyph), (12, 5, 'Q'));
}

#[test]
fn random_update_keeps_column_until_the_wrap() {
    let mut rng = seeded(2);
    let mut p = Particle::with_color(70, 0, 9, 'a');
    for row in 1..24u16 {
        p.update(80, 24, &mut rng);
        assert_eq!((p.x, p.y), (70, row));
    }
    p.update(1, 24, &mut rng);
    assert_eq!((p.x, p.y, p.color, p.glyph), (0, 0, 9, 'a'));
}

#[test]
fn spawn_adds_exactly_one_particle_whatever_the_size() {
    let mut rng = seeded(3);
    let mut field = ParticleField::new();
    for n in 0..200usize {
        assert_eq!(field.len(), n);
        field.spawn(80, &mut rng);
        let p = field.get(n);
        assert_eq!(p.y, 0);
        assert!(p.x < 80);
        assert!(p.glyph.is_ascii_alphanumeric());
    }
}

#[test]
fn spawn_on_a_one_column_terminal_uses_column_zero() {
    let mut rng = seeded(4);
    let mut field = ParticleField::new();
    for n in 0..20usize {
        field.spawn(1, &mut rng);
        assert_eq!(field.get(n).x, 0);
    }
}

#[test]
fn spawn_keeps_the_older_particles() {
    let mut rng = seeded(5);
    let mut field = ParticleField::new();
    field.insert(Particle::with_color(1, 2, 3, 'x'));
    field.spawn(10, &mut rng);
    assert_eq!(field.len(), 2);
    assert_eq!(field.get(0), Particle { x: 1, y: 2, color: 3, glyph: 'x' });
}

#[test]
fn advance_all_keeps_every_row_on_the_screen() {
    let mut rng = seeded(6);
    let mut field = ParticleField::new();
    for frame in 0..100usize {
        field.advance_all(80, 7, &mut rng);
        field.spawn(80, &mut rng);
        assert_eq!(field.len(), frame + 1);
        for i in 0..field.len() {
            assert!(field.get(i).y < 7);
            assert!(field.get(i).x < 80);
        }
    }
}

#[test]
fn five_particles_after_twenty_four_frames() {
    let mut rng = seeded(7);
    let mut field = ParticleField::new();
    for _ in 0..5 {
        field.spawn(80, &mut rng);
    }
    let looks: Vec<(u8, char)> = (0..5).map(|i| (field.get(i).color, field.get(i).glyph)).collect();
    for step in 1..=24u16 {
        field.advance_all(80, 24, &mut rng);
        assert_eq!(field.len(), 5);
        for i in 0..5 {
            assert_eq!(field.get(i).y, step % 24);
        }
    }
    for i in 0..5 {
        let p = field.get(i);
        assert_eq!(p.y, 0);
        assert!(p.x < 80);
        assert_eq!((p.color, p.glyph), looks[i]);
    }
}

#[test]
fn particles_spawned_frame_by_frame_wrap_each_at_its_own_time() {
    let mut rng = seeded(8);
    let mut field = ParticleField::new();
    for _ in 0..5 {
        field.advance_all(80, 24, &mut rng);
        field.spawn(80, &mut rng);
    }
    for _ in 0..24 {
        field.advance_all(80, 24, &mut rng);
    }
    assert_eq!(field.len(), 5);
    for i in 0..5usize {
        let advances = (4 - i as u16) + 24;
        assert_eq!(field.get(i).y, advances % 24);
    }
}

#[test]
fn prune_removes_rows_at_or_past_the_height() {
    let mut field = ParticleField::new();
    field.insert(Particle::with_color(0, 0, 1, 'a'));
    field.insert(Particle::with_color(1, 10, 2, 'b'));
    field.insert(Particle::with_color(2, 9, 3, 'c'));
    field.insert(Particle::with_color(3, 30, 4, 'd'));
    field.prune(10);
    assert_eq!(field.len(), 2);
    assert_eq!(field.get(0), Particle { x: 0, y: 0, color: 1, glyph: 'a' });
    assert_eq!(field.get(1), Particle { x: 2, y: 9, color: 3, glyph: 'c' });
}

#[test]
fn prune_changes_nothing_when_all_rows_are_on_the_screen() {
    let mut field = ParticleField::new();
    field.insert(Particle::with_color(0, 0, 1, 'a'));
    field.insert(Particle::with_color(1, 23, 2, 'b'));
    field.prune(24);
    assert_eq!(field.len(), 2);
    assert_eq!(field.get(0), Particle { x: 0, y: 0, color: 1, glyph: 'a' });
    assert_eq!(field.get(1), Particle { x: 1, y: 23, color: 2, glyph: 'b' });
}

#[test]
fn prune_after_advance_keeps_the_wrapped_particle() {
    let mut rng = seeded(9);
    let mut field = ParticleField::new();
    field.insert(Particle::with_color(5, 23, 1, 'a'));
    field.advance_all(80, 24, &mut rng);
    field.prune(24);
    assert_eq!(field.len(), 1);
    assert_eq!(field.get(0).y, 0);
    assert_eq!((field.get(0).color, field.get(0).glyph), (1, 'a'));
}

#[test]
fn prune_on_a_screen_without_rows_empties_the_field() {
    let mut field = ParticleField::new();
    field.insert(Particle::with_color(0, 0, 1, 'a'));
    field.prune(0);
    assert_eq!(field.len(), 0);
}

#[test]
fn clear_empties_the_field() {
    let mut rng = seeded(10);
    let mut field = ParticleField::new();
    field.spawn(80, &mut rng);
    field.spawn(80, &mut rng);
    field.clear();
    assert_eq!(field.len(), 0);
}

#[test]
fn first_frame_draws_the_header_and_flushes() {
    let mut rng = seeded(11);
    let mut render_loop = RenderLoop::new(80, 24);
    let ops = render_loop.frame("2024-05-06 07:08:09", 80, 24, &mut rng);
    assert_eq!(
        ops,
        vec![
            TerminalOp::ClearAll,
            TerminalOp::MoveTo { column: 31, row: 0 },
            TerminalOp::SetForeground(Color::White),
            TerminalOp::PrintText("2024-05-06 07:08:09".to_string()),
            TerminalOp::MoveTo { column: 32, row: 1 },
            TerminalOp::SetForeground(Color::White),
            TerminalOp::PrintText("Press 'q' to quit".to_string()),
            TerminalOp::Flush,
        ]
    );
    assert_eq!(render_loop.field().len(), 1);
    assert_eq!(render_loop.field().get(0).y, 0);
    assert_eq!(render_loop.state(), LoopState::Running);
}

#[test]
fn second_frame_draws_the_particle_one_row_down() {
    let mut rng = seeded(12);
    let mut render_loop = RenderLoop::new(80, 24);
    render_loop.frame("t", 80, 24, &mut rng);
    let first = render_loop.field().get(0);
    let ops = render_loop.frame("t", 80, 24, &mut rng);
    assert_eq!(ops.len(), 11);
    assert_eq!(ops[1], TerminalOp::MoveTo { column: 40, row: 0 });
    assert_eq!(ops[7], TerminalOp::MoveTo { column: first.x, row: 1 });
    assert_eq!(ops[8], TerminalOp::SetForeground(Color::Ansi(first.color)));
    assert_eq!(ops[9], TerminalOp::PrintGlyph(first.glyph));
    assert_eq!(ops[10], TerminalOp::Flush);
    assert_eq!(render_loop.field().len(), 2);
    assert_eq!(render_loop.field().get(0), Particle { y: 1, ..first });
}

#[test]
fn every_frame_flushes_once_and_last() {
    let mut rng = seeded(13);
    let mut render_loop = RenderLoop::new(40, 10);
    for frame in 0..50usize {
        let ops = render_loop.frame("2024-05-06 07:08:09", 40, 10, &mut rng);
        assert_eq!(ops.len(), 8 + 3 * frame);
        assert_eq!(ops.iter().filter(|op| **op == TerminalOp::Flush).count(), 1);
        assert_eq!(ops.last(), Some(&TerminalOp::Flush));
        assert_eq!(render_loop.field().len(), frame + 1);
    }
}

#[test]
fn a_change_of_size_empties_the_field() {
    let mut rng = seeded(14);
    let mut render_loop = RenderLoop::new(80, 24);
    for _ in 0..10 {
        render_loop.frame("t", 80, 24, &mut rng);
    }
    assert_eq!(render_loop.field().len(), 10);
    assert!(!render_loop.sync_dimensions(80, 24));
    assert_eq!(render_loop.field().len(), 10);
    assert!(render_loop.sync_dimensions(100, 24));
    assert_eq!(render_loop.field().len(), 0);
    assert_eq!(render_loop.dimensions(), TerminalDimensions { width: 100, height: 24 });
    assert!(render_loop.sync_dimensions(100, 30));
    assert_eq!(render_loop.dimensions(), TerminalDimensions { width: 100, height: 30 });
}

#[test]
fn a_frame_after_a_resize_draws_no_old_particle() {
    let mut rng = seeded(15);
    let mut render_loop = RenderLoop::new(80, 24);
    for _ in 0..10 {
        render_loop.frame("t", 80, 24, &mut rng);
    }
    let ops = render_loop.frame("t", 60, 20, &mut rng);
    assert_eq!(ops.len(), 8);
    assert_eq!(render_loop.field().len(), 1);
    assert!(render_loop.field().get(0).x < 60);
    assert_eq!(render_loop.field().get(0).y, 0);
    assert_eq!(render_loop.dimensions(), TerminalDimensions { width: 60, height: 20 });
}

#[test]
fn a_screen_without_rows_keeps_no_particle() {
    let mut rng = seeded(16);
    let mut render_loop = RenderLoop::new(80, 0);
    for _ in 0..5 {
        let ops = render_loop.frame("t", 80, 0, &mut rng);
        assert_eq!(ops.len(), 8);
        assert_eq!(render_loop.field().len(), 0);
    }
}

#[test]
fn the_loop_stops_when_the_flag_reads_false() {
    let mut render_loop = RenderLoop::new(80, 24);
    assert!(render_loop.observe(true));
    assert_eq!(render_loop.state(), LoopState::Running);
    assert!(!render_loop.observe(false));
    assert_eq!(render_loop.state(), LoopState::Stopped);
    assert!(!render_loop.observe(true));
    assert_eq!(render_loop.state(), LoopState::Stopped);
}

#[test]
fn a_stopped_loop_draws_nothing() {
    let mut rng = seeded(17);
    let mut render_loop = RenderLoop::new(80, 24);
    render_loop.frame("t", 80, 24, &mut rng);
    render_loop.observe(false);
    let ops = render_loop.frame("t", 80, 24, &mut rng);
    assert!(ops.is_empty());
    assert_eq!(render_loop.field().len(), 1);
    assert_eq!(render_loop.tick(true, 80, 24, &mut rng), FrameOutcome::Stopped);
    assert_eq!(render_loop.tick(false, 80, 24, &mut rng), FrameOutcome::Stopped);
    assert_eq!(render_loop.field().len(), 1);
}

#[test]
fn tick_stops_on_the_first_check_after_the_flag_flip() {
    let mut rng = seeded(18);
    let mut render_loop = RenderLoop::new(80, 24);
    match render_loop.tick(true, 80, 24, &mut rng) {
        FrameOutcome::Drawn(ops) => {
            assert_eq!(ops.len(), 8);
            assert_eq!(ops[0], TerminalOp::ClearAll);
            assert_eq!(ops[7], TerminalOp::Flush);
        }
        other => panic!("expected a frame, got {:?}", other),
    }
    assert_eq!(render_loop.tick(false, 80, 24, &mut rng), FrameOutcome::Stopped);
    assert_eq!(render_loop.state(), LoopState::Stopped);
    assert_eq!(render_loop.field().len(), 1);
}

#[test]
fn tick_prints_a_timestamp_of_the_expected_shape() {
    let mut rng = seeded(19);
    let mut render_loop = RenderLoop::new(80, 24);
    match render_loop.tick(true, 80, 24, &mut rng) {
        FrameOutcome::Drawn(ops) => match &ops[3] {
            TerminalOp::PrintText(text) => {
                let bytes = text.as_bytes();
                assert!(text.is_ascii());
                assert_eq!(bytes.len(), 19);
                assert_eq!((bytes[4], bytes[7], bytes[10], bytes[13], bytes[16]), (b'-', b'-', b' ', b':', b':'));
                assert_eq!(ops[1], TerminalOp::MoveTo { column: 31, row: 0 });
            }
            other => panic!("expected the timestamp, got {:?}", other),
        },
        other => panic!("expected a frame, got {:?}", other),
    }
}

#[test]
fn tick_reports_a_terminal_too_narrow_for_the_header() {
    let mut rng = seeded(20);
    let mut render_loop = RenderLoop::new(10, 24);
    assert_eq!(render_loop.tick(true, 10, 24, &mut rng), FrameOutcome::HeaderTooWide);
    assert_eq!(render_loop.state(), LoopState::Running);
    assert_eq!(render_loop.field().len(), 0);
}

#[test]
fn header_fits_from_sixteen_columns_for_short_timestamps() {
    assert!(fits_header("", 16));
    assert!(!fits_header("", 15));
    assert!(fits_header("2024-05-06 07:08:09", 18));
    assert!(!fits_header("2024-05-06 07:08:09", 17));
    assert!(!fits_header("2024-05-06 07:08:09", 0));
}

#[test]
fn frame_period_is_thirty_milliseconds() {
    assert_eq!(FRAME_PERIOD_MILLIS, 30);
}

#[test]
fn setup_enters_raw_mode_and_the_alternate_screen() {
    assert_eq!(
        LifecycleGuard::setup(),
        vec![TerminalOp::EnableRawMode, TerminalOp::EnterAlternateScreen, TerminalOp::HideCursor]
    );
}

#[test]
fn teardown_restores_in_order() {
    assert_eq!(
        LifecycleGuard::teardown(),
        vec![
            TerminalOp::DisableRawMode,
            TerminalOp::LeaveAlternateScreen,
            TerminalOp::ShowCursor,
            TerminalOp::SetForeground(Color::Reset),
            TerminalOp::Flush,
        ]
    );
}

#[test]
fn teardown_twice_is_teardown_once() {
    let mut mode = TerminalMode::restored();
    mode.apply_all(&LifecycleGuard::setup());
    mode.apply(&TerminalOp::SetForeground(Color::Ansi(34)));
    assert_eq!(
        mode,
        TerminalMode { raw: true, alternate_screen: true, cursor_hidden: true, foreground: Color::Ansi(34) }
    );
    mode.apply_all(&LifecycleGuard::teardown());
    let once = mode;
    assert_eq!(once, TerminalMode::restored());
    mode.apply_all(&LifecycleGuard::teardown());
    assert_eq!(mode, once);
}

#[test]
fn teardown_without_setup_leaves_the_terminal_restored() {
    let mut mode = TerminalMode::restored();
    mode.apply_all(&LifecycleGuard::teardown());
    assert_eq!(mode, TerminalMode::restored());
}

#[test]
fn drawing_leaves_the_mode_alone() {
    let mut rng = seeded(21);
    let mut render_loop = RenderLoop::new(80, 24);
    let mut mode = TerminalMode::restored();
    mode.apply_all(&LifecycleGuard::setup());
    render_loop.frame("t", 80, 24, &mut rng);
    let ops = render_loop.frame("t", 80, 24, &mut rng);
    let color = render_loop.field().get(0).color;
    mode.apply_all(&ops);
    assert_eq!(
        mode,
        TerminalMode { raw: true, alternate_screen: true, cursor_hidden: true, foreground: Color::Ansi(color) }
    );
}

#[test]
fn quit_keys_end_the_process() {
    assert_eq!(InputWatcher::on_read(ReadEvent::Byte(b'q')), WatcherAction::Quit);
    assert_eq!(InputWatcher::on_read(ReadEvent::Byte(b'Q')), WatcherAction::Quit);
}

#[test]
fn other_bytes_are_ignored() {
    for byte in 0..=255u8 {
        if byte != b'q' && byte != b'Q' {
            assert_eq!(InputWatcher::on_read(ReadEvent::Byte(byte)), WatcherAction::KeepReading);
        }
    }
}

#[test]
fn a_closed_stream_ends_the_watching_only() {
    assert_eq!(InputWatcher::on_read(ReadEvent::Closed), WatcherAction::StopWatching);
}

#[test]
fn shutdown_restores_the_terminal_and_exits_with_zero() {
    let plan = InputWatcher::shutdown();
    assert_eq!(plan.ops, LifecycleGuard::teardown());
    assert_eq!(plan.exit_code, 0);
}

#[test]
fn tick_at_draws_the_frame_for_a_timestamp_that_fits() {
    let mut rng = seeded(30);
    let mut render_loop = RenderLoop::new(80, 24);
    let outcome = render_loop.tick_at(true, "2024-05-06 07:08:09", 80, 24, &mut rng);
    assert_eq!(
        outcome,
        FrameOutcome::Drawn(vec![
            TerminalOp::ClearAll,
            TerminalOp::MoveTo { column: 31, row: 0 },
            TerminalOp::SetForeground(Color::White),
            TerminalOp::PrintText("2024-05-06 07:08:09".to_string()),
            TerminalOp::MoveTo { column: 32, row: 1 },
            TerminalOp::SetForeground(Color::White),
            TerminalOp::PrintText("Press 'q' to quit".to_string()),
            TerminalOp::Flush,
        ])
    );
    assert_eq!(render_loop.field().len(), 1);
    assert_eq!(render_loop.state(), LoopState::Running);
}

#[test]
fn tick_at_draws_from_the_narrowest_terminal_that_fits() {
    let mut rng = seeded(31);
    let mut render_loop = RenderLoop::new(18, 24);
    match render_loop.tick_at(true, "2024-05-06 07:08:09", 18, 24, &mut rng) {
        FrameOutcome::Drawn(ops) => {
            assert_eq!(ops[1], TerminalOp::MoveTo { column: 0, row: 0 });
            assert_eq!(ops[4], TerminalOp::MoveTo { column: 1, row: 1 });
        }
        other => panic!("expected a frame, got {:?}", other),
    }
    assert_eq!(render_loop.field().len(), 1);
}

#[test]
fn tick_at_reports_a_timestamp_that_does_not_fit() {
    let mut rng = seeded(32);
    let mut render_loop = RenderLoop::new(17, 24);
    render_loop.tick_at(true, "", 17, 24, &mut rng);
    assert_eq!(render_loop.field().len(), 1);
    let first = render_loop.field().get(0);
    assert_eq!(render_loop.tick_at(true, "2024-05-06 07:08:09", 17, 24, &mut rng), FrameOutcome::HeaderTooWide);
    assert_eq!(render_loop.field().len(), 1);
    assert_eq!(render_loop.field().get(0), first);
    assert_eq!(render_loop.state(), LoopState::Running);
    assert_eq!(render_loop.dimensions(), TerminalDimensions { width: 17, height: 24 });
}

#[test]
fn a_change_to_a_terminal_too_narrow_still_empties_the_field() {
    let mut rng = seeded(36);
    let mut render_loop = RenderLoop::new(80, 24);
    for _ in 0..5 {
        render_loop.tick_at(true, "2024-05-06 07:08:09", 80, 24, &mut rng);
    }
    assert_eq!(render_loop.field().len(), 5);
    assert_eq!(render_loop.tick_at(true, "2024-05-06 07:08:09", 15, 24, &mut rng), FrameOutcome::HeaderTooWide);
    assert_eq!(render_loop.field().len(), 0);
    assert_eq!(render_loop.state(), LoopState::Running);
    assert_eq!(render_loop.dimensions(), TerminalDimensions { width: 15, height: 24 });
    assert_eq!(render_loop.tick_at(true, "2024-05-06 07:08:09", 15, 24, &mut rng), FrameOutcome::HeaderTooWide);
    assert_eq!(render_loop.dimensions(), TerminalDimensions { width: 15, height: 24 });
}

#[test]
fn the_frame_of_a_resize_leaves_exactly_the_new_particle() {
    let mut rng = seeded(37);
    for old_count in [0usize, 1, 7, 40] {
        let mut render_loop = RenderLoop::new(80, 24);
        for _ in 0..old_count {
            render_loop.tick_at(true, "2024-05-06 07:08:09", 80, 24, &mut rng);
        }
        assert_eq!(render_loop.field().len(), old_count);
        match render_loop.tick_at(true, "2024-05-06 07:08:09", 30, 12, &mut rng) {
            FrameOutcome::Drawn(ops) => assert_eq!(ops.len(), 8),
            other => panic!("expected a frame, got {:?}", other),
        }
        assert_eq!(render_loop.field().len(), 1);
        let fresh = render_loop.field().get(0);
        assert_eq!(fresh.y, 0);
        assert!(fresh.x < 30);
        assert!(fresh.glyph.is_ascii_alphanumeric());
        assert_eq!(render_loop.dimensions(), TerminalDimensions { width: 30, height: 12 });
    }
}

#[test]
fn the_frame_of_a_resize_to_no_rows_leaves_nothing() {
    let mut rng = seeded(38);
    let mut render_loop = RenderLoop::new(80, 24);
    for _ in 0..3 {
        render_loop.tick_at(true, "t", 80, 24, &mut rng);
    }
    match render_loop.tick_at(true, "t", 80, 0, &mut rng) {
        FrameOutcome::Drawn(ops) => assert_eq!(ops.len(), 8),
        other => panic!("expected a frame, got {:?}", other),
    }
    assert_eq!(render_loop.field().len(), 0);
}

#[test]
fn tick_draws_on_every_terminal_of_twenty_two_columns_or_more() {
    let mut rng = seeded(39);
    for width in [22u16, 23, 80, u16::MAX] {
        let mut render_loop = RenderLoop::new(width, 24);
        match render_loop.tick(true, width, 24, &mut rng) {
            FrameOutcome::Drawn(ops) => {
                assert_eq!(ops.len(), 8);
                match &ops[3] {
                    TerminalOp::PrintText(text) => {
                        assert!(text.is_ascii());
                        assert!(19 <= text.len() && text.len() <= 22);
                    }
                    other => panic!("expected the timestamp, got {:?}", other),
                }
            }
            other => panic!("expected a frame, got {:?}", other),
        }
        assert_eq!(render_loop.field().len(), 1);
    }
}

#[test]
fn tick_draws_on_no_terminal_of_less_than_eighteen_columns() {
    let mut rng = seeded(40);
    for width in [0u16, 1, 15, 16, 17] {
        let mut render_loop = RenderLoop::new(80, 24);
        render_loop.tick(true, 80, 24, &mut rng);
        assert_eq!(render_loop.tick(true, width, 24, &mut rng), FrameOutcome::HeaderTooWide);
        assert_eq!(render_loop.field().len(), 0);
        assert_eq!(render_loop.dimensions(), TerminalDimensions { width, height: 24 });
        assert_eq!(render_loop.state(), LoopState::Running);
    }
}

#[test]
fn tick_at_stops_whatever_the_timestamp() {
    let mut rng = seeded(33);
    let mut render_loop = RenderLoop::new(80, 24);
    render_loop.tick_at(true, "t", 80, 24, &mut rng);
    assert_eq!(render_loop.tick_at(false, "t", 80, 24, &mut rng), FrameOutcome::Stopped);
    assert_eq!(render_loop.state(), LoopState::Stopped);
    assert_eq!(render_loop.tick_at(true, "t", 80, 24, &mut rng), FrameOutcome::Stopped);
    assert_eq!(render_loop.tick_at(true, "a timestamp far too long for any terminal", 10, 24, &mut rng), FrameOutcome::Stopped);
    assert_eq!(render_loop.field().len(), 1);
}

#[test]
fn a_particle_that_does_not_wrap_needs_no_column() {
    let mut rng = seeded(34);
    let mut p = Particle::with_color(7, 3, 200, 'k');
    p.update(0, 24, &mut rng);
    assert_eq!(p, Particle { x: 7, y: 4, color: 200, glyph: 'k' });
}

#[test]
fn a_field_without_a_wrap_advances_on_a_terminal_without_columns() {
    let mut rng = seeded(35);
    let mut field = ParticleField::new();
    field.advance_all(0, 0, &mut rng);
    assert_eq!(field.len(), 0);
    field.insert(Particle::with_color(1, 0, 1, 'a'));
    field.insert(Particle::with_color(2, 5, 2, 'b'));
    field.advance_all(0, 24, &mut rng);
    assert_eq!(field.get(0), Particle { x: 1, y: 1, color: 1, glyph: 'a' });
    assert_eq!(field.get(1), Particle { x: 2, y: 6, color: 2, glyph: 'b' });
}
