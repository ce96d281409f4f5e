use voxel_engine::engine::camera::{HeldKeys, MoveKey};
use voxel_engine::engine::highlight::block_outline;
use voxel_engine::engine::render_state::{
    acquire_frame, after_frame, depth_size, resize, FrameError, FrameReaction, SurfaceStatus,
};
use voxel_engine::logic::immersive::{
    failure_text, Attempt, Outcome, Reply, SystemCall, IMMERSIVE_FLAGS,
};
use voxel_engine::logic::menu::GameMode;
use voxel_engine::logic::ui_overlay::{
    char_bitmap, copy_button_label, debug_panel_lines, debug_snapshot, digit_segments, fit_line,
    fps_digits, page_label, platform_label, switch_label, text_pixels, text_width, text_width_large,
    upper_text, world_page, DebugPanelData, Pixel, GLYPHS,
};

fn run(system: impl Fn(SystemCall) -> Reply) -> (Outcome, Vec<SystemCall>) {
    let mut attempt = Attempt::new();
    let mut calls = Vec::new();
    while let Some(call) = attempt.call() {
        calls.push(call);
        attempt = attempt.answered(system(call));
    }
    match attempt {
        Attempt::Over(outcome) => (outcome, calls),
        _ => unreachable!(),
    }
}

#[test]
fn frames_follow_the_surface() {
    let good = acquire_frame(SurfaceStatus::Success);
    assert!(!good.reconfigure);
    assert!(matches!(good.frame, Some(Ok(()))));
    let poor = acquire_frame(SurfaceStatus::Suboptimal);
    assert!(poor.reconfigure);
    assert!(matches!(poor.frame, Some(Ok(()))));
    assert!(acquire_frame(SurfaceStatus::Timeout).frame.is_none());
    assert!(!acquire_frame(SurfaceStatus::Occluded).reconfigure);
    let old = acquire_frame(SurfaceStatus::Outdated);
    assert!(old.reconfigure && old.frame.is_none());
    let lost = acquire_frame(SurfaceStatus::Lost).frame.unwrap();
    assert_eq!(after_frame(&lost), FrameReaction::Resize);
    let invalid = acquire_frame(SurfaceStatus::Validation).frame.unwrap();
    assert_eq!(after_frame(&invalid), FrameReaction::Warn);
    match invalid {
        Err(FrameError::Other(text)) => {
            assert_eq!(text, "error de validación al pedir la textura de la surface")
        }
        _ => panic!("a validation error is reported"),
    }
    assert_eq!(after_frame(&Ok(())), FrameReaction::Nothing);
}

#[test]
fn windows_without_area_are_ignored() {
    assert_eq!(resize((800, 600)), Some((800, 600)));
    assert_eq!(resize((0, 600)), None);
    assert_eq!(resize((800, 0)), None);
    assert_eq!(depth_size(0, 7), (1, 7));
    assert_eq!(depth_size(3, 0), (3, 1));
}

#[test]
fn held_keys_steer_the_camera() {
    let mut keys = HeldKeys::new();
    keys.process_key(MoveKey::Forward, true);
    keys.process_key(MoveKey::Left, true);
    assert_eq!((keys.ahead(), keys.sideways(), keys.upwards()), (1, -1, 0));
    keys.process_key(MoveKey::Backward, true);
    assert_eq!(keys.ahead(), 0);
    keys.process_key(MoveKey::Forward, false);
    assert_eq!(keys.ahead(), -1);
    keys.process_key(MoveKey::Up, true);
    assert!(keys.wants_jump() && !keys.wants_crouch());
    keys.process_key(MoveKey::Up, false);
    keys.set_touch_jump(true);
    assert!(keys.wants_jump());
    assert_eq!(keys.upwards(), 1);
    keys.set_touch_down(true);
    assert!(keys.wants_crouch());
    assert_eq!(keys.upwards(), 0);
    keys.process_key(MoveKey::Right, true);
    keys.process_key(MoveKey::Down, true);
    assert_eq!(keys.sideways(), 0);
}

#[test]
fn the_outline_has_twelve_edges() {
    let points = block_outline();
    assert_eq!(points.len(), 24);
    assert_eq!(points[0], (false, false, false));
    assert_eq!(points[1], (true, false, false));
    assert_eq!(points[22], (false, false, true));
    assert_eq!(points[23], (false, true, true));
    for k in 0..12 {
        let (a, b) = (points[2 * k], points[2 * k + 1]);
        let differing = [a.0 != b.0, a.1 != b.1, a.2 != b.2];
        assert_eq!(differing.iter().filter(|d| **d).count(), 1);
    }
}

#[test]
fn new_phones_use_the_insets_controller() {
    let (outcome, calls) = run(|call| match call {
        SystemCall::ReadSdk => Reply::Number(34),
        SystemCall::ReadStatusBars => Reply::Number(1),
        SystemCall::ReadNavigationBars => Reply::Number(2),
        SystemCall::ReadSwipeBehavior => Reply::Number(2),
        _ => Reply::Done,
    });
    assert_eq!(outcome, Outcome::Hidden);
    assert_eq!(calls.len(), 9);
    assert!(calls.contains(&SystemCall::Hide(3)));
    assert!(calls.contains(&SystemCall::SetSwipeBehavior(2)));
    assert!(!calls.contains(&SystemCall::GetDecorView));
}

#[test]
fn extras_do_not_decide() {
    let (outcome, _) = run(|call| match call {
        SystemCall::ReadSdk => Reply::Number(30),
        SystemCall::SetDecorFitsSystemWindows | SystemCall::ReadStatusBars | SystemCall::ReadSwipeBehavior => {
            Reply::Failed
        }
        SystemCall::ReadNavigationBars => Reply::Number(2),
        _ => Reply::Done,
    });
    assert_eq!(outcome, Outcome::Hidden);
}

#[test]
fn a_broken_controller_falls_back_to_the_flags() {
    for broken in [Reply::Failed, Reply::Null] {
        let (outcome, calls) = run(|call| match call {
            SystemCall::ReadSdk => Reply::Number(34),
            SystemCall::GetInsetsController => broken,
            _ => Reply::Done,
        });
        assert_eq!(outcome, Outcome::Hidden);
        assert_eq!(calls.last(), Some(&SystemCall::SetSystemUiVisibility(IMMERSIVE_FLAGS)));
    }
    let (no_bars, calls) = run(|call| match call {
        SystemCall::ReadSdk => Reply::Number(34),
        _ => Reply::Done,
    });
    assert_eq!(no_bars, Outcome::Hidden);
    assert!(calls.contains(&SystemCall::GetDecorView));
    assert_eq!(IMMERSIVE_FLAGS, 0x100 | 0x200 | 0x400 | 0x2 | 0x4 | 0x1000);
}

#[test]
fn full_screen_can_fail() {
    let (no_window, calls) = run(|_| Reply::Failed);
    assert_eq!(no_window, Outcome::NoWindow);
    assert_eq!(calls, vec![SystemCall::GetWindow]);
    let (neither, _) = run(|call| match call {
        SystemCall::GetWindow => Reply::Done,
        _ => Reply::Failed,
    });
    assert_eq!(neither, Outcome::NeitherWay);
    assert!(failure_text(Outcome::Hidden).is_none());
    assert_eq!(failure_text(Outcome::NoWindow), Some("no se pudo obtener Window en este dispositivo"));
    assert!(failure_text(Outcome::NeitherWay).unwrap().starts_with("ninguna de las dos"));
}

#[test]
fn characters_have_their_glyphs() {
    assert_eq!(char_bitmap('A'), [0b01110, 0b10001, 0b10001, 0b11111, 0b10001, 0b10001, 0b10001]);
    assert_eq!(char_bitmap('ñ'), [0b01010, 0b00000, 0b10110, 0b11001, 0b10001, 0b10001, 0b10001]);
    assert_eq!(char_bitmap(' '), [0; 7]);
    assert_eq!(char_bitmap('Ü'), [0b01010, 0b10001, 0b10001, 0b10001, 0b10001, 0b10001, 0b01110]);
    // Everything else is a box.
    assert_eq!(char_bitmap('@'), [0b11111, 0b10001, 0b10001, 0b10001, 0b10001, 0b10001, 0b11111]);
    for (c, glyph) in GLYPHS.iter() {
        assert_eq!(char_bitmap(*c), *glyph);
        assert!(glyph.iter().all(|row| *row < 32));
    }
}

#[test]
fn texts_are_drawn_pixel_by_pixel() {
    let dots = text_pixels(".-");
    assert_eq!(
        dots,
        vec![
            Pixel { index: 0, row: 6, col: 2 },
            Pixel { index: 1, row: 3, col: 0 },
            Pixel { index: 1, row: 3, col: 1 },
            Pixel { index: 1, row: 3, col: 2 },
            Pixel { index: 1, row: 3, col: 3 },
            Pixel { index: 1, row: 3, col: 4 },
        ]
    );
    assert!(text_pixels("  ").is_empty());
    assert!(text_pixels("").is_empty());
}

#[test]
fn texts_have_their_width() {
    assert_eq!(text_width(""), 0);
    assert_eq!(text_width("A"), 15);
    assert_eq!(text_width("AÑO"), 57);
    assert_eq!(text_width_large(""), 0);
    assert_eq!(text_width_large("AB"), 65);
}

#[test]
fn digits_light_their_segments() {
    assert_eq!(digit_segments(1), [false, false, true, false, false, true, false]);
    assert_eq!(digit_segments(8), [true; 7]);
    assert_eq!(digit_segments(200), digit_segments(9));
    assert_eq!(fps_digits(0), vec![0]);
    assert_eq!(fps_digits(60), vec![6, 0]);
    assert_eq!(fps_digits(144), vec![1, 4, 4]);
    assert_eq!(fps_digits(5000), vec![9, 9, 9]);
    assert_eq!(fps_digits(-3), vec![0]);
}

fn debug_data() -> DebugPanelData {
    DebugPanelData {
        position: String::from("1.0 2.5 -3.0"),
        exact_position: (String::from("1.00"), String::from("2.50"), String::from("-3.00")),
        chunk_pos: (0, -1),
        looking_at: Some((String::from("PIEDRA"), (1, 2, -3))),
        fps: 59,
        mode: GameMode::Creative,
        log_file: Some(String::from("crash_logs/game_log.txt")),
    }
}

#[test]
fn the_debug_panel_has_six_lines() {
    let lines = debug_panel_lines(&debug_data());
    assert_eq!(
        lines,
        vec![
            "POS: 1.0 2.5 -3.0",
            "CHUNK: 0 -1",
            "MIRANDO: PIEDRA 1 2>",
            "MODO: CREATIVO",
            "FPS: 59",
            "LOG: CRASH_LOGS/GAM>",
        ]
    );
    let mut bare = debug_data();
    bare.looking_at = None;
    bare.log_file = None;
    let lines = debug_panel_lines(&bare);
    assert_eq!(lines[2], "MIRANDO: NADA");
    assert_eq!(lines[5], "LOG: (NO DISPONIBLE)");
}

#[test]
fn the_snapshot_tells_everything() {
    assert_eq!(
        debug_snapshot(&debug_data()),
        "=== Voxel Engine: snapshot de debug ===\nPosición: (1.00, 2.50, -3.00)\nChunk: (0, -1)\n\
         Mirando: PIEDRA en (1, 2, -3)\nModo: CREATIVO\nFPS: 59\nArchivo de log: crash_logs/game_log.txt\n"
    );
    let mut bare = debug_data();
    bare.looking_at = None;
    assert!(debug_snapshot(&bare).contains("Mirando: nada al alcance\n"));
}

#[test]
fn lines_are_cut_to_the_panel() {
    assert_eq!(fit_line("abc ñ"), "ABC ñ");
    assert_eq!(fit_line("12345678901234567890"), "12345678901234567890");
    assert_eq!(fit_line("123456789012345678901"), "1234567890123456789>");
    assert_eq!(upper_text("voxel-Engine_9é"), "VOXEL-ENGINE_9é");
}

#[test]
fn labels_name_states_and_platforms() {
    assert_eq!(switch_label(true), "ON");
    assert_eq!(switch_label(false), "OFF");
    assert_eq!(copy_button_label(true), "COPIADO!");
    assert_eq!(copy_button_label(false), "COPIAR");
    assert_eq!(platform_label("linux"), "LINUX");
    assert_eq!(platform_label("macos"), "MACOS");
    assert_eq!(platform_label(""), "DESCONOCIDO");
    assert_eq!(platform_label("haiku"), "OTRO");
}

#[test]
fn worlds_are_shown_page_by_page() {
    let first = world_page(13, 6, 0);
    assert_eq!((first.page_count, first.start, first.end), (3, 0, 6));
    assert!(!first.has_previous() && first.has_next());
    let last = world_page(13, 6, 99);
    assert_eq!((last.page, last.start, last.end), (2, 12, 13));
    assert!(last.has_previous() && !last.has_next());
    assert_eq!(page_label(&last), "PAGINA 3/3");
    let cramped = world_page(2, 0, 1);
    assert_eq!((cramped.page_count, cramped.start, cramped.end), (2, 1, 2));
    let exact = world_page(6, 6, 0);
    assert_eq!(exact.page_count, 1);
}

#[test]
fn accents_take_one_row_of_their_letter() {
    let high = [('Á', 'A'), ('É', 'E'), ('Í', 'I'), ('Ó', 'O'), ('Ú', 'U'), ('Ü', 'U'), ('Ñ', 'N')];
    for (accented, letter) in high {
        assert_eq!(char_bitmap(accented)[1..], char_bitmap(letter)[1..]);
    }
    for (accented, letter) in [('á', 'a'), ('é', 'e'), ('ó', 'o'), ('ú', 'u'), ('ü', 'u')] {
        let (a, b) = (char_bitmap(accented), char_bitmap(letter));
        assert_eq!((a[0], &a[2..]), (b[0], &b[2..]));
        assert!(a[1] != 0 && b[1] == 0);
    }
    for (accented, letter) in [('í', 'i'), ('ñ', 'n')] {
        assert_eq!(char_bitmap(accented)[1..], char_bitmap(letter)[1..]);
    }
}
