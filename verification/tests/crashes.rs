use voxel_engine::platform::crash::{
    build_report, check_application_exit_info, check_crash_file, check_previous_run_crash,
    copy_last_crash_to_clipboard, crash_dialog_text, crash_file_message, has_exit_info, last_crash,
    last_crash_path, report_path, signal_message, CrashEvent, CrashReaction, CrashReport, CrashScreen,
    ExitReasons, ExitRecord, COPY_FLASH_MS,
};
use voxel_engine::platform::file_logger::{
    default_desktop_log_dir, log_dir, log_file_path, log_line, session_log_path,
};

fn report() -> CrashReport {
    CrashReport {
        full_text: String::from("todo"),
        short_message: String::from("corto"),
        file_path: Some(String::from("crash_logs/crash_5.txt")),
    }
}

fn line(sig: i32) -> String {
    let (buffer, length) = signal_message(sig);
    String::from_utf8(buffer[..length].to_vec()).unwrap()
}

#[test]
fn reports_hold_everything_known() {
    let (full, short) = build_report(
        1700000000,
        "linux",
        "x86_64",
        Some("boom"),
        None,
        Some(("src/a.rs", 12, 5)),
        "0: main",
    );
    assert_eq!(short, "boom");
    assert_eq!(
        full,
        "=== Voxel Engine: reporte de crash ===\nUnix time: 1700000000\nPlataforma: linux (x86_64)\n\
         Mensaje: boom\nUbicación: src/a.rs:12:5\n\n--- Backtrace ---\n0: main\n"
    );
}

#[test]
fn reports_name_what_is_missing() {
    let (_, owned) = build_report(0, "a", "b", None, Some("desde String"), None, "");
    assert_eq!(owned, "desde String");
    let (full, short) = build_report(0, "a", "b", None, None, None, "");
    assert_eq!(short, "(panic sin mensaje de texto)");
    assert!(full.contains("Ubicación: (ubicación desconocida)\n"));
}

#[test]
fn report_files_are_named_after_their_time() {
    assert_eq!(report_path("crash_logs", 77), "crash_logs/crash_77.txt");
    assert_eq!(last_crash_path("crash_logs"), "crash_logs/last_crash.txt");
}

#[test]
fn the_last_crash_can_be_read_and_copied() {
    let slot = Some(report());
    let (short, full, path) = last_crash(&slot).unwrap();
    assert_eq!((short.as_str(), full.as_str()), ("corto", "todo"));
    assert_eq!(path, Some(String::from("crash_logs/crash_5.txt")));
    assert_eq!(copy_last_crash_to_clipboard(&slot), Some(String::from("todo")));
    assert!(last_crash(&None).is_none());
    assert!(copy_last_crash_to_clipboard(&None).is_none());
}

#[test]
fn the_dialog_says_where_the_report_is() {
    let saved = crash_dialog_text("boom", Some("/tmp/crash_1.txt"));
    assert!(saved.contains("\n\nboom\n\nLog completo guardado en:\n/tmp/crash_1.txt\n\nLa app va a seguir"));
    let lost = crash_dialog_text("boom", None);
    assert!(lost.contains("boom\n\n(No se pudo guardar el log a un archivo; revisá la consola.)\n\n"));
    assert!(lost.ends_with("Apretá C ahí para volver a copiar el log completo al portapapeles."));
}

#[test]
fn signals_are_written_without_allocating() {
    assert_eq!(line(11), "=== CRASH NATIVO: senal 11 ===\n");
    assert_eq!(line(0), "=== CRASH NATIVO: senal 0 ===\n");
    assert_eq!(line(-4), "=== CRASH NATIVO: senal  ===\n");
    assert_eq!(line(123456789), "=== CRASH NATIVO: senal 23456789 ===\n");
}

#[test]
fn a_signal_line_is_found_again() {
    assert_eq!(crash_file_message(&line(6)), "=== CRASH NATIVO: senal 6 ===");
}

#[test]
fn a_panic_report_is_found_by_its_message() {
    let (full, _) = build_report(1, "linux", "arm", Some("se cayó"), None, None, "x\ny");
    assert_eq!(crash_file_message(&full), "Mensaje: se cayó");
}

#[test]
fn a_crash_file_without_marks_has_a_standard_message() {
    assert_eq!(crash_file_message("nada\r\nde nada"), "(crash detectado en la corrida anterior)");
    assert_eq!(crash_file_message(""), "(crash detectado en la corrida anterior)");
    assert_eq!(crash_file_message("a\r\nMensaje: x\r\nb"), "Mensaje: x");
    assert_eq!(crash_file_message("a\nMensaje: y"), "Mensaje: y");
}

#[test]
fn crash_files_are_looked_through_in_order() {
    let both = check_crash_file("d", Some(line(9)), Some(String::from("Mensaje: m"))).unwrap();
    assert_eq!(both.report.short_message, "=== CRASH NATIVO: senal 9 ===");
    assert_eq!(both.report.file_path, Some(String::from("d/native_crash.txt")));
    assert_eq!(both.handled_path, "d/native_crash.txt.handled");
    let second = check_crash_file("d", Some(String::from(" \n\t")), Some(String::from("Mensaje: m"))).unwrap();
    assert_eq!(second.report.short_message, "Mensaje: m");
    assert_eq!(second.report.full_text, "Mensaje: m");
    assert_eq!(second.handled_path, "d/last_crash.txt.handled");
    assert!(check_crash_file("d", None, None).is_none());
    assert!(check_crash_file("d", Some(String::new()), Some(String::from("  "))).is_none());
}

#[test]
fn exit_records_tell_of_crashes_only() {
    let known = ExitReasons { crash: 4, crash_native: 5, anr: 6 };
    let record = |reason: i32| ExitRecord {
        reason,
        timestamp: Some(1234),
        description: Some(String::from("sin memoria de video")),
        trace: Some(String::from("#00 pc")),
    };
    let native = check_application_exit_info(34, Some(record(5)), known).unwrap();
    assert_eq!(native.short_message, "CRASH_NATIVO: sin memoria de video");
    assert_eq!(
        native.full_text,
        "=== Voxel Engine: reporte de ApplicationExitInfo (corrida anterior) ===\n\
         Motivo: CRASH_NATIVO (código 5)\nTimestamp (ms): 1234\nDescripción: sin memoria de video\n\n\
         --- Trace ---\n#00 pc\n"
    );
    assert!(native.file_path.is_none());
    assert!(check_application_exit_info(34, Some(record(6)), known).unwrap().short_message.starts_with("ANR: "));
    assert!(check_application_exit_info(34, Some(record(4)), known).unwrap().short_message.starts_with("CRASH: "));
    assert!(check_application_exit_info(34, Some(record(10)), known).is_none());
    assert!(check_application_exit_info(29, Some(record(5)), known).is_none());
    assert!(check_application_exit_info(34, None, known).is_none());
    assert!(has_exit_info(30) && !has_exit_info(29));
    let bare = ExitRecord { reason: 4, timestamp: None, description: None, trace: None };
    let empty = check_application_exit_info(30, Some(bare), known).unwrap();
    assert_eq!(empty.short_message, "CRASH: (sin descripción)");
    assert!(empty.full_text.contains("Timestamp (ms): 0\n"));
}

#[test]
fn the_system_is_asked_before_the_files() {
    let (first, renamed) = check_previous_run_crash(Some(report()), check_crash_file("d", Some(line(9)), None));
    assert_eq!(first.unwrap().short_message, "corto");
    assert!(renamed.is_none());
    let (second, renamed) = check_previous_run_crash(None, check_crash_file("d", Some(line(9)), None));
    assert_eq!(second.unwrap().short_message, "=== CRASH NATIVO: senal 9 ===");
    assert_eq!(renamed, Some(String::from("d/native_crash.txt.handled")));
    assert!(check_previous_run_crash(None, None).0.is_none());
}

#[test]
fn only_the_first_panic_is_shown() {
    let mut screen = CrashScreen::new(None);
    assert!(!screen.crashed);
    assert!(screen.mark_crashed(&Some(report())));
    assert!(screen.crashed);
    assert_eq!(screen.title().unwrap(), "Voxel Engine — CRASHEADO: corto (C / tocar pantalla: copiar log)");
    assert!(!screen.mark_crashed(&None));
    assert_eq!(screen.short_message.as_deref(), Some("corto"));
    let mut silent = CrashScreen::new(None);
    assert!(!silent.mark_crashed(&None));
    assert_eq!(silent.short_message.as_deref(), Some("(no se pudo leer el mensaje del panic)"));
}

#[test]
fn a_crash_of_the_last_run_is_shown_at_the_start() {
    let screen = CrashScreen::new(Some(String::from("ANR: x")));
    assert!(screen.crashed);
    assert_eq!(screen.on_event(CrashEvent::CloseRequested, 0), CrashReaction::Exit);
    assert_eq!(screen.on_event(CrashEvent::Resized, 0), CrashReaction::Resize);
    assert_eq!(screen.on_event(CrashEvent::Other, 0), CrashReaction::Nothing);
    assert!(CrashScreen::new(None).title().is_none());
}

#[test]
fn copying_flashes_for_a_while() {
    let mut screen = CrashScreen::new(Some(String::from("x")));
    let copy = CrashEvent::Key { pressed: true, copy_key: true };
    assert_eq!(screen.on_event(copy, 0), CrashReaction::Copy);
    assert_eq!(screen.on_event(CrashEvent::Key { pressed: false, copy_key: true }, 0), CrashReaction::Nothing);
    assert_eq!(screen.on_event(CrashEvent::Key { pressed: true, copy_key: false }, 0), CrashReaction::Nothing);
    assert_eq!(screen.on_event(CrashEvent::Touch { started: true }, 0), CrashReaction::Copy);
    assert_eq!(screen.on_event(CrashEvent::Touch { started: false }, 0), CrashReaction::Nothing);
    assert_eq!(screen.on_event(CrashEvent::Redraw, 0), CrashReaction::Draw { flash: false });
    screen.copied(1000);
    assert_eq!(screen.on_event(CrashEvent::Redraw, 1000 + COPY_FLASH_MS - 1), CrashReaction::Draw { flash: true });
    assert_eq!(screen.on_event(CrashEvent::Redraw, 1000 + COPY_FLASH_MS), CrashReaction::Draw { flash: false });
}

#[test]
fn a_crash_screen_that_fails_stays_quiet() {
    let mut screen = CrashScreen::new(Some(String::from("x")));
    screen.failed_again();
    assert_eq!(screen.on_event(CrashEvent::Redraw, 0), CrashReaction::Nothing);
    assert_eq!(screen.on_event(CrashEvent::CloseRequested, 0), CrashReaction::Nothing);
}

#[test]
fn log_lines_and_files() {
    assert_eq!(log_line("INFO", "voxel", "hola"), "[INFO] voxel: hola\n");
    assert_eq!(default_desktop_log_dir(Some("/opt/juego")), "/opt/juego/crash_logs");
    assert_eq!(default_desktop_log_dir(None), "crash_logs");
    assert_eq!(log_dir(None, true, Some("/opt")), None);
    assert_eq!(log_dir(None, false, Some("/opt")), Some(String::from("/opt/crash_logs")));
    assert_eq!(log_dir(Some(String::from("/sd")), true, None), Some(String::from("/sd")));
    assert_eq!(session_log_path("/sd"), "/sd/game_log.txt");
    assert_eq!(log_file_path(&Some(String::from("/sd")), true), Some(String::from("/sd/game_log.txt")));
    assert_eq!(log_file_path(&Some(String::from("/sd")), false), None);
    assert_eq!(log_file_path(&None, true), None);
}
