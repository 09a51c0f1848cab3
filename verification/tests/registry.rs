use appflow::runtime::{AppError, AppProcess, AppRuntime, ProcessStatus};
use std::sync::Arc;

fn rt() -> tokio::runtime::Runtime {
    tokio::runtime::Builder::new_multi_thread()
        .enable_all()
        .build()
        .expect("tokio runtime")
}

fn spec(id: &str, command: &str, args: &[&str]) -> AppProcess {
    AppProcess::new(id, command, args.iter().map(|s| s.to_string()).collect())
}

#[test]
fn register_reads_stopped() {
    let app = AppRuntime::new();
    app.add_process(spec("db", "sleep", &["5"])).unwrap();
    app.add_process(spec("web", "sleep", &["5"])).unwrap();
    assert_eq!(app.check_status("db").unwrap(), ProcessStatus::Stopped);
    assert_eq!(app.check_status("web").unwrap(), ProcessStatus::Stopped);
}

#[test]
fn duplicate_register_fails_and_changes_nothing() {
    let app = AppRuntime::new();
    app.add_process(spec("db", "sleep", &["5"])).unwrap();
    let again = app.add_process(spec("db", "sleep", &["9"]));
    assert_eq!(again, Err(AppError::DuplicateId("db".to_string())));
    let listing = app.list_status();
    assert_eq!(listing.len(), 1);
    assert_eq!(listing[0].0, "db");
    assert_eq!(listing[0].1, ProcessStatus::Stopped);
    let (command, args) = app.get_spec("db").unwrap();
    assert_eq!(command, "sleep");
    assert_eq!(args, vec!["5".to_string()]);
}

#[test]
fn start_all_lists_running_in_order() {
    let runtime = rt();
    let _guard = runtime.enter();
    let app = AppRuntime::new();
    app.add_batch(vec![
        spec("agus", "sleep", &["2"]),
        spec("agung", "sleep", &["2"]),
        spec("andi", "sleep", &["2"]),
    ])
    .unwrap();
    app.start_all().unwrap();
    let listing = app.list_status();
    assert_eq!(listing.len(), 3);
    assert_eq!(listing[0], ("agus".to_string(), ProcessStatus::Running));
    assert_eq!(listing[1], ("agung".to_string(), ProcessStatus::Running));
    assert_eq!(listing[2], ("andi".to_string(), ProcessStatus::Running));
    app.shutdown().unwrap();
}

#[test]
fn stop_all_is_idempotent() {
    let runtime = rt();
    let _guard = runtime.enter();
    let app = AppRuntime::new();
    app.add_batch(vec![spec("a", "sleep", &["5"]), spec("b", "sleep", &["5"])]).unwrap();
    app.start_all().unwrap();
    app.stop_all().unwrap();
    for (_, status) in app.list_status() {
        assert_eq!(status, ProcessStatus::Stopped);
    }
    // Stopping an already stopped registry is a no-op that succeeds.
    app.stop_all().unwrap();
    for (_, status) in app.list_status() {
        assert_eq!(status, ProcessStatus::Stopped);
    }
}

#[test]
fn restart_unknown_id_changes_nothing() {
    let runtime = rt();
    let _guard = runtime.enter();
    let app = AppRuntime::new();
    app.add_batch(vec![spec("a", "sleep", &["2"]), spec("b", "sleep", &["2"])]).unwrap();
    app.start_all().unwrap();
    let before = app.list_status();
    let r = app.restart_process("ghost");
    assert_eq!(r, Err(AppError::NotFound("ghost".to_string())));
    assert_eq!(app.list_status(), before);
    app.shutdown().unwrap();
}

#[test]
fn update_status_reports_natural_exit() {
    let runtime = rt();
    let _guard = runtime.enter();
    let app = AppRuntime::new();
    app.add_process(spec("quick", "sleep", &["0.1"])).unwrap();
    app.add_process(spec("slow", "sleep", &["5"])).unwrap();
    app.start_all().unwrap();
    runtime.block_on(tokio::time::sleep(std::time::Duration::from_millis(800)));
    app.update_status();
    assert_eq!(app.check_status("quick").unwrap(), ProcessStatus::Stopped);
    assert_eq!(app.check_status("slow").unwrap(), ProcessStatus::Running);
    app.shutdown().unwrap();
}

#[test]
fn concurrent_registers_all_land() {
    let runtime = rt();
    let app = Arc::new(AppRuntime::new());
    let mut handles = Vec::new();
    for i in 0..8u32 {
        let app = Arc::clone(&app);
        handles.push(runtime.spawn_blocking(move || {
            app.add_process(spec(&format!("proc-{i}"), "sleep", &["1"])).unwrap();
        }));
    }
    runtime.block_on(async {
        for h in handles {
            h.await.unwrap();
        }
    });
    let listing = app.list_status();
    assert_eq!(listing.len(), 8);
    for i in 0..8u32 {
        assert_eq!(app.check_status(&format!("proc-{i}")).unwrap(), ProcessStatus::Stopped);
    }
}

#[test]
fn restart_keeps_the_original_arguments() {
    let runtime = rt();
    let _guard = runtime.enter();
    let app = AppRuntime::new();
    app.add_process(spec("srv", "sleep", &["--", "2"])).unwrap();
    app.start_all().unwrap();
    app.restart_process("srv").unwrap();
    assert_eq!(app.check_status("srv").unwrap(), ProcessStatus::Running);
    let (command, args) = app.get_spec("srv").unwrap();
    assert_eq!(command, "sleep");
    assert_eq!(args, vec!["--".to_string(), "2".to_string()]);
    app.shutdown().unwrap();
}

#[test]
fn wait_for_exit_marks_everything_stopped() {
    let runtime = rt();
    let _guard = runtime.enter();
    let app = AppRuntime::new();
    app.add_batch(vec![spec("a", "sleep", &["0.1"]), spec("b", "sleep", &["0.2"])]).unwrap();
    app.start_all().unwrap();
    app.wait_for_exit();
    for (_, status) in app.list_status() {
        assert_eq!(status, ProcessStatus::Stopped);
    }
}

#[test]
fn add_process_then_run_spawns_atomically() {
    let runtime = rt();
    let _guard = runtime.enter();
    let app = AppRuntime::new();
    app.add_process_then_run(spec("a", "sleep", &["2"])).unwrap();
    assert_eq!(app.check_status("a").unwrap(), ProcessStatus::Running);
    // A colliding id is rejected before anything is spawned.
    let dup = app.add_process_then_run(spec("a", "sleep", &["2"]));
    assert_eq!(dup, Err(AppError::DuplicateId("a".to_string())));
    // A spawn failure registers nothing.
    let bad = app.add_process_then_run(spec("b", "surely-not-a-real-binary", &[]));
    assert!(matches!(bad, Err(AppError::SubProcess(_))));
    assert_eq!(
        app.check_status("b"),
        Err(AppError::NotFound("b".to_string()))
    );
    app.shutdown().unwrap();
}

#[test]
fn start_all_reports_first_spawn_failure() {
    let runtime = rt();
    let _guard = runtime.enter();
    let app = AppRuntime::new();
    app.add_batch(vec![
        spec("ok", "sleep", &["2"]),
        spec("bad", "surely-not-a-real-binary", &[]),
        spec("later", "sleep", &["2"]),
    ])
    .unwrap();
    let r = app.start_all();
    assert!(matches!(r, Err(AppError::SubProcess(_))));
    // The entry started before the failure is committed; the failing entry
    // and the one after it keep their prior status.
    assert_eq!(app.check_status("ok").unwrap(), ProcessStatus::Running);
    assert_eq!(app.check_status("bad").unwrap(), ProcessStatus::Stopped);
    assert_eq!(app.check_status("later").unwrap(), ProcessStatus::Stopped);
    app.shutdown().unwrap();
}

#[test]
fn version_update_runs_the_canary_first() {
    let runtime = rt();
    let _guard = runtime.enter();
    let app = AppRuntime::new();
    app.add_process(spec("svc", "sleep", &["0.1"])).unwrap();
    // The canary run (`sleep 0.1 --update`) completes — here with an error
    // status, which by design does not gate the respawn.
    app.version_update_process("svc").unwrap();
    assert_eq!(app.check_status("svc").unwrap(), ProcessStatus::Running);
    app.shutdown().unwrap();
}

#[test]
fn start_batch_registers_and_runs() {
    let runtime = rt();
    let _guard = runtime.enter();
    let app = AppRuntime::new();
    app.start_batch(vec![spec("a", "sleep", &["2"]), spec("b", "sleep", &["2"])]).unwrap();
    assert_eq!(app.check_status("a").unwrap(), ProcessStatus::Running);
    assert_eq!(app.check_status("b").unwrap(), ProcessStatus::Running);
    // A colliding id stops the batch; what started before it stays.
    let r = app.start_batch(vec![spec("c", "sleep", &["2"]), spec("a", "sleep", &["2"])]);
    assert_eq!(r, Err(AppError::DuplicateId("a".to_string())));
    assert_eq!(app.check_status("c").unwrap(), ProcessStatus::Running);
    app.shutdown().unwrap();
}

#[test]
fn restart_all_leaves_everything_running() {
    let runtime = rt();
    let _guard = runtime.enter();
    let app = AppRuntime::new();
    app.add_batch(vec![spec("a", "sleep", &["2"]), spec("b", "sleep", &["2"])]).unwrap();
    app.start_all().unwrap();
    app.restart_all().unwrap();
    let listing = app.list_status();
    assert_eq!(listing.len(), 2);
    assert_eq!(listing[0], ("a".to_string(), ProcessStatus::Running));
    assert_eq!(listing[1], ("b".to_string(), ProcessStatus::Running));
    app.shutdown().unwrap();
}

#[test]
fn version_update_all_respawns_everything() {
    let runtime = rt();
    let _guard = runtime.enter();
    let app = AppRuntime::new();
    app.add_batch(vec![spec("a", "sleep", &["0.1"]), spec("b", "sleep", &["0.1"])]).unwrap();
    app.version_update_all().unwrap();
    assert_eq!(app.check_status("a").unwrap(), ProcessStatus::Running);
    assert_eq!(app.check_status("b").unwrap(), ProcessStatus::Running);
    app.shutdown().unwrap();
}

#[test]
fn stop_of_a_stopped_entry_is_a_noop_success() {
    // No runtime entered: stopping a stopped entry makes no OS call.
    let app = AppRuntime::new();
    app.add_process(spec("a", "sleep", &["1"])).unwrap();
    app.stop_process("a").unwrap();
    assert_eq!(app.check_status("a").unwrap(), ProcessStatus::Stopped);
    let listing = app.list_status();
    assert_eq!(listing, vec![("a".to_string(), ProcessStatus::Stopped)]);
}

#[test]
fn reconcile_marks_an_observed_exit() {
    let h = AppProcess::new("x", "sleep", vec!["1".to_string()]);
    let same = appflow::runtime::reconcile(h, false);
    assert_eq!(same.id, "x");
    assert_eq!(same.status, ProcessStatus::Stopped);

    let gone = appflow::runtime::reconcile(same, true);
    assert_eq!(gone.id, "x");
    assert_eq!(gone.command, "sleep");
    assert_eq!(gone.args, vec!["1".to_string()]);
    assert_eq!(gone.status, ProcessStatus::Stopped);
    assert!(gone.process.is_none());
}

#[test]
fn get_spec_unknown_id_is_none() {
    let app = AppRuntime::new();
    assert!(app.get_spec("nope").is_none());
}

#[test]
fn check_status_unknown_id() {
    let app = AppRuntime::new();
    assert_eq!(
        app.check_status("nope"),
        Err(AppError::NotFound("nope".to_string()))
    );
}

#[test]
fn status_not_flips() {
    assert_eq!(ProcessStatus::Running.not(), ProcessStatus::Stopped);
    assert_eq!(ProcessStatus::Stopped.not(), ProcessStatus::Running);
}
