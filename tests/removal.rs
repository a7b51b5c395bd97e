use adb_debloater::bridge::{
    command_result, connect_args, pair_args, probe_args, system_packages_args, BridgeError,
};
use adb_debloater::removal::{restore_command, restore_outcome, Outcome, Removal, RemovalBatch, Step};

/// Runs a removal against a scripted bridge; returns the outcome and the
/// commands issued.
fn run_removal(name: &str, uninstall_ok: bool, disable_ok: bool) -> (Outcome, Vec<Vec<String>>) {
    let mut r = Removal::new(name);
    let mut calls = Vec::new();
    while let Some(cmd) = r.command() {
        let ok = if cmd[2] == "uninstall" { uninstall_ok } else { disable_ok };
        calls.push(cmd);
        r.report(ok);
    }
    (r.outcome().unwrap(), calls)
}

#[test]
fn removal_falls_back_to_disable() {
    let (o, calls) = run_removal("com.facebook.katana", false, true);
    assert_eq!(o, Outcome::Disabled);
    assert_eq!(calls.len(), 2);
    assert_eq!(calls[0], vec!["shell", "pm", "uninstall", "--user", "0", "com.facebook.katana"]);
    assert_eq!(calls[1], vec!["shell", "pm", "disable-user", "--user", "0", "com.facebook.katana"]);
}

#[test]
fn removal_fails_when_both_fail() {
    let (o, calls) = run_removal("com.facebook.katana", false, false);
    assert_eq!(o, Outcome::Failed);
    assert_eq!(calls.len(), 2);
}

#[test]
fn removal_never_disables_after_uninstall() {
    let (o, calls) = run_removal("com.facebook.katana", true, true);
    assert_eq!(o, Outcome::Removed);
    assert_eq!(calls.len(), 1);
    assert!(calls.iter().all(|c| c[2] != "disable-user"));
}

#[test]
fn removal_steps() {
    let mut r = Removal::new("a.b");
    assert_eq!(r.step, Step::Uninstall);
    assert_eq!(r.outcome(), None);
    r.report(false);
    assert_eq!(r.step, Step::Disable);
    r.report(true);
    assert_eq!(r.step, Step::Done(Outcome::Disabled));
    assert_eq!(r.command(), None);
}

#[test]
fn batch_in_order_without_abort() {
    let names = vec!["a".to_string(), "b".to_string(), "c".to_string()];
    let mut batch = RemovalBatch::new(names);
    // a: removed; b: both fail; c: disabled
    let answers = [true, false, false, false, true];
    let mut issued = Vec::new();
    let mut k = 0;
    while let Some(cmd) = batch.command() {
        issued.push(format!("{} {}", cmd[2], cmd[5]));
        batch.report(answers[k]);
        k += 1;
    }
    assert_eq!(k, 5);
    assert_eq!(
        issued,
        vec!["uninstall a", "uninstall b", "disable-user b", "uninstall c", "disable-user c"]
    );
    assert_eq!(batch.outcomes, vec![Outcome::Removed, Outcome::Failed, Outcome::Disabled]);
}

#[test]
fn empty_batch_has_nothing_due() {
    let batch = RemovalBatch::new(Vec::new());
    assert!(batch.command().is_none());
    assert!(batch.outcomes.is_empty());
}

#[test]
fn restore_has_no_fallback() {
    assert_eq!(restore_outcome(true), Outcome::Restored);
    assert_eq!(restore_outcome(false), Outcome::Failed);
    assert_eq!(
        restore_command("com.android.egg"),
        vec!["shell", "cmd", "package", "install-existing", "com.android.egg"]
    );
}

#[test]
fn command_lines() {
    assert_eq!(system_packages_args(), vec!["shell", "pm", "list", "packages", "-s"]);
    assert_eq!(probe_args("com.egg"), vec!["shell", "pm", "list", "packages", "com.egg"]);
    assert_eq!(connect_args("1.2.3.4:5555"), vec!["connect", "1.2.3.4:5555"]);
    assert_eq!(pair_args("1.2.3.4:37000", "123456"), vec!["pair", "1.2.3.4:37000", "123456"]);
}

#[test]
fn exit_status_mapping() {
    assert_eq!(command_result(true, "out".to_string(), "err".to_string()), Ok("out".to_string()));
    assert_eq!(
        command_result(false, "out".to_string(), "err".to_string()),
        Err(BridgeError::CommandFailed("err".to_string()))
    );
}
