use light_scheduling::sysfs::{
    attribute_path, online_text, AttrKind, AttrWrite, Stage, SysfsAction, WriteStep,
    READ_ONLY_MODE, WRITABLE_MODE,
};

fn drive(mut w: AttrWrite, outcomes: &[bool]) -> Vec<SysfsAction> {
    let mut actions = Vec::new();
    let mut next = outcomes.iter();
    loop {
        let a = w.action();
        actions.push(a);
        if w.is_finished() {
            return actions;
        }
        match next.next() {
            Some(ok) => w.record(*ok),
            None => return actions,
        }
    }
}

#[test]
fn paths_follow_the_sysfs_layout() {
    assert_eq!(
        attribute_path(AttrKind::MinFrequency, 0),
        "/sys/devices/system/cpu/cpu0/cpufreq/scaling_min_freq"
    );
    assert_eq!(
        attribute_path(AttrKind::MaxFrequency, 7),
        "/sys/devices/system/cpu/cpu7/cpufreq/scaling_max_freq"
    );
    assert_eq!(attribute_path(AttrKind::Online, 12), "/sys/devices/system/cpu/cpu12/online");
}

#[test]
fn online_state_is_one_or_zero() {
    assert_eq!(online_text(true), "1");
    assert_eq!(online_text(false), "0");
    assert_eq!(AttrWrite::online(3, true).text(), "1");
    assert_eq!(AttrWrite::online(3, false).text(), "0");
}

#[test]
fn frequency_writes_carry_path_and_decimal_value() {
    let w = AttrWrite::min_frequency(2, 1804800);
    assert_eq!(w.path(), "/sys/devices/system/cpu/cpu2/cpufreq/scaling_min_freq");
    assert_eq!(w.text(), "1804800");
    let w = AttrWrite::max_frequency(4, 2419200);
    assert_eq!(w.path(), "/sys/devices/system/cpu/cpu4/cpufreq/scaling_max_freq");
    assert_eq!(w.text(), "2419200");
    assert_eq!(w.stage(), Stage::Open);
}

#[test]
fn successful_write_opens_writes_and_closes() {
    let acts = drive(AttrWrite::max_frequency(1, 1000), &[true, true, true]);
    assert_eq!(
        acts,
        vec![
            SysfsAction::SetMode(0o600),
            SysfsAction::WriteText,
            SysfsAction::SetMode(0o400),
            SysfsAction::Finished
        ]
    );
}

#[test]
fn failed_write_still_restores_read_only_mode() {
    let acts = drive(AttrWrite::min_frequency(1, -5), &[true, false, true]);
    assert_eq!(
        acts,
        vec![
            SysfsAction::SetMode(WRITABLE_MODE),
            SysfsAction::WriteText,
            SysfsAction::SetMode(READ_ONLY_MODE),
            SysfsAction::Failed(WriteStep::WriteValue)
        ]
    );
}

#[test]
fn failed_write_reports_the_write_even_if_closing_fails() {
    let acts = drive(AttrWrite::online(0, false), &[true, false, false]);
    assert_eq!(acts.last(), Some(&SysfsAction::Failed(WriteStep::WriteValue)));
}

#[test]
fn failed_close_is_reported() {
    let acts = drive(AttrWrite::online(0, true), &[true, true, false]);
    assert_eq!(acts.last(), Some(&SysfsAction::Failed(WriteStep::CloseWindow)));
}

#[test]
fn failed_open_writes_nothing() {
    let acts = drive(AttrWrite::online(5, true), &[false, true, true]);
    assert_eq!(
        acts,
        vec![SysfsAction::SetMode(0o600), SysfsAction::Failed(WriteStep::OpenWindow)]
    );
}

#[test]
fn record_after_the_end_changes_nothing() {
    let mut w = AttrWrite::online(1, true);
    w.record(false);
    assert_eq!(w.stage(), Stage::Failed(WriteStep::OpenWindow));
    w.record(true);
    assert_eq!(w.stage(), Stage::Failed(WriteStep::OpenWindow));
    assert!(w.is_finished());
}
