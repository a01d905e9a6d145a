use light_scheduling::migrate::{
    check_cpus, get_pids_by_process_name, name_matches, process_name, target_cpus,
    AffinityAction, AffinityError, AffinityRun, Migrate, ProcEntry,
};

fn entry(name: &str, cmdline: &[u8]) -> ProcEntry {
    ProcEntry { name: name.to_string(), cmdline: Some(cmdline.to_vec()) }
}

fn table() -> Vec<ProcEntry> {
    vec![
        entry("10", b"alpha\0--x\0"),
        entry("20", b"beta\0"),
        entry("30", b"alpha\0"),
    ]
}

fn drive(mut run: AffinityRun, outcomes: &[bool]) -> Vec<AffinityAction> {
    let mut actions = Vec::new();
    let mut next = outcomes.iter();
    loop {
        let a = run.action();
        actions.push(a);
        match a {
            AffinityAction::Apply(_) => match next.next() {
                Some(ok) => run.record(*ok),
                None => return actions,
            },
            _ => return actions,
        }
    }
}

#[test]
fn discovery_finds_every_matching_pid() {
    assert_eq!(get_pids_by_process_name(&table(), "alpha"), vec![10, 30]);
    assert_eq!(Migrate::new("alpha", &table()).pids(), &vec![10, 30]);
}

#[test]
fn discovery_without_match_falls_back_to_init() {
    assert_eq!(get_pids_by_process_name(&table(), "gamma"), Vec::<i32>::new());
    assert_eq!(Migrate::new("gamma", &table()).pids(), &vec![1]);
    assert!(Migrate::new("gamma", &table()).is_fallback());
    assert!(!Migrate::new("alpha", &table()).is_fallback());
    assert_eq!(Migrate::new("alpha", &Vec::new()).pids(), &vec![1]);
}

#[test]
fn discovery_is_exact_and_case_sensitive() {
    assert_eq!(get_pids_by_process_name(&table(), "Alpha"), Vec::<i32>::new());
    assert_eq!(get_pids_by_process_name(&table(), "alp"), Vec::<i32>::new());
}

#[test]
fn discovery_skips_unreadable_and_non_numeric_entries() {
    let t = vec![
        entry("self", b"alpha\0"),
        ProcEntry { name: "11".to_string(), cmdline: None },
        entry("12", b"alpha\0"),
        entry("13", b""),
    ];
    assert_eq!(get_pids_by_process_name(&t, "alpha"), vec![12]);
}

#[test]
fn process_name_is_first_field_trimmed() {
    assert_eq!(process_name(b"  com.app \0-x\0"), Some("com.app".to_string()));
    assert_eq!(process_name(b"\0"), Some(String::new()));
    assert_eq!(process_name(b"alpha"), None);
    assert_eq!(process_name(b"\xff\xfe\0"), None);
}

#[test]
fn name_matches_only_exact_names() {
    assert!(name_matches(&Some("alpha".to_string()), "alpha"));
    assert!(!name_matches(&Some("alpha".to_string()), "alph"));
    assert!(!name_matches(&None, "alpha"));
}

#[test]
fn target_cores_are_zero_to_six() {
    assert_eq!(target_cpus(), vec![0, 1, 2, 3, 4, 5, 6]);
}

#[test]
fn core_beyond_set_size_is_refused_before_any_call() {
    let r = AffinityRun::start(vec![10, 30], vec![0, 1, 1024], 1024);
    assert!(matches!(r, Err(AffinityError::CpuOutOfRange { cpu: 1024, limit: 1024 })));
    assert_eq!(
        check_cpus(&vec![3, 9, 8], 8),
        Err(AffinityError::CpuOutOfRange { cpu: 9, limit: 8 })
    );
    assert_eq!(check_cpus(&vec![0, 7], 8), Ok(()));
}

#[test]
fn calls_follow_list_order() {
    let run = AffinityRun::start(vec![10, 30], target_cpus(), 1024).ok().unwrap();
    assert_eq!(run.cpus(), &vec![0, 1, 2, 3, 4, 5, 6]);
    assert_eq!(
        drive(run, &[true, true]),
        vec![AffinityAction::Apply(10), AffinityAction::Apply(30), AffinityAction::Finished]
    );
}

#[test]
fn failed_call_halts_the_run() {
    let run = AffinityRun::start(vec![10, 30], target_cpus(), 1024).ok().unwrap();
    assert_eq!(
        drive(run, &[false, true]),
        vec![AffinityAction::Apply(10), AffinityAction::Halted(10)]
    );
}

#[test]
fn setting_starts_with_the_found_pids() {
    let m = Migrate::new("alpha", &table());
    let run = m.setting().ok().unwrap();
    assert_eq!(run.pids(), &vec![10, 30]);
    assert_eq!(run.cpus(), &vec![0, 1, 2, 3, 4, 5, 6]);
    assert_eq!(run.action(), AffinityAction::Apply(10));
}

#[test]
fn setting_on_fallback_pins_init() {
    let m = Migrate::new("gamma", &table());
    let run = m.setting().ok().unwrap();
    assert_eq!(run.pids(), &vec![1]);
    assert_eq!(drive(run, &[true]), vec![AffinityAction::Apply(1), AffinityAction::Finished]);
}
