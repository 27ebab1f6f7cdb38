use cpu_settings::cpu::{cpu_governor_path, cpu_online_path};
use cpu_settings::min_max::clamp;
use cpu_settings::text::{decimal_text, parse_usize};
use cpu_settings::{ApplyRun, CoreProbe, Cpu, CpuJson, Cpus, MinMax, MinMaxJson, SettingVariant, Step};

fn probes(n: usize) -> Vec<CoreProbe> {
    (0..n)
        .map(|_| CoreProbe { online: Some(1), governor: Some("schedutil".to_string()) })
        .collect()
}

fn record(online: bool, limits: Option<(u64, u64)>, governor: &str) -> CpuJson {
    CpuJson {
        online,
        clock_limits: limits.map(|(min, max)| MinMaxJson { min, max }),
        governor: governor.to_string(),
    }
}

fn make_core(index: usize, online: bool, limits: Option<(u64, u64)>) -> Cpu {
    Cpu::from_json(record(online, limits, "performance"), 0, index)
}

fn rendered(steps: &[Step]) -> Vec<(String, String)> {
    steps.iter().map(|s| (s.path(), s.text())).collect()
}

fn run_all(run: &mut ApplyRun, fail: &dyn Fn(&Step) -> bool) -> Vec<(String, String)> {
    let mut written = Vec::new();
    while let Some(step) = run.current() {
        let step = step.clone();
        if fail(&step) {
            run.report(Err("denied".to_string()));
        } else {
            written.push((step.path(), step.text()));
            run.report(Ok(()));
        }
    }
    written
}

#[test]
fn system_defaults_test() {
    let settings = Cpus::system_default(&probes(8), Some("idc"));
    println!("Loaded system settings: {:?}", settings);
    assert_eq!(settings.cpus.len(), 8);
    assert!(settings.smt_capable);
    assert!(!settings.smt);
}

#[test]
fn system_default_reads_probes() {
    let p = vec![
        CoreProbe { online: None, governor: None },
        CoreProbe { online: Some(0), governor: Some("powersave".to_string()) },
    ];
    let cpus = Cpus::system_default(&p, None);
    assert!(cpus.cpus[0].online);
    assert_eq!(cpus.cpus[0].governor, "schedutil");
    assert!(!cpus.cpus[1].online);
    assert_eq!(cpus.cpus[1].governor, "powersave");
    assert_eq!(cpus.cpus[1].index, 1);
    assert!(cpus.cpus[1].clock_limits.is_none());
    assert!(!cpus.smt_capable);
    assert!(!cpus.smt);
}

#[test]
fn clamp_is_idempotent() {
    assert_eq!(clamp(2000, 1400, 3500), 2000);
    assert_eq!(clamp(100, 1400, 3500), 1400);
    assert_eq!(clamp(clamp(100, 1400, 3500), 1400, 3500), 1400);
    assert_eq!(clamp(9000, 500, 3500), 3500);
    assert_eq!(clamp(clamp(9000, 500, 3500), 500, 3500), 3500);
    assert_eq!(clamp(7, 7, 7), 7);
}

#[test]
fn clamp_uses_each_fields_range() {
    let mut c = make_core(2, true, Some((100, 9000)));
    c.clamp_all();
    assert_eq!(c.clock_limits, Some(MinMax { min: 1400, max: 3500 }));
    let mut c = make_core(2, true, Some((4000, 100)));
    c.clamp_all();
    assert_eq!(c.clock_limits, Some(MinMax { min: 3500, max: 500 }));
    let mut c = make_core(2, true, None);
    c.clamp_all();
    assert_eq!(c.clock_limits, None);
}

#[test]
fn envelopes() {
    assert_eq!(Cpu::min().clock_limits, Some(MinMax { max: 500, min: 1400 }));
    assert_eq!(Cpu::max().clock_limits, Some(MinMax { max: 3500, min: 3500 }));
    let l = make_core(0, true, None).limits();
    assert_eq!(l.clock_min_limits.map(|r| (r.min, r.max)), Some((1400, 3500)));
    assert_eq!(l.clock_max_limits.map(|r| (r.min, r.max)), Some((500, 3500)));
    assert_eq!(l.clock_step, 100);
    assert!(l.governors.is_empty());
}

#[test]
fn smt_off_writes_online_for_even_cores_only() {
    let mut cpus = Cpus::system_default(&probes(8), Some("off"));
    cpus.smt = false;
    let mut run = cpus.on_set();
    for (i, c) in cpus.cpus.iter().enumerate() {
        assert_eq!(c.state.do_set_online, i % 2 == 0);
    }
    let written = run_all(&mut run, &|_| false);
    assert_eq!(written[0], ("/sys/devices/system/cpu/smt/control".to_string(), "off".to_string()));
    let online: Vec<String> = written
        .iter()
        .filter(|(p, _)| p.ends_with("/online"))
        .map(|(p, _)| p.clone())
        .collect();
    assert_eq!(
        online,
        vec![
            "/sys/devices/system/cpu/cpu2/online",
            "/sys/devices/system/cpu/cpu4/online",
            "/sys/devices/system/cpu/cpu6/online",
        ]
    );
    assert!(cpus.finish_set(run).is_ok());
}

#[test]
fn smt_on_writes_online_for_all_but_primary() {
    let mut cpus = Cpus::system_default(&probes(4), Some("on"));
    assert!(cpus.smt);
    let mut run = cpus.on_set();
    let written = run_all(&mut run, &|_| false);
    assert_eq!(written[0].1, "on");
    let n = written.iter().filter(|(p, _)| p.ends_with("/online")).count();
    assert_eq!(n, 3);
}

#[test]
fn primary_core_never_written_offline() {
    let mut c = make_core(0, false, None);
    c.state.do_set_online = true;
    let steps = c.on_set();
    assert!(!steps.iter().any(|s| matches!(s, Step::Online { .. })));
    assert!(matches!(steps.last(), Some(Step::Governor { index: 0, .. })));
    let mut c = make_core(1, false, None);
    c.state.do_set_online = true;
    let steps = c.on_set();
    assert_eq!(steps[0].path(), "/sys/devices/system/cpu/cpu1/online");
    assert_eq!(steps[0].text(), "0");
    assert!(!steps.iter().any(|s| matches!(s, Step::Governor { .. })));
}

#[test]
fn core_plan_order() {
    let mut c = make_core(3, true, Some((1600, 3000)));
    c.state.do_set_online = true;
    let steps = c.on_set();
    let clock = "/sys/class/drm/card0/device/pp_od_clk_voltage".to_string();
    assert_eq!(
        rendered(&steps),
        vec![
            ("/sys/devices/system/cpu/cpu3/online".to_string(), "1".to_string()),
            (
                "/sys/class/drm/card0/device/power_dpm_force_performance_level".to_string(),
                "manual".to_string()
            ),
            (clock.clone(), "p 1 1 3000\n".to_string()),
            (clock.clone(), "p 1 0 1600\n".to_string()),
            (clock, "c\n".to_string()),
            (
                "/sys/devices/system/cpu/cpu3/cpufreq/scaling_governor".to_string(),
                "performance".to_string()
            ),
        ]
    );
}

#[test]
fn no_override_skips_clock_lines() {
    let mut c = make_core(4, true, None);
    let steps = c.on_set();
    assert_eq!(
        steps.iter().map(|s| s.text()).collect::<Vec<_>>(),
        vec!["manual", "c\n", "performance"]
    );
}

#[test]
fn resume_writes_clock_bounds_and_commit() {
    let c = make_core(5, true, Some((1400, 3500)));
    let steps = c.on_resume();
    let texts: Vec<String> = steps.iter().map(|s| s.text()).collect();
    assert_eq!(texts, vec!["manual", "p 2 1 3500\n", "p 2 0 1400\n", "c\n", "performance"]);
    let c = make_core(5, true, None);
    let texts: Vec<String> = c.on_resume().iter().map(|s| s.text()).collect();
    assert_eq!(texts, vec!["manual", "p 2 1 3500\n", "p 2 0 1400\n", "c\n", "performance"]);
    assert!(!c.state.is_resuming);
}

#[test]
fn ensemble_resume_covers_every_core() {
    let mut cpus = Cpus::from_json(
        vec![record(true, Some((1500, 3000)), "performance"), record(true, None, "powersave")],
        0,
        Cpus::system_default(&probes(2), None),
    );
    cpus.cpus[1].state.clock_limits_set = false;
    let mut run = cpus.on_resume();
    let written = run_all(&mut run, &|_| false);
    let clock_lines = written.iter().filter(|(_, t)| t.starts_with("p ")).count();
    assert_eq!(clock_lines, 4);
    assert!(run.outcome().is_ok());
}

#[test]
fn from_json_backfills_from_hardware() {
    let system = Cpus::system_default(&probes(8), Some("on"));
    let persisted = vec![record(true, Some((1500, 3000)), "performance"), record(false, None, "powersave")];
    let cpus = Cpus::from_json(persisted, 1, system);
    assert_eq!(cpus.len(), 8);
    assert!(cpus.smt);
    assert!(cpus.smt_capable);
    assert_eq!(cpus.cpus[0].clock_limits, Some(MinMax { min: 1500, max: 3000 }));
    assert_eq!(cpus.cpus[1].governor, "powersave");
    assert!(!cpus.cpus[1].online);
    for (i, c) in cpus.cpus.iter().enumerate() {
        assert_eq!(c.index, i);
    }
    assert_eq!(cpus.cpus[5].governor, "schedutil");
}

#[test]
fn from_json_truncates_to_hardware() {
    let system = Cpus::system_default(&probes(2), None);
    let persisted = vec![
        record(true, None, "a"),
        record(true, None, "b"),
        record(true, None, "c"),
    ];
    let cpus = Cpus::from_json(persisted, 0, system);
    assert_eq!(cpus.len(), 2);
    assert_eq!(cpus.cpus[1].governor, "b");
    assert!(!cpus.smt_capable);
    let json = cpus.json();
    assert_eq!(json.len(), 2);
    assert_eq!(json[0].governor, "a");
}

#[test]
fn failing_online_write_skips_rest_of_that_core() {
    let mut cpus = Cpus::system_default(&probes(8), Some("on"));
    let mut run = cpus.on_set();
    let written = run_all(&mut run, &|s| matches!(s, Step::Online { index: 3, .. }));
    assert!(!written.iter().any(|(p, _)| p.contains("cpu3/")));
    assert!(written.iter().any(|(p, _)| p == "/sys/devices/system/cpu/cpu4/online"));
    assert!(written
        .iter()
        .any(|(p, _)| p == "/sys/devices/system/cpu/cpu4/cpufreq/scaling_governor"));
    let err = cpus.finish_set(run).unwrap_err();
    assert_eq!(err.setting, SettingVariant::Cpu);
    assert_eq!(err.msg, "Failed to write `1` to `/sys/devices/system/cpu/cpu3/online`: denied");
}

#[test]
fn failing_smt_write_ends_the_run() {
    let mut cpus = Cpus::system_default(&probes(2), Some("on"));
    let mut run = cpus.on_set();
    let written = run_all(&mut run, &|s| matches!(s, Step::Smt { .. }));
    assert!(!written.iter().any(|(_, t)| t.starts_with("p ")));
    let err = cpus.finish_set(run).unwrap_err();
    assert_eq!(err.msg, "Failed to write `on` to `/sys/devices/system/cpu/smt/control`: denied");
}

#[test]
fn first_failure_is_kept() {
    let mut cpus = Cpus::system_default(&probes(4), None);
    let mut run = cpus.on_set();
    run_all(&mut run, &|s| matches!(s, Step::Commit));
    let err = cpus.finish_set(run).unwrap_err();
    assert_eq!(
        err.msg,
        "Failed to write `c\n` to `/sys/class/drm/card0/device/pp_od_clk_voltage`: denied"
    );
}

#[test]
fn override_flag_follows_manual_step() {
    let mut cpus = Cpus::from_json(
        vec![record(true, Some((1500, 3000)), "x"), record(true, Some((1500, 3000)), "y")],
        0,
        Cpus::system_default(&probes(2), None),
    );
    let mut run = cpus.on_set();
    run_all(&mut run, &|s| matches!(s, Step::ClockMax { pair: 0, .. }));
    let _ = cpus.finish_set(run);
    assert!(cpus.cpus[0].state.clock_limits_set);
    cpus.cpus[0].clock_limits(None);
    let mut run = cpus.on_set();
    let written = run_all(&mut run, &|s| matches!(s, Step::ManualMode));
    assert!(!written.iter().any(|(_, t)| t.starts_with("p ")));
    let _ = cpus.finish_set(run);
    assert!(cpus.cpus[0].state.clock_limits_set);
    let mut run = cpus.on_set();
    let written = run_all(&mut run, &|_| false);
    assert!(written.iter().any(|(_, t)| t == "p 0 1 3500\n"));
    assert!(written.iter().any(|(_, t)| t == "p 0 0 1400\n"));
    assert!(cpus.finish_set(run).is_ok());
    assert!(!cpus.cpus[0].state.clock_limits_set);
}

#[test]
fn manual_mode_write_depends_on_current_mode() {
    assert!(Step::ManualMode.reads_first());
    assert!(!Step::ManualMode.should_write("manual"));
    assert!(Step::ManualMode.should_write("auto"));
    assert!(!Step::Commit.reads_first());
    assert!(Step::Commit.should_write("manual"));
}

#[test]
fn cpu_count_from_present_range() {
    assert_eq!(Cpus::cpu_count(Some("0-7")), 8);
    assert_eq!(Cpus::cpu_count(Some("0-15")), 16);
    assert_eq!(Cpus::cpu_count(Some("garbage")), 8);
    assert_eq!(Cpus::cpu_count(Some("0-x")), 8);
    assert_eq!(Cpus::cpu_count(Some("0-")), 8);
    assert_eq!(Cpus::cpu_count(Some("0-18446744073709551615")), 8);
    assert_eq!(Cpus::cpu_count(None), 8);
    assert_eq!(Cpus::cpu_count(Some("0-0")), 1);
}

#[test]
fn smt_status_from_control() {
    assert_eq!(Cpus::system_smt_capabilities(Some("on")), (true, true));
    assert_eq!(Cpus::system_smt_capabilities(Some(" On\n")), (true, true));
    assert_eq!(Cpus::system_smt_capabilities(Some("off")), (false, true));
    assert_eq!(Cpus::system_smt_capabilities(Some("notsupported")), (false, true));
    assert_eq!(Cpus::system_smt_capabilities(Some("o n")), (false, true));
    assert_eq!(Cpus::system_smt_capabilities(None), (false, false));
}

#[test]
fn text_helpers() {
    assert_eq!(decimal_text(0), "0");
    assert_eq!(decimal_text(1400), "1400");
    assert_eq!(decimal_text(u64::MAX), u64::MAX.to_string());
    assert_eq!(parse_usize("42"), Some(42));
    assert_eq!(parse_usize("+7"), Some(7));
    assert_eq!(parse_usize(""), None);
    assert_eq!(parse_usize("+"), None);
    assert_eq!(parse_usize("-1"), None);
    assert_eq!(parse_usize("18446744073709551616"), None);
    assert_eq!(parse_usize("18446744073709551615"), Some(usize::MAX));
    assert_eq!(cpu_online_path(12), "/sys/devices/system/cpu/cpu12/online");
    assert_eq!(cpu_governor_path(0), "/sys/devices/system/cpu/cpu0/cpufreq/scaling_governor");
}

#[test]
fn setters_and_persisted_form() {
    let mut c = make_core(1, true, None);
    c.set_online(false);
    c.governor("powersave".to_string());
    c.clock_limits(Some(MinMax { min: 1500, max: 2500 }));
    assert!(!c.online);
    assert_eq!(c.get_governor(), "powersave");
    assert_eq!(c.get_clock_limits(), Some(&MinMax { min: 1500, max: 2500 }));
    let j = c.to_json();
    assert_eq!(j.clock_limits, Some(MinMaxJson { min: 1500, max: 2500 }));
    assert_eq!(j.governor, "powersave");
    let cpus = Cpus::system_default(&probes(3), None);
    let l = cpus.limits();
    assert_eq!(l.count, 3);
    assert_eq!(l.cpus.len(), 3);
}
