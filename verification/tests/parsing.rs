use app_nap::cgroup::cpu_stat::{parse_cpu_stat, CpuStatError};
use app_nap::cgroup::procfs::{parse_ppid, process_comm, AncestorWalk, PpidError, WalkStep};
use app_nap::cgroup::resolve::related_units;
use app_nap::cgroup::sysfs::parse_procs;
use app_nap::cgroup::CgroupPath;

#[test]
fn cpu_stat_reads_usage_and_throttling() {
    let stat = parse_cpu_stat("usage_usec 1200\nuser_usec 1000\nthrottled_usec 30\n").unwrap();
    assert_eq!(stat.usage_usec, 1200);
    assert_eq!(stat.throttled_usec, 30);
}

#[test]
fn cpu_stat_without_throttling_reads_zero() {
    let stat = parse_cpu_stat("usage_usec 7\n").unwrap();
    assert_eq!(stat.usage_usec, 7);
    assert_eq!(stat.throttled_usec, 0);
}

#[test]
fn cpu_stat_errors() {
    assert_eq!(parse_cpu_stat("user_usec 1\n").unwrap_err(), CpuStatError::MissingUsage);
    assert_eq!(parse_cpu_stat("usage_usec x\n").unwrap_err(), CpuStatError::InvalidValue);
    assert_eq!(
        parse_cpu_stat("usage_usec 1\nthrottled_usec -1\n").unwrap_err(),
        CpuStatError::InvalidValue
    );
}

#[test]
fn ppid_is_read_from_the_status_file() {
    let status = "Name:\tbash\nState:\tS (sleeping)\nPid:\t4242\nPPid:\t17\nTracerPid:\t0\n";
    assert_eq!(parse_ppid(status), Ok(17));
    assert_eq!(parse_ppid("Name:\tx\nPPid:\tnope\n"), Err(PpidError::InvalidValue));
    assert_eq!(parse_ppid("Name:\tx\n"), Err(PpidError::NotFound));
}

#[test]
fn comm_is_trimmed() {
    assert_eq!(process_comm("firefox\n"), "firefox");
    assert_eq!(process_comm("  \n"), "");
}

#[test]
fn procs_lists_pids_and_skips_other_lines() {
    assert_eq!(parse_procs("12\n 13 \nabc\n\n14"), vec![12, 13, 14]);
    assert!(parse_procs("").is_empty());
}

#[test]
fn the_ancestor_walk_stops_at_systemd() {
    let mut walk = AncestorWalk::start(300);
    assert_eq!(walk.next_step(), WalkStep::ReadComm(300));
    walk.record_comm("bash");
    assert_eq!(walk.next_step(), WalkStep::ReadPpid(300));
    walk.record_ppid(200);
    assert_eq!(walk.next_step(), WalkStep::ReadComm(200));
    walk.record_comm("systemd");
    assert_eq!(walk.next_step(), WalkStep::Done);
    assert_eq!(walk.pids(), &vec![300]);
}

#[test]
fn the_ancestor_walk_stops_at_pid_one() {
    let mut walk = AncestorWalk::start(5);
    walk.record_comm("sh");
    walk.record_ppid(1);
    assert_eq!(walk.next_step(), WalkStep::Done);
    assert_eq!(walk.pids(), &vec![5]);
    assert_eq!(AncestorWalk::start(1).next_step(), WalkStep::Done);
}

#[test]
fn related_units_are_the_distinct_app_units() {
    let base = "0::/user.slice/user-1000.slice/user@1000.service";
    let cgroups: Vec<CgroupPath> = [
        format!("{base}/app.slice/app-konsole-1.scope/tab(9).scope\n"),
        format!("{base}/app.slice/app-konsole-1.scope/main.scope\n"),
        format!("{base}/session.slice/plasma.service\n"),
        format!("{base}/app.slice/app-firefox-2.scope\n"),
    ]
    .iter()
    .map(|line| CgroupPath::from_cgroup_full(line).unwrap())
    .collect();
    let mut units: Vec<String> =
        related_units(cgroups).iter().map(|u| u.as_str().to_string()).collect();
    units.sort();
    assert_eq!(
        units,
        vec![
            "/user.slice/user-1000.slice/user@1000.service/app.slice/app-firefox-2.scope".to_string(),
            "/user.slice/user-1000.slice/user@1000.service/app.slice/app-konsole-1.scope".to_string(),
        ]
    );
}
