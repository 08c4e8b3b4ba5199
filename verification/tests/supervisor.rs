use tcp_proxy::addr::{Ipv4Addr, SocketAddrV4};
use tcp_proxy::rules::{ProxyConfig, RawConfig, SourcePortOptions, TargetPortOptions};
use tcp_proxy::supervisor::{Supervisor, Task, TaskStatus};

fn raw(ip: &str, port: u16, target_port: u16) -> RawConfig {
    RawConfig::new(
        ip.to_string(),
        SourcePortOptions::Single(port),
        TargetPortOptions::Single(target_port),
    )
}

fn running(ip: [u8; 4], port: u16, target_port: u16) -> Task {
    Task {
        rule: ProxyConfig {
            source_addr: SocketAddrV4::new(Ipv4Addr::new(ip[0], ip[1], ip[2], ip[3]), port),
            target_addr: SocketAddrV4::new(Ipv4Addr::unspecified(), target_port),
        },
        status: TaskStatus::Running,
    }
}

fn tasks(supervisor: &Supervisor) -> Vec<Task> {
    (0..supervisor.len()).map(|i| supervisor.task(i).unwrap()).collect()
}

#[test]
fn start_launches_the_normal_form() {
    let supervisor =
        Supervisor::start(&[raw("2.2.2.2", 20, 2), raw("1.1.1.1", 10, 1), raw("2.2.2.2", 20, 2)]);
    assert_eq!(supervisor.len(), 2);
    assert_eq!(tasks(&supervisor), vec![running([1, 1, 1, 1], 10, 1), running([2, 2, 2, 2], 20, 2)]);
    assert_eq!(supervisor.task(2), None);
}

#[test]
fn one_failure_leaves_the_others_running() {
    let mut supervisor =
        Supervisor::start(&[raw("1.1.1.1", 10, 1), raw("2.2.2.2", 20, 2), raw("3.3.3.3", 30, 3)]);
    assert!(supervisor.record(1, TaskStatus::Failed));
    let after = tasks(&supervisor);
    assert_eq!(after[0], running([1, 1, 1, 1], 10, 1));
    assert_eq!(after[1].status, TaskStatus::Failed);
    assert_eq!(after[1].rule, running([2, 2, 2, 2], 20, 2).rule);
    assert_eq!(after[2], running([3, 3, 3, 3], 30, 3));
    assert!(supervisor.record(0, TaskStatus::Ended));
    assert_eq!(tasks(&supervisor)[2], running([3, 3, 3, 3], 30, 3));
    assert_eq!(tasks(&supervisor)[1].status, TaskStatus::Failed);
}

#[test]
fn record_out_of_range_changes_nothing() {
    let mut supervisor = Supervisor::start(&[raw("1.1.1.1", 10, 1)]);
    let before = tasks(&supervisor);
    assert!(!supervisor.record(1, TaskStatus::Failed));
    assert!(!supervisor.record(usize::MAX, TaskStatus::Ended));
    assert_eq!(tasks(&supervisor), before);
}

#[test]
fn restart_replaces_the_whole_batch() {
    let mut supervisor = Supervisor::start(&[raw("1.1.1.1", 10, 1), raw("2.2.2.2", 20, 2)]);
    supervisor.record(0, TaskStatus::Failed);
    let old = tasks(&supervisor);
    let cancelled = supervisor.restart(&[raw("2.2.2.2", 20, 2), raw("3.3.3.3", 30, 3)]);
    assert_eq!(cancelled, old);
    assert_eq!(tasks(&supervisor), vec![running([2, 2, 2, 2], 20, 2), running([3, 3, 3, 3], 30, 3)]);
    let cancelled = supervisor.restart(&[]);
    assert_eq!(cancelled.len(), 2);
    assert_eq!(supervisor.len(), 0);
}
