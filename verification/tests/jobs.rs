use pty_sessions::command::Invocation;
use pty_sessions::error::SessionError;
use pty_sessions::geometry::Geometry;
use pty_sessions::job::Job;
use pty_sessions::manager::plan_session;
use pty_sessions::operation::Operation;
use pty_sessions::session::TerminalSession;

fn session() -> TerminalSession<()> {
    TerminalSession { id: "s".to_string(), handles: () }
}

#[test]
fn initial_geometry_is_80_by_24() {
    let size = Geometry::initial();
    assert_eq!(size, Geometry { rows: 24, cols: 80, pixel_width: 0, pixel_height: 0 });
}

#[test]
fn cells_have_no_pixel_size() {
    let size = Geometry::cells(132, 43);
    assert_eq!(size.cols, 132);
    assert_eq!(size.rows, 43);
    assert_eq!(size.pixel_width, 0);
    assert_eq!(size.pixel_height, 0);
}

#[test]
fn cells_at_the_limits() {
    assert_eq!(
        Geometry::cells(0, 0),
        Geometry { rows: 0, cols: 0, pixel_width: 0, pixel_height: 0 }
    );
    assert_eq!(
        Geometry::cells(u16::MAX, u16::MAX),
        Geometry { rows: u16::MAX, cols: u16::MAX, pixel_width: 0, pixel_height: 0 }
    );
}

#[test]
fn invocation_holds_command_and_overlay() {
    let args = vec!["-l".to_string(), "-c".to_string(), "echo hi".to_string()];
    let invocation = Invocation::new("/tmp/work", "bash", &args);
    assert_eq!(invocation.program, "bash");
    assert_eq!(invocation.args, args);
    assert_eq!(invocation.cwd, "/tmp/work");
    assert_eq!(
        invocation.env,
        vec![
            ("TERM".to_string(), "xterm-256color".to_string()),
            ("COLORTERM".to_string(), "truecolor".to_string()),
            ("LANG".to_string(), "en_US.UTF-8".to_string()),
        ]
    );
}

#[test]
fn invocation_without_arguments() {
    let invocation = Invocation::new("", "sh", &[]);
    assert_eq!(invocation.program, "sh");
    assert!(invocation.args.is_empty());
    assert_eq!(invocation.cwd, "");
    assert_eq!(invocation.env.len(), 3);
}

#[test]
fn resize_job_announces_the_geometry() {
    let mut job = session().resize(132, 43);
    assert_eq!(job.pending(), Some(&Operation::LockMaster));
    job.settle(Ok(()));
    assert_eq!(
        job.pending(),
        Some(&Operation::Resize(Geometry { rows: 43, cols: 132, pixel_width: 0, pixel_height: 0 }))
    );
    job.settle(Ok(()));
    assert_eq!(job.pending(), None);
    assert_eq!(job.finish(), Some(Ok(())));
}

#[test]
fn write_job_carries_exactly_the_bytes() {
    let data: Vec<u8> = (0..=255u8).collect();
    let mut job = session().write(&data);
    job.settle(Ok(()));
    assert_eq!(job.pending(), Some(&Operation::Write(data.clone())));
}

#[test]
fn write_job_with_no_bytes() {
    let mut job = session().write(b"");
    job.settle(Ok(()));
    assert_eq!(job.pending(), Some(&Operation::Write(Vec::new())));
    job.settle(Ok(()));
    assert_eq!(job.pending(), Some(&Operation::Flush));
}

#[test]
fn write_failure_ends_the_job() {
    let mut job = session().write(b"abc");
    job.settle(Ok(()));
    job.settle(Err("Broken pipe (os error 32)".to_string()));
    assert_eq!(job.pending(), None);
    job.settle(Ok(()));
    assert_eq!(job.pending(), None);
    assert_eq!(
        job.finish(),
        Some(Err(SessionError::Io("Failed to write: Broken pipe (os error 32)".to_string())))
    );
}

#[test]
fn flush_failure_is_reported() {
    let mut job = session().write(b"abc");
    job.settle(Ok(()));
    job.settle(Ok(()));
    job.settle(Err("Input/output error (os error 5)".to_string()));
    assert_eq!(
        job.finish(),
        Some(Err(SessionError::Io("Failed to flush: Input/output error (os error 5)".to_string())))
    );
}

#[test]
fn resize_failure_is_reported() {
    let mut job = session().resize(10, 10);
    job.settle(Ok(()));
    job.settle(Err("Bad file descriptor (os error 9)".to_string()));
    assert_eq!(
        job.finish(),
        Some(Err(SessionError::Io("Failed to resize: Bad file descriptor (os error 9)".to_string())))
    );
}

#[test]
fn guard_failure_is_described_by_the_host_alone() {
    let mut job = session().write(b"abc");
    job.settle(Err("poisoned lock: another task failed inside".to_string()));
    assert_eq!(
        job.finish(),
        Some(Err(SessionError::Io("poisoned lock: another task failed inside".to_string())))
    );
    let mut job = session().resize(1, 1);
    job.settle(Err("poisoned".to_string()));
    assert_eq!(job.finish(), Some(Err(SessionError::Io("poisoned".to_string()))));
}

#[test]
fn first_failure_is_kept() {
    let mut job = session().write(b"abc");
    job.settle(Ok(()));
    job.settle(Err("first".to_string()));
    job.settle(Err("second".to_string()));
    assert_eq!(job.finish(), Some(Err(SessionError::Io("Failed to write: first".to_string()))));
}

#[test]
fn pending_job_has_no_result() {
    let mut job = session().write(b"abc");
    job.settle(Ok(()));
    job.settle(Ok(()));
    assert_eq!(job.finish(), None);
    assert_eq!(session().resize(1, 1).finish(), None);
}

#[test]
fn surplus_reports_change_nothing() {
    let mut job = session().resize(1, 1);
    job.settle(Ok(()));
    job.settle(Ok(()));
    job.settle(Err("late".to_string()));
    job.settle(Ok(()));
    assert_eq!(job.pending(), None);
    assert_eq!(job.finish(), Some(Ok(())));
}

#[test]
fn empty_job_is_done() {
    let job = Job::new(Vec::new());
    assert_eq!(job.pending(), None);
    assert_eq!(job.finish(), Some(Ok(())));
}

#[test]
fn creation_plan_in_order() {
    let args = vec!["-c".to_string(), "exit 0".to_string()];
    let mut job = plan_session("/home/user", "sh", &args);
    assert_eq!(
        job.pending(),
        Some(&Operation::OpenPty(Geometry { rows: 24, cols: 80, pixel_width: 0, pixel_height: 0 }))
    );
    job.settle(Ok(()));
    assert_eq!(
        job.pending(),
        Some(&Operation::SpawnCommand(Invocation {
            program: "sh".to_string(),
            args: args.clone(),
            cwd: "/home/user".to_string(),
            env: vec![
                ("TERM".to_string(), "xterm-256color".to_string()),
                ("COLORTERM".to_string(), "truecolor".to_string()),
                ("LANG".to_string(), "en_US.UTF-8".to_string()),
            ],
        }))
    );
    job.settle(Ok(()));
    assert_eq!(job.pending(), Some(&Operation::TakeWriter));
    job.settle(Ok(()));
    assert_eq!(job.pending(), Some(&Operation::CloneReader));
    job.settle(Ok(()));
    assert_eq!(job.pending(), None);
    assert_eq!(job.finish(), Some(Ok(())));
}

#[test]
fn creation_fails_to_open_pty() {
    let mut job = plan_session(".", "sh", &[]);
    job.settle(Err("out of pty devices".to_string()));
    assert_eq!(job.pending(), None);
    assert_eq!(
        job.finish(),
        Some(Err(SessionError::Spawn("Failed to open PTY: out of pty devices".to_string())))
    );
}

#[test]
fn creation_fails_to_spawn() {
    let mut job = plan_session("/nonexistent", "no-such-binary", &[]);
    job.settle(Ok(()));
    job.settle(Err("No such file or directory (os error 2)".to_string()));
    assert_eq!(job.pending(), None);
    assert_eq!(
        job.finish(),
        Some(Err(SessionError::Spawn(
            "Failed to spawn command: No such file or directory (os error 2)".to_string()
        )))
    );
}

#[test]
fn creation_fails_to_get_writer() {
    let mut job = plan_session(".", "sh", &[]);
    job.settle(Ok(()));
    job.settle(Ok(()));
    job.settle(Err("cannot take writer more than once".to_string()));
    assert_eq!(
        job.finish(),
        Some(Err(SessionError::Spawn(
            "Failed to get writer: cannot take writer more than once".to_string()
        )))
    );
}

#[test]
fn creation_fails_to_get_reader() {
    let mut job = plan_session(".", "sh", &[]);
    job.settle(Ok(()));
    job.settle(Ok(()));
    job.settle(Ok(()));
    job.settle(Err("Too many open files (os error 24)".to_string()));
    assert_eq!(
        job.finish(),
        Some(Err(SessionError::Spawn(
            "Failed to get reader: Too many open files (os error 24)".to_string()
        )))
    );
}

#[test]
fn failure_of_each_operation() {
    let size = Geometry::initial();
    let spawn = Operation::SpawnCommand(Invocation::new(".", "sh", &[]));
    let cases: Vec<(Operation, SessionError)> = vec![
        (Operation::OpenPty(size), SessionError::Spawn("Failed to open PTY: x".to_string())),
        (spawn, SessionError::Spawn("Failed to spawn command: x".to_string())),
        (Operation::TakeWriter, SessionError::Spawn("Failed to get writer: x".to_string())),
        (Operation::CloneReader, SessionError::Spawn("Failed to get reader: x".to_string())),
        (Operation::LockWriter, SessionError::Io("x".to_string())),
        (Operation::Write(vec![1, 2]), SessionError::Io("Failed to write: x".to_string())),
        (Operation::Flush, SessionError::Io("Failed to flush: x".to_string())),
        (Operation::LockMaster, SessionError::Io("x".to_string())),
        (Operation::Resize(size), SessionError::Io("Failed to resize: x".to_string())),
    ];
    for (operation, expected) in cases {
        assert_eq!(SessionError::failure(&operation, "x"), expected);
    }
}

#[test]
fn failure_with_empty_detail() {
    assert_eq!(
        SessionError::failure(&Operation::Flush, ""),
        SessionError::Io("Failed to flush: ".to_string())
    );
}

#[test]
fn messages_of_errors() {
    assert_eq!(SessionError::NotFound.message(), "Session not found");
    assert_eq!(SessionError::Spawn("Failed to open PTY: no".to_string()).message(), "Failed to open PTY: no");
    assert_eq!(SessionError::Io("Failed to write: no".to_string()).message(), "Failed to write: no");
}

#[test]
fn creation_operations_are_told_apart() {
    assert!(Operation::OpenPty(Geometry::initial()).is_creation());
    assert!(Operation::TakeWriter.is_creation());
    assert!(Operation::CloneReader.is_creation());
    assert!(!Operation::LockWriter.is_creation());
    assert!(!Operation::Write(Vec::new()).is_creation());
    assert!(!Operation::Flush.is_creation());
    assert!(!Operation::LockMaster.is_creation());
    assert!(!Operation::Resize(Geometry::initial()).is_creation());
    assert_eq!(Operation::Flush.failure_prefix(), "Failed to flush: ");
}
