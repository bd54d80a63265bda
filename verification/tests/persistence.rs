use lib_poki_launcher::persistence::{load_plan, save_plan, step_failed, AppDBError, IoStep};

#[test]
fn save_plans() {
    assert_eq!(
        save_plan(true, true),
        vec![IoStep::LockExclusive, IoStep::Truncate, IoStep::WriteAll, IoStep::Unlock]
    );
    assert_eq!(save_plan(true, false), vec![IoStep::CreateFile, IoStep::WriteAll]);
    assert_eq!(
        save_plan(false, false),
        vec![IoStep::CreateDir, IoStep::CreateFile, IoStep::WriteAll]
    );
    assert_eq!(
        save_plan(false, true),
        vec![
            IoStep::CreateDir,
            IoStep::LockExclusive,
            IoStep::Truncate,
            IoStep::WriteAll,
            IoStep::Unlock,
        ]
    );
}

#[test]
fn load_plan_reads_under_shared_lock() {
    assert_eq!(load_plan(), vec![IoStep::LockShared, IoStep::Decode, IoStep::Unlock]);
}

#[test]
fn failed_steps_give_their_errors() {
    let e = |step| step_failed(step, "/data", "/data/apps.db", "why".to_owned());
    assert!(matches!(e(IoStep::CreateDir), AppDBError::DirCreate { dir_path, err } if dir_path == "/data" && err == "why"));
    assert!(matches!(e(IoStep::LockExclusive), AppDBError::FileOpen { file_path, err } if file_path == "/data/apps.db" && err == "why"));
    assert!(matches!(e(IoStep::LockShared), AppDBError::FileOpen { file_path, .. } if file_path == "/data/apps.db"));
    assert!(matches!(e(IoStep::CreateFile), AppDBError::FileCreate { file_path, .. } if file_path == "/data/apps.db"));
    assert!(matches!(e(IoStep::WriteAll), AppDBError::FileWrite { file_path, .. } if file_path == "/data/apps.db"));
    assert!(matches!(e(IoStep::Truncate), AppDBError::FileWrite { file_path, err } if file_path == "/data/apps.db" && err == "why"));
    assert!(matches!(e(IoStep::Decode), AppDBError::ParseDB { file_path, err } if file_path == "/data/apps.db" && err == "why"));
}
