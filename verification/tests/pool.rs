use lib_poki_launcher::pool::CreatePoolError;
use nix::errno::Errno;

#[test]
fn pool_error_texts() {
    assert_eq!(
        CreatePoolError::MissingShmGlobal.to_string(),
        "wl_shm global is not bound"
    );
    assert_eq!(
        CreatePoolError::Protocol("invalid id".to_owned()).to_string(),
        "invalid id"
    );
    assert_eq!(
        CreatePoolError::Create("out of memory".to_owned()).to_string(),
        "out of memory"
    );
}

#[test]
fn pool_error_from_system_error() {
    match CreatePoolError::from(Errno::ENOENT) {
        CreatePoolError::Create(text) => {
            assert!(text.contains("os error 2"), "{}", text);
        }
        other => panic!("unexpected error {:?}", other),
    }
    let converted: CreatePoolError = Errno::ENOMEM.into();
    assert!(matches!(converted, CreatePoolError::Create(text) if text.contains("os error 12")));
}
