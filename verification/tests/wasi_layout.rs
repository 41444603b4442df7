use wasm_runtime::wasi::{args_layout, args_sizes, check_fd, environ_layout, environ_sizes, Errno};

#[test]
fn file_descriptors_are_checked() {
    assert_eq!(check_fd(3, 0), Ok(()));
    assert_eq!(check_fd(3, 2), Ok(()));
    assert_eq!(check_fd(3, 3), Err(Errno::Badf));
    assert_eq!(check_fd(3, -1), Err(Errno::Badf));
}

#[test]
fn arguments_are_zero_terminated_one_after_the_other() {
    let args = vec![b"prog".to_vec(), b"".to_vec(), b"-x".to_vec()];
    assert_eq!(args_sizes(&args), (3, 9));
    let (heads, buf) = args_layout(&args, 100);
    assert_eq!(heads, vec![100, 105, 106]);
    assert_eq!(buf, b"prog\0\0-x\0".to_vec());
    assert_eq!(args_sizes(&vec![]), (0, 0));
}

#[test]
fn environment_entries_join_key_and_value() {
    let env = vec![
        (b"HOME".to_vec(), b"/root".to_vec()),
        (b"A".to_vec(), b"".to_vec()),
    ];
    assert_eq!(environ_sizes(&env), (2, 14));
    let (offsets, buf) = environ_layout(&env);
    assert_eq!(offsets, vec![0, 11]);
    assert_eq!(buf, b"HOME=/root\0A=\0".to_vec());
}
