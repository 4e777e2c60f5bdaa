use rakukan::rpc::pipe_name_for_user;

#[test]
fn pipe_name_per_user() {
    assert_eq!(pipe_name_for_user("n_fuk"), "\\\\.\\pipe\\rakukan-engine-n_fuk");
    assert_eq!(pipe_name_for_user("n.fuk"), "\\\\.\\pipe\\rakukan-engine-n_fuk");
    assert_eq!(pipe_name_for_user("\u{7530}\u{4E2D} a-b"), "\\\\.\\pipe\\rakukan-engine-___a-b");
    assert_eq!(pipe_name_for_user(""), "\\\\.\\pipe\\rakukan-engine-");
}
