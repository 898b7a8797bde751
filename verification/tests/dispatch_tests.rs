use session_core::dispatch::{parse, file_stem, DispatchError, LaunchPlan, RemoteKind};

fn args(list: &[&str]) -> Vec<String> {
    list.iter().map(|s| s.to_string()).collect()
}

fn expect_remote(plan: LaunchPlan) -> (RemoteKind, String, String, Vec<String>) {
    match plan {
        LaunchPlan::Remote { kind, peer_id, password, extra_args } => {
            (kind, peer_id, password, extra_args)
        }
        other => panic!("expected a remote plan, got {:?}", other),
    }
}

#[test]
fn empty_args_is_main_window() {
    assert!(matches!(parse(&args(&[])), Ok(LaunchPlan::MainWindow)));
}

#[test]
fn install_flag() {
    assert!(matches!(parse(&args(&["--install"])), Ok(LaunchPlan::Install)));
}

#[test]
fn cm_flag() {
    assert!(matches!(parse(&args(&["--cm"])), Ok(LaunchPlan::ConnectionManager)));
}

#[test]
fn connect_with_id_only() {
    let (kind, id, pass, extra) = expect_remote(parse(&args(&["--connect", "alice"])).unwrap());
    assert_eq!(kind, RemoteKind::Connect);
    assert_eq!(id, "alice");
    assert_eq!(pass, "");
    assert!(extra.is_empty());
}

#[test]
fn file_transfer_with_password_and_extras() {
    let (kind, id, pass, extra) =
        expect_remote(parse(&args(&["--file-transfer", "bob", "pw", "x", "y"])).unwrap());
    assert_eq!(kind, RemoteKind::FileTransfer);
    assert_eq!(id, "bob");
    assert_eq!(pass, "pw");
    assert_eq!(extra, args(&["x", "y"]));
}

#[test]
fn port_forward_and_rdp() {
    let (kind, id, _, _) = expect_remote(parse(&args(&["--port-forward", "carol"])).unwrap());
    assert_eq!(kind, RemoteKind::PortForward);
    assert_eq!(id, "carol");
    let (kind, id, pass, _) = expect_remote(parse(&args(&["--rdp", "dave", "secret"])).unwrap());
    assert_eq!(kind, RemoteKind::Rdp);
    assert_eq!(id, "dave");
    assert_eq!(pass, "secret");
}

#[test]
fn bogus_flag_is_unrecognized() {
    let bad = args(&["--bogus"]);
    match parse(&bad) {
        Err(DispatchError::UnrecognizedCommand(seen)) => assert_eq!(seen, bad),
        other => panic!("expected UnrecognizedCommand, got {:?}", other),
    }
}

#[test]
fn remote_flag_without_peer_is_unrecognized() {
    assert!(matches!(
        parse(&args(&["--connect"])),
        Err(DispatchError::UnrecognizedCommand(_))
    ));
    assert!(matches!(
        parse(&args(&["--play"])),
        Err(DispatchError::UnrecognizedCommand(_))
    ));
}

#[test]
fn play_is_connect_alias() {
    let played = parse(&args(&["--play", "/tmp/foo.rdp"])).unwrap();
    let connected = parse(&args(&["--connect", "foo"])).unwrap();
    let (k1, id1, p1, e1) = expect_remote(played);
    let (k2, id2, p2, e2) = expect_remote(connected);
    assert_eq!(k1, k2);
    assert_eq!(id1, id2);
    assert_eq!(p1, p2);
    assert_eq!(e1, e2);
}

#[test]
fn play_keeps_password_and_extras() {
    let (kind, id, pass, extra) =
        expect_remote(parse(&args(&["--play", "/a/b/peer.rdp", "pw", "z"])).unwrap());
    assert_eq!(kind, RemoteKind::Connect);
    assert_eq!(id, "peer");
    assert_eq!(pass, "pw");
    assert_eq!(extra, args(&["z"]));
}

#[test]
fn stem_of_plain_name() {
    assert_eq!(file_stem(&"foo.rdp".to_string()), "foo");
    assert_eq!(file_stem(&"foo".to_string()), "foo");
}

#[test]
fn stem_strips_directories() {
    assert_eq!(file_stem(&"/tmp/foo.rdp".to_string()), "foo");
    assert_eq!(file_stem(&"a/b/c.tar.gz".to_string()), "c.tar");
}

#[test]
fn stem_matches_std_path_file_stem() {
    for path in [
        "/tmp/foo.rdp",
        "a/b/c.tar.gz",
        "foo",
        "foo.rdp",
        ".hidden",
        "/tmp/.hidden",
        "name.",
        "dir/",
        "dir//",
        "dir/.",
        "..",
        ".",
        "foo/..",
        "foo/.",
        "/",
        "",
        "C:\\users\\desk\\peer.rdp",
    ] {
        let expected = std::path::Path::new(path)
            .file_stem()
            .map(|p| p.to_str().unwrap_or(""))
            .unwrap_or("");
        assert_eq!(file_stem(&path.to_string()), expected, "path {:?}", path);
    }
}

#[test]
fn stem_edge_cases() {
    assert_eq!(file_stem(&"".to_string()), "");
    assert_eq!(file_stem(&"dir/".to_string()), "dir");
    assert_eq!(file_stem(&"..".to_string()), "");
    assert_eq!(file_stem(&"foo/..".to_string()), "");
    assert_eq!(file_stem(&"foo/.".to_string()), "foo");
    assert_eq!(file_stem(&"/".to_string()), "");
    assert_eq!(file_stem(&".hidden".to_string()), ".hidden");
    assert_eq!(file_stem(&"/tmp/.hidden".to_string()), ".hidden");
    assert_eq!(file_stem(&"name.".to_string()), "name");
}

#[test]
fn play_with_no_stem_gives_empty_peer_id() {
    let (kind, id, pass, extra) = expect_remote(parse(&args(&["--play", ".."])).unwrap());
    assert_eq!(kind, RemoteKind::Connect);
    assert_eq!(id, "");
    assert_eq!(pass, "");
    assert!(extra.is_empty());
}
