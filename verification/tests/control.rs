use gamescope_idle::control::{as_line, read_reply, socket_path, Command, State};

#[test]
fn commands_are_read_off_a_line() {
    assert_eq!(Command::parse("blank"), Some(Command::Blank));
    assert_eq!(Command::parse("wake\n"), Some(Command::Wake));
    assert_eq!(Command::parse(" \tstatus \r\n"), Some(Command::Status));
    assert_eq!(Command::parse("\u{3000}wake\u{2028}"), Some(Command::Wake));
}

#[test]
fn other_lines_hold_no_command() {
    for s in ["", "\n", "Blank", "blank now", "bla nk", "status\0", "wakeup", "blankblank"] {
        assert_eq!(Command::parse(s), None, "{s:?}");
    }
}

#[test]
fn requests_come_back_as_their_command() {
    for c in [Command::Blank, Command::Wake, Command::Status] {
        assert_eq!(Command::parse(&as_line(c.as_str())), Some(c));
    }
    assert_eq!(Command::Blank.as_str(), "blank");
    assert_eq!(Command::Wake.as_str(), "wake");
    assert_eq!(Command::Status.as_str(), "status");
    assert_eq!(as_line("status"), "status\n");
}

#[test]
fn replies_are_printed_as_given() {
    for s in [State::Active, State::Dim, State::Black] {
        assert_eq!(read_reply(&as_line(&s.to_string())), s.to_string());
    }
    assert_eq!(State::Active.to_string(), "active");
    assert_eq!(State::Dim.to_string(), "dim");
    assert_eq!(State::Black.to_string(), "black");
    assert_eq!(read_reply("error: unknown command\n"), "error: unknown command");
    assert_eq!(read_reply(" ok \r\n"), " ok");
    assert_eq!(read_reply(""), "");
}

#[test]
fn the_socket_is_in_the_runtime_directory() {
    assert_eq!(
        socket_path(Some(b"/run/user/1000".to_vec())),
        b"/run/user/1000/gamescope-idle.sock".to_vec()
    );
    assert_eq!(socket_path(Some(b"/run/".to_vec())), b"/run/gamescope-idle.sock".to_vec());
    assert_eq!(socket_path(Some(Vec::new())), b"gamescope-idle.sock".to_vec());
    assert_eq!(socket_path(Some(vec![0x2f, 0xff])), b"/\xff/gamescope-idle.sock".to_vec());
    assert_eq!(socket_path(None), b"/tmp/gamescope-idle.sock".to_vec());
}

#[test]
fn joining_is_path_joining() {
    for dir in ["", "/", "a", "a/", "/run/user/1000", "/run//", "."] {
        let expected = std::path::Path::new(dir).join("gamescope-idle.sock");
        let got = socket_path(Some(dir.as_bytes().to_vec()));
        assert_eq!(String::from_utf8(got).unwrap(), expected.to_str().unwrap(), "{dir:?}");
    }
}
