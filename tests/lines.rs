use runall::{plan, Args, LineBuffer};

#[test]
fn complete_lines_are_labelled() {
    let mut buf = LineBuffer::new();
    let out = buf.feed("[cmd-1]", b"hi\nthere\n");
    assert_eq!(out, vec![b"[cmd-1] hi\n".to_vec(), b"[cmd-1] there\n".to_vec()]);
}

#[test]
fn partial_line_waits_for_its_end() {
    let mut buf = LineBuffer::new();
    assert!(buf.feed("[a]", b"hel").is_empty());
    assert!(buf.feed("[a]", b"lo").is_empty());
    let out = buf.feed("[a]", b" world\nnext");
    assert_eq!(out, vec![b"[a] hello world\n".to_vec()]);
    let out = buf.feed("[a]", b"\n");
    assert_eq!(out, vec![b"[a] next\n".to_vec()]);
}

#[test]
fn unterminated_tail_is_never_written() {
    let mut buf = LineBuffer::new();
    assert!(buf.feed("[a]", b"no newline").is_empty());
    assert!(buf.feed("[a]", b"").is_empty());
}

#[test]
fn empty_lines_and_trailing_whitespace_are_kept() {
    let mut buf = LineBuffer::new();
    let out = buf.feed("[b] ", b"\nx  \r\n");
    assert_eq!(out, vec![b"[b]  \n".to_vec(), b"[b]  x  \r\n".to_vec()]);
}

#[test]
fn echo_scenario_output() {
    let args = Args {
        names: None,
        commands: vec!["echo hi".to_string(), "echo bye".to_string()],
    };
    let launches = plan(args).unwrap();
    let mut first = LineBuffer::new();
    let mut second = LineBuffer::new();
    let a = first.feed(&launches[0].prefix, b"hi\n");
    let b = second.feed(&launches[1].prefix, b"bye\n");
    assert_eq!(a, vec![b"[cmd-1] hi\n".to_vec()]);
    assert_eq!(b, vec![b"[cmd-2] bye\n".to_vec()]);
}
