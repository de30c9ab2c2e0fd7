use rv6::tty::{LFlags, Tty};

fn feed(tty: &mut Tty, bytes: &[u8]) -> (Vec<u8>, bool) {
    let mut echo = Vec::new();
    let mut woke = false;
    for &b in bytes {
        let (e, w) = tty.receive_byte(b);
        echo.extend(e);
        woke |= w;
    }
    (echo, woke)
}

#[test]
fn tty_defaults() {
    let tty = Tty::new();
    let t = tty.termios();
    assert!(t.lflag.contains(LFlags::ICANON));
    assert!(t.lflag.contains(LFlags::ECHO));
    assert_eq!(t.verase, 0x7f);
    assert_eq!(t.veof, 0x04);
}

#[test]
fn canonical_line_is_delivered_on_newline() {
    let mut tty = Tty::new();
    let (echo, woke) = feed(&mut tty, b"hi");
    assert_eq!(echo, b"hi");
    assert!(!woke);
    assert_eq!(tty.read(10), None);
    let (_, woke) = feed(&mut tty, b"\r");
    assert!(woke);
    assert_eq!(tty.read(10), Some(b"hi\n".to_vec()));
}

#[test]
fn erase_and_kill_edit_the_line() {
    let mut tty = Tty::new();
    let (echo, _) = feed(&mut tty, b"ab\x7f");
    assert_eq!(echo, b"ab\x08 \x08");
    feed(&mut tty, b"xyz\x15q\n");
    assert_eq!(tty.read(10), Some(b"q\n".to_vec()));
}

#[test]
fn canonical_read_stops_at_line_end() {
    let mut tty = Tty::new();
    feed(&mut tty, b"one\ntwo\n");
    assert_eq!(tty.read(100), Some(b"one\n".to_vec()));
    assert_eq!(tty.read(2), Some(b"tw".to_vec()));
    assert_eq!(tty.read(100), Some(b"o\n".to_vec()));
    assert_eq!(tty.read(100), None);
}

#[test]
fn eof_on_empty_line_reads_as_end_of_file() {
    let mut tty = Tty::new();
    let (_, woke) = feed(&mut tty, b"\x04");
    assert!(woke);
    assert_eq!(tty.read(10), Some(Vec::new()));
    assert_eq!(tty.read(10), None);
    feed(&mut tty, b"ab\x04");
    assert_eq!(tty.read(10), Some(b"ab".to_vec()));
}

#[test]
fn output_translates_newlines() {
    let tty = Tty::new();
    assert_eq!(tty.write(b"a\nb"), b"a\r\nb".to_vec());
}

#[test]
fn ready_queue_is_capped_across_lines() {
    let mut tty = Tty::new();
    for _ in 0..3 {
        for _ in 0..200 {
            tty.receive_byte(b'a');
        }
        tty.receive_byte(b'\n');
    }
    let mut lens = Vec::new();
    while let Some(chunk) = tty.read(1024) {
        assert!(!chunk.is_empty());
        lens.push(chunk.len());
    }
    assert_eq!(lens, vec![201, 201, 110]);
}
