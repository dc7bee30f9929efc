use eonix::signal::sigset::Signal;
use eonix::terminal::{
    Terminal, Termios, UserTermios, UserWindowSize, ECHO, ICANON, ISIG, NCCS, NOFLSH, VEOF, VERASE,
    VINTR, VKILL,
};

fn feed(t: &mut Terminal, bytes: &[u8]) -> Vec<u8> {
    let mut out = Vec::new();
    for b in bytes {
        let e = t.commit_char(*b);
        out.extend_from_slice(&e.output);
    }
    out
}

#[test]
fn standard_settings() {
    let t = Termios::new_standard();
    assert!(t.icanon() && t.echo() && t.isig() && t.icrnl());
    assert_eq!(t.vintr(), 3);
    assert_eq!(t.verase(), 0x7f);
    assert_eq!(t.vkill(), 0x15);
    assert_eq!(t.veof(), 4);
    assert_eq!(t.vsusp(), 0x1a);
    assert_eq!(t.cc[VINTR], 3);
    assert!(!t.noflsh());
    let u = t.get_user();
    assert_eq!(Termios::from_user(&u).lflag, t.lflag);
    assert_eq!(UserWindowSize::console().row, 40);
    assert_eq!(UserWindowSize::console().col, 80);
}

#[test]
fn user_flags_are_masked() {
    let u = UserTermios { iflag: 0xffff_ffff, oflag: 0xffff, cflag: 7, lflag: 0xffff, line: 0, cc: [0; NCCS] };
    let t = Termios::from_user(&u);
    assert_eq!(t.iflag, 0x7fff);
    assert_eq!(t.oflag, 0x00ff);
    assert_eq!(t.lflag, 0xdfff);
    assert_eq!(t.cflag, 7);
}

#[test]
fn canonical_line_with_erase() {
    let mut t = Terminal::new();
    let out = feed(&mut t, b"ab");
    assert_eq!(out, b"ab".to_vec());
    assert!(!t.line_ready());
    let e = t.commit_char(0x7f);
    assert_eq!(e.output, vec![8, 32, 8]);
    let e = t.commit_char(13);
    assert!(e.notify);
    assert_eq!(e.output, vec![10]);
    assert!(t.line_ready());
    assert_eq!(t.take_read(100), b"a\n".to_vec());
    assert!(!t.line_ready());
}

#[test]
fn erase_stops_at_line_end() {
    let mut t = Terminal::new();
    feed(&mut t, b"x\n");
    let e = t.commit_char(0x7f);
    assert!(e.output.is_empty());
    assert_eq!(t.take_read(100), b"x\n".to_vec());
}

#[test]
fn interrupt_echoes_and_flushes() {
    let mut t = Terminal::new();
    feed(&mut t, b"abc");
    let e = t.commit_char(3);
    assert_eq!(e.signal, Some(Signal::sigint()));
    assert_eq!(e.output, b"^C".to_vec());
    assert!(!e.notify);
    assert!(!t.line_ready());
    assert_eq!(t.take_read(100), Vec::<u8>::new());
}

#[test]
fn noflsh_keeps_input_on_signal() {
    let mut t = Terminal::new();
    let mut s = t.get_termios();
    s.lflag |= NOFLSH;
    t.set_termios(s);
    feed(&mut t, b"ab");
    let e = t.commit_char(0x1c);
    assert_eq!(e.signal, Some(Signal::sigquit()));
    let e = t.commit_char(10);
    assert!(e.notify);
    assert_eq!(t.take_read(100), b"ab\n".to_vec());
}

#[test]
fn eof_wakes_readers_without_storing() {
    let mut t = Terminal::new();
    let e = t.commit_char(4);
    assert!(e.notify);
    assert!(e.output.is_empty());
    assert_eq!(e.signal, None);
}

#[test]
fn kill_line_with_echok() {
    let mut t = Terminal::new();
    feed(&mut t, b"hello");
    let e = t.commit_char(0x15);
    assert_eq!(e.output, vec![10]);
    feed(&mut t, b"x\n");
    assert_eq!(t.take_read(100), b"x\n".to_vec());
}

#[test]
fn raw_mode_reads_what_is_there() {
    let mut t = Terminal::new();
    let mut s = t.get_termios();
    s.lflag &= !(ICANON | ECHO | ISIG);
    t.set_termios(s);
    let e = t.commit_char(b'q');
    assert!(e.notify);
    assert!(e.output.is_empty());
    feed(&mut t, b"rs");
    assert!(t.line_ready());
    assert_eq!(t.take_read(2), b"qr".to_vec());
    assert_eq!(t.take_read(10), b"s".to_vec());
}

#[test]
fn reads_are_at_most_32_bytes() {
    let mut t = Terminal::new();
    let line = vec![b'z'; 40];
    feed(&mut t, &line);
    feed(&mut t, b"\n");
    assert_eq!(t.take_read(100).len(), 32);
    assert_eq!(t.take_read(100).len(), 9);
}

#[test]
fn control_characters_echo_as_caret() {
    let t = Terminal::new();
    let mut out = Vec::new();
    t.echo_char(1, &mut out);
    t.echo_char(b'a', &mut out);
    t.echo_char(9, &mut out);
    assert_eq!(out, vec![b'^', b'A', b'a', 9]);
    let s = t.get_termios();
    assert_eq!(s.cc[VEOF], 4);
    assert_eq!(s.cc[VERASE], 0x7f);
    assert_eq!(s.cc[VKILL], 0x15);
}

#[test]
fn clear_read_buffer_drops_input() {
    let mut t = Terminal::new();
    feed(&mut t, b"abc\n");
    t.clear_read_buffer();
    assert!(!t.line_ready());
}

#[test]
fn settings_survive_the_user_layout() {
    let t = Termios::new_standard();
    assert_eq!(Termios::from_user(&t.get_user()), t);
    let u = UserTermios { iflag: 0x1_0005, oflag: 0x105, cflag: 9, lflag: 0x2003, line: 1, cc: [7; NCCS] };
    let written = Termios::from_user(&u);
    assert_eq!(Termios::from_user(&written.get_user()), written);
    assert_eq!(written.iflag, 5);
    assert_eq!(written.oflag, 5);
    assert_eq!(written.lflag, 3);
}

#[test]
fn input_is_waiting_until_read() {
    let mut t = Terminal::new();
    assert!(!t.has_input());
    t.commit_char(b'a');
    assert!(t.has_input());
    assert!(!t.line_ready());
    t.commit_char(b'\n');
    assert!(t.line_ready());
    assert_eq!(t.take_read(100), b"a\n".to_vec());
    assert!(!t.has_input());
}
