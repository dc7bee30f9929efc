//! The terminal line discipline: termios settings and what happens to each
//! character typed on a terminal.
use crate::signal::sigset::{default_stops, uncatchable, Signal};
use vstd::prelude::*;

verus! {

/// Number of control characters.
pub const NCCS: usize = 19;

pub const VINTR: usize = 0;
pub const VQUIT: usize = 1;
pub const VERASE: usize = 2;
pub const VKILL: usize = 3;
pub const VEOF: usize = 4;
pub const VMIN: usize = 6;
pub const VSUSP: usize = 10;
pub const VEOL: usize = 11;
pub const VEOL2: usize = 16;

pub const IGNCR: u16 = 0x0080;
pub const INLCR: u16 = 0x0040;
pub const ICRNL: u16 = 0x0100;
pub const IXOFF: u16 = 0x1000;
/// Every input flag bit the kernel knows.
pub const IFLAG_ALL: u16 = 0x7fff;

pub const OPOST: u16 = 0x0001;
pub const ONLCR: u16 = 0x0004;
/// Every output flag bit the kernel knows.
pub const OFLAG_ALL: u16 = 0x00ff;

pub const ISIG: u16 = 0x0001;
pub const ICANON: u16 = 0x0002;
pub const ECHO: u16 = 0x0008;
pub const ECHOE: u16 = 0x0010;
pub const ECHOK: u16 = 0x0020;
pub const ECHONL: u16 = 0x0040;
pub const NOFLSH: u16 = 0x0080;
pub const ECHOCTL: u16 = 0x0200;
pub const ECHOKE: u16 = 0x0800;
pub const IEXTEN: u16 = 0x8000;
/// Every local flag bit the kernel knows.
pub const LFLAG_ALL: u16 = 0xdfff;

pub const B38400: u32 = 0x0000000f;
pub const CS8: u32 = 0x00000030;
pub const CREAD: u32 = 0x00000080;
pub const HUPCL: u32 = 0x00000400;

/// Line discipline number of the standard terminal.
pub const N_TTY: u8 = 0;

/// Terminal settings.
#[derive(Clone, Copy, PartialEq, Eq, Debug)]
pub struct Termios {
    pub iflag: u16,
    pub oflag: u16,
    pub cflag: u32,
    pub lflag: u16,
    pub line: u8,
    pub cc: [u8; NCCS],
}

/// Termios as user space reads and writes it.
#[derive(Clone, Copy, PartialEq, Eq, Debug)]
pub struct UserTermios {
    pub iflag: u32,
    pub oflag: u32,
    pub cflag: u32,
    pub lflag: u32,
    pub line: u8,
    pub cc: [u8; NCCS],
}

/// Window size as user space reads it.
#[derive(Clone, Copy, PartialEq, Eq, Structural, Debug)]
pub struct UserWindowSize {
    pub row: u16,
    pub col: u16,
    pub xpixel: u16,
    pub ypixel: u16,
}

impl UserWindowSize {
    /// The size every terminal reports: 40 rows of 80 columns.
    pub fn console() -> (r: UserWindowSize)
        ensures
            r == (UserWindowSize { row: 40, col: 80, xpixel: 0, ypixel: 0 }),
    {
        UserWindowSize { row: 40, col: 80, xpixel: 0, ypixel: 0 }
    }
}

/// Whether all bits of `flag` are set in `bits`.
pub open spec fn has16(bits: u16, flag: u16) -> bool {
    bits & flag == flag
}

/// The settings of a fresh terminal.
pub open spec fn standard_termios(r: Termios) -> bool {
    &&& r.iflag == ICRNL | IXOFF
    &&& r.oflag == OPOST | ONLCR
    &&& r.cflag == B38400 | CS8 | CREAD | HUPCL
    &&& r.lflag == ISIG | ICANON | ECHO | ECHOE | ECHOK | ECHOCTL | ECHOKE | IEXTEN
    &&& r.line == N_TTY
    &&& r.cc@ == seq![3u8, 0x1c, 0x7f, 0x15, 4, 0, 1, 0, 0, 0, 0x1a, 0, 0, 0, 0, 0, 0, 0, 0]
}

impl Termios {
    pub fn veof(&self) -> (r: u8)
        ensures
            r == self.cc@[VEOF as int],
    {
        self.cc[VEOF]
    }

    pub fn veol(&self) -> (r: u8)
        ensures
            r == self.cc@[VEOL as int],
    {
        self.cc[VEOL]
    }

    pub fn veol2(&self) -> (r: u8)
        ensures
            r == self.cc@[VEOL2 as int],
    {
        self.cc[VEOL2]
    }

    pub fn vintr(&self) -> (r: u8)
        ensures
            r == self.cc@[VINTR as int],
    {
        self.cc[VINTR]
    }

    pub fn vquit(&self) -> (r: u8)
        ensures
            r == self.cc@[VQUIT as int],
    {
        self.cc[VQUIT]
    }

    pub fn vsusp(&self) -> (r: u8)
        ensures
            r == self.cc@[VSUSP as int],
    {
        self.cc[VSUSP]
    }

    pub fn verase(&self) -> (r: u8)
        ensures
            r == self.cc@[VERASE as int],
    {
        self.cc[VERASE]
    }

    pub fn vkill(&self) -> (r: u8)
        ensures
            r == self.cc@[VKILL as int],
    {
        self.cc[VKILL]
    }

    pub fn echo(&self) -> (r: bool)
        ensures
            r == has16(self.lflag, ECHO),
    {
        self.lflag & ECHO == ECHO
    }

    pub fn echoe(&self) -> (r: bool)
        ensures
            r == has16(self.lflag, ECHOE),
    {
        self.lflag & ECHOE == ECHOE
    }

    pub fn echoctl(&self) -> (r: bool)
        ensures
            r == has16(self.lflag, ECHOCTL),
    {
        self.lflag & ECHOCTL == ECHOCTL
    }

    pub fn echoke(&self) -> (r: bool)
        ensures
            r == has16(self.lflag, ECHOKE),
    {
        self.lflag & ECHOKE == ECHOKE
    }

    pub fn echok(&self) -> (r: bool)
        ensures
            r == has16(self.lflag, ECHOK),
    {
        self.lflag & ECHOK == ECHOK
    }

    pub fn echonl(&self) -> (r: bool)
        ensures
            r == has16(self.lflag, ECHONL),
    {
        self.lflag & ECHONL == ECHONL
    }

    pub fn isig(&self) -> (r: bool)
        ensures
            r == has16(self.lflag, ISIG),
    {
        self.lflag & ISIG == ISIG
    }

    pub fn icanon(&self) -> (r: bool)
        ensures
            r == has16(self.lflag, ICANON),
    {
        self.lflag & ICANON == ICANON
    }

    pub fn iexten(&self) -> (r: bool)
        ensures
            r == has16(self.lflag, IEXTEN),
    {
        self.lflag & IEXTEN == IEXTEN
    }

    pub fn igncr(&self) -> (r: bool)
        ensures
            r == has16(self.iflag, IGNCR),
    {
        self.iflag & IGNCR == IGNCR
    }

    pub fn icrnl(&self) -> (r: bool)
        ensures
            r == has16(self.iflag, ICRNL),
    {
        self.iflag & ICRNL == ICRNL
    }

    pub fn inlcr(&self) -> (r: bool)
        ensures
            r == has16(self.iflag, INLCR),
    {
        self.iflag & INLCR == INLCR
    }

    pub fn noflsh(&self) -> (r: bool)
        ensures
            r == has16(self.lflag, NOFLSH),
    {
        self.lflag & NOFLSH == NOFLSH
    }

    /// The settings of a fresh terminal: canonical mode with echo and
    /// signals, `^C ^\ DEL ^U ^D ^Z` as control characters.
    pub fn new_standard() -> (r: Termios)
        ensures
            standard_termios(r),
    {
        let cc: [u8; NCCS] = [3, 0x1c, 0x7f, 0x15, 4, 0, 1, 0, 0, 0, 0x1a, 0, 0, 0, 0, 0, 0, 0, 0];
        let r = Termios {
            iflag: ICRNL | IXOFF,
            oflag: OPOST | ONLCR,
            cflag: B38400 | CS8 | CREAD | HUPCL,
            lflag: ISIG | ICANON | ECHO | ECHOE | ECHOK | ECHOCTL | ECHOKE | IEXTEN,
            line: N_TTY,
            cc,
        };
        assert(r.cc@ =~= seq![3u8, 0x1c, 0x7f, 0x15, 4, 0, 1, 0, 0, 0, 0x1a, 0, 0, 0, 0, 0, 0, 0, 0]);
        r
    }

    /// The settings as user space reads them.
    pub fn get_user(&self) -> (r: UserTermios)
        ensures
            r == user_of(*self),
    {
        UserTermios {
            iflag: self.iflag as u32,
            oflag: self.oflag as u32,
            cflag: self.cflag,
            lflag: self.lflag as u32,
            line: self.line,
            cc: self.cc,
        }
    }

    /// Settings written by user space; flag bits the kernel does not know
    /// are dropped.
    pub fn from_user(user: &UserTermios) -> (r: Termios)
        ensures
            r == termios_of(*user),
    {
        Termios {
            iflag: (user.iflag as u16) & IFLAG_ALL,
            oflag: (user.oflag as u16) & OFLAG_ALL,
            cflag: user.cflag,
            lflag: (user.lflag as u16) & LFLAG_ALL,
            line: user.line,
            cc: user.cc,
        }
    }
}

/// The settings as user space reads them: the flags widened.
pub open spec fn user_of(t: Termios) -> UserTermios {
    UserTermios {
        iflag: t.iflag as u32,
        oflag: t.oflag as u32,
        cflag: t.cflag,
        lflag: t.lflag as u32,
        line: t.line,
        cc: t.cc,
    }
}

/// The settings user space wrote: the flags narrowed to the known bits.
pub open spec fn termios_of(u: UserTermios) -> Termios {
    Termios {
        iflag: (u.iflag as u16) & IFLAG_ALL,
        oflag: (u.oflag as u16) & OFLAG_ALL,
        cflag: u.cflag,
        lflag: (u.lflag as u16) & LFLAG_ALL,
        line: u.line,
        cc: u.cc,
    }
}

/// Settings whose flags use only known bits.
pub open spec fn known_flags(t: Termios) -> bool {
    &&& t.iflag & IFLAG_ALL == t.iflag
    &&& t.oflag & OFLAG_ALL == t.oflag
    &&& t.lflag & LFLAG_ALL == t.lflag
}

/// Settings read by user space and written back unchanged are the same
/// settings, when their flags use only known bits.
pub proof fn law_termios_round_trip(t: Termios)
    requires
        known_flags(t),
    ensures
        termios_of(user_of(t)) == t,
{
    let i = t.iflag;
    let o = t.oflag;
    let l = t.lflag;
    assert(((i as u32) as u16) & 0x7fff == i) by (bit_vector)
        requires
            i & 0x7fff == i,
    ;
    assert(((o as u32) as u16) & 0x00ff == o) by (bit_vector)
        requires
            o & 0x00ff == o,
    ;
    assert(((l as u32) as u16) & 0xdfff == l) by (bit_vector)
        requires
            l & 0xdfff == l,
    ;
}

/// What user space writes is known-flag settings.
pub proof fn law_written_flags_are_known(u: UserTermios)
    ensures
        known_flags(termios_of(u)),
{
    let i = u.iflag as u16;
    let o = u.oflag as u16;
    let l = u.lflag as u16;
    assert((i & 0x7fff) & 0x7fff == i & 0x7fff) by (bit_vector);
    assert((o & 0x00ff) & 0x00ff == o & 0x00ff) by (bit_vector);
    assert((l & 0xdfff) & 0xdfff == l & 0xdfff) by (bit_vector);
}

/// Whether `ch` ends a line under settings `t`.
pub open spec fn is_delimiter(t: Termios, ch: u8) -> bool {
    ch == 10u8 || (t.cc@[VEOL as int] != 0 && ch == t.cc@[VEOL as int]) || (t.cc@[VEOL2 as int]
        != 0 && ch == t.cc@[VEOL2 as int])
}

/// Whether the last character of `buf` can be erased: one is there and it
/// does not end a line or the input.
pub open spec fn erasable(t: Termios, buf: Seq<u8>) -> bool {
    buf.len() > 0 && buf.last() != 10u8 && buf.last() != t.cc@[VEOF as int] && buf.last()
        != t.cc@[VEOL as int] && buf.last() != t.cc@[VEOL2 as int]
}

/// What echoing `ch` writes.
pub open spec fn echo_bytes(t: Termios, ch: u8) -> Seq<u8> {
    if ch == 9u8 || ch == 10u8 || ch == 0x11u8 || ch == 0x13u8 || ch >= 32 {
        seq![ch]
    } else if !has16(t.lflag, ECHO) || !has16(t.lflag, ECHOCTL) || !has16(t.lflag, IEXTEN) {
        seq![ch]
    } else {
        seq![94u8, (ch + 0x40) as u8]
    }
}

/// What one erase with echo writes: backspace, space, backspace.
pub open spec fn erase_echo(t: Termios, echo: bool) -> Seq<u8> {
    if echo && has16(t.lflag, ECHO) && has16(t.lflag, ECHOE) {
        seq![8u8, 32u8, 8u8]
    } else {
        Seq::empty()
    }
}

/// The buffer left and the bytes written after erasing characters one by
/// one until none can be erased.
pub open spec fn kill_line(t: Termios, buf: Seq<u8>, echo: bool) -> (Seq<u8>, Seq<u8>)
    decreases buf.len(),
{
    if erasable(t, buf) {
        let (rest, out) = kill_line(t, buf.drop_last(), echo);
        (rest, erase_echo(t, echo) + out)
    } else {
        (buf, Seq::empty())
    }
}

/// The device a terminal writes its echo and output to.
pub trait TerminalDevice {
    /// Write `data` to the device right away.
    fn write_direct(&self, data: &[u8]);

    /// Write `data` to the device.
    fn write(&self, data: &[u8]);
}

/// The effect of a character on the terminal: bytes echoed to the device,
/// a signal for the foreground process group, and whether readers are woken.
pub struct CharEffect {
    pub output: Vec<u8>,
    pub signal: Option<Signal>,
    pub notify: bool,
}

/// The effect of storing `ch` in the input buffer.
pub open spec fn store_effect(t: Termios, buf: Seq<u8>, ch: u8) -> (Seq<u8>, Seq<u8>, bool) {
    (
        buf.push(ch),
        if has16(t.lflag, ECHO) || (ch == 10u8 && has16(t.lflag, ECHONL)) {
            echo_bytes(t, ch)
        } else {
            Seq::empty()
        },
        ch == 10u8 || !has16(t.lflag, ICANON),
    )
}

/// The signal that `ch` generates under settings `t`, if any.
pub open spec fn signal_of_char(t: Termios, ch: u8) -> Option<u32> {
    if !has16(t.lflag, ISIG) || ch == 0xffu8 {
        None
    } else if ch == t.cc@[VINTR as int] {
        Some(2u32)
    } else if ch == t.cc@[VQUIT as int] {
        Some(3u32)
    } else if ch == t.cc@[VSUSP as int] {
        Some(20u32)
    } else {
        None
    }
}

/// With `ISIG` on, the three signal characters raise their signals for the
/// foreground group: interrupt raises `SIGINT` (2), quit `SIGQUIT` (3), and
/// suspend `SIGTSTP` (20), a stop signal that, unlike `SIGSTOP`, a program
/// can catch. Without `ISIG`, or for the disabled character `0xff`, no
/// character raises anything.
pub proof fn law_signal_characters(t: Termios, ch: u8)
    ensures
        !has16(t.lflag, ISIG) || ch == 0xffu8 ==> signal_of_char(t, ch) is None,
        has16(t.lflag, ISIG) && ch != 0xffu8 && ch == t.cc@[VINTR as int] ==> signal_of_char(t, ch) == Some(2u32),
        has16(t.lflag, ISIG) && ch != 0xffu8 && ch != t.cc@[VINTR as int] && ch == t.cc@[VQUIT as int]
            ==> signal_of_char(t, ch) == Some(3u32),
        has16(t.lflag, ISIG) && ch != 0xffu8 && ch != t.cc@[VINTR as int] && ch != t.cc@[VQUIT as int] && ch
            == t.cc@[VSUSP as int] ==> signal_of_char(t, ch) == Some(20u32) && default_stops(20) && !uncatchable(
            20,
        ),
        signal_of_char(t, ch) matches Some(n) ==> !uncatchable(n),
{
}

/// The input buffer and line discipline of a terminal.
pub struct Terminal {
    termio: Termios,
    buffer: Vec<u8>,
    session: Option<u32>,
}

impl Terminal {
    /// The terminal settings.
    pub closed spec fn termio(&self) -> Termios {
        self.termio
    }

    /// The terminal settings.
    pub fn get_termios(&self) -> (r: Termios)
        ensures
            r == self.termio(),
    {
        self.termio
    }

    /// Replace the terminal settings.
    pub fn set_termios(&mut self, termio: Termios)
        ensures
            final(self).session_link() == old(self).session_link(),
            final(self).termio() == termio,
            final(self).buffer() == old(self).buffer(),
    {
        self.termio = termio;
    }

    /// The characters typed and not read yet.
    pub closed spec fn buffer(&self) -> Seq<u8> {
        self.buffer@
    }

    /// The session the terminal records as its own; it counts only while
    /// that session lives.
    pub closed spec fn session_link(&self) -> Option<u32> {
        self.session
    }

    /// The session the terminal records as its own.
    pub fn session(&self) -> (r: Option<u32>)
        ensures
            r == self.session_link(),
    {
        self.session
    }

    /// Forget the terminal's session.
    pub fn drop_session(&mut self)
        ensures
            final(self).session_link() is None,
            final(self).termio() == old(self).termio(),
            final(self).buffer() == old(self).buffer(),
    {
        self.session = None;
    }

    /// Record `sid` as the terminal's session.
    pub fn link_session(&mut self, sid: u32)
        ensures
            final(self).session_link() == Some(sid),
            final(self).termio() == old(self).termio(),
            final(self).buffer() == old(self).buffer(),
    {
        self.session = Some(sid);
    }

    /// A terminal with standard settings and nothing typed.
    pub fn new() -> (r: Terminal)
        ensures
            standard_termios(r.termio()),
            r.buffer() == Seq::<u8>::empty(),
            r.session_link() is None,
    {
        Terminal { termio: Termios::new_standard(), buffer: Vec::new(), session: None }
    }

    /// Drop everything typed.
    pub fn clear_read_buffer(&mut self)
        ensures
            final(self).session_link() == old(self).session_link(),
            final(self).buffer() == Seq::<u8>::empty(),
            final(self).termio() == old(self).termio(),
    {
        self.buffer.clear();
    }

    /// What echoing `ch` writes: printable characters, tab, newline, `^Q`
    /// and `^S` as they are; other control characters as `^X` when echo,
    /// `ECHOCTL` and `IEXTEN` are on.
    pub fn echo_char(&self, ch: u8, out: &mut Vec<u8>)
        ensures
            final(out)@ == old(out)@ + echo_bytes(self.termio(), ch),
    {
        if ch == 9 || ch == 10 || ch == 0x11 || ch == 0x13 || ch >= 32 {
            out.push(ch);
        } else if !self.termio.echo() || !self.termio.echoctl() || !self.termio.iexten() {
            out.push(ch);
        } else {
            out.push(94);
            out.push(ch + 0x40);
        }
        assert(out@ =~= old(out)@ + echo_bytes(self.termio, ch));
    }

    /// Erase the last character typed unless it ends a line or the input.
    pub fn erase(&mut self, echo: bool, out: &mut Vec<u8>) -> (r: Option<u8>)
        ensures
            final(self).session_link() == old(self).session_link(),
            final(self).termio() == old(self).termio(),
            erasable(old(self).termio(), old(self).buffer()) ==> {
                &&& r == Some(old(self).buffer().last())
                &&& final(self).buffer() == old(self).buffer().drop_last()
                &&& final(out)@ == old(out)@ + erase_echo(old(self).termio(), echo)
            },
            !erasable(old(self).termio(), old(self).buffer()) ==> {
                &&& r is None
                &&& final(self).buffer() == old(self).buffer()
                &&& final(out)@ == old(out)@
            },
    {
        let len = self.buffer.len();
        if len == 0 {
            return None;
        }
        let back = self.buffer[len - 1];
        if back == 10 || back == self.termio.veof() || back == self.termio.veol() || back
            == self.termio.veol2() {
            return None;
        }
        let popped = self.buffer.pop();
        if echo && self.termio.echo() && self.termio.echoe() {
            out.push(8);
            out.push(32);
            out.push(8);
        }
        assert(out@ =~= old(out)@ + erase_echo(old(self).termio(), echo));
        popped
    }

    /// Erase characters until none can be erased.
    fn kill(&mut self, echo: bool, out: &mut Vec<u8>)
        ensures
            final(self).session_link() == old(self).session_link(),
            final(self).termio() == old(self).termio(),
            final(self).buffer() == kill_line(old(self).termio(), old(self).buffer(), echo).0,
            final(out)@ == old(out)@ + kill_line(old(self).termio(), old(self).buffer(), echo).1,
        decreases old(self).buffer().len(),
    {
        let ghost before = self.buffer@;
        let ghost out0 = out@;
        match self.erase(echo, out) {
            Some(_) => {
                let ghost mid = out@;
                self.kill(echo, out);
                assert(out@ =~= out0 + kill_line(self.termio, before, echo).1);
            },
            None => {
                assert(out@ =~= out0 + kill_line(self.termio, before, echo).1);
            },
        }
    }

    /// Store `ch`, echo it when echo is on (or it is a newline and
    /// `ECHONL` is on), and wake readers at a newline or in raw mode.
    fn do_commit_char(&mut self, ch: u8, out: &mut Vec<u8>) -> (notify: bool)
        ensures
            final(self).session_link() == old(self).session_link(),
            final(self).termio() == old(self).termio(),
            (final(self).buffer(), final(out)@.subrange(old(out)@.len() as int, final(out)@.len() as int), notify)
                == store_effect(old(self).termio(), old(self).buffer(), ch),
            final(out)@.subrange(0, old(out)@.len() as int) == old(out)@,
    {
        self.buffer.push(ch);
        let ghost o = out@;
        if self.termio.echo() || (ch == 10 && self.termio.echonl()) {
            self.echo_char(ch, out);
        }
        assert(out@.subrange(o.len() as int, out@.len() as int) =~= (if has16(self.termio.lflag, ECHO) || (ch == 10u8 && has16(self.termio.lflag, ECHONL)) {
            echo_bytes(self.termio, ch)
        } else {
            Seq::empty()
        }));
        assert(out@.subrange(0, o.len() as int) =~= o);
        ch == 10 || !self.termio.icanon()
    }

    /// Take in one typed character. With `ISIG`, the interrupt, quit and
    /// suspend characters are echoed and turned into `SIGINT`, `SIGQUIT`
    /// and `SIGTSTP` for the foreground group, flushing the input unless
    /// `NOFLSH`. In canonical mode end-of-file wakes readers, erase removes
    /// one character and kill removes the line. Otherwise carriage returns
    /// and newlines are mapped as `IGNCR`, `ICRNL` and `INLCR` say and the
    /// character is stored.
    pub fn commit_char(&mut self, ch: u8) -> (r: CharEffect)
        ensures
            final(self).session_link() == old(self).session_link(),
            final(self).termio() == old(self).termio(),
            ({
                let t = old(self).termio();
                let buf = old(self).buffer();
                match signal_of_char(t, ch) {
                    Some(n) => {
                        &&& r.signal matches Some(s) && s@ == n
                        &&& r.output@ == echo_bytes(t, ch)
                        &&& !r.notify
                        &&& final(self).buffer() == if has16(t.lflag, NOFLSH) {
                            buf
                        } else {
                            Seq::empty()
                        }
                    },
                    None => {
                        &&& r.signal is None
                        &&& if has16(t.lflag, ICANON) && ch != 0xffu8 && ch == t.cc@[VEOF as int] {
                            r.output@ == Seq::<u8>::empty() && r.notify && final(self).buffer()
                                == buf
                        } else if has16(t.lflag, ICANON) && ch != 0xffu8 && ch == t.cc@[VERASE as int] {
                            &&& !r.notify
                            &&& erasable(t, buf) ==> final(self).buffer() == buf.drop_last()
                                && r.output@ == erase_echo(t, true)
                            &&& !erasable(t, buf) ==> final(self).buffer() == buf
                                && r.output@ == Seq::<u8>::empty()
                        } else if has16(t.lflag, ICANON) && ch != 0xffu8 && ch == t.cc@[VKILL as int] {
                            &&& !r.notify
                            &&& if has16(t.lflag, ECHOK) {
                                final(self).buffer() == kill_line(t, buf, false).0 && r.output@
                                    == kill_line(t, buf, false).1.push(10u8)
                            } else if has16(t.lflag, ECHOKE) && has16(t.lflag, IEXTEN) {
                                final(self).buffer() == kill_line(t, buf, true).0 && r.output@
                                    == kill_line(t, buf, true).1
                            } else {
                                final(self).buffer() == buf && r.output@ == Seq::<u8>::empty()
                            }
                        } else {
                            let stored: u8 = if ch == 13u8 && has16(t.iflag, ICRNL) {
                                10u8
                            } else if ch == 10u8 && has16(t.iflag, INLCR) {
                                13u8
                            } else {
                                ch
                            };
                            if ch == 13u8 && has16(t.iflag, IGNCR) {
                                final(self).buffer() == buf && r.output@ == Seq::<u8>::empty()
                                    && !r.notify
                            } else {
                                (final(self).buffer(), r.output@, r.notify) == store_effect(
                                    t,
                                    buf,
                                    stored,
                                )
                            }
                        }
                    },
                }
            }),
    {
        let mut out: Vec<u8> = Vec::new();
        if self.termio.isig() && ch != 0xff {
            let sig = if ch == self.termio.vintr() {
                Some(Signal::sigint())
            } else if ch == self.termio.vquit() {
                Some(Signal::sigquit())
            } else if ch == self.termio.vsusp() {
                Some(Signal::sigtstp())
            } else {
                None
            };
            if let Some(s) = sig {
                self.echo_char(ch, &mut out);
                assert(out@ =~= echo_bytes(self.termio, ch));
                if !self.termio.noflsh() {
                    self.clear_read_buffer();
                }
                return CharEffect { output: out, signal: Some(s), notify: false };
            }
        }
        if self.termio.icanon() && ch != 0xff {
            if ch == self.termio.veof() {
                return CharEffect { output: out, signal: None, notify: true };
            } else if ch == self.termio.verase() {
                self.erase(true, &mut out);
                assert(out@ =~= Seq::<u8>::empty() + out@);
                return CharEffect { output: out, signal: None, notify: false };
            } else if ch == self.termio.vkill() {
                if self.termio.echok() {
                    self.kill(false, &mut out);
                    out.push(10);
                } else if self.termio.echoke() && self.termio.iexten() {
                    self.kill(true, &mut out);
                }
                assert(out@ =~= Seq::<u8>::empty() + out@);
                return CharEffect { output: out, signal: None, notify: false };
            }
        }
        if ch == 13 && self.termio.igncr() {
            return CharEffect { output: out, signal: None, notify: false };
        }
        let stored = if ch == 13 && self.termio.icrnl() {
            10
        } else if ch == 10 && self.termio.inlcr() {
            13
        } else {
            ch
        };
        let notify = self.do_commit_char(stored, &mut out);
        assert(out@.subrange(0, out@.len() as int) =~= out@);
        CharEffect { output: out, signal: None, notify }
    }

    /// Whether anything typed waits to be read.
    pub fn has_input(&self) -> (r: bool)
        ensures
            r == (self.buffer().len() > 0),
    {
        self.buffer.len() > 0
    }

    /// Whether a reader may return: in raw mode always, in canonical mode
    /// once a line delimiter has been typed.
    pub fn line_ready(&self) -> (r: bool)
        ensures
            r == (!has16(self.termio().lflag, ICANON) || exists|i: int|
                0 <= i < self.buffer().len() && is_delimiter(self.termio(), #[trigger] self.buffer()[i])),
    {
        if !self.termio.icanon() {
            return true;
        }
        let mut i: usize = 0;
        while i < self.buffer.len()
            invariant
                i <= self.buffer@.len(),
                forall|k: int| 0 <= k < i ==> !is_delimiter(self.termio, #[trigger] self.buffer@[k]),
            decreases self.buffer@.len() - i,
        {
            if self.is_delim(self.buffer[i]) {
                assert(is_delimiter(self.termio(), self.buffer()[i as int]));
                return true;
            }
            i = i + 1;
        }
        false
    }

    fn is_delim(&self, ch: u8) -> (r: bool)
        ensures
            r == is_delimiter(self.termio(), ch),
    {
        ch == 10 || (self.termio.veol() != 0 && ch == self.termio.veol()) || (self.termio.veol2()
            != 0 && ch == self.termio.veol2())
    }

    /// Take what one read returns when `available` bytes fit in the
    /// reader's buffer: in canonical mode the input up to and including the
    /// first delimiter (all of it if none), in raw mode as much as fits; in
    /// either case at most 32 bytes.
    pub fn take_read(&mut self, available: usize) -> (r: Vec<u8>)
        ensures
            final(self).session_link() == old(self).session_link(),
            final(self).termio() == old(self).termio(),
            old(self).buffer() == r@ + final(self).buffer(),
            r@.len() == read_len(old(self).termio(), old(self).buffer(), available as int),
    {
        let len = if self.termio.icanon() {
            let mut i: usize = 0;
            while i < self.buffer.len() && !self.is_delim(self.buffer[i])
                invariant
                    i <= self.buffer@.len(),
                    forall|k: int| 0 <= k < i ==> !is_delimiter(self.termio, #[trigger] self.buffer@[k]),
                decreases self.buffer@.len() - i,
            {
                i = i + 1;
            }
            let found: Option<usize> = if i < self.buffer.len() {
                Some(i)
            } else {
                None
            };
            proof {
                if found is None {
                    lemma_first_delimiter_none(self.termio, self.buffer@);
                } else {
                    lemma_first_delimiter_some(self.termio, self.buffer@, i as int);
                }
            }
            match found {
                Some(pos) => pos + 1,
                None => self.buffer.len(),
            }
        } else {
            if available < self.buffer.len() {
                available
            } else {
                self.buffer.len()
            }
        };
        let len = if len < 32 {
            len
        } else {
            32
        };
        let mut taken: Vec<u8> = Vec::new();
        let mut rest: Vec<u8> = Vec::new();
        let mut i: usize = 0;
        while i < self.buffer.len()
            invariant
                len <= self.buffer@.len(),
                i <= self.buffer@.len(),
                taken@ == self.buffer@.subrange(0, if i < len {
                    i as int
                } else {
                    len as int
                }),
                rest@ == if i < len {
                    Seq::<u8>::empty()
                } else {
                    self.buffer@.subrange(len as int, i as int)
                },
            decreases self.buffer@.len() - i,
        {
            if i < len {
                taken.push(self.buffer[i]);
            } else {
                rest.push(self.buffer[i]);
            }
            i = i + 1;
        }
        let ghost before = self.buffer@;
        self.buffer = rest;
        assert(before =~= taken@ + self.buffer@);
        taken
    }
}

/// Index of the first delimiter of `buf`.
pub open spec fn first_delimiter(t: Termios, buf: Seq<u8>) -> Option<int>
    decreases buf.len(),
{
    if buf.len() == 0 {
        None
    } else if is_delimiter(t, buf[0]) {
        Some(0)
    } else {
        match first_delimiter(t, buf.drop_first()) {
            Some(i) => Some(i + 1),
            None => None,
        }
    }
}

/// How many bytes a read takes.
pub open spec fn read_len(t: Termios, buf: Seq<u8>, available: int) -> int {
    let n = if has16(t.lflag, ICANON) {
        match first_delimiter(t, buf) {
            Some(i) => i + 1,
            None => buf.len() as int,
        }
    } else if available < buf.len() {
        available
    } else {
        buf.len() as int
    };
    if n < 32 {
        n
    } else {
        32
    }
}

proof fn lemma_first_delimiter_none(t: Termios, buf: Seq<u8>)
    requires
        forall|k: int| 0 <= k < buf.len() ==> !is_delimiter(t, #[trigger] buf[k]),
    ensures
        first_delimiter(t, buf) is None,
    decreases buf.len(),
{
    if buf.len() > 0 {
        assert(!is_delimiter(t, buf[0]));
        assert forall|k: int| 0 <= k < buf.drop_first().len() implies !is_delimiter(
            t,
            #[trigger] buf.drop_first()[k],
        ) by {
            assert(buf.drop_first()[k] == buf[k + 1]);
        }
        lemma_first_delimiter_none(t, buf.drop_first());
    }
}

proof fn lemma_first_delimiter_some(t: Termios, buf: Seq<u8>, i: int)
    requires
        0 <= i < buf.len(),
        is_delimiter(t, buf[i]),
        forall|k: int| 0 <= k < i ==> !is_delimiter(t, #[trigger] buf[k]),
    ensures
        first_delimiter(t, buf) == Some(i),
    decreases i,
{
    if i > 0 {
        assert(!is_delimiter(t, buf[0]));
        assert forall|k: int| 0 <= k < i - 1 implies !is_delimiter(t, #[trigger] buf.drop_first()[k]) by {
            assert(buf.drop_first()[k] == buf[k + 1]);
        }
        assert(buf.drop_first()[i - 1] == buf[i]);
        lemma_first_delimiter_some(t, buf.drop_first(), i - 1);
    }
}

} // verus!
