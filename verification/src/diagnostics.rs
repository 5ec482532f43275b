//! Lines of the event journal, built without allocation limits of their own: a line never
//! exceeds its fixed buffer.
use crate::game_build::Build;
use crate::text;
use crate::text::{push_decimal, push_hex};
use vstd::prelude::*;

verus! {

pub const LINE_LIMIT: usize = 512;

/// A journal line under construction.
pub struct Line {
    pub bytes: [u8; 512],
    pub len: usize,
}

impl Line {
    pub open spec fn wf(self) -> bool {
        self.len <= 512
    }

    /// What was written so far.
    pub open spec fn written(self) -> Seq<u8> {
        self.bytes@.take(self.len as int)
    }

    pub fn new() -> (r: Self)
        ensures
            r.wf(),
            r.written() == Seq::<u8>::empty(),
    {
        let r = Line { bytes: [0u8; 512], len: 0 };
        assert(r.written() =~= Seq::<u8>::empty());
        r
    }

    /// Appends as much of `text` as fits and says whether all of it did.
    pub fn write_str(&mut self, text: &str) -> (whole: bool)
        requires
            old(self).wf(),
        ensures
            final(self).wf(),
            whole == (old(self).len + text::utf8(text@).len() <= 512),
            final(self).written() == cut(old(self).written() + text::utf8(text@)),
    {
        let source: &[u8] = text.as_bytes();
        let room: usize = 512 - self.len;
        let count: usize = if source.len() < room {
            source.len()
        } else {
            room
        };
        let start: usize = self.len;
        let mut i: usize = 0;
        while i < count
            invariant
                i <= count <= source@.len(),
                start + count <= 512,
                start == old(self).len,
                self.len == start,
                forall|k: int| 0 <= k < start ==> self.bytes@[k] == old(self).bytes@[k],
                forall|k: int| 0 <= k < i ==> self.bytes@[start + k] == source@[k],
            decreases count - i,
        {
            self.bytes[start + i] = source[i];
            i = i + 1;
        }
        self.len = start + count;
        assert(self.written() =~= cut(old(self).written() + text::utf8(text@))) by {
            assert forall|k: int| 0 <= k < self.len implies self.written()[k] == cut(
                old(self).written() + text::utf8(text@),
            )[k] by {
                if k >= start {
                    assert(self.bytes@[start + (k - start)] == source@[k - start]);
                }
            }
        }
        count == source.len()
    }
}

/// What fits into a line.
pub open spec fn cut(s: Seq<u8>) -> Seq<u8> {
    if s.len() > 512 {
        s.take(512)
    } else {
        s
    }
}

/// A point in time as the journal writes it.
#[derive(Clone, Copy, Debug, PartialEq, Eq, Structural)]
pub struct Utc {
    pub year: u16,
    pub month: u16,
    pub day: u16,
    pub hour: u16,
    pub minute: u16,
    pub second: u16,
}

/// A number with at least `width` digits.
pub open spec fn padded(n: nat, width: nat) -> Seq<char> {
    let digits = text::decimal(n);
    Seq::new(
        if digits.len() < width {
            (width - digits.len()) as nat
        } else {
            0
        },
        |i: int| '0',
    ) + digits
}

pub open spec fn utc_text(t: Utc) -> Seq<char> {
    padded(t.year as nat, 4) + "-"@ + padded(t.month as nat, 2) + "-"@ + padded(t.day as nat, 2)
        + "T"@ + padded(t.hour as nat, 2) + ":"@ + padded(t.minute as nat, 2) + ":"@ + padded(
        t.second as nat,
        2,
    ) + "Z"@
}

fn digits_in(n: u16) -> (r: usize)
    ensures
        r == text::decimal(n as nat).len(),
{
    proof {
        reveal_with_fuel(text::decimal, 5);
    }
    if n < 10 {
        1
    } else if n < 100 {
        2
    } else if n < 1000 {
        3
    } else if n < 10000 {
        4
    } else {
        5
    }
}

fn push_padded(out: &mut String, n: u16, width: usize)
    ensures
        final(out)@ == old(out)@ + padded(n as nat, width as nat),
{
    let have: usize = digits_in(n);
    let missing: usize = if have < width {
        width - have
    } else {
        0
    };
    let mut i: usize = 0;
    assert(old(out)@ + Seq::new(0, |i: int| '0') =~= old(out)@);
    while i < missing
        invariant
            i <= missing,
            out@ == old(out)@ + Seq::new(i as nat, |i: int| '0'),
        decreases missing - i,
    {
        out.push('0');
        assert(out@ =~= old(out)@ + Seq::new((i + 1) as nat, |i: int| '0'));
        i = i + 1;
    }
    push_decimal(out, n as u64);
    assert(out@ =~= old(out)@ + padded(n as nat, width as nat));
}

fn utc_string(t: &Utc) -> (r: String)
    ensures
        r@ == utc_text(*t),
{
    proof {
        reveal_strlit("");
    }
    let mut out = "".to_owned();
    push_padded(&mut out, t.year, 4);
    assert(out@ =~= padded(t.year as nat, 4));
    out.append("-");
    push_padded(&mut out, t.month, 2);
    out.append("-");
    push_padded(&mut out, t.day, 2);
    out.append("T");
    push_padded(&mut out, t.hour, 2);
    out.append(":");
    push_padded(&mut out, t.minute, 2);
    out.append(":");
    push_padded(&mut out, t.second, 2);
    out.append("Z");
    out
}

/// The whole text of a journal line, before it is cut.
pub open spec fn event_text(tick: u64, utc: Utc, thread: u32, message: Seq<char>) -> Seq<char> {
    "tick="@ + text::decimal(tick as nat) + " utc="@ + utc_text(utc) + " thread="@ + text::decimal(
        thread as nat,
    ) + " "@ + message + "\n"@
}

/// The bytes of a journal line.
pub fn event_line(tick: u64, utc: Utc, thread: u32, message: &str) -> (r: Line)
    ensures
        r.wf(),
        r.written() == cut(text::utf8(event_text(tick, utc, thread, message@))),
{
    let mut out = "tick=".to_owned();
    push_decimal(&mut out, tick);
    out.append(" utc=");
    out.append(utc_string(&utc).as_str());
    out.append(" thread=");
    push_decimal(&mut out, thread as u64);
    out.append(" ");
    out.append(message);
    out.append("\n");
    let mut line: Line = Line::new();
    let _ = line.write_str(out.as_str());
    assert(Seq::<u8>::empty() + text::utf8(out@) =~= text::utf8(out@));
    line
}

pub open spec fn build_name(build: Build) -> Seq<char> {
    match build {
        Build::Unknown => "Unknown"@,
        Build::February2026 => "February2026"@,
        Build::September2026 => "September2026"@,
    }
}

pub open spec fn flag_name(flag: bool) -> Seq<char> {
    if flag {
        "true"@
    } else {
        "false"@
    }
}

pub fn build_text(build: Build) -> (r: &'static str)
    ensures
        r@ == build_name(build),
{
    match build {
        Build::Unknown => "Unknown",
        Build::February2026 => "February2026",
        Build::September2026 => "September2026",
    }
}

pub fn flag_text(flag: bool) -> (r: &'static str)
    ensures
        r@ == flag_name(flag),
{
    if flag {
        "true"
    } else {
        "false"
    }
}

/// The message that starts a session in the journal.
pub fn session_start(build: Build, debug: bool) -> (r: String)
    ensures
        r@ == "session-start hang_tracking=v1 lobby_reader=validated-v2 network_guard=control-v2 connectionless_reader=observe-v1 friend_retry=backoff-v1 game="@ + build_name(build)
            + " debug_assertions="@ + flag_name(debug),
{
    let mut out = "session-start hang_tracking=v1 lobby_reader=validated-v2 network_guard=control-v2 connectionless_reader=observe-v1 friend_retry=backoff-v1 game=".to_owned();
    out.append(build_text(build));
    out.append(" debug_assertions=");
    out.append(flag_text(debug));
    out
}

/// The message before a crash is logged.
pub fn crash_event(code: u32, flags: u32, address: u64, rip: u64, rcx: u64, base: u64) -> (r:
    String)
    ensures
        r@ == "unhandled-exception code=0x"@ + text::hex(code as nat) + " flags=0x"@ + text::hex(
            flags as nat,
        ) + " address=0x"@ + text::hex(address as nat) + " rip=0x"@ + text::hex(rip as nat)
            + " rcx=0x"@ + text::hex(rcx as nat) + " game_base=0x"@ + text::hex(base as nat),
{
    let mut out = "unhandled-exception code=0x".to_owned();
    push_hex(&mut out, code as u64);
    out.append(" flags=0x");
    push_hex(&mut out, flags as u64);
    out.append(" address=0x");
    push_hex(&mut out, address);
    out.append(" rip=0x");
    push_hex(&mut out, rip);
    out.append(" rcx=0x");
    push_hex(&mut out, rcx);
    out.append(" game_base=0x");
    push_hex(&mut out, base);
    out
}

/// The name of the journal.
pub open spec fn journal_name_of(beside: bool, pid: u32) -> Seq<char> {
    if beside {
        "t7patch-events.log"@
    } else {
        "t7patch-events-"@ + text::decimal(pid as nat) + ".log"@
    }
}

/// The name of the journal: beside the configuration, or one of its own among the temporary
/// files.
pub fn journal_name(beside: bool, pid: u32) -> (r: String)
    ensures
        r@ == journal_name_of(beside, pid),
{
    if beside {
        return "t7patch-events.log".to_owned();
    }
    let mut out = "t7patch-events-".to_owned();
    push_decimal(&mut out, pid as u64);
    out.append(".log");
    out
}

/// The name of the crash log, in the directory of the journal.
pub open spec fn crash_name_of(beside: bool, pid: u32) -> Seq<char> {
    if beside {
        "crashes.log"@
    } else {
        "t7patch-crashes-"@ + text::decimal(pid as nat) + ".log"@
    }
}

pub fn crash_name(beside: bool, pid: u32) -> (r: String)
    ensures
        r@ == crash_name_of(beside, pid),
{
    if beside {
        return "crashes.log".to_owned();
    }
    let mut out = "t7patch-crashes-".to_owned();
    push_decimal(&mut out, pid as u64);
    out.append(".log");
    out
}

/// Where a crash is written down.
pub open spec fn crash_path_of(opened: &Option<String>) -> Seq<char> {
    match opened {
        Some(path) => path@,
        None => "crashes.log"@,
    }
}

/// Where crashes are logged: where the journal was opened, else where the game runs.
pub fn crash_path(opened: &Option<String>) -> (r: String)
    ensures
        r@ == crash_path_of(opened),
{
    match opened {
        Some(path) => path.clone(),
        None => "crashes.log".to_owned(),
    }
}

/// What goes to the debugger: the message without NULs, marked and on a line of its own.
pub open spec fn without_nul(s: Seq<char>) -> Seq<char>
    decreases s.len(),
{
    if s.len() == 0 {
        seq![]
    } else if s.last() == '\0' {
        without_nul(s.drop_last())
    } else {
        without_nul(s.drop_last()).push(s.last())
    }
}

pub fn debug_text(message: &str) -> (r: String)
    ensures
        r@ == "T7 Patch Rust: "@ + without_nul(message@) + "\n"@,
{
    let mut out = "T7 Patch Rust: ".to_owned();
    let ghost head = out@;
    assert(head + without_nul(message@.take(0)) =~= head);
    for c in it: message.chars()
        invariant
            it.seq() == message@,
            out@ == head + without_nul(message@.take(it.index() as int)),
    {
        let ghost i = it.index() as int;
        assert(message@.take(i + 1).drop_last() =~= message@.take(i));
        if c != '\0' {
            out.push(c);
        }
        assert(out@ =~= head + without_nul(message@.take(i + 1)));
    }
    assert(message@.take(message@.len() as int) =~= message@);
    out.append("\n");
    out
}

/// The last `width` hexadecimal digits of `n`.
pub open spec fn hex_fixed(n: nat, width: nat) -> Seq<char>
    decreases width,
{
    if width == 0 {
        Seq::empty()
    } else {
        hex_fixed(n / 16, (width - 1) as nat).push(text::digit_char((n % 16) as int))
    }
}

fn push_hex_fixed(out: &mut String, n: u64, width: u32)
    ensures
        final(out)@ == old(out)@ + hex_fixed(n as nat, width as nat),
    decreases width,
{
    if width > 0 {
        push_hex_fixed(out, n / 16, width - 1);
        out.push(text::digit((n % 16) as u8));
    }
    assert(out@ =~= old(out)@ + hex_fixed(n as nat, width as nat));
}

/// What is known of a crash besides the registers. `time` and `module` are as the system writes
/// them.
pub struct Crash {
    pub time: String,
    pub thread: u32,
    pub code: u32,
    pub base: u64,
    pub module: String,
    pub module_base: u64,
    pub address: u64,
}

pub open spec fn crash_head(c: Crash) -> Seq<char> {
    "\nCrash "@ + c.time@ + ", thread "@ + text::decimal(c.thread as nat) + ", code 0x"@
        + text::hex(c.code as nat) + "\nGame: 0x"@ + text::hex(c.base as nat) + ", module: "@
        + c.module@ + " (0x"@ + text::hex(c.module_base as nat) + "), address: 0x"@ + text::hex(
        c.address as nat,
    ) + "\n"@
}

/// The registers that a crash log lists, in order.
pub open spec fn register_name(i: int) -> Seq<char> {
    if i == 0 {
        "RIP"@
    } else if i == 1 {
        "RSP"@
    } else if i == 2 {
        "RBP"@
    } else if i == 3 {
        "RAX"@
    } else if i == 4 {
        "RBX"@
    } else if i == 5 {
        "RCX"@
    } else if i == 6 {
        "RDX"@
    } else if i == 7 {
        "RSI"@
    } else if i == 8 {
        "RDI"@
    } else if i == 9 {
        "R8"@
    } else if i == 10 {
        "R9"@
    } else if i == 11 {
        "R10"@
    } else if i == 12 {
        "R11"@
    } else if i == 13 {
        "R12"@
    } else if i == 14 {
        "R13"@
    } else if i == 15 {
        "R14"@
    } else if i == 16 {
        "R15"@
    } else if i == 17 {
        "DR0"@
    } else if i == 18 {
        "DR1"@
    } else if i == 19 {
        "DR2"@
    } else if i == 20 {
        "DR3"@
    } else {
        "DR7"@
    }
}

fn register(i: usize) -> (r: &'static str)
    ensures
        r@ == register_name(i as int),
{
    match i {
        0 => "RIP",
        1 => "RSP",
        2 => "RBP",
        3 => "RAX",
        4 => "RBX",
        5 => "RCX",
        6 => "RDX",
        7 => "RSI",
        8 => "RDI",
        9 => "R8",
        10 => "R9",
        11 => "R10",
        12 => "R11",
        13 => "R12",
        14 => "R13",
        15 => "R14",
        16 => "R15",
        17 => "DR0",
        18 => "DR1",
        19 => "DR2",
        20 => "DR3",
        _ => "DR7",
    }
}

/// A number as `0x` and sixteen digits.
pub open spec fn word(n: u64) -> Seq<char> {
    "0x"@ + hex_fixed(n as nat, 16)
}

/// The lines of the first `n` registers.
pub open spec fn register_lines(values: Seq<u64>, n: int) -> Seq<char>
    decreases n,
{
    if n <= 0 {
        Seq::empty()
    } else {
        register_lines(values, n - 1) + (register_name(n - 1) + ": "@ + word(values[n - 1])
            + "\n"@)
    }
}

/// The lines of the first `n` pairs of words on the stack, which starts at `top`.
pub open spec fn stack_lines(stack: Seq<(u64, u64)>, top: u64, n: int) -> Seq<char>
    decreases n,
{
    if n <= 0 {
        Seq::empty()
    } else {
        stack_lines(stack, top, n - 1) + stack_line((top + 16 * (n - 1)) as u64, stack[n - 1])
    }
}

pub open spec fn stack_line(at: u64, words: (u64, u64)) -> Seq<char> {
    "["@ + word(at) + "] "@ + word(words.0) + " "@ + word(words.1) + "\n"@
}

fn stack_text(at: u64, words: (u64, u64)) -> (r: String)
    ensures
        r@ == stack_line(at, words),
{
    let mut out = "[".to_owned();
    out.append(word_text(at).as_str());
    out.append("] ");
    out.append(word_text(words.0).as_str());
    out.append(" ");
    out.append(word_text(words.1).as_str());
    out.append("\n");
    out
}

fn register_text(i: usize, value: u64) -> (r: String)
    ensures
        r@ == register_name(i as int) + ": "@ + word(value) + "\n"@,
{
    let mut out = register(i).to_owned();
    out.append(": ");
    out.append(word_text(value).as_str());
    out.append("\n");
    out
}

fn head_text(crash: &Crash) -> (r: String)
    ensures
        r@ == crash_head(*crash),
{
    let mut out = "\nCrash ".to_owned();
    out.append(crash.time.as_str());
    out.append(", thread ");
    push_decimal(&mut out, crash.thread as u64);
    out.append(", code 0x");
    push_hex(&mut out, crash.code as u64);
    out.append("\nGame: 0x");
    push_hex(&mut out, crash.base);
    out.append(", module: ");
    out.append(crash.module.as_str());
    out.append(" (0x");
    push_hex(&mut out, crash.module_base);
    out.append("), address: 0x");
    push_hex(&mut out, crash.address);
    out.append("\n");
    out
}

fn word_text(n: u64) -> (r: String)
    ensures
        r@ == word(n),
{
    let mut out = "0x".to_owned();
    push_hex_fixed(&mut out, n, 16);
    out
}

/// The bytes of the stack that a crash log shows.
pub const STACK_BYTES: u64 = 0x400;

/// What is appended to the log of crashes: the head, the registers, and the words on the stack
/// as far as they could be read.
pub fn crash_log(crash: &Crash, registers: [u64; 22], top: u64, stack: &Vec<(u64, u64)>) -> (r:
    String)
    requires
        stack@.len() <= STACK_BYTES / 16,
        top + STACK_BYTES <= u64::MAX,
    ensures
        r@ == crash_head(*crash) + register_lines(registers@, 22) + stack_lines(
            stack@,
            top,
            stack@.len() as int,
        ),
{
    let mut out: String = head_text(crash);
    let ghost head = crash_head(*crash);
    assert(out@ =~= head + register_lines(registers@, 0));
    let mut i: usize = 0;
    while i < 22
        invariant
            i <= 22,
            out@ == head + register_lines(registers@, i as int),
        decreases 22 - i,
    {
        out.append(register_text(i, registers[i]).as_str());
        i = i + 1;
        assert(out@ =~= head + register_lines(registers@, i as int));
    }
    let ghost listed = head + register_lines(registers@, 22);
    assert(out@ =~= listed + stack_lines(stack@, top, 0));
    let mut k: usize = 0;
    while k < stack.len()
        invariant
            k <= stack@.len(),
            stack@.len() <= STACK_BYTES / 16,
            top + STACK_BYTES <= u64::MAX,
            out@ == listed + stack_lines(stack@, top, k as int),
        decreases stack@.len() - k,
    {
        out.append(stack_text(top + 16 * k as u64, stack[k]).as_str());
        k = k + 1;
        assert(out@ =~= listed + stack_lines(stack@, top, k as int));
    }
    out
}

} // verus!
