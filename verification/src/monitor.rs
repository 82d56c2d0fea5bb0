//! The monitor: a line editor and a command table.

use crate::text::{from_utf8, parse_number, split_word, str_eq, trim};
use vstd::prelude::*;

verus! {

/// What a line asks for.
#[derive(Clone, Copy, Debug)]
pub enum Command<'a> {
    /// An empty line.
    Empty,
    /// List the commands.
    Help,
    /// Hit a breakpoint.
    Brk,
    /// Make a supervisor call with this in x8; None = not a decimal number.
    Svc(Option<u64>),
    /// Load from an odd address.
    Unaligned,
    /// Ask the hardware where this address goes; None = not a hex number.
    Translate(Option<u64>),
    /// Narrate the walk of this address; None = not a hex number.
    Walk(Option<u64>),
    /// Map this physical page as a device; None = not a hex number.
    Mapdev(Option<u64>),
    /// Write below the stack.
    Guard,
    /// Write to read-only data.
    Wx,
    /// Execute data.
    Noexec,
    /// Read the condemned low half.
    Low,
    /// Read past RAM.
    Abort,
    /// Start the heartbeat.
    Tick,
    /// Show the tick counter.
    Ticks,
    /// Count ticks for three seconds.
    Ticktest,
    /// Summarise the devicetree.
    Dtb,
    /// Dump the devicetree.
    Tree,
    /// Write to the console that the devicetree names.
    Fdtcons,
    /// Run the user program.
    El0,
    /// Run the user program that faults.
    El0fault,
    /// Show the task table.
    Tasks,
    /// Run two tasks that yield.
    Spawn2,
    /// Run two tasks that spin.
    Preempt,
    /// Run a sender and a receiver.
    Ipc,
    /// Run a receiver that blocks.
    Blkipc,
    /// Run a sender that blocks.
    Sendblk,
    /// Run a task that faults beside one that does not.
    Faultkill,
    /// Run a task that sleeps.
    Sleep,
    /// Run a task that waits for another.
    Wait,
    /// No such command.
    Unknown(&'a str),
}

/// `Command` as a mathematical value.
#[verifier::ext_equal]
pub enum CommandView {
    Empty,
    Help,
    Brk,
    Svc(Option<u64>),
    Unaligned,
    Translate(Option<u64>),
    Walk(Option<u64>),
    Mapdev(Option<u64>),
    Guard,
    Wx,
    Noexec,
    Low,
    Abort,
    Tick,
    Ticks,
    Ticktest,
    Dtb,
    Tree,
    Fdtcons,
    El0,
    El0fault,
    Tasks,
    Spawn2,
    Preempt,
    Ipc,
    Blkipc,
    Sendblk,
    Faultkill,
    Sleep,
    Wait,
    Unknown(Seq<char>),
}

impl<'a> View for Command<'a> {
    type V = CommandView;

    open spec fn view(&self) -> CommandView {
        match *self {
            Command::Empty => CommandView::Empty,
            Command::Help => CommandView::Help,
            Command::Brk => CommandView::Brk,
            Command::Svc(n) => CommandView::Svc(n),
            Command::Unaligned => CommandView::Unaligned,
            Command::Translate(n) => CommandView::Translate(n),
            Command::Walk(n) => CommandView::Walk(n),
            Command::Mapdev(n) => CommandView::Mapdev(n),
            Command::Guard => CommandView::Guard,
            Command::Wx => CommandView::Wx,
            Command::Noexec => CommandView::Noexec,
            Command::Low => CommandView::Low,
            Command::Abort => CommandView::Abort,
            Command::Tick => CommandView::Tick,
            Command::Ticks => CommandView::Ticks,
            Command::Ticktest => CommandView::Ticktest,
            Command::Dtb => CommandView::Dtb,
            Command::Tree => CommandView::Tree,
            Command::Fdtcons => CommandView::Fdtcons,
            Command::El0 => CommandView::El0,
            Command::El0fault => CommandView::El0fault,
            Command::Tasks => CommandView::Tasks,
            Command::Spawn2 => CommandView::Spawn2,
            Command::Preempt => CommandView::Preempt,
            Command::Ipc => CommandView::Ipc,
            Command::Blkipc => CommandView::Blkipc,
            Command::Sendblk => CommandView::Sendblk,
            Command::Faultkill => CommandView::Faultkill,
            Command::Sleep => CommandView::Sleep,
            Command::Wait => CommandView::Wait,
            Command::Unknown(s) => CommandView::Unknown(s@),
        }
    }
}

/// `s` without a leading `0x` or `0X`.
pub open spec fn without_0x(s: Seq<char>) -> Seq<char> {
    if s.len() >= 2 && s[0] == '0' && (s[1] == 'x' || s[1] == 'X') {
        s.skip(2)
    } else {
        s
    }
}

/// The number a hex argument writes.
pub open spec fn hex(s: Seq<char>) -> Option<u64> {
    crate::text::number(without_0x(s), 16)
}

/// Parse a hex argument: the prefix is optional, the case does not matter.
pub fn parse_hex(s: &str) -> (r: Option<u64>)
    ensures
        r == hex(s@),
{
    let n: usize = s.unicode_len();
    if n >= 2 && s.get_char(0) == '0' && (s.get_char(1) == 'x' || s.get_char(1) == 'X') {
        let digits = s.substring_char(2, n);
        assert(digits@ =~= s@.skip(2));
        parse_number(digits, 16)
    } else {
        parse_number(s, 16)
    }
}

/// The prefix of a hex argument is optional, in either case.
pub proof fn law_prefix_is_optional(s: Seq<char>)
    requires
        without_0x(s) == s,
    ensures
        hex(seq!['0', 'x'] + s) == hex(s),
        hex(seq!['0', 'X'] + s) == hex(s),
{
    assert((seq!['0', 'x'] + s).skip(2) =~= s);
    assert((seq!['0', 'X'] + s).skip(2) =~= s);
}

/// The same character, or the same letter in the other case.
pub open spec fn same_letter(a: char, b: char) -> bool {
    let x = a as int;
    let y = b as int;
    ||| x == y
    ||| 0x41 <= x <= 0x5a && y == x + 0x20
    ||| 0x41 <= y <= 0x5a && x == y + 0x20
}

/// Two strings that differ in the case of letters only.
pub open spec fn same_letters(s: Seq<char>, t: Seq<char>) -> bool {
    s.len() == t.len() && forall|i: int| 0 <= i < s.len() ==> same_letter(#[trigger] s[i], t[i])
}

/// The case of a hex argument does not matter.
pub proof fn law_case_does_not_matter(s: Seq<char>, t: Seq<char>)
    requires
        same_letters(s, t),
    ensures
        hex(s) == hex(t),
{
    let a = without_0x(s);
    let b = without_0x(t);
    if s.len() >= 2 {
        let x = |c: char| c == 'x' || c == 'X';
        assert(same_letter(s[0], t[0]) && same_letter(s[1], t[1]));
        assert((s[0] == '0') == (t[0] == '0'));
        assert(x(s[1]) == x(t[1]));
    }
    assert(a.len() == b.len());
    assert(same_letters(a, b)) by {
        assert forall|i: int| 0 <= i < a.len() implies same_letter(#[trigger] a[i], b[i]) by {
            let j = i + (s.len() - a.len());
            assert(same_letter(s[j], t[j]));
        }
    }
    if a.len() > 0 {
        assert(same_letter(a[0], b[0]));
        let c = a.drop_first();
        let d = b.drop_first();
        assert forall|i: int| 0 <= i < c.len() implies same_letter(#[trigger] c[i], d[i]) by {
            assert(same_letter(a[i + 1], b[i + 1]));
        }
        lemma_same_digits(c, d);
    }
    lemma_same_digits(a, b);
}

proof fn lemma_same_digits(s: Seq<char>, t: Seq<char>)
    requires
        same_letters(s, t),
    ensures
        crate::text::digits_value(s, 16) == crate::text::digits_value(t, 16),
    decreases s.len(),
{
    if s.len() > 0 {
        let a = s.drop_last();
        let b = t.drop_last();
        assert forall|i: int| 0 <= i < a.len() implies same_letter(#[trigger] a[i], b[i]) by {
            assert(same_letter(s[i], t[i]));
        }
        lemma_same_digits(a, b);
        assert(same_letter(s[s.len() - 1], t[s.len() - 1]));
        assert(crate::text::digit_value(s.last(), 16) == crate::text::digit_value(t.last(), 16));
    }
}

/// The text of a line; none if it is not UTF-8.
pub open spec fn line_text(line: Seq<u8>) -> Seq<char> {
    if vstd::utf8::valid_utf8(line) {
        vstd::utf8::decode_utf8(line)
    } else {
        Seq::empty()
    }
}

/// The command that the word `cmd` names, with argument `arg`.
pub open spec fn command_of(cmd: Seq<char>, arg: Seq<char>) -> CommandView {
    if cmd == ""@ {
        CommandView::Empty
    } else if cmd == "help"@ {
        CommandView::Help
    } else if cmd == "brk"@ {
        CommandView::Brk
    } else if cmd == "svc"@ {
        CommandView::Svc(crate::text::number(arg, 10))
    } else if cmd == "unaligned"@ {
        CommandView::Unaligned
    } else if cmd == "translate"@ {
        CommandView::Translate(hex(arg))
    } else if cmd == "walk"@ {
        CommandView::Walk(hex(arg))
    } else if cmd == "mapdev"@ {
        CommandView::Mapdev(hex(arg))
    } else if cmd == "guard"@ {
        CommandView::Guard
    } else if cmd == "wx"@ {
        CommandView::Wx
    } else if cmd == "noexec"@ {
        CommandView::Noexec
    } else if cmd == "low"@ {
        CommandView::Low
    } else if cmd == "abort"@ {
        CommandView::Abort
    } else if cmd == "tick"@ {
        CommandView::Tick
    } else if cmd == "ticks"@ {
        CommandView::Ticks
    } else if cmd == "ticktest"@ {
        CommandView::Ticktest
    } else if cmd == "dtb"@ {
        CommandView::Dtb
    } else if cmd == "tree"@ {
        CommandView::Tree
    } else if cmd == "fdtcons"@ {
        CommandView::Fdtcons
    } else if cmd == "el0"@ {
        CommandView::El0
    } else if cmd == "el0fault"@ {
        CommandView::El0fault
    } else if cmd == "tasks"@ {
        CommandView::Tasks
    } else if cmd == "spawn2"@ {
        CommandView::Spawn2
    } else if cmd == "preempt"@ {
        CommandView::Preempt
    } else if cmd == "ipc"@ {
        CommandView::Ipc
    } else if cmd == "blkipc"@ {
        CommandView::Blkipc
    } else if cmd == "sendblk"@ {
        CommandView::Sendblk
    } else if cmd == "faultkill"@ {
        CommandView::Faultkill
    } else if cmd == "sleep"@ {
        CommandView::Sleep
    } else if cmd == "wait"@ {
        CommandView::Wait
    } else {
        CommandView::Unknown(cmd)
    }
}

/// The command of a line: its first word, and the rest as the argument.
pub open spec fn command(line: Seq<u8>) -> CommandView {
    let (cmd, arg) = crate::text::first_word(crate::text::trimmed(line_text(line)));
    command_of(cmd, arg)
}

fn lookup<'a>(cmd: &'a str, arg: &str) -> (c: Command<'a>)
    ensures
        c@ == command_of(cmd@, arg@),
{
    if str_eq(cmd, "") {
        Command::Empty
    } else if str_eq(cmd, "help") {
        Command::Help
    } else if str_eq(cmd, "brk") {
        Command::Brk
    } else if str_eq(cmd, "svc") {
        Command::Svc(parse_number(arg, 10))
    } else if str_eq(cmd, "unaligned") {
        Command::Unaligned
    } else if str_eq(cmd, "translate") {
        Command::Translate(parse_hex(arg))
    } else if str_eq(cmd, "walk") {
        Command::Walk(parse_hex(arg))
    } else if str_eq(cmd, "mapdev") {
        Command::Mapdev(parse_hex(arg))
    } else if str_eq(cmd, "guard") {
        Command::Guard
    } else if str_eq(cmd, "wx") {
        Command::Wx
    } else if str_eq(cmd, "noexec") {
        Command::Noexec
    } else if str_eq(cmd, "low") {
        Command::Low
    } else if str_eq(cmd, "abort") {
        Command::Abort
    } else if str_eq(cmd, "tick") {
        Command::Tick
    } else if str_eq(cmd, "ticks") {
        Command::Ticks
    } else if str_eq(cmd, "ticktest") {
        Command::Ticktest
    } else if str_eq(cmd, "dtb") {
        Command::Dtb
    } else if str_eq(cmd, "tree") {
        Command::Tree
    } else if str_eq(cmd, "fdtcons") {
        Command::Fdtcons
    } else if str_eq(cmd, "el0") {
        Command::El0
    } else if str_eq(cmd, "el0fault") {
        Command::El0fault
    } else if str_eq(cmd, "tasks") {
        Command::Tasks
    } else if str_eq(cmd, "spawn2") {
        Command::Spawn2
    } else if str_eq(cmd, "preempt") {
        Command::Preempt
    } else if str_eq(cmd, "ipc") {
        Command::Ipc
    } else if str_eq(cmd, "blkipc") {
        Command::Blkipc
    } else if str_eq(cmd, "sendblk") {
        Command::Sendblk
    } else if str_eq(cmd, "faultkill") {
        Command::Faultkill
    } else if str_eq(cmd, "sleep") {
        Command::Sleep
    } else if str_eq(cmd, "wait") {
        Command::Wait
    } else {
        Command::Unknown(cmd)
    }
}

/// What a line asks for.
pub fn run_command<'a>(line: &'a [u8]) -> (c: Command<'a>)
    ensures
        c@ == command(line@),
{
    let text: &'a str = match from_utf8(line) {
        Some(s) => s,
        None => {
            proof {
                reveal_strlit("");
            }
            let e = "";
            assert(e@ =~= Seq::<char>::empty());
            e
        },
    };
    let (cmd, arg) = split_word(trim(text));
    lookup(cmd, arg)
}

/// The longest line the editor holds.
pub const LINE_MAX: usize = 64;

/// Printable ASCII.
pub open spec fn printable(b: u8) -> bool {
    0x20 <= b <= 0x7e
}

/// What a key does, beside changing the line.
pub enum Key {
    /// Run this line.
    Run(Vec<u8>),
    /// Erase the last character on the screen.
    Erase,
    /// Show the character.
    Echo(u8),
    /// Show the byte in hex.
    Hex(u8),
    /// Nothing.
    Ignore,
}

/// `Key` as a mathematical value.
#[verifier::ext_equal]
pub enum KeyView {
    Run(Seq<u8>),
    Erase,
    Echo(u8),
    Hex(u8),
    Ignore,
}

impl View for Key {
    type V = KeyView;

    open spec fn view(&self) -> KeyView {
        match *self {
            Key::Run(v) => KeyView::Run(v@),
            Key::Erase => KeyView::Erase,
            Key::Echo(b) => KeyView::Echo(b),
            Key::Hex(b) => KeyView::Hex(b),
            Key::Ignore => KeyView::Ignore,
        }
    }
}

/// A line and what the last key did.
#[verifier::ext_equal]
pub struct Typed {
    pub line: Seq<u8>,
    pub key: KeyView,
}

/// What typing `b` makes of `line`: CR and LF run it, BS and DEL take the last
/// character back, printable ASCII is added while there is room, and anything
/// else is shown but not kept.
pub open spec fn typed(line: Seq<u8>, b: u8) -> Typed {
    if b == 0x0d || b == 0x0a {
        Typed { line: Seq::empty(), key: KeyView::Run(line) }
    } else if b == 0x08 || b == 0x7f {
        if line.len() > 0 {
            Typed { line: line.drop_last(), key: KeyView::Erase }
        } else {
            Typed { line, key: KeyView::Ignore }
        }
    } else if printable(b) {
        if line.len() < LINE_MAX {
            Typed { line: line.push(b), key: KeyView::Echo(b) }
        } else {
            Typed { line, key: KeyView::Ignore }
        }
    } else {
        Typed { line, key: KeyView::Hex(b) }
    }
}

/// The line being typed.
pub struct LineEditor {
    buf: Vec<u8>,
}

impl View for LineEditor {
    type V = Seq<u8>;

    closed spec fn view(&self) -> Seq<u8> {
        self.buf@
    }
}

/// A line the editor can hold: not too long, printable.
pub open spec fn editable(line: Seq<u8>) -> bool {
    line.len() <= LINE_MAX && forall|i: int| 0 <= i < line.len() ==> printable(#[trigger] line[i])
}

impl LineEditor {
    /// An empty line.
    pub fn new() -> (e: LineEditor)
        ensures
            e@ == Seq::<u8>::empty(),
            editable(e@),
    {
        LineEditor { buf: Vec::new() }
    }

    /// Type one byte.
    pub fn feed(&mut self, b: u8) -> (k: Key)
        requires
            editable(old(self)@),
        ensures
            editable(final(self)@),
            (Typed { line: final(self)@, key: k@ }) == typed(old(self)@, b),
    {
        if b == 0x0d || b == 0x0a {
            let mut line: Vec<u8> = Vec::new();
            std::mem::swap(&mut line, &mut self.buf);
            Key::Run(line)
        } else if b == 0x08 || b == 0x7f {
            match self.buf.pop() {
                Some(_) => Key::Erase,
                None => Key::Ignore,
            }
        } else if 0x20 <= b && b <= 0x7e {
            if self.buf.len() < LINE_MAX {
                self.buf.push(b);
                Key::Echo(b)
            } else {
                Key::Ignore
            }
        } else {
            Key::Hex(b)
        }
    }
}

/// Taking a character back undoes typing it.
pub proof fn law_erase_undoes_echo(line: Seq<u8>, b: u8, erase: u8)
    requires
        printable(b),
        line.len() < LINE_MAX,
        erase == 0x08 || erase == 0x7f,
    ensures
        typed(typed(line, b).line, erase).line == line,
{
    assert(line.push(b).drop_last() =~= line);
}

/// The line after all of `bytes` have been typed.
pub open spec fn typed_all(line: Seq<u8>, bytes: Seq<u8>) -> Seq<u8>
    decreases bytes.len(),
{
    if bytes.len() == 0 {
        line
    } else {
        typed(typed_all(line, bytes.drop_last()), bytes.last()).line
    }
}

/// What is typed is what runs: a line of printable characters that fits,
/// followed by CR or LF, is handed over whole and leaves an empty line behind.
pub proof fn law_typed_line_runs(bytes: Seq<u8>, end: u8)
    requires
        editable(bytes),
        end == 0x0d || end == 0x0a,
    ensures
        typed_all(Seq::empty(), bytes) == bytes,
        typed(typed_all(Seq::empty(), bytes), end) == (Typed {
            line: Seq::empty(),
            key: KeyView::Run(bytes),
        }),
    decreases bytes.len(),
{
    if bytes.len() > 0 {
        let init = bytes.drop_last();
        assert(editable(init)) by {
            assert forall|i: int| 0 <= i < init.len() implies printable(#[trigger] init[i]) by {
                assert(printable(bytes[i]));
            }
        }
        law_typed_line_runs(init, end);
        assert(printable(bytes[bytes.len() - 1]));
        assert(init.push(bytes.last()) =~= bytes);
    }
}

/// A line from the editor is always text.
pub proof fn law_lines_are_text(line: Seq<u8>)
    requires
        editable(line),
    ensures
        vstd::utf8::valid_utf8(line),
{
    lemma_ascii_is_utf8(line);
}

proof fn lemma_ascii_is_utf8(s: Seq<u8>)
    requires
        forall|i: int| 0 <= i < s.len() ==> printable(#[trigger] s[i]),
    ensures
        vstd::utf8::valid_utf8(s),
    decreases s.len(),
{
    if s.len() > 0 {
        assert(printable(s[0]));
        let rest = s.drop_first();
        assert forall|i: int| 0 <= i < rest.len() implies printable(#[trigger] rest[i]) by {
            assert(printable(s[i + 1]));
        }
        lemma_ascii_is_utf8(rest);
        assert(vstd::utf8::pop_first_scalar(s) =~= rest);
    }
}

/// A line is its first word, which names the command, and the rest, which is the
/// argument; white space around either does not matter.
pub proof fn law_lines_are_taken_apart(
    a: Seq<char>,
    cmd: Seq<char>,
    more: Seq<char>,
    z: Seq<char>,
)
    requires
        forall|i: int| 0 <= i < a.len() ==> crate::text::is_white(#[trigger] a[i]),
        forall|i: int| 0 <= i < z.len() ==> crate::text::is_white(#[trigger] z[i]),
        cmd.len() > 0,
        more.len() > 0,
        !cmd.contains(' '),
        !crate::text::is_white(cmd[0]),
        !crate::text::is_white(cmd.last()),
        !crate::text::is_white(more.last()),
    ensures
        command(vstd::utf8::encode_utf8(a + (cmd + seq![' '] + more) + z)) == command_of(
            cmd,
            crate::text::trimmed(more),
        ),
        command(vstd::utf8::encode_utf8(a + cmd + z)) == command_of(cmd, Seq::empty()),
        command(vstd::utf8::encode_utf8(a)) == CommandView::Empty,
{
    let u = cmd + seq![' '] + more;
    let s = a + u + z;
    let t = a + cmd + z;
    vstd::utf8::encode_utf8_valid_utf8(s);
    vstd::utf8::encode_utf8_decode_utf8(s);
    vstd::utf8::encode_utf8_valid_utf8(t);
    vstd::utf8::encode_utf8_decode_utf8(t);
    vstd::utf8::encode_utf8_valid_utf8(a);
    vstd::utf8::encode_utf8_decode_utf8(a);
    assert(u[0] == cmd[0] && u.last() == more.last());
    crate::text::law_trim_takes_white_space(a, u, z);
    crate::text::law_trim_takes_white_space(a, cmd, z);
    crate::text::law_words_are_split(cmd, more);
    let e = Seq::<char>::empty();
    crate::text::law_words_are_split(e, e);
    reveal_strlit("");
    assert(""@ =~= e);
}

/// A hex argument is read back as the number that was written, with or without
/// the prefix.
pub proof fn law_hex_numbers_are_read(ds: Seq<int>)
    requires
        ds.len() > 0,
        crate::text::are_digits(ds, 16),
        crate::text::place_value(ds, 16) <= u64::MAX,
    ensures
        hex(seq!['0', 'x'] + crate::text::digit_chars(ds)) == Some(
            crate::text::place_value(ds, 16) as u64,
        ),
        hex(crate::text::digit_chars(ds)) == Some(crate::text::place_value(ds, 16) as u64),
{
    let s = crate::text::digit_chars(ds);
    crate::text::law_numbers_are_read(ds, 16);
    assert((seq!['0', 'x'] + s).skip(2) =~= s);
    if s.len() >= 2 {
        let d = ds[1];
        assert(s[1] == crate::text::digit_char(d));
        assert(s[1] as u32 != 'x' as u32 && s[1] as u32 != 'X' as u32);
    }
}

/// A key that is neither printable nor one of the editing keys leaves the line as
/// it is, and so does any printable key once the line is full.
pub proof fn law_other_keys_keep_the_line(line: Seq<u8>, b: u8)
    requires
        b != 0x0d && b != 0x0a && b != 0x08 && b != 0x7f,
        b < 0x20 || b > 0x7e || line.len() >= 64,
    ensures
        typed(line, b).line == line,
        b < 0x20 || b > 0x7e ==> typed(line, b).key == KeyView::Hex(b),
        0x20 <= b <= 0x7e ==> typed(line, b).key == KeyView::Ignore,
{
}

/// A printable key is added to a line of up to 63 characters and shown.
pub proof fn law_printable_keys_are_added(line: Seq<u8>, b: u8)
    requires
        0x20 <= b <= 0x7e,
        line.len() <= 63,
    ensures
        typed(line, b).line == line + seq![b],
        typed(line, b).key == KeyView::Echo(b),
{
    assert(line.push(b) =~= line + seq![b]);
}

} // verus!
