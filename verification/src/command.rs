//! Terminal commands and their ANSI/VT100 escape sequences.

use vstd::prelude::*;

verus! {

/// The direction of a relative cursor move.
#[derive(Clone, Copy, Debug, PartialEq, Eq)]
pub enum Direction {
    Up,
    Down,
    Left,
    Right,
}

/// One instruction to the terminal.
#[derive(Clone, Copy, Debug, PartialEq, Eq)]
pub enum AnsiCommand {
    /// Move the cursor by a number of cells in a direction.
    RelMove(u32, Direction),
    /// Erase from the cursor to the end of the line.
    EraseLine,
    /// Move the cursor to column `x`, row `y`, both counted from zero.
    Move(u32, u32),
    /// Select a colour of the 256-colour palette, for the background if the flag is set.
    Color256(u8, bool),
    /// Print one character.
    Cell(char),
    /// Reset all attributes.
    Reset,
}

/// The character for the decimal digit `d`.
pub open spec fn digit_char(d: int) -> char {
    (0x30 + d) as char
}

/// `n` in decimal, without sign or leading zeros.
pub open spec fn decimal_digits(n: nat) -> Seq<char>
    decreases n,
{
    if n < 10 {
        seq![digit_char(n as int)]
    } else {
        decimal_digits(n / 10) + seq![digit_char((n % 10) as int)]
    }
}

/// The control sequence introducer, `ESC [`.
pub open spec fn introducer() -> Seq<char> {
    seq!['\x1b', '[']
}

impl Direction {
    /// The final byte that selects this direction in a relative move.
    pub open spec fn letter(self) -> char {
        match self {
            Direction::Up => 'A',
            Direction::Down => 'B',
            Direction::Left => 'C',
            Direction::Right => 'D',
        }
    }

    /// The final byte that selects this direction in a relative move.
    pub fn final_byte(&self) -> (c: char)
        ensures
            c == self.letter(),
    {
        match self {
            Direction::Up => 'A',
            Direction::Down => 'B',
            Direction::Left => 'C',
            Direction::Right => 'D',
        }
    }
}

impl AnsiCommand {
    /// The literal text that makes a terminal carry out this command.
    /// Positions are sent one-based, row first.
    pub open spec fn escape_sequence(self) -> Seq<char> {
        match self {
            AnsiCommand::EraseLine => introducer() + seq!['0', 'K'],
            AnsiCommand::Move(x, y) => introducer() + decimal_digits((y + 1) as nat) + seq![';']
                + decimal_digits((x + 1) as nat) + seq!['H'],
            AnsiCommand::Color256(color, background) => introducer() + decimal_digits(
                if background {
                    48
                } else {
                    38
                },
            ) + seq![';', '5', ';'] + decimal_digits(color as nat) + seq!['m'],
            AnsiCommand::RelMove(amount, direction) => introducer() + decimal_digits(amount as nat)
                + seq![direction.letter()],
            AnsiCommand::Cell(c) => seq![c],
            AnsiCommand::Reset => introducer() + seq!['0', 'm'],
        }
    }

    /// Appends this command's escape sequence to `text`.
    pub fn encode_into(&self, text: &mut Vec<char>)
        ensures
            final(text)@ == old(text)@ + self.escape_sequence(),
    {
        match self {
            AnsiCommand::Cell(c) => {
                text.push(*c);
            },
            AnsiCommand::EraseLine => {
                push_introducer(text);
                text.push('0');
                text.push('K');
            },
            AnsiCommand::Move(x, y) => {
                push_introducer(text);
                push_decimal(text, *y as u64 + 1);
                text.push(';');
                push_decimal(text, *x as u64 + 1);
                text.push('H');
            },
            AnsiCommand::Color256(color, background) => {
                push_introducer(text);
                push_decimal(text, if *background { 48 } else { 38 });
                text.push(';');
                text.push('5');
                text.push(';');
                push_decimal(text, *color as u64);
                text.push('m');
            },
            AnsiCommand::RelMove(amount, direction) => {
                push_introducer(text);
                push_decimal(text, *amount as u64);
                text.push(direction.final_byte());
            },
            AnsiCommand::Reset => {
                push_introducer(text);
                text.push('0');
                text.push('m');
            },
        }
    }

    /// This command's escape sequence.
    pub fn to_string(&self) -> (text: String)
        ensures
            text@ == self.escape_sequence(),
    {
        let mut chars: Vec<char> = Vec::new();
        self.encode_into(&mut chars);
        string_from_chars(&chars)
    }
}

/// The escape sequences of `commands`, one after another.
pub open spec fn escape_sequences(commands: Seq<AnsiCommand>) -> Seq<char>
    decreases commands.len(),
{
    if commands.len() == 0 {
        Seq::empty()
    } else {
        escape_sequences(commands.drop_last()) + commands.last().escape_sequence()
    }
}

/// The text that makes a terminal carry out `commands` in order.
pub fn serialize(commands: &Vec<AnsiCommand>) -> (text: String)
    ensures
        text@ == escape_sequences(commands@),
{
    let mut chars: Vec<char> = Vec::new();
    let mut i: usize = 0;
    while i < commands.len()
        invariant
            i <= commands.len(),
            chars@ == escape_sequences(commands@.take(i as int)),
        decreases commands.len() - i,
    {
        commands[i].encode_into(&mut chars);
        proof {
            assert(commands@.take(i + 1).drop_last() == commands@.take(i as int));
        }
        i = i + 1;
    }
    proof {
        assert(commands@.take(i as int) == commands@);
    }
    string_from_chars(&chars)
}

/// `String::from_iter` over the characters of `chars`: the string that holds
/// exactly those characters, in order.
#[verifier::external_body]
fn string_from_chars(chars: &Vec<char>) -> (text: String)
    ensures
        text@ == chars@,
{
    String::from_iter(chars.iter())
}

fn push_introducer(text: &mut Vec<char>)
    ensures
        final(text)@ == old(text)@ + introducer(),
{
    text.push('\x1b');
    text.push('[');
}

/// Appends `n` in decimal to `text`.
fn push_decimal(text: &mut Vec<char>, n: u64)
    ensures
        final(text)@ == old(text)@ + decimal_digits(n as nat),
    decreases n,
{
    if n >= 10 {
        push_decimal(text, n / 10);
    }
    let digit: u8 = (n % 10) as u8;
    text.push((digit + 0x30) as char);
}

} // verus!
