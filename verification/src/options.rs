//! The options of the command line, read one argument at a time.

use crate::choices::CharsetChoices;
use crate::color::ColorPickerOption;
use crate::text::{parse_number, parsed_number, same_text};
use crate::timing::{frame_interval, interval_millis, DEFAULT_FRAMES_PER_SECOND};
use vstd::prelude::*;

verus! {

/// What the animation is run with.
#[derive(Clone, Copy, Debug, PartialEq, Eq)]
pub struct Options {
    pub color_picker: ColorPickerOption,
    pub milliseconds_per_frame: u64,
    pub charset_choices: CharsetChoices,
}

/// What the next argument is taken for.
#[derive(Clone, Copy, Debug, PartialEq, Eq)]
pub enum Expect {
    /// An option, or nothing in particular.
    Flag,
    /// The number after `-frame`.
    FrameRate,
    /// The name after `-charset`.
    Charset,
}

/// Why no animation is run.
#[derive(Clone, Copy, Debug, PartialEq, Eq)]
pub enum Stop {
    /// Help was asked for.
    Help,
    /// What follows `-frame` is not a number above zero.
    BadFrameRate,
}

/// The options gathered so far, and what the next argument is taken for.
#[derive(Clone, Copy, Debug, PartialEq, Eq)]
pub struct ArgReader {
    pub options: Options,
    pub expect: Expect,
}

impl ArgReader {
    /// Before any argument: the green colours, thirty frames a second, and
    /// the ASCII glyphs alone.
    pub open spec fn initial() -> ArgReader {
        ArgReader {
            options: Options {
                color_picker: ColorPickerOption::Greens,
                milliseconds_per_frame: 33,
                charset_choices: CharsetChoices { ascii: true, hiragana: false, cjk: false },
            },
            expect: Expect::Flag,
        }
    }

    /// The options after `arg` was taken for what was expected.
    pub open spec fn with_value(self, arg: Seq<char>) -> Result<Options, Stop> {
        match self.expect {
            Expect::Flag => Ok(self.options),
            Expect::FrameRate => match parsed_number(arg) {
                Some(rate) => if rate > 0 {
                    Ok(
                        Options {
                            milliseconds_per_frame: interval_millis(rate as nat) as u64,
                            ..self.options
                        },
                    )
                } else {
                    Err(Stop::BadFrameRate)
                },
                None => Err(Stop::BadFrameRate),
            },
            Expect::Charset => Ok(
                Options {
                    charset_choices: self.options.charset_choices.after_arg(arg),
                    ..self.options
                },
            ),
        }
    }

    /// The reader after the argument `arg`. The argument is first taken
    /// for what was expected; then, whatever it was taken for, `-any`
    /// selects all colours, `-frame` and `-charset` announce their value, and
    /// `-help` or `-h` stops the reading.
    pub open spec fn after(self, arg: Seq<char>) -> Result<ArgReader, Stop> {
        match self.with_value(arg) {
            Err(stop) => Err(stop),
            Ok(options) => {
                let next = if arg == "-any"@ {
                    ArgReader {
                        options: Options { color_picker: ColorPickerOption::Any, ..options },
                        expect: Expect::Flag,
                    }
                } else if arg == "-frame"@ {
                    ArgReader { options, expect: Expect::FrameRate }
                } else if arg == "-charset"@ {
                    ArgReader { options, expect: Expect::Charset }
                } else {
                    ArgReader { options, expect: Expect::Flag }
                };
                if arg == "-help"@ || arg == "-h"@ {
                    Err(Stop::Help)
                } else {
                    Ok(next)
                }
            },
        }
    }

    /// The options after all of `args`, read in order up to the first stop.
    pub open spec fn after_all(self, args: Seq<Seq<char>>) -> Result<Options, Stop>
        decreases args.len(),
    {
        if args.len() == 0 {
            Ok(self.options)
        } else {
            match self.after(args[0]) {
                Err(stop) => Err(stop),
                Ok(next) => next.after_all(args.skip(1)),
            }
        }
    }

    /// The reader before any argument.
    pub fn new() -> (reader: ArgReader)
        ensures
            reader == ArgReader::initial(),
    {
        ArgReader {
            options: Options {
                color_picker: ColorPickerOption::Greens,
                milliseconds_per_frame: frame_interval(DEFAULT_FRAMES_PER_SECOND),
                charset_choices: CharsetChoices { ascii: true, hiragana: false, cjk: false },
            },
            expect: Expect::Flag,
        }
    }

    /// Reads one argument.
    pub fn read(&self, arg: &str) -> (next: Result<ArgReader, Stop>)
        ensures
            next == self.after(arg@),
    {
        let mut options = self.options;
        match self.expect {
            Expect::Flag => {},
            Expect::FrameRate => {
                match parse_number(arg) {
                    Some(rate) => {
                        if rate == 0 {
                            return Err(Stop::BadFrameRate);
                        }
                        options.milliseconds_per_frame = frame_interval(rate);
                    },
                    None => {
                        return Err(Stop::BadFrameRate);
                    },
                }
            },
            Expect::Charset => {
                options.charset_choices.read_from_arg(arg);
            },
        }
        let mut expect = Expect::Flag;
        if same_text(arg, "-any") {
            options.color_picker = ColorPickerOption::Any;
        } else if same_text(arg, "-frame") {
            expect = Expect::FrameRate;
        } else if same_text(arg, "-charset") {
            expect = Expect::Charset;
        }
        if same_text(arg, "-help") || same_text(arg, "-h") {
            return Err(Stop::Help);
        }
        Ok(ArgReader { options, expect })
    }
}

/// Reads the arguments of a command line, the program's name included.
pub fn read_args(args: &Vec<String>) -> (options: Result<Options, Stop>)
    ensures
        options == ArgReader::initial().after_all(args.deep_view()),
{
    let ghost all = args.deep_view();
    let mut reader = ArgReader::new();
    let mut i: usize = 0;
    assert(all.skip(0) =~= all);
    while i < args.len()
        invariant
            i <= args.len(),
            all == args.deep_view(),
            ArgReader::initial().after_all(all) == reader.after_all(all.skip(i as int)),
        decreases args.len() - i,
    {
        proof {
            assert(all.skip(i as int).skip(1) =~= all.skip(i + 1));
        }
        match reader.read(args[i].as_str()) {
            Ok(next) => {
                reader = next;
            },
            Err(stop) => {
                return Err(stop);
            },
        }
        i = i + 1;
    }
    Ok(reader.options)
}

} // verus!
