//! From the words of a command line to one operation of the editor. The
//! command line has already been split into the name of a command and the
//! texts of its flags; resolving it picks the operation and reads the
//! numbers.

use vstd::prelude::*;
use vstd::string::*;
use crate::parse::{number_in, parse_i32, parse_u32, parse_u8};
use crate::rotation::Rot;

verus! {

/// A flag of a command.
#[derive(Clone, Copy, Debug, PartialEq, Eq, Structural)]
pub enum Flag {
    Value,
    X,
    Y,
    W,
    H,
    R,
    G,
    B,
}

/// The type of number that a flag takes.
#[derive(Clone, Copy, Debug, PartialEq, Eq, Structural)]
pub enum Kind {
    U8,
    U32,
    I32,
}

/// Why a command line resolves to no operation.
#[derive(Clone, Copy, Debug, PartialEq, Eq, Structural)]
pub enum ArgError {
    /// The command is none of the eight that the editor has.
    UnknownCommand,
    /// A flag that the command cannot do without was not given.
    Missing { flag: Flag },
    /// The text of a flag does not write a number of the type it takes.
    Invalid { flag: Flag, expected: Kind },
}

/// The command and the texts of its flags as they stand on the command
/// line. A flag that was not given is `None`.
#[derive(Clone, Debug, PartialEq, Eq)]
pub struct Args {
    pub command: String,
    pub value: Option<String>,
    pub x: Option<String>,
    pub y: Option<String>,
    pub w: Option<String>,
    pub h: Option<String>,
    pub r: Option<String>,
    pub g: Option<String>,
    pub b: Option<String>,
}

/// One operation of the editor with its arguments.
#[derive(Clone, Debug, PartialEq, Eq)]
pub enum Command {
    /// Blur by a radius. The radius is a real number, which this library
    /// does not read: it is handed on as it was written.
    Blur { sigma: String },
    Brighten { delta: i32 },
    Crop { x: u32, y: u32, width: u32, height: u32 },
    Rotate { rotation: Rot },
    Invert,
    Grayscale,
    Generate { r: u8, g: u8, b: u8 },
    Fractal,
}

/// The mathematical value of a `Command`.
pub enum Plan {
    Blur { sigma: Seq<char> },
    Brighten { delta: i32 },
    Crop { x: u32, y: u32, width: u32, height: u32 },
    Rotate { rotation: Rot },
    Invert,
    Grayscale,
    Generate { r: u8, g: u8, b: u8 },
    Fractal,
}

impl View for Command {
    type V = Plan;

    open spec fn view(&self) -> Plan {
        match *self {
            Command::Blur { sigma } => Plan::Blur { sigma: sigma@ },
            Command::Brighten { delta } => Plan::Brighten { delta },
            Command::Crop { x, y, width, height } => Plan::Crop { x, y, width, height },
            Command::Rotate { rotation } => Plan::Rotate { rotation },
            Command::Invert => Plan::Invert,
            Command::Grayscale => Plan::Grayscale,
            Command::Generate { r, g, b } => Plan::Generate { r, g, b },
            Command::Fractal => Plan::Fractal,
        }
    }
}

impl Flag {
    /// The name of the flag as it is written on the command line.
    pub open spec fn text(self) -> Seq<char> {
        match self {
            Flag::Value => "value"@,
            Flag::X => "x"@,
            Flag::Y => "y"@,
            Flag::W => "w"@,
            Flag::H => "h"@,
            Flag::R => "r"@,
            Flag::G => "g"@,
            Flag::B => "b"@,
        }
    }

    /// The name of the flag.
    pub fn name(self) -> (s: &'static str)
        ensures
            s@ == self.text(),
    {
        match self {
            Flag::Value => "value",
            Flag::X => "x",
            Flag::Y => "y",
            Flag::W => "w",
            Flag::H => "h",
            Flag::R => "r",
            Flag::G => "g",
            Flag::B => "b",
        }
    }
}

impl Kind {
    /// The name of the type.
    pub open spec fn text(self) -> Seq<char> {
        match self {
            Kind::U8 => "u8"@,
            Kind::U32 => "u32"@,
            Kind::I32 => "i32"@,
        }
    }

    /// The name of the type.
    pub fn name(self) -> (s: &'static str)
        ensures
            s@ == self.text(),
    {
        match self {
            Kind::U8 => "u8",
            Kind::U32 => "u32",
            Kind::I32 => "i32",
        }
    }
}

impl ArgError {
    /// The sentence that tells the user what is wrong: which flag, and for
    /// a bad number, of which type it has to be.
    pub open spec fn text(self) -> Seq<char> {
        match self {
            ArgError::UnknownCommand => "unknown command"@,
            ArgError::Missing { flag } => flag.text() + " is required"@,
            ArgError::Invalid { flag, expected } => flag.text() + " must be of type "@
                + expected.text(),
        }
    }

    /// Writes the sentence that tells the user what is wrong.
    pub fn message(&self) -> (s: String)
        ensures
            s@ == self.text(),
    {
        match *self {
            ArgError::UnknownCommand => String::from_str("unknown command"),
            ArgError::Missing { flag } => {
                let mut s = String::from_str(flag.name());
                s.append(" is required");
                s
            },
            ArgError::Invalid { flag, expected } => {
                let mut s = String::from_str(flag.name());
                s.append(" must be of type ");
                s.append(expected.name());
                s
            },
        }
    }
}

/// What the text of a flag that takes a `u8` resolves to.
pub open spec fn read_u8(text: Seq<char>, flag: Flag) -> Result<u8, ArgError> {
    match number_in(text, false, 0, 255) {
        Some(v) => Ok(v as u8),
        None => Err(ArgError::Invalid { flag, expected: Kind::U8 }),
    }
}

/// What the text of a flag that takes a `u32` resolves to.
pub open spec fn read_u32(text: Seq<char>, flag: Flag) -> Result<u32, ArgError> {
    match number_in(text, false, 0, 0xffff_ffff) {
        Some(v) => Ok(v as u32),
        None => Err(ArgError::Invalid { flag, expected: Kind::U32 }),
    }
}

/// What the text of a flag that takes an `i32` resolves to.
pub open spec fn read_i32(text: Seq<char>, flag: Flag) -> Result<i32, ArgError> {
    match number_in(text, true, -0x8000_0000, 0x7fff_ffff) {
        Some(v) => Ok(v as i32),
        None => Err(ArgError::Invalid { flag, expected: Kind::I32 }),
    }
}

/// What a flag that takes a `u8` resolves to when leaving it out means 0.
pub open spec fn read_u8_or_zero(field: Option<String>, flag: Flag) -> Result<u8, ArgError> {
    match field {
        Some(text) => read_u8(text@, flag),
        None => Ok(0u8),
    }
}

/// What a flag that takes a `u32` resolves to when leaving it out means 0.
pub open spec fn read_u32_or_zero(field: Option<String>, flag: Flag) -> Result<u32, ArgError> {
    match field {
        Some(text) => read_u32(text@, flag),
        None => Ok(0u32),
    }
}

/// What `blur` resolves to: the radius as written, which has to be given.
pub open spec fn blur_plan(args: Args) -> Result<Plan, ArgError> {
    match args.value {
        Some(text) => Ok(Plan::Blur { sigma: text@ }),
        None => Err(ArgError::Missing { flag: Flag::Value }),
    }
}

/// What `brighten` resolves to: its value, which has to be given, read as
/// an `i32`.
pub open spec fn brighten_plan(args: Args) -> Result<Plan, ArgError> {
    match args.value {
        Some(text) => match read_i32(text@, Flag::Value) {
            Ok(delta) => Ok(Plan::Brighten { delta }),
            Err(e) => Err(e),
        },
        None => Err(ArgError::Missing { flag: Flag::Value }),
    }
}

/// What `rotate` resolves to: its value, which has to be given, read as a
/// `u32` and bucketed into a rotation.
pub open spec fn rotate_plan(args: Args) -> Result<Plan, ArgError> {
    match args.value {
        Some(text) => match read_u32(text@, Flag::Value) {
            Ok(v) => Ok(Plan::Rotate { rotation: Rot::bucket(v as int) }),
            Err(e) => Err(e),
        },
        None => Err(ArgError::Missing { flag: Flag::Value }),
    }
}

/// What `crop` resolves to. The width and the height have to be given, the
/// corner is `(0, 0)` unless given. With all that is needed there, the four
/// are read as `u32` in the order x, y, w, h, and the first that fails is
/// the error.
pub open spec fn crop_plan(args: Args) -> Result<Plan, ArgError> {
    if args.w is None {
        Err(ArgError::Missing { flag: Flag::W })
    } else if args.h is None {
        Err(ArgError::Missing { flag: Flag::H })
    } else {
        let x = read_u32_or_zero(args.x, Flag::X);
        let y = read_u32_or_zero(args.y, Flag::Y);
        let w = read_u32(args.w->0@, Flag::W);
        let h = read_u32(args.h->0@, Flag::H);
        if x is Err {
            Err(x->Err_0)
        } else if y is Err {
            Err(y->Err_0)
        } else if w is Err {
            Err(w->Err_0)
        } else if h is Err {
            Err(h->Err_0)
        } else {
            Ok(Plan::Crop { x: x->Ok_0, y: y->Ok_0, width: w->Ok_0, height: h->Ok_0 })
        }
    }
}

/// What `generate` resolves to. Each channel is 0 unless given; they are
/// read as `u8` in the order r, g, b, and the first that fails is the error.
pub open spec fn generate_plan(args: Args) -> Result<Plan, ArgError> {
    let r = read_u8_or_zero(args.r, Flag::R);
    let g = read_u8_or_zero(args.g, Flag::G);
    let b = read_u8_or_zero(args.b, Flag::B);
    if r is Err {
        Err(r->Err_0)
    } else if g is Err {
        Err(g->Err_0)
    } else if b is Err {
        Err(b->Err_0)
    } else {
        Ok(Plan::Generate { r: r->Ok_0, g: g->Ok_0, b: b->Ok_0 })
    }
}

/// What a command line resolves to: the operation that the command names,
/// with the numbers that its flags write, or the reason why there is none.
/// Flags that the command does not take are not looked at.
pub open spec fn resolution(args: Args) -> Result<Plan, ArgError> {
    let name = args.command@;
    if name == "blur"@ {
        blur_plan(args)
    } else if name == "brighten"@ {
        brighten_plan(args)
    } else if name == "crop"@ {
        crop_plan(args)
    } else if name == "rotate"@ {
        rotate_plan(args)
    } else if name == "invert"@ {
        Ok(Plan::Invert)
    } else if name == "grayscale"@ {
        Ok(Plan::Grayscale)
    } else if name == "generate"@ {
        generate_plan(args)
    } else if name == "fractal"@ {
        Ok(Plan::Fractal)
    } else {
        Err(ArgError::UnknownCommand)
    }
}

/// `out` is what the plan or the error `expected` stands for.
pub open spec fn resolves_to(
    out: Result<Command, ArgError>,
    expected: Result<Plan, ArgError>,
) -> bool {
    match expected {
        Ok(plan) => out matches Ok(command) && command@ == plan,
        Err(e) => out == Err::<Command, ArgError>(e),
    }
}

/// True if `text` is the word `word`.
fn is_word(text: &String, word: &str) -> (same: bool)
    ensures
        same == (text@ == word@),
{
    let other: String = word.to_owned();
    *text == other
}

/// Reads the text of a flag that takes a `u8`.
fn take_u8(text: &String, flag: Flag) -> (out: Result<u8, ArgError>)
    ensures
        out == read_u8(text@, flag),
{
    match parse_u8(text.as_str()) {
        Some(v) => Ok(v),
        None => Err(ArgError::Invalid { flag, expected: Kind::U8 }),
    }
}

/// Reads the text of a flag that takes a `u32`.
fn take_u32(text: &String, flag: Flag) -> (out: Result<u32, ArgError>)
    ensures
        out == read_u32(text@, flag),
{
    match parse_u32(text.as_str()) {
        Some(v) => Ok(v),
        None => Err(ArgError::Invalid { flag, expected: Kind::U32 }),
    }
}

/// Reads the text of a flag that takes an `i32`.
fn take_i32(text: &String, flag: Flag) -> (out: Result<i32, ArgError>)
    ensures
        out == read_i32(text@, flag),
{
    match parse_i32(text.as_str()) {
        Some(v) => Ok(v),
        None => Err(ArgError::Invalid { flag, expected: Kind::I32 }),
    }
}

/// Reads a flag that takes a `u8` and means 0 when left out.
fn take_u8_or_zero(field: &Option<String>, flag: Flag) -> (out: Result<u8, ArgError>)
    ensures
        out == read_u8_or_zero(*field, flag),
{
    match field {
        Some(text) => take_u8(text, flag),
        None => Ok(0),
    }
}

/// Reads a flag that takes a `u32` and means 0 when left out.
fn take_u32_or_zero(field: &Option<String>, flag: Flag) -> (out: Result<u32, ArgError>)
    ensures
        out == read_u32_or_zero(*field, flag),
{
    match field {
        Some(text) => take_u32(text, flag),
        None => Ok(0),
    }
}

/// Resolves `crop`.
fn resolve_crop(args: &Args) -> (out: Result<Command, ArgError>)
    ensures
        resolves_to(out, crop_plan(*args)),
{
    let w_text = match &args.w {
        Some(text) => text,
        None => { return Err(ArgError::Missing { flag: Flag::W }); },
    };
    let h_text = match &args.h {
        Some(text) => text,
        None => { return Err(ArgError::Missing { flag: Flag::H }); },
    };
    let x: u32 = match take_u32_or_zero(&args.x, Flag::X) {
        Ok(v) => v,
        Err(e) => { return Err(e); },
    };
    let y: u32 = match take_u32_or_zero(&args.y, Flag::Y) {
        Ok(v) => v,
        Err(e) => { return Err(e); },
    };
    let width: u32 = match take_u32(w_text, Flag::W) {
        Ok(v) => v,
        Err(e) => { return Err(e); },
    };
    let height: u32 = match take_u32(h_text, Flag::H) {
        Ok(v) => v,
        Err(e) => { return Err(e); },
    };
    Ok(Command::Crop { x, y, width, height })
}

/// Resolves `generate`.
fn resolve_generate(args: &Args) -> (out: Result<Command, ArgError>)
    ensures
        resolves_to(out, generate_plan(*args)),
{
    let r: u8 = match take_u8_or_zero(&args.r, Flag::R) {
        Ok(v) => v,
        Err(e) => { return Err(e); },
    };
    let g: u8 = match take_u8_or_zero(&args.g, Flag::G) {
        Ok(v) => v,
        Err(e) => { return Err(e); },
    };
    let b: u8 = match take_u8_or_zero(&args.b, Flag::B) {
        Ok(v) => v,
        Err(e) => { return Err(e); },
    };
    Ok(Command::Generate { r, g, b })
}

/// Resolves a command line: picks the operation that the command names and
/// reads the numbers of its flags.
pub fn resolve(args: &Args) -> (out: Result<Command, ArgError>)
    ensures
        resolves_to(out, resolution(*args)),
{
    if is_word(&args.command, "blur") {
        match &args.value {
            Some(text) => Ok(Command::Blur { sigma: text.clone() }),
            None => Err(ArgError::Missing { flag: Flag::Value }),
        }
    } else if is_word(&args.command, "brighten") {
        match &args.value {
            Some(text) => match take_i32(text, Flag::Value) {
                Ok(delta) => Ok(Command::Brighten { delta }),
                Err(e) => Err(e),
            },
            None => Err(ArgError::Missing { flag: Flag::Value }),
        }
    } else if is_word(&args.command, "crop") {
        resolve_crop(args)
    } else if is_word(&args.command, "rotate") {
        match &args.value {
            Some(text) => match take_u32(text, Flag::Value) {
                Ok(v) => Ok(Command::Rotate { rotation: Rot::from_degrees(v) }),
                Err(e) => Err(e),
            },
            None => Err(ArgError::Missing { flag: Flag::Value }),
        }
    } else if is_word(&args.command, "invert") {
        Ok(Command::Invert)
    } else if is_word(&args.command, "grayscale") {
        Ok(Command::Grayscale)
    } else if is_word(&args.command, "generate") {
        resolve_generate(args)
    } else if is_word(&args.command, "fractal") {
        Ok(Command::Fractal)
    } else {
        Err(ArgError::UnknownCommand)
    }
}

} // verus!
