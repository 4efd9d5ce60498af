//! The command shell without its input and output: what a line of input
//! asks for, what it does to the machine and the assembler of the shell,
//! and what is left for the host to print or read.

use crate::assembler::text::{lead_until, text_in, trim, trim_span, until_in, whole, Span};
use crate::assembler::{
    append_bytes, errors_view, is_text, Assembler, AssemblerError, AssemblerModel, ErrorModel,
    Refusal, PIE_HEADER_LENGTH, PIE_HEADER_PREFIX,
};
use crate::instruction::chars_of;
use crate::vm::{
    closing_event, event_kinds, text_of_utf8, Fault, Machine, RunOutcome, VMEventType,
    RUN_STEP_LIMIT, VM,
};
use vstd::prelude::*;
use vstd::slice::slice_subrange;
use vstd::utf8::{decode_utf8, encode_utf8_decode_utf8, valid_utf8};

verus! {

/// `std::num::ParseIntError`: the error of a number that cannot be read.
/// Nothing inside it is read.
#[verifier::external_type_specification]
#[verifier::external_body]
pub struct ExParseIntError(std::num::ParseIntError);

/// The shell: the commands it was given, its machine and its assembler.
pub struct REPL {
    pub cmd: Vec<String>,
    pub vm: VM,
    pub assembler: Assembler,
}

/// A command of the shell.
#[derive(Copy, Clone, Debug, PartialEq, Eq, Structural)]
pub enum Command {
    Help,
    Quit,
    History,
    Program,
    Registers,
    Instruct,
    Step,
    Run,
    RoData,
    ClearProgram,
    LoadFile,
    Invalid,
}

/// What a command leaves for the host to do.
#[derive(Debug, PartialEq)]
pub enum Action {
    /// Show the list of commands.
    Help,
    /// End the shell.
    Quit,
    /// Show the commands given so far.
    History,
    /// Show the program of the machine.
    Program,
    /// Show the registers, the remainder, the flag and the program counter.
    Registers,
    /// Show the read-only data of the machine.
    RoData,
    /// The machine took a step; it halted or it did not.
    Stepped(bool),
    /// The machine ran, and so the run ended.
    Ran(RunOutcome),
    /// The machine stands before an instruction that it cannot carry out.
    Faulted(Fault),
    /// The bytes were appended to the program.
    Loaded,
    /// The words do not spell bytes.
    BadHex(std::num::ParseIntError),
    /// The program was emptied.
    Cleared,
    /// Read the file of this name and hand it to [`REPL::load_file`].
    ReadFile(String),
    /// The command names no file.
    NoFilename,
    /// The line is no command.
    Invalid,
}

/// An action as contracts speak of it.
pub enum ActionModel {
    Help,
    Quit,
    History,
    Program,
    Registers,
    RoData,
    Stepped(bool),
    Ran(RunOutcome),
    Faulted(Fault),
    Loaded,
    BadHex,
    Cleared,
    ReadFile(Seq<char>),
    NoFilename,
    Invalid,
}

impl View for Action {
    type V = ActionModel;

    open spec fn view(&self) -> ActionModel {
        match self {
            Action::Help => ActionModel::Help,
            Action::Quit => ActionModel::Quit,
            Action::History => ActionModel::History,
            Action::Program => ActionModel::Program,
            Action::Registers => ActionModel::Registers,
            Action::RoData => ActionModel::RoData,
            Action::Stepped(halted) => ActionModel::Stepped(*halted),
            Action::Ran(outcome) => ActionModel::Ran(*outcome),
            Action::Faulted(fault) => ActionModel::Faulted(*fault),
            Action::Loaded => ActionModel::Loaded,
            Action::BadHex(_) => ActionModel::BadHex,
            Action::Cleared => ActionModel::Cleared,
            Action::ReadFile(name) => ActionModel::ReadFile(name@),
            Action::NoFilename => ActionModel::NoFilename,
            Action::Invalid => ActionModel::Invalid,
        }
    }
}

/// How the loading of an image ended.
#[derive(Debug, PartialEq)]
pub enum LoadOutcome {
    /// The bytes do not start with the prefix of an image.
    BadHeader,
    /// The bytes end before the header does.
    TooShort,
    /// The bytes behind the header are not valid UTF-8.
    InvalidText,
    /// The program of the text behind the header is not assembled.
    Refused(Refusal),
    /// The assembler found errors in the text.
    Rejected(Vec<AssemblerError>),
    /// The text was assembled and the image appended to the program.
    Parsed,
    /// The host could not read the file.
    Unreadable,
}

/// The outcome of a loading as contracts speak of it.
pub enum LoadModel {
    BadHeader,
    TooShort,
    InvalidText,
    Refused(Refusal),
    Rejected(Seq<ErrorModel>),
    Parsed,
    Unreadable,
}

impl View for LoadOutcome {
    type V = LoadModel;

    open spec fn view(&self) -> LoadModel {
        match self {
            LoadOutcome::BadHeader => LoadModel::BadHeader,
            LoadOutcome::TooShort => LoadModel::TooShort,
            LoadOutcome::InvalidText => LoadModel::InvalidText,
            LoadOutcome::Refused(refusal) => LoadModel::Refused(*refusal),
            LoadOutcome::Rejected(errors) => LoadModel::Rejected(errors_view(errors@)),
            LoadOutcome::Parsed => LoadModel::Parsed,
            LoadOutcome::Unreadable => LoadModel::Unreadable,
        }
    }
}

/// The state of a shell as contracts speak of it.
pub struct ReplModel {
    pub history: Seq<Seq<char>>,
    pub vm: Machine,
    pub events: Seq<VMEventType>,
    pub assembler: AssemblerModel,
}

impl View for REPL {
    type V = ReplModel;

    open spec fn view(&self) -> ReplModel {
        ReplModel {
            history: Seq::new(self.cmd@.len(), |i: int| self.cmd@[i]@),
            vm: self.vm@,
            events: event_kinds(self.vm.events@),
            assembler: self.assembler@,
        }
    }
}

/// The bytes that the host read, as contracts speak of them.
pub open spec fn bytes_read(bytes: Option<&Vec<u8>>) -> Option<Seq<u8>> {
    match bytes {
        Some(bytes) => Some(bytes@),
        None => None,
    }
}

/// The command that a word names.
pub open spec fn spec_command(word: Seq<char>) -> Command {
    if word == ".help"@ {
        Command::Help
    } else if word == ".quit"@ {
        Command::Quit
    } else if word == ".history"@ {
        Command::History
    } else if word == ".program"@ {
        Command::Program
    } else if word == ".registers"@ {
        Command::Registers
    } else if word == ".instruct"@ {
        Command::Instruct
    } else if word == ".step"@ {
        Command::Step
    } else if word == ".run"@ {
        Command::Run
    } else if word == ".ro_data"@ {
        Command::RoData
    } else if word == ".clear_program"@ {
        Command::ClearProgram
    } else if word == ".load_file"@ {
        Command::LoadFile
    } else {
        Command::Invalid
    }
}

/// The first word of a line: the text before its first blank.
pub open spec fn first_word(line: Seq<char>) -> Seq<char> {
    line.take(lead_until(line, ' ') as int)
}

/// The text behind the first blank of a line.
pub open spec fn arguments(line: Seq<char>) -> Option<Seq<char>> {
    if lead_until(line, ' ') < line.len() {
        Some(line.skip(lead_until(line, ' ') as int + 1))
    } else {
        None
    }
}

impl ReplModel {
    /// The state with one more line in the history.
    pub open spec fn remembered(self, line: Seq<char>) -> ReplModel {
        ReplModel { history: self.history.push(line), ..self }
    }

    /// The state after a line of input, and what is left for the host to
    /// do. The line is read without the white space around it, and its
    /// first word names the command. `.quit`, and `.load_file` before the
    /// file is read, leave the history alone; every other line enters it.
    pub open spec fn executed(self, input: Seq<char>) -> (ReplModel, ActionModel) {
        let line = trim(input);
        match spec_command(first_word(line)) {
            Command::Help => (self.remembered(line), ActionModel::Help),
            Command::Quit => (self, ActionModel::Quit),
            Command::History => (self.remembered(line), ActionModel::History),
            Command::Program => (self.remembered(line), ActionModel::Program),
            Command::Registers => (self.remembered(line), ActionModel::Registers),
            Command::RoData => (self.remembered(line), ActionModel::RoData),
            Command::Instruct => match hex_bytes(
                split_on(arguments(line).unwrap_or(Seq::empty()), ' '),
            ) {
                Some(bytes) => (
                    ReplModel {
                        vm: Machine { program: self.vm.program + bytes, ..self.vm },
                        ..self.remembered(line)
                    },
                    ActionModel::Loaded,
                ),
                None => (self.remembered(line), ActionModel::BadHex),
            },
            Command::Step => match self.vm.fault() {
                Some(fault) => (self.remembered(line), ActionModel::Faulted(fault)),
                None => (
                    ReplModel { vm: self.vm.step(), ..self.remembered(line) },
                    ActionModel::Stepped(self.vm.halts()),
                ),
            },
            Command::Run => (
                ReplModel {
                    vm: self.vm.run(RUN_STEP_LIMIT as nat).0,
                    events: self.events.push(VMEventType::Start).push(
                        closing_event(self.vm.run(RUN_STEP_LIMIT as nat).1),
                    ),
                    ..self.remembered(line)
                },
                ActionModel::Ran(self.vm.run(RUN_STEP_LIMIT as nat).1),
            ),
            Command::ClearProgram => (
                ReplModel {
                    vm: Machine { program: Seq::empty(), ..self.vm },
                    ..self.remembered(line)
                },
                ActionModel::Cleared,
            ),
            Command::LoadFile => match arguments(line) {
                Some(rest) => (self, ActionModel::ReadFile(first_word(rest))),
                None => (self, ActionModel::NoFilename),
            },
            Command::Invalid => (self.remembered(line), ActionModel::Invalid),
        }
    }

    /// The state after the bytes of an image file are loaded, and how the
    /// loading ended. The text behind the header is assembled, and the
    /// image that it gives is appended to the program of the machine. At
    /// the start of the shell, `boot`, the program counter is set behind the
    /// header and the machine gets the read-only data of the assembler.
    pub open spec fn loaded(self, bytes: Seq<u8>, boot: bool) -> (ReplModel, LoadModel) {
        if !has_magic(bytes) {
            (self, LoadModel::BadHeader)
        } else if bytes.len() < PIE_HEADER_LENGTH {
            (self, LoadModel::TooShort)
        } else if !valid_utf8(bytes.skip(PIE_HEADER_LENGTH as int)) {
            (self, LoadModel::InvalidText)
        } else {
            let text = decode_utf8(bytes.skip(PIE_HEADER_LENGTH as int));
            let after = ReplModel { assembler: self.assembler.tried(text), ..self };
            if self.assembler.refusal(text) is Some {
                (after, LoadModel::Refused(self.assembler.refusal(text).unwrap()))
            } else {
                match self.assembler.assembled(text).1 {
                    Ok(image) => (
                        ReplModel {
                            vm: Machine {
                                program: self.vm.program + image,
                                pc: if boot {
                                    PIE_HEADER_LENGTH
                                } else {
                                    self.vm.pc
                                },
                                ro_data: if boot {
                                    after.assembler.ro
                                } else {
                                    self.vm.ro_data
                                },
                                ..self.vm
                            },
                            ..after
                        },
                        LoadModel::Parsed,
                    ),
                    Err(errors) => (after, LoadModel::Rejected(errors)),
                }
            }
        }
    }

    /// The state after the host has read, or failed to read, the file that
    /// a `.load_file` line named. The bytes of a file that was read are
    /// loaded. The line enters the history unless the header is bad.
    pub open spec fn file_loaded(self, input: Seq<char>, bytes: Option<Seq<u8>>) -> (
        ReplModel,
        LoadModel,
    ) {
        match bytes {
            Some(bytes) => if self.loaded(bytes, false).1 is BadHeader {
                self.loaded(bytes, false)
            } else {
                (self.loaded(bytes, false).0.remembered(trim(input)), self.loaded(bytes, false).1)
            },
            None => (self.remembered(trim(input)), LoadModel::Unreadable),
        }
    }
}

/// The bytes start with the prefix of an image and go on behind it.
pub open spec fn has_magic(bytes: Seq<u8>) -> bool {
    bytes.len() > 4 && bytes.take(4) == seq![0x7eu8, 0x50u8, 0x49u8, 0x45u8]
}

/// The number that a hexadecimal digit stands for.
pub open spec fn hex_digit(c: char) -> Option<nat> {
    if '0' <= c <= '9' {
        Some((c as u32 - '0' as u32) as nat)
    } else if 'a' <= c <= 'f' {
        Some((c as u32 - 'a' as u32 + 10) as nat)
    } else if 'A' <= c <= 'F' {
        Some((c as u32 - 'A' as u32 + 10) as nat)
    } else {
        None
    }
}

/// Every character of the text is a hexadecimal digit.
pub open spec fn all_hex(digits: Seq<char>) -> bool {
    forall|i: int| 0 <= i < digits.len() ==> hex_digit(#[trigger] digits[i]) is Some
}

/// The number that a string of hexadecimal digits spells.
pub open spec fn hex_number(digits: Seq<char>) -> nat
    decreases digits.len(),
{
    if digits.len() == 0 {
        0
    } else {
        hex_number(digits.drop_last()) * 16 + hex_digit(digits.last()).unwrap_or(0)
    }
}

/// The byte that a word spells in base 16: the word is one or more
/// hexadecimal digits, with a `+` allowed before them, and spells a number
/// up to 255.
pub open spec fn spec_hex_byte(word: Seq<char>) -> Option<u8> {
    let digits = if word.len() > 0 && word[0] == '+' {
        word.skip(1)
    } else {
        word
    };
    if digits.len() > 0 && all_hex(digits) && hex_number(digits) <= 255 {
        Some(hex_number(digits) as u8)
    } else {
        None
    }
}

/// The pieces of a text between the occurrences of `c`: one more piece
/// than the text has occurrences.
pub open spec fn split_on(s: Seq<char>, c: char) -> Seq<Seq<char>>
    decreases s.len(),
{
    if lead_until(s, c) < s.len() {
        seq![s.take(lead_until(s, c) as int)] + split_on(s.skip(lead_until(s, c) as int + 1), c)
    } else {
        seq![s]
    }
}

/// The bytes that the words spell in base 16, where each of them spells
/// one.
pub open spec fn hex_bytes(words: Seq<Seq<char>>) -> Option<Seq<u8>>
    decreases words.len(),
{
    if words.len() == 0 {
        Some(Seq::empty())
    } else {
        match (hex_bytes(words.drop_last()), spec_hex_byte(words.last())) {
            (Some(bytes), Some(b)) => Some(bytes.push(b)),
            _ => None,
        }
    }
}

/// `u8::from_str_radix` with radix 16 reads an optional `+` and then
/// hexadecimal digits of either case; it fails on an empty string, on any
/// other character and on a number above 255.
#[verifier::external_body]
fn hex_byte(word: &str) -> (r: Result<u8, std::num::ParseIntError>)
    ensures
        match r {
            Ok(b) => spec_hex_byte(word@) == Some(b),
            Err(_) => spec_hex_byte(word@) is None,
        },
{
    u8::from_str_radix(word, 16)
}

impl REPL {
    /// A shell with a new machine, a new assembler and no history.
    pub fn new() -> (r: REPL)
        ensures
            r.cmd@.len() == 0,
            r.assembler@ == AssemblerModel::fresh(),
            r.vm@.regs == Seq::new(32, |i: int| 0i32),
            r.vm@.pc == 0,
            r.vm@.program.len() == 0,
            r.vm@.heap.len() == 0,
            r.vm@.ro_data.len() == 0,
            r.vm@.remainder == 0,
            !r.vm@.flag,
            r.vm@.output.len() == 0,
            r.vm.events@.len() == 0,
    {
        REPL { vm: VM::new(), cmd: Vec::new(), assembler: Assembler::new() }
    }

    /// Whether the bytes start with the prefix of an image and go on
    /// behind it.
    pub fn verify_header(&self, bytes: &Vec<u8>) -> (b: bool)
        ensures
            b == has_magic(bytes@),
    {
        if bytes.len() > 4 && bytes[0] == PIE_HEADER_PREFIX[0] && bytes[1] == PIE_HEADER_PREFIX[1]
            && bytes[2] == PIE_HEADER_PREFIX[2] && bytes[3] == PIE_HEADER_PREFIX[3] {
            assert(bytes@.take(4) =~= seq![0x7eu8, 0x50u8, 0x49u8, 0x45u8]);
            true
        } else {
            assert(bytes@.len() > 4 ==> bytes@.take(4)[0] == bytes@[0] && bytes@.take(4)[1]
                == bytes@[1] && bytes@.take(4)[2] == bytes@[2] && bytes@.take(4)[3] == bytes@[3]);
            false
        }
    }

    /// The bytes that the words of a text spell in base 16, the words being
    /// the pieces between its blanks; the error of the first word that
    /// spells no byte where there is one.
    pub fn parse_hex(&mut self, i: &str) -> (r: Result<Vec<u8>, std::num::ParseIntError>)
        ensures
            *final(self) == *old(self),
            match r {
                Ok(bytes) => hex_bytes(split_on(i@, ' ')) == Some(bytes@),
                Err(_) => hex_bytes(split_on(i@, ' ')) is None,
            },
    {
        let text = chars_of(i);
        hex_words(text.as_slice(), whole(&text))
    }
}

/// The command that a word names.
pub fn command(word: &String) -> (c: Command)
    ensures
        c == spec_command(word@),
{
    if is_text(word, ".help") {
        Command::Help
    } else if is_text(word, ".quit") {
        Command::Quit
    } else if is_text(word, ".history") {
        Command::History
    } else if is_text(word, ".program") {
        Command::Program
    } else if is_text(word, ".registers") {
        Command::Registers
    } else if is_text(word, ".instruct") {
        Command::Instruct
    } else if is_text(word, ".step") {
        Command::Step
    } else if is_text(word, ".run") {
        Command::Run
    } else if is_text(word, ".ro_data") {
        Command::RoData
    } else if is_text(word, ".clear_program") {
        Command::ClearProgram
    } else if is_text(word, ".load_file") {
        Command::LoadFile
    } else {
        Command::Invalid
    }
}

/// The first word of the window, and the window behind its first blank.
fn split_first(text: &[char], w: Span) -> (r: (Span, Option<Span>))
    requires
        w.wf(text@),
    ensures
        r.0.wf(text@),
        r.0.of(text@) == first_word(w.of(text@)),
        match r.1 {
            Some(rest) => rest.wf(text@) && arguments(w.of(text@)) == Some(rest.of(text@)),
            None => arguments(w.of(text@)) is None,
        },
{
    match until_in(text, w, ' ') {
        Some((before, after)) => {
            let rest = Span { lo: after.lo + 1, hi: after.hi };
            proof {
                assert(before.of(text@).len() == lead_until(w.of(text@), ' '));
                assert(rest.of(text@) =~= w.of(text@).skip(
                    lead_until(w.of(text@), ' ') as int + 1,
                ));
            }
            (before, Some(rest))
        },
        None => {
            proof {
                crate::assembler::text::lemma_lead_until_bound(w.of(text@), ' ');
                assert(w.of(text@).take(w.of(text@).len() as int) =~= w.of(text@));
            }
            (w, None)
        },
    }
}

impl REPL {
    /// Enters a line into the history.
    fn remember(&mut self, line: String)
        ensures
            final(self)@ == old(self)@.remembered(line@),
            final(self).vm == old(self).vm,
            final(self).assembler == old(self).assembler,
    {
        self.cmd.push(line);
        assert(self@.history =~= old(self)@.history.push(line@));
    }

    /// Carries out a line of input and says what is left for the host to
    /// do.
    pub fn execute(&mut self, input: &str) -> (action: Action)
        ensures
            final(self)@ == old(self)@.executed(input@).0,
            action@ == old(self)@.executed(input@).1,
            final(self).vm.id == old(self).vm.id,
    {
        let text = chars_of(input);
        let line = trim_span(text.as_slice(), whole(&text));
        let (word, rest) = split_first(text.as_slice(), line);
        let name = text_in(text.as_slice(), word);
        let entry = text_in(text.as_slice(), line);
        match command(&name) {
            Command::Help => {
                self.remember(entry);
                Action::Help
            },
            Command::Quit => Action::Quit,
            Command::History => {
                self.remember(entry);
                Action::History
            },
            Command::Program => {
                self.remember(entry);
                Action::Program
            },
            Command::Registers => {
                self.remember(entry);
                Action::Registers
            },
            Command::RoData => {
                self.remember(entry);
                Action::RoData
            },
            Command::Instruct => {
                let words = match rest {
                    Some(rest) => rest,
                    None => Span { lo: line.hi, hi: line.hi },
                };
                assert(words.of(text@) =~= arguments(line.of(text@)).unwrap_or(Seq::empty()));
                match hex_words(text.as_slice(), words) {
                    Ok(bytes) => {
                        append_bytes(&mut self.vm.program, bytes.as_slice());
                        self.remember(entry);
                        Action::Loaded
                    },
                    Err(e) => {
                        self.remember(entry);
                        Action::BadHex(e)
                    },
                }
            },
            Command::Step => {
                match self.vm.fault() {
                    Some(fault) => {
                        self.remember(entry);
                        Action::Faulted(fault)
                    },
                    None => {
                        let halted = self.vm.step();
                        self.remember(entry);
                        Action::Stepped(halted)
                    },
                }
            },
            Command::Run => {
                let outcome = self.vm.run_bounded(RUN_STEP_LIMIT);
                self.remember(entry);
                Action::Ran(outcome)
            },
            Command::ClearProgram => {
                self.vm.program.clear();
                self.remember(entry);
                assert(self@.vm.program =~= Seq::<u8>::empty());
                Action::Cleared
            },
            Command::LoadFile => {
                match rest {
                    Some(rest) => {
                        let (file, _) = split_first(text.as_slice(), rest);
                        Action::ReadFile(text_in(text.as_slice(), file))
                    },
                    None => Action::NoFilename,
                }
            },
            Command::Invalid => {
                self.remember(entry);
                Action::Invalid
            },
        }
    }

    /// Loads the bytes of an image file: see [`ReplModel::loaded`].
    fn load(&mut self, bytes: &Vec<u8>, boot: bool) -> (outcome: LoadOutcome)
        ensures
            final(self)@ == old(self)@.loaded(bytes@, boot).0,
            outcome@ == old(self)@.loaded(bytes@, boot).1,
            final(self).vm.id == old(self).vm.id,
    {
        if !self.verify_header(bytes) {
            return LoadOutcome::BadHeader;
        }
        if bytes.len() < PIE_HEADER_LENGTH {
            return LoadOutcome::TooShort;
        }
        let source = slice_subrange(bytes.as_slice(), PIE_HEADER_LENGTH, bytes.len());
        assert(source@ =~= bytes@.skip(PIE_HEADER_LENGTH as int));
        let text = match text_of_utf8(source) {
            Some(text) => text,
            None => {
                return LoadOutcome::InvalidText;
            },
        };
        proof {
            encode_utf8_decode_utf8(text@);
        }
        match self.assembler.try_assemble(text.as_str()) {
            Err(refusal) => LoadOutcome::Refused(refusal),
            Ok(Ok(image)) => {
                append_bytes(&mut self.vm.program, image.as_slice());
                if boot {
                    self.vm.pc = PIE_HEADER_LENGTH;
                    let mut data: Vec<u8> = Vec::new();
                    append_bytes(&mut data, self.assembler.ro.as_slice());
                    assert(data@ =~= self.assembler.ro@);
                    self.vm.ro_data = data;
                }
                LoadOutcome::Parsed
            },
            Ok(Err(errors)) => LoadOutcome::Rejected(errors),
        }
    }

    /// Loads the bytes of the image file that the shell was started with.
    pub fn load_image(&mut self, bytes: &Vec<u8>) -> (outcome: LoadOutcome)
        ensures
            final(self)@ == old(self)@.loaded(bytes@, true).0,
            outcome@ == old(self)@.loaded(bytes@, true).1,
            final(self).vm.id == old(self).vm.id,
    {
        self.load(bytes, true)
    }

    /// Takes what the host read of the file that the `.load_file` line
    /// `input` named, nothing where the file could not be read: loads the
    /// bytes, and enters the line into the history unless the header is
    /// bad.
    pub fn load_file(&mut self, input: &str, bytes: Option<&Vec<u8>>) -> (outcome: LoadOutcome)
        ensures
            final(self)@ == old(self)@.file_loaded(input@, bytes_read(bytes)).0,
            outcome@ == old(self)@.file_loaded(input@, bytes_read(bytes)).1,
            final(self).vm.id == old(self).vm.id,
    {
        let outcome = match bytes {
            Some(bytes) => self.load(bytes, false),
            None => LoadOutcome::Unreadable,
        };
        match outcome {
            LoadOutcome::BadHeader => {},
            _ => {
                let text = chars_of(input);
                let line = trim_span(text.as_slice(), whole(&text));
                self.remember(text_in(text.as_slice(), line));
            },
        }
        outcome
    }
}

/// The bytes that the words of a window spell in base 16.
fn hex_words(text: &[char], w: Span) -> (r: Result<Vec<u8>, std::num::ParseIntError>)
    requires
        w.wf(text@),
    ensures
        match r {
            Ok(bytes) => hex_bytes(split_on(w.of(text@), ' ')) == Some(bytes@),
            Err(_) => hex_bytes(split_on(w.of(text@), ' ')) is None,
        },
{
    let mut res: Vec<u8> = Vec::new();
    let mut rest = w;
    let ghost mut done: Seq<Seq<char>> = Seq::empty();
    loop
        invariant
            w.wf(text@),
            rest.wf(text@),
            split_on(w.of(text@), ' ') == done + split_on(rest.of(text@), ' '),
            hex_bytes(done) == Some(res@),
        decreases rest.hi - rest.lo,
    {
        let ghost left = rest.of(text@);
        let ghost k = lead_until(left, ' ') as int;
        let found = until_in(text, rest, ' ');
        let word = match found {
            Some((before, _)) => before,
            None => rest,
        };
        proof {
            if found is Some {
                assert(word.of(text@).len() == k);
                assert(word.hi == rest.lo + k);
            }
            assert(word.of(text@) == split_on(left, ' ')[0]);
            assert(done.push(word.of(text@)).drop_last() =~= done);
            assert(done.push(word.of(text@)) =~= (done + split_on(left, ' ')).take(
                done.len() as int + 1,
            ));
        }
        let piece = text_in(text, word);
        match hex_byte(piece.as_str()) {
            Ok(b) => {
                res.push(b);
            },
            Err(e) => {
                proof {
                    lemma_hex_bytes_prefix(done.push(word.of(text@)), split_on(w.of(text@), ' '));
                }
                return Err(e);
            },
        }
        match found {
            Some((_, after)) => {
                let next = Span { lo: after.lo + 1, hi: after.hi };
                proof {
                    assert(next.of(text@) =~= left.skip(k + 1));
                    assert(done.push(word.of(text@)) + split_on(next.of(text@), ' ') =~= done
                        + split_on(left, ' '));
                    done = done.push(word.of(text@));
                }
                rest = next;
            },
            None => {
                proof {
                    assert(done.push(word.of(text@)) =~= done + split_on(left, ' '));
                }
                return Ok(res);
            },
        }
    }
}

/// Words spell no bytes where some of the first of them do not.
pub proof fn lemma_hex_bytes_prefix(first: Seq<Seq<char>>, words: Seq<Seq<char>>)
    requires
        first.len() <= words.len(),
        first == words.take(first.len() as int),
        hex_bytes(first) is None,
    ensures
        hex_bytes(words) is None,
    decreases words.len(),
{
    if first.len() < words.len() {
        assert(words.drop_last().take(first.len() as int) =~= first);
        lemma_hex_bytes_prefix(first, words.drop_last());
    } else {
        assert(words.take(first.len() as int) =~= words);
    }
}

} // verus!
