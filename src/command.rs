//! The operations of one invocation. Each one decodes its parameters into
//! the bytes that the store is asked about before anything reaches the store,
//! and says what is printed once the store has answered.
use vstd::prelude::*;
use vstd::utf8::*;
use crate::batch::{BatchPut, Contents};
use crate::codec::{
    decode_param, display, encode_display, mode_of, modes_of, param_bytes, resolve_modes,
    resolved_modes, EncodingMode, HexFlags, Modes,
};
use crate::compare::compare;
use crate::hex::DecodeError;
use crate::scan::{format_pair, pair_line, LineStyle, ScanCursor};
use core::cmp::Ordering;

verus! {

/// What a successful operation prints.
#[derive(Debug)]
pub enum Reply {
    /// A line on standard output.
    Stdout(String),
    /// A line on standard error; the operation still succeeds.
    Stderr(String),
}

/// The reply of a write that the store accepted.
pub fn ok_reply() -> (r: Reply)
    ensures
        r matches Reply::Stdout(s) && s@ == "OK"@,
{
    Reply::Stdout(String::from_str("OK"))
}

/// How the store is opened.
#[derive(PartialEq, Eq, Structural, Clone, Copy, Debug)]
pub struct OpenOptions {
    pub create_if_missing: bool,
    /// Strict integrity checks while opening.
    pub paranoid_checks: bool,
    /// The number of levels to open with, where it is set.
    pub num_levels: Option<i32>,
}

/// The options of every operation but the consistency check.
pub fn build_options(create_if_missing: bool) -> (r: OpenOptions)
    ensures
        r == (OpenOptions { create_if_missing, paranoid_checks: false, num_levels: None }),
{
    OpenOptions { create_if_missing, paranoid_checks: false, num_levels: None }
}

/// Reads the value of one key.
#[derive(Debug)]
pub struct Get {
    pub key: String,
    pub key_hex: bool,
    pub value_hex: bool,
}

impl Get {
    pub open spec fn modes(&self) -> Modes {
        modes_of(self.key_hex, self.value_hex)
    }

    pub fn new(key: String, flags: HexFlags) -> (r: Get)
        ensures
            r.key@ == key@,
            r.modes() == resolved_modes(flags),
    {
        let modes = resolve_modes(flags);
        Get {
            key,
            key_hex: modes.key == EncodingMode::Hex,
            value_hex: modes.value == EncodingMode::Hex,
        }
    }

    /// The key to read.
    pub fn plan(&self) -> (r: Result<Vec<u8>, DecodeError>)
        ensures
            match r {
                Ok(k) => param_bytes(self.key@, self.modes().key) == Some(k@),
                Err(DecodeError::InvalidHex { input }) => param_bytes(self.key@, self.modes().key) is None
                    && input@ == self.key@,
            },
    {
        decode_param(self.key.as_str(), mode_of_exec(self.key_hex))
    }

    /// What is printed for the store's answer: the value in its mode, or
    /// `Not Found` on standard error where the key is absent.
    pub fn reply(&self, found: Option<Vec<u8>>) -> (r: Reply)
        ensures
            match found {
                Some(v) => r matches Reply::Stdout(s) && s@ == display(v@, self.modes().value),
                None => r matches Reply::Stderr(s) && s@ == "Not Found"@,
            },
    {
        match found {
            Some(v) => Reply::Stdout(encode_display(v.as_slice(), mode_of_exec(self.value_hex))),
            None => Reply::Stderr(String::from_str("Not Found")),
        }
    }
}

/// The mode that a resolved switch names.
pub fn mode_of_exec(hex: bool) -> (r: EncodingMode)
    ensures
        r == mode_of(hex),
{
    if hex {
        EncodingMode::Hex
    } else {
        EncodingMode::Text
    }
}

/// Writes one value under one key.
#[derive(Debug)]
pub struct Put {
    pub key: String,
    pub value: String,
    pub key_hex: bool,
    pub value_hex: bool,
}

impl Put {
    pub open spec fn modes(&self) -> Modes {
        modes_of(self.key_hex, self.value_hex)
    }

    pub fn create(key: String, value: String, flags: HexFlags) -> (r: Put)
        ensures
            r.key@ == key@,
            r.value@ == value@,
            r.modes() == resolved_modes(flags),
    {
        let modes = resolve_modes(flags);
        Put {
            key,
            value,
            key_hex: modes.key == EncodingMode::Hex,
            value_hex: modes.value == EncodingMode::Hex,
        }
    }

    /// The key and the value to write; the key is decoded first.
    pub fn plan(&self) -> (r: Result<(Vec<u8>, Vec<u8>), DecodeError>)
        ensures
            match r {
                Ok((k, v)) => param_bytes(self.key@, self.modes().key) == Some(k@) && param_bytes(
                    self.value@,
                    self.modes().value,
                ) == Some(v@),
                Err(DecodeError::InvalidHex { input }) => {
                    ||| param_bytes(self.key@, self.modes().key) is None && input@ == self.key@
                    ||| param_bytes(self.key@, self.modes().key) is Some && param_bytes(
                        self.value@,
                        self.modes().value,
                    ) is None && input@ == self.value@
                },
            },
    {
        let k = decode_param(self.key.as_str(), mode_of_exec(self.key_hex))?;
        let v = decode_param(self.value.as_str(), mode_of_exec(self.value_hex))?;
        Ok((k, v))
    }
}

/// The store after deleting a key; absent keys are no error.
pub open spec fn delete_effect(
    store: Contents,
    key: Seq<u8>,
) -> Contents {
    store.remove(key)
}

/// Deleting a key that is already gone changes nothing, and the reply of a
/// delete (`OK`) does not depend on whether the key was there.
pub proof fn lemma_delete_idempotent(store: Contents, key: Seq<u8>)
    ensures
        delete_effect(delete_effect(store, key), key) == delete_effect(store, key),
        !delete_effect(store, key).contains_key(key),
{
    assert(delete_effect(delete_effect(store, key), key) =~= delete_effect(store, key));
}

/// Deletes one key.
#[derive(Debug)]
pub struct Delete {
    pub key: String,
    pub key_hex: bool,
}

impl Delete {
    pub fn create(key: String, flags: HexFlags) -> (r: Delete)
        ensures
            r.key@ == key@,
            mode_of(r.key_hex) == resolved_modes(flags).key,
    {
        let modes = resolve_modes(flags);
        Delete { key, key_hex: modes.key == EncodingMode::Hex }
    }

    /// The key to delete.
    pub fn plan(&self) -> (r: Result<Vec<u8>, DecodeError>)
        ensures
            match r {
                Ok(k) => param_bytes(self.key@, mode_of(self.key_hex)) == Some(k@),
                Err(DecodeError::InvalidHex { input }) => param_bytes(self.key@, mode_of(self.key_hex))
                    is None && input@ == self.key@,
            },
    {
        decode_param(self.key.as_str(), mode_of_exec(self.key_hex))
    }
}

/// Deletes the keys of the half-open range `[from_key, to_key)`.
#[derive(Debug)]
pub struct DeleteRange {
    pub from_key: String,
    pub to_key: String,
    pub key_hex: bool,
}

impl DeleteRange {
    pub fn create(from_key: String, to_key: String, flags: HexFlags) -> (r: DeleteRange)
        ensures
            r.from_key@ == from_key@,
            r.to_key@ == to_key@,
            mode_of(r.key_hex) == resolved_modes(flags).key,
    {
        let modes = resolve_modes(flags);
        DeleteRange { from_key, to_key, key_hex: modes.key == EncodingMode::Hex }
    }

    /// The two bounds of the range; the lower one is decoded first.
    pub fn plan(&self) -> (r: Result<(Vec<u8>, Vec<u8>), DecodeError>)
        ensures
            match r {
                Ok((f, t)) => param_bytes(self.from_key@, mode_of(self.key_hex)) == Some(f@)
                    && param_bytes(self.to_key@, mode_of(self.key_hex)) == Some(t@),
                Err(DecodeError::InvalidHex { input }) => {
                    ||| param_bytes(self.from_key@, mode_of(self.key_hex)) is None && input@
                        == self.from_key@
                    ||| param_bytes(self.from_key@, mode_of(self.key_hex)) is Some && param_bytes(
                        self.to_key@,
                        mode_of(self.key_hex),
                    ) is None && input@ == self.to_key@
                },
            },
    {
        let mode = mode_of_exec(self.key_hex);
        let f = decode_param(self.from_key.as_str(), mode)?;
        let t = decode_param(self.to_key.as_str(), mode)?;
        Ok((f, t))
    }
}

/// The bytes of an optional bound, if it is absent or well formed.
pub open spec fn bound_bytes(b: Option<String>, mode: EncodingMode) -> Option<Option<Seq<u8>>> {
    match b {
        None => Some(None),
        Some(s) => match param_bytes(s@, mode) {
            Some(v) => Some(Some(v)),
            None => None,
        },
    }
}

/// The text of an optional bound; empty where there is none.
pub open spec fn bound_text(b: Option<String>) -> Seq<char> {
    match b {
        Some(s) => s@,
        None => Seq::empty(),
    }
}

/// Decodes an optional bound.
fn decode_bound(b: &Option<String>, mode: EncodingMode) -> (r: Result<Option<Vec<u8>>, DecodeError>)
    ensures
        match r {
            Ok(None) => b is None,
            Ok(Some(v)) => bound_bytes(*b, mode) == Some(Some(v@)),
            Err(DecodeError::InvalidHex { input }) => bound_bytes(*b, mode) is None && input@ == bound_text(*b),
        },
{
    match b {
        None => Ok(None),
        Some(s) => {
            let v = decode_param(s.as_str(), mode)?;
            Ok(Some(v))
        },
    }
}

/// The cursor of a scan or dump over the range `[from, to)`, or the
/// decoding error of the first malformed bound; nothing reaches the store
/// before both bounds are decoded.
fn range_cursor(
    from: &Option<String>,
    to: &Option<String>,
    modes: Modes,
    max: Option<usize>,
    style: LineStyle,
) -> (r: Result<ScanCursor, DecodeError>)
    ensures
        match r {
            Ok(c) => {
                &&& c.wf()
                &&& bound_bytes(*from, modes.key) == Some(c.start_view())
                &&& bound_bytes(*to, modes.key) == Some(c.to_view())
                &&& c.max_view() == max
                &&& c.modes_view() == modes
                &&& c.style_view() == style
                &&& c.fed_keys() == Seq::<Seq<u8>>::empty()
            },
            Err(DecodeError::InvalidHex { input }) => {
                ||| bound_bytes(*from, modes.key) is None && input@ == bound_text(*from)
                ||| bound_bytes(*from, modes.key) is Some && bound_bytes(*to, modes.key) is None
                    && input@ == bound_text(*to)
            },
        },
{
    let start = decode_bound(from, modes.key)?;
    let end = decode_bound(to, modes.key)?;
    Ok(ScanCursor::new(start, end, max, modes, style))
}

/// Lists the pairs of a range as `key : value` lines.
#[derive(Debug)]
pub struct Scan {
    pub from: Option<String>,
    pub to: Option<String>,
    pub key_hex: bool,
    pub value_hex: bool,
}

impl Scan {
    pub open spec fn modes(&self) -> Modes {
        modes_of(self.key_hex, self.value_hex)
    }

    pub fn new(from: Option<String>, to: Option<String>, flags: HexFlags) -> (r: Scan)
        ensures
            r.from == from,
            r.to == to,
            r.modes() == resolved_modes(flags),
    {
        let modes = resolve_modes(flags);
        Scan {
            from,
            to,
            key_hex: modes.key == EncodingMode::Hex,
            value_hex: modes.value == EncodingMode::Hex,
        }
    }

    /// The cursor that decides which pairs are listed, with no cap.
    pub fn plan(&self) -> (r: Result<ScanCursor, DecodeError>)
        ensures
            match r {
                Ok(c) => {
                    &&& c.wf()
                    &&& bound_bytes(self.from, self.modes().key) == Some(c.start_view())
                    &&& bound_bytes(self.to, self.modes().key) == Some(c.to_view())
                    &&& c.max_view() is None
                    &&& c.modes_view() == self.modes()
                    &&& c.style_view() == LineStyle::Listing
                    &&& c.fed_keys() == Seq::<Seq<u8>>::empty()
                },
                Err(DecodeError::InvalidHex { input }) => {
                    ||| bound_bytes(self.from, self.modes().key) is None && input@ == bound_text(self.from)
                    ||| bound_bytes(self.from, self.modes().key) is Some && bound_bytes(
                        self.to,
                        self.modes().key,
                    ) is None && input@ == bound_text(self.to)
                },
            },
    {
        let modes = Modes { key: mode_of_exec(self.key_hex), value: mode_of_exec(self.value_hex) };
        range_cursor(&self.from, &self.to, modes, None, LineStyle::Listing)
    }
}

/// Writes the pairs of a range to a file as `key ==> value` lines, up to a
/// cap on their number.
#[derive(Debug)]
pub struct Dump {
    pub from: Option<String>,
    pub to: Option<String>,
    pub key_hex: bool,
    pub value_hex: bool,
    pub max_keys: Option<usize>,
    pub output_file_path: String,
}

impl Dump {
    pub open spec fn modes(&self) -> Modes {
        modes_of(self.key_hex, self.value_hex)
    }

    pub fn create(
        from: Option<String>,
        to: Option<String>,
        flags: HexFlags,
        max_keys: Option<usize>,
        output_file_path: String,
    ) -> (r: Dump)
        ensures
            r.from == from,
            r.to == to,
            r.modes() == resolved_modes(flags),
            r.max_keys == max_keys,
            r.output_file_path@ == output_file_path@,
    {
        let modes = resolve_modes(flags);
        Dump {
            from,
            to,
            key_hex: modes.key == EncodingMode::Hex,
            value_hex: modes.value == EncodingMode::Hex,
            max_keys,
            output_file_path,
        }
    }

    /// One line of the dump file, without its line break.
    pub fn print_key_value(&self, key: &[u8], value: &[u8]) -> (r: String)
        ensures
            r@ == pair_line(key@, value@, self.modes(), LineStyle::Dump),
    {
        let modes = Modes { key: mode_of_exec(self.key_hex), value: mode_of_exec(self.value_hex) };
        format_pair(key, value, modes, LineStyle::Dump)
    }

    /// The cursor that decides which pairs are written, capped at `max_keys`.
    pub fn plan(&self) -> (r: Result<ScanCursor, DecodeError>)
        ensures
            match r {
                Ok(c) => {
                    &&& c.wf()
                    &&& bound_bytes(self.from, self.modes().key) == Some(c.start_view())
                    &&& bound_bytes(self.to, self.modes().key) == Some(c.to_view())
                    &&& c.max_view() == self.max_keys
                    &&& c.modes_view() == self.modes()
                    &&& c.style_view() == LineStyle::Dump
                    &&& c.fed_keys() == Seq::<Seq<u8>>::empty()
                },
                Err(DecodeError::InvalidHex { input }) => {
                    ||| bound_bytes(self.from, self.modes().key) is None && input@ == bound_text(self.from)
                    ||| bound_bytes(self.from, self.modes().key) is Some && bound_bytes(
                        self.to,
                        self.modes().key,
                    ) is None && input@ == bound_text(self.to)
                },
            },
    {
        let modes = Modes { key: mode_of_exec(self.key_hex), value: mode_of_exec(self.value_hex) };
        range_cursor(&self.from, &self.to, modes, self.max_keys, LineStyle::Dump)
    }
}

/// Opens the store with strict integrity checks and reports whether that worked.
#[derive(Debug)]
pub struct CheckConsistency;

impl CheckConsistency {
    pub fn create() -> (r: CheckConsistency) {
        CheckConsistency
    }

    /// Paranoid checks while opening, and room for 64 levels so that a
    /// store with more levels than the default still opens.
    pub fn options(&self, create_if_missing: bool) -> (r: OpenOptions)
        ensures
            r == (OpenOptions { create_if_missing, paranoid_checks: true, num_levels: Some(64) }),
    {
        OpenOptions { create_if_missing, paranoid_checks: true, num_levels: Some(64) }
    }
}

/// The operations, by name.
#[derive(PartialEq, Eq, Structural, Clone, Copy, Debug)]
pub enum Operation {
    Get,
    Put,
    Delete,
    BatchPut,
    Scan,
    DeleteRange,
    CheckConsistency,
    Dump,
}

/// The operation that a name selects.
pub open spec fn operation_named(name: Seq<char>) -> Option<Operation> {
    if name == "get"@ {
        Some(Operation::Get)
    } else if name == "put"@ {
        Some(Operation::Put)
    } else if name == "delete"@ {
        Some(Operation::Delete)
    } else if name == "batchput"@ {
        Some(Operation::BatchPut)
    } else if name == "scan"@ {
        Some(Operation::Scan)
    } else if name == "deleterange"@ {
        Some(Operation::DeleteRange)
    } else if name == "checkconsistency"@ {
        Some(Operation::CheckConsistency)
    } else if name == "dump"@ {
        Some(Operation::Dump)
    } else {
        None
    }
}

/// Whether two strings are the same text.
fn same_text(a: &str, b: &str) -> (r: bool)
    ensures
        r == (a@ == b@),
{
    let c = compare(a.as_bytes(), b.as_bytes());
    proof {
        encode_utf8_decode_utf8(a@);
        encode_utf8_decode_utf8(b@);
    }
    matches!(c, Ordering::Equal)
}

/// One operation with its parameters, as the command line gives them.
#[derive(Debug)]
pub struct Request {
    pub operation: String,
    /// The positional parameters, in order.
    pub args: Vec<String>,
    pub from: Option<String>,
    pub to: Option<String>,
    pub max_keys: Option<usize>,
    pub output: Option<String>,
    pub flags: HexFlags,
}

/// Why a request names no runnable operation.
#[derive(Debug)]
pub enum RequestError {
    /// No operation has this name.
    UnknownOperation(String),
    /// The operation needs a parameter that the request lacks.
    MissingArgument,
}

/// One operation, ready to run.
#[derive(Debug)]
pub enum Command {
    Get(Get),
    Put(Put),
    Delete(Delete),
    BatchPut(BatchPut),
    Scan(Scan),
    DeleteRange(DeleteRange),
    CheckConsistency(CheckConsistency),
    Dump(Dump),
}

/// Whether a request holds what an operation needs: a key for `get` and
/// `delete`, two for `put` and `deleterange`, an output file for `dump`.
pub open spec fn has_arguments(o: Operation, req: Request) -> bool {
    match o {
        Operation::Get | Operation::Delete => req.args@.len() >= 1,
        Operation::Put | Operation::DeleteRange => req.args@.len() >= 2,
        Operation::Dump => req.output is Some,
        _ => true,
    }
}

/// Whether a command is the one that a request describes.
pub open spec fn built_from(c: Command, req: Request) -> bool {
    let modes = resolved_modes(req.flags);
    let args = req.args@;
    match c {
        Command::Get(g) => operation_named(req.operation@) == Some(Operation::Get) && g.key@
            == args[0]@ && g.modes() == modes,
        Command::Put(p) => operation_named(req.operation@) == Some(Operation::Put) && p.key@
            == args[0]@ && p.value@ == args[1]@ && p.modes() == modes,
        Command::Delete(d) => operation_named(req.operation@) == Some(Operation::Delete) && d.key@
            == args[0]@ && mode_of(d.key_hex) == modes.key,
        Command::BatchPut(b) => operation_named(req.operation@) == Some(Operation::BatchPut)
            && b.key_values@ == args && b.modes() == modes,
        Command::Scan(s) => operation_named(req.operation@) == Some(Operation::Scan) && s.from
            == req.from && s.to == req.to && s.modes() == modes,
        Command::DeleteRange(d) => operation_named(req.operation@) == Some(Operation::DeleteRange)
            && d.from_key@ == args[0]@ && d.to_key@ == args[1]@ && mode_of(d.key_hex) == modes.key,
        Command::CheckConsistency(_) => operation_named(req.operation@) == Some(
            Operation::CheckConsistency,
        ),
        Command::Dump(d) => operation_named(req.operation@) == Some(Operation::Dump) && d.from
            == req.from && d.to == req.to && d.modes() == modes && d.max_keys == req.max_keys
            && req.output is Some && d.output_file_path@ == req.output->0@,
    }
}

/// The command that a request names, with its parameters.
pub fn create(req: Request) -> (r: Result<Command, RequestError>)
    ensures
        match r {
            Ok(c) => built_from(c, req),
            Err(RequestError::UnknownOperation(name)) => operation_named(req.operation@) is None
                && name@ == req.operation@,
            Err(RequestError::MissingArgument) => operation_named(req.operation@) is Some
                && !has_arguments(operation_named(req.operation@)->0, req),
        },
{
    let Request { operation, args, from, to, max_keys, output, flags } = req;
    let name = operation.as_str();
    if same_text(name, "get") {
        if args.len() < 1 {
            return Err(RequestError::MissingArgument);
        }
        Ok(Command::Get(Get::new(args[0].clone(), flags)))
    } else if same_text(name, "put") {
        if args.len() < 2 {
            return Err(RequestError::MissingArgument);
        }
        Ok(Command::Put(Put::create(args[0].clone(), args[1].clone(), flags)))
    } else if same_text(name, "delete") {
        if args.len() < 1 {
            return Err(RequestError::MissingArgument);
        }
        Ok(Command::Delete(Delete::create(args[0].clone(), flags)))
    } else if same_text(name, "batchput") {
        Ok(Command::BatchPut(BatchPut::new(args, flags)))
    } else if same_text(name, "scan") {
        Ok(Command::Scan(Scan::new(from, to, flags)))
    } else if same_text(name, "deleterange") {
        if args.len() < 2 {
            return Err(RequestError::MissingArgument);
        }
        Ok(Command::DeleteRange(DeleteRange::create(args[0].clone(), args[1].clone(), flags)))
    } else if same_text(name, "checkconsistency") {
        Ok(Command::CheckConsistency(CheckConsistency::create()))
    } else if same_text(name, "dump") {
        match output {
            Some(path) => Ok(Command::Dump(Dump::create(from, to, flags, max_keys, path))),
            None => Err(RequestError::MissingArgument),
        }
    } else {
        Err(RequestError::UnknownOperation(operation))
    }
}

impl Command {
    /// How the store is opened for this command: strictly for the
    /// consistency check, plainly otherwise.
    pub fn open_options(&self, create_if_missing: bool) -> (r: OpenOptions)
        ensures
            r == (OpenOptions {
                create_if_missing,
                paranoid_checks: self is CheckConsistency,
                num_levels: if self is CheckConsistency {
                    Some(64i32)
                } else {
                    None
                },
            }),
    {
        match self {
            Command::CheckConsistency(c) => c.options(create_if_missing),
            _ => build_options(create_if_missing),
        }
    }
}

} // verus!
