//! Program configuration and the validation of configuration inputs.
//!
//! The surrounding program parses the command line; the types here carry the
//! result as plain values (the address and the destination as strings), and
//! the validators decide exactly which port and chunk-size strings are
//! acceptable: decimal digits writing a number within the protocol's bounds.

use vstd::prelude::*;
use vstd::string::StrSliceExecFns;

verus! {

/// Whether `c` writes a decimal digit (code points of `0` through `9`).
pub open spec fn is_dec_digit(c: char) -> bool {
    48 <= c as int <= 57
}

/// Whether `s` is one or more decimal digits and nothing else.
pub open spec fn all_dec_digits(s: Seq<char>) -> bool {
    &&& s.len() > 0
    &&& forall|i: int| 0 <= i < s.len() ==> is_dec_digit(#[trigger] s[i])
}

/// The number that the decimal digits of `s` write.
pub open spec fn dec_value(s: Seq<char>) -> int
    recommends
        all_dec_digits(s),
    decreases s.len(),
{
    if s.len() == 0 {
        0
    } else {
        dec_value(s.drop_last()) * 10 + (s.last() as int - 48)
    }
}

/// A digit string's value only grows as more digits follow.
proof fn lemma_dec_value_monotone(s: Seq<char>, i: int)
    requires
        0 <= i <= s.len(),
        dec_value(s.take(i)) >= 0,
        forall|j: int| 0 <= j < s.len() ==> is_dec_digit(#[trigger] s[j]),
    ensures
        dec_value(s) >= dec_value(s.take(i)),
    decreases s.len() - i,
{
    if i == s.len() {
        assert(s.take(i) =~= s);
    } else {
        assert(s.take(i + 1).drop_last() =~= s.take(i));
        assert(s.take(i + 1).last() == s[i]);
        lemma_dec_value_monotone(s, i + 1);
    }
}

/// What a configuration string parses to.
enum DecimalParse {
    /// All digits, and the value fits the protocol's 16-bit fields.
    Value(u16),
    /// All digits, but the value exceeds 65535.
    TooLarge,
    /// Empty, or holding something besides decimal digits.
    NotDecimal,
}

/// Parses a decimal digit string, reporting a value above 65535 and a
/// non-numeric string as distinct outcomes.
fn parse_decimal(s: &str) -> (r: DecimalParse)
    ensures
        all_dec_digits(s@) && dec_value(s@) <= 65535 ==> (r matches DecimalParse::Value(n)
            && n as int == dec_value(s@)),
        all_dec_digits(s@) && dec_value(s@) > 65535 ==> r matches DecimalParse::TooLarge,
        !all_dec_digits(s@) ==> r matches DecimalParse::NotDecimal,
{
    let len: usize = s.unicode_len();
    if len == 0 {
        return DecimalParse::NotDecimal;
    }
    let mut i: usize = 0;
    while i < len
        invariant
            len == s@.len(),
            i <= len,
            forall|j: int| 0 <= j < i ==> is_dec_digit(#[trigger] s@[j]),
        decreases len - i,
    {
        let code: u32 = s.get_char(i) as u32;
        if code < 48 || code > 57 {
            return DecimalParse::NotDecimal;
        }
        i = i + 1;
    }
    let mut acc: u32 = 0;
    i = 0;
    while i < len
        invariant
            len == s@.len(),
            i <= len,
            forall|j: int| 0 <= j < s@.len() ==> is_dec_digit(#[trigger] s@[j]),
            acc <= 65535,
            acc as int == dec_value(s@.take(i as int)),
        decreases len - i,
    {
        let code: u32 = s.get_char(i) as u32;
        let next: u32 = acc * 10 + (code - 48);
        proof {
            assert(s@.take(i + 1).drop_last() =~= s@.take(i as int));
            assert(s@.take(i + 1).last() == s@[i as int]);
        }
        if next > 65535 {
            proof {
                lemma_dec_value_monotone(s@, i + 1);
            }
            return DecimalParse::TooLarge;
        }
        acc = next;
        i = i + 1;
    }
    proof {
        assert(s@.take(len as int) =~= s@);
    }
    DecimalParse::Value(acc as u16)
}

/// Accepts a port given as decimal digits writing a number up to 65535.
pub fn validate_port(s: String) -> (r: Result<(), String>)
    ensures
        r is Ok <==> all_dec_digits(s@) && dec_value(s@) <= 65535,
        all_dec_digits(s@) && dec_value(s@) > 65535 ==> r is Err && r->Err_0@
            == "Port is out of bounds (0-65535)"@,
        !all_dec_digits(s@) ==> r is Err && r->Err_0@ == "Invalid port"@,
{
    match parse_decimal(s.as_str()) {
        DecimalParse::Value(_) => Ok(()),
        DecimalParse::TooLarge => Err("Port is out of bounds (0-65535)".to_owned()),
        DecimalParse::NotDecimal => Err("Invalid port".to_owned()),
    }
}

/// Accepts a chunk size given as decimal digits writing a positive number
/// that is tolerant of the frame payload ceiling of 65535 bytes.
pub fn validate_chunk_size(s: String) -> (r: Result<(), String>)
    ensures
        r is Ok <==> all_dec_digits(s@) && 1 <= dec_value(s@) <= 65535,
        all_dec_digits(s@) && !(1 <= dec_value(s@) <= 65535) ==> r is Err && r->Err_0@
            == "Chunk size is out of bounds (1-65535)"@,
        !all_dec_digits(s@) ==> r is Err && r->Err_0@ == "Invalid chunk size"@,
{
    match parse_decimal(s.as_str()) {
        DecimalParse::Value(n) => {
            if n >= 1 {
                Ok(())
            } else {
                Err("Chunk size is out of bounds (1-65535)".to_owned())
            }
        },
        DecimalParse::TooLarge => Err("Chunk size is out of bounds (1-65535)".to_owned()),
        DecimalParse::NotDecimal => Err("Invalid chunk size".to_owned()),
    }
}

/// What a receiving run needs: where the received files go.
#[derive(Debug, Clone)]
pub struct ReceivingModeData {
    destination: String,
}

impl ReceivingModeData {
    /// The destination directory, as it was given.
    pub closed spec fn spec_destination(&self) -> Seq<char> {
        self.destination@
    }

    pub fn new(destination: String) -> (r: ReceivingModeData)
        ensures
            r.spec_destination() == destination@,
    {
        ReceivingModeData { destination }
    }

    pub fn get_destination(self) -> (r: String)
        ensures
            r@ == self.spec_destination(),
    {
        self.destination
    }
}

/// What a sending run needs: the peer's address, the files to send, and the
/// chunk size to split them by.
#[derive(Debug, Clone)]
pub struct SendingModeData {
    address: String,
    files: Vec<String>,
    chunk_size: usize,
}

impl SendingModeData {
    pub closed spec fn spec_address(&self) -> Seq<char> {
        self.address@
    }

    pub closed spec fn spec_files(&self) -> Seq<Seq<char>> {
        self.files.deep_view()
    }

    pub closed spec fn spec_chunk_size(&self) -> usize {
        self.chunk_size
    }

    pub fn new(address: String, files: Vec<String>, chunk_size: usize) -> (r: SendingModeData)
        ensures
            r.spec_address() == address@,
            r.spec_files() == files.deep_view(),
            r.spec_chunk_size() == chunk_size,
    {
        SendingModeData { address, files, chunk_size }
    }

    pub fn get_address(&self) -> (r: String)
        ensures
            r@ == self.spec_address(),
    {
        self.address.clone()
    }

    pub fn get_files(self) -> (r: Vec<String>)
        ensures
            r.deep_view() == self.spec_files(),
    {
        self.files
    }

    pub fn get_chunk_size(&self) -> (r: usize)
        ensures
            r == self.spec_chunk_size(),
    {
        self.chunk_size
    }
}

/// Which of the two roles this process plays.
#[derive(Debug, Clone)]
pub enum ProgramMode {
    Receiving(ReceivingModeData),
    Sending(SendingModeData),
}

/// The whole configuration of one run: the port and the role's data.
#[derive(Debug, Clone)]
pub struct ProgramConfig {
    port: u16,
    mode: ProgramMode,
}

impl ProgramConfig {
    pub closed spec fn spec_port(&self) -> u16 {
        self.port
    }

    pub closed spec fn spec_mode(&self) -> ProgramMode {
        self.mode
    }

    pub fn new(port: u16, mode: ProgramMode) -> (r: ProgramConfig)
        ensures
            r.spec_port() == port,
            r.spec_mode() == mode,
    {
        ProgramConfig { port, mode }
    }

    pub fn get_mode(self) -> (r: ProgramMode)
        ensures
            r == self.spec_mode(),
    {
        self.mode
    }

    pub fn get_port(&self) -> (r: u16)
        ensures
            r == self.spec_port(),
    {
        self.port
    }
}

} // verus!
