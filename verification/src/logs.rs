//! The host's log files: which file an entry goes to, what is appended, and
//! how the traces file is served as one JSON array.

use vstd::prelude::*;
use vstd::string::*;
use vstd::utf8::*;

verus! {

/// ansi-to-html's error type, carried through unchanged.
#[verifier::external_type_specification]
#[verifier::external_body]
pub struct ExAnsiError(ansi_to_html::Error);

/// The HTML that ansi-to-html makes of a text with ANSI escape codes, `None`
/// when the codes are invalid.
pub uninterp spec fn ansi_html(text: Seq<char>) -> Option<Seq<char>>;

/// Calls ansi-to-html's `convert`. Claimed: the result depends on the text
/// alone; what it is, is only named.
#[verifier::external_body]
fn convert_ansi(text: &str) -> (r: Result<String, ansi_to_html::Error>)
    ensures
        r is Ok <==> ansi_html(text@) is Some,
        r matches Ok(h) ==> ansi_html(text@) == Some(h@),
{
    ansi_to_html::convert(text)
}

/// Calls std's `str::from_utf8`. Claimed, as std documents it: it succeeds
/// exactly on valid UTF-8, and the text it returns is made of those bytes.
#[verifier::external_body]
fn utf8_text(bytes: &[u8]) -> (r: Option<&str>)
    ensures
        r is Some <==> valid_utf8(bytes@),
        r matches Some(s) ==> encode_utf8(s@) == bytes@,
{
    std::str::from_utf8(bytes).ok()
}

/// The path of one log file.
#[derive(Clone, Debug)]
pub struct Log(pub String);

/// The two log files: human-readable info, and detailed traces.
#[derive(Clone, Debug)]
pub struct Logs {
    pub info: Log,
    pub traces: Log,
}

/// Why a log entry could not be written.
#[derive(Clone, Copy, Debug, PartialEq, Eq)]
pub enum LogWriteError {
    NotUtf8,
    NotAnsi,
}

impl Logs {
    /// The file an entry goes to: traces for detailed entries, info
    /// otherwise.
    pub fn target(&self, detailed: bool) -> (r: &Log)
        ensures
            *r == (if detailed { self.traces } else { self.info }),
    {
        if detailed {
            &self.traces
        } else {
            &self.info
        }
    }

    /// The text appended for an entry: detailed entries are followed by a
    /// comma, so that the traces file is a list of JSON objects.
    pub fn entry(data: &str, detailed: bool) -> (r: String)
        ensures
            r@ == (if detailed { data@ + ","@ } else { data@ }),
    {
        let mut s = String::from_str(data);
        if detailed {
            s.append(",");
        }
        s
    }

    /// The traces file served as one JSON array.
    pub fn traces_document(content: &str) -> (r: String)
        ensures
            r@ == "["@ + content@ + "]"@,
    {
        let mut s = String::from_str("[");
        s.append(content);
        s.append("]");
        s
    }
}

/// The latest `count` lines of a log, newest first (`lines` are in file
/// order).
pub fn latest_entries(lines: &Vec<String>, count: usize) -> (r: Vec<String>)
    ensures
        r@.len() == (if count < lines@.len() { count as int } else { lines@.len() as int }),
        forall|i: int| 0 <= i < r@.len() ==> #[trigger] r@[i] == lines@[lines@.len() - 1 - i],
{
    let mut r: Vec<String> = Vec::new();
    let mut i: usize = lines.len();
    while i > 0 && r.len() < count
        invariant
            i <= lines@.len(),
            r@.len() == lines@.len() - i,
            r@.len() <= count,
            forall|k: int| 0 <= k < r@.len() ==> #[trigger] r@[k] == lines@[lines@.len() - 1 - k],
        decreases i,
    {
        i = i - 1;
        r.push(lines[i].clone());
        assert(r@[r@.len() - 1] == lines@[lines@.len() - 1 - (r@.len() - 1)]);
    }
    r
}

/// What the log writer appends for the bytes that the tracing layer hands
/// it: detailed entries as they are, info entries with their ANSI colours
/// turned into HTML.
pub fn log_writer_entry(buf: &[u8], detailed: bool) -> (r: Result<String, LogWriteError>)
    ensures
        !valid_utf8(buf@) ==> r == Err::<String, LogWriteError>(LogWriteError::NotUtf8),
        valid_utf8(buf@) ==> ({
            let text = decode_utf8(buf@);
            if detailed {
                r matches Ok(s) && s@ == text + ","@
            } else {
                match ansi_html(text) {
                    Some(h) => r matches Ok(s) && s@ == h,
                    None => r == Err::<String, LogWriteError>(LogWriteError::NotAnsi),
                }
            }
        }),
{
    let text = match utf8_text(buf) {
        Some(t) => t,
        None => {
            return Err(LogWriteError::NotUtf8);
        },
    };
    proof {
        encode_utf8_decode_utf8(text@);
    }
    if detailed {
        Ok(Logs::entry(text, true))
    } else {
        match convert_ansi(text) {
            Ok(h) => Ok(Logs::entry(h.as_str(), false)),
            Err(_) => Err(LogWriteError::NotAnsi),
        }
    }
}

} // verus!
