//! The version of the protocol that a message names.

use crate::helper::{contents, split_lines_by_byte, split_on};
use crate::http_error::HttpServerError;
use crate::text::{decode_lossy, decoded};
use vstd::prelude::*;
use vstd::string::*;

verus! {

/// The byte `/`, which parts the name from the numbers.
pub const SLASH: u8 = 47;

/// The byte `.`, which parts the major number from the minor one.
pub const DOT: u8 = 46;

/// The byte of the digit `0`.
pub const ZERO: u8 = 48;

/// The byte of the digit `9`.
pub const NINE: u8 = 57;

/// A version: the name of the protocol, and its major and minor number as
/// they were written.
#[derive(Debug)]
pub struct HttpVersion {
    name: String,
    major: String,
    minor: String,
}

/// The three texts of a version.
pub struct VersionText {
    pub name: Seq<char>,
    pub major: Seq<char>,
    pub minor: Seq<char>,
}

/// A version as it is written: `name/major.minor`.
pub open spec fn version_line(version: VersionText) -> Seq<char> {
    version.name + seq!['/'] + version.major + seq!['.'] + version.minor
}

/// Whether `bytes` are one decimal digit or more.
pub open spec fn is_digits(bytes: Seq<u8>) -> bool {
    bytes.len() > 0 && forall|i: int| 0 <= i < bytes.len() ==> ZERO <= #[trigger] bytes[i] <= NINE
}

/// The version that `bytes` spell, or the failure to read one. A version is
/// two parts with one `/` between them: a name, and two numbers with one `.`
/// between them, each of one digit or more. Each part is decoded as text.
pub open spec fn parse_version(bytes: Seq<u8>) -> Result<VersionText, HttpServerError> {
    let name_and_version = split_on(bytes, SLASH);
    if name_and_version.len() != 2 {
        Err(HttpServerError::InvalidHttpVersionFormat)
    } else {
        let numbers = split_on(name_and_version[1], DOT);
        if numbers.len() != 2 || !is_digits(numbers[0]) || !is_digits(numbers[1]) {
            Err(HttpServerError::InvalidHttpVersionFormat)
        } else {
            Ok(
                VersionText {
                    name: decoded(name_and_version[0]),
                    major: decoded(numbers[0]),
                    minor: decoded(numbers[1]),
                },
            )
        }
    }
}

/// Whether `bytes` are one decimal digit or more.
fn all_digits(bytes: &[u8]) -> (digits: bool)
    ensures
        digits == is_digits(bytes@),
{
    if bytes.len() == 0 {
        return false;
    }
    let mut i: usize = 0;
    while i < bytes.len()
        invariant
            i <= bytes@.len(),
            bytes@.len() > 0,
            forall|j: int| 0 <= j < i ==> ZERO <= #[trigger] bytes@[j] <= NINE,
        decreases bytes@.len() - i,
    {
        if bytes[i] < ZERO || bytes[i] > NINE {
            return false;
        }
        i = i + 1;
    }
    true
}

impl View for HttpVersion {
    type V = VersionText;

    closed spec fn view(&self) -> VersionText {
        VersionText { name: self.name@, major: self.major@, minor: self.minor@ }
    }
}

impl HttpVersion {
    /// The version with the given name and numbers.
    pub fn new(name: String, major: String, minor: String) -> (version: HttpVersion)
        ensures
            version@ == (VersionText { name: name@, major: major@, minor: minor@ }),
    {
        HttpVersion { name, major, minor }
    }

    /// Reads a version of the form `name/major.minor`, where major and minor
    /// are of one digit or more each. Whatever else the bytes hold is
    /// `InvalidHttpVersionFormat`.
    pub fn from_bytes(bytes: &[u8]) -> (result: Result<HttpVersion, HttpServerError>)
        ensures
            match result {
                Ok(version) => parse_version(bytes@) == Ok::<VersionText, HttpServerError>(version@),
                Err(error) => parse_version(bytes@) == Err::<VersionText, HttpServerError>(error),
            },
    {
        let name_and_version = split_lines_by_byte(bytes, SLASH);
        if name_and_version.len() != 2 {
            return Err(HttpServerError::InvalidHttpVersionFormat);
        }
        assert(contents(name_and_version@)[0] == name_and_version@[0]@);
        assert(contents(name_and_version@)[1] == name_and_version@[1]@);
        let version_split = split_lines_by_byte(name_and_version[1], DOT);
        if version_split.len() != 2 {
            return Err(HttpServerError::InvalidHttpVersionFormat);
        }
        assert(contents(version_split@)[0] == version_split@[0]@);
        assert(contents(version_split@)[1] == version_split@[1]@);
        if !all_digits(version_split[0]) || !all_digits(version_split[1]) {
            return Err(HttpServerError::InvalidHttpVersionFormat);
        }
        let name = decode_lossy(name_and_version[0]);
        let major = decode_lossy(version_split[0]);
        let minor = decode_lossy(version_split[1]);
        Ok(HttpVersion::new(name, major, minor))
    }

    /// The version as it is written: `name/major.minor`.
    pub fn to_string(&self) -> (line: String)
        ensures
            line@ == version_line(self@),
    {
        proof {
            reveal_strlit("/");
            reveal_strlit(".");
        }
        let mut line = self.name.clone();
        line.append("/");
        line.append(self.major.as_str());
        line.append(".");
        line.append(self.minor.as_str());
        assert(line@ =~= version_line(self@));
        line
    }
}

impl Default for HttpVersion {
    /// `HTTP/1.1`.
    fn default() -> (version: HttpVersion)
        ensures
            version@ == (VersionText { name: "HTTP"@, major: "1"@, minor: "1"@ }),
    {
        HttpVersion::new("HTTP".to_owned(), "1".to_owned(), "1".to_owned())
    }
}

} // verus!
