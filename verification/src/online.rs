//! What is sent to online sources and how their answers are read.

use vstd::prelude::*;
use vstd::utf8::{encode_utf8, valid_utf8};
use crate::error::{ErrorKind, MopError};
use crate::num::{decimal, u32_to_string};
use crate::structs::SongFile;
use crate::text::{contains_seq, contains_str, replace_all, replaced};

verus! {

/// The User-Agent header value: `MetadataOrganizationProgram/<version> (<authors>)`.
pub fn get_user_agent(version: &str, authors: &str) -> (res: String)
    ensures
        res@ == "MetadataOrganizationProgram/"@ + version@ + " ("@ + authors@ + ")"@,
{
    let mut s = String::from_str("MetadataOrganizationProgram/");
    s.append(version);
    s.append(" (");
    s.append(authors);
    s.append(")");
    s
}

/// Bytes that url's `DEFAULT_ENCODE_SET` percent-encodes: controls, non-ASCII,
/// and space `"` `#` `<` `>` `` ` `` `?` `{` `}`.
pub open spec fn in_default_encode_set(b: u8) -> bool {
    b < 0x20 || b > 0x7e || b == 0x20 || b == 0x22 || b == 0x23 || b == 0x3c || b == 0x3e
        || b == 0x60 || b == 0x3f || b == 0x7b || b == 0x7d
}

/// An uppercase hexadecimal digit.
pub open spec fn hex_upper(d: int) -> char {
    if d < 10 {
        (d + 48) as char
    } else {
        (d + 55) as char
    }
}

/// One byte, percent-encoded when it is in the encode set.
pub open spec fn encode_byte(b: u8) -> Seq<char> {
    if in_default_encode_set(b) {
        seq!['%', hex_upper((b / 16) as int), hex_upper((b % 16) as int)]
    } else {
        seq![b as char]
    }
}

/// Bytes, each encoded by `encode_byte`.
pub open spec fn encode_bytes(bs: Seq<u8>) -> Seq<char>
    decreases bs.len(),
{
    if bs.len() == 0 {
        Seq::empty()
    } else {
        encode_byte(bs[0]) + encode_bytes(bs.drop_first())
    }
}

/// The UTF-8 bytes of `s`, percent-encoded with `DEFAULT_ENCODE_SET`.
pub open spec fn default_percent_encoded(s: Seq<char>) -> Seq<char> {
    encode_bytes(encode_utf8(s))
}

/// url's `utf8_percent_encode(s, DEFAULT_ENCODE_SET)`, collected: each UTF-8
/// byte of `s` in the encode set becomes `%` and two uppercase hex digits,
/// every other byte stands for itself.
#[verifier::external_body]
fn utf8_percent_encode_default(s: &str) -> (res: String)
    ensures
        res@ == default_percent_encoded(s@),
{
    url::percent_encoding::utf8_percent_encode(s, url::percent_encoding::DEFAULT_ENCODE_SET).collect()
}

/// What `percent_encode` gives: the default percent-encoding, then `&`, `/`
/// and `:` encoded as well.
pub open spec fn spec_percent_encode(s: Seq<char>) -> Seq<char> {
    replaced(
        replaced(replaced(default_percent_encoded(s), seq!['&'], "%26"@), seq!['/'], "%2F"@),
        seq![':'],
        "%3A"@,
    )
}

/// Bytes that `percent_encode` encodes: those of the default set, and `&`,
/// `/` and `:`.
pub open spec fn in_query_encode_set(b: u8) -> bool {
    in_default_encode_set(b) || b == 0x26 || b == 0x2f || b == 0x3a
}

/// One byte as `percent_encode` writes it.
pub open spec fn query_encode_byte(b: u8) -> Seq<char> {
    if in_query_encode_set(b) {
        seq!['%', hex_upper((b / 16) as int), hex_upper((b % 16) as int)]
    } else {
        seq![b as char]
    }
}

/// Bytes, each as `percent_encode` writes it.
pub open spec fn query_encode_bytes(bs: Seq<u8>) -> Seq<char>
    decreases bs.len(),
{
    if bs.len() == 0 {
        Seq::empty()
    } else {
        query_encode_byte(bs[0]) + query_encode_bytes(bs.drop_first())
    }
}

/// The value of a hexadecimal digit (either case), or -1.
pub open spec fn hex_value(c: char) -> int {
    if '0' <= c && c <= '9' {
        c as int - 48
    } else if 'A' <= c && c <= 'F' {
        c as int - 55
    } else if 'a' <= c && c <= 'f' {
        c as int - 87
    } else {
        -1
    }
}

/// Percent-decoding of an ASCII text: `%` and two hexadecimal digits stand
/// for the byte they spell, every other character for its own byte.
pub open spec fn percent_decode(s: Seq<char>) -> Seq<u8>
    decreases s.len(),
{
    if s.len() == 0 {
        Seq::empty()
    } else if s.len() >= 3 && s[0] == '%' && hex_value(s[1]) >= 0 && hex_value(s[2]) >= 0 {
        seq![(hex_value(s[1]) * 16 + hex_value(s[2])) as u8] + percent_decode(s.skip(3))
    } else {
        seq![s[0] as u8] + percent_decode(s.skip(1))
    }
}

/// Percent-encodes `some_url` for use in a query; never fails.
pub fn percent_encode(some_url: &str) -> (res: Result<String, MopError>)
    ensures
        res matches Ok(s) && s@ == spec_percent_encode(some_url@),
{
    let encoded = utf8_percent_encode_default(some_url);
    proof {
        reveal_strlit("&");
        reveal_strlit("/");
        reveal_strlit(":");
        assert("&"@ == seq!['&']);
        assert("/"@ == seq!['/']);
        assert(":"@ == seq![':']);
    }
    let a = replace_all(encoded.as_str(), "&", "%26");
    let b = replace_all(a.as_str(), "/", "%2F");
    let c = replace_all(b.as_str(), ":", "%3A");
    Ok(c)
}

/// The URL that a request goes to: the request path alone when it already
/// holds the endpoint, else the endpoint followed by the path.
pub fn request_url(endpoint: &str, request_path: &str) -> (res: String)
    ensures
        res@ == (if contains_seq(request_path@, endpoint@) {
            request_path@
        } else {
            endpoint@ + request_path@
        }),
{
    if contains_str(request_path, endpoint) {
        String::from_str(request_path)
    } else {
        let mut url = String::from_str(endpoint);
        url.append(request_path);
        url
    }
}

/// `String::from_utf8(bytes).unwrap()`, for bytes that are valid UTF-8: the
/// string whose UTF-8 encoding they are.
#[verifier::external_body]
fn string_from_utf8(bytes: Vec<u8>) -> (res: String)
    requires
        valid_utf8(bytes@),
    ensures
        encode_utf8(res@) == bytes@,
{
    String::from_utf8(bytes).unwrap()
}

/// Reads the answer to a request: a status of 400 or more is an `InvalidData`
/// error naming the status; otherwise the body, which must be UTF-8, is the text.
pub fn read_response(response_code: u32, body: Vec<u8>) -> (res: Result<String, MopError>)
    requires
        response_code < 400 ==> valid_utf8(body@),
    ensures
        response_code >= 400 ==> (res matches Err(e) && e.kind == ErrorKind::InvalidData
            && e.message@ == "MOP_Online: CURL Request returned error "@ + decimal(
            response_code as nat,
        )),
        response_code < 400 ==> (res matches Ok(s) && encode_utf8(s@) == body@),
{
    if response_code >= 400 {
        let mut message = String::from_str("MOP_Online: CURL Request returned error ");
        message.append(u32_to_string(response_code).as_str());
        return Err(MopError { kind: ErrorKind::InvalidData, message });
    }
    Ok(string_from_utf8(body))
}

/// How many online sources there are, in the order they are asked:
/// AllMusic (0), then MusicBrainz (1).
pub open spec fn num_sources() -> usize {
    2
}

/// The next step of an online lookup.
#[derive(Debug)]
pub enum RetrievalStep {
    /// Ask source number `i` (see `num_sources`).
    TrySource(usize),
    /// The lookup is over, with this outcome.
    Done(Result<(), MopError>),
}

/// The first step of looking a song up online: a song without artist or title
/// cannot be looked up (`InvalidInput`); otherwise the first source is asked.
pub fn first_retrieval_step(song_file: &SongFile) -> (res: RetrievalStep)
    ensures
        song_file.spec_has_search_key() ==> res == RetrievalStep::TrySource(0),
        !song_file.spec_has_search_key() ==> (res matches RetrievalStep::Done(Err(e)) && e.kind
            == ErrorKind::InvalidInput && e.message@
            == "MOP_Online: SongFile does not have appropriate search key filled"@),
{
    if !song_file.has_search_key() {
        return RetrievalStep::Done(
            Err(
                MopError::new(
                    ErrorKind::InvalidInput,
                    "MOP_Online: SongFile does not have appropriate search key filled",
                ),
            ),
        );
    }
    RetrievalStep::TrySource(0)
}

/// The step after source `tried` answered `result`: a success ends the lookup
/// successfully, a failure moves on to the next source, and when none is left
/// the lookup fails with `NotFound`.
pub fn next_retrieval_step(tried: usize, result: Result<(), MopError>) -> (res: RetrievalStep)
    requires
        tried < num_sources(),
    ensures
        result is Ok ==> res matches RetrievalStep::Done(Ok(())),
        result is Err && tried + 1 < num_sources() ==> res == RetrievalStep::TrySource(
            (tried + 1) as usize,
        ),
        result is Err && tried + 1 >= num_sources() ==> (res matches RetrievalStep::Done(Err(e))
            && e.kind == ErrorKind::NotFound && e.message@
            == "MOP_Online: SongFile was unchanged"@),
{
    match result {
        Ok(()) => RetrievalStep::Done(Ok(())),
        Err(_) => {
            if tried + 1 < 2 {
                RetrievalStep::TrySource(tried + 1)
            } else {
                RetrievalStep::Done(
                    Err(MopError::new(ErrorKind::NotFound, "MOP_Online: SongFile was unchanged")),
                )
            }
        },
    }
}

} // verus!
