//! Bridging a websocket to a language server: choosing the server of a
//! language, framing the editor's messages for the server's input, and
//! cutting the server's output into JSON messages.
use vstd::prelude::*;
use vstd::utf8::{valid_utf8, decode_utf8, encode_utf8};
use crate::protocol::LangServerConfig;
use crate::text::{decimal_digits, format_u64, text_is, unsigned_value, utf8_text, lemma_decimal_digits};
use crate::pattern::{regex_compiles, regex_match_texts, regex_is_valid, regex_all_matches};

verus! {

/// The pattern of one JSON message in the output of a language server.
pub const LSP_MESSAGE_PATTERN: &'static str = "\\{(?:[^{}]|(?R))*\\}";

/// The position of the first configured server for `lang`, if there is one.
pub fn find_lang_server(configs: &Vec<LangServerConfig>, lang: &str) -> (r: Option<usize>)
    ensures
        match r {
            Some(i) => i < configs@.len() && configs@[i as int].name@ == lang@
                && forall|j: int| 0 <= j < i ==> configs@[j].name@ != lang@,
            None => forall|j: int| 0 <= j < configs@.len() ==> configs@[j].name@ != lang@,
        },
{
    let n = configs.len();
    let mut i: usize = 0;
    while i < n
        invariant
            n == configs@.len(),
            i <= n,
            forall|j: int| 0 <= j < i ==> configs@[j].name@ != lang@,
        decreases n - i,
    {
        if text_is(configs[i].name.as_str(), lang) {
            return Some(i);
        }
        i = i + 1;
    }
    None
}

/// The text of an editor message, or the empty text when it is not UTF-8.
pub open spec fn message_text(bytes: Seq<u8>) -> Seq<char> {
    if valid_utf8(bytes) {
        decode_utf8(bytes)
    } else {
        Seq::empty()
    }
}

/// An editor message as the language server reads it: a `Content-Length`
/// header with the number of bytes of the message, a blank line, and the
/// text of the message.
pub open spec fn lsp_frame_spec(bytes: Seq<u8>) -> Seq<char> {
    "Content-Length: "@ + decimal_digits(bytes.len()) + "\r\n\r\n"@ + message_text(bytes)
}

/// Frames an editor message for the language server's input.
pub fn lsp_frame(bytes: &Vec<u8>) -> (r: String)
    ensures
        r@ == lsp_frame_spec(bytes@),
{
    let text = match utf8_text(bytes) {
        Some(t) => t,
        None => String::new(),
    };
    let mut r = String::from_str("Content-Length: ");
    let count = format_u64(bytes.len() as u64);
    r.append(count.as_str());
    r.append("\r\n\r\n");
    r.append(text.as_str());
    r
}

/// Law: the header of a frame announces, in decimal, exactly the number of
/// bytes of a UTF-8 message, and the body is that message's text, which
/// encodes back to the same bytes.
pub proof fn lemma_frame_announces_body_length(bytes: Seq<u8>)
    requires
        valid_utf8(bytes),
    ensures
        lsp_frame_spec(bytes) == "Content-Length: "@ + decimal_digits(bytes.len()) + "\r\n\r\n"@ + decode_utf8(bytes),
        unsigned_value(decimal_digits(bytes.len())) == Some(bytes.len()),
        encode_utf8(decode_utf8(bytes)) == bytes,
{
    lemma_decimal_digits(bytes.len());
    vstd::utf8::decode_utf8_encode_utf8(bytes);
}

/// Whether the pattern of JSON messages compiles.
pub fn lsp_pattern_compiles() -> (b: bool)
    ensures
        b == regex_compiles(LSP_MESSAGE_PATTERN@),
{
    regex_is_valid(LSP_MESSAGE_PATTERN)
}

/// The JSON messages found in a chunk of the server's output, in order;
/// `None` when the output is not UTF-8 or the pattern does not compile.
pub fn json_messages(output: &Vec<u8>) -> (r: Option<Vec<String>>)
    ensures
        r.deep_view() == (if valid_utf8(output@) && regex_compiles(LSP_MESSAGE_PATTERN@) {
            Some(regex_match_texts(LSP_MESSAGE_PATTERN@, decode_utf8(output@)))
        } else {
            None
        }),
{
    match utf8_text(output) {
        Some(text) => regex_all_matches(LSP_MESSAGE_PATTERN, text.as_str()),
        None => None,
    }
}

} // verus!
