//! The formats that messages and the configuration are encoded in.
use crate::BytesFormat;
use rmp_serde::decode::Error as DecodeError;
use rmp_serde::encode::Error as EncodeError;
use toml::de::Error as TomlDeError;
use toml::ser::Error as TomlSerError;
use vstd::prelude::*;

verus! {

/// `rmp_serde::encode::Error`, of which nothing is claimed.
#[verifier::external_type_specification]
#[verifier::external_body]
pub struct ExEncodeError(EncodeError);

/// `rmp_serde::decode::Error`, of which nothing is claimed.
#[verifier::external_type_specification]
#[verifier::external_body]
pub struct ExDecodeError(DecodeError);

/// `toml::ser::Error`, of which nothing is claimed.
#[verifier::external_type_specification]
#[verifier::external_body]
pub struct ExTomlSerError(TomlSerError);

/// `toml::de::Error`, of which nothing is claimed.
#[verifier::external_type_specification]
#[verifier::external_body]
pub struct ExTomlDeError(TomlDeError);

/// `std::str::Utf8Error`, of which nothing is claimed.
#[verifier::external_type_specification]
#[verifier::external_body]
pub struct ExUtf8Error(std::str::Utf8Error);

/// `std::str::from_utf8` returns the string that the bytes encode in UTF-8, and
/// an error exactly where they are not valid UTF-8.
pub assume_specification[ std::str::from_utf8 ](v: &[u8]) -> (r: Result<
    &str,
    std::str::Utf8Error,
>)
    ensures
        r is Ok <==> vstd::utf8::valid_utf8(v@),
        r matches Ok(s) ==> s@ == vstd::utf8::decode_utf8(v@),
;

#[derive(Debug, Clone, Copy, PartialEq, Eq)]
pub struct MessagePack;

impl BytesFormat for MessagePack {
    type SerError = EncodeError;

    type DeError = DecodeError;
}

/// The format of messages between the daemon and its clients.
pub fn get_current_default_network_format() -> (r: MessagePack)
    ensures
        r == MessagePack,
{
    MessagePack
}

#[derive(Debug, Clone, Copy, PartialEq, Eq)]
pub struct Toml;

impl BytesFormat for Toml {
    type SerError = TomlSerError;

    type DeError = TomlDeError;
}

impl Toml {
    /// The document that `input` holds, for the decoder. Bytes that are not
    /// UTF-8 hold none.
    pub fn text(input: &[u8]) -> (r: Result<&str, std::str::Utf8Error>)
        ensures
            r is Ok <==> vstd::utf8::valid_utf8(input@),
            r matches Ok(s) ==> s@ == vstd::utf8::decode_utf8(input@),
    {
        std::str::from_utf8(input)
    }
}

/// The format of the stored configuration.
pub fn get_default_config_format() -> (r: Toml)
    ensures
        r == Toml,
{
    Toml
}

/// A document comes back from its bytes, character by character, whatever its
/// characters are, and a document that comes back has just those bytes.
pub proof fn law_document_comes_back_from_its_bytes(
    document: Seq<char>,
    input: &[u8],
    text: Result<&str, std::str::Utf8Error>,
)
    requires
        call_ensures(Toml::text, (input,), text),
    ensures
        input@ == vstd::utf8::encode_utf8(document) ==> text is Ok && text->Ok_0@ == document,
        text is Ok ==> vstd::utf8::encode_utf8(text->Ok_0@) == input@,
{
    broadcast use {
        vstd::utf8::encode_utf8_valid_utf8,
        vstd::utf8::encode_utf8_decode_utf8,
        vstd::utf8::decode_utf8_encode_utf8,
    };

}

} // verus!
