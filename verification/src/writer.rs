//! A sink for bytes that collects text.
//!
//! Each write must be UTF-8 as a whole: it is decoded and added to the text,
//! or refused and the text left as it was.
use vstd::prelude::*;
use vstd::string::*;
use vstd::utf8::{decode_utf8, encode_utf8, encode_utf8_decode_utf8, valid_utf8};

verus! {

/// Why a write was refused.
#[derive(Clone, Copy, Debug, PartialEq, Eq, Structural)]
pub enum WriteError {
    /// The bytes are not UTF-8.
    InvalidData,
}

/// `std::str::from_utf8`: the text that the bytes encode, if they are valid
/// UTF-8, and nothing if they are not.
#[verifier::external_body]
fn text_of(bytes: &[u8]) -> (out: Option<&str>)
    ensures
        match out {
            Some(text) => valid_utf8(bytes@) && text.spec_bytes() == bytes@,
            None => !valid_utf8(bytes@),
        },
{
    std::str::from_utf8(bytes).ok()
}

/// Collects what is written to it as text.
#[derive(Debug)]
pub struct WriteAdaptor {
    text: String,
}

impl WriteAdaptor {
    /// The text written so far.
    pub closed spec fn view(&self) -> Seq<char> {
        self.text@
    }

    /// An adaptor that adds to `text`.
    pub fn new(text: String) -> (adaptor: WriteAdaptor)
        ensures
            adaptor@ == text@,
    {
        WriteAdaptor { text }
    }

    /// Adds the text that `buf` encodes and tells how many bytes were taken:
    /// all of them. Bytes that are not UTF-8 are refused.
    pub fn write(&mut self, buf: &[u8]) -> (out: Result<usize, WriteError>)
        ensures
            match out {
                Ok(n) => valid_utf8(buf@) && n == buf@.len() && final(self)@ == old(self)@
                    + decode_utf8(buf@),
                Err(e) => !valid_utf8(buf@) && e == WriteError::InvalidData && final(self)@ == old(
                    self,
                )@,
            },
    {
        match text_of(buf) {
            Some(text) => {
                proof {
                    encode_utf8_decode_utf8(text@);
                }
                self.text.append(text);
                Ok(buf.len())
            },
            None => Err(WriteError::InvalidData),
        }
    }

    /// Does nothing: the text holds every write already.
    pub fn flush(&mut self)
        ensures
            final(self)@ == old(self)@,
    {
    }

    /// The text written so far.
    pub fn into_string(self) -> (text: String)
        ensures
            text@ == self@,
    {
        self.text
    }
}

} // verus!
