//! The tagged-value payload of an annotation element and the hook through
//! which it is decoded.
//!
//! The value grammar itself is an external collaborator: this crate only
//! needs a way to delimit one tagged value in the byte stream and carry its
//! payload through. The hook is the [`ValueDecoder`] trait; a host supplies
//! an implementation, and [`ScalarValueDecoder`] is a simple one for flat
//! scalar payloads.

use vstd::prelude::*;
use vstd::slice::{slice_subrange, slice_to_vec};

use crate::error::{ErrKind, Error};

verus! {

/// One decoded tagged value: the raw bytes of its encoding, as delimited by
/// the [`ValueDecoder`] that produced it. This crate stores the payload
/// without interpreting it.
#[derive(Debug, Clone, PartialEq)]
pub struct EncodedValue {
    /// The value's encoding, header byte included.
    pub raw: Vec<u8>,
}

impl View for EncodedValue {
    type V = Seq<u8>;

    open spec fn view(&self) -> Seq<u8> {
        self.raw@
    }
}

/// The hook that decodes one tagged value at a position in the shared
/// buffer. `value_spec` is the implementation's own statement of what its
/// `decode_value` returns; every implementation must prove the
/// correspondence, so decoders built on top of the hook have an exact
/// contract whatever implementation the host supplies.
pub trait ValueDecoder: Sized {
    /// What `decode_value` returns for the bytes of `s` from index `i` on:
    /// the payload and the count of bytes consumed, or the kind of failure.
    spec fn value_spec(&self, s: Seq<u8>, i: int) -> Result<(Seq<u8>, nat), ErrKind>;

    /// Decodes one tagged value at `pos`, returning it and the count of
    /// bytes consumed.
    fn decode_value(&self, buf: &Vec<u8>, pos: usize) -> (r: Result<(EncodedValue, usize), Error>)
        ensures
            r matches Ok(p) ==> self.value_spec(buf@, pos as int) == Ok::<(Seq<u8>, nat), ErrKind>(
                (p.0@, p.1 as nat),
            ) && pos + p.1 <= buf@.len(),
            r matches Err(e) ==> self.value_spec(buf@, pos as int) == Err::<(Seq<u8>, nat), ErrKind>(
                e.kind(),
            ),
    ;
}

/// A decoder for flat scalar payloads: one header byte whose low five bits
/// name the value's type and whose high three bits give the payload size
/// minus one. Header-only values (null and boolean) consume a single byte;
/// aggregate values (arrays and nested annotations) are rejected as
/// malformed, since their payloads are not self-delimiting at this level.
pub struct ScalarValueDecoder;

impl ValueDecoder for ScalarValueDecoder {
    open spec fn value_spec(&self, s: Seq<u8>, i: int) -> Result<(Seq<u8>, nat), ErrKind> {
        if i < 0 || i >= s.len() {
            Err(ErrKind::Malformed)
        } else {
            let vtype = s[i] % 32;
            let len = (s[i] / 32) + 1;
            if vtype == 28 || vtype == 29 {
                Err(ErrKind::Malformed)
            } else if vtype == 30 || vtype == 31 {
                Ok((s.subrange(i, i + 1), 1))
            } else if i + 1 + len > s.len() {
                Err(ErrKind::Malformed)
            } else {
                Ok((s.subrange(i, i + 1 + len), (1 + len) as nat))
            }
        }
    }

    fn decode_value(&self, buf: &Vec<u8>, pos: usize) -> (r: Result<(EncodedValue, usize), Error>) {
        if pos >= buf.len() {
            return Err(Error::MalFormed("tagged value has no header byte".to_owned()));
        }
        let h = buf[pos];
        let vtype = h % 32;
        if vtype == 28 || vtype == 29 {
            return Err(Error::MalFormed("aggregate tagged value is not supported".to_owned()));
        }
        let len: usize = if vtype == 30 || vtype == 31 {
            0
        } else {
            (h / 32) as usize + 1
        };
        if buf.len() - pos < 1 || buf.len() - pos - 1 < len {
            return Err(Error::MalFormed("tagged value payload runs past the buffer end".to_owned()));
        }
        let raw = slice_to_vec(slice_subrange(buf.as_slice(), pos, pos + 1 + len));
        proof {
            if !(vtype == 30 || vtype == 31) {
                assert(raw@ == buf@.subrange(pos as int, pos + 1 + (h / 32 + 1)));
            }
        }
        Ok((EncodedValue { raw }, 1 + len))
    }
}

} // verus!
