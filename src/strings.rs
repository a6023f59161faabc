//! The string blob: an append-only byte buffer that text fields point into
//! with (start, length) spans.
use crate::entities::StringRef;
use crate::error::{CorpusError, CorpusResult};
use vstd::prelude::*;
use vstd::utf8::{encode_utf8, valid_utf8};

verus! {

/// The bytes that the inclusive range `start..=end` of the blob covers, if it
/// lies within the blob.
pub open spec fn span_bytes(blob: Seq<u8>, start: int, end: int) -> Option<Seq<u8>> {
    if end < blob.len() && start <= end + 1 {
        Some(blob.subrange(start, end + 1))
    } else {
        None
    }
}

/// What resolving a span against a blob gives: its bytes, from `start` to
/// `start + length` inclusive, or the error that reports why they cannot be
/// had.
pub open spec fn resolve(blob: Seq<u8>, r: StringRef) -> CorpusResult<Seq<u8>> {
    if r.start + r.length > usize::MAX {
        Err(CorpusError::StringNotFoundError(r.start, r.length))
    } else {
        match span_bytes(blob, r.start as int, r.start + r.length) {
            None => Err(
                CorpusError::StringNotFoundError(r.start, (r.start + r.length) as u64),
            ),
            Some(b) => if valid_utf8(b) {
                Ok(b)
            } else {
                Err(
                    CorpusError::InvalidStringError(
                        r.start as usize,
                        (r.start + r.length) as usize,
                    ),
                )
            },
        }
    }
}

/// Relies on `String::from_utf8`: it succeeds exactly on valid UTF-8, and the
/// string it returns holds those bytes.
#[verifier::external_body]
fn utf8_string(v: Vec<u8>) -> (r: Option<String>)
    ensures
        r is Some <==> valid_utf8(v@),
        r matches Some(s) ==> encode_utf8(s@) == v@,
{
    match String::from_utf8(v) {
        Ok(s) => Some(s),
        Err(_) => None,
    }
}

impl StringRef {
    /// The first byte of the span, as an index.
    pub fn start(&self) -> (r: CorpusResult<usize>)
        ensures
            self.start <= usize::MAX ==> r == Ok::<usize, CorpusError>(self.start as usize),
            self.start > usize::MAX ==> r == Err::<usize, CorpusError>(
                CorpusError::StringNotFoundError(self.start, self.length),
            ),
    {
        if (self.start as u128) <= (usize::MAX as u128) {
            Ok(self.start as usize)
        } else {
            Err(CorpusError::StringNotFoundError(self.start, self.length))
        }
    }

    /// The last byte of the span, as an index: `start + length`.
    pub fn end(&self) -> (r: CorpusResult<usize>)
        ensures
            self.start + self.length <= usize::MAX ==> r == Ok::<usize, CorpusError>(
                (self.start + self.length) as usize,
            ),
            self.start + self.length > usize::MAX ==> r == Err::<usize, CorpusError>(
                CorpusError::StringNotFoundError(self.start, self.length),
            ),
    {
        let start = self.start()?;
        if (self.length as u128) <= (usize::MAX - start) as u128 {
            Ok(start + self.length as usize)
        } else {
            Err(CorpusError::StringNotFoundError(self.start, self.length))
        }
    }

    /// The text that the span covers in `strings`.
    pub fn hydrate(&self, strings: &Strings) -> (r: CorpusResult<String>)
        ensures
            resolve(strings@, *self) matches Ok(b) ==> r matches Ok(s) && encode_utf8(s@) == b,
            resolve(strings@, *self) matches Err(e) ==> r == Err::<String, CorpusError>(e),
    {
        strings.get_string(self)
    }
}

/// The string blob.
#[derive(Debug, PartialEq)]
pub struct Strings {
    bytes: Vec<u8>,
}

impl View for Strings {
    type V = Seq<u8>;

    closed spec fn view(&self) -> Seq<u8> {
        self.bytes@
    }
}

impl Default for Strings {
    fn default() -> (r: Strings)
        ensures
            r@ == Seq::<u8>::empty(),
    {
        Strings { bytes: Vec::new() }
    }
}

impl Strings {
    /// An empty blob.
    pub fn new() -> (r: Strings)
        ensures
            r@ == Seq::<u8>::empty(),
    {
        Strings { bytes: Vec::new() }
    }

    /// A blob holding `bytes`.
    pub fn from_bytes(bytes: &[u8]) -> (r: Strings)
        ensures
            r@ == bytes@,
    {
        let mut s = Strings::new();
        s.append(bytes);
        s
    }

    /// A blob holding `bytes`, taken as they are.
    pub fn _test_from_vec(bytes: Vec<u8>) -> (r: Strings)
        ensures
            r@ == bytes@,
    {
        Strings { bytes }
    }

    /// A blob holding the UTF-8 bytes of `s`.
    pub fn _test_from_str(s: &str) -> (r: Strings)
        ensures
            r@ == encode_utf8(s@),
    {
        Strings::from_bytes(s.as_bytes())
    }

    /// The bytes of the blob.
    pub fn _test_contents(&self) -> (r: &[u8])
        ensures
            r@ == self@,
    {
        self.bytes.as_slice()
    }

    /// The length of the blob in bytes.
    pub fn len(&self) -> (r: usize)
        ensures
            r == self@.len(),
    {
        self.bytes.len()
    }

    /// Appends bytes at the end of the blob.
    pub fn append(&mut self, slice: &[u8])
        ensures
            final(self)@ == old(self)@ + slice@,
    {
        let mut i: usize = 0;
        while i < slice.len()
            invariant
                0 <= i <= slice@.len(),
                self@ == old(self)@ + slice@.subrange(0, i as int),
            decreases slice@.len() - i,
        {
            self.bytes.push(slice[i]);
            proof {
                assert(self@ =~= old(self)@ + slice@.subrange(0, i + 1));
            }
            i = i + 1;
        }
        assert(slice@.subrange(0, slice@.len() as int) =~= slice@);
    }

    /// The bytes from `start` to `end`, both included.
    fn gb(&self, start: usize, end: usize) -> (r: CorpusResult<Vec<u8>>)
        ensures
            span_bytes(self@, start as int, end as int) matches Some(b) ==> r matches Ok(v) && v@
                == b,
            span_bytes(self@, start as int, end as int) is None ==> r == Err::<Vec<u8>, CorpusError>(
                CorpusError::StringNotFoundError(start as u64, end as u64),
            ),
    {
        if end >= self.bytes.len() || start > end + 1 {
            return Err(CorpusError::StringNotFoundError(start as u64, end as u64));
        }
        let mut v: Vec<u8> = Vec::new();
        let mut i: usize = start;
        while i <= end
            invariant
                start <= i <= end + 1,
                end < self@.len(),
                end < usize::MAX,
                self@ == self.bytes@,
                v@ == self@.subrange(start as int, i as int),
            decreases end + 1 - i,
        {
            v.push(self.bytes[i]);
            proof {
                assert(v@ =~= self@.subrange(start as int, i + 1));
            }
            i = i + 1;
        }
        Ok(v)
    }

    /// The text from `start` to `end`, both included.
    fn gs(&self, start: usize, end: usize) -> (r: CorpusResult<String>)
        ensures
            span_bytes(self@, start as int, end as int) is None ==> r == Err::<String, CorpusError>(
                CorpusError::StringNotFoundError(start as u64, end as u64),
            ),
            span_bytes(self@, start as int, end as int) matches Some(b) ==> if valid_utf8(b) {
                r matches Ok(s) && encode_utf8(s@) == b
            } else {
                r == Err::<String, CorpusError>(CorpusError::InvalidStringError(start, end))
            },
    {
        let arr = self.gb(start, end)?;
        match utf8_string(arr) {
            Some(s) => Ok(s),
            None => Err(CorpusError::InvalidStringError(start, end)),
        }
    }

    /// The text from `start` to `end`, both included: the inclusive form that
    /// spans resolve through.
    pub fn _test_gs(&self, start: usize, end: usize) -> (r: CorpusResult<String>)
        ensures
            span_bytes(self@, start as int, end as int) is None ==> r == Err::<String, CorpusError>(
                CorpusError::StringNotFoundError(start as u64, end as u64),
            ),
            span_bytes(self@, start as int, end as int) matches Some(b) ==> if valid_utf8(b) {
                r matches Ok(s) && encode_utf8(s@) == b
            } else {
                r == Err::<String, CorpusError>(CorpusError::InvalidStringError(start, end))
            },
    {
        self.gs(start, end)
    }

    /// The text that a span covers.
    pub fn get_string(&self, string_ref: &StringRef) -> (r: CorpusResult<String>)
        ensures
            resolve(self@, *string_ref) matches Ok(b) ==> r matches Ok(s) && encode_utf8(s@) == b,
            resolve(self@, *string_ref) matches Err(e) ==> r == Err::<String, CorpusError>(e),
    {
        let start = string_ref.start()?;
        let end = string_ref.end()?;
        self.gs(start, end)
    }

    /// The bytes that a span covers.
    pub fn get_bytes(&self, string_ref: &StringRef) -> (r: CorpusResult<Vec<u8>>)
        ensures
            string_ref.start + string_ref.length > usize::MAX ==> r == Err::<Vec<u8>, CorpusError>(
                CorpusError::StringNotFoundError(string_ref.start, string_ref.length),
            ),
            string_ref.start + string_ref.length <= usize::MAX ==> match span_bytes(
                self@,
                string_ref.start as int,
                string_ref.start + string_ref.length,
            ) {
                Some(b) => r matches Ok(v) && v@ == b,
                None => r == Err::<Vec<u8>, CorpusError>(
                    CorpusError::StringNotFoundError(
                        string_ref.start,
                        (string_ref.start + string_ref.length) as u64,
                    ),
                ),
            },
    {
        let start = string_ref.start()?;
        let end = string_ref.end()?;
        self.gb(start, end)
    }
}

} // verus!
