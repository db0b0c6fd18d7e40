//! A byte source in memory that is read from front to back.

use crate::error::Error;
use vstd::prelude::*;
use vstd::slice::{slice_subrange, slice_to_vec};

verus! {

/// Bytes in memory and a position in them, from which the next read takes.
#[derive(Debug, Default)]
pub struct ByteReader {
    data: Vec<u8>,
    position: usize,
}

/// What a [`ByteReader`] holds.
pub struct ByteReaderView {
    /// All the bytes of the source.
    pub data: Seq<u8>,
    /// Number of bytes that were read already.
    pub position: int,
}

impl ByteReaderView {
    /// The bytes that were not read yet.
    pub open spec fn unread(self) -> Seq<u8> {
        self.data.subrange(self.position, self.data.len() as int)
    }
}

impl View for ByteReader {
    type V = ByteReaderView;

    closed spec fn view(&self) -> ByteReaderView {
        ByteReaderView { data: self.data@, position: self.position as int }
    }
}

/// Makes the `std::io::Error` of the kind `UnexpectedEof`, which is what
/// `read_exact` of std reports of a source that ends early.
#[verifier::external_body]
fn unexpected_end_of_input() -> (error: std::io::Error) {
    std::io::Error::from(std::io::ErrorKind::UnexpectedEof)
}

impl ByteReader {
    /// The position lies within the bytes.
    #[verifier::type_invariant]
    spec fn position_within_data(&self) -> bool {
        self.position <= self.data@.len()
    }

    /// A reader at the start of `data`.
    pub fn new(data: Vec<u8>) -> (reader: ByteReader)
        ensures
            reader@.data == data@,
            reader@.position == 0,
    {
        ByteReader { data, position: 0 }
    }

    /// Number of bytes that were read already.
    pub fn position(&self) -> (position: usize)
        ensures
            position == self@.position,
            position <= self@.data.len(),
    {
        proof {
            use_type_invariant(self);
        }
        self.position
    }

    /// Reads the next `count` bytes. Where fewer are left, the read fails
    /// with an I/O error and the reader stands at its end.
    pub fn read_exact(&mut self, count: usize) -> (read: Result<Vec<u8>, Error>)
        ensures
            0 <= old(self)@.position <= old(self)@.data.len(),
            final(self)@.data == old(self)@.data,
            old(self)@.unread().len() >= count ==> (read matches Ok(bytes)
                && bytes@ =~= old(self)@.unread().subrange(0, count as int)
                && final(self)@.position == old(self)@.position + count),
            old(self)@.unread().len() < count ==> (read matches Err(e) && e is IoError
                && final(self)@.position == old(self)@.data.len()),
    {
        proof {
            use_type_invariant(&*self);
        }
        let length: usize = self.data.len();
        if length - self.position < count {
            self.position = length;
            return Err(Error::IoError(unexpected_end_of_input()));
        }
        let start: usize = self.position;
        let bytes = slice_to_vec(slice_subrange(self.data.as_slice(), start, start + count));
        self.position = start + count;
        Ok(bytes)
    }
}

} // verus!
