//! The reading side of a connection: frames decoded from the bytes received so
//! far, typed by their codes, with one frame of lookahead.
//!
//! The transport is not read here. Its owner hands received bytes to `feed`;
//! a read that finds no whole frame reports so and leaves everything in place,
//! so that it can be repeated once more bytes have come.

use vstd::prelude::*;

use crate::codec::{next_frame, Codec};
use crate::payload::{Error, RawPayload, ReceivableJSONPayload};

verus! {

/// One of two alternatives.
pub enum Either<L, R> {
    Left(L),
    Right(R),
}

/// What `read_if_match_type` found.
pub enum MatchOutcome {
    /// The next frame is of the kind asked for; it has been taken.
    Matched(RawPayload),
    /// The next frame is of another kind; it is kept for the next read.
    Buffered,
    /// No whole frame has arrived yet.
    Incomplete,
}

/// The frames a connection has received and not yet read.
pub struct Reader {
    codec: Codec,
    buffer: Vec<u8>,
    peeked: Option<RawPayload>,
}

pub open spec fn opt_frame(p: Option<RawPayload>) -> Option<(u8, Seq<u8>)> {
    match p {
        Some(f) => Some(f@),
        None => None,
    }
}

impl Reader {
    /// The received bytes that no frame has been taken from.
    pub closed spec fn stream(&self) -> Seq<u8> {
        self.codec.pending(self.buffer@)
    }

    /// The frame held back by a read of another kind, if any.
    pub closed spec fn peeked(&self) -> Option<(u8, Seq<u8>)> {
        opt_frame(self.peeked)
    }

    /// The frame that the next read will see.
    pub open spec fn next_item(&self) -> Option<(u8, Seq<u8>)> {
        match self.peeked() {
            Some(f) => Some(f),
            None => match next_frame(self.stream()) {
                Some((f, _)) => Some(f),
                None => None,
            },
        }
    }

    /// The stream once the next frame has been taken from it.
    pub open spec fn stream_after_next(&self) -> Seq<u8> {
        match self.peeked() {
            Some(_) => self.stream(),
            None => match next_frame(self.stream()) {
                Some((_, rest)) => rest,
                None => self.stream(),
            },
        }
    }

    /// `after` is this reader with its next frame taken.
    pub open spec fn advanced_to(&self, after: &Reader) -> bool {
        after.peeked() is None && after.stream() == self.stream_after_next()
    }

    /// `after` holds the same frames as this reader.
    pub open spec fn same_as(&self, after: &Reader) -> bool {
        after.peeked() == self.peeked() && after.stream() == self.stream()
    }

    pub fn new() -> (r: Self)
        ensures
            r.peeked() is None,
            r.stream() == Seq::<u8>::empty(),
    {
        Reader { codec: Codec::new(), buffer: Vec::new(), peeked: None }
    }

    /// Adds bytes received from the transport.
    pub fn feed(&mut self, data: &[u8])
        ensures
            final(self).peeked() == old(self).peeked(),
            final(self).stream() == old(self).stream() + data@,
    {
        let ghost start = self.buffer@;
        let mut i: usize = 0;
        while i < data.len()
            invariant
                i <= data@.len(),
                self.codec == old(self).codec,
                self.peeked == old(self).peeked,
                self.buffer@ == start + data@.take(i as int),
            decreases data@.len() - i,
        {
            self.buffer.push(data[i]);
            i += 1;
            proof {
                assert(data@.take(i as int) =~= data@.take(i - 1) + seq![data@[i - 1]]);
            }
        }
        proof {
            assert(data@.take(data@.len() as int) =~= data@);
            assert(self.codec.pending(self.buffer@) =~= old(self).codec.pending(start) + data@);
        }
    }

    /// Takes the next frame: the held-back one first, else one from the stream.
    pub fn read_raw(&mut self) -> (r: Option<RawPayload>)
        ensures
            opt_frame(r) == old(self).next_item(),
            r is Some ==> old(self).advanced_to(final(self)),
            r is None ==> old(self).same_as(final(self)),
    {
        if self.peeked.is_some() {
            return self.peeked.take();
        }
        self.codec.decode(&mut self.buffer)
    }

    /// Takes the next frame, which must be of kind `P`; a frame of another kind
    /// is taken too and reported as a mismatch.
    pub fn read<P: ReceivableJSONPayload>(&mut self) -> (r: Option<Result<RawPayload, Error>>)
        ensures
            match old(self).next_item() {
                None => r is None && old(self).same_as(final(self)),
                Some(f) => old(self).advanced_to(final(self)) && if f.0 == P::spec_type_code() {
                    r matches Some(Ok(p)) && p@ == f
                } else {
                    r matches Some(Err(Error::TypeMismatch(code))) && code == f.0
                },
            },
    {
        match self.read_raw() {
            None => None,
            Some(raw) => match raw.check_type::<P>() {
                Ok(()) => Some(Ok(raw)),
                Err(e) => Some(Err(e)),
            },
        }
    }

    /// Takes the next frame if it is of kind `P`; a frame of another kind is
    /// held back, in the one slot there is, for the next read.
    pub fn read_if_match_type<P: ReceivableJSONPayload>(&mut self) -> (r: MatchOutcome)
        ensures
            match old(self).next_item() {
                None => r is Incomplete && old(self).same_as(final(self)),
                Some(f) => if f.0 == P::spec_type_code() {
                    r matches MatchOutcome::Matched(p) && p@ == f && old(self).advanced_to(final(self))
                } else {
                    r is Buffered && final(self).peeked() == Some(f)
                        && final(self).stream() == old(self).stream_after_next()
                },
            },
    {
        match self.read_raw() {
            None => MatchOutcome::Incomplete,
            Some(raw) => {
                if raw.check_type::<P>().is_ok() {
                    MatchOutcome::Matched(raw)
                } else {
                    self.peeked = Some(raw);
                    MatchOutcome::Buffered
                }
            },
        }
    }

    /// Reads the next frame as an `L` if it is one, else as an `R`; a frame of
    /// neither kind is taken and reported as a mismatch. Each frame is read once.
    pub fn read_either<L: ReceivableJSONPayload, R: ReceivableJSONPayload>(&mut self) -> (r: Option<
        Result<Either<RawPayload, RawPayload>, Error>,
    >)
        ensures
            match old(self).next_item() {
                None => r is None && old(self).same_as(final(self)),
                Some(f) => old(self).advanced_to(final(self)) && if f.0 == L::spec_type_code() {
                    r matches Some(Ok(Either::Left(p))) && p@ == f
                } else if f.0 == R::spec_type_code() {
                    r matches Some(Ok(Either::Right(p))) && p@ == f
                } else {
                    r matches Some(Err(Error::TypeMismatch(code))) && code == f.0
                },
            },
    {
        match self.read_if_match_type::<L>() {
            MatchOutcome::Incomplete => None,
            MatchOutcome::Matched(raw) => Some(Ok(Either::Left(raw))),
            MatchOutcome::Buffered => match self.read::<R>() {
                None => None,
                Some(Ok(raw)) => Some(Ok(Either::Right(raw))),
                Some(Err(e)) => Some(Err(e)),
            },
        }
    }
}

} // verus!
