//! A parser for server-sent events, on bytes.
//!
//! The host feeds the raw chunks of the transport into the buffer as they
//! arrive; the parser hands back one event's data at a time, as soon as a
//! complete event sits in the buffer. Only the line feed is handled as the
//! end of a line, and only the `data` field is supported; anything else is
//! an invalid payload.

use vstd::prelude::*;

verus! {

/// A parse error: the buffered payload is not a supported event.
#[derive(Clone, Copy, Debug, PartialEq, Eq, Structural)]
pub enum Error {
    /// The transport below reported an error; the host maps its chunk
    /// errors to this variant.
    TransportError,
    /// The buffered payload is not a `data` field.
    InvalidPayload,
}

/// The line feed byte.
pub const LINE_FEED: u8 = 10;

/// The colon byte.
pub const COLON: u8 = 58;

/// The space byte.
pub const SPACE: u8 = 32;

/// Whether the two-byte pattern `p0 p1` stands at position `i` of `b`.
pub open spec fn is_pair_at(b: Seq<u8>, i: int, p0: u8, p1: u8) -> bool {
    0 <= i && i + 1 < b.len() && b[i] == p0 && b[i + 1] == p1
}

/// Whether the two-byte pattern occurs anywhere in `b`.
pub open spec fn has_pair(b: Seq<u8>, p0: u8, p1: u8) -> bool {
    exists|i: int| is_pair_at(b, i, p0, p1)
}

/// The first position of the two-byte pattern in `b`.
pub open spec fn first_pair(b: Seq<u8>, p0: u8, p1: u8) -> int {
    choose|i: int|
        is_pair_at(b, i, p0, p1) && (forall|j: int| 0 <= j < i ==> !is_pair_at(b, j, p0, p1))
}

/// The bytes of the only supported field name, `data`.
pub open spec fn data_field_name() -> Seq<u8> {
    seq![100u8, 97u8, 116u8, 97u8]
}

/// What parsing one event out of the buffer yields: nothing when no
/// complete event is buffered yet, an invalid-payload error when the first
/// complete event is not a `data` field, and otherwise the data — the text
/// between the first `": "` and the next `": "` or the end of the field —
/// together with the buffer that remains once the event is consumed.
pub open spec fn spec_parse_event(b: Seq<u8>) -> Result<Option<(Seq<u8>, Seq<u8>)>, Error> {
    if b.len() == 0 || !has_pair(b, LINE_FEED, LINE_FEED) {
        Ok(None)
    } else {
        let e = first_pair(b, LINE_FEED, LINE_FEED);
        let field = b.take(e);
        if !has_pair(field, COLON, SPACE) {
            Err(Error::InvalidPayload)
        } else {
            let c = first_pair(field, COLON, SPACE);
            if field.take(c) != data_field_name() {
                Err(Error::InvalidPayload)
            } else {
                let rest = field.skip(c + 2);
                let data_len = if has_pair(rest, COLON, SPACE) {
                    first_pair(rest, COLON, SPACE)
                } else {
                    rest.len() as int
                };
                Ok(Some((rest.take(data_len), b.skip(e + 2))))
            }
        }
    }
}

/// The buffer of a server-sent-events stream.
pub struct Sse {
    /// The bytes received and not yet consumed.
    pub buf: Vec<u8>,
}

impl View for Sse {
    type V = Seq<u8>;

    open spec fn view(&self) -> Seq<u8> {
        self.buf@
    }
}

/// Finds the first position of the two-byte pattern `p0 p1` in `b`.
fn find_pair(b: &Vec<u8>, p0: u8, p1: u8) -> (r: Option<usize>)
    ensures
        match r {
            Some(i) => i == first_pair(b@, p0, p1) && is_pair_at(b@, i as int, p0, p1) && (
            forall|j: int| 0 <= j < i ==> !is_pair_at(b@, j, p0, p1)),
            None => !has_pair(b@, p0, p1),
        },
{
    if b.len() < 2 {
        proof {
            if has_pair(b@, p0, p1) {
                let w = choose|i: int| is_pair_at(b@, i, p0, p1);
            }
        }
        return None;
    }
    let mut i: usize = 0;
    while i + 1 < b.len()
        invariant
            b@.len() >= 2,
            i + 1 <= b@.len(),
            forall|j: int| 0 <= j < i ==> !is_pair_at(b@, j, p0, p1),
        decreases b.len() - i,
    {
        if b[i] == p0 && b[i + 1] == p1 {
            proof {
                assert(is_pair_at(b@, i as int, p0, p1));
                let w = first_pair(b@, p0, p1);
                assert(is_pair_at(b@, w, p0, p1) && (forall|j: int|
                    0 <= j < w ==> !is_pair_at(b@, j, p0, p1)));
                assert(w == i as int);
            }
            return Some(i);
        }
        i = i + 1;
    }
    proof {
        if has_pair(b@, p0, p1) {
            let w = choose|j: int| is_pair_at(b@, j, p0, p1);
        }
    }
    None
}

/// Finds the first position of `": "` within `b[from..to)`.
fn scan_colon_space(b: &Vec<u8>, from: usize, to: usize) -> (r: Option<usize>)
    requires
        from <= to <= b@.len(),
    ensures
        ({
            let seg = b@.subrange(from as int, to as int);
            match r {
                Some(i) => from <= i && i - from == first_pair(seg, COLON, SPACE) && is_pair_at(
                    seg,
                    i - from,
                    COLON,
                    SPACE,
                ) && (forall|j: int| 0 <= j < i - from ==> !is_pair_at(seg, j, COLON, SPACE)),
                None => !has_pair(seg, COLON, SPACE),
            }
        }),
{
    let ghost seg = b@.subrange(from as int, to as int);
    if to - from < 2 {
        proof {
            if has_pair(seg, COLON, SPACE) {
                let w = choose|i: int| is_pair_at(seg, i, COLON, SPACE);
            }
        }
        return None;
    }
    let mut i: usize = from;
    while i < to - 1
        invariant
            from <= to <= b@.len(),
            to - from >= 2,
            seg == b@.subrange(from as int, to as int),
            from <= i <= to - 1,
            forall|j: int| 0 <= j < i - from ==> !is_pair_at(seg, j, COLON, SPACE),
        decreases to - i,
    {
        if b[i] == COLON && b[i + 1] == SPACE {
            proof {
                assert(seg[i - from] == b@[i as int]);
                assert(seg[i - from + 1] == b@[i as int + 1]);
                assert(is_pair_at(seg, i - from, COLON, SPACE));
                let w = first_pair(seg, COLON, SPACE);
                assert(is_pair_at(seg, w, COLON, SPACE) && (forall|j: int|
                    0 <= j < w ==> !is_pair_at(seg, j, COLON, SPACE)));
                assert(w == i - from);
            }
            return Some(i);
        }
        proof {
            assert(seg[i - from] == b@[i as int]);
            assert(seg[i - from + 1] == b@[i as int + 1]);
        }
        i = i + 1;
    }
    proof {
        if has_pair(seg, COLON, SPACE) {
            let w = choose|j: int| is_pair_at(seg, j, COLON, SPACE);
        }
    }
    None
}

impl Sse {
    /// Creates an empty buffer.
    pub fn new() -> (r: Self)
        ensures
            r@ == Seq::<u8>::empty(),
    {
        let buf: Vec<u8> = Vec::new();
        Sse { buf }
    }

    /// Appends one chunk of the transport to the buffer.
    pub fn push_chunk(&mut self, chunk: &[u8])
        ensures
            final(self)@ == old(self)@ + chunk@,
    {
        let mut i: usize = 0;
        while i < chunk.len()
            invariant
                i <= chunk@.len(),
                self@ == old(self)@ + chunk@.take(i as int),
            decreases chunk.len() - i,
        {
            let b = chunk[i];
            self.buf.push(b);
            proof {
                assert(self@ =~= old(self)@ + chunk@.take(i + 1 as int));
            }
            i = i + 1;
        }
        proof {
            assert(old(self)@ + chunk@.take(chunk@.len() as int) =~= old(self)@ + chunk@);
        }
    }

    /// Parses one event out of the buffer, when a complete one is there:
    /// implements [`spec_parse_event`], consuming the event from the
    /// buffer exactly when data is returned.
    #[verifier::rlimit(50)]
    pub fn try_parse_event(&mut self) -> (r: Result<Option<Vec<u8>>, Error>)
        ensures
            match r {
                Ok(Some(data)) => spec_parse_event(old(self)@) matches Ok(Some(p)) && data@ == p.0
                    && final(self)@ == p.1,
                Ok(None) => spec_parse_event(old(self)@) == Ok::<
                    Option<(Seq<u8>, Seq<u8>)>,
                    Error,
                >(None) && final(self)@ == old(self)@,
                Err(e) => spec_parse_event(old(self)@) == Err::<
                    Option<(Seq<u8>, Seq<u8>)>,
                    Error,
                >(e) && final(self)@ == old(self)@,
            },
    {
        if self.buf.len() == 0 {
            return Ok(None);
        }
        let eol = match find_pair(&self.buf, LINE_FEED, LINE_FEED) {
            Some(e) => e,
            None => {
                return Ok(None);
            },
        };
        let ghost field = self@.take(eol as int);
        proof {
            assert(field =~= self@.subrange(0, eol as int));
        }
        // Find the first ": " of the field line.
        let c = match scan_colon_space(&self.buf, 0, eol) {
            Some(c) => c,
            None => {
                return Err(Error::InvalidPayload);
            },
        };
        // The field name before the ": " must be exactly `data`.
        let name_ok = c == 4 && self.buf[0] == 100 && self.buf[1] == 97 && self.buf[2] == 116
            && self.buf[3] == 97;
        proof {
            if name_ok {
                assert(field.take(c as int) =~= data_field_name());
            } else {
                assert(field.take(c as int) != data_field_name()) by {
                    if field.take(c as int) == data_field_name() {
                        assert(field.take(c as int).len() == 4);
                        assert(field.take(c as int)[0] == 100u8);
                        assert(field.take(c as int)[1] == 97u8);
                        assert(field.take(c as int)[2] == 116u8);
                        assert(field.take(c as int)[3] == 97u8);
                        assert(self@[0] == 100u8 && self@[1] == 97u8 && self@[2] == 116u8
                            && self@[3] == 97u8);
                    }
                }
            }
        }
        if !name_ok {
            return Err(Error::InvalidPayload);
        }
        // The data runs from after the ": " to the next ": " or the end of
        // the field.
        let ghost rest = field.skip(c + 2);
        proof {
            assert(rest =~= self@.subrange(c + 2, eol as int));
        }
        let data_end: usize = match scan_colon_space(&self.buf, c + 2, eol) {
            Some(d) => d,
            None => eol,
        };
        // Copy the data out.
        let mut data: Vec<u8> = Vec::new();
        let mut k: usize = c + 2;
        while k < data_end
            invariant
                c + 2 <= k <= data_end,
                data_end <= eol < self@.len(),
                data@ == self@.subrange(c + 2, k as int),
            decreases data_end - k,
        {
            let b = self.buf[k];
            data.push(b);
            proof {
                assert(data@ =~= self@.subrange(c + 2, k + 1 as int));
            }
            k = k + 1;
        }
        proof {
            let ghost_len: int = data_end - c - 2;
            assert(data@ =~= rest.take(ghost_len));
        }
        // Consume the event, keeping what follows the blank line.
        let tail = self.buf.split_off(eol + 2);
        self.buf = tail;
        proof {
            assert(self@ =~= old(self)@.skip(eol + 2));
        }
        Ok(Some(data))
    }
}

} // verus!
