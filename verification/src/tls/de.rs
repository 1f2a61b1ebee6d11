//! A length-tracking cursor over received bytes, and the primitive readers.

use vstd::prelude::*;
use crate::endian::be_value;
use crate::error::Error;

verus! {

/// A view over a byte slice together with the number of bytes that may still
/// be read from it. Readers never go past that declared length, even where the
/// slice itself is longer.
#[derive(Debug, Clone, Copy)]
pub struct Buffer<'a> {
    data: &'a [u8],
    length: usize,
}

/// What a decoder returns: the advanced cursor and the value, or the error.
pub type IResult<'a, O> = Result<(Buffer<'a>, O), Error>;

/// What a decoder is specified to find at the start of a byte sequence: the
/// value and the bytes after it, or the error.
pub type Parsed<T> = Result<(T, Seq<u8>), Error>;

impl<'a> View for Buffer<'a> {
    type V = Seq<u8>;

    /// The bytes within the declared length.
    closed spec fn view(&self) -> Seq<u8> {
        self.data@.take(self.length as int)
    }
}

/// An executable decoder's result `r` is what the specification `expected`
/// prescribes: the same value with the same bytes left, or the same error.
pub open spec fn decoded<'a, O: View>(r: IResult<'a, O>, expected: Parsed<O::V>) -> bool {
    match r {
        Ok((rest, v)) => expected == Ok::<(O::V, Seq<u8>), Error>((v@, rest@)),
        Err(e) => expected == Err::<(O::V, Seq<u8>), Error>(e),
    }
}

/// A type whose values can be decoded from bytes.
pub trait Deserialize: Sized + View {
    /// What `deserialize` finds at the start of `s`: the value and the bytes
    /// after it, or the error.
    spec fn parse(s: Seq<u8>) -> Parsed<Self::V>;

    /// A decoded value has taken at least one byte.
    proof fn lemma_parse_advances(s: Seq<u8>)
        ensures
            Self::parse(s) matches Ok((_, rest)) ==> rest.len() < s.len(),
    ;

    /// Decodes one value from the start of what `input` may still read.
    fn deserialize<'a>(input: Buffer<'a>) -> (r: IResult<'a, Self>)
        ensures
            decoded(r, Self::parse(input@)),
    ;
}

/// The value that fills `s` exactly: what the decoder of `T` finds at the start
/// of `s`, where it leaves nothing of `s`. A value that leaves bytes of `s`
/// unread shows that the length which set `s` apart does not fit the value.
pub open spec fn parse_exactly<T: Deserialize>(s: Seq<u8>) -> Result<T::V, Error> {
    match T::parse(s) {
        Ok((v, rest)) => if rest.len() == 0 {
            Ok(v)
        } else {
            Err(Error::LengthMismatch)
        },
        Err(e) => Err(e),
    }
}

/// Decodes the one value that uses up all that `input` may still read.
pub fn deserialize_exactly<'a, T: Deserialize>(input: Buffer<'a>) -> (r: Result<T, Error>)
    ensures
        match r {
            Ok(v) => parse_exactly::<T>(input@) == Ok::<T::V, Error>(v@),
            Err(e) => parse_exactly::<T>(input@) == Err::<T::V, Error>(e),
        },
{
    let (rest, value) = T::deserialize(input)?;
    if rest.length() != 0 {
        return Err(Error::LengthMismatch);
    }
    Ok(value)
}

/// The first byte of `s`.
pub open spec fn parse_u8(s: Seq<u8>) -> Parsed<u8> {
    if s.len() < 1 {
        Err(Error::UnexpectedEof)
    } else {
        Ok((s[0], s.skip(1)))
    }
}

/// The first two bytes of `s` as a big-endian number.
pub open spec fn parse_u16(s: Seq<u8>) -> Parsed<u16> {
    if s.len() < 2 {
        Err(Error::UnexpectedEof)
    } else {
        Ok((be_value(s.take(2)) as u16, s.skip(2)))
    }
}

/// The first four bytes of `s` as a big-endian number.
pub open spec fn parse_u32(s: Seq<u8>) -> Parsed<u32> {
    if s.len() < 4 {
        Err(Error::UnexpectedEof)
    } else {
        Ok((be_value(s.take(4)) as u32, s.skip(4)))
    }
}

/// The first `n` bytes of `s`.
pub open spec fn parse_take(s: Seq<u8>, n: nat) -> Parsed<Seq<u8>> {
    if s.len() < n {
        Err(Error::UnexpectedEof)
    } else {
        Ok((s.take(n as int), s.skip(n as int)))
    }
}

/// Calls `nom::number::complete::be_u8`: with at least one byte of input it
/// yields the first byte and the input after it; with none it fails, which is
/// handed on as `None`.
#[verifier::external_body]
fn nom_be_u8<'a>(data: &'a [u8]) -> (r: Option<(&'a [u8], u8)>)
    ensures
        match r {
            Some((rest, v)) => data@.len() >= 1 && rest@ == data@.skip(1) && v == data@[0],
            None => data@.len() < 1,
        },
{
    nom::number::complete::be_u8::<&[u8], nom::error::Error<&[u8]>>(data).ok()
}

/// Calls `nom::number::complete::be_u16`: with at least two bytes of input it
/// yields the first two read as a big-endian number and the input after them;
/// with fewer it fails, which is handed on as `None`.
#[verifier::external_body]
fn nom_be_u16<'a>(data: &'a [u8]) -> (r: Option<(&'a [u8], u16)>)
    ensures
        match r {
            Some((rest, v)) => data@.len() >= 2 && rest@ == data@.skip(2) && v == be_value(
                data@.take(2),
            ),
            None => data@.len() < 2,
        },
{
    nom::number::complete::be_u16::<&[u8], nom::error::Error<&[u8]>>(data).ok()
}

/// Calls `nom::number::complete::be_u32`: with at least four bytes of input it
/// yields the first four read as a big-endian number and the input after them;
/// with fewer it fails, which is handed on as `None`.
#[verifier::external_body]
fn nom_be_u32<'a>(data: &'a [u8]) -> (r: Option<(&'a [u8], u32)>)
    ensures
        match r {
            Some((rest, v)) => data@.len() >= 4 && rest@ == data@.skip(4) && v == be_value(
                data@.take(4),
            ),
            None => data@.len() < 4,
        },
{
    nom::number::complete::be_u32::<&[u8], nom::error::Error<&[u8]>>(data).ok()
}

/// Calls the parser that `nom::bytes::complete::take` builds for `n`: with at
/// least `n` bytes of input it yields the input after the first `n` bytes and
/// those `n` bytes; with fewer it fails, which is handed on as `None`.
#[verifier::external_body]
fn nom_take<'a>(data: &'a [u8], n: usize) -> (r: Option<(&'a [u8], &'a [u8])>)
    ensures
        match r {
            Some((rest, taken)) => data@.len() >= n && rest@ == data@.skip(n as int) && taken@
                == data@.take(n as int),
            None => data@.len() < n,
        },
{
    nom::bytes::complete::take::<usize, &[u8], nom::error::Error<&[u8]>>(n)(data).ok()
}

impl<'a> Buffer<'a> {
    #[verifier::type_invariant]
    spec fn inv(self) -> bool {
        self.length <= self.data@.len()
    }

    /// A cursor over the first `length` bytes of `data`.
    pub fn new(data: &'a [u8], length: usize) -> (b: Self)
        requires
            length <= data@.len(),
        ensures
            b@ == data@.take(length as int),
    {
        Buffer { data, length }
    }

    /// The number of bytes that may still be read.
    pub fn length(&self) -> (n: usize)
        ensures
            n == self@.len(),
    {
        proof {
            use_type_invariant(self);
        }
        self.length
    }
}

/// Reads one byte.
pub fn be_u8(input: Buffer) -> (r: IResult<u8>)
    ensures
        decoded(r, parse_u8(input@)),
{
    proof {
        use_type_invariant(&input);
    }
    if input.length < 1 {
        return Err(Error::UnexpectedEof);
    }
    match nom_be_u8(input.data) {
        Some((i, d)) => {
            let rest = Buffer::new(i, input.length - 1);
            assert(rest@ =~= input@.skip(1));
            Ok((rest, d))
        },
        None => Err(Error::UnexpectedEof),
    }
}

/// Reads a big-endian `u16`.
pub fn be_u16(input: Buffer) -> (r: IResult<u16>)
    ensures
        decoded(r, parse_u16(input@)),
{
    proof {
        use_type_invariant(&input);
    }
    if input.length < 2 {
        return Err(Error::UnexpectedEof);
    }
    match nom_be_u16(input.data) {
        Some((i, d)) => {
            let rest = Buffer::new(i, input.length - 2);
            assert(rest@ =~= input@.skip(2));
            assert(input.data@.take(2) =~= input@.take(2));
            Ok((rest, d))
        },
        None => Err(Error::UnexpectedEof),
    }
}

/// Reads a big-endian `u32`.
pub fn be_u32(input: Buffer) -> (r: IResult<u32>)
    ensures
        decoded(r, parse_u32(input@)),
{
    proof {
        use_type_invariant(&input);
    }
    if input.length < 4 {
        return Err(Error::UnexpectedEof);
    }
    match nom_be_u32(input.data) {
        Some((i, d)) => {
            let rest = Buffer::new(i, input.length - 4);
            assert(rest@ =~= input@.skip(4));
            assert(input.data@.take(4) =~= input@.take(4));
            Ok((rest, d))
        },
        None => Err(Error::UnexpectedEof),
    }
}

/// Splits off the next `n` bytes.
pub fn take<'a>(input: Buffer<'a>, n: usize) -> (r: IResult<'a, &'a [u8]>)
    ensures
        decoded(r, parse_take(input@, n as nat)),
{
    proof {
        use_type_invariant(&input);
    }
    if input.length < n {
        return Err(Error::UnexpectedEof);
    }
    match nom_take(input.data, n) {
        Some((i, d)) => {
            let rest = Buffer::new(i, input.length - n);
            assert(rest@ =~= input@.skip(n as int));
            assert(d@ =~= input@.take(n as int));
            Ok((rest, d))
        },
        None => Err(Error::UnexpectedEof),
    }
}

impl Deserialize for u8 {
    open spec fn parse(s: Seq<u8>) -> Parsed<u8> {
        parse_u8(s)
    }

    proof fn lemma_parse_advances(s: Seq<u8>) {
    }

    fn deserialize<'a>(input: Buffer<'a>) -> (r: IResult<'a, u8>) {
        be_u8(input)
    }
}

impl Deserialize for u16 {
    open spec fn parse(s: Seq<u8>) -> Parsed<u16> {
        parse_u16(s)
    }

    proof fn lemma_parse_advances(s: Seq<u8>) {
    }

    fn deserialize<'a>(input: Buffer<'a>) -> (r: IResult<'a, u16>) {
        be_u16(input)
    }
}

impl Deserialize for u32 {
    open spec fn parse(s: Seq<u8>) -> Parsed<u32> {
        parse_u32(s)
    }

    proof fn lemma_parse_advances(s: Seq<u8>) {
    }

    fn deserialize<'a>(input: Buffer<'a>) -> (r: IResult<'a, u32>) {
        be_u32(input)
    }
}

} // verus!
