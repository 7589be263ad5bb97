//! A compact binary snapshot format for engine state.
//!
//! Values are written by a `Serializer` into a byte sink (`WriteUninit`) and
//! read back by a `Deserializer` from a byte source (`ReadUninit`). Every
//! type that takes part in the format describes its encoding as a relation
//! between an abstract model of the value and a byte string
//! (`WireFormat::spec_encodes`), together with a decoder
//! (`WireFormat::spec_decode`); each type proves that decoding an encoding
//! gives the model back (`WireFormat::lemma_round_trip`).
use vstd::prelude::*;

verus! {

/// The error kinds of the snapshot format. Each carries a message.
#[derive(Debug)]
pub enum Error {
    Deserialize(String),
    Read(String),
    Serialize(String),
    Write(String),
}

impl Error {
    /// The kind of the error, as named in its message.
    pub open spec fn spec_kind(&self) -> Seq<char> {
        match self {
            Error::Deserialize(_) => "Deserialize"@,
            Error::Read(_) => "Read"@,
            Error::Serialize(_) => "Serialize"@,
            Error::Write(_) => "Write"@,
        }
    }

    /// What went wrong, without the kind.
    pub open spec fn spec_detail(&self) -> Seq<char> {
        match self {
            Error::Deserialize(m) => m@,
            Error::Read(m) => m@,
            Error::Serialize(m) => m@,
            Error::Write(m) => m@,
        }
    }

    /// A human readable rendering of the error, naming its kind:
    /// `snapshot error: Kind = <kind>, Error = <detail>`.
    pub fn message(&self) -> (r: String)
        ensures
            r@ == "snapshot error: Kind = "@ + self.spec_kind() + ", Error = "@ + self.spec_detail(),
    {
        let (kind, detail) = match self {
            Error::Deserialize(m) => ("Deserialize", m),
            Error::Read(m) => ("Read", m),
            Error::Serialize(m) => ("Serialize", m),
            Error::Write(m) => ("Write", m),
        };
        String::from_str("snapshot error: Kind = ").concat(kind).concat(", Error = ").concat(
            detail.as_str(),
        )
    }
}

pub type Result<T> = core::result::Result<T, Error>;

/// `true` when `prefix` is a prefix of `full`.
pub open spec fn extends(prefix: Seq<u8>, full: Seq<u8>) -> bool {
    prefix.len() <= full.len() && full.subrange(0, prefix.len() as int) == prefix
}

/// The bytes that `full` holds after its prefix `prefix`.
pub open spec fn appended(prefix: Seq<u8>, full: Seq<u8>) -> Seq<u8> {
    full.subrange(prefix.len() as int, full.len() as int)
}

/// A sink of bytes (adapted from std's `Write`).
pub trait WriteUninit {
    /// All bytes that this sink has accepted so far, in order.
    spec fn written(&self) -> Seq<u8>;

    /// When `true`, every `write` accepts its whole buffer and never fails.
    spec fn accepts_all(&self) -> bool;

    /// Writes a prefix of `buf`, returning how many bytes were accepted.
    fn write(&mut self, buf: &[u8]) -> (r: Result<usize>)
        ensures
            final(self).accepts_all() == old(self).accepts_all(),
            r matches Ok(n) ==> n <= buf@.len() && final(self).written() == old(self).written()
                + buf@.subrange(0, n as int),
            old(self).accepts_all() ==> (r matches Ok(n) && n == buf@.len()),
    ;

    fn flush(&mut self) -> (r: Result<()>)
        ensures
            final(self).accepts_all() == old(self).accepts_all(),
            final(self).written() == old(self).written(),
            old(self).accepts_all() ==> r is Ok,
    ;

    /// Writes the whole of `buf`, failing if the sink stops accepting bytes.
    fn write_all(&mut self, buf: &[u8]) -> (r: Result<()>)
        ensures
            final(self).accepts_all() == old(self).accepts_all(),
            r is Ok ==> final(self).written() == old(self).written() + buf@,
            old(self).accepts_all() ==> r is Ok,
    {
        let mut pos: usize = 0;
        while pos < buf.len()
            invariant
                pos <= buf@.len(),
                self.accepts_all() == old(self).accepts_all(),
                self.written() == old(self).written() + buf@.subrange(0, pos as int),
            decreases buf@.len() - pos,
        {
            let rest = vstd::slice::slice_subrange(buf, pos, buf.len());
            let ghost before = self.written();
            match self.write(rest) {
                Ok(n) => {
                    if n == 0 {
                        return Err(Error::Write("failed to write whole buffer".to_string()));
                    }
                    assert(buf@.subrange(0, pos as int) + rest@.subrange(0, n as int)
                        =~= buf@.subrange(0, (pos + n) as int));
                    pos = pos + n;
                },
                Err(e) => {
                    return Err(e);
                },
            }
        }
        assert(buf@.subrange(0, pos as int) =~= buf@);
        Ok(())
    }
}

/// `Vec<u8>` is a sink that accepts every byte (adapted from std's
/// `impl Write for Vec<u8>`).
impl WriteUninit for Vec<u8> {
    open spec fn written(&self) -> Seq<u8> {
        self@
    }

    open spec fn accepts_all(&self) -> bool {
        true
    }

    fn write(&mut self, buf: &[u8]) -> (r: Result<usize>) {
        self.extend_from_slice(buf);
        assert(buf@.subrange(0, buf@.len() as int) =~= buf@);
        Ok(buf.len())
    }

    fn flush(&mut self) -> (r: Result<()>) {
        Ok(())
    }
}

/// A source of bytes (adapted from std's `Read`).
pub trait ReadUninit {
    /// The bytes that this source will still yield, in order.
    spec fn unread(&self) -> Seq<u8>;

    /// When `true`, every `read` succeeds.
    spec fn yields_all(&self) -> bool;

    /// Reads bytes into a prefix of `buf`, returning how many were read. A
    /// result of `0` for a non-empty `buf` means that the source is exhausted.
    fn read(&mut self, buf: &mut [u8]) -> (r: Result<usize>)
        ensures
            final(buf)@.len() == old(buf)@.len(),
            final(self).yields_all() == old(self).yields_all(),
            r matches Ok(n) ==> {
                &&& n <= old(buf)@.len()
                &&& n <= old(self).unread().len()
                &&& final(buf)@.subrange(0, n as int) == old(self).unread().subrange(0, n as int)
                &&& final(self).unread() == old(self).unread().subrange(
                    n as int,
                    old(self).unread().len() as int,
                )
                &&& (n == 0 ==> old(buf)@.len() == 0 || old(self).unread().len() == 0)
            },
            old(self).yields_all() ==> r is Ok,
    ;

    /// Fills the whole of `buf`, failing if the source runs out of bytes.
    fn read_exact(&mut self, buf: &mut [u8]) -> (r: Result<()>)
        ensures
            final(buf)@.len() == old(buf)@.len(),
            final(self).yields_all() == old(self).yields_all(),
            r is Ok ==> old(buf)@.len() <= old(self).unread().len() && final(buf)@
                == old(self).unread().subrange(0, old(buf)@.len() as int) && final(self).unread()
                == old(self).unread().subrange(
                old(buf)@.len() as int,
                old(self).unread().len() as int,
            ),
            old(self).unread().len() < old(buf)@.len() ==> r is Err,
            old(self).yields_all() && old(buf)@.len() <= old(self).unread().len() ==> r is Ok,
            old(self).yields_all() && old(self).unread().len() < old(buf)@.len() ==> {
                &&& r matches Err(e) && e is Read && e.spec_detail()
                    == "failed to fill whole buffer"@
                &&& final(buf)@.subrange(0, old(self).unread().len() as int) == old(self).unread()
                &&& final(self).unread().len() == 0
            },
    {
        let len = buf.len();
        let mut pos: usize = 0;
        while pos < len
            invariant
                len == old(buf)@.len(),
                pos <= len,
                buf@.len() == len,
                self.yields_all() == old(self).yields_all(),
                pos <= old(self).unread().len(),
                buf@.subrange(0, pos as int) == old(self).unread().subrange(0, pos as int),
                self.unread() == old(self).unread().subrange(
                    pos as int,
                    old(self).unread().len() as int,
                ),
            decreases len - pos,
        {
            let ghost before = buf@;
            let ghost unread_before = self.unread();
            let (head, tail) = buf.split_at_mut(pos);
            let res = self.read(tail);
            match res {
                Ok(n) => {
                    if n == 0 {
                        assert(buf@.subrange(0, pos as int) =~= before.subrange(0, pos as int));
                        return Err(Error::Read(String::from_str("failed to fill whole buffer")));
                    }
                    assert(buf@.subrange(0, pos as int) =~= before.subrange(0, pos as int));
                    assert(buf@.subrange(pos as int, (pos + n) as int) =~= unread_before.subrange(0, n as int));
                    assert(unread_before.subrange(0, n as int) =~= old(self).unread().subrange(
                        pos as int,
                        (pos + n) as int,
                    ));
                    let ghost src = old(self).unread();
                    assert(before.subrange(0, pos as int) == src.subrange(0, pos as int));
                    assert forall|i: int| 0 <= i < pos + n implies #[trigger] buf@[i] == src[i] by {
                        if i < pos {
                            assert(buf@.subrange(0, pos as int)[i] == src.subrange(0, pos as int)[i]);
                        } else {
                            assert(buf@.subrange(pos as int, (pos + n) as int)[i - pos]
                                == src.subrange(pos as int, (pos + n) as int)[i - pos]);
                        }
                    }
                    assert(buf@.subrange(0, (pos + n) as int) =~= old(self).unread().subrange(
                        0,
                        (pos + n) as int,
                    ));
                    assert(self.unread() =~= old(self).unread().subrange(
                        (pos + n) as int,
                        old(self).unread().len() as int,
                    ));
                    pos = pos + n;
                },
                Err(e) => {
                    return Err(e);
                },
            }
        }
        assert(buf@ =~= buf@.subrange(0, pos as int));
        Ok(())
    }
}

/// A byte slice is a source that yields its own bytes (adapted from std's
/// `impl Read for &[u8]`).
impl<'a> ReadUninit for &'a [u8] {
    open spec fn unread(&self) -> Seq<u8> {
        (*self)@
    }

    open spec fn yields_all(&self) -> bool {
        true
    }

    fn read(&mut self, buf: &mut [u8]) -> (r: Result<usize>) {
        let src: &'a [u8] = *self;
        let amt = if buf.len() < src.len() {
            buf.len()
        } else {
            src.len()
        };
        let (a, b) = src.split_at(amt);
        let mut i: usize = 0;
        while i < amt
            invariant
                amt <= buf@.len(),
                amt == a@.len(),
                i <= amt,
                buf@.len() == old(buf)@.len(),
                buf@.subrange(0, i as int) == a@.subrange(0, i as int),
            decreases amt - i,
        {
            buf[i] = a[i];
            assert(buf@.subrange(0, (i + 1) as int) =~= a@.subrange(0, (i + 1) as int));
            i = i + 1;
        }
        *self = b;
        Ok(amt)
    }
}


/// The description of a type's place in the snapshot format: an abstract
/// model of its values, which byte strings encode a model, and how a model is
/// decoded from the front of a byte string.
pub trait WireFormat {
    type Model;

    /// The abstract value of `self`.
    spec fn model(&self) -> Self::Model;

    /// `true` when `bytes` is an encoding of a value whose model is `m`.
    spec fn spec_encodes(m: Self::Model, bytes: Seq<u8>) -> bool;

    /// `true` when a value whose model is `m` can be encoded at all (lengths
    /// are written as `u32`, so longer collections cannot).
    spec fn spec_encodable(m: Self::Model) -> bool;

    /// Decodes a value from the front of `bytes`, giving its model and the
    /// number of bytes it occupies, or `None` when the bytes are no encoding.
    spec fn spec_decode(bytes: Seq<u8>) -> Option<(Self::Model, nat)>;

    /// `true` when the contracts of this type's operations apply. It is
    /// `false` only for hash maps whose keys are outside vstd's model of
    /// hashing.
    spec fn spec_faithful() -> bool;

    /// Decoding an encoding gives its model back and consumes exactly the
    /// encoding, whatever follows it.
    proof fn lemma_round_trip(m: Self::Model, bytes: Seq<u8>, rest: Seq<u8>)
        requires
            Self::spec_faithful(),
            Self::spec_encodes(m, bytes),
        ensures
            Self::spec_decode(bytes + rest) == Some((m, bytes.len())),
    ;

    /// What a decoder reports as consumed never exceeds its input.
    proof fn lemma_decode_bounded(bytes: Seq<u8>)
        ensures
            Self::spec_decode(bytes) matches Some((m, n)) ==> n <= bytes.len(),
    ;
}

/// `true` when `decoded` reports the model `m`, and `after` is `before`
/// without the bytes that `decoded` reports as consumed.
pub open spec fn consumed<M>(decoded: Option<(M, nat)>, m: M, before: Seq<u8>, after: Seq<u8>) -> bool {
    &&& decoded matches Some((dm, n))
    &&& dm == m
    &&& n <= before.len()
    &&& after == before.subrange(n as int, before.len() as int)
}

/// Appending `b` to `a` extends `a`, and what was appended is `b`.
pub proof fn lemma_append(a: Seq<u8>, b: Seq<u8>)
    ensures
        extends(a, a + b),
        appended(a, a + b) == b,
{
    assert((a + b).subrange(0, a.len() as int) =~= a);
    assert((a + b).subrange(a.len() as int, (a + b).len() as int) =~= b);
}

/// Writes values into a byte sink.
pub struct Serializer<W: WriteUninit> {
    writer: W,
}

impl<W: WriteUninit> Serializer<W> {
    /// The bytes written so far.
    pub closed spec fn written(&self) -> Seq<u8> {
        self.writer.written()
    }

    /// `true` when the underlying sink accepts every write.
    pub closed spec fn accepts_all(&self) -> bool {
        self.writer.accepts_all()
    }

    pub fn new(writer: W) -> (s: Self)
        ensures
            s.written() == writer.written(),
            s.accepts_all() == writer.accepts_all(),
    {
        Self { writer }
    }

    /// Serializes a plain fixed-size value: its bytes, as `PodBytes` gives
    /// them.
    pub fn serialize_pod<T: PodBytes>(&mut self, v: &T) -> (r: Result<()>)
        ensures
            final(self).accepts_all() == old(self).accepts_all(),
            r is Ok ==> final(self).written() == old(self).written() + T::spec_pod_bytes(
                v.model(),
            ),
            old(self).accepts_all() ==> r is Ok,
    {
        let bytes = v.to_pod_bytes();
        self.writer.write_all(bytes.as_slice())
    }

    /// Serializes a slice of bytes. This does *not* encode the length.
    pub fn serialize_bytes(&mut self, v: &[u8]) -> (r: Result<()>)
        ensures
            final(self).accepts_all() == old(self).accepts_all(),
            r is Ok ==> final(self).written() == old(self).written() + v@,
            old(self).accepts_all() ==> r is Ok,
    {
        self.writer.write_all(v)
    }

    /// Serializes a slice of bytes. This does *not* encode the length.
    pub fn serialize_uninit_bytes(&mut self, v: &[u8]) -> (r: Result<()>)
        ensures
            final(self).accepts_all() == old(self).accepts_all(),
            r is Ok ==> final(self).written() == old(self).written() + v@,
            old(self).accepts_all() ==> r is Ok,
    {
        self.writer.write_all(v)
    }

    pub fn into_writer(self) -> (w: W)
        ensures
            w.written() == self.written(),
            w.accepts_all() == self.accepts_all(),
    {
        self.writer
    }
}

/// Reads values from a byte source.
pub struct Deserializer<R: ReadUninit> {
    reader: R,
}

impl<R: ReadUninit> Deserializer<R> {
    /// The bytes that remain to be read.
    pub closed spec fn unread(&self) -> Seq<u8> {
        self.reader.unread()
    }

    /// `true` when the underlying source never fails.
    pub closed spec fn yields_all(&self) -> bool {
        self.reader.yields_all()
    }

    pub fn new(reader: R) -> (d: Self)
        ensures
            d.unread() == reader.unread(),
            d.yields_all() == reader.yields_all(),
    {
        Self { reader }
    }

    /// Fills `buf` with the next bytes.
    pub fn deserialize_into_uninit_bytes(&mut self, buf: &mut [u8]) -> (r: Result<()>)
        ensures
            final(buf)@.len() == old(buf)@.len(),
            final(self).yields_all() == old(self).yields_all(),
            r is Ok ==> old(buf)@.len() <= old(self).unread().len() && final(buf)@
                == old(self).unread().subrange(0, old(buf)@.len() as int) && final(self).unread()
                == old(self).unread().subrange(
                old(buf)@.len() as int,
                old(self).unread().len() as int,
            ),
            old(self).unread().len() < old(buf)@.len() ==> r is Err,
            old(self).yields_all() && old(buf)@.len() <= old(self).unread().len() ==> r is Ok,
            old(self).yields_all() && old(self).unread().len() < old(buf)@.len() ==> {
                &&& r matches Err(e) && e is Read && e.spec_detail()
                    == "failed to fill whole buffer"@
                &&& final(buf)@.subrange(0, old(self).unread().len() as int) == old(self).unread()
                &&& final(self).unread().len() == 0
            },
    {
        self.reader.read_exact(buf)
    }

    /// Reads the next `bytes` bytes into a new vector.
    pub fn deserialize_uninit_bytes(&mut self, bytes: usize) -> (r: Result<Vec<u8>>)
        ensures
            final(self).yields_all() == old(self).yields_all(),
            r matches Ok(v) ==> bytes <= old(self).unread().len() && v@ == old(
                self,
            ).unread().subrange(0, bytes as int) && final(self).unread() == old(
                self,
            ).unread().subrange(bytes as int, old(self).unread().len() as int),
            old(self).unread().len() < bytes ==> r is Err,
            old(self).yields_all() && bytes <= old(self).unread().len() ==> r is Ok,
    {
        let mut buf: Vec<u8> = Vec::with_capacity(bytes);
        let mut i: usize = 0;
        while i < bytes
            invariant
                i <= bytes,
                buf@.len() == i,
            decreases bytes - i,
        {
            buf.push(0u8);
            i = i + 1;
        }
        match self.reader.read_exact(buf.as_mut_slice()) {
            Ok(()) => Ok(buf),
            Err(e) => Err(e),
        }
    }

    /// Deserializes a plain fixed-size value from its bytes, as `PodBytes`
    /// reads them.
    pub fn deserialize_pod<T: PodBytes>(&mut self) -> (r: Result<T>)
        ensures
            final(self).yields_all() == old(self).yields_all(),
            r matches Ok(v) ==> consumed(
                T::spec_decode(old(self).unread()),
                v.model(),
                old(self).unread(),
                final(self).unread(),
            ),
            T::spec_decode(old(self).unread()) is None ==> r is Err,
            old(self).yields_all() && T::spec_decode(old(self).unread()) is Some ==> r is Ok,
    {
        let size = T::pod_size();
        proof {
            T::lemma_decode_pod(old(self).unread());
        }
        let bytes = self.deserialize_uninit_bytes(size)?;
        match T::from_pod_bytes(bytes.as_slice()) {
            Some(v) => Ok(v),
            None => Err(Error::Deserialize("invalid bytes for a plain value".to_string())),
        }
    }
}

/// A value that is written as its fixed-size byte representation.
pub trait PodBytes: WireFormat + Sized {
    /// The number of bytes of every value.
    spec fn spec_pod_size() -> nat;

    /// The bytes of a value whose model is `m`.
    spec fn spec_pod_bytes(m: Self::Model) -> Seq<u8>;

    fn pod_size() -> (n: usize)
        ensures
            n == Self::spec_pod_size(),
    ;

    fn to_pod_bytes(&self) -> (b: Vec<u8>)
        ensures
            b@ == Self::spec_pod_bytes(self.model()),
    ;

    /// Reads a value from exactly its bytes; `None` for bytes that are no
    /// value of the type.
    fn from_pod_bytes(b: &[u8]) -> (r: Option<Self>)
        requires
            b@.len() == Self::spec_pod_size(),
        ensures
            r is None <==> Self::spec_decode(b@) is None,
            r matches Some(v) ==> Self::spec_decode(b@) == Some((v.model(), Self::spec_pod_size())),
    ;

    /// The encoding of a plain value is exactly its bytes, and decoding looks
    /// at the first `spec_pod_size()` bytes only.
    proof fn lemma_decode_pod(bytes: Seq<u8>)
        ensures
            bytes.len() < Self::spec_pod_size() ==> Self::spec_decode(bytes) is None,
            bytes.len() >= Self::spec_pod_size() ==> Self::spec_decode(bytes)
                == Self::spec_decode(bytes.subrange(0, Self::spec_pod_size() as int)),
            Self::spec_decode(bytes) matches Some((m, n)) ==> n == Self::spec_pod_size(),
    ;

    proof fn lemma_encodes_pod(m: Self::Model, bytes: Seq<u8>)
        ensures
            Self::spec_faithful(),
            Self::spec_encodes(m, bytes) <==> bytes == Self::spec_pod_bytes(m),
            Self::spec_pod_bytes(m).len() == Self::spec_pod_size(),
            Self::spec_encodable(m),
    ;
}

/// A value that can be written into a snapshot.
pub trait Serialize: WireFormat {
    fn serialize<W: WriteUninit>(&self, serializer: &mut Serializer<W>) -> (r: Result<()>)
        ensures
            final(serializer).accepts_all() == old(serializer).accepts_all(),
            Self::spec_faithful() ==> {
                &&& r is Ok ==> extends(old(serializer).written(), final(serializer).written())
                    && Self::spec_encodes(
                    self.model(),
                    appended(old(serializer).written(), final(serializer).written()),
                )
                &&& !Self::spec_encodable(self.model()) ==> r is Err
                &&& old(serializer).accepts_all() && Self::spec_encodable(self.model()) ==> r is Ok
            },
    ;
}

/// A value that is written into a snapshot through exclusive access; the
/// value itself is left unchanged.
pub trait SerializeMut: WireFormat {
    fn serialize_mut<W: WriteUninit>(&mut self, serializer: &mut Serializer<W>) -> (r: Result<()>)
        ensures
            final(self).model() == old(self).model(),
            final(serializer).accepts_all() == old(serializer).accepts_all(),
            Self::spec_faithful() ==> {
                &&& r is Ok ==> extends(old(serializer).written(), final(serializer).written())
                    && Self::spec_encodes(
                    old(self).model(),
                    appended(old(serializer).written(), final(serializer).written()),
                )
                &&& !Self::spec_encodable(old(self).model()) ==> r is Err
                &&& old(serializer).accepts_all() && Self::spec_encodable(old(self).model())
                    ==> r is Ok
            },
    ;
}

/// A value that can be read back from a snapshot.
pub trait Deserialize: WireFormat + Sized {
    fn deserialize<R: ReadUninit>(deserializer: &mut Deserializer<R>) -> (r: Result<Self>)
        ensures
            final(deserializer).yields_all() == old(deserializer).yields_all(),
            Self::spec_faithful() ==> {
                &&& r matches Ok(v) ==> consumed(
                    Self::spec_decode(old(deserializer).unread()),
                    v.model(),
                    old(deserializer).unread(),
                    final(deserializer).unread(),
                )
                &&& Self::spec_decode(old(deserializer).unread()) is None ==> r is Err
                &&& old(deserializer).yields_all() && Self::spec_decode(
                    old(deserializer).unread(),
                ) is Some ==> r is Ok
            },
    ;

    /// Deserializes into an existing value; on success the value is the one
    /// that `deserialize` would have produced.
    fn deserialize_in_place<R: ReadUninit>(&mut self, deserializer: &mut Deserializer<R>) -> (r:
        Result<()>)
        ensures
            final(deserializer).yields_all() == old(deserializer).yields_all(),
            Self::spec_faithful() ==> {
                &&& r is Ok ==> consumed(
                    Self::spec_decode(old(deserializer).unread()),
                    final(self).model(),
                    old(deserializer).unread(),
                    final(deserializer).unread(),
                )
                &&& Self::spec_decode(old(deserializer).unread()) is None ==> r is Err
                &&& old(deserializer).yields_all() && Self::spec_decode(
                    old(deserializer).unread(),
                ) is Some ==> r is Ok
            },
    {
        let v = Self::deserialize(deserializer)?;
        *self = v;
        Ok(())
    }
}

} // verus!
