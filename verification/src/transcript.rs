//! Byte transcripts and the digests taken over them.

use vstd::prelude::*;
use sha2::Digest;

use crate::ident::Digest32;

verus! {

/// The SHA-256 digest of a byte string, as the `sha2` crate computes it.
pub uninterp spec fn sha256_of(data: Seq<u8>) -> [u8; 32];

/// Calls `sha2::Sha256::digest`. It is taken to be a function of the bytes
/// alone, named `sha256_of`; nothing more is claimed of it.
#[verifier::external_body]
fn sha256(data: &[u8]) -> (r: Digest32)
    ensures
        r == sha256_of(data@),
{
    sha2::Sha256::digest(data).into()
}

/// The bytes of a text in UTF-8.
pub open spec fn bytes_of(text: &str) -> Seq<u8> {
    vstd::utf8::encode_utf8(text@)
}

/// A number in big-endian base 256, cut or padded to `width` bytes.
pub open spec fn big_endian(n: nat, width: nat) -> Seq<u8>
    decreases width,
{
    if width == 0 {
        Seq::empty()
    } else {
        big_endian(n / 256, (width - 1) as nat).push((n % 256) as u8)
    }
}

/// A field with its 32-bit length in front.
pub open spec fn framed(field: Seq<u8>) -> Seq<u8> {
    big_endian(field.len() as u32 as nat, 4) + field
}

/// Fields with their lengths in front, one after another.
pub open spec fn framed_all(fields: Seq<Seq<u8>>) -> Seq<u8>
    decreases fields.len(),
{
    if fields.len() == 0 {
        Seq::empty()
    } else {
        framed_all(fields.drop_last()) + framed(fields.last())
    }
}

/// The digest of a domain tag followed by length-prefixed fields.
pub open spec fn digest_of_fields(domain: &str, fields: Seq<Seq<u8>>) -> Digest32 {
    sha256_of(bytes_of(domain) + framed_all(fields))
}

/// Bytes collected for a digest: a domain tag, then whatever is added.
pub struct Transcript {
    bytes: Vec<u8>,
}

impl View for Transcript {
    type V = Seq<u8>;

    closed spec fn view(&self) -> Seq<u8> {
        self.bytes@
    }
}

impl Transcript {
    /// Starts with a domain tag.
    pub fn new(domain: &str) -> (r: Self)
        ensures
            r@ == bytes_of(domain),
    {
        let mut r = Transcript { bytes: Vec::new() };
        r.put(domain.as_bytes());
        assert(r@ =~= bytes_of(domain));
        r
    }

    /// Adds raw bytes.
    pub fn put(&mut self, data: &[u8])
        ensures
            final(self)@ == old(self)@ + data@,
    {
        let mut i: usize = 0;
        while i < data.len()
            invariant
                i <= data@.len(),
                self@ == old(self)@ + data@.take(i as int),
            decreases data@.len() - i,
        {
            self.bytes.push(data[i]);
            i = i + 1;
            assert(self@ =~= old(self)@ + data@.take(i as int));
        }
        assert(data@.take(i as int) =~= data@);
    }

    /// Adds a number in big-endian form.
    pub fn put_number(&mut self, n: u128, width: usize)
        ensures
            final(self)@ == old(self)@ + big_endian(n as nat, width as nat),
        decreases width,
    {
        if width > 0 {
            self.put_number(n / 256, width - 1);
            self.bytes.push((n % 256) as u8);
        }
        assert(self@ =~= old(self)@ + big_endian(n as nat, width as nat));
    }

    /// The digest of everything added.
    pub fn digest(&self) -> (r: Digest32)
        ensures
            r == sha256_of(self@),
    {
        sha256(self.bytes.as_slice())
    }
}

pub proof fn lemma_big_endian_length(n: nat, width: nat)
    ensures
        big_endian(n, width).len() == width,
    decreases width,
{
    if width > 0 {
        lemma_big_endian_length(n / 256, (width - 1) as nat);
    }
}

/// A digest over a domain tag and length-prefixed fields, collected one field
/// at a time.
pub(crate) struct FieldDigest {
    transcript: Transcript,
    domain: Ghost<Seq<u8>>,
    fields: Ghost<Seq<Seq<u8>>>,
}

impl FieldDigest {
    pub(crate) closed spec fn wf(&self) -> bool {
        self.transcript@ == self.domain@ + framed_all(self.fields@)
    }

    /// The domain tag.
    pub(crate) closed spec fn domain(&self) -> Seq<u8> {
        self.domain@
    }

    /// The fields added so far.
    pub(crate) closed spec fn fields(&self) -> Seq<Seq<u8>> {
        self.fields@
    }

    /// Starts with a domain tag and no field.
    pub(crate) fn new(domain: &str) -> (r: Self)
        ensures
            r.wf(),
            r.domain() == bytes_of(domain),
            r.fields() == Seq::<Seq<u8>>::empty(),
    {
        let r = FieldDigest {
            transcript: Transcript::new(domain),
            domain: Ghost(bytes_of(domain)),
            fields: Ghost(Seq::empty()),
        };
        assert(r.transcript@ =~= r.domain@ + framed_all(r.fields@));
        r
    }

    /// Adds a field.
    pub(crate) fn field(&mut self, data: &[u8])
        requires
            old(self).wf(),
        ensures
            final(self).wf(),
            final(self).domain() == old(self).domain(),
            final(self).fields() == old(self).fields().push(data@),
    {
        self.transcript.put_number(data.len() as u32 as u128, 4);
        self.transcript.put(data);
        proof {
            let before = self.fields@;
            self.fields@ = before.push(data@);
            assert(self.fields@.drop_last() =~= before);
            assert(self.transcript@ =~= self.domain@ + (framed_all(before) + framed(data@)));
        }
    }

    /// Adds a number as a field of `width` bytes.
    pub(crate) fn number(&mut self, n: u128, width: usize)
        requires
            old(self).wf(),
            width <= 16,
        ensures
            final(self).wf(),
            final(self).domain() == old(self).domain(),
            final(self).fields() == old(self).fields().push(big_endian(n as nat, width as nat)),
    {
        let ghost data = big_endian(n as nat, width as nat);
        self.transcript.put_number(width as u128, 4);
        self.transcript.put_number(n, width);
        proof {
            lemma_big_endian_length(n as nat, width as nat);
            let before = self.fields@;
            self.fields@ = before.push(data);
            assert(self.fields@.drop_last() =~= before);
            assert(self.transcript@ =~= self.domain@ + (framed_all(before) + framed(data)));
        }
    }

    /// The digest of the domain tag and the fields.
    pub(crate) fn finish(&self) -> (r: Digest32)
        requires
            self.wf(),
        ensures
            r == sha256_of(self.domain() + framed_all(self.fields())),
    {
        self.transcript.digest()
    }
}

} // verus!
