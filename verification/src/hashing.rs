//! Content hashing of staging-file bytes, streamed through the `sha1`
//! crate so a multi-gigabyte staging file is hashed chunk by chunk, never
//! held in memory whole.

use vstd::prelude::*;

verus! {

/// The SHA-1 digest of `data`, written as 40 lowercase hexadecimal
/// characters. The digest is a function of the bytes alone.
pub uninterp spec fn sha1_hex_of(data: Seq<u8>) -> Seq<char>;

/// Holds the `sha1` crate's hasher state. Declaring that state's type
/// (`CoreWrapper<Sha1Core>`, whose bounds run through `typenum`) is refused
/// by the verifier, so the hasher sits opaque inside this struct; all the
/// verifier ever learns about it is said at [`Sha1Stream::finalize_hex`].
#[verifier::external_body]
struct Sha1Inner {
    hasher: sha1::Sha1,
}

/// Relies on `sha1::Sha1` through `digest::Digest::new`: a fresh hasher.
/// The state is opaque, so nothing is claimed here.
#[verifier::external_body]
fn sha1_inner_new() -> Sha1Inner {
    Sha1Inner { hasher: <sha1::Sha1 as sha1::Digest>::new() }
}

/// Relies on `sha1::Sha1` through `digest::Digest::update`: consumes one
/// chunk. The state is opaque, so nothing is claimed here.
#[verifier::external_body]
fn sha1_inner_feed(inner: &mut Sha1Inner, chunk: &[u8]) {
    <sha1::Sha1 as sha1::Digest>::update(&mut inner.hasher, chunk);
}

/// A streaming SHA-1 computation: chunks are fed in one at a time and the
/// digest is taken at the end. The ghost `fed` tracks, in verified code,
/// exactly the bytes handed to the underlying hasher since it was fresh.
pub struct Sha1Stream {
    inner: Sha1Inner,
    fed: Ghost<Seq<u8>>,
}

impl Sha1Stream {
    /// The bytes this stream has been fed so far, in order.
    pub closed spec fn bytes(&self) -> Seq<u8> {
        self.fed@
    }

    /// A stream that has hashed nothing yet.
    pub fn new() -> (r: Sha1Stream)
        ensures
            r.bytes() == Seq::<u8>::empty(),
    {
        Sha1Stream { inner: sha1_inner_new(), fed: Ghost(Seq::empty()) }
    }

    /// Feeds one chunk: the stream has now hashed the earlier bytes
    /// followed by this chunk.
    pub fn update(&mut self, chunk: &[u8])
        ensures
            final(self).bytes() == old(self).bytes() + chunk@,
    {
        sha1_inner_feed(&mut self.inner, chunk);
        self.fed = Ghost(self.fed@ + chunk@);
    }

    /// Relies on `sha1::Sha1` through `digest::Digest::finalize` (a 20-byte
    /// digest, a function of the consumed bytes alone — here exactly the
    /// bytes `fed`, since only `new` and `update` touch the hasher) and on
    /// generic-array's `{:x}` formatting, which writes two lowercase hex
    /// digits per byte: 40 characters in all.
    #[verifier::external_body]
    pub fn finalize_hex(self) -> (r: String)
        ensures
            r@ == sha1_hex_of(self.bytes()),
            r@.len() == 40,
    {
        format!("{:x}", <sha1::Sha1 as sha1::Digest>::finalize(self.inner.hasher))
    }
}

} // verus!
