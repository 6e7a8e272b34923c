//! SHA-256 digests, from the `ring` crate.

use ring::digest::Context;
use vstd::prelude::*;

verus! {

/// A digest that is being computed.
#[verifier::external_type_specification]
#[verifier::external_body]
pub struct ExContext(Context);

/// The bytes that were handed to a digest so far.
pub uninterp spec fn digested(context: Context) -> Seq<u8>;

/// The SHA-256 digest of bytes.
pub uninterp spec fn sha256(data: Seq<u8>) -> Seq<u8>;

/// The longest input of a SHA-256 digest, in bytes.
pub const MAX_DIGEST_INPUT: u64 = 0x1fff_ffff_ffff_ffff;

/// `Context::new` with SHA-256 starts a digest that has seen no bytes.
#[verifier::external_body]
fn context_new() -> (r: Context)
    ensures
        digested(r).len() == 0,
{
    Context::new(&ring::digest::SHA256)
}

/// `Context::update` hands bytes to a digest, behind those that it has seen.
#[verifier::external_body]
fn context_update(context: &mut Context, data: &[u8])
    requires
        digested(*old(context)).len() + data@.len() <= MAX_DIGEST_INPUT,
    ensures
        digested(*final(context)) == digested(*old(context)) + data@,
{
    context.update(data)
}

/// `Context::finish` gives the digest of the bytes that were handed over. A SHA-256 digest has 32
/// bytes.
#[verifier::external_body]
fn context_finish(context: Context) -> (r: Vec<u8>)
    requires
        digested(context).len() <= MAX_DIGEST_INPUT,
    ensures
        r@ == sha256(digested(context)),
        r@.len() == 32,
{
    context.finish().as_ref().to_vec()
}

/// The digest of a stream of bytes.
pub struct Hasher {
    context: Context,
    len: u64,
}

impl Hasher {
    /// The bytes that were fed so far.
    pub closed spec fn fed(self) -> Seq<u8> {
        digested(self.context)
    }

    pub closed spec fn wf(self) -> bool {
        self.len == digested(self.context).len() && self.len <= MAX_DIGEST_INPUT
    }

    pub fn new() -> (r: Hasher)
        ensures
            r.wf(),
            r.fed() == Seq::<u8>::empty(),
    {
        let context = context_new();
        assert(digested(context) =~= Seq::<u8>::empty());
        Hasher { context, len: 0 }
    }

    /// Feeds more bytes. Whether they fit: a stream that is too long for a digest is left as it was.
    pub fn update(&mut self, data: &[u8]) -> (r: bool)
        requires
            old(self).wf(),
        ensures
            final(self).wf(),
            r == (old(self).fed().len() + data@.len() <= MAX_DIGEST_INPUT),
            final(self).fed() == if r {
                old(self).fed() + data@
            } else {
                old(self).fed()
            },
    {
        if data.len() as u64 > MAX_DIGEST_INPUT - self.len {
            return false;
        }
        context_update(&mut self.context, data);
        self.len = self.len + data.len() as u64;
        true
    }

    pub fn finish(self) -> (r: Vec<u8>)
        requires
            self.wf(),
        ensures
            r@ == sha256(self.fed()),
            r@.len() == 32,
    {
        context_finish(self.context)
    }
}

/// However a stream is cut into pieces, its digest is the same.
pub proof fn digest_ignores_chunks(fed: Seq<u8>, a: Seq<u8>, b: Seq<u8>)
    ensures
        sha256((fed + a) + b) == sha256(fed + (a + b)),
{
    assert((fed + a) + b =~= fed + (a + b));
}

} // verus!
