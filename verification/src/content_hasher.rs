//! The content hash Dropbox keeps for each file, which staging records and
//! the uploaders compare against: the file is cut into blocks of 4 MiB, each
//! block is hashed with SHA-256, and the concatenated block hashes are hashed
//! again.

use vstd::prelude::*;

verus! {

/// The size of the blocks a file is hashed in.
pub const BLOCK_SIZE: usize = 4194304;

/// The SHA-256 digest of `data`, as `sha2::Sha256::digest` computes it.
pub uninterp spec fn sha256(data: Seq<u8>) -> Seq<u8>;

/// Calls `sha2::Sha256::digest`. Trusted to depend on the bytes alone (named
/// by `sha256`); the hash function itself is not stated.
#[verifier::external_body]
fn sha256_digest(data: &[u8]) -> (r: [u8; 32])
    ensures
        r@ == sha256(data@),
{
    <sha2::Sha256 as sha2::Digest>::digest(data).into()
}

/// The block hashes of `data`, one after the other.
pub open spec fn block_digests(data: Seq<u8>) -> Seq<u8>
    decreases data.len(),
{
    if data.len() == 0 {
        Seq::empty()
    } else if data.len() <= BLOCK_SIZE {
        sha256(data)
    } else {
        sha256(data.take(BLOCK_SIZE as int)) + block_digests(data.skip(BLOCK_SIZE as int))
    }
}

/// The content hash of `data`.
pub open spec fn content_hash_of(data: Seq<u8>) -> Seq<u8> {
    sha256(block_digests(data))
}

/// Appending a block to data made of whole blocks appends its hash.
proof fn lemma_block_digests_append(c: Seq<u8>, b: Seq<u8>)
    requires
        c.len() % (BLOCK_SIZE as nat) == 0,
        0 < b.len() <= BLOCK_SIZE,
    ensures
        block_digests(c + b) == block_digests(c) + sha256(b),
    decreases c.len(),
{
    if c.len() == 0 {
        assert(c + b =~= b);
        assert(block_digests(c) =~= Seq::<u8>::empty());
        assert(Seq::<u8>::empty() + sha256(b) =~= sha256(b));
    } else {
        let cb = c + b;
        assert(cb.take(BLOCK_SIZE as int) =~= c.take(BLOCK_SIZE as int));
        assert(cb.skip(BLOCK_SIZE as int) =~= c.skip(BLOCK_SIZE as int) + b);
        lemma_block_digests_append(c.skip(BLOCK_SIZE as int), b);
        if c.len() == BLOCK_SIZE {
            assert(c.skip(BLOCK_SIZE as int) =~= Seq::<u8>::empty());
            assert(c.take(BLOCK_SIZE as int) =~= c);
            assert(block_digests(c.skip(BLOCK_SIZE as int)) =~= Seq::<u8>::empty());
        }
        assert(sha256(c.take(BLOCK_SIZE as int)) + (block_digests(c.skip(BLOCK_SIZE as int)) + sha256(b))
            =~= sha256(c.take(BLOCK_SIZE as int)) + block_digests(c.skip(BLOCK_SIZE as int)) + sha256(b));
    }
}

/// A content hash being computed as a file is read block by block.
pub struct DropboxContentHasher {
    digests: Vec<u8>,
    size: u64,
    finished_blocks: bool,
    consumed: Ghost<Seq<u8>>,
}

impl View for DropboxContentHasher {
    type V = Seq<u8>;

    /// The bytes fed so far.
    closed spec fn view(&self) -> Seq<u8> {
        self.consumed@
    }
}

impl DropboxContentHasher {
    /// The hasher's records agree with what it has been fed: the block
    /// hashes of the bytes so far, their count, and whether a short (last)
    /// block has been fed.
    #[verifier::type_invariant]
    closed spec fn well_formed(&self) -> bool {
        &&& self.digests@ == block_digests(self.consumed@)
        &&& self.size == self.consumed@.len()
        &&& (!self.finished_blocks ==> self.consumed@.len() % (BLOCK_SIZE as nat) == 0)
    }

    /// Whether another block may be fed: no short block has been fed yet.
    pub closed spec fn accepts_blocks(&self) -> bool {
        !self.finished_blocks
    }

    /// A hasher that has been fed nothing.
    pub fn new() -> (h: DropboxContentHasher)
        ensures
            h.accepts_blocks(),
            h@ == Seq::<u8>::empty(),
    {
        let h = DropboxContentHasher { digests: Vec::new(), size: 0, finished_blocks: false, consumed: Ghost(Seq::empty()) };
        assert(block_digests(Seq::<u8>::empty()) =~= Seq::<u8>::empty());
        h
    }

    /// Feeds the next block of the file: a full block, or a shorter last one
    /// (after which no more may be fed).
    pub fn update(&mut self, block: &[u8])
        requires
            old(self).accepts_blocks(),
            0 < block@.len() <= BLOCK_SIZE,
            old(self)@.len() + block@.len() <= u64::MAX,
        ensures
            final(self)@ == old(self)@ + block@,
            final(self).accepts_blocks() == (block@.len() == BLOCK_SIZE),
    {
        proof {
            use_type_invariant(&*self);
        }
        let digest = sha256_digest(block);
        proof {
            lemma_block_digests_append(self.consumed@, block@);
        }
        let mut digests = self.digests.clone();
        let ghost start = digests@;
        assert(start =~= self.digests@);
        digests.extend_from_slice(&digest);
        assert(digests@ =~= start + digest@);
        *self = DropboxContentHasher {
            digests,
            size: self.size + block.len() as u64,
            finished_blocks: block.len() < BLOCK_SIZE,
            consumed: Ghost(self.consumed@ + block@),
        };
    }

    /// How many bytes have been fed.
    pub fn size(&self) -> (n: u64)
        ensures
            n == self@.len(),
    {
        proof {
            use_type_invariant(self);
        }
        self.size
    }

    /// The content hash of everything fed.
    pub fn finish(&self) -> (h: [u8; 32])
        ensures
            h@ == content_hash_of(self@),
    {
        proof {
            use_type_invariant(self);
        }
        sha256_digest(self.digests.as_slice())
    }
}

} // verus!
