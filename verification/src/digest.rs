//! Content digests: the canonical `<algorithm>:<hex>` identity of a blob,
//! its parser and formatter, and incremental SHA-256 computation for
//! resumable uploads.

use vstd::prelude::*;

use crate::error::RegistryError;
use crate::text::{
    all_lower_hex, hex_of, is_lower_hex_char, lemma_hex_of_is_lower_hex, lemma_hex_of_len,
    push_char, to_hex,
};
use sha2::Digest as _;

verus! {

#[derive(Clone, Copy, Debug, PartialEq, Eq, Structural)]
pub enum DigestAlgorithm {
    Sha256,
    Sha512,
}

pub open spec fn spec_sha256_name() -> Seq<char> {
    seq!['s', 'h', 'a', '2', '5', '6']
}

pub open spec fn spec_sha512_name() -> Seq<char> {
    seq!['s', 'h', 'a', '5', '1', '2']
}

impl DigestAlgorithm {
    /// The algorithm's lowercase name, as written in a canonical digest.
    pub open spec fn spec_name(&self) -> Seq<char> {
        match self {
            DigestAlgorithm::Sha256 => spec_sha256_name(),
            DigestAlgorithm::Sha512 => spec_sha512_name(),
        }
    }

    pub fn name(&self) -> (r: &'static str)
        ensures
            r@ == self.spec_name(),
    {
        match self {
            DigestAlgorithm::Sha256 => {
                let r = "sha256";
                proof {
                    reveal_strlit("sha256");
                    assert(r@ =~= spec_sha256_name());
                }
                r
            },
            DigestAlgorithm::Sha512 => {
                let r = "sha512";
                proof {
                    reveal_strlit("sha512");
                    assert(r@ =~= spec_sha512_name());
                }
                r
            },
        }
    }

    /// Number of hexadecimal characters in a digest of this algorithm.
    pub open spec fn spec_hex_len(&self) -> nat {
        match self {
            DigestAlgorithm::Sha256 => 64,
            DigestAlgorithm::Sha512 => 128,
        }
    }

    pub fn hex_len(&self) -> (r: usize)
        ensures
            r == self.spec_hex_len(),
    {
        match self {
            DigestAlgorithm::Sha256 => 64,
            DigestAlgorithm::Sha512 => 128,
        }
    }
}

/// Cryptographic content identity: an algorithm and the lowercase
/// hexadecimal hash it produced. The canonical form is
/// `<algorithm>:<hex>`; equality of digests is equality of that form.
#[derive(Debug)]
pub struct Digest {
    pub algorithm: DigestAlgorithm,
    pub hash: String,
}

/// Mathematical value of a digest: its algorithm and hash characters.
pub struct DigestView {
    pub algorithm: DigestAlgorithm,
    pub hash: Seq<char>,
}

impl View for Digest {
    type V = DigestView;

    open spec fn view(&self) -> DigestView {
        DigestView { algorithm: self.algorithm, hash: self.hash@ }
    }
}

impl DeepView for Digest {
    type V = DigestView;

    open spec fn deep_view(&self) -> DigestView {
        self@
    }
}

/// Well-formedness of a digest value: hash of the algorithm's exact
/// length, all lowercase hexadecimal.
pub open spec fn digest_view_wf(d: DigestView) -> bool {
    &&& d.hash.len() == d.algorithm.spec_hex_len()
    &&& all_lower_hex(d.hash)
}

/// Canonical string form of a digest value.
pub open spec fn digest_view_canonical(d: DigestView) -> Seq<char> {
    d.algorithm.spec_name() + seq![':'] + d.hash
}

impl Clone for Digest {
    fn clone(&self) -> (r: Self)
        ensures
            r == *self,
    {
        Digest { algorithm: self.algorithm, hash: self.hash.clone() }
    }
}

impl Digest {
    /// The hash is exactly as long as the algorithm's output demands and
    /// holds only lowercase hexadecimal characters.
    pub open spec fn wf(&self) -> bool {
        digest_view_wf(self@)
    }

    /// Canonical string form `<algorithm>:<hex>`.
    pub open spec fn spec_canonical(&self) -> Seq<char> {
        digest_view_canonical(self@)
    }

    pub fn canonical(&self) -> (r: String)
        ensures
            r@ == self.spec_canonical(),
    {
        let mut r = String::from_str(self.algorithm.name());
        push_char(&mut r, ':');
        r.append(self.hash.as_str());
        r
    }

    pub fn algorithm(&self) -> (r: DigestAlgorithm)
        ensures
            r == self.algorithm,
    {
        self.algorithm
    }

    pub fn hash(&self) -> (r: &str)
        ensures
            r@ == self.hash@,
    {
        self.hash.as_str()
    }

    /// The two leading hash characters, used to shard blob directories.
    pub fn hash_prefix(&self) -> (r: String)
        requires
            self.hash@.len() >= 2,
        ensures
            r@ == self.hash@.subrange(0, 2),
    {
        let p = self.hash.as_str().substring_char(0, 2);
        String::from_str(p)
    }

    /// Decides whether two digests name the same content address.
    pub fn same_as(&self, other: &Digest) -> (r: bool)
        ensures
            r == (self.algorithm == other.algorithm && self.hash@ == other.hash@),
    {
        self.algorithm == other.algorithm && self.hash == other.hash
    }

    /// Parses the canonical form; rejects an unknown algorithm, a wrong
    /// hash length or a character that is not lowercase hexadecimal.
    pub fn parse(s: &str) -> (r: Result<Digest, RegistryError>)
        ensures
            match r {
                Ok(d) => valid_digest_str(s@) && d.wf() && d.spec_canonical() == s@
                    && spec_parse_digest(s@) == Some(d@),
                Err(e) => !valid_digest_str(s@) && e is DigestInvalid && spec_parse_digest(
                    s@,
                ) is None,
            },
    {
        let alg = match alg_of_prefix(s) {
            Some(a) => a,
            None => {
                return Err(RegistryError::DigestInvalid);
            },
        };
        let len = s.unicode_len();
        if len != 7 + alg.hex_len() {
            proof {
                let p256 = spec_sha256_name() + seq![':'];
                let p512 = spec_sha512_name() + seq![':'];
                assert(p256[3] == '2');
                assert(p512[3] == '5');
            }
            return Err(RegistryError::DigestInvalid);
        }
        match hex_tail(s, 7) {
            Some(h) => {
                let d = Digest { algorithm: alg, hash: h };
                proof {
                    assert(s@ =~= s@.take(7) + s@.skip(7));
                    assert(d.spec_canonical() =~= s@);
                }
                Ok(d)
            },
            None => Err(RegistryError::DigestInvalid),
        }
    }
}

/// The digest value a canonical digest string denotes, if any.
pub open spec fn spec_parse_digest(s: Seq<char>) -> Option<DigestView> {
    if !valid_digest_str(s) {
        None
    } else if s.len() == 71 {
        Some(DigestView { algorithm: DigestAlgorithm::Sha256, hash: s.skip(7) })
    } else {
        Some(DigestView { algorithm: DigestAlgorithm::Sha512, hash: s.skip(7) })
    }
}

/// A well-formed canonical digest string: a known algorithm prefix and a
/// lowercase hexadecimal tail of that algorithm's exact length.
pub open spec fn valid_digest_str(s: Seq<char>) -> bool {
    ||| (s.len() == 71 && s.take(7) == spec_sha256_name() + seq![':'] && all_lower_hex(s.skip(7)))
    ||| (s.len() == 135 && s.take(7) == spec_sha512_name() + seq![':'] && all_lower_hex(s.skip(7)))
}

/// Recognises the `<algorithm>:` prefix of a canonical digest string.
fn alg_of_prefix(s: &str) -> (r: Option<DigestAlgorithm>)
    ensures
        match r {
            Some(DigestAlgorithm::Sha256) => s@.len() >= 7 && s@.take(7) == spec_sha256_name()
                + seq![':'],
            Some(DigestAlgorithm::Sha512) => s@.len() >= 7 && s@.take(7) == spec_sha512_name()
                + seq![':'],
            None => !(s@.len() >= 7 && (s@.take(7) == spec_sha256_name() + seq![':'] || s@.take(7)
                == spec_sha512_name() + seq![':'])),
        },
{
    let len = s.unicode_len();
    if len < 7 {
        return None;
    }
    let c0 = s.get_char(0);
    let c1 = s.get_char(1);
    let c2 = s.get_char(2);
    let c3 = s.get_char(3);
    let c4 = s.get_char(4);
    let c5 = s.get_char(5);
    let c6 = s.get_char(6);
    if c0 == 's' && c1 == 'h' && c2 == 'a' && c6 == ':' {
        if c3 == '2' && c4 == '5' && c5 == '6' {
            proof {
                assert(s@.take(7) =~= spec_sha256_name() + seq![':']);
            }
            return Some(DigestAlgorithm::Sha256);
        }
        if c3 == '5' && c4 == '1' && c5 == '2' {
            proof {
                assert(s@.take(7) =~= spec_sha512_name() + seq![':']);
            }
            return Some(DigestAlgorithm::Sha512);
        }
    }
    proof {
        let p256 = spec_sha256_name() + seq![':'];
        let p512 = spec_sha512_name() + seq![':'];
        if s@.take(7) == p256 {
            assert(s@[0] == p256[0] && s@[1] == p256[1] && s@[2] == p256[2] && s@[3] == p256[3]
                && s@[4] == p256[4] && s@[5] == p256[5] && s@[6] == p256[6]);
        }
        if s@.take(7) == p512 {
            assert(s@[0] == p512[0] && s@[1] == p512[1] && s@[2] == p512[2] && s@[3] == p512[3]
                && s@[4] == p512[4] && s@[5] == p512[5] && s@[6] == p512[6]);
        }
    }
    None
}

/// Copies the tail of `s` from `start`, provided it is all lowercase hex.
fn hex_tail(s: &str, start: usize) -> (r: Option<String>)
    requires
        start <= s@.len(),
    ensures
        match r {
            Some(h) => h@ == s@.skip(start as int) && all_lower_hex(s@.skip(start as int)),
            None => !all_lower_hex(s@.skip(start as int)),
        },
{
    let len = s.unicode_len();
    let mut h = String::new();
    let mut i: usize = start;
    while i < len
        invariant
            start <= i <= len,
            len == s@.len(),
            h@ == s@.subrange(start as int, i as int),
            all_lower_hex(h@),
        decreases len - i,
    {
        let c = s.get_char(i);
        let is_hex = ('0' <= c && c <= '9') || ('a' <= c && c <= 'f');
        if !is_hex {
            proof {
                assert(s@.skip(start as int)[i - start] == s@[i as int]);
            }
            return None;
        }
        push_char(&mut h, c);
        proof {
            assert(h@ =~= s@.subrange(start as int, i + 1));
        }
        i = i + 1;
    }
    proof {
        assert(h@ =~= s@.skip(start as int));
    }
    Some(h)
}

/// Named result of the SHA-256 function of the `sha2` crate: the digest
/// bytes of a byte sequence. It depends on the bytes alone.
pub uninterp spec fn sha256_of(data: Seq<u8>) -> Seq<u8>;

#[verifier::external_type_specification]
#[verifier::external_body]
pub struct ExSha256(sha2::Sha256);

/// The byte stream an incremental `sha2::Sha256` hasher has consumed so
/// far. The hasher is a container for that stream: every wrapper below
/// states its effect on these contents.
pub uninterp spec fn sha256_fed(h: sha2::Sha256) -> Seq<u8>;

/// Relies on `sha2::Sha256::new`: a fresh hasher that has seen no bytes.
#[verifier::external_body]
pub fn sha256_start() -> (h: sha2::Sha256)
    ensures
        sha256_fed(h) == Seq::<u8>::empty(),
{
    sha2::Sha256::new()
}

/// Relies on `sha2::Sha256::update`: appends bytes to the hashed stream.
#[verifier::external_body]
pub fn sha256_feed(h: &mut sha2::Sha256, data: &[u8])
    ensures
        sha256_fed(*final(h)) == sha256_fed(*old(h)) + data@,
{
    h.update(data);
}

/// Relies on `sha2::Sha256::clone`: duplicates the hasher state, so a
/// checkpoint can be kept while hashing continues past it.
#[verifier::external_body]
pub fn sha256_fork(h: &sha2::Sha256) -> (r: sha2::Sha256)
    ensures
        sha256_fed(r) == sha256_fed(*h),
{
    h.clone()
}

/// Relies on `sha2::Sha256::finalize`: the 32-byte SHA-256 digest of the
/// bytes fed so far.
#[verifier::external_body]
pub fn sha256_finish(h: sha2::Sha256) -> (r: Vec<u8>)
    ensures
        r@ == sha256_of(sha256_fed(h)),
        r@.len() == 32,
{
    h.finalize().to_vec()
}

/// Canonical digest string of a byte sequence under SHA-256.
pub open spec fn spec_sha256_digest_str(data: Seq<u8>) -> Seq<char> {
    spec_sha256_name() + seq![':'] + hex_of(sha256_of(data))
}

/// One-shot SHA-256 digest of a byte slice.
pub fn sha256_digest(data: &[u8]) -> (d: Digest)
    ensures
        d.wf(),
        d.algorithm == DigestAlgorithm::Sha256,
        d.hash@ == hex_of(sha256_of(data@)),
        d.spec_canonical() == spec_sha256_digest_str(data@),
{
    let mut h = sha256_start();
    sha256_feed(&mut h, data);
    let out = sha256_finish(h);
    proof {
        assert(Seq::<u8>::empty() + data@ =~= data@);
        lemma_hex_of_len(out@);
        lemma_hex_of_is_lower_hex(out@);
    }
    let hex = to_hex(out.as_slice());
    Digest { algorithm: DigestAlgorithm::Sha256, hash: hex }
}

/// Two well-formed digests with the same canonical form are the same
/// digest: the canonical rendering is injective.
pub proof fn lemma_canonical_injective(a: Digest, b: Digest)
    requires
        a.wf(),
        b.wf(),
        a.spec_canonical() == b.spec_canonical(),
    ensures
        a.algorithm == b.algorithm,
        a.hash@ == b.hash@,
{
    let ca = a.spec_canonical();
    let cb = b.spec_canonical();
    assert(ca[3] == a.algorithm.spec_name()[3]);
    assert(cb[3] == b.algorithm.spec_name()[3]);
    if a.algorithm != b.algorithm {
        assert(ca[3] != cb[3]);
    }
    assert(a.hash@ =~= ca.skip(7));
    assert(b.hash@ =~= cb.skip(7));
}

} // verus!
