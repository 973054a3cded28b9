//! Content identity: a media file is known by the SHA-256 digest of its bytes,
//! written as lowercase hexadecimal, and its container is sniffed from its bytes.
use vstd::prelude::*;
use crate::text::{digit_char, digit_str, same_text};
use sha2::Digest;

verus! {

/// The SHA-256 digest of a byte sequence.
pub uninterp spec fn sha256_of(b: Seq<u8>) -> Seq<u8>;

/// Relies on sha2::Sha256::digest: the 32-byte digest of the whole buffer.
#[verifier::external_body]
fn sha256(bytes: &[u8]) -> (r: Vec<u8>)
    ensures
        r@ == sha256_of(bytes@),
        r@.len() == 32,
{
    sha2::Sha256::digest(bytes).to_vec()
}

/// Two lowercase hexadecimal digits per byte, high nibble first.
pub open spec fn hex_of(b: Seq<u8>) -> Seq<char>
    decreases b.len(),
{
    if b.len() == 0 {
        Seq::empty()
    } else {
        let last = b.last();
        hex_of(b.drop_last()) + seq![digit_char((last / 16) as nat), digit_char((last % 16) as nat)]
    }
}

/// The content id of a byte buffer: the hex form of its SHA-256 digest.
pub open spec fn content_id_of(b: Seq<u8>) -> Seq<char> {
    hex_of(sha256_of(b))
}

/// Writes `bytes` as lowercase hexadecimal.
pub fn hex_lower(bytes: &[u8]) -> (r: String)
    ensures
        r@ == hex_of(bytes@),
{
    let mut out = String::new();
    let mut i: usize = 0;
    while i < bytes.len()
        invariant
            i <= bytes@.len(),
            out@ == hex_of(bytes@.subrange(0, i as int)),
        decreases bytes@.len() - i,
    {
        let b = bytes[i];
        out.append(digit_str((b / 16) as u64));
        out.append(digit_str((b % 16) as u64));
        proof {
            let next = bytes@.subrange(0, i + 1);
            assert(next.drop_last() =~= bytes@.subrange(0, i as int));
            assert(next.last() == b);
        }
        i = i + 1;
    }
    assert(bytes@.subrange(0, bytes@.len() as int) =~= bytes@);
    out
}

/// The content id of `bytes`: 64 lowercase hexadecimal digits of their SHA-256 digest.
pub fn content_id(bytes: &[u8]) -> (r: String)
    ensures
        r@ == content_id_of(bytes@),
        r@.len() == 64,
{
    let digest = sha256(bytes);
    proof {
        lemma_hex_len(digest@);
    }
    hex_lower(digest.as_slice())
}

/// The file extension that the image format sniffed from a buffer's magic bytes
/// is known by, or `None` when no supported image format is recognised.
pub uninterp spec fn image_extension_of(b: Seq<u8>) -> Option<Seq<char>>;

/// Relies on image::guess_format and ImageFormat::extensions_str: the first
/// extension of the format recognised from the leading bytes.
#[verifier::external_body]
fn guess_image_extension(bytes: &[u8]) -> (r: Option<String>)
    ensures
        match r {
            Some(e) => image_extension_of(bytes@) == Some(e@),
            None => image_extension_of(bytes@) is None,
        },
{
    image::guess_format(bytes).ok().and_then(|f| f.extensions_str().first()).map(|e| e.to_string())
}

/// The extension of the image container recognised from the bytes themselves,
/// never from a file name.
pub fn sniff_image_extension(bytes: &[u8]) -> (r: Option<String>)
    ensures
        match r {
            Some(e) => image_extension_of(bytes@) == Some(e@),
            None => image_extension_of(bytes@) is None,
        },
{
    guess_image_extension(bytes)
}

/// The kind of media a file holds, which decides the decoder it goes through.
#[derive(Clone, Copy, Debug, PartialEq, Eq, Structural)]
pub enum MediaKind {
    Image,
    Video,
}

/// The media kind named by the top-level part of a mime type
/// (`image` or `video`); any other is not handled.
pub open spec fn kind_of_mime_type(t: Seq<char>) -> Option<MediaKind> {
    if t == seq!['i', 'm', 'a', 'g', 'e'] {
        Some(MediaKind::Image)
    } else if t == seq!['v', 'i', 'd', 'e', 'o'] {
        Some(MediaKind::Video)
    } else {
        None
    }
}

/// Decides the media kind from the top-level type of a declared mime type.
pub fn kind_from_mime_type(t: &str) -> (r: Option<MediaKind>)
    ensures
        r == kind_of_mime_type(t@),
{
    proof {
        reveal_strlit("image");
        reveal_strlit("video");
    }
    if same_text(t, "image") {
        assert("image"@ =~= seq!['i', 'm', 'a', 'g', 'e']);
        Some(MediaKind::Image)
    } else if same_text(t, "video") {
        assert("video"@ =~= seq!['v', 'i', 'd', 'e', 'o']);
        assert(t@ != seq!['i', 'm', 'a', 'g', 'e']) by {
            assert(t@[0] != "image"@[0]);
        }
        Some(MediaKind::Video)
    } else {
        assert("image"@ =~= seq!['i', 'm', 'a', 'g', 'e']);
        assert("video"@ =~= seq!['v', 'i', 'd', 'e', 'o']);
        None
    }
}

proof fn lemma_hex_len(b: Seq<u8>)
    ensures
        hex_of(b).len() == 2 * b.len(),
    decreases b.len(),
{
    if b.len() > 0 {
        lemma_hex_len(b.drop_last());
    }
}

proof fn lemma_hex_injective(a: Seq<u8>, b: Seq<u8>)
    requires
        hex_of(a) == hex_of(b),
    ensures
        a == b,
    decreases a.len(),
{
    lemma_hex_len(a);
    lemma_hex_len(b);
    if a.len() > 0 {
        let ha = hex_of(a);
        let n = ha.len() as int;
        let (x, y) = (a.last(), b.last());
        assert(ha[n - 2] == digit_char((x / 16) as nat) && ha[n - 2] == digit_char((y / 16) as nat));
        assert(ha[n - 1] == digit_char((x % 16) as nat) && ha[n - 1] == digit_char((y % 16) as nat));
        assert(x / 16 == y / 16);
        assert(x % 16 == y % 16);
        lemma_hex_len(a.drop_last());
        lemma_hex_len(b.drop_last());
        assert(hex_of(a.drop_last()) =~= ha.subrange(0, n - 2));
        assert(hex_of(b.drop_last()) =~= ha.subrange(0, n - 2));
        lemma_hex_injective(a.drop_last(), b.drop_last());
        assert(a =~= a.drop_last().push(x));
        assert(b =~= b.drop_last().push(y));
    } else {
        assert(a =~= b);
    }
}

/// The content id is a function of the bytes alone, and two buffers get the
/// same id only when their SHA-256 digests agree: ids differ wherever the
/// digests do.
pub proof fn content_id_stable(a: Seq<u8>, b: Seq<u8>)
    ensures
        a == b ==> content_id_of(a) == content_id_of(b),
        content_id_of(a) == content_id_of(b) ==> sha256_of(a) == sha256_of(b),
{
    if content_id_of(a) == content_id_of(b) {
        lemma_hex_injective(sha256_of(a), sha256_of(b));
    }
}

} // verus!
