//! What an HTTP endpoint that serves sigils answers to a request.
//!
//! The path of a request names the sigil: 32 hexadecimal digits are taken as
//! the digest itself, any other path is hashed. The digest in hexadecimal is
//! the entity tag of the image, so that a client that already holds the
//! image is told so instead of being sent it again.

use crate::error::ConfigError;
use crate::hasher::md5;
use crate::hasher::md5_digest;
use crate::hex::hex_digest;
use crate::hex::is_hex_digest;
use crate::hex::lower_hex;
use crate::hex::parse_hex_digest;
use crate::hex::to_lower_hex;
use crate::raster::lemma_valid_size;
use crate::raster::raster;
use crate::raster::size_unit;
use crate::raster::valid_size;
use crate::raster::PixelBuffer;
use crate::sigil::sigil_of;
use crate::sigil::Sigil;
use crate::sigil::SigilView;
use crate::theme::Theme;
use vstd::prelude::*;

verus! {

/// Largest width of an image that is served.
pub const MAX_WIDTH: u32 = 600;

/// Width of an image where the request names none.
pub fn default_width() -> (width: u32)
    ensures
        width == 120,
{
    120
}

/// A width that no image is served in.
#[derive(Clone, Copy, Debug, PartialEq, Eq, Structural)]
pub enum WidthError {
    /// The width is greater than [`MAX_WIDTH`].
    TooLarge,
    /// The width is not a multiple of `unit`.
    NotDivisible { unit: u32 },
}

/// What is wrong with a requested width, if anything: an image is at most
/// [`MAX_WIDTH`] pixels wide, and its width is one that the sigil can be
/// rendered in, a multiple of twice the number of rows plus two.
pub open spec fn width_fault(rows: int, width: int) -> Option<WidthError> {
    if width > MAX_WIDTH {
        Some(WidthError::TooLarge)
    } else if !valid_size(rows, width) {
        Some(WidthError::NotDivisible { unit: size_unit(rows) as u32 })
    } else {
        None
    }
}

/// Accepts a width that an image can be served in and names the fault of
/// any other.
pub fn check_width(rows: u16, width: u32) -> (res: Result<(), WidthError>)
    ensures
        res is Ok <==> width_fault(rows as int, width as int) is None,
        res matches Err(e) ==> width_fault(rows as int, width as int) == Some(e),
{
    if width > MAX_WIDTH {
        return Err(WidthError::TooLarge);
    }
    let unit = (rows as u32 + 1) * 2;
    proof {
        lemma_valid_size(rows as int, width as int);
    }
    if width % unit != 0 {
        return Err(WidthError::NotDivisible { unit });
    }
    Ok(())
}

/// The digest that a path names: the path itself where it is a digest in
/// hexadecimal, else the hash of the path.
pub open spec fn path_digest(path: Seq<u8>) -> Seq<u8> {
    if is_hex_digest(path) {
        hex_digest(path)
    } else {
        md5_digest(path)
    }
}

/// The digest that a path names.
pub fn digest_of_path(path: &[u8]) -> (digest: [u8; 16])
    ensures
        digest@ == path_digest(path@),
{
    match parse_hex_digest(path) {
        Some(digest) => digest,
        None => md5(path),
    }
}

/// Whether `needle` stands in `haystack` from index `i` on.
pub open spec fn occurs_at(haystack: Seq<u8>, needle: Seq<u8>, i: int) -> bool {
    0 <= i && i + needle.len() <= haystack.len() && haystack.subrange(i, i + needle.len())
        == needle
}

/// Whether `needle` stands somewhere in `haystack`.
pub open spec fn occurs_in(haystack: Seq<u8>, needle: Seq<u8>) -> bool {
    exists|i: int| occurs_at(haystack, needle, i)
}

/// Whether `needle` stands in `haystack` from index `at` on.
pub fn starts_at(haystack: &[u8], needle: &[u8], at: usize) -> (found: bool)
    requires
        at + needle@.len() <= haystack@.len(),
    ensures
        found == occurs_at(haystack@, needle@, at as int),
{
    let count = needle.len();
    let total = haystack.len();
    let mut j: usize = 0;
    while j < count
        invariant
            count == needle@.len(),
            total == haystack@.len(),
            at + count <= total,
            j <= count,
            forall|k: int| 0 <= k < j ==> haystack@[at + k] == needle@[k],
        decreases count - j,
    {
        if haystack[at + j] != needle[j] {
            assert(haystack@.subrange(at as int, at + count)[j as int] != needle@[j as int]);
            return false;
        }
        j += 1;
    }
    assert(haystack@.subrange(at as int, at + count) =~= needle@);
    true
}

/// Whether `needle` stands somewhere in `haystack`. The empty needle stands
/// in every haystack.
pub fn contains(haystack: &[u8], needle: &[u8]) -> (found: bool)
    ensures
        found == occurs_in(haystack@, needle@),
{
    if needle.len() > haystack.len() {
        return false;
    }
    let last = haystack.len() - needle.len();
    let mut i: usize = 0;
    loop
        invariant
            last == haystack@.len() - needle@.len(),
            i <= last,
            forall|k: int| 0 <= k < i ==> !occurs_at(haystack@, needle@, k),
        decreases last - i,
    {
        if starts_at(haystack, needle, i) {
            return true;
        }
        if i == last {
            return false;
        }
        i += 1;
    }
}

/// What the endpoint answers.
pub enum Reply {
    /// The request is refused for its width.
    BadRequest(WidthError),
    /// The client holds the image already.
    NotModified {
        /// The entity tag of the image.
        etag: Vec<u8>,
    },
    /// The image.
    Image {
        /// The entity tag of the image.
        etag: Vec<u8>,
        /// The rendered sigil.
        image: PixelBuffer,
    },
}

/// The sigil that is served for a digest: that of the theme, with its
/// colours swapped where the request asks for that.
pub open spec fn served_sigil(theme: &Theme, digest: Seq<u8>, inverted: bool) -> SigilView {
    if inverted {
        sigil_of(theme, digest).inverted()
    } else {
        sigil_of(theme, digest)
    }
}

/// Whether the client holds the image with the given entity tag already:
/// the tags that it sent name it.
pub open spec fn client_holds(if_none_match: Option<&[u8]>, etag: Seq<u8>) -> bool {
    if_none_match matches Some(tags) && occurs_in(tags@, etag)
}

/// Whether `reply` is the answer to a request under a valid theme: a width
/// that cannot be served is refused; else the client that names the tag of
/// the image is told that it holds it, and any other is sent the image.
pub open spec fn answers(
    theme: &Theme,
    width: u32,
    inverted: bool,
    path: Seq<u8>,
    if_none_match: Option<&[u8]>,
    reply: Reply,
) -> bool {
    let tag = lower_hex(path_digest(path));
    match reply {
        Reply::BadRequest(e) => width_fault(theme.rows as int, width as int) == Some(e),
        Reply::NotModified { etag } => {
            &&& width_fault(theme.rows as int, width as int) is None
            &&& etag@ == tag
            &&& client_holds(if_none_match, tag)
        },
        Reply::Image { etag, image } => {
            &&& width_fault(theme.rows as int, width as int) is None
            &&& etag@ == tag
            &&& !client_holds(if_none_match, tag)
            &&& image.side() == width
            &&& image@ == raster(served_sigil(theme, path_digest(path), inverted), width as int)
        },
    }
}

/// Answers a request for the sigil that `path` names, `width` pixels wide.
/// `if_none_match` holds the entity tags that the client sent, if any. An
/// invalid theme is reported before anything else is looked at.
pub fn respond(
    theme: &Theme,
    width: u32,
    inverted: bool,
    path: &[u8],
    if_none_match: Option<&[u8]>,
) -> (res: Result<Reply, ConfigError>)
    ensures
        res is Ok <==> theme.valid(),
        res matches Err(e) ==> theme.fault() == Some(e),
        res matches Ok(reply) ==> answers(theme, width, inverted, path@, if_none_match, reply),
{
    if let Err(e) = theme.validate() {
        return Err(e);
    }
    if let Err(e) = check_width(theme.rows, width) {
        return Ok(Reply::BadRequest(e));
    }
    let digest = digest_of_path(path);
    let etag = to_lower_hex(digest.as_slice());
    if let Some(tags) = if_none_match {
        if contains(tags, etag.as_slice()) {
            return Ok(Reply::NotModified { etag });
        }
    }
    let sigil = Sigil::from_hash(theme, digest).unwrap();
    let sigil = if inverted {
        sigil.invert()
    } else {
        sigil
    };
    assert(3 * width * width <= isize::MAX) by (nonlinear_arith)
        requires
            width <= 600,
            isize::MAX >= 0x7fff_ffff,
    ;
    let image = sigil.to_image(width).unwrap();
    Ok(Reply::Image { etag, image })
}

} // verus!
