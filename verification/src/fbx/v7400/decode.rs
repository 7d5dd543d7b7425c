//! Embedded image decoding.
//!
//! Decoding itself is done by the `image` crate behind trusted wrappers; what
//! a byte buffer decodes to is given a name ([`image_decoding`],
//! [`tga_decoding`]) since it depends on the bytes alone. The choice between
//! the two decoders — TGA needs an explicit format hint — is made here, by
//! sniffing the extension of the stored relative filename, and that logic is
//! verified.

use vstd::prelude::*;

use crate::data::DecodedImage;
use crate::error::Error;

verus! {

/// What `image::load_from_memory` decodes the bytes to, as
/// `(width, height, RGBA bytes)`; `None` when it fails.
pub uninterp spec fn image_decoding(bytes: Seq<u8>) -> Option<(u32, u32, Seq<u8>)>;

/// What `image::load_from_memory_with_format` with the TGA hint decodes the
/// bytes to; `None` when it fails.
pub uninterp spec fn tga_decoding(bytes: Seq<u8>) -> Option<(u32, u32, Seq<u8>)>;

/// Relies on `image::load_from_memory` and `DynamicImage::to_rgba8`: the
/// result is a function of the bytes alone, and the RGBA buffer holds four
/// bytes per texel.
#[verifier::external_body]
pub(crate) fn decode_image(bytes: &Vec<u8>) -> (r: Result<DecodedImage, Error>)
    ensures
        match r {
            Result::Ok(img) => image_decoding(bytes@) == Option::Some(
                (img.width, img.height, img.rgba@),
            ) && img.rgba@.len() == 4 * (img.width as int) * (img.height as int),
            Result::Err(e) => e == Error::ImageDecode && image_decoding(bytes@) is None,
        },
{
    match image::load_from_memory(bytes) {
        Ok(img) => {
            let rgba = img.to_rgba8();
            let (width, height) = (rgba.width(), rgba.height());
            Ok(DecodedImage { width, height, rgba: rgba.into_raw() })
        },
        Err(_) => Err(Error::ImageDecode),
    }
}

/// Relies on `image::load_from_memory_with_format` with the TGA hint and
/// `DynamicImage::to_rgba8`: the result is a function of the bytes alone, and
/// the RGBA buffer holds four bytes per texel.
#[verifier::external_body]
pub(crate) fn decode_tga_image(bytes: &Vec<u8>) -> (r: Result<DecodedImage, Error>)
    ensures
        match r {
            Result::Ok(img) => tga_decoding(bytes@) == Option::Some(
                (img.width, img.height, img.rgba@),
            ) && img.rgba@.len() == 4 * (img.width as int) * (img.height as int),
            Result::Err(e) => e == Error::ImageDecode && tga_decoding(bytes@) is None,
        },
{
    match image::load_from_memory_with_format(bytes, image::ImageFormat::Tga) {
        Ok(img) => {
            let rgba = img.to_rgba8();
            let (width, height) = (rgba.width(), rgba.height());
            Ok(DecodedImage { width, height, rgba: rgba.into_raw() })
        },
        Err(_) => Err(Error::ImageDecode),
    }
}

/// Index of the first character of the file name: one past the last `/`.
pub open spec fn file_name_start(s: Seq<char>) -> int
    decreases s.len(),
{
    if s.len() == 0 {
        0
    } else if s.last() == '/' {
        s.len() as int
    } else {
        file_name_start(s.drop_last())
    }
}

/// Index of the last `.`, or `-1` when there is none.
pub open spec fn last_dot(s: Seq<char>) -> int
    decreases s.len(),
{
    if s.len() == 0 {
        -1
    } else if s.last() == '.' {
        s.len() - 1
    } else {
        last_dot(s.drop_last())
    }
}

/// What [`file_name_start`] returns: the cut after the last separator.
proof fn lemma_file_name_start(s: Seq<char>)
    ensures
        0 <= file_name_start(s) <= s.len(),
        file_name_start(s) > 0 ==> s[file_name_start(s) - 1] == '/',
        forall|j: int| file_name_start(s) <= j < s.len() ==> s[j] != '/',
    decreases s.len(),
{
    if s.len() > 0 && s.last() != '/' {
        lemma_file_name_start(s.drop_last());
        assert(forall|j: int| 0 <= j < s.len() - 1 ==> s[j] == s.drop_last()[j]);
    }
}

/// What [`last_dot`] returns: the last dot, with none after it.
proof fn lemma_last_dot(s: Seq<char>)
    ensures
        -1 <= last_dot(s) < s.len(),
        last_dot(s) >= 0 ==> s[last_dot(s)] == '.',
        forall|j: int| last_dot(s) < j < s.len() ==> s[j] != '.',
    decreases s.len(),
{
    if s.len() > 0 && s.last() != '.' {
        lemma_last_dot(s.drop_last());
        assert(forall|j: int| 0 <= j < s.len() - 1 ==> s[j] == s.drop_last()[j]);
    }
}

/// The relative filename carries a `tga` extension, compared without regard
/// to ASCII case: its file name has a dot after its first character, and the
/// three characters after that dot spell `tga`.
pub open spec fn spec_is_tga(s: Seq<char>) -> bool {
    let ld = last_dot(s);
    &&& ld > file_name_start(s)
    &&& s.len() - (ld + 1) == 3
    &&& (s[ld + 1] == 't' || s[ld + 1] == 'T')
    &&& (s[ld + 2] == 'g' || s[ld + 2] == 'G')
    &&& (s[ld + 3] == 'a' || s[ld + 3] == 'A')
}

/// Decides whether the relative filename names a TGA image.
pub fn filename_is_tga(name: &str) -> (r: bool)
    ensures
        r == spec_is_tga(name@),
{
    let n = name.unicode_len();
    let mut fs: usize = n;
    while fs > 0 && name.get_char(fs - 1) != '/'
        invariant
            fs <= n,
            n == name@.len(),
            forall|j: int| fs <= j < n ==> name@[j] != '/',
        decreases fs,
    {
        fs = fs - 1;
    }
    proof {
        lemma_file_name_start(name@);
        let f = file_name_start(name@);
        if f < fs as int {
            assert(name@[fs as int - 1] != '/');
            assert(false);
        }
        if f > fs as int {
            assert(name@[f - 1] == '/');
            assert(false);
        }
    }
    let mut dt: usize = n;
    while dt > 0 && name.get_char(dt - 1) != '.'
        invariant
            dt <= n,
            n == name@.len(),
            forall|j: int| dt <= j < n ==> name@[j] != '.',
        decreases dt,
    {
        dt = dt - 1;
    }
    proof {
        lemma_last_dot(name@);
        let l = last_dot(name@);
        if l < dt as int - 1 {
            assert(name@[dt as int - 1] != '.');
            assert(false);
        }
        if l > dt as int - 1 {
            assert(name@[l] != '.');
            assert(false);
        }
    }
    if dt == 0 {
        // No dot at all: no extension.
        return false;
    }
    let ld = dt - 1;
    if !(ld > fs && n - dt == 3) {
        return false;
    }
    let c1 = name.get_char(dt);
    let c2 = name.get_char(dt + 1);
    let c3 = name.get_char(dt + 2);
    (c1 == 't' || c1 == 'T') && (c2 == 'g' || c2 == 'G') && (c3 == 'a' || c3 == 'A')
}

} // verus!
