//! Names for the local temporary copies.
//!
//! Every download goes to a file named `Pixoro-<hash>.<ext>` under the media
//! directory. The hash is the MD5 digest, in hexadecimal, of a nonce written
//! in decimal, and the nonce is the clock in nanoseconds since the epoch.
//! Where the clock gives no nonce, no name is made. That two names differ is
//! not promised: two readings of the clock may be the same.

use crate::media::{file_extension, media_extension, MediaDescriptor, MediaView};
use crate::text::{decimal_text, hex_lower, hex_text, hex_text_shape, signed_decimal};
use std::time::{Duration, SystemTime};
use vstd::prelude::*;

verus! {

/// The MD5 digest of a byte string, as `md5::compute` computes it.
pub uninterp spec fn md5_of(data: Seq<u8>) -> Seq<u8>;

/// Calls `md5::compute` and hands out the bytes of its digest. The digest is
/// a function of the input bytes alone, and it has sixteen bytes; nothing
/// else is claimed.
#[verifier::external_body]
fn md5_digest(data: &[u8]) -> (digest: Vec<u8>)
    ensures
        digest@ == md5_of(data@),
        digest@.len() == 16,
{
    md5::compute(data).0.to_vec()
}

/// A point in time of the system clock, opaque here.
#[verifier::external_type_specification]
#[verifier::external_body]
pub struct ExSystemTime(SystemTime);

/// `SystemTime::now` reads the system clock. Nothing is claimed of the
/// reading.
pub assume_specification[ SystemTime::now ]() -> (now: SystemTime)
;

/// `Duration::as_secs` gives the whole seconds of a duration. Nothing is
/// claimed of the number.
pub assume_specification[ Duration::as_secs ](d: &Duration) -> (secs: u64)
;

/// `Duration::subsec_nanos` gives the fraction of a second of a duration in
/// nanoseconds, which is below one thousand million.
pub assume_specification[ Duration::subsec_nanos ](d: &Duration) -> (nanos: u32)
    ensures
        nanos < 1_000_000_000,
;

/// Calls `SystemTime::duration_since` with the epoch: the time that has
/// passed since 1970, or nothing where the clock stands before it. Nothing
/// is claimed of the value.
#[verifier::external_body]
fn since_epoch(now: &SystemTime) -> (passed: Option<Duration>) {
    now.duration_since(std::time::UNIX_EPOCH).ok()
}

/// Calls `chrono::DateTime::from_timestamp` and, on the date it gives,
/// `DateTime::timestamp_nanos_opt`. For seconds that are not negative and a
/// fraction below one second, the two give the nanoseconds since the epoch
/// where those fit 64 bits, and nothing where they do not. Of other
/// arguments nothing is claimed.
#[verifier::external_body]
fn epoch_nanos(secs: i64, nanos: u32) -> (total: Option<i64>)
    ensures
        secs >= 0 && nanos < 1_000_000_000 ==> total == nanos_since_epoch(
            secs as int,
            nanos as int,
        ),
{
    match chrono::DateTime::from_timestamp(secs, nanos) {
        Some(date) => date.timestamp_nanos_opt(),
        None => None,
    }
}

/// The nanoseconds since the epoch of a time given in whole seconds and a
/// fraction in nanoseconds: nothing where they do not fit 64 bits.
pub open spec fn nanos_since_epoch(secs: int, nanos: int) -> Option<i64> {
    if secs * 1_000_000_000 + nanos <= i64::MAX {
        Some((secs * 1_000_000_000 + nanos) as i64)
    } else {
        None
    }
}

/// The nonce of a reading of the clock: nothing where the fraction is not
/// below one second or the nanoseconds do not fit 64 bits.
pub open spec fn nonce_of(secs: int, nanos: int) -> Option<i64> {
    if nanos < 1_000_000_000 {
        nanos_since_epoch(secs, nanos)
    } else {
        None
    }
}

/// The nonce of a reading of the clock, given as the whole seconds since the
/// epoch and the fraction in nanoseconds: see [`nonce_of`].
pub fn nonce_at(secs: u64, nanos: u32) -> (nonce: Option<i64>)
    ensures
        nonce == nonce_of(secs as int, nanos as int),
{
    if nanos >= 1_000_000_000 || secs > 9_223_372_036 {
        return None;
    }
    epoch_nanos(secs as i64, nanos)
}

/// Reads the clock and gives its nonce, where it has one.
fn clock_nonce() -> (nonce: Option<i64>) {
    let now: SystemTime = SystemTime::now();
    match since_epoch(&now) {
        Some(passed) => nonce_at(passed.as_secs(), passed.subsec_nanos()),
        None => None,
    }
}

/// The literal that every temporary file name begins with.
pub open spec fn file_prefix() -> Seq<char> {
    seq!['P', 'i', 'x', 'o', 'r', 'o', '-']
}

/// The extension of a file whose descriptor gives none.
pub open spec fn default_extension() -> Seq<char> {
    seq!['p', 'n', 'g']
}

/// The extension of the local copy of an attachment.
pub open spec fn extension_or_default(media: MediaView) -> Seq<char> {
    match media_extension(media) {
        Some(ext) => ext,
        None => default_extension(),
    }
}

/// The hash part of the name that belongs to a nonce.
pub open spec fn nonce_hash(nonce: int) -> Seq<char> {
    hex_text(md5_of(vstd::utf8::encode_utf8(signed_decimal(nonce))))
}

/// A file name under a directory: the two joined by one `/`, which is left
/// out where the directory is empty or already ends in one.
pub open spec fn joined(dir: Seq<char>, file: Seq<char>) -> Seq<char> {
    if dir.len() == 0 || dir.last() == '/' {
        dir + file
    } else {
        dir + seq!['/'] + file
    }
}

/// The path of the local copy of `media` under `dir` for a given nonce.
pub open spec fn temp_path(dir: Seq<char>, media: MediaView, nonce: int) -> Seq<char> {
    joined(dir, file_prefix() + nonce_hash(nonce) + seq!['.'] + extension_or_default(media))
}

/// The path of the local copy of `media` under `image_dir`, for a nonce that
/// the caller chose: see [`temp_path`].
pub fn file_name_for_nonce(media: &MediaDescriptor, image_dir: &str, nonce: i64) -> (path: String)
    ensures
        path@ == temp_path(image_dir@, media@, nonce as int),
        nonce_hash(nonce as int).len() == 32,
{
    let extension: String = match file_extension(media) {
        Some(ext) => ext,
        None => {
            proof {
                reveal_strlit("png");
                assert("png"@ =~= default_extension());
            }
            String::from_str("png")
        },
    };
    let name: String = decimal_text(nonce);
    let digest: Vec<u8> = md5_digest(name.as_str().as_bytes());
    let hash: String = hex_lower(digest.as_slice());
    proof {
        hex_text_shape(digest@);
    }
    let mut path: String = String::from_str(image_dir);
    let n: usize = image_dir.unicode_len();
    if n > 0 && image_dir.get_char(n - 1) != '/' {
        path.push('/');
    }
    proof {
        reveal_strlit("Pixoro-");
        assert("Pixoro-"@ =~= file_prefix());
    }
    path.append("Pixoro-");
    path.append(hash.as_str());
    path.push('.');
    path.append(extension.as_str());
    proof {
        assert(path@ =~= temp_path(image_dir@, media@, nonce as int));
    }
    path
}

/// A fresh path for the local copy of `media` under `image_dir`. The nonce is
/// the clock in nanoseconds, so the path is that of [`temp_path`] for some
/// nonce, with a hash of 32 digits. Where the clock stands before the epoch
/// or beyond what 64 bits hold, there is no path.
pub fn create_file_name_with_path(media: &MediaDescriptor, image_dir: &str) -> (path: Option<String>)
    ensures
        path matches Some(p) ==> exists|nonce: int|
            p@ == temp_path(image_dir@, media@, nonce) && nonce_hash(nonce).len() == 32,
{
    match clock_nonce() {
        Some(nonce) => Some(file_name_for_nonce(media, image_dir, nonce)),
        None => None,
    }
}

} // verus!
