//! Entries of the shadow file and what goes into the hash of a password.

use vstd::prelude::*;
use vstd::string::*;
use vstd::utf8::*;

use crate::modules::error;
use crate::modules::error::{Error, ErrorView, IoError, IoKind};
use crate::modules::passwd;
use crate::shared::EACCES;
use crate::text;

verus! {

/// The entry of a user. Dates and ages are days, and a negative number means that nothing is
/// configured.
#[derive(Debug, Clone)]
pub struct ShadowEntry {
    /// The hash of the password, with its salt.
    pub passwd_hash: String,
    /// The day of the last change of the password.
    pub last_change: i64,
    /// How long a password is valid.
    pub max_age: i64,
    /// How long an expired password still lets its user in.
    pub inactive: i64,
    /// The day after which the account is closed.
    pub expiry: i64,
}

/// The bytes to hash for a password: the password and a zero byte. A salt with a zero byte is
/// refused, and the password is overwritten then.
pub fn crypt_key(passwd: String, salt: &str) -> (r: Result<Vec<u8>, Error>)
    ensures
        ({
            let bytes = encode_utf8(salt@);
            if text::nul_at(bytes) < bytes.len() {
                error::fails(r, ErrorView::Nul(text::nul_at(bytes) as usize))
            } else {
                r matches Ok(key) && key@ == encode_utf8(passwd@).push(0)
            }
        }),
{
    let mut bytes = passwd.into_bytes();
    bytes.push(0);
    match error::c_text(salt) {
        Err(e) => {
            passwd::zeroize_bytes(&mut bytes);
            Err(e)
        },
        Ok(_) => Ok(bytes),
    }
}

/// Overwrites the bytes that were hashed.
pub fn wipe_key(key: &mut Vec<u8>)
    ensures
        final(key)@ == Seq::<u8>::empty(),
{
    passwd::zeroize_bytes(key);
}

/// The hash that the system computed, or its error.
pub fn crypt(hash: Option<String>, failure: IoError) -> (r: Result<String, Error>)
    ensures
        match hash {
            Some(h) => r matches Ok(s) && s@ == h@,
            None => error::fails(r, ErrorView::Io(failure.kind, failure.raw, failure.text@)),
        },
{
    match hash {
        Some(h) => Ok(h),
        None => Err(Error::Io(failure)),
    }
}

/// The search for an entry came back without one because there is none, which leaves the error
/// number zero, or because access was denied.
pub open spec fn no_entry(failure: IoError) -> bool {
    failure.raw == Some(0i32) || failure.raw == Some(EACCES) || failure.kind
        == IoKind::PermissionDenied
}

/// What the search for an entry found. There is none if the user does not exist or access is
/// denied; any other failure is an error.
pub fn getspnam(found: Option<ShadowEntry>, failure: IoError) -> (r: Result<
    Option<ShadowEntry>,
    Error,
>)
    ensures
        match found {
            Some(entry) => r == Ok::<Option<ShadowEntry>, Error>(Some(entry)),
            None => if no_entry(failure) {
                r == Ok::<Option<ShadowEntry>, Error>(None)
            } else {
                error::fails(r, ErrorView::Io(failure.kind, failure.raw, failure.text@))
            },
        },
{
    match found {
        Some(entry) => Ok(Some(entry)),
        None => {
            let denied = match failure.kind {
                IoKind::PermissionDenied => true,
                _ => false,
            };
            let none = match failure.raw {
                Some(n) => n == 0 || n == EACCES,
                None => false,
            };
            if denied || none {
                Ok(None)
            } else {
                Err(Error::Io(failure))
            }
        },
    }
}

/// A failure means that there is no entry for the user if there was no error at all or the file
/// may not be read; any other failure is one.
pub proof fn law_no_entry(failure: IoError)
    ensures
        failure.raw == Some(0i32) || failure.raw == Some(13i32) ==> no_entry(failure),
        failure.kind == IoKind::PermissionDenied ==> no_entry(failure),
        failure.kind != IoKind::PermissionDenied && failure.raw is None ==> !no_entry(failure),
        failure.kind != IoKind::PermissionDenied && failure.raw is Some && failure.raw->Some_0 != 0
            && failure.raw->Some_0 != 13 ==> !no_entry(failure),
{
}

} // verus!
