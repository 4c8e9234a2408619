//! Where an upload goes: a folder of its own, named at random, and in it
//! the file under its own name.

use crate::job::{key_in_folder, object_key};
use vstd::prelude::*;

verus! {

/// The place of an upload in the object store.
#[derive(Debug, Clone, PartialEq, Eq)]
pub struct UploadTarget {
    pub folder: String,
    pub key: String,
}

/// Whether `c` is a decimal digit or one of `a` to `f`.
pub open spec fn is_lower_hex(c: char) -> bool {
    ('0' <= c && c <= '9') || ('a' <= c && c <= 'f')
}

/// Whether `name` has the hyphenated form of a UUID in lower case: 36
/// characters, hyphens at positions 8, 13, 18 and 23, hex digits elsewhere.
pub open spec fn is_folder_name(name: Seq<char>) -> bool {
    &&& name.len() == 36
    &&& forall|i: int|
        0 <= i < 36 ==> if i == 8 || i == 13 || i == 18 || i == 23 {
            #[trigger] name[i] == '-'
        } else {
            is_lower_hex(name[i])
        }
}

/// `uuid::Uuid::new_v4` followed by the UUID's `to_string`: a random
/// identifier, written in the hyphenated lower-case form. Only the form is
/// claimed, which every outcome has. The call panics where the system's
/// source of randomness fails.
#[verifier::external_body]
fn random_folder_name() -> (name: String)
    ensures
        is_folder_name(name@),
{
    uuid::Uuid::new_v4().to_string()
}

/// The place of `filename` in `folder`.
pub fn upload_target_in(folder: String, filename: &str) -> (target: UploadTarget)
    ensures
        target.folder@ == folder@,
        target.key@ == key_in_folder(folder@, filename@),
{
    let key = object_key(folder.as_str(), filename);
    UploadTarget { folder, key }
}

/// A place for a new upload of `filename`: in a folder named at random.
pub fn upload_target(filename: &str) -> (target: UploadTarget)
    ensures
        is_folder_name(target.folder@),
        target.key@ == key_in_folder(target.folder@, filename@),
{
    upload_target_in(random_folder_name(), filename)
}

} // verus!
