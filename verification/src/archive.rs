//! The names of the archives that carry files to a host.
//!
//! Every transfer of one pattern to one host has an archive of its own under
//! the local temporary directory, which hosts that are served at the same
//! time share. Its name is drawn at random, so that no lock is needed.

use crate::remote::spec_file_in;
use crate::text::followed_by;
use rand::distributions::{Alphanumeric, DistString};
use vstd::prelude::*;

verus! {

/// The number of characters of an archive's random name.
pub const TOKEN_LENGTH: usize = 16;

/// Whether `c` is a digit or a letter of ASCII.
pub open spec fn is_alphanumeric(c: char) -> bool {
    ('0' <= c && c <= '9') || ('a' <= c && c <= 'z') || ('A' <= c && c <= 'Z')
}

/// Whether `token` can be the random part of an archive's name.
pub open spec fn is_token(token: Seq<char>) -> bool {
    &&& token.len() == TOKEN_LENGTH
    &&& forall|i: int| 0 <= i < token.len() ==> is_alphanumeric(#[trigger] token[i])
}

/// Draws `length` characters with `rand`'s `Alphanumeric::sample_string`
/// from the generator of the calling thread.
///
/// Trusted: the string has `length` characters, each a digit or a letter of
/// ASCII. Nothing is said of which: two calls may differ. The generator is
/// seeded by the system when the thread first uses it; the call panics only
/// if the system has no seed to give.
#[verifier::external_body]
fn random_alphanumeric(length: usize) -> (s: String)
    ensures
        s@.len() == length,
        forall|i: int| 0 <= i < s@.len() ==> is_alphanumeric(#[trigger] s@[i]),
{
    Alphanumeric.sample_string(&mut rand::thread_rng(), length)
}

/// A new random part for an archive's name.
pub fn fresh_token() -> (token: String)
    ensures
        is_token(token@),
{
    random_alphanumeric(TOKEN_LENGTH)
}

/// The name of the tar archive for `token`.
pub open spec fn spec_tar_name(token: Seq<char>) -> Seq<char> {
    token + ".tar"@
}

/// The name of the compressed archive for `token`.
pub open spec fn spec_zst_name(token: Seq<char>) -> Seq<char> {
    token + ".tar.zst"@
}

/// The name of the archive that is sent to the host.
pub open spec fn spec_archive_name(token: Seq<char>, compress: bool) -> Seq<char> {
    if compress {
        spec_zst_name(token)
    } else {
        spec_tar_name(token)
    }
}

/// The path of the local file `name` in the temporary directory.
pub open spec fn spec_local_path(name: Seq<char>) -> Seq<char> {
    "/tmp/"@ + name
}

/// The name of the tar archive for `token`.
pub fn tar_name(token: &str) -> (name: String)
    ensures
        name@ == spec_tar_name(token@),
{
    followed_by(token, ".tar")
}

/// The name of the compressed archive for `token`.
pub fn zst_name(token: &str) -> (name: String)
    ensures
        name@ == spec_zst_name(token@),
{
    followed_by(token, ".tar.zst")
}

/// The name of the archive that is sent to the host.
pub fn archive_name(token: &str, compress: bool) -> (name: String)
    ensures
        name@ == spec_archive_name(token@, compress),
{
    if compress {
        zst_name(token)
    } else {
        tar_name(token)
    }
}

/// The path of the local file `name` in the temporary directory.
pub fn local_path(name: &str) -> (path: String)
    ensures
        path@ == spec_local_path(name@),
{
    followed_by("/tmp/", name)
}

/// Two texts that differ still differ with the same text after them.
proof fn lemma_suffix_keeps_apart(a: Seq<char>, b: Seq<char>, suffix: Seq<char>)
    requires
        a != b,
    ensures
        a + suffix != b + suffix,
{
    if a + suffix == b + suffix {
        assert(a.len() == b.len()) by {
            assert((a + suffix).len() == (b + suffix).len());
        }
        assert forall|i: int| 0 <= i < a.len() implies a[i] == b[i] by {
            assert((a + suffix)[i] == a[i]);
            assert((b + suffix)[i] == b[i]);
        }
        assert(a =~= b);
    }
}

/// Two texts that differ still differ with the same text before them.
proof fn lemma_prefix_keeps_apart(prefix: Seq<char>, a: Seq<char>, b: Seq<char>)
    requires
        a != b,
    ensures
        prefix + a != prefix + b,
{
    if prefix + a == prefix + b {
        assert(a.len() == b.len()) by {
            assert((prefix + a).len() == (prefix + b).len());
        }
        assert forall|i: int| 0 <= i < a.len() implies a[i] == b[i] by {
            assert((prefix + a)[prefix.len() + i] == a[i]);
            assert((prefix + b)[prefix.len() + i] == b[i]);
        }
        assert(a =~= b);
    }
}

/// Archives with different random parts do not collide: their names differ,
/// their local paths differ, and so do their paths in one directory on the
/// host.
pub proof fn lemma_archives_do_not_collide(
    first: Seq<char>,
    second: Seq<char>,
    compress: bool,
    directory: Seq<char>,
)
    requires
        first != second,
    ensures
        spec_archive_name(first, compress) != spec_archive_name(second, compress),
        spec_tar_name(first) != spec_tar_name(second),
        spec_local_path(spec_archive_name(first, compress)) != spec_local_path(
            spec_archive_name(second, compress),
        ),
        spec_local_path(spec_tar_name(first)) != spec_local_path(spec_tar_name(second)),
        spec_file_in(directory, spec_archive_name(first, compress)) != spec_file_in(
            directory,
            spec_archive_name(second, compress),
        ),
{
    lemma_suffix_keeps_apart(first, second, ".tar"@);
    lemma_suffix_keeps_apart(first, second, ".tar.zst"@);
    lemma_prefix_keeps_apart("/tmp/"@, spec_tar_name(first), spec_tar_name(second));
    lemma_prefix_keeps_apart(
        "/tmp/"@,
        spec_archive_name(first, compress),
        spec_archive_name(second, compress),
    );
    lemma_prefix_keeps_apart(
        directory + seq!['/'],
        spec_archive_name(first, compress),
        spec_archive_name(second, compress),
    );
}

/// The tar archive and the compressed archive of one transfer have different names.
pub proof fn lemma_intermediate_is_distinct(token: Seq<char>)
    ensures
        spec_tar_name(token) != spec_zst_name(token),
        spec_local_path(spec_tar_name(token)) != spec_local_path(spec_zst_name(token)),
{
    reveal_strlit(".tar");
    reveal_strlit(".tar.zst");
    assert(spec_tar_name(token).len() != spec_zst_name(token).len());
    assert(spec_local_path(spec_tar_name(token)).len() != spec_local_path(
        spec_zst_name(token),
    ).len());
}

} // verus!
