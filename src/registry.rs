use vstd::prelude::*;

use path_absolutize::Absolutize;

use crate::config::Config;
use crate::error::{s3_error, s3_error_with, ErrorCode, Result, S3ite};
use crate::text::{ends_with, ends_with_char, has_char};

verus! {

/// Extension of the database file of a bucket.
pub const BUCKET_EXTENSION: &'static str = ".sqlite3";

/// The file name of bucket `bucket`'s database.
pub open spec fn spec_bucket_file_name(bucket: Seq<char>) -> Seq<char> {
    bucket + ".sqlite3"@
}

/// The file name of bucket `bucket`'s database: the name and `.sqlite3`.
pub fn bucket_file_name(bucket: &str) -> (r: String)
    ensures
        r@ == spec_bucket_file_name(bucket@),
{
    let mut s = String::from_str(bucket);
    s.append(BUCKET_EXTENSION);
    s
}

/// The bucket a file in the root directory holds, if it is a bucket's
/// database: a non-empty stem followed by `.sqlite3`.
pub fn bucket_of_file_name(file_name: &str) -> (r: Option<String>)
    ensures
        match r {
            Some(b) => b@.len() > 0 && file_name@ == spec_bucket_file_name(b@),
            None => forall|b: Seq<char>| b.len() > 0 ==> file_name@ != spec_bucket_file_name(b),
        },
{
    proof {
        reveal_strlit(".sqlite3");
    }
    let n = file_name.unicode_len();
    if n > 8 && ends_with(file_name, BUCKET_EXTENSION) {
        let stem = file_name.substring_char(0, n - 8);
        assert(file_name@ =~= stem@ + ".sqlite3"@);
        Some(String::from_str(stem))
    } else {
        proof {
            assert forall|b: Seq<char>| b.len() > 0 implies file_name@ != spec_bucket_file_name(b) by {
                if file_name@ == spec_bucket_file_name(b) {
                    assert(file_name@.subrange(file_name@.len() - 8, file_name@.len() as int)
                        =~= ".sqlite3"@);
                }
            }
        }
        None
    }
}

/// Whether `bucket` is a single, non-empty path segment.
pub open spec fn single_segment(bucket: Seq<char>) -> bool {
    bucket.len() > 0 && !bucket.contains('/') && !bucket.contains('\\')
}

/// Relies on path_absolutize's absolutize_virtually: `path` resolved under
/// the virtual root `root`, or `None` where it would leave it or is not
/// UTF-8.
#[verifier::external_body]
fn absolutize_under(root: &str, path: &str) -> (r: Option<String>) {
    let resolved = std::path::Path::new(path).absolutize_virtually(root).ok()?;
    resolved.to_str().map(|s| s.to_string())
}

/// The path of file `file` directly inside directory `root`.
pub open spec fn path_in(root: Seq<char>, file: Seq<char>) -> Seq<char> {
    if root.len() > 0 && root.last() == '/' {
        root + file
    } else {
        root + "/"@ + file
    }
}

fn path_in_of(root: &str, file: &str) -> (r: String)
    ensures
        r@ == path_in(root@, file@),
{
    let mut p = String::from_str(root);
    if !ends_with_char(root, '/') {
        p.append("/");
    }
    p.append(file);
    p
}

/// The path of bucket `bucket`'s database under the absolute directory
/// `root`: `root/bucket.sqlite3`. The name must be a single path segment, so
/// that the file lies directly inside the root; the path the resolver gives
/// is checked to be that one.
pub fn get_bucket_path(root: &str, bucket: &str) -> (r: Result<String>)
    ensures
        !single_segment(bucket@) <==> (r matches Err(e) && e.is(ErrorCode::InvalidBucketName)),
        single_segment(bucket@) ==> (r matches Err(e) ==> e.is(ErrorCode::InternalError)),
        r matches Ok(p) ==> p@ == path_in(root@, spec_bucket_file_name(bucket@)),
{
    if bucket.unicode_len() == 0 || has_char(bucket, '/') || has_char(bucket, '\\') {
        return Err(s3_error(ErrorCode::InvalidBucketName));
    }
    let file = bucket_file_name(bucket);
    let expected = path_in_of(root, file.as_str());
    match absolutize_under(root, file.as_str()) {
        Some(p) => if p == expected {
            Ok(p)
        } else {
            Err(s3_error_with(ErrorCode::InternalError, PATH_MESSAGE))
        },
        None => Err(s3_error_with(ErrorCode::InternalError, PATH_MESSAGE)),
    }
}

/// Message of the error a bucket path that does not resolve inside the root
/// gets.
pub const PATH_MESSAGE: &'static str = "bucket path does not resolve inside the root";

/// The names that `entries` configures and `found` lacks, in order.
pub open spec fn missing(entries: Seq<(String, crate::config::Bucket)>, found: Seq<Seq<char>>) -> Seq<
    Seq<char>,
>
    decreases entries.len(),
{
    if entries.len() == 0 {
        Seq::empty()
    } else {
        let rest = missing(entries.drop_last(), found);
        if found.contains(entries.last().0@) {
            rest
        } else {
            rest.push(entries.last().0@)
        }
    }
}

pub open spec fn names(v: Seq<String>) -> Seq<Seq<char>> {
    v.map_values(|s: String| s@)
}

pub fn is_found(name: &String, found: &Vec<String>) -> (r: bool)
    ensures
        r == names(found@).contains(name@),
{
    let mut i: usize = 0;
    while i < found.len()
        invariant
            i <= found@.len(),
            forall|k: int| 0 <= k < i ==> found@[k]@ != name@,
        decreases found@.len() - i,
    {
        if found[i] == *name {
            assert(names(found@)[i as int] == name@);
            return true;
        }
        i = i + 1;
    }
    proof {
        if names(found@).contains(name@) {
            let k = choose|k: int| 0 <= k < names(found@).len() && names(found@)[k] == name@;
            assert(found@[k]@ == name@);
        }
    }
    false
}

/// The buckets the configuration names that have no database file among
/// `found`.
pub fn missing_buckets(config: &Config, found: &Vec<String>) -> (r: Vec<String>)
    ensures
        names(r@) == missing(config.buckets@, names(found@)),
{
    let mut out: Vec<String> = Vec::new();
    let mut i: usize = 0;
    assert(config.buckets@.take(0) =~= Seq::<(String, crate::config::Bucket)>::empty());
    assert(names(out@) =~= Seq::<Seq<char>>::empty());
    while i < config.buckets.len()
        invariant
            i <= config.buckets@.len(),
            names(out@) == missing(config.buckets@.take(i as int), names(found@)),
        decreases config.buckets@.len() - i,
    {
        let name = &config.buckets[i].0;
        let ghost before = out@;
        proof {
            assert(config.buckets@.take(i + 1).drop_last() =~= config.buckets@.take(i as int));
            assert(config.buckets@.take(i + 1).last() == config.buckets@[i as int]);
        }
        if !is_found(name, found) {
            out.push(name.clone());
            assert(names(out@) =~= names(before).push(name@));
        }
        i = i + 1;
    }
    assert(config.buckets@.take(config.buckets@.len() as int) =~= config.buckets@);
    out
}

/// The quoted names, separated by commas.
pub open spec fn quoted_list(names: Seq<Seq<char>>) -> Seq<char>
    decreases names.len(),
{
    if names.len() == 0 {
        Seq::empty()
    } else if names.len() == 1 {
        "\""@ + names[0] + "\""@
    } else {
        quoted_list(names.drop_last()) + ", \""@ + names.last() + "\""@
    }
}

/// The message startup fails with when the buckets `names` have no file.
pub open spec fn missing_message(names: Seq<Seq<char>>) -> Seq<char> {
    "found configurations for buckets: ["@ + quoted_list(names) + "] that do not exist"@
}

/// The error startup fails with when configured buckets have no file: an
/// internal error whose message lists every one of them.
pub fn missing_buckets_error(missing: &Vec<String>) -> (r: S3ite)
    ensures
        r.is(ErrorCode::InternalError),
        r->S3_0.message matches Some(m) && m@ == missing_message(names(missing@)),
{
    let ghost all = names(missing@);
    let mut list = String::new();
    let mut i: usize = 0;
    assert(all.take(0) =~= Seq::<Seq<char>>::empty());
    while i < missing.len()
        invariant
            i <= missing@.len(),
            all == names(missing@),
            list@ == quoted_list(all.take(i as int)),
        decreases missing@.len() - i,
    {
        let ghost before = list@;
        proof {
            assert(all.take(i + 1).drop_last() =~= all.take(i as int));
            assert(all.take(i + 1).last() == missing@[i as int]@);
        }
        if i > 0 {
            list.append(", \"");
        } else {
            list.append("\"");
        }
        list.append(missing[i].as_str());
        list.append("\"");
        proof {
            if i > 0 {
                assert(list@ =~= quoted_list(all.take(i as int)) + ", \""@ + missing@[i as int]@ + "\""@);
            } else {
                assert(all.take(1)[0] == missing@[0]@);
                assert(list@ =~= "\""@ + missing@[0]@ + "\""@);
            }
        }
        i = i + 1;
    }
    assert(all.take(missing@.len() as int) =~= all);
    let mut message = String::from_str("found configurations for buckets: [");
    message.append(list.as_str());
    message.append("] that do not exist");
    s3_error_with(ErrorCode::InternalError, message.as_str())
}

} // verus!
