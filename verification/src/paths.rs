use vstd::prelude::*;
use vstd::string::StringExecFns;
use vstd::string::StrSliceExecFns;

verus! {

/// The partition directory of a stored original: the year and month of its
/// capture time.
pub fn storage_partition(date_taken: &str) -> (r: String)
    requires
        date_taken@.len() >= 7,
    ensures
        r@ == date_taken@.take(7),
{
    let piece = date_taken.substring_char(0, 7);
    piece.to_owned()
}

/// A capture timestamp with the punctuation dropped: `YYYYMMDD_HHMMSS`.
pub open spec fn spec_compact_stamp(d: Seq<char>) -> Seq<char> {
    d.subrange(0, 4) + d.subrange(5, 7) + d.subrange(8, 10) + seq!['_']
        + d.subrange(11, 13) + d.subrange(14, 16) + d.subrange(17, 19)
}

fn compact_stamp(date_taken: &str) -> (r: String)
    requires
        date_taken@.len() >= 19,
    ensures
        r@ == spec_compact_stamp(date_taken@),
{
    let mut out: String = date_taken.substring_char(0, 4).to_owned();
    out.append(date_taken.substring_char(5, 7));
    out.append(date_taken.substring_char(8, 10));
    out.append("_");
    out.append(date_taken.substring_char(11, 13));
    out.append(date_taken.substring_char(14, 16));
    out.append(date_taken.substring_char(17, 19));
    proof {
        reveal_strlit("_");
        assert(out@ =~= spec_compact_stamp(date_taken@));
    }
    out
}

/// Relies on `uuid::Uuid::new_v4` and its hyphenated text form: 36 ASCII
/// characters, fresh randomness on every call, so nothing more is promised
/// of the value.
#[verifier::external_body]
fn random_uuid_hyphenated() -> (r: String)
    ensures
        r@.len() == 36,
        r.is_ascii(),
{
    uuid::Uuid::new_v4().to_string()
}

/// The stored name of an original: its capture stamp, a fresh 12-character
/// unique id, and its lowercased extension. Everything but the random id is
/// pinned; the shape and length always hold.
pub fn storage_file_name(date_taken: &str, ext_lower: &str) -> (r: String)
    requires
        date_taken@.len() >= 19,
    ensures
        r@.len() == 29 + ext_lower@.len(),
        r@.take(15) == spec_compact_stamp(date_taken@),
        r@[15] == '_',
        r@[28] == '.',
        r@.skip(29) == ext_lower@,
{
    let mut out = compact_stamp(date_taken);
    out.append("_");
    let unique = random_uuid_hyphenated();
    let prefix = unique.as_str().substring_ascii(0, 12);
    out.append(prefix);
    out.append(".");
    out.append(ext_lower);
    proof {
        reveal_strlit("_");
        reveal_strlit(".");
        assert(spec_compact_stamp(date_taken@).len() == 15);
        assert(out@.take(15) =~= spec_compact_stamp(date_taken@));
        assert(out@.skip(29) =~= ext_lower@);
    }
    out
}

/// The storage-relative path of a stored original.
pub fn storage_relative_path(partition: &str, file_name: &str) -> (r: String)
    ensures
        r@ == partition@ + "/"@ + file_name@,
{
    let mut out: String = partition.to_owned();
    out.append("/");
    out.append(file_name);
    out
}

} // verus!
