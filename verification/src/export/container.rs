//! ZIP containers (DOCX and EPUB are both ZIP archives of XML files),
//! written with the `zip` crate, every member stored uncompressed. An
//! archive of members with distinct, short names whose total stays under
//! the 4 GiB of the classic ZIP format is always written.
use vstd::prelude::*;
use crate::error::AppError;
use crate::text::has_prefix;

verus! {

/// An in-memory `zip::ZipWriter` holding the archive being written;
/// `zip_members` names what it holds. A writer on which a call failed is
/// consumed by that call, so every writer holds exactly the members
/// started and written on it.
#[verifier::external_body]
pub struct ZipBuffer {
    writer: zip::ZipWriter<std::io::Cursor<Vec<u8>>>,
}

#[verifier::external_type_specification]
#[verifier::external_body]
pub struct ExZipError(zip::result::ZipError);

#[verifier::external_type_specification]
#[verifier::external_body]
pub struct ExIoError(std::io::Error);

/// The members written so far into an in-memory ZIP writer: each name with
/// the bytes written under it, in the order they were started.
pub uninterp spec fn zip_members(w: ZipBuffer) -> Seq<(Seq<char>, Seq<u8>)>;

/// The archive that the `zip` crate writes for these members, each stored
/// uncompressed with the default options (no time feature: every entry is
/// dated 1980-01-01).
pub uninterp spec fn stored_zip_bytes(members: Seq<(Seq<char>, Seq<u8>)>) -> Seq<u8>;

/// The length in bytes of `name` in UTF-8, as a ZIP header stores it.
pub open spec fn name_bytes(name: Seq<char>) -> nat {
    vstd::utf8::encode_utf8(name).len()
}

/// The longest name a ZIP header holds, in bytes.
pub const MAX_NAME_BYTES: usize = 65535;

/// What a stored member takes in the archive before the central
/// directory: its 30-byte local header, its name and its data.
pub open spec fn entry_size(m: (Seq<char>, Seq<u8>)) -> nat {
    30 + name_bytes(m.0) + m.1.len()
}

pub open spec fn archive_size(ms: Seq<(Seq<char>, Seq<u8>)>) -> nat
    decreases ms.len(),
{
    if ms.len() == 0 {
        0
    } else {
        archive_size(ms.drop_last()) + entry_size(ms.last())
    }
}

/// The members fit the classic ZIP format: fewer than 65535 of them, and
/// together (headers, names, data) under 4 GiB, so that no offset or size
/// needs the ZIP64 extensions.
pub open spec fn fits_zip32(ms: Seq<(Seq<char>, Seq<u8>)>) -> bool {
    archive_size(ms) < 0xFFFF_FFFF && ms.len() < 0xFFFF
}

pub open spec fn member_names(ms: Seq<(Seq<char>, Seq<u8>)>) -> Seq<Seq<char>> {
    ms.map_values(|m: (Seq<char>, Seq<u8>)| m.0)
}

/// Members the `zip` crate always writes: distinct names of at most
/// `MAX_NAME_BYTES` bytes, fitting the classic format.
pub open spec fn zip_ready(ms: Seq<(Seq<char>, Seq<u8>)>) -> bool {
    &&& forall|i: int, j: int| 0 <= i < j < ms.len() ==> (#[trigger] ms[i]).0 != (#[trigger] ms[j]).0
    &&& forall|i: int| 0 <= i < ms.len() ==> name_bytes((#[trigger] ms[i]).0) <= MAX_NAME_BYTES
    &&& fits_zip32(ms)
}

/// `zip::ZipWriter::new` over an empty in-memory buffer; it holds no member.
#[verifier::external_body]
fn zip_new() -> (w: ZipBuffer)
    ensures
        zip_members(w) == Seq::<(Seq<char>, Seq<u8>)>::empty(),
{
    ZipBuffer { writer: zip::ZipWriter::new(std::io::Cursor::new(Vec::new())) }
}

/// `zip::ZipWriter::start_file` with stored (uncompressed) default options.
/// The name's length must fit a header's 16-bit field (the crate unwraps
/// it). On success a new, empty member named `name` follows the earlier
/// ones; it succeeds whenever the name is new and the members still fit
/// the classic format (its one refusal there is a duplicate name). A
/// writer on which it fails is dropped.
#[verifier::external_body]
fn zip_start_stored(w: ZipBuffer, name: &str) -> (r: Result<ZipBuffer, zip::result::ZipError>)
    requires
        name_bytes(name@) <= MAX_NAME_BYTES,
    ensures
        r matches Ok(v) ==> zip_members(v) == zip_members(w).push((name@, Seq::<u8>::empty())),
        !member_names(zip_members(w)).contains(name@) && fits_zip32(
            zip_members(w).push((name@, Seq::<u8>::empty())),
        ) ==> r is Ok,
{
    let mut w = w;
    let options = zip::write::SimpleFileOptions::default().compression_method(zip::CompressionMethod::Stored);
    match w.writer.start_file(name, options) {
        Ok(()) => Ok(w),
        Err(e) => Err(e),
    }
}

/// `std::io::Write::write_all` on the writer: on success `data` is appended
/// to the member last started. It succeeds whenever the members still fit
/// the classic format (the crate refuses a member over 4 GiB). A writer on
/// which it fails is dropped.
#[verifier::external_body]
fn zip_write(w: ZipBuffer, data: &[u8]) -> (r: Result<ZipBuffer, std::io::Error>)
    requires
        zip_members(w).len() > 0,
    ensures
        r matches Ok(v) ==> zip_members(v) == zip_members(w).update(
            zip_members(w).len() - 1,
            (zip_members(w).last().0, zip_members(w).last().1 + data@),
        ),
        fits_zip32(
            zip_members(w).update(
                zip_members(w).len() - 1,
                (zip_members(w).last().0, zip_members(w).last().1 + data@),
            ),
        ) ==> r is Ok,
{
    let mut w = w;
    match std::io::Write::write_all(&mut w.writer, data) {
        Ok(()) => Ok(w),
        Err(e) => Err(e),
    }
}

/// `zip::ZipWriter::finish`, then the buffer's bytes: on success they are
/// the archive of the members written. It succeeds whenever the members
/// fit the classic format.
#[verifier::external_body]
fn zip_finish(w: ZipBuffer) -> (r: Result<Vec<u8>, zip::result::ZipError>)
    ensures
        r matches Ok(b) ==> b@ == stored_zip_bytes(zip_members(w)),
        fits_zip32(zip_members(w)) ==> r is Ok,
{
    w.writer.finish().map(|c| c.into_inner())
}

/// The error's text (`Display` of `zip::result::ZipError`).
#[verifier::external_body]
fn zip_error_text(e: &zip::result::ZipError) -> String {
    e.to_string()
}

/// The error's text (`Display` of `std::io::Error`).
#[verifier::external_body]
fn io_error_text(e: &std::io::Error) -> String {
    e.to_string()
}

/// How every ZIP error reported by `build_zip` begins.
pub const ZIP_FAILURE: &'static str = "ZIP作成に失敗しました";

/// An error `build_zip` reports when the `zip` crate refuses an entry or
/// the archive, or a name is too long (the message begins with
/// `ZIP_FAILURE`), or when a write fails (an I/O error).
pub open spec fn is_zip_failure(e: AppError) -> bool {
    match e {
        AppError::Other(m) => has_prefix(m@, ZIP_FAILURE@),
        AppError::Io(_) => true,
        _ => false,
    }
}

/// The members as names and bytes.
pub open spec fn member_views(entries: Seq<(String, Vec<u8>)>) -> Seq<(Seq<char>, Seq<u8>)> {
    entries.map_values(|e: (String, Vec<u8>)| (e.0@, e.1@))
}

/// A name takes at most four bytes per character.
pub proof fn lemma_name_bytes_bound(name: Seq<char>)
    ensures
        name_bytes(name) <= 4 * name.len(),
    decreases name.len(),
{
    if name.len() > 0 {
        lemma_name_bytes_bound(name.drop_first());
        assert(vstd::utf8::encode_scalar(name[0] as u32).len() <= 4);
    }
}

/// A prefix of the members takes no more room than all of them.
pub proof fn lemma_archive_size_prefix(ms: Seq<(Seq<char>, Seq<u8>)>, i: int)
    requires
        0 <= i <= ms.len(),
    ensures
        archive_size(ms.take(i)) <= archive_size(ms),
    decreases ms.len() - i,
{
    if i < ms.len() {
        lemma_archive_size_prefix(ms, i + 1);
        assert(ms.take(i + 1).drop_last() =~= ms.take(i));
    } else {
        assert(ms.take(i) =~= ms);
    }
}

fn zip_failure(parts: &[&str]) -> (e: AppError)
    ensures
        is_zip_failure(e),
{
    let mut m = String::from_str(ZIP_FAILURE);
    let ghost head = m@;
    let mut i: usize = 0;
    while i < parts.len()
        invariant
            0 <= i <= parts@.len(),
            head == ZIP_FAILURE@,
            m@.len() >= head.len(),
            m@.subrange(0, head.len() as int) == head,
        decreases parts.len() - i,
    {
        let ghost before = m@;
        m.append(parts[i]);
        assert(m@.subrange(0, head.len() as int) =~= before.subrange(0, head.len() as int));
        i += 1;
    }
    AppError::Other(m)
}

/// A ZIP archive of `entries` (name, bytes), each stored uncompressed, in
/// order. It is always written when the entries are `zip_ready`; a name
/// too long for a ZIP header, or one the `zip` crate refuses, is reported
/// with its name, and a failed write is an I/O error.
pub fn build_zip(entries: &Vec<(String, Vec<u8>)>) -> (r: Result<Vec<u8>, AppError>)
    ensures
        r matches Ok(b) ==> b@ == stored_zip_bytes(member_views(entries@)),
        r matches Err(e) ==> is_zip_failure(e),
        zip_ready(member_views(entries@)) ==> r is Ok,
{
    let ghost all = member_views(entries@);
    let mut w = zip_new();
    let mut i: usize = 0;
    while i < entries.len()
        invariant
            0 <= i <= entries@.len(),
            all == member_views(entries@),
            zip_members(w) == member_views(entries@.take(i as int)),
        decreases entries.len() - i,
    {
        let (name, data) = &entries[i];
        proof {
            assert(member_views(entries@.take(i + 1)) =~= member_views(entries@.take(i as int)).push(
                (name@, data@),
            ));
            assert(all[i as int] == (name@, data@));
            assert(all.take(i + 1) =~= member_views(entries@.take(i + 1)));
            assert(all.take(i as int) =~= member_views(entries@.take(i as int)));
        }
        let bytes = name.as_str().as_bytes_vec();
        if bytes.len() > MAX_NAME_BYTES {
            proof {
                assert(name_bytes(name@) > MAX_NAME_BYTES);
                assert(!zip_ready(all)) by {
                    assert(all[i as int].0 == name@);
                }
            }
            return Err(zip_failure(&["(", name.as_str(), "): ファイル名が長すぎます"]));
        }
        proof {
            if zip_ready(all) {
                lemma_archive_size_prefix(all, i + 1);
                let prev = all.take(i as int);
                assert(prev.push((name@, Seq::<u8>::empty())).drop_last() =~= prev);
                assert(all.take(i + 1).drop_last() =~= prev);
                assert(all.take(i + 1).last() == (name@, data@));
                assert(!member_names(prev).contains(name@)) by {
                    if member_names(prev).contains(name@) {
                        let k = choose|k: int| 0 <= k < member_names(prev).len() && member_names(prev)[k] == name@;
                        assert(all[k].0 == all[i as int].0);
                    }
                }
            }
        }
        w = match zip_start_stored(w, name.as_str()) {
            Ok(v) => v,
            Err(e) => {
                let t = zip_error_text(&e);
                return Err(zip_failure(&["(", name.as_str(), "): ", t.as_str()]));
            },
        };
        proof {
            let started = zip_members(w);
            assert(started.update(started.len() - 1, (started.last().0, started.last().1 + data@))
                =~= member_views(entries@.take(i + 1)));
        }
        w = match zip_write(w, data.as_slice()) {
            Ok(v) => v,
            Err(e) => {
                return Err(AppError::Io(io_error_text(&e)));
            },
        };
        assert(zip_members(w) =~= member_views(entries@.take(i + 1)));
        i += 1;
    }
    assert(entries@.take(entries@.len() as int) =~= entries@);
    match zip_finish(w) {
        Ok(b) => Ok(b),
        Err(e) => {
            let t = zip_error_text(&e);
            Err(zip_failure(&[": ", t.as_str()]))
        },
    }
}

} // verus!
