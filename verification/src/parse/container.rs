//! Log files: which container a file name names, and the checks on an
//! archive and on its decompressed size.

use vstd::prelude::*;
use crate::parse::error::EvtcError;
use crate::parse::models::ParserSettings;
use crate::parse::arc_build::to_chars;

verus! {

/// How a log file holds its bytes.
#[derive(Debug, Clone, Copy, PartialEq, Eq, Structural)]
pub enum LogContainer {
    /// The bytes as they are (`.evtc`).
    Plain,
    /// A zip archive of one entry (`.zevtc`, `.evtc.zip`).
    Compressed,
}

/// `s` ends with `suffix`.
pub open spec fn ends_with(s: Seq<char>, suffix: Seq<char>) -> bool {
    suffix.len() <= s.len() && s.subrange(s.len() - suffix.len(), s.len() as int) == suffix
}

/// The container a lower-case file name names, by its extension.
pub open spec fn container_spec(name: Seq<char>) -> Result<LogContainer, EvtcError> {
    if ends_with(name, ".evtc"@) {
        Ok(LogContainer::Plain)
    } else if ends_with(name, ".zevtc"@) || ends_with(name, ".evtc.zip"@) {
        Ok(LogContainer::Compressed)
    } else {
        Err(EvtcError::NotEvtc)
    }
}

fn ends_with_exec(s: &Vec<char>, suffix: &str) -> (r: bool)
    ensures
        r == ends_with(s@, suffix@),
{
    let p = to_chars(&suffix.to_owned());
    if p.len() > s.len() {
        return false;
    }
    let n = s.len();
    let off = n - p.len();
    let mut i: usize = 0;
    while i < p.len()
        invariant
            n == s@.len(),
            p@ == suffix@,
            off + p@.len() == s@.len(),
            i <= p@.len(),
            forall|j: int| 0 <= j < i ==> s@[off + j] == p@[j],
        decreases p@.len() - i,
    {
        if s[off + i] != p[i] {
            assert(s@.subrange(off as int, s@.len() as int)[i as int] != p@[i as int]);
            return false;
        }
        i = i + 1;
    }
    assert(s@.subrange(off as int, s@.len() as int) =~= p@);
    true
}

/// The container of a log file from its lower-case name: `.evtc` plain,
/// `.zevtc` or `.evtc.zip` compressed, anything else not a log.
pub fn container_of(name_lower: &str) -> (r: Result<LogContainer, EvtcError>)
    ensures
        r == container_spec(name_lower@),
{
    let s = to_chars(&name_lower.to_owned());
    if ends_with_exec(&s, ".evtc") {
        Ok(LogContainer::Plain)
    } else if ends_with_exec(&s, ".zevtc") || ends_with_exec(&s, ".evtc.zip") {
        Ok(LogContainer::Compressed)
    } else {
        Err(EvtcError::NotEvtc)
    }
}

/// An archive of a log holds exactly one entry.
pub fn check_archive_entries(entries: usize) -> (r: Result<(), EvtcError>)
    ensures
        r is Ok <==> entries == 1,
        r is Err ==> r == Err::<(), EvtcError>(EvtcError::InvalidArchive),
{
    if entries != 1 {
        Err(EvtcError::InvalidArchive)
    } else {
        Ok(())
    }
}

/// Whole megabytes in `len` bytes.
pub open spec fn megabytes(len: usize) -> u64 {
    (len as int / 1048576) as u64
}

/// A decompressed log of `len` bytes is refused when its whole megabytes
/// exceed the limit of the settings.
pub fn check_decompressed_size(len: usize, settings: &ParserSettings) -> (r: Result<(), EvtcError>)
    ensures
        r is Ok <==> megabytes(len) <= settings.too_big_limit_mb,
        r is Err ==> r == Err::<(), EvtcError>(
            EvtcError::TooBig { size: megabytes(len), limit: settings.too_big_limit_mb },
        ),
{
    let size_mb = (len / (1024 * 1024)) as u64;
    if size_mb > settings.too_big_limit_mb {
        Err(EvtcError::TooBig { size: size_mb, limit: settings.too_big_limit_mb })
    } else {
        Ok(())
    }
}

/// What reading `archive` as a zip archive gives: its number of entries,
/// or the text of the archive's error.
pub uninterp spec fn zip_entry_count_of(archive: Seq<u8>) -> Result<usize, Seq<char>>;

/// What decompressing entry `index` of zip archive `archive` gives: its
/// bytes, or the text of the error, marked `true` for a failure of the
/// decompression stream and `false` for one of the archive.
pub uninterp spec fn zip_entry_bytes_of(archive: Seq<u8>, index: usize) -> Result<Seq<u8>, (bool, Seq<char>)>;

/// Opens `archive` with `zip::ZipArchive::new` over an in-memory cursor and
/// returns `ZipArchive::len`; on failure the text of the `ZipError`. The
/// result is named by `zip_entry_count_of` of the bytes.
#[verifier::external_body]
fn zip_entry_count(archive: &[u8]) -> (r: Result<usize, String>)
    ensures
        match r {
            Ok(n) => zip_entry_count_of(archive@) == Ok::<usize, Seq<char>>(n),
            Err(m) => zip_entry_count_of(archive@) == Err::<usize, Seq<char>>(m@),
        },
{
    match zip::ZipArchive::new(std::io::Cursor::new(archive)) {
        Ok(a) => Ok(a.len()),
        Err(e) => Err(format!("{}", e)),
    }
}

/// Opens `archive` with `zip::ZipArchive::new`, takes entry `index` with
/// `ZipArchive::by_index` and reads it whole with `Read::read_to_end`; on
/// failure the text of the `ZipError` (`false`) or of the `io::Error` of the
/// stream (`true`). The result is named by `zip_entry_bytes_of`.
#[verifier::external_body]
fn zip_entry_bytes(archive: &[u8], index: usize) -> (r: Result<Vec<u8>, (bool, String)>)
    ensures
        match r {
            Ok(v) => zip_entry_bytes_of(archive@, index) == Ok::<Seq<u8>, (bool, Seq<char>)>(v@),
            Err(e) => zip_entry_bytes_of(archive@, index) == Err::<Seq<u8>, (bool, Seq<char>)>((e.0, e.1@)),
        },
{
    let mut a = match zip::ZipArchive::new(std::io::Cursor::new(archive)) {
        Ok(a) => a,
        Err(e) => return Err((false, format!("{}", e))),
    };
    let mut entry = match a.by_index(index) {
        Ok(f) => f,
        Err(e) => return Err((false, format!("{}", e))),
    };
    let mut bytes: Vec<u8> = Vec::new();
    match std::io::Read::read_to_end(&mut entry, &mut bytes) {
        Ok(_) => Ok(bytes),
        Err(e) => Err((true, format!("{}", e))),
    }
}

/// Why decompressing a compressed log fails, with the texts as character
/// sequences.
pub enum DecompressFailure {
    Zip(Seq<char>),
    Io(Seq<char>),
    InvalidArchive,
    TooBig(u64, u64),
}

/// `e` is the error that `f` describes.
pub open spec fn is_failure(e: EvtcError, f: DecompressFailure) -> bool {
    match f {
        DecompressFailure::Zip(m) => e matches EvtcError::Zip { message } && message@ == m,
        DecompressFailure::Io(m) => e matches EvtcError::Io { message } && message@ == m,
        DecompressFailure::InvalidArchive => e == EvtcError::InvalidArchive,
        DecompressFailure::TooBig(size, limit) => e == (EvtcError::TooBig { size, limit }),
    }
}

/// The failure of a decompression stream (`true`) or of the archive.
pub open spec fn entry_failure(e: (bool, Seq<char>)) -> DecompressFailure {
    if e.0 {
        DecompressFailure::Io(e.1)
    } else {
        DecompressFailure::Zip(e.1)
    }
}

/// What decompressing a compressed log gives, as `decompress_log` computes it.
pub open spec fn decompress_result(archive: Seq<u8>, settings: ParserSettings) -> Result<Seq<u8>, DecompressFailure> {
    match zip_entry_count_of(archive) {
        Err(m) => Err(DecompressFailure::Zip(m)),
        Ok(n) => if n != 1 {
            Err(DecompressFailure::InvalidArchive)
        } else {
            match zip_entry_bytes_of(archive, 0) {
                Err(e) => Err(entry_failure(e)),
                Ok(b) => if megabytes(b.len() as usize) > settings.too_big_limit_mb {
                    Err(DecompressFailure::TooBig(megabytes(b.len() as usize), settings.too_big_limit_mb))
                } else {
                    Ok(b)
                },
            }
        },
    }
}

/// The bytes of the single entry of the compressed log `archive`: an
/// archive that cannot be read fails with its reason, one that does not
/// hold exactly one entry is invalid, and an entry whose whole megabytes
/// exceed the limit of `settings` is too big.
pub fn decompress_log(archive: &[u8], settings: &ParserSettings) -> (r: Result<Vec<u8>, EvtcError>)
    ensures
        match (r, decompress_result(archive@, *settings)) {
            (Ok(v), Ok(b)) => v@ == b,
            (Err(e), Err(f)) => is_failure(e, f),
            _ => false,
        },
{
    let n = match zip_entry_count(archive) {
        Ok(n) => n,
        Err(m) => {
            return Err(EvtcError::Zip { message: m });
        },
    };
    match check_archive_entries(n) {
        Ok(()) => {},
        Err(e) => {
            return Err(e);
        },
    }
    let bytes = match zip_entry_bytes(archive, 0) {
        Ok(b) => b,
        Err((true, m)) => {
            return Err(EvtcError::Io { message: m });
        },
        Err((false, m)) => {
            return Err(EvtcError::Zip { message: m });
        },
    };
    match check_decompressed_size(bytes.len(), settings) {
        Ok(()) => {},
        Err(e) => {
            return Err(e);
        },
    }
    Ok(bytes)
}

} // verus!
