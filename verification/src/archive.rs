//! Reading a ZIP archive that is held in memory.

use vstd::prelude::*;
use crate::error::QuandlError;

verus! {

/// The number of files in the ZIP archive `archive`; `None` where the bytes
/// are no archive that the reader can open.
pub uninterp spec fn zip_entry_count(archive: Seq<u8>) -> Option<nat>;

/// The unpacked content of file `index` of the ZIP archive `archive`; `None`
/// where the archive cannot be opened or the file cannot be unpacked.
pub uninterp spec fn zip_entry(archive: Seq<u8>, index: nat) -> Option<Seq<u8>>;

/// Opens the bytes with `ZipArchive::new` of the zip crate, over a cursor, and
/// asks `len` for the number of files. The contract claims only that the
/// outcome depends on the bytes alone.
#[verifier::external_body]
fn count_entries(archive: &[u8]) -> (r: Result<usize, zip::result::ZipError>)
    ensures
        match r {
            Ok(count) => zip_entry_count(archive@) == Some(count as nat),
            Err(_) => zip_entry_count(archive@).is_none(),
        },
{
    let opened = zip::ZipArchive::new(std::io::Cursor::new(archive))?;
    Ok(opened.len())
}

/// Opens the bytes with `ZipArchive::new` of the zip crate, over a cursor,
/// takes file `index` with `by_index_decrypt` and an empty password, and
/// unpacks it with `read_to_end`. Where the file is not encrypted the password
/// is ignored; where it is, the reader's refusal of the password is reported
/// as the missing password that it is. The contract claims only that the
/// outcome depends on the bytes and the index alone.
#[verifier::external_body]
fn read_entry(archive: &[u8], index: usize) -> (r: Result<Vec<u8>, zip::result::ZipError>)
    ensures
        match r {
            Ok(content) => zip_entry(archive@, index as nat) == Some(content@),
            Err(_) => zip_entry(archive@, index as nat).is_none(),
        },
{
    let mut opened = zip::ZipArchive::new(std::io::Cursor::new(archive))?;
    let mut content = Vec::new();
    match opened.by_index_decrypt(index, b"")? {
        Ok(mut file) => std::io::Read::read_to_end(&mut file, &mut content)?,
        Err(_) => return Err(zip::result::ZipError::UnsupportedArchive(
            zip::result::ZipError::PASSWORD_REQUIRED,
        )),
    };
    Ok(content)
}

/// The number of files in a ZIP archive, or the archive reader's error where
/// the bytes are no archive.
pub fn entry_count(archive: &[u8]) -> (r: Result<usize, QuandlError>)
    ensures
        match zip_entry_count(archive@) {
            Some(count) => r matches Ok(n) && n == count,
            None => r matches Err(QuandlError::Zip(_)),
        },
{
    match count_entries(archive) {
        Ok(count) => Ok(count),
        Err(e) => Err(QuandlError::Zip(e)),
    }
}

/// The unpacked content of file `index` of a ZIP archive, or the archive
/// reader's error where there is no such file or it cannot be unpacked.
pub fn entry_content(archive: &[u8], index: usize) -> (r: Result<Vec<u8>, QuandlError>)
    ensures
        match zip_entry(archive@, index as nat) {
            Some(content) => r matches Ok(bytes) && bytes@ == content,
            None => r matches Err(QuandlError::Zip(_)),
        },
{
    match read_entry(archive, index) {
        Ok(content) => Ok(content),
        Err(e) => Err(QuandlError::Zip(e)),
    }
}

} // verus!
