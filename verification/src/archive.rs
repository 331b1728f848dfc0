//! Reading the entries of ZIP containers (Word and Excel files) and decoding bytes as text.
use vstd::prelude::*;

use crate::text::string_views;

verus! {

/// `zip::result::ZipError`, why a ZIP container or one of its entries could not be read.
#[verifier::external_type_specification]
#[verifier::external_body]
pub struct ExZipError(zip::result::ZipError);

/// `std::io::Error`, why reading an entry's content failed.
#[verifier::external_type_specification]
#[verifier::external_body]
pub struct ExIoError(std::io::Error);

/// Why an entry of a ZIP container could not be read.
#[derive(Debug)]
pub enum ZipReadError {
    /// The bytes are not a readable ZIP container.
    Archive(zip::result::ZipError),
    /// The entry could not be opened.
    Entry(zip::result::ZipError),
    /// The entry's content could not be read (for text: it is not valid UTF-8).
    Read(std::io::Error),
}

/// The names of the entries of the ZIP container `archive`, in directory order; none when
/// the bytes are not a container the `zip` crate reads.
pub uninterp spec fn zip_names(archive: Seq<u8>) -> Option<Seq<Seq<char>>>;

/// The UTF-8 text of the entry named `name` of the ZIP container `archive`, decompressed;
/// none when the container or the entry cannot be read or the content is not UTF-8.
pub uninterp spec fn zip_entry_text(archive: Seq<u8>, name: Seq<char>) -> Option<Seq<char>>;

/// The bytes of the entry named `name` of the ZIP container `archive`, decompressed; none
/// when the container or the entry cannot be read.
pub uninterp spec fn zip_entry_bytes(archive: Seq<u8>, name: Seq<char>) -> Option<Seq<u8>>;

/// The uncompressed size recorded for the entry named `name` of the ZIP container `archive`;
/// none when the container or the entry cannot be opened.
pub uninterp spec fn zip_entry_size(archive: Seq<u8>, name: Seq<char>) -> Option<u64>;

/// The names of the entries of a container, or none when it cannot be read.
pub open spec fn names_of(archive: Seq<u8>) -> Seq<Seq<char>> {
    match zip_names(archive) {
        Some(names) => names,
        None => seq![],
    }
}

/// The text of an entry, or empty when it cannot be read.
pub open spec fn entry_text(archive: Seq<u8>, name: Seq<char>) -> Seq<char> {
    match zip_entry_text(archive, name) {
        Some(text) => text,
        None => seq![],
    }
}

/// The text `String::from_utf8_lossy` decodes from `bytes`: UTF-8, each invalid sequence
/// replaced by U+FFFD.
pub uninterp spec fn utf8_lossy(bytes: Seq<u8>) -> Seq<char>;

/// Calls `String::from_utf8_lossy`, which decodes UTF-8 and replaces invalid sequences by
/// U+FFFD; the decoding is named `utf8_lossy`.
#[verifier::external_body]
pub(crate) fn decode_utf8_lossy(bytes: &[u8]) -> (r: String)
    ensures
        r@ == utf8_lossy(bytes@),
{
    String::from_utf8_lossy(bytes).to_string()
}

/// Calls `zip::ZipArchive::new`, `ZipArchive::file_names`: the names of all entries, in
/// directory order, when the container can be read.
#[verifier::external_body]
pub(crate) fn zip_file_names(archive: &[u8]) -> (r: Result<Vec<String>, zip::result::ZipError>)
    ensures
        r is Ok <==> zip_names(archive@) is Some,
        r matches Ok(names) ==> zip_names(archive@) == Some(string_views(names@)),
{
    let reader = zip::ZipArchive::new(std::io::Cursor::new(archive))?;
    Ok(reader.file_names().map(|name| name.to_string()).collect())
}

/// Calls `zip::ZipArchive::new`, `ZipArchive::by_name` and `Read::read_to_string`: the text
/// of the entry named `name`, when the container and the entry can be opened and the
/// content is valid UTF-8.
#[verifier::external_body]
pub(crate) fn zip_read_text(archive: &[u8], name: &str) -> (r: Result<String, ZipReadError>)
    ensures
        r is Ok <==> zip_entry_text(archive@, name@) is Some,
        r matches Ok(text) ==> zip_entry_text(archive@, name@) == Some(text@),
{
    let mut reader = zip::ZipArchive::new(std::io::Cursor::new(archive)).map_err(ZipReadError::Archive)?;
    let mut file = reader.by_name(name).map_err(ZipReadError::Entry)?;
    let mut text = String::new();
    std::io::Read::read_to_string(&mut file, &mut text).map_err(ZipReadError::Read)?;
    Ok(text)
}

/// Calls `zip::ZipArchive::new`, `ZipArchive::by_name` and `ZipFile::size`: the uncompressed
/// size recorded for the entry named `name`.
#[verifier::external_body]
pub(crate) fn zip_read_size(archive: &[u8], name: &str) -> (r: Result<u64, ZipReadError>)
    ensures
        r is Ok <==> zip_entry_size(archive@, name@) is Some,
        r matches Ok(size) ==> zip_entry_size(archive@, name@) == Some(size),
{
    let mut reader = zip::ZipArchive::new(std::io::Cursor::new(archive)).map_err(ZipReadError::Archive)?;
    let file = reader.by_name(name).map_err(ZipReadError::Entry)?;
    Ok(file.size())
}

/// Calls `zip::ZipArchive::new`, `ZipArchive::by_name` and `Read::read_to_end`: the bytes of
/// the entry named `name`.
#[verifier::external_body]
pub(crate) fn zip_read_bytes(archive: &[u8], name: &str) -> (r: Result<Vec<u8>, ZipReadError>)
    ensures
        r is Ok <==> zip_entry_bytes(archive@, name@) is Some,
        r matches Ok(bytes) ==> zip_entry_bytes(archive@, name@) == Some(bytes@),
{
    let mut reader = zip::ZipArchive::new(std::io::Cursor::new(archive)).map_err(ZipReadError::Archive)?;
    let mut file = reader.by_name(name).map_err(ZipReadError::Entry)?;
    let mut bytes = Vec::new();
    std::io::Read::read_to_end(&mut file, &mut bytes).map_err(ZipReadError::Read)?;
    Ok(bytes)
}

/// Calls `ZipError`'s `Display`: its message.
#[verifier::external_body]
pub(crate) fn zip_error_text(error: &zip::result::ZipError) -> String {
    error.to_string()
}

/// Calls `std::io::Error`'s `Display`: its message.
#[verifier::external_body]
pub(crate) fn io_error_text(error: &std::io::Error) -> String {
    error.to_string()
}

} // verus!
