use vstd::prelude::*;
use vstd::string::*;
use zip::result::ZipError;

verus! {

#[verifier::external_type_specification]
#[verifier::external_body]
pub struct ExZipError(ZipError);

/// How many entries the central directory of a zip archive lists.
pub uninterp spec fn zip_entry_count(archive: Seq<u8>) -> nat;

/// The name of entry `i` of a zip archive.
pub uninterp spec fn zip_entry_name(archive: Seq<u8>, i: nat) -> Seq<char>;

/// The decompressed contents of entry `i` of a zip archive.
pub uninterp spec fn zip_entry_data(archive: Seq<u8>, i: nat) -> Seq<u8>;

/// Relies on zip::ZipArchive::new, which reads the central directory, and
/// ZipArchive::len: the number of entries that directory lists.
#[verifier::external_body]
fn zip_len(archive: &Vec<u8>) -> (r: Result<usize, ZipError>)
    ensures
        r matches Ok(n) ==> n as nat == zip_entry_count(archive@),
{
    Ok(zip::ZipArchive::new(std::io::Cursor::new(archive.as_slice()))?.len())
}

/// Relies on zip::ZipArchive::by_index_raw and ZipFile::name: the name that
/// the central directory records for entry `i`. `by_index_raw` builds no
/// decompressing or decrypting reader; it fails on a position past the end or
/// a local header it cannot find, and unwraps nothing.
#[verifier::external_body]
fn zip_name(archive: &Vec<u8>, i: usize) -> (r: Result<String, ZipError>)
    ensures
        r matches Ok(name) ==> i < zip_entry_count(archive@) && name@ == zip_entry_name(
            archive@,
            i as nat,
        ),
{
    let mut zip = zip::ZipArchive::new(std::io::Cursor::new(archive.as_slice()))?;
    let name = zip.by_index_raw(i)?.name().to_string();
    Ok(name)
}

/// Relies on zip::ZipArchive::by_index_decrypt with an empty password and the
/// `Read` impl of ZipFile: the decompressed bytes of entry `i`. The password is
/// dropped for an entry that is not encrypted; the inner `InvalidPassword`
/// error becomes `ZipError::UnsupportedArchive`, so nothing is unwrapped.
#[verifier::external_body]
fn zip_data(archive: &Vec<u8>, i: usize) -> (r: Result<Vec<u8>, ZipError>)
    ensures
        r matches Ok(data) ==> i < zip_entry_count(archive@) && data@ == zip_entry_data(
            archive@,
            i as nat,
        ),
{
    let mut zip = zip::ZipArchive::new(std::io::Cursor::new(archive.as_slice()))?;
    let mut file = zip.by_index_decrypt(i, &[])?
        .map_err(|_| ZipError::UnsupportedArchive(ZipError::PASSWORD_REQUIRED))?;
    let mut data = Vec::new();
    std::io::Read::read_to_end(&mut file, &mut data)?;
    Ok(data)
}

/// Why no index document came out of an archive.
#[derive(Clone, Copy, Debug, PartialEq, Eq, Structural)]
pub enum IndexError {
    /// The bytes could not be read as a zip archive, or an entry could not be read.
    Archive,
    /// The archive holds no entry whose name ends in `.xml`.
    NoIndexDocument,
}

/// Entry `k` is the first entry of the archive whose name ends in `.xml`.
pub open spec fn is_first_index(archive: Seq<u8>, k: nat) -> bool {
    &&& k < zip_entry_count(archive)
    &&& is_index_name(zip_entry_name(archive, k))
    &&& forall|j: nat| j < k ==> !is_index_name(#[trigger] zip_entry_name(archive, j))
}

/// The contents of the index document in a zipped index: the first entry
/// whose name ends in `.xml`.
pub fn extract_index(archive: &Vec<u8>) -> (r: Result<Vec<u8>, IndexError>)
    ensures
        r matches Ok(data) ==> exists|k: nat|
            is_first_index(archive@, k) && data@ == #[trigger] zip_entry_data(archive@, k),
        r == Err::<Vec<u8>, IndexError>(IndexError::NoIndexDocument) ==> forall|k: nat|
            k < zip_entry_count(archive@) ==> !is_index_name(#[trigger] zip_entry_name(archive@, k)),
{
    let n = match zip_len(archive) {
        Ok(n) => n,
        Err(_) => return Err(IndexError::Archive),
    };
    let mut i: usize = 0;
    while i < n
        invariant
            n as nat == zip_entry_count(archive@),
            i <= n,
            forall|j: nat| j < i ==> !is_index_name(#[trigger] zip_entry_name(archive@, j)),
        decreases n - i,
    {
        let name = match zip_name(archive, i) {
            Ok(name) => name,
            Err(_) => return Err(IndexError::Archive),
        };
        if has_index_extension(name.as_str()) {
            return match zip_data(archive, i) {
                Ok(data) => {
                    assert(is_first_index(archive@, i as nat));
                    Ok(data)
                },
                Err(_) => Err(IndexError::Archive),
            };
        }
        i = i + 1;
    }
    Err(IndexError::NoIndexDocument)
}

/// The name carries the extension of the index document.
pub open spec fn is_index_name(name: Seq<char>) -> bool {
    name.len() >= 4 && name.subrange(name.len() - 4, name.len() as int) == seq!['.', 'x', 'm', 'l']
}

fn has_index_extension(name: &str) -> (r: bool)
    ensures
        r == is_index_name(name@),
{
    let n = name.unicode_len();
    if n < 4 {
        return false;
    }
    let r = name.get_char(n - 4) == '.' && name.get_char(n - 3) == 'x' && name.get_char(n - 2)
        == 'm' && name.get_char(n - 1) == 'l';
    let ghost tail = name@.subrange(n - 4, n as int);
    if r {
        assert(tail =~= seq!['.', 'x', 'm', 'l']);
    } else {
        assert(tail.len() == 4);
        assert(tail[0] == name@[n - 4] && tail[1] == name@[n - 3] && tail[2] == name@[n - 2]
            && tail[3] == name@[n - 1]);
    }
    r
}

} // verus!
