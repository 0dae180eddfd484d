//! Reading a zip-format package bundle held in memory.
use vstd::prelude::*;
use std::io::Cursor;
use zip::result::ZipError;
use zip::ZipArchive;
use crate::entry_path::views;

verus! {

#[verifier::external_type_specification]
#[verifier::external_body]
#[verifier::reject_recursive_types(T)]
pub struct ExCursor<T>(Cursor<T>);

#[verifier::external_type_specification]
#[verifier::external_body]
#[verifier::reject_recursive_types(R)]
pub struct ExZipArchive<R>(ZipArchive<R>);

#[verifier::external_type_specification]
#[verifier::external_body]
pub struct ExZipError(ZipError);

/// The stored (unsanitized) name of each entry of an archive, by index.
pub uninterp spec fn stored_names(a: ZipArchive<Cursor<Vec<u8>>>) -> Seq<Seq<char>>;

/// The decompressed contents of each entry of an archive (opened with the
/// empty password), by index.
pub uninterp spec fn stored_contents(a: ZipArchive<Cursor<Vec<u8>>>) -> Seq<Seq<u8>>;

/// For each entry, whether its local header can be located, so that its
/// stored name can be handed out.
pub uninterp spec fn readable_names(a: ZipArchive<Cursor<Vec<u8>>>) -> Seq<bool>;

/// For each entry, whether its data, opened with the empty password, can be
/// decompressed in full and matches its CRC.
pub uninterp spec fn readable_contents(a: ZipArchive<Cursor<Vec<u8>>>) -> Seq<bool>;

/// Whether the zip reader accepts these bytes as an archive (its central
/// directory can be found and parsed).
pub uninterp spec fn zip_opens(bytes: Seq<u8>) -> bool;

/// Relies on `ZipArchive::new`, which reads the central directory of the
/// bundle held in memory, so the outcome depends on the bytes alone; the
/// archive then has one stored name and one content per entry.
#[verifier::external_body]
fn zip_open(bytes: Vec<u8>) -> (r: Result<ZipArchive<Cursor<Vec<u8>>>, ZipError>)
    ensures
        r is Ok <==> zip_opens(bytes@),
        r matches Ok(a) ==> {
            &&& stored_contents(a).len() == stored_names(a).len()
            &&& readable_names(a).len() == stored_names(a).len()
            &&& readable_contents(a).len() == stored_names(a).len()
        },
{
    ZipArchive::new(Cursor::new(bytes))
}

/// Relies on `ZipArchive::len`: the number of entries in the central directory.
#[verifier::external_body]
fn zip_len(a: &ZipArchive<Cursor<Vec<u8>>>) -> (r: usize)
    ensures
        r == stored_names(*a).len(),
{
    a.len()
}

/// Relies on `ZipArchive::by_index_raw` and `ZipFile::name`: the stored name of
/// entry `i`, failing when the index is out of range or the entry's local
/// header cannot be located. Only the reader's position changes.
#[verifier::external_body]
fn zip_entry_name(a: &mut ZipArchive<Cursor<Vec<u8>>>, i: usize) -> (r: Result<String, ZipError>)
    ensures
        stored_names(*final(a)) == stored_names(*old(a)),
        stored_contents(*final(a)) == stored_contents(*old(a)),
        readable_names(*final(a)) == readable_names(*old(a)),
        readable_contents(*final(a)) == readable_contents(*old(a)),
        r is Ok <==> i < stored_names(*old(a)).len() && readable_names(*old(a))[i as int],
        r matches Ok(s) ==> i < stored_names(*old(a)).len() && s@ == stored_names(*old(a))[i as int],
{
    a.by_index_raw(i).map(|f| f.name().to_string())
}

/// Relies on `ZipArchive::by_index_decrypt` with the empty password and
/// `Read::read_to_end` on the entry: the whole decompressed contents of entry
/// `i`, checked against its CRC. A plain entry is read as it is; an entry that
/// needs another password gives an error (`by_index` would panic on some such
/// entries). It fails when the index is out of range or the data cannot be
/// read in full. Only the reader's position changes.
#[verifier::external_body]
fn zip_entry_contents(a: &mut ZipArchive<Cursor<Vec<u8>>>, i: usize) -> (r: Result<Vec<u8>, ZipError>)
    ensures
        stored_names(*final(a)) == stored_names(*old(a)),
        stored_contents(*final(a)) == stored_contents(*old(a)),
        readable_names(*final(a)) == readable_names(*old(a)),
        readable_contents(*final(a)) == readable_contents(*old(a)),
        r is Ok <==> i < stored_contents(*old(a)).len() && readable_contents(*old(a))[i as int],
        r matches Ok(d) ==> i < stored_contents(*old(a)).len() && d@ == stored_contents(*old(a))[i as int],
{
    let mut data = Vec::new();
    match a.by_index_decrypt(i, &[])? {
        Ok(mut file) => {
            std::io::Read::read_to_end(&mut file, &mut data)?;
            Ok(data)
        },
        Err(_) => Err(ZipError::UnsupportedArchive(ZipError::PASSWORD_REQUIRED)),
    }
}

/// Why a bundle could not be read.
#[derive(Clone, Copy, Debug, PartialEq, Eq, Structural)]
pub enum ArchiveError {
    /// The bytes are not a readable zip container.
    Open,
    /// An entry could not be read or decompressed.
    Entry,
}

/// A bundle opened from its bytes.
pub struct Archive {
    zip: ZipArchive<Cursor<Vec<u8>>>,
}

impl Archive {
    pub closed spec fn names(&self) -> Seq<Seq<char>> {
        stored_names(self.zip)
    }

    pub closed spec fn contents(&self) -> Seq<Seq<u8>> {
        stored_contents(self.zip)
    }

    /// Which entries' names can be read.
    pub closed spec fn names_readable(&self) -> Seq<bool> {
        readable_names(self.zip)
    }

    /// Which entries' contents can be read.
    pub closed spec fn contents_readable(&self) -> Seq<bool> {
        readable_contents(self.zip)
    }

    pub closed spec fn wf(&self) -> bool {
        &&& self.contents().len() == self.names().len()
        &&& self.names_readable().len() == self.names().len()
        &&& self.contents_readable().len() == self.names().len()
    }

    /// Opens a bundle; fails with `Open` exactly when the bytes are not a zip
    /// container the reader accepts.
    pub fn open(bytes: Vec<u8>) -> (r: Result<Archive, ArchiveError>)
        ensures
            r is Ok <==> zip_opens(bytes@),
            r matches Ok(a) ==> a.wf(),
            r matches Err(e) ==> e == ArchiveError::Open,
    {
        match zip_open(bytes) {
            Ok(zip) => Ok(Archive { zip }),
            Err(_) => Err(ArchiveError::Open),
        }
    }

    /// The number of entries.
    pub fn len(&self) -> (r: usize)
        ensures
            r == self.names().len(),
    {
        zip_len(&self.zip)
    }

    /// The stored names of all entries, in archive order; fails with `Entry`
    /// exactly when the name of some entry cannot be read.
    pub fn entry_names(&mut self) -> (r: Result<Vec<String>, ArchiveError>)
        requires
            old(self).wf(),
        ensures
            final(self).wf(),
            final(self).names() == old(self).names(),
            final(self).contents() == old(self).contents(),
            final(self).names_readable() == old(self).names_readable(),
            final(self).contents_readable() == old(self).contents_readable(),
            r is Ok <==> forall|j: int| 0 <= j < old(self).names().len() ==> old(self).names_readable()[j],
            r matches Ok(v) ==> views(v@) == old(self).names(),
            r matches Err(e) ==> e == ArchiveError::Entry,
    {
        let n = zip_len(&self.zip);
        let mut names: Vec<String> = Vec::new();
        let mut i: usize = 0;
        while i < n
            invariant
                n == self.names().len(),
                self.wf(),
                self.names() == old(self).names(),
                self.contents() == old(self).contents(),
                self.names_readable() == old(self).names_readable(),
                self.contents_readable() == old(self).contents_readable(),
                forall|j: int| 0 <= j < i ==> self.names_readable()[j],
                i <= n,
                names@.len() == i,
                views(names@) == self.names().subrange(0, i as int),
            decreases n - i,
        {
            match zip_entry_name(&mut self.zip, i) {
                Ok(name) => {
                    proof {
                        assert(views(names@.push(name)) =~= self.names().subrange(0, i + 1));
                    }
                    names.push(name);
                },
                Err(_) => {
                    return Err(ArchiveError::Entry);
                },
            }
            i = i + 1;
        }
        assert(self.names().subrange(0, n as int) == self.names());
        Ok(names)
    }

    /// The decompressed contents of entry `i`; fails with `Entry` exactly when
    /// `i` is out of range or that entry's data cannot be read.
    pub fn entry_contents(&mut self, i: usize) -> (r: Result<Vec<u8>, ArchiveError>)
        requires
            old(self).wf(),
        ensures
            final(self).wf(),
            final(self).names() == old(self).names(),
            final(self).contents() == old(self).contents(),
            final(self).names_readable() == old(self).names_readable(),
            final(self).contents_readable() == old(self).contents_readable(),
            r is Ok <==> i < old(self).names().len() && old(self).contents_readable()[i as int],
            r matches Ok(d) ==> i < old(self).contents().len() && d@ == old(self).contents()[i as int],
            r matches Err(e) ==> e == ArchiveError::Entry,
    {
        match zip_entry_contents(&mut self.zip, i) {
            Ok(d) => Ok(d),
            Err(_) => Err(ArchiveError::Entry),
        }
    }
}

} // verus!
