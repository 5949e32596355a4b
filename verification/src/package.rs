//! Loading a package from the bytes of its archive: a zip container whose
//! members `metadata.xml` and `files.xml` hold the two documents.

use crate::error::{result_view, Error, ErrorView};
use crate::files::{lemma_well_formed_files, well_formed_files, FileView, Files};
use crate::metadata::{lemma_well_formed_metadata, well_formed_metadata, Pisi, PisiView};
use crate::schema::views;
use crate::xml::{xml_document, XmlNode, XmlTree};
use vstd::prelude::*;
use vstd::utf8::*;

verus! {

/// Why a member of an archive could not be had.
#[derive(Clone, Copy, Debug, PartialEq, Eq, Structural)]
pub enum MemberFault {
    /// The archive has no member of the name.
    NotFound,
    /// The bytes are no zip archive, or the member cannot be unpacked (it
    /// is damaged, encrypted, or packed in a way that is not supported).
    Unreadable,
}

/// The content of the member `name` of the zip archive `archive`, as the
/// `zip` crate reads it.
pub uninterp spec fn zip_member(archive: Seq<u8>, name: Seq<char>) -> Result<Seq<u8>, MemberFault>;

/// Opens `archive` with `zip::ZipArchive::new` over a `std::io::Cursor`,
/// looks the member up with `ZipArchive::by_name_decrypt` and an empty
/// password (for a member that is not encrypted this is `by_name`, which
/// would unwrap a refusal that a malformed encryption field provokes) and
/// unpacks it to its end with `Read::read_to_end`. The error
/// `ZipError::FileNotFound` becomes `NotFound`, every other failure
/// `Unreadable`. The contract claims only that the outcome is a function of
/// the archive's bytes and of the name, which it names `zip_member`.
#[verifier::external_body]
fn read_member(archive: &[u8], name: &str) -> (r: Result<Vec<u8>, MemberFault>)
    ensures
        match r {
            Ok(bytes) => zip_member(archive@, name@) == Ok::<Seq<u8>, MemberFault>(bytes@),
            Err(fault) => zip_member(archive@, name@) == Err::<Seq<u8>, MemberFault>(fault),
        },
{
    let mut members = match zip::ZipArchive::new(std::io::Cursor::new(archive)) {
        Ok(members) => members,
        Err(_) => return Err(MemberFault::Unreadable),
    };
    let mut member = match members.by_name_decrypt(name, &[]) {
        Ok(Ok(member)) => member,
        Err(zip::result::ZipError::FileNotFound) => return Err(MemberFault::NotFound),
        _ => return Err(MemberFault::Unreadable),
    };
    let mut bytes = Vec::new();
    match std::io::Read::read_to_end(&mut member, &mut bytes) {
        Ok(_) => Ok(bytes),
        Err(_) => Err(MemberFault::Unreadable),
    }
}

/// Calls `String::from_utf8`: the bytes become a string exactly where they
/// are valid UTF-8, and the string is then made of those same bytes.
#[verifier::external_body]
fn string_from_utf8(bytes: Vec<u8>) -> (r: Option<String>)
    ensures
        r is Some <==> valid_utf8(bytes@),
        r matches Some(text) ==> encode_utf8(text@) == bytes@,
{
    match String::from_utf8(bytes) {
        Ok(text) => Some(text),
        Err(_) => None,
    }
}

/// The text of a member, given what became of reading it from the archive.
pub open spec fn spec_member_text(name: Seq<char>, member: Result<Seq<u8>, MemberFault>) -> Result<
    Seq<char>,
    ErrorView,
> {
    match member {
        Err(MemberFault::NotFound) => Err(ErrorView::MemberNotFound(name)),
        Err(MemberFault::Unreadable) => Err(ErrorView::Container),
        Ok(bytes) => if valid_utf8(bytes) {
            Ok(decode_utf8(bytes))
        } else {
            Err(ErrorView::Decode(name))
        },
    }
}

/// The root element of the document that the member `name` of `archive`
/// holds.
pub open spec fn spec_member_tree(archive: Seq<u8>, name: Seq<char>) -> Result<
    XmlTree,
    ErrorView,
> {
    match spec_member_text(name, zip_member(archive, name)) {
        Err(e) => Err(e),
        Ok(text) => match xml_document(text) {
            Some(tree) => Ok(tree),
            None => Err(ErrorView::Decode(name)),
        },
    }
}

/// The package that two documents describe: the metadata is mapped first,
/// and its error comes first.
pub open spec fn spec_from_trees(metadata: XmlTree, files: XmlTree) -> Result<
    EopkgPackageView,
    ErrorView,
> {
    match (Pisi::spec_try_from(metadata), Files::spec_try_from(files)) {
        (Err(e), _) => Err(e),
        (Ok(_), Err(e)) => Err(e),
        (Ok(metadata), Ok(files)) => Ok(EopkgPackageView { metadata, files }),
    }
}

/// The package that an archive holds. The member `metadata.xml` is read,
/// parsed and mapped first, then the member `files.xml`; the first step
/// that fails decides the error, and there is no package without both.
pub open spec fn spec_load(archive: Seq<u8>) -> Result<EopkgPackageView, ErrorView> {
    match spec_member_tree(archive, "metadata.xml"@) {
        Err(e) => Err(e),
        Ok(tree) => match Pisi::spec_try_from(tree) {
            Err(e) => Err(e),
            Ok(metadata) => match spec_member_tree(archive, "files.xml"@) {
                Err(e) => Err(e),
                Ok(tree) => match Files::spec_try_from(tree) {
                    Err(e) => Err(e),
                    Ok(files) => Ok(EopkgPackageView { metadata, files }),
                },
            },
        },
    }
}

/// What loading an archive leaves out on its way: the malformed entries of
/// its metadata, where the metadata document can be had.
pub open spec fn spec_diagnostics(archive: Seq<u8>) -> Seq<ErrorView> {
    match spec_member_tree(archive, "metadata.xml"@) {
        Ok(tree) => Pisi::spec_rejected_entries(tree),
        Err(_) => Seq::empty(),
    }
}

/// A package: its metadata and the list of its files.
#[derive(Debug, PartialEq, Eq)]
pub struct EopkgPackage {
    metadata: Pisi,
    files: Files,
}

/// The mathematical value of an [`EopkgPackage`].
pub ghost struct EopkgPackageView {
    pub metadata: PisiView,
    pub files: Seq<FileView>,
}

impl View for EopkgPackage {
    type V = EopkgPackageView;

    closed spec fn view(&self) -> EopkgPackageView {
        EopkgPackageView { metadata: self.metadata@, files: self.files@ }
    }
}

impl EopkgPackage {
    /// Turns what became of reading the member `name` into its text.
    pub fn member_text(name: &str, member: Result<Vec<u8>, MemberFault>) -> (r: Result<
        String,
        Error,
    >)
        ensures
            result_view(r) == spec_member_text(
                name@,
                match member {
                    Ok(bytes) => Ok(bytes@),
                    Err(fault) => Err(fault),
                },
            ),
    {
        match member {
            Err(MemberFault::NotFound) => Err(Error::MemberNotFound(name.to_owned())),
            Err(MemberFault::Unreadable) => Err(Error::Container),
            Ok(bytes) => {
                let ghost content = bytes@;
                match string_from_utf8(bytes) {
                    Some(text) => {
                        proof {
                            encode_utf8_decode_utf8(text@);
                        }
                        Ok(text)
                    },
                    None => Err(Error::Decode(name.to_owned())),
                }
            },
        }
    }

    /// Reads the member `name` of `archive` and parses the document in it.
    pub fn member_tree(archive: &[u8], name: &str) -> (r: Result<XmlNode, Error>)
        ensures
            result_view(r) == spec_member_tree(archive@, name@),
    {
        let text = EopkgPackage::member_text(name, read_member(archive, name))?;
        match XmlNode::parse(text.as_str()) {
            Some(tree) => Ok(tree),
            None => Err(Error::Decode(name.to_owned())),
        }
    }

    /// Maps the root elements of the two documents of a package.
    pub fn from_trees(metadata: &XmlNode, files: &XmlNode) -> (r: Result<EopkgPackage, Error>)
        ensures
            result_view(r) == spec_from_trees(metadata@, files@),
    {
        let metadata = Pisi::try_from(metadata)?;
        let files = Files::try_from(files)?;
        Ok(EopkgPackage { metadata, files })
    }

    /// Loads the package whose archive file holds the bytes `file`.
    pub fn from_file(file: &[u8]) -> (r: Result<EopkgPackage, Error>)
        ensures
            result_view(r) == spec_load(file@),
    {
        let tree = EopkgPackage::member_tree(file, "metadata.xml")?;
        let metadata = Pisi::try_from(&tree)?;
        let tree = EopkgPackage::member_tree(file, "files.xml")?;
        let files = Files::try_from(&tree)?;
        Ok(EopkgPackage { metadata, files })
    }

    /// Reports why each entry that [`EopkgPackage::from_file`] leaves out
    /// of the package is malformed.
    pub fn diagnostics(file: &[u8]) -> (r: Vec<Error>)
        ensures
            views(r@) == spec_diagnostics(file@),
    {
        match EopkgPackage::member_tree(file, "metadata.xml") {
            Ok(tree) => Pisi::rejected_entries(&tree),
            Err(_) => {
                let errors: Vec<Error> = Vec::new();
                proof {
                    assert(views(errors@) =~= Seq::empty());
                }
                errors
            },
        }
    }

    /// The metadata of the package.
    pub fn metadata(&self) -> (r: &Pisi)
        ensures
            r@ == self@.metadata,
    {
        &self.metadata
    }

    /// The files of the package.
    pub fn files(&self) -> (r: &Files)
        ensures
            r@ == self@.files,
    {
        &self.files
    }
}

/// Loading is a function of the archive's bytes: two loads of the same
/// bytes give results of the same value.
pub proof fn lemma_loads_agree(
    file: Seq<u8>,
    first: Result<EopkgPackage, Error>,
    second: Result<EopkgPackage, Error>,
)
    requires
        result_view(first) == spec_load(file),
        result_view(second) == spec_load(file),
    ensures
        result_view(first) == result_view(second),
{
}

/// An archive whose two members hold well-formed documents is loaded: the
/// package is what the two documents describe, and nothing is left out.
pub proof fn lemma_well_formed_archive_loads(file: Seq<u8>, metadata: XmlTree, files: XmlTree)
    requires
        spec_member_tree(file, "metadata.xml"@) == Ok::<XmlTree, ErrorView>(metadata),
        spec_member_tree(file, "files.xml"@) == Ok::<XmlTree, ErrorView>(files),
        well_formed_metadata(metadata),
        well_formed_files(files),
    ensures
        spec_load(file) is Ok,
        spec_load(file) == spec_from_trees(metadata, files),
        Pisi::spec_try_from(metadata) == Ok::<PisiView, ErrorView>(spec_load(file)->Ok_0.metadata),
        Files::spec_try_from(files) == Ok::<Seq<FileView>, ErrorView>(spec_load(file)->Ok_0.files),
        spec_diagnostics(file).len() == 0,
{
    lemma_well_formed_metadata(metadata);
    lemma_well_formed_files(files);
}

/// There is no partial package: a package that is loaded holds the whole
/// metadata and the whole file list of its archive.
pub proof fn lemma_no_partial_package(file: Seq<u8>)
    ensures
        spec_load(file) matches Ok(package) ==> (spec_member_tree(file, "metadata.xml"@) matches Ok(
            tree,
        ) && Pisi::spec_try_from(tree) == Ok::<PisiView, ErrorView>(package.metadata)) && (
        spec_member_tree(file, "files.xml"@) matches Ok(tree) && Files::spec_try_from(tree) == Ok::<
            Seq<FileView>,
            ErrorView,
        >(package.files)),
{
}

/// An archive without the member `metadata.xml` is refused for that, and
/// nothing is mapped. An archive without the member `files.xml` is refused
/// too: for that, where its metadata can be read and mapped, and else for
/// what is wrong with its metadata.
pub proof fn lemma_missing_member(file: Seq<u8>)
    ensures
        zip_member(file, "metadata.xml"@) == Err::<Seq<u8>, MemberFault>(MemberFault::NotFound)
            ==> spec_load(file) == Err::<EopkgPackageView, ErrorView>(
            ErrorView::MemberNotFound("metadata.xml"@),
        ),
        zip_member(file, "files.xml"@) == Err::<Seq<u8>, MemberFault>(MemberFault::NotFound)
            ==> spec_load(file) is Err,
        zip_member(file, "files.xml"@) == Err::<Seq<u8>, MemberFault>(MemberFault::NotFound) && (
        spec_member_tree(file, "metadata.xml"@) matches Ok(tree) && Pisi::spec_try_from(tree) is Ok)
            ==> spec_load(file) == Err::<EopkgPackageView, ErrorView>(
            ErrorView::MemberNotFound("files.xml"@),
        ),
{
}

} // verus!
