//! The file list of a package: one record for each file that the package
//! installs.

use crate::error::{result_view, Error, ErrorView};
use crate::schema::{
    collect, element, lemma_collect, lemma_collect_prefix_error, lemma_filter_step,
    lemma_results_step, views,
};
use crate::text::{spec_parse_octal, spec_parse_u32, str_eq};
use crate::xml::{lemma_view_parts, NodeKind, XmlNode, XmlTree};
use vstd::prelude::*;

verus! {

/// What kind of file a record describes.
#[derive(Clone, Copy, Debug, PartialEq, Eq, Structural)]
pub enum Filetype {
    Executable,
    Library,
    Data,
    Man,
    Doc,
}

impl View for Filetype {
    type V = Filetype;

    open spec fn view(&self) -> Filetype {
        *self
    }
}

impl Filetype {
    /// The token that stands for the file type in a file list.
    pub open spec fn spec_token(self) -> Seq<char> {
        match self {
            Filetype::Executable => "executable"@,
            Filetype::Library => "library"@,
            Filetype::Data => "data"@,
            Filetype::Man => "man"@,
            Filetype::Doc => "doc"@,
        }
    }

    /// The file type that `text` is the token of. The match is exact: case
    /// counts, and so does white space.
    pub open spec fn from_token(text: Seq<char>) -> Option<Filetype> {
        if text == "executable"@ {
            Some(Filetype::Executable)
        } else if text == "library"@ {
            Some(Filetype::Library)
        } else if text == "data"@ {
            Some(Filetype::Data)
        } else if text == "man"@ {
            Some(Filetype::Man)
        } else if text == "doc"@ {
            Some(Filetype::Doc)
        } else {
            None
        }
    }

    /// The file type that a `Type` element holds.
    pub open spec fn spec_try_from(node: XmlTree) -> Result<Filetype, ErrorView> {
        match node.text {
            None => Err(ErrorView::MissingField("Type"@)),
            Some(raw) => match Filetype::from_token(raw) {
                Some(file_type) => Ok(file_type),
                None => Err(ErrorView::UnknownFileType(raw)),
            },
        }
    }

    /// The token that stands for the file type in a file list.
    pub fn token(&self) -> (r: &'static str)
        ensures
            r@ == self.spec_token(),
    {
        match self {
            Filetype::Executable => "executable",
            Filetype::Library => "library",
            Filetype::Data => "data",
            Filetype::Man => "man",
            Filetype::Doc => "doc",
        }
    }

    /// Reads the file type that a `Type` element holds.
    pub fn try_from(node: &XmlNode) -> (r: Result<Filetype, Error>)
        ensures
            result_view(r) == Filetype::spec_try_from(node@),
    {
        let raw = match &node.text {
            Some(text) => text.as_str(),
            None => {
                return Err(Error::missing_field("Type"));
            },
        };
        if str_eq(raw, "executable") {
            Ok(Filetype::Executable)
        } else if str_eq(raw, "library") {
            Ok(Filetype::Library)
        } else if str_eq(raw, "data") {
            Ok(Filetype::Data)
        } else if str_eq(raw, "man") {
            Ok(Filetype::Man)
        } else if str_eq(raw, "doc") {
            Ok(Filetype::Doc)
        } else {
            Err(Error::UnknownFileType(raw.to_owned()))
        }
    }
}

/// The five tokens are distinct: each names the file type it stands for,
/// and no other.
pub proof fn lemma_token_names_its_type(file_type: Filetype)
    ensures
        Filetype::from_token(file_type.spec_token()) == Some(file_type),
{
    reveal_strlit("executable");
    reveal_strlit("library");
    reveal_strlit("data");
    reveal_strlit("man");
    reveal_strlit("doc");
    assert("executable"@.len() == 10);
    assert("library"@.len() == 7);
    assert("data"@.len() == 4);
    assert("man"@.len() == 3);
    assert("doc"@.len() == 3);
    assert("man"@[0] == 'm');
    assert("doc"@[0] == 'd');
}

/// One file that the package installs.
#[derive(Debug, PartialEq, Eq)]
pub struct File {
    path: String,
    file_type: Filetype,
    uid: u32,
    gid: u32,
    mode: u32,
    hash: String,
}

/// The mathematical value of a [`File`].
pub ghost struct FileView {
    pub path: Seq<char>,
    pub file_type: Filetype,
    pub uid: u32,
    pub gid: u32,
    pub mode: u32,
    pub hash: Seq<char>,
}

impl View for File {
    type V = FileView;

    closed spec fn view(&self) -> FileView {
        FileView {
            path: self.path@,
            file_type: self.file_type,
            uid: self.uid,
            gid: self.gid,
            mode: self.mode,
            hash: self.hash@,
        }
    }
}

/// The file type of a file record: what its first `Type` child holds.
pub open spec fn spec_file_type(node: XmlTree) -> Result<Filetype, ErrorView> {
    match node.required_child("Type"@) {
        Ok(child) => Filetype::spec_try_from(child),
        Err(e) => Err(e),
    }
}

/// The mapping of one file record, as a function on nodes.
pub open spec fn file_of() -> spec_fn(XmlTree) -> Result<FileView, ErrorView> {
    |node: XmlTree| File::spec_try_from(node)
}

impl File {
    /// The file that a file record describes. The fields are read in the
    /// order path, type, owner, group, mode, hash, and the first one that
    /// cannot be read decides the error.
    pub open spec fn spec_try_from(node: XmlTree) -> Result<FileView, ErrorView> {
        let path = node.required_child_text("Path"@);
        let file_type = spec_file_type(node);
        let uid = node.required_child_uint("Uid"@);
        let gid = node.required_child_uint("Gid"@);
        let mode = node.required_child_octal("Mode"@);
        let hash = node.required_child_text("Hash"@);
        if path is Err {
            Err(path->Err_0)
        } else if file_type is Err {
            Err(file_type->Err_0)
        } else if uid is Err {
            Err(uid->Err_0)
        } else if gid is Err {
            Err(gid->Err_0)
        } else if mode is Err {
            Err(mode->Err_0)
        } else if hash is Err {
            Err(hash->Err_0)
        } else {
            Ok(
                FileView {
                    path: path->Ok_0,
                    file_type: file_type->Ok_0,
                    uid: uid->Ok_0,
                    gid: gid->Ok_0,
                    mode: mode->Ok_0,
                    hash: hash->Ok_0,
                },
            )
        }
    }

    /// Reads one file record.
    pub fn try_from(node: &XmlNode) -> (r: Result<File, Error>)
        ensures
            result_view(r) == File::spec_try_from(node@),
    {
        let path = node.required_child_text("Path")?.to_owned();
        let file_type = Filetype::try_from(node.required_child("Type")?)?;
        let uid = node.required_child_uint("Uid")?;
        let gid = node.required_child_uint("Gid")?;
        let mode = node.required_child_octal("Mode")?;
        let hash = node.required_child_text("Hash")?.to_owned();
        Ok(File { path, file_type, uid, gid, mode, hash })
    }

    /// Where the file is installed.
    pub fn path(&self) -> (r: &str)
        ensures
            r@ == self@.path,
    {
        self.path.as_str()
    }

    /// What kind of file it is.
    pub fn file_type(&self) -> (r: Filetype)
        ensures
            r == self@.file_type,
    {
        self.file_type
    }

    /// The numeric id of the user that owns the file.
    pub fn uid(&self) -> (r: u32)
        ensures
            r == self@.uid,
    {
        self.uid
    }

    /// The numeric id of the group that owns the file.
    pub fn gid(&self) -> (r: u32)
        ensures
            r == self@.gid,
    {
        self.gid
    }

    /// The permission bits of the file.
    pub fn mode(&self) -> (r: u32)
        ensures
            r == self@.mode,
    {
        self.mode
    }

    /// The digest of the file's content.
    pub fn hash(&self) -> (r: &str)
        ensures
            r@ == self@.hash,
    {
        self.hash.as_str()
    }
}

/// The files that a package installs, in the order of the file list. There
/// is at least one.
#[derive(Debug, PartialEq, Eq)]
pub struct Files {
    files: Vec<File>,
}

impl View for Files {
    type V = Seq<FileView>;

    closed spec fn view(&self) -> Seq<FileView> {
        views(self.files@)
    }
}

impl Files {
    #[verifier::type_invariant]
    spec fn is_non_empty(self) -> bool {
        self.files.len() > 0
    }

    /// The file list that a `Files` element holds. The element must have
    /// the tag `Files`, at least one child element, and no child element of
    /// another tag than `File`; then the list is all or nothing.
    pub open spec fn spec_try_from(node: XmlTree) -> Result<Seq<FileView>, ErrorView> {
        let records = node.children.filter(element());
        if node.is_named("Files"@) && records.len() > 0 && (forall|i: int|
            0 <= i < records.len() ==> (#[trigger] records[i]).is_named("File"@)) {
            collect(records.map_values(file_of()))
        } else {
            Err(ErrorView::InvalidStructure)
        }
    }

    /// Reads the file list that a `Files` element holds.
    pub fn try_from(node: &XmlNode) -> (r: Result<Files, Error>)
        ensures
            result_view(r) == Files::spec_try_from(node@),
    {
        if !node.has_tag_name("Files") {
            return Err(Error::InvalidStructure);
        }
        let ghost all = node@.children.filter(element());
        let mut records: Vec<&XmlNode> = Vec::new();
        let mut i: usize = 0;
        while i < node.children.len()
            invariant
                i <= node.children.len(),
                all == node@.children.filter(element()),
                views(records@) == node@.children.take(i as int).filter(element()),
                forall|k: int|
                    0 <= k < records.len() ==> (#[trigger] views(records@)[k]).is_named(
                        "File"@,
                    ),
            decreases node.children.len() - i,
        {
            let child = &node.children[i];
            proof {
                lemma_view_parts(node);
                lemma_filter_step(node@.children, element(), i as int);
            }
            if child.is_element() {
                if !child.has_tag_name("File") {
                    proof {
                        node@.children.lemma_filter_contains(element(), i as int);
                        let k = choose|k: int| 0 <= k < all.len() && all[k] == child@;
                        assert(!all[k].is_named("File"@));
                    }
                    return Err(Error::InvalidStructure);
                }
                let ghost before = records@;
                records.push(child);
                assert(views(records@) =~= views(before).push(child@));
            }
            i += 1;
        }
        proof {
            lemma_view_parts(node);
            assert(node@.children.take(i as int) =~= node@.children);
        }
        if records.len() == 0 {
            return Err(Error::InvalidStructure);
        }
        let ghost results = all.map_values(file_of());
        let mut files: Vec<File> = Vec::new();
        let mut j: usize = 0;
        proof {
            assert(results.take(0).len() == 0);
            assert(views(files@) =~= Seq::empty());
        }
        while j < records.len()
            invariant
                j <= records.len(),
                views(records@) == all,
                results == all.map_values(file_of()),
                collect(results.take(j as int)) == Ok::<Seq<FileView>, ErrorView>(
                    views(files@),
                ),
                files.len() == j,
                Files::spec_try_from(node@) == collect(results),
            decreases records.len() - j,
        {
            proof {
                lemma_results_step(results, j as int);
                assert(results[j as int] == File::spec_try_from(records[j as int]@));
            }
            match File::try_from(records[j]) {
                Ok(file) => {
                    let ghost before = files@;
                    files.push(file);
                    assert(views(files@) =~= views(before).push(file@));
                },
                Err(e) => {
                    proof {
                        lemma_collect_prefix_error(results, j as int + 1);
                    }
                    return Err(e);
                },
            }
            j += 1;
        }
        proof {
            assert(results.take(j as int) =~= results);
        }
        Ok(Files { files })
    }

    /// The files, in the order of the list: at least one.
    pub fn files(&self) -> (r: &Vec<File>)
        ensures
            views(r@) == self@,
            r.len() > 0,
    {
        proof {
            use_type_invariant(self);
        }
        &self.files
    }

    /// The number of files: at least one.
    pub fn len(&self) -> (r: usize)
        ensures
            r == self@.len(),
            r > 0,
    {
        proof {
            use_type_invariant(self);
        }
        self.files.len()
    }

    /// The file at position `index` of the list.
    pub fn get(&self, index: usize) -> (r: Option<&File>)
        ensures
            index < self@.len() ==> r is Some && r->Some_0@ == self@[index as int],
            index >= self@.len() ==> r is None,
    {
        if index < self.files.len() {
            Some(&self.files[index])
        } else {
            None
        }
    }
}

/// Whether an element is a file record as the format has it: a path, a
/// type that is one of the five tokens, an owner and a group in decimal, a
/// mode in octal, and a hash.
pub open spec fn well_formed_file(node: XmlTree) -> bool {
    &&& node.has_text("Path"@)
    &&& node.has_text("Type"@) && Filetype::from_token(node.text_under("Type"@)) is Some
    &&& node.has_text("Uid"@) && spec_parse_u32(node.text_under("Uid"@)) is Some
    &&& node.has_text("Gid"@) && spec_parse_u32(node.text_under("Gid"@)) is Some
    &&& node.has_text("Mode"@) && spec_parse_octal(node.text_under("Mode"@)) is Some
    &&& node.has_text("Hash"@)
}

/// Whether an element is a file list as the format has it: a `Files`
/// element whose child elements are file records, at least one.
pub open spec fn well_formed_files(node: XmlTree) -> bool {
    &&& node.is_named("Files"@)
    &&& node.children.filter(element()).len() > 0
    &&& forall|i: int|
        0 <= i < node.children.filter(element()).len() ==> (#[trigger] node.children.filter(
            element(),
        )[i]).is_named("File"@) && well_formed_file(node.children.filter(element())[i])
}

/// A well-formed file record is mapped, and each field is what its text
/// says: the path and the hash as they stand, the type by its token, the
/// owner and the group read in decimal and the mode in octal.
pub proof fn lemma_well_formed_file(node: XmlTree)
    requires
        well_formed_file(node),
    ensures
        File::spec_try_from(node) == Ok::<FileView, ErrorView>(
            FileView {
                path: node.text_under("Path"@),
                file_type: Filetype::from_token(node.text_under("Type"@))->Some_0,
                uid: spec_parse_u32(node.text_under("Uid"@))->Some_0,
                gid: spec_parse_u32(node.text_under("Gid"@))->Some_0,
                mode: spec_parse_octal(node.text_under("Mode"@))->Some_0,
                hash: node.text_under("Hash"@),
            },
        ),
{
}

/// A well-formed file list is mapped, record by record and in document
/// order.
pub proof fn lemma_well_formed_files(node: XmlTree)
    requires
        well_formed_files(node),
    ensures
        Files::spec_try_from(node) matches Ok(files) && files.len() == node.children.filter(
            element(),
        ).len() && (forall|i: int|
            0 <= i < files.len() ==> File::spec_try_from(node.children.filter(element())[i])
                == Ok::<FileView, ErrorView>(#[trigger] files[i])),
{
    let records = node.children.filter(element());
    let results = records.map_values(file_of());
    assert forall|i: int| 0 <= i < results.len() implies (#[trigger] results[i]) is Ok by {
        assert(records[i].is_named("File"@) && well_formed_file(records[i]));
        lemma_well_formed_file(records[i]);
    }
    lemma_collect(results);
    lemma_files_all_or_nothing(node);
}

/// The file list is all or nothing. One record that cannot be mapped makes
/// the whole list fail; and a list that is mapped holds every record of the
/// document, in document order, and at least one.
pub proof fn lemma_files_all_or_nothing(node: XmlTree)
    ensures
        (exists|i: int|
            0 <= i < node.children.filter(element()).len() && File::spec_try_from(
                #[trigger] node.children.filter(element())[i],
            ) is Err) ==> Files::spec_try_from(node) is Err,
        Files::spec_try_from(node) matches Ok(files) ==> files.len() > 0 && files.len()
            == node.children.filter(element()).len() && (forall|i: int|
            0 <= i < files.len() ==> File::spec_try_from(node.children.filter(element())[i])
                == Ok::<FileView, ErrorView>(#[trigger] files[i])),
{
    let records = node.children.filter(element());
    let results = records.map_values(file_of());
    lemma_collect(results);
    if Files::spec_try_from(node) is Ok {
        assert forall|i: int| 0 <= i < records.len() implies File::spec_try_from(
            #[trigger] records[i],
        ) is Ok by {
            assert(results[i] is Ok);
        }
        let files = Files::spec_try_from(node)->Ok_0;
        assert forall|i: int| 0 <= i < files.len() implies File::spec_try_from(records[i])
            == Ok::<FileView, ErrorView>(#[trigger] files[i]) by {
            assert(results[i] == Ok::<FileView, ErrorView>(files[i]));
        }
    }
}

} // verus!
