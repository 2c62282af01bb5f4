//! The record the drive keeps of a file or directory, and listings of such records.
use vstd::prelude::*;
use crate::text::same_text;

verus! {

/// A file or directory of the drive.
#[derive(Debug)]
pub struct QuarkFile {
    pub fid: String,
    pub file_name: String,
    pub pdir_fid: String,
    pub size: u64,
    pub format_type: String,
    pub status: i32,
    pub dir: bool,
    pub file: bool,
    pub content_hash: Option<String>,
    pub created_at: u64,
    pub updated_at: u64,
    pub download_url: Option<String>,
    /// Path of the directory that lists this file, once it is known.
    pub parent_path: Option<String>,
}

/// What a [`QuarkFile`] says, as mathematical values.
pub struct FileView {
    pub fid: Seq<char>,
    pub file_name: Seq<char>,
    pub pdir_fid: Seq<char>,
    pub size: u64,
    pub format_type: Seq<char>,
    pub status: i32,
    pub dir: bool,
    pub file: bool,
    pub content_hash: Option<Seq<char>>,
    pub created_at: u64,
    pub updated_at: u64,
    pub download_url: Option<Seq<char>>,
    pub parent_path: Option<Seq<char>>,
}

/// The text of an optional string.
pub open spec fn opt_text(o: Option<String>) -> Option<Seq<char>> {
    match o {
        Some(s) => Some(s@),
        None => None,
    }
}

impl View for QuarkFile {
    type V = FileView;

    open spec fn view(&self) -> FileView {
        FileView {
            fid: self.fid@,
            file_name: self.file_name@,
            pdir_fid: self.pdir_fid@,
            size: self.size,
            format_type: self.format_type@,
            status: self.status,
            dir: self.dir,
            file: self.file,
            content_hash: opt_text(self.content_hash),
            created_at: self.created_at,
            updated_at: self.updated_at,
            download_url: opt_text(self.download_url),
            parent_path: opt_text(self.parent_path),
        }
    }
}

impl Clone for QuarkFile {
    fn clone(&self) -> (res: Self)
        ensures
            res == *self,
    {
        QuarkFile {
            fid: self.fid.clone(),
            file_name: self.file_name.clone(),
            pdir_fid: self.pdir_fid.clone(),
            size: self.size,
            format_type: self.format_type.clone(),
            status: self.status,
            dir: self.dir,
            file: self.file,
            content_hash: self.content_hash.clone(),
            created_at: self.created_at,
            updated_at: self.updated_at,
            download_url: self.download_url.clone(),
            parent_path: self.parent_path.clone(),
        }
    }
}

/// The record of the drive's top directory.
pub open spec fn root_view() -> FileView {
    FileView {
        fid: "0"@,
        file_name: "/"@,
        pdir_fid: ""@,
        size: 0,
        format_type: ""@,
        status: 1,
        dir: true,
        file: false,
        content_hash: None,
        created_at: 0,
        updated_at: 0,
        download_url: None,
        parent_path: None,
    }
}

impl QuarkFile {
    /// The record of the drive's top directory.
    pub fn new_root() -> (res: Self)
        ensures
            res@ == root_view(),
    {
        QuarkFile {
            fid: "0".to_owned(),
            file_name: "/".to_owned(),
            pdir_fid: "".to_owned(),
            size: 0,
            format_type: "".to_owned(),
            status: 1,
            dir: true,
            file: false,
            content_hash: None,
            created_at: 0,
            updated_at: 0,
            download_url: None,
            parent_path: None,
        }
    }
}

/// What the records of a listing say.
pub open spec fn listing_view(files: Seq<QuarkFile>) -> Seq<FileView> {
    files.map_values(|f: QuarkFile| f@)
}

/// What an optional listing says.
pub open spec fn opt_listing_view(files: Option<Vec<QuarkFile>>) -> Option<Seq<FileView>> {
    match files {
        Some(v) => Some(listing_view(v@)),
        None => None,
    }
}

/// A copy of a listing.
pub fn copy_listing(files: &Vec<QuarkFile>) -> (res: Vec<QuarkFile>)
    ensures
        res@ == files@,
{
    let mut res: Vec<QuarkFile> = Vec::new();
    let mut i: usize = 0;
    while i < files.len()
        invariant
            i <= files.len(),
            res@ == files@.take(i as int),
        decreases files.len() - i,
    {
        res.push(files[i].clone());
        assert(files@.take(i + 1) =~= files@.take(i as int).push(files@[i as int]));
        i += 1;
    }
    assert(files@.take(i as int) =~= files@);
    res
}

/// The first record with the given name.
pub open spec fn first_named(files: Seq<FileView>, name: Seq<char>) -> Option<FileView>
    decreases files.len(),
{
    if files.len() == 0 {
        None
    } else if files[0].file_name == name {
        Some(files[0])
    } else {
        first_named(files.skip(1), name)
    }
}

/// Whether some record has the given name.
pub open spec fn has_name(files: Seq<FileView>, name: Seq<char>) -> bool {
    exists|i: int| 0 <= i < files.len() && (#[trigger] files[i]).file_name == name
}

/// Whether position `i` holds the first record with the given name.
pub open spec fn first_named_at(files: Seq<FileView>, name: Seq<char>, i: int) -> bool {
    &&& 0 <= i < files.len()
    &&& files[i].file_name == name
    &&& forall|j: int| 0 <= j < i ==> (#[trigger] files[j]).file_name != name
}

/// [`first_named`] finds the record at the first position with that name, and finds none
/// only where there is none.
pub proof fn lemma_first_named(files: Seq<FileView>, name: Seq<char>)
    ensures
        first_named(files, name) is Some <==> has_name(files, name),
        forall|i: int| #[trigger]
            first_named_at(files, name, i) ==> first_named(files, name) == Some(files[i]),
    decreases files.len(),
{
    if files.len() > 0 {
        let rest = files.skip(1);
        lemma_first_named(rest, name);
        assert forall|i: int| 0 <= i < rest.len() implies rest[i] == #[trigger] files[i + 1] by {}
        if files[0].file_name != name {
            if has_name(files, name) {
                let k = choose|k: int| 0 <= k < files.len() && (#[trigger] files[k]).file_name == name;
                assert(rest[k - 1].file_name == name);
            }
            if has_name(rest, name) {
                let k = choose|k: int| 0 <= k < rest.len() && (#[trigger] rest[k]).file_name == name;
                assert(files[k + 1].file_name == name);
            }
            assert forall|i: int| #[trigger] first_named_at(files, name, i) implies first_named(
                files,
                name,
            ) == Some(files[i]) by {
                assert forall|j: int| 0 <= j < i - 1 implies (#[trigger] rest[j]).file_name != name by {
                    assert(files[j + 1].file_name != name);
                }
                assert(rest[i - 1] == files[i]);
                assert(first_named_at(rest, name, i - 1));
            }
        } else {
            assert(files[0].file_name == name);
        }
    }
}

/// Position of the first record with the given name.
pub fn position_named(files: &Vec<QuarkFile>, name: &str) -> (res: Option<usize>)
    ensures
        res matches Some(i) ==> first_named_at(listing_view(files@), name@, i as int),
        res is None ==> !has_name(listing_view(files@), name@),
{
    let mut i: usize = 0;
    while i < files.len()
        invariant
            i <= files.len(),
            forall|j: int|
                0 <= j < i ==> (#[trigger] listing_view(files@)[j]).file_name != name@,
        decreases files.len() - i,
    {
        if same_text(&files[i].file_name, name) {
            return Some(i);
        }
        i += 1;
    }
    None
}

/// The first record with the given name.
pub fn find_named(files: &Vec<QuarkFile>, name: &str) -> (res: Option<QuarkFile>)
    ensures
        res is Some == first_named(listing_view(files@), name@) is Some,
        res matches Some(f) ==> Some(f@) == first_named(listing_view(files@), name@)
            && files@.contains(f),
{
    proof {
        lemma_first_named(listing_view(files@), name@);
    }
    match position_named(files, name) {
        Some(i) => Some(files[i].clone()),
        None => None,
    }
}

/// A record says what it holds, field by field.
pub proof fn law_record_says_what_it_holds(f: QuarkFile)
    ensures
        f@.fid == f.fid@,
        f@.file_name == f.file_name@,
        f@.pdir_fid == f.pdir_fid@,
        f@.size == f.size,
        f@.format_type == f.format_type@,
        f@.status == f.status,
        f@.dir == f.dir,
        f@.file == f.file,
        f@.created_at == f.created_at,
        f@.updated_at == f.updated_at,
        f@.content_hash is Some == f.content_hash is Some,
        f.content_hash matches Some(hash) ==> f@.content_hash == Some(hash@),
        f@.download_url is Some == f.download_url is Some,
        f.download_url matches Some(url) ==> f@.download_url == Some(url@),
        f@.parent_path is Some == f.parent_path is Some,
        f.parent_path matches Some(path) ==> f@.parent_path == Some(path@),
{
}

/// A listing says what its records say, in their order.
pub proof fn law_listing_says_what_its_records_say(files: Vec<QuarkFile>, i: int)
    ensures
        listing_view(files@).len() == files@.len(),
        0 <= i < files@.len() ==> listing_view(files@)[i] == files@[i]@,
        opt_listing_view(Some(files)) == Some(listing_view(files@)),
        opt_listing_view(None) is None,
{
}

/// The first record of a name is the one that no other of that name stands before, and there is
/// one exactly if some record has the name.
pub proof fn law_first_of_a_name(files: Seq<FileView>, name: Seq<char>, i: int)
    ensures
        0 <= i < files.len() && files[i].file_name == name && (forall|j: int|
            0 <= j < i ==> (#[trigger] files[j]).file_name != name) ==> first_named(files, name)
            == Some(files[i]) && first_named_at(files, name, i) && has_name(files, name),
        (forall|j: int| 0 <= j < files.len() ==> (#[trigger] files[j]).file_name != name)
            ==> first_named(files, name) is None && !has_name(files, name) && !first_named_at(
            files,
            name,
            i,
        ),
{
    lemma_first_named(files, name);
    if 0 <= i < files.len() && files[i].file_name == name && (forall|j: int|
        0 <= j < i ==> (#[trigger] files[j]).file_name != name) {
        assert(first_named_at(files, name, i));
    }
}

}
