use crate::text::{
    before_first, chars_of, find_from, remove_all, removed, same_text, starts_with, string_of,
    trim_range, trimmed,
};
use crate::nesting::{bencode_is_shallow, is_shallow_bencode};
use crate::utils::{file_extension, file_extension_of, file_stem, file_stem_of};
use lava_torrent::torrent::v1::Torrent;
use lava_torrent::LavaTorrentError;
use vstd::prelude::*;

verus! {

#[verifier::external_type_specification]
#[verifier::external_body]
pub struct ExLavaTorrentError(LavaTorrentError);

/// Why a download could not be set up or filed.
#[derive(Debug, Clone)]
pub enum DownloaderError {
    InitError,
    NoFileToRename,
    FileNameError { name: String },
}

/// The mathematical content of a `DownloaderError`.
pub enum Failure {
    InitError,
    NoFileToRename,
    FileNameError { name: Seq<char> },
}

impl View for DownloaderError {
    type V = Failure;

    open spec fn view(&self) -> Failure {
        match self {
            DownloaderError::InitError => Failure::InitError,
            DownloaderError::NoFileToRename => Failure::NoFileToRename,
            DownloaderError::FileNameError { name } => Failure::FileNameError { name: name@ },
        }
    }
}

impl Failure {
    /// What the error says in words.
    pub open spec fn text(self) -> Seq<char> {
        match self {
            Failure::InitError => "Failed to initialize downloader"@,
            Failure::NoFileToRename => "No file to rename"@,
            Failure::FileNameError { name } => "Failed to parse file name "@ + name,
        }
    }
}

impl DownloaderError {
    /// What the error says in words.
    pub fn message(&self) -> (r: String)
        ensures
            r@ == self@.text(),
    {
        match self {
            DownloaderError::InitError => "Failed to initialize downloader".to_owned(),
            DownloaderError::NoFileToRename => "No file to rename".to_owned(),
            DownloaderError::FileNameError { name } => {
                let mut r = "Failed to parse file name ".to_owned();
                r.append(name.as_str());
                r
            },
        }
    }
}

/// One file of a download job: its path within the job and its size in bytes.
#[derive(Debug, Clone)]
pub struct DownloadFileEntry {
    pub name: String,
    pub size: u64,
}

/// The mathematical content of a `DownloadFileEntry`.
pub struct FileEntry {
    pub name: Seq<char>,
    pub size: nat,
}

impl DeepView for DownloadFileEntry {
    type V = FileEntry;

    open spec fn deep_view(&self) -> FileEntry {
        FileEntry { name: self.name@, size: self.size as nat }
    }
}

/// A file to rename: its path within the job and the name it is to get.
#[derive(Debug, Clone, PartialEq, Eq)]
pub struct Rename {
    pub path: String,
    pub new_name: String,
}

/// The mathematical content of a `Rename`.
pub struct Renaming {
    pub path: Seq<char>,
    pub new_name: Seq<char>,
}

impl DeepView for Rename {
    type V = Renaming;

    open spec fn deep_view(&self) -> Renaming {
        Renaming { path: self.path@, new_name: self.new_name@ }
    }
}

/// What is to be done with the files of a finished job: which file is the
/// release itself, and the renames, that of the release first.
#[derive(Debug, Clone, PartialEq, Eq)]
pub struct RenamePlan {
    pub primary: String,
    pub renames: Vec<Rename>,
}

/// The mathematical content of a `RenamePlan`.
pub struct Plan {
    pub primary: Seq<char>,
    pub renames: Seq<Renaming>,
}

impl View for RenamePlan {
    type V = Plan;

    open spec fn view(&self) -> Plan {
        Plan { primary: self.primary@, renames: self.renames.deep_view() }
    }
}

/// The position of the largest file; of several of the largest size, the first.
pub open spec fn largest(files: Seq<FileEntry>) -> int
    decreases files.len(),
{
    if files.len() <= 1 {
        0
    } else {
        let before = largest(files.drop_last());
        if files.last().size > files[before].size {
            files.len() - 1
        } else {
            before
        }
    }
}

/// Whether a file goes along with the release: another file whose path
/// begins with the release's stem.
pub open spec fn goes_along(file: FileEntry, primary: Seq<char>, stem: Seq<char>) -> bool {
    file.name != primary && stem.is_prefix_of(file.name)
}

/// The paths of the files that go along with the release, in the job's order.
pub open spec fn siblings(files: Seq<FileEntry>, primary: Seq<char>, stem: Seq<char>) -> Seq<
    Seq<char>,
>
    decreases files.len(),
{
    if files.len() == 0 {
        Seq::empty()
    } else if goes_along(files.last(), primary, stem) {
        siblings(files.drop_last(), primary, stem).push(files.last().name)
    } else {
        siblings(files.drop_last(), primary, stem)
    }
}

/// The name that a file gets: the new base name, a dot, the extension it had.
pub open spec fn renamed(save_name: Seq<char>, extension: Seq<char>) -> Seq<char> {
    save_name + seq!['.'] + extension
}

/// The renames of the files at `paths`, or the first of them that has no
/// extension to keep.
pub open spec fn renamings(paths: Seq<Seq<char>>, save_name: Seq<char>) -> Result<
    Seq<Renaming>,
    Failure,
>
    decreases paths.len(),
{
    if paths.len() == 0 {
        Ok(Seq::empty())
    } else {
        match renamings(paths.drop_last(), save_name) {
            Err(e) => Err(e),
            Ok(before) => match file_extension_of(paths.last()) {
                None => Err(Failure::FileNameError { name: paths.last() }),
                Some(extension) => Ok(
                    before.push(
                        Renaming {
                            path: paths.last(),
                            new_name: renamed(save_name, extension),
                        },
                    ),
                ),
            },
        }
    }
}

/// The plan for the files of a job. The release is the largest file; the
/// files that go along with it are renamed with it, each keeping its
/// extension. No file at all, a release without a stem, or a chosen file
/// without an extension is an error.
pub open spec fn rename_plan(files: Seq<FileEntry>, save_name: Seq<char>) -> Result<Plan, Failure> {
    if files.len() == 0 {
        Err(Failure::NoFileToRename)
    } else {
        let primary = files[largest(files)].name;
        match file_stem_of(primary) {
            None => Err(Failure::FileNameError { name: primary }),
            Some(stem) => match renamings(
                seq![primary] + siblings(files, primary, stem),
                save_name,
            ) {
                Err(e) => Err(e),
                Ok(renames) => Ok(Plan { primary, renames }),
            },
        }
    }
}

/// The mathematical content of what `select_files` returns.
pub open spec fn selection(r: Result<RenamePlan, DownloaderError>) -> Result<Plan, Failure> {
    match r {
        Ok(plan) => Ok(plan@),
        Err(e) => Err(e@),
    }
}

/// The largest file is at least as large as any file, and larger than any
/// before it.
pub proof fn largest_is_first_maximum(files: Seq<FileEntry>)
    requires
        files.len() > 0,
    ensures
        0 <= largest(files) < files.len(),
        forall|j: int|
            0 <= j < files.len() ==> (#[trigger] files[j]).size <= files[largest(files)].size,
        forall|j: int|
            0 <= j < largest(files) ==> (#[trigger] files[j]).size < files[largest(files)].size,
    decreases files.len(),
{
    if files.len() > 1 {
        let head = files.drop_last();
        largest_is_first_maximum(head);
        let best = largest(files);
        assert(head[largest(head)] == files[largest(head)]);
        assert forall|j: int| 0 <= j < files.len() implies (#[trigger] files[j]).size
            <= files[best].size by {
            if j < head.len() {
                assert(head[j] == files[j]);
            }
        }
        assert forall|j: int| 0 <= j < best implies (#[trigger] files[j]).size
            < files[best].size by {
            assert(head[j] == files[j]);
        }
    }
}

/// The position of the largest file, the first of several.
pub fn find_largest(files: &Vec<DownloadFileEntry>) -> (r: usize)
    requires
        files.len() > 0,
    ensures
        r == largest(files.deep_view()),
        r < files.len(),
{
    let ghost all = files.deep_view();
    let mut best: usize = 0;
    let mut i: usize = 1;
    proof {
        assert(all.take(1).len() == 1);
    }
    while i < files.len()
        invariant
            1 <= i <= files.len(),
            all == files.deep_view(),
            best < i,
            best == largest(all.take(i as int)),
        decreases files.len() - i,
    {
        proof {
            assert(all.take(i + 1).drop_last() =~= all.take(i as int));
            assert(all.take(i as int)[best as int] == all[best as int]);
        }
        if files[i].size > files[best].size {
            best = i;
        }
        i += 1;
    }
    proof {
        assert(all.take(files.len() as int) =~= all);
    }
    best
}

fn find_siblings(files: &Vec<DownloadFileEntry>, primary: &str, stem: &str) -> (r: Vec<String>)
    ensures
        r.deep_view() == siblings(files.deep_view(), primary@, stem@),
{
    let ghost all = files.deep_view();
    let mut r: Vec<String> = Vec::new();
    let mut i: usize = 0;
    while i < files.len()
        invariant
            i <= files.len(),
            all == files.deep_view(),
            r.deep_view() == siblings(all.take(i as int), primary@, stem@),
        decreases files.len() - i,
    {
        proof {
            assert(all.take(i + 1).drop_last() =~= all.take(i as int));
        }
        let name = files[i].name.as_str();
        if !same_text(name, primary) && starts_with(name, stem) {
            let ghost before = r.deep_view();
            r.push(files[i].name.clone());
            assert(r.deep_view() =~= before.push(all[i as int].name));
        }
        i += 1;
    }
    proof {
        assert(all.take(files.len() as int) =~= all);
    }
    r
}

fn new_name(save_name: &str, extension: &str) -> (r: String)
    ensures
        r@ == renamed(save_name@, extension@),
{
    let mut r = save_name.to_owned();
    r.push('.');
    r.append(extension);
    assert(r@ =~= renamed(save_name@, extension@));
    r
}

fn plan_renames(paths: &Vec<String>, save_name: &str) -> (r: Result<Vec<Rename>, DownloaderError>)
    ensures
        match r {
            Ok(renames) => renamings(paths.deep_view(), save_name@) == Ok::<
                Seq<Renaming>,
                Failure,
            >(renames.deep_view()),
            Err(e) => renamings(paths.deep_view(), save_name@) == Err::<Seq<Renaming>, Failure>(
                e@,
            ),
        },
{
    let ghost all = paths.deep_view();
    let mut r: Vec<Rename> = Vec::new();
    let mut i: usize = 0;
    assert(r.deep_view() =~= Seq::<Renaming>::empty());
    while i < paths.len()
        invariant
            i <= paths.len(),
            all == paths.deep_view(),
            renamings(all.take(i as int), save_name@) == Ok::<Seq<Renaming>, Failure>(
                r.deep_view(),
            ),
        decreases paths.len() - i,
    {
        proof {
            assert(all.take(i + 1).drop_last() =~= all.take(i as int));
            renamings_fail_for_good(all, save_name@, i + 1);
        }
        match file_extension(paths[i].as_str()) {
            None => {
                return Err(DownloaderError::FileNameError { name: paths[i].clone() });
            },
            Some(extension) => {
                let ghost before = r.deep_view();
                r.push(Rename { path: paths[i].clone(), new_name: new_name(save_name, extension) });
                assert(r.deep_view() =~= before.push(
                    Renaming { path: all[i as int], new_name: renamed(save_name@, extension@) },
                ));
            },
        }
        i += 1;
    }
    proof {
        assert(all.take(paths.len() as int) =~= all);
    }
    Ok(r)
}

/// Once the renames of a first stretch of paths fail, those of the whole fail alike.
proof fn renamings_fail_for_good(paths: Seq<Seq<char>>, save_name: Seq<char>, k: int)
    requires
        0 <= k <= paths.len(),
    ensures
        renamings(paths.take(k), save_name) is Err ==> renamings(paths, save_name) == renamings(
            paths.take(k),
            save_name,
        ),
    decreases paths.len() - k,
{
    if k == paths.len() {
        assert(paths.take(k) =~= paths);
    } else {
        assert(paths.take(k + 1).drop_last() =~= paths.take(k));
        renamings_fail_for_good(paths, save_name, k + 1);
    }
}

/// Chooses among the files of a job the release and what goes along with
/// it, and says how each is to be renamed to `save_name`.
pub fn select_files(files: &Vec<DownloadFileEntry>, save_name: &str) -> (r: Result<
    RenamePlan,
    DownloaderError,
>)
    ensures
        selection(r) == rename_plan(files.deep_view(), save_name@),
{
    if files.len() == 0 {
        return Err(DownloaderError::NoFileToRename);
    }
    let primary = files[find_largest(files)].name.as_str();
    let stem = match file_stem(primary) {
        Some(stem) => stem,
        None => {
            return Err(DownloaderError::FileNameError { name: primary.to_owned() });
        },
    };
    let mut chosen: Vec<String> = Vec::new();
    chosen.push(primary.to_owned());
    let mut others = find_siblings(files, primary, stem);
    let ghost rest = others.deep_view();
    chosen.append(&mut others);
    assert(chosen.deep_view() =~= seq![primary@] + rest);
    match plan_renames(&chosen, save_name) {
        Err(e) => Err(e),
        Ok(renames) => Ok(RenamePlan { primary: primary.to_owned(), renames }),
    }
}

/// What holds of the renames of any paths: where they are planned, there
/// is one for each path, in order, and each keeps its file's extension;
/// where they fail, a path without an extension is named.
pub proof fn renamings_keep_extensions(paths: Seq<Seq<char>>, save_name: Seq<char>)
    ensures
        match renamings(paths, save_name) {
            Ok(renames) => {
                &&& renames.len() == paths.len()
                &&& forall|i: int|
                    0 <= i < paths.len() ==> {
                        &&& (#[trigger] renames[i]).path == paths[i]
                        &&& file_extension_of(paths[i]) is Some
                        &&& renames[i].new_name == renamed(
                            save_name,
                            file_extension_of(paths[i])->0,
                        )
                    }
            },
            Err(failure) => exists|i: int|
                0 <= i < paths.len() && file_extension_of(#[trigger] paths[i]) is None && failure
                    == (Failure::FileNameError { name: paths[i] }),
        },
    decreases paths.len(),
{
    if paths.len() > 0 {
        let head = paths.drop_last();
        renamings_keep_extensions(head, save_name);
        match renamings(head, save_name) {
            Ok(before) => {
                if file_extension_of(paths.last()) is None {
                    assert(paths[paths.len() - 1] == paths.last());
                }
            },
            Err(failure) => {
                let i = choose|i: int|
                    0 <= i < head.len() && file_extension_of(#[trigger] head[i]) is None && failure
                        == (Failure::FileNameError { name: head[i] });
                assert(paths[i] == head[i]);
            },
        }
    }
}

/// Of a job with one file, that file is the release and the only one
/// renamed; the plan fails only where the file has no extension.
pub proof fn single_file_is_primary(file: FileEntry, save_name: Seq<char>)
    ensures
        match rename_plan(seq![file], save_name) {
            Ok(plan) => {
                &&& plan.primary == file.name
                &&& file_extension_of(file.name) is Some
                &&& plan.renames == seq![
                    Renaming {
                        path: file.name,
                        new_name: renamed(save_name, file_extension_of(file.name)->0),
                    },
                ]
            },
            Err(failure) => {
                &&& file_extension_of(file.name) is None
                &&& failure == (Failure::FileNameError { name: file.name })
            },
        },
{
    let files = seq![file];
    assert(files.drop_last() =~= Seq::<FileEntry>::empty());
    match file_stem_of(file.name) {
        None => {},
        Some(stem) => {
            assert(files.last() == file);
            assert(!goes_along(files.last(), file.name, stem));
            assert(siblings(files.drop_last(), file.name, stem) =~= Seq::<Seq<char>>::empty());
            assert(siblings(files, file.name, stem) =~= Seq::<Seq<char>>::empty());
            let paths = seq![file.name] + siblings(files, file.name, stem);
            assert(paths =~= seq![file.name]);
            assert(paths.drop_last() =~= Seq::<Seq<char>>::empty());
            renamings_keep_extensions(paths, save_name);
            match renamings(paths, save_name) {
                Ok(renames) => {
                    assert(renames =~= seq![
                        Renaming {
                            path: file.name,
                            new_name: renamed(save_name, file_extension_of(file.name)->0),
                        },
                    ]);
                },
                Err(_) => {},
            }
        },
    }
}

/// What holds of every plan: the release is a file of the greatest size,
/// and no file before it is as large; it is renamed first; the files
/// renamed after it are those that go along with it, in the job's order.
pub proof fn plan_is_sound(files: Seq<FileEntry>, save_name: Seq<char>)
    ensures
        rename_plan(files, save_name) matches Ok(plan) ==> {
            let primary = files[largest(files)];
            let stem = file_stem_of(primary.name)->0;
            &&& files.len() > 0
            &&& plan.primary == primary.name
            &&& forall|j: int| 0 <= j < files.len() ==> (#[trigger] files[j]).size <= primary.size
            &&& forall|j: int| 0 <= j < largest(files) ==> (#[trigger] files[j]).size < primary.size
            &&& plan.renames.len() == 1 + siblings(files, primary.name, stem).len()
            &&& plan.renames[0].path == primary.name
            &&& forall|i: int|
                1 <= i < plan.renames.len() ==> (#[trigger] plan.renames[i]).path == siblings(
                    files,
                    primary.name,
                    stem,
                )[i - 1]
        },
        files.len() == 0 <==> rename_plan(files, save_name) == Err::<Plan, Failure>(
            Failure::NoFileToRename,
        ),
{
    if files.len() > 0 {
        largest_is_first_maximum(files);
        let primary = files[largest(files)].name;
        match file_stem_of(primary) {
            None => {},
            Some(stem) => {
                let paths = seq![primary] + siblings(files, primary, stem);
                renamings_keep_extensions(paths, save_name);
                match renamings(paths, save_name) {
                    Ok(renames) => {
                        assert(renames[0].path == paths[0]);
                        assert forall|i: int| 1 <= i < renames.len() implies (
                        #[trigger] renames[i]).path == siblings(files, primary, stem)[i - 1] by {
                            assert(renames[i].path == paths[i]);
                        }
                    },
                    Err(_) => {},
                }
            },
        }
    }
}

/// The magnet link prefix that stands before the hash.
pub open spec fn magnet_prefix() -> Seq<char> {
    "magnet:?xt=urn:btih:"@
}

/// The hash that a magnet link names: the link trimmed, freed of the prefix
/// wherever it stands, and cut before the first `&`.
pub open spec fn magnet_hash(magnet: Seq<char>) -> Seq<char> {
    before_first(removed(trimmed(magnet), magnet_prefix()), '&')
}

/// The hash that a magnet link names.
pub fn magnet_to_hash(magnet: &str) -> (r: String)
    ensures
        r@ == magnet_hash(magnet@),
{
    let v = chars_of(magnet);
    let (a, b) = trim_range(&v);
    let link = chars_of(string_of(&v, a, b).as_str());
    let prefix = chars_of("magnet:?xt=urn:btih:");
    let bare = remove_all(&link, &prefix);
    let end = find_from(&bare, '&', 0);
    string_of(&bare, 0, end)
}

/// The info hash of the job that a descriptor describes, in hexadecimal,
/// as the descriptor reader built into this library gives it; `None` where
/// the reader does not take the descriptor.
pub uninterp spec fn info_hash_of(descriptor: Seq<u8>) -> Option<Seq<char>>;

/// `lava_torrent::torrent::v1::Torrent::read_from_bytes`, then
/// `Torrent::info_hash` on what was read: whether a descriptor reads, and
/// its hash, depend on its bytes alone. The reader descends into lists and
/// dictionaries by recursion, one level for each `l` or `d` that it meets
/// where an item begins and has not yet seen closed by `e`; it passes over
/// numbers and texts without descending. The scan behind
/// `bencode_is_shallow` walks the same way and turns down any document in
/// which that count passes `MAX_NESTING`, so that the descent is bounded
/// on every descriptor let in here.
#[verifier::external_body]
pub(crate) fn read_info_hash(descriptor: &[u8]) -> (r: Result<String, LavaTorrentError>)
    requires
        bencode_is_shallow(descriptor@),
    ensures
        match r {
            Ok(hash) => info_hash_of(descriptor@) == Some(hash@),
            Err(_) => info_hash_of(descriptor@) is None,
        },
{
    Ok(Torrent::read_from_bytes(descriptor)?.info_hash())
}

/// The id of the job that a descriptor describes: its info hash, where
/// lists and dictionaries stand no deeper in it than `MAX_NESTING` and the
/// descriptor reads.
pub open spec fn descriptor_id_of(descriptor: Seq<u8>) -> Option<Seq<char>> {
    if bencode_is_shallow(descriptor) {
        info_hash_of(descriptor)
    } else {
        None
    }
}

/// The id under which the engine will know the job that a descriptor
/// describes; `None` where the descriptor is nested too deep to be handed
/// to the reader, or does not read.
pub fn descriptor_id(descriptor: &[u8]) -> (r: Option<String>)
    ensures
        r.deep_view() == descriptor_id_of(descriptor@),
{
    if !is_shallow_bencode(descriptor) {
        return None;
    }
    match read_info_hash(descriptor) {
        Ok(hash) => Some(hash),
        Err(_) => None,
    }
}

} // verus!
