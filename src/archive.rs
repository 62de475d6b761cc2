//! Release assets: how a downloaded asset is handled, and where its executable is.
use vstd::prelude::*;
use vstd::string::StrSliceExecFns;
use vstd::string::StringExecFns;

use crate::text::{
    ends_with, last_index_of, prefix_ends_with, rfind_char, str_eq, strip_prefix_char,
    strip_prefix_char_str, strip_suffix, strip_suffix_str,
};

verus! {

#[verifier::external_type_specification]
#[verifier::external_body]
pub struct ExIoError(std::io::Error);

#[verifier::external_type_specification]
#[verifier::external_body]
pub struct ExZipError(zip::result::ZipError);

#[verifier::external_type_specification]
#[verifier::external_body]
#[verifier::reject_recursive_types(R)]
pub struct ExZipArchive<R>(zip::ZipArchive<R>);

#[verifier::external_type_specification]
#[verifier::external_body]
#[verifier::reject_recursive_types(T)]
pub struct ExCursor<T>(std::io::Cursor<T>);

/// The platform an executable is installed for.
#[derive(Clone, Copy, Debug, PartialEq, Eq, Structural)]
pub enum Platform {
    Posix,
    Windows,
}

/// The name of the executable file for `name` on `platform`.
pub open spec fn exe_file_name_spec(name: Seq<char>, platform: Platform) -> Seq<char> {
    match platform {
        Platform::Posix => name,
        Platform::Windows => name + ".exe"@,
    }
}

/// The name of the executable file for `name` on `platform`.
pub fn exe_file_name(name: &str, platform: Platform) -> (r: String)
    ensures
        r@ == exe_file_name_spec(name@, platform),
{
    let mut r = String::from_str(name);
    match platform {
        Platform::Posix => {},
        Platform::Windows => r.append(".exe"),
    }
    r
}

/// `dir` and `rest` joined by a path separator.
pub open spec fn join(dir: Seq<char>, rest: Seq<char>) -> Seq<char> {
    dir + "/"@ + rest
}

/// Joins `dir` and `rest` with a path separator.
pub fn join_path(dir: &str, rest: &str) -> (r: String)
    ensures
        r@ == join(dir@, rest@),
{
    let mut r = String::from_str(dir);
    r.append("/");
    r.append(rest);
    r
}

/// How an asset is handled: run as it is, or unpacked first.
#[derive(Clone, Copy, Debug, PartialEq, Eq, Structural)]
pub enum AssetKind {
    AppImage,
    Exe,
    Zip,
    TarGz,
}

/// How to unpack an asset, with the asset name (bare files) or the prefix
/// left once the archive suffix is removed (archives).
#[derive(Debug, PartialEq, Eq)]
pub enum ArchiveType {
    AppImage(String),
    Exe(String),
    Zip(String),
    TarGz(String),
}

impl ArchiveType {
    /// The kind of handling.
    pub open spec fn kind(&self) -> AssetKind {
        match self {
            ArchiveType::AppImage(_) => AssetKind::AppImage,
            ArchiveType::Exe(_) => AssetKind::Exe,
            ArchiveType::Zip(_) => AssetKind::Zip,
            ArchiveType::TarGz(_) => AssetKind::TarGz,
        }
    }

    /// The asset name or prefix carried.
    pub open spec fn name(&self) -> Seq<char> {
        match self {
            ArchiveType::AppImage(n) => n@,
            ArchiveType::Exe(n) => n@,
            ArchiveType::Zip(n) => n@,
            ArchiveType::TarGz(n) => n@,
        }
    }
}

/// The classification of an asset file name: its kind and its name or prefix,
/// or nothing for an unsupported asset type.
pub open spec fn classify_spec(asset: Seq<char>) -> Option<(AssetKind, Seq<char>)> {
    match last_index_of(asset, '.') {
        None => Some((AssetKind::Exe, asset)),
        Some(i) => {
            let ext = asset.subrange(i + 1, asset.len() as int);
            let stem = asset.subrange(0, i);
            if ext == "exe"@ || ext.len() > 10 {
                Some((AssetKind::Exe, asset))
            } else if ext == "AppImage"@ {
                Some((AssetKind::AppImage, asset))
            } else if ext == "tgz"@ {
                Some((AssetKind::TarGz, stem))
            } else if ext == "zip"@ {
                Some((AssetKind::Zip, stem))
            } else if ends_with(asset, ".tar.gz"@) {
                Some((AssetKind::TarGz, asset.subrange(0, asset.len() - ".tar.gz"@.len())))
            } else {
                None
            }
        },
    }
}

/// The last dot of `stem` + "." + `ext` is the one before `ext`, when `ext`
/// holds no dot.
proof fn lemma_last_dot(stem: Seq<char>, ext: Seq<char>)
    requires
        forall|i: int| 0 <= i < ext.len() ==> ext[i] != '.',
    ensures
        last_index_of(stem + "."@ + ext, '.') == Some(stem.len() as int),
        (stem + "."@ + ext).subrange(stem.len() as int + 1, (stem + "."@ + ext).len() as int) == ext,
        (stem + "."@ + ext).subrange(0, stem.len() as int) == stem,
    decreases ext.len(),
{
    reveal_strlit(".");
    let s = stem + "."@ + ext;
    assert(s.subrange(stem.len() as int + 1, s.len() as int) =~= ext);
    assert(s.subrange(0, stem.len() as int) =~= stem);
    if ext.len() == 0 {
        assert(s.last() == '.');
    } else {
        assert(s.last() == ext.last());
        lemma_last_dot(stem, ext.drop_last());
        assert(s.drop_last() =~= stem + "."@ + ext.drop_last());
    }
}

/// A name without a dot, or with extension `exe`, is a bare executable; with
/// extension `AppImage` it is an AppImage; with `tgz`, `zip` or `tar.gz` it is
/// an archive, and the prefix is the name without that suffix.
pub proof fn lemma_classify_by_extension(stem: Seq<char>, name: Seq<char>)
    ensures
        last_index_of(name, '.') is None ==> classify_spec(name) == Some((AssetKind::Exe, name)),
        classify_spec(stem + "."@ + "exe"@) == Some((AssetKind::Exe, stem + "."@ + "exe"@)),
        classify_spec(stem + "."@ + "AppImage"@) == Some((AssetKind::AppImage, stem + "."@ + "AppImage"@)),
        classify_spec(stem + "."@ + "tgz"@) == Some((AssetKind::TarGz, stem)),
        classify_spec(stem + "."@ + "zip"@) == Some((AssetKind::Zip, stem)),
        classify_spec(stem + ".tar.gz"@) == Some((AssetKind::TarGz, stem)),
{
    reveal_strlit(".");
    reveal_strlit("exe");
    reveal_strlit("AppImage");
    reveal_strlit("tgz");
    reveal_strlit("zip");
    reveal_strlit("gz");
    reveal_strlit(".tar.gz");
    reveal_strlit("tar");
    lemma_last_dot(stem, "exe"@);
    lemma_last_dot(stem, "AppImage"@);
    lemma_last_dot(stem, "tgz"@);
    lemma_last_dot(stem, "zip"@);
    let tar_stem = stem + "."@ + "tar"@;
    assert(stem + ".tar.gz"@ =~= tar_stem + "."@ + "gz"@);
    lemma_last_dot(tar_stem, "gz"@);
    let name = stem + ".tar.gz"@;
    assert(name.subrange(name.len() - 7, name.len() as int) =~= ".tar.gz"@);
    assert(name.subrange(0, name.len() - 7) =~= stem);
}

/// An extension longer than ten characters makes a bare executable, whatever
/// it looks like.
pub proof fn lemma_long_extension_is_bare(stem: Seq<char>, ext: Seq<char>)
    requires
        ext.len() > 10,
        forall|i: int| 0 <= i < ext.len() ==> ext[i] != '.',
    ensures
        classify_spec(stem + "."@ + ext) == Some((AssetKind::Exe, stem + "."@ + ext)),
{
    lemma_last_dot(stem, ext);
}

/// Classifies an asset by its file name.
pub fn classify(asset_name: &str) -> (r: Option<ArchiveType>)
    ensures
        r matches Some(t) ==> classify_spec(asset_name@) == Some((t.kind(), t.name())),
        r is None ==> classify_spec(asset_name@) is None,
{
    let n = asset_name.unicode_len();
    match rfind_char(asset_name, '.') {
        None => Some(ArchiveType::Exe(String::from_str(asset_name))),
        Some(i) => {
            let ext = asset_name.substring_char(i + 1, n);
            let stem = asset_name.substring_char(0, i);
            if str_eq(ext, "exe") || ext.unicode_len() > 10 {
                Some(ArchiveType::Exe(String::from_str(asset_name)))
            } else if str_eq(ext, "AppImage") {
                Some(ArchiveType::AppImage(String::from_str(asset_name)))
            } else if str_eq(ext, "tgz") {
                Some(ArchiveType::TarGz(String::from_str(stem)))
            } else if str_eq(ext, "zip") {
                Some(ArchiveType::Zip(String::from_str(stem)))
            } else {
                let k = ".tar.gz".unicode_len();
                if prefix_ends_with(asset_name, n, ".tar.gz") {
                    assert(asset_name@.subrange(0, n as int) == asset_name@);
                    Some(ArchiveType::TarGz(String::from_str(asset_name.substring_char(0, n - k))))
                } else {
                    assert(asset_name@.subrange(0, n as int) == asset_name@);
                    None
                }
            }
        },
    }
}


/// The relative locations where executable `name` may lie on `platform` in an
/// archive unpacked from asset `prefix` of release `tag`, by priority.
pub open spec fn candidates(name: Seq<char>, platform: Platform, prefix: Seq<char>, tag: Seq<char>) -> Seq<Seq<char>> {
    let exe = exe_file_name_spec(name, platform);
    seq![
        prefix,
        strip_suffix(prefix, ".tar.gz"@),
        strip_suffix(prefix, ".tgz"@),
        strip_suffix(prefix, ".zip"@),
        exe,
        join(prefix, exe),
        join(join("tmp"@, prefix), exe),
        join(exe, exe),
        join("bin"@, exe),
        join(join(prefix, "bin"@), exe),
        join(name + "-"@ + tag, exe),
        join(name + "-"@ + strip_prefix_char(tag, 'v'), exe),
    ]
}

/// The candidate locations of executable `name` on `platform` in an archive
/// unpacked from asset `prefix` of release `tag`.
pub fn exe_paths(name: &str, platform: Platform, prefix: &str, tag: &str) -> (r: Vec<String>)
    ensures
        r.deep_view() == candidates(name@, platform, prefix@, tag@),
{
    let exe_string = exe_file_name(name, platform);
    let exe = exe_string.as_str();
    let mut r: Vec<String> = Vec::new();
    r.push(String::from_str(prefix));
    r.push(strip_suffix_str(prefix, ".tar.gz"));
    r.push(strip_suffix_str(prefix, ".tgz"));
    r.push(strip_suffix_str(prefix, ".zip"));
    r.push(String::from_str(exe));
    r.push(join_path(prefix, exe));
    let tmp_prefix = join_path("tmp", prefix);
    r.push(join_path(tmp_prefix.as_str(), exe));
    r.push(join_path(exe, exe));
    r.push(join_path("bin", exe));
    let prefix_bin = join_path(prefix, "bin");
    r.push(join_path(prefix_bin.as_str(), exe));
    let mut versioned = String::from_str(name);
    versioned.append("-");
    versioned.append(tag);
    r.push(join_path(versioned.as_str(), exe));
    let bare_tag = strip_prefix_char_str(tag, 'v');
    let mut unversioned = String::from_str(name);
    unversioned.append("-");
    unversioned.append(bare_tag.as_str());
    r.push(join_path(unversioned.as_str(), exe));
    assert(r.deep_view() =~= candidates(name@, platform, prefix@, tag@));
    r
}

/// `i` is the first index at which `present` holds.
pub open spec fn is_first_present(present: Seq<bool>, i: int) -> bool {
    0 <= i < present.len() && present[i] && forall|j: int| 0 <= j < i ==> !present[j]
}

/// The first index at which `present` holds, if there is one.
pub fn first_present(present: &Vec<bool>) -> (r: Option<usize>)
    ensures
        r matches Some(i) ==> is_first_present(present@, i as int),
        r is None ==> forall|j: int| 0 <= j < present@.len() ==> !present@[j],
{
    let mut i: usize = 0;
    while i < present.len()
        invariant
            i <= present@.len(),
            forall|j: int| 0 <= j < i ==> !present@[j],
        decreases present@.len() - i,
    {
        if present[i] {
            return Some(i);
        }
        i = i + 1;
    }
    None
}

/// A candidate that is present is always found: the search yields it or
/// one of higher priority.
pub proof fn lemma_present_candidate_found(present: Seq<bool>, i: int)
    requires
        0 <= i < present.len(),
        present[i],
    ensures
        exists|j: int| 0 <= j <= i && is_first_present(present, j),
    decreases i,
{
    if forall|j: int| 0 <= j < i ==> !present[j] {
        assert(is_first_present(present, i));
    } else {
        let k = choose|k: int| 0 <= k < i && present[k];
        lemma_present_candidate_found(present, k);
    }
}

/// Why an asset could not be unpacked to an executable.
pub enum UnpackError {
    IOError(std::io::Error),
    ZipError(zip::result::ZipError),
    ExeNotFound(String),
}

/// The error's message.
pub open spec fn not_found_message(archive: Seq<char>) -> Seq<char> {
    "Can't find executable in archive: "@ + archive
}

/// Relies on std's `Display` for `std::io::Error`: its text.
#[verifier::external_body]
fn io_error_text(e: &std::io::Error) -> String {
    format!("{}", e)
}

/// Relies on zip's `Display` for `ZipError`: its text.
#[verifier::external_body]
fn zip_error_text(e: &zip::result::ZipError) -> String {
    format!("{}", e)
}

impl UnpackError {
    /// A message that describes the error.
    pub fn message(&self) -> (r: String)
        ensures
            self matches UnpackError::ExeNotFound(a) ==> r@ == not_found_message(a@),
    {
        match self {
            UnpackError::IOError(e) => io_error_text(e),
            UnpackError::ZipError(e) => zip_error_text(e),
            UnpackError::ExeNotFound(a) => {
                let mut r = String::from_str("Can't find executable in archive: ");
                r.append(a.as_str());
                r
            },
        }
    }
}

/// The path of the first candidate in `paths` that `present` marks, or
/// `ExeNotFound` for `archive` when none is marked.
pub fn select_candidate(archive: &str, paths: &Vec<String>, present: &Vec<bool>) -> (r: Result<String, UnpackError>)
    requires
        paths@.len() == present@.len(),
    ensures
        r matches Ok(p) ==> exists|i: int| is_first_present(present@, i) && p@ == paths@[i]@,
        r matches Err(e) ==> e matches UnpackError::ExeNotFound(a) && a@ == archive@,
        r is Err <==> forall|j: int| 0 <= j < present@.len() ==> !present@[j],
{
    match first_present(present) {
        Some(i) => Ok(paths[i].clone()),
        None => Err(UnpackError::ExeNotFound(String::from_str(archive))),
    }
}

/// Relies on std's `Path::is_file`: whether a regular file is at `path` now.
#[verifier::external_body]
fn is_regular_file(path: &str) -> bool {
    std::path::Path::new(path).is_file()
}

/// Looks in `tmp_dir` for the executable, at each candidate in turn; the
/// first one that is a regular file wins.
pub fn find_path_to_exe(
    archive: &str,
    tmp_dir: &str,
    name: &str,
    platform: Platform,
    prefix: &str,
    tag: &str,
) -> (r: Result<String, UnpackError>)
    ensures
        r matches Ok(p) ==> exists|i: int| 0 <= i < 12 && p@ == join(tmp_dir@, candidates(name@, platform, prefix@, tag@)[i]),
        r matches Err(e) ==> e matches UnpackError::ExeNotFound(a) && a@ == archive@,
{
    let rel = exe_paths(name, platform, prefix, tag);
    let mut paths: Vec<String> = Vec::new();
    let mut present: Vec<bool> = Vec::new();
    let mut i: usize = 0;
    while i < rel.len()
        invariant
            rel.deep_view() == candidates(name@, platform, prefix@, tag@),
            i <= rel@.len(),
            paths@.len() == i,
            present@.len() == i,
            forall|j: int| 0 <= j < i ==> paths@[j]@ == join(tmp_dir@, rel@[j]@),
        decreases rel@.len() - i,
    {
        let p = join_path(tmp_dir, rel[i].as_str());
        present.push(is_regular_file(p.as_str()));
        paths.push(p);
        i = i + 1;
    }
    assert(rel@.len() == 12) by {
        assert(rel.deep_view().len() == 12);
    }
    let r = select_candidate(archive, &paths, &present);
    proof {
        if r is Ok {
            let p = r->Ok_0;
            let j = choose|j: int| is_first_present(present@, j) && p@ == paths@[j]@;
            assert(rel.deep_view()[j] == rel@[j]@);
        }
    }
    r
}


/// Relies on flate2's `GzDecoder::new` and tar's `Archive::new` and
/// `Archive::unpack`: writes the entries of the gzip-compressed tarball
/// `bytes` under `dir`.
#[verifier::external_body]
fn unpack_tar_gz(bytes: &Vec<u8>, dir: &str) -> Result<(), std::io::Error> {
    tar::Archive::new(flate2::read::GzDecoder::new(bytes.as_slice())).unpack(dir)
}

/// For each entry of a zip archive, in order: whether zip's `by_index` can
/// open it without a password, that is, it does not hold AES data while
/// marked unencrypted. On such an entry `by_index`, and with it
/// `ZipArchive::extract`, panics.
pub uninterp spec fn zip_entries_open(a: zip::ZipArchive<std::io::Cursor<Vec<u8>>>) -> Seq<bool>;

/// Relies on zip's `ZipArchive::new`: reads the directory of the zip archive `bytes`.
#[verifier::external_body]
fn open_zip(bytes: &Vec<u8>) -> Result<zip::ZipArchive<std::io::Cursor<Vec<u8>>>, zip::result::ZipError> {
    zip::ZipArchive::new(std::io::Cursor::new(bytes.clone()))
}

/// Relies on zip's `ZipArchive::len`: the number of entries.
#[verifier::external_body]
fn zip_len(a: &zip::ZipArchive<std::io::Cursor<Vec<u8>>>) -> (r: usize)
    ensures
        r == zip_entries_open(*a).len(),
{
    a.len()
}

/// Relies on zip's `ZipArchive::by_index_decrypt`: on an unencrypted entry
/// the password is set aside and the entry is opened as `by_index` opens it,
/// but an entry with AES data gives `InvalidPassword` back instead of
/// panicking. The entries themselves do not change.
#[verifier::external_body]
fn zip_check_entry(a: &mut zip::ZipArchive<std::io::Cursor<Vec<u8>>>, i: usize) -> (r: Result<(), zip::result::ZipError>)
    ensures
        zip_entries_open(*final(a)) == zip_entries_open(*old(a)),
        r is Ok && i < zip_entries_open(*old(a)).len() ==> zip_entries_open(*old(a))[i as int],
{
    match a.by_index_decrypt(i, &[]) {
        Ok(Ok(_)) => Ok(()),
        Ok(Err(_)) => Err(zip::result::ZipError::UnsupportedArchive(zip::result::ZipError::PASSWORD_REQUIRED)),
        Err(e) => Err(e),
    }
}

/// Relies on zip's `ZipArchive::extract`: writes every entry under `dir`.
#[verifier::external_body]
fn zip_extract(a: &mut zip::ZipArchive<std::io::Cursor<Vec<u8>>>, dir: &str) -> Result<(), zip::result::ZipError>
    requires
        forall|i: int| 0 <= i < zip_entries_open(*old(a)).len() ==> zip_entries_open(*old(a))[i],
{
    a.extract(dir)
}

/// Writes the entries of the zip archive `bytes` under `dir`, after checking
/// that each entry can be opened.
fn unpack_zip(bytes: &Vec<u8>, dir: &str) -> Result<(), zip::result::ZipError> {
    let mut archive = match open_zip(bytes) {
        Ok(a) => a,
        Err(e) => {
            return Err(e);
        },
    };
    let n = zip_len(&archive);
    let mut i: usize = 0;
    while i < n
        invariant
            n == zip_entries_open(archive).len(),
            i <= n,
            forall|j: int| 0 <= j < i ==> zip_entries_open(archive)[j],
        decreases n - i,
    {
        if let Err(e) = zip_check_entry(&mut archive, i) {
            return Err(e);
        }
        i = i + 1;
    }
    zip_extract(&mut archive, dir)
}

/// A downloaded asset, with what is needed to turn it into an executable.
pub struct Archive {
    /// Where the downloaded asset is, for messages.
    pub archive_path: String,
    /// The scratch directory that the asset is unpacked into.
    pub tmp_dir: String,
    /// The executable's name, without a platform suffix.
    pub exe_name: String,
    /// The platform the executable is for.
    pub platform: Platform,
    /// The release tag.
    pub tag: String,
    /// How the asset is handled.
    pub archive_type: ArchiveType,
}

impl Archive {
    /// Classifies `asset_name`; `None` for an unsupported asset type.
    pub fn from(
        archive_path: &str,
        tmp_dir: &str,
        exe_name: &str,
        asset_name: &str,
        tag: &str,
        platform: Platform,
    ) -> (r: Option<Archive>)
        ensures
            r is None <==> classify_spec(asset_name@) is None,
            r matches Some(a) ==> {
                &&& classify_spec(asset_name@) == Some((a.archive_type.kind(), a.archive_type.name()))
                &&& a.archive_path@ == archive_path@
                &&& a.tmp_dir@ == tmp_dir@
                &&& a.exe_name@ == exe_name@
                &&& a.platform == platform
                &&& a.tag@ == tag@
            },
    {
        match classify(asset_name) {
            None => None,
            Some(archive_type) => Some(
                Archive {
                    archive_path: String::from_str(archive_path),
                    tmp_dir: String::from_str(tmp_dir),
                    exe_name: String::from_str(exe_name),
                    platform,
                    tag: String::from_str(tag),
                    archive_type,
                },
            ),
        }
    }

    /// The candidate paths of the executable in the scratch directory.
    pub open spec fn candidate_paths(&self) -> Seq<Seq<char>> {
        candidates(self.exe_name@, self.platform, self.archive_type.name(), self.tag@).map_values(
            |c: Seq<char>| join(self.tmp_dir@, c),
        )
    }

    /// After an archive was extracted into the scratch directory, with
    /// outcome `extracted`: an extraction error is returned as it is;
    /// otherwise the executable is searched for among the candidates.
    pub fn locate_unpacked(&self, extracted: Result<(), UnpackError>) -> (r: Result<String, UnpackError>)
        ensures
            extracted matches Err(e) ==> (r matches Err(e2) && e2 == e),
            extracted is Ok ==> (r matches Ok(p) ==> exists|i: int| 0 <= i < 12 && p@ == self.candidate_paths()[i]),
            extracted is Ok ==> (r matches Err(e) ==> e matches UnpackError::ExeNotFound(a) && a@ == self.archive_path@),
    {
        match extracted {
            Err(e) => Err(e),
            Ok(()) => {
                let prefix = match &self.archive_type {
                    ArchiveType::AppImage(n) => n,
                    ArchiveType::Exe(n) => n,
                    ArchiveType::Zip(n) => n,
                    ArchiveType::TarGz(n) => n,
                };
                let r = find_path_to_exe(
                    self.archive_path.as_str(),
                    self.tmp_dir.as_str(),
                    self.exe_name.as_str(),
                    self.platform,
                    prefix.as_str(),
                    self.tag.as_str(),
                );
                proof {
                    if r is Ok {
                        let p = r->Ok_0;
                        let i = choose|i: int| 0 <= i < 12 && p@ == join(
                            self.tmp_dir@,
                            candidates(self.exe_name@, self.platform, prefix@, self.tag@)[i],
                        );
                        assert(p@ == self.candidate_paths()[i]);
                    }
                }
                r
            },
        }
    }

    /// Unpacks the asset, whose contents are `bytes`, into the scratch
    /// directory, and returns the path of the executable. A bare executable
    /// or AppImage is taken to lie in the scratch directory under its own
    /// name, and `bytes` is not read. A tarball that cannot be extracted
    /// gives `IOError`, a zip archive `ZipError`.
    pub fn unpack(&self, bytes: &Vec<u8>) -> (r: Result<String, UnpackError>)
        ensures
            self.archive_type.kind() == AssetKind::Exe || self.archive_type.kind() == AssetKind::AppImage
                ==> (r matches Ok(p) && p@ == join(self.tmp_dir@, self.archive_type.name())),
            self.archive_type.kind() == AssetKind::Zip || self.archive_type.kind() == AssetKind::TarGz
                ==> (r matches Ok(p) ==> exists|i: int| 0 <= i < 12 && p@ == self.candidate_paths()[i]),
            r matches Err(UnpackError::ExeNotFound(a)) ==> a@ == self.archive_path@,
            r matches Err(UnpackError::IOError(_)) ==> self.archive_type.kind() == AssetKind::TarGz,
            r matches Err(UnpackError::ZipError(_)) ==> self.archive_type.kind() == AssetKind::Zip,
    {
        match &self.archive_type {
            ArchiveType::AppImage(name) => Ok(join_path(self.tmp_dir.as_str(), name.as_str())),
            ArchiveType::Exe(name) => Ok(join_path(self.tmp_dir.as_str(), name.as_str())),
            ArchiveType::TarGz(_) => {
                let extracted = match unpack_tar_gz(bytes, self.tmp_dir.as_str()) {
                    Err(e) => Err(UnpackError::IOError(e)),
                    Ok(()) => Ok(()),
                };
                self.locate_unpacked(extracted)
            },
            ArchiveType::Zip(_) => {
                let extracted = match unpack_zip(bytes, self.tmp_dir.as_str()) {
                    Err(e) => Err(UnpackError::ZipError(e)),
                    Ok(()) => Ok(()),
                };
                self.locate_unpacked(extracted)
            },
        }
    }
}

} // verus!
