//! Archives of named files.
use vstd::prelude::*;
use vstd::utf8::encode_utf8;

use crate::text::pieces;

verus! {

/// A file to be packed.
pub struct PackedFile {
    pub name: String,
    pub bytes: Vec<u8>,
    /// Its mode.
    pub mode: u32,
    /// The numbers of its user and its group; none for one that was made for the archive.
    pub owner: Option<(u64, u64)>,
    /// When it was last changed, in seconds since the epoch.
    pub mtime: u64,
}

/// What an archive holds under one name.
pub struct ArchiveItem {
    /// Whether it is a regular file.
    pub file: bool,
    /// Its name; empty where it has none that can be read.
    pub name: String,
    /// Its bytes, where they can be read.
    pub bytes: Option<Vec<u8>>,
}

/// The model of an [`ArchiveItem`].
pub struct ItemView {
    pub file: bool,
    pub name: Seq<char>,
    pub bytes: Option<Seq<u8>>,
}

impl View for ArchiveItem {
    type V = ItemView;

    open spec fn view(&self) -> ItemView {
        ItemView {
            file: self.file,
            name: self.name@,
            bytes: match self.bytes {
                Some(b) => Some(b@),
                None => None,
            },
        }
    }
}

/// The models of a list of items.
pub open spec fn items_view(v: Seq<ArchiveItem>) -> Seq<ItemView> {
    v.map_values(|i: ArchiveItem| i@)
}

/// The item that a file becomes.
pub open spec fn file_item(f: PackedFile) -> ItemView {
    ItemView { file: true, name: f.name@, bytes: Some(f.bytes@) }
}

/// The items that files become.
pub open spec fn file_items(v: Seq<PackedFile>) -> Seq<ItemView> {
    v.map_values(|f: PackedFile| file_item(f))
}

/// Whether a name is a plain relative path: segments that are neither empty nor `.` nor `..`, no
/// NUL character, and no backslash or colon, which mean more on some systems.
pub open spec fn plain_path(name: Seq<char>) -> bool {
    &&& !name.contains('\0')
    &&& !name.contains('\\')
    &&& !name.contains(':')
    &&& forall|i: int|
        0 <= i < pieces(name, '/').len() ==> {
            let p = #[trigger] pieces(name, '/')[i];
            p.len() > 0 && p != "."@ && p != ".."@
        }
}

/// What a compressed archive holds, where it can be read.
pub uninterp spec fn archive_items(bytes: Seq<u8>) -> Option<Seq<ItemView>>;

/// Calls `tar::Archive::entries` on a `flate2::read::GzDecoder`, and of each entry its type, its
/// path and its bytes. Claims that the outcome depends on the bytes alone.
#[verifier::external_body]
pub(crate) fn read_archive(payload: &[u8]) -> (r: Option<Vec<ArchiveItem>>)
    ensures
        match r {
            Some(v) => archive_items(payload@) == Some(items_view(v@)),
            None => archive_items(payload@) is None,
        },
{
    let mut archive = tar::Archive::new(flate2::read::GzDecoder::new(payload));
    let mut out = Vec::new();
    for entry in archive.entries().ok()? {
        let mut entry = entry.ok()?;
        let file = entry.header().entry_type().is_file();
        let name = entry.path().map(|p| p.to_string_lossy().into_owned()).unwrap_or_default();
        let mut raw = Vec::new();
        let bytes = std::io::Read::read_to_end(&mut entry, &mut raw).ok().map(|_| raw);
        out.push(ArchiveItem { file, name, bytes });
    }
    Some(out)
}

/// The mode of files that are made for an archive: their owner may write them, everyone may read
/// them.
pub const MADE_MODE: u32 = 0o644;

/// A file in a compressed archive: its name, its bytes, its mode, its owner and its time.
pub type TarEntry = (Seq<char>, Seq<u8>, u32, Option<(u64, u64)>, u64);

/// What is packed of some files.
pub open spec fn packed_view(v: Seq<PackedFile>) -> Seq<TarEntry> {
    v.map_values(|f: PackedFile| (f.name@, f.bytes@, f.mode, f.owner, f.mtime))
}

/// The items that packed files are read back as.
pub open spec fn entry_items(v: Seq<TarEntry>) -> Seq<ItemView> {
    v.map_values(|e: TarEntry| ItemView { file: true, name: e.0, bytes: Some(e.1) })
}

/// An archive that is being written, compressed, into memory.
#[verifier::external_body]
pub struct TarOutput {
    inner: tar::Builder<flate2::write::GzEncoder<Vec<u8>>>,
}

/// The stream of an archive that was ended.
#[verifier::external_body]
pub struct GzOutput {
    inner: flate2::write::GzEncoder<Vec<u8>>,
}

/// The files that an archive holds so far.
pub uninterp spec fn tar_entries(t: TarOutput) -> Seq<TarEntry>;

/// The files of the archive in a stream.
pub uninterp spec fn gz_entries(g: GzOutput) -> Seq<TarEntry>;

/// Why a name cannot be packed; none for one that can.
pub uninterp spec fn tar_refusal(name: Seq<char>) -> Option<Seq<char>>;

/// The compressed archive of some files.
pub uninterp spec fn archive_bytes(files: Seq<TarEntry>) -> Seq<u8>;

/// Calls `tar::Builder::new` on a `flate2::write::GzEncoder`: an archive without files.
#[verifier::external_body]
fn new_tar() -> (r: TarOutput)
    ensures
        tar_entries(r) == Seq::<TarEntry>::empty(),
{
    let gz = flate2::write::GzEncoder::new(Vec::new(), flate2::Compression::default());
    TarOutput { inner: tar::Builder::new(gz) }
}

/// Calls `tar::Builder::append_data` with a header that names no owner. Claims that the file comes last in the archive, that writing
/// to memory does not fail, so that a refusal depends on the name alone, and that plain names are
/// not refused. What is in the archive after a refusal is left unsaid.
#[verifier::external_body]
fn append_tar(t: &mut TarOutput, name: &str, bytes: &[u8], mode: u32, mtime: u64) -> (r: Result<
    (),
    String,
>)
    ensures
        match r {
            Ok(_) => tar_refusal(name@) is None && tar_entries(*final(t)) == tar_entries(
                *old(t),
            ).push((name@, bytes@, mode, None, mtime)),
            Err(e) => tar_refusal(name@) == Some(e@),
        },
        plain_path(name@) ==> r is Ok,
{
    let mut header = tar::Header::new_gnu();
    header.set_size(bytes.len() as u64);
    header.set_mode(mode);
    header.set_mtime(mtime);
    t.inner.append_data(&mut header, name, bytes).map_err(|e| e.to_string())
}

/// Calls `tar::Builder::append_data` with the header that `tar::Builder::append_file` makes for a
/// regular file on Unix. Claims the same as [`append_tar`], of a file with an owner.
#[verifier::external_body]
fn append_owned(
    t: &mut TarOutput,
    name: &str,
    bytes: &[u8],
    mode: u32,
    owner: (u64, u64),
    mtime: u64,
) -> (r: Result<(), String>)
    ensures
        match r {
            Ok(_) => tar_refusal(name@) is None && tar_entries(*final(t)) == tar_entries(
                *old(t),
            ).push((name@, bytes@, mode, Some(owner), mtime)),
            Err(e) => tar_refusal(name@) == Some(e@),
        },
        plain_path(name@) ==> r is Ok,
{
    let mut header = tar::Header::new_gnu();
    header.set_mtime(mtime);
    header.set_uid(owner.0);
    header.set_gid(owner.1);
    header.set_mode(mode);
    header.set_entry_type(tar::EntryType::file());
    header.set_size(bytes.len() as u64);
    header.set_device_major(0).map_err(|e| e.to_string())?;
    header.set_device_minor(0).map_err(|e| e.to_string())?;
    t.inner.append_data(&mut header, name, bytes).map_err(|e| e.to_string())
}

/// Calls `tar::Builder::into_inner`. Claims that the archive is ended with the files that it
/// holds, and that writing to memory does not fail.
#[verifier::external_body]
fn end_tar(t: TarOutput) -> (r: Result<GzOutput, String>)
    ensures
        r is Ok,
        gz_entries(r->Ok_0) == tar_entries(t),
{
    t.inner.into_inner().map(|inner| GzOutput { inner }).map_err(|e| e.to_string())
}

/// Calls `flate2::write::GzEncoder::finish`. Claims that the bytes depend on the files alone, that
/// writing to memory does not fail, and that files with plain names can be read back as they were
/// packed.
#[verifier::external_body]
fn finish_gz(g: GzOutput) -> (r: Result<Vec<u8>, String>)
    ensures
        r is Ok,
        r->Ok_0@ == archive_bytes(gz_entries(g)),
        (forall|i: int| 0 <= i < gz_entries(g).len() ==> plain_path((#[trigger] gz_entries(g)[i]).0))
            ==> archive_items(r->Ok_0@) == Some(entry_items(gz_entries(g))),
{
    g.inner.finish().map_err(|e| e.to_string())
}

/// What packing failed at.
pub enum ArchiveStep {
    /// Packing the file at a position.
    File(usize),
    /// Ending the archive.
    End,
    /// Compressing it.
    Compression,
}

/// The position of the first file whose name cannot be packed.
pub open spec fn first_refused(files: Seq<TarEntry>) -> Option<int>
    decreases files.len(),
{
    if files.len() == 0 {
        None
    } else {
        match first_refused(files.drop_last()) {
            Some(i) => Some(i),
            None => if tar_refusal(files.last().0) is Some {
                Some(files.len() - 1)
            } else {
                None
            },
        }
    }
}

/// What was refused stays refused with more files behind it.
proof fn lemma_refused_stays(files: Seq<TarEntry>, n: int)
    requires
        0 <= n <= files.len(),
        first_refused(files.take(n)) is Some,
    ensures
        first_refused(files) == first_refused(files.take(n)),
    decreases files.len(),
{
    if n < files.len() {
        assert(files.drop_last().take(n) =~= files.take(n));
        lemma_refused_stays(files.drop_last(), n);
    } else {
        assert(files.take(n) =~= files);
    }
}

/// Packs files, in order: the compressed archive, or what it failed at and why.
pub fn pack_files(files: &Vec<PackedFile>) -> (r: Result<Vec<u8>, (ArchiveStep, String)>)
    ensures
        ({
            let all = packed_view(files@);
            match first_refused(all) {
                Some(i) => r matches Err(e) && 0 <= i < all.len() && e.0 == ArchiveStep::File(
                    i as usize,
                ) && tar_refusal(all[i].0) == Some(e.1@),
                None => {
                    &&& r matches Ok(b) && b@ == archive_bytes(all)
                    &&& (forall|i: int| 0 <= i < all.len() ==> plain_path((#[trigger] all[i]).0))
                        ==> archive_items(archive_bytes(all)) == Some(entry_items(all))
                },
            }
        }),
{
    let ghost all = packed_view(files@);
    let mut tar = new_tar();
    let mut i: usize = 0;
    assert(all.take(0) =~= Seq::empty());
    while i < files.len()
        invariant
            i <= files@.len(),
            all == packed_view(files@),
            tar_entries(tar) == all.take(i as int),
            first_refused(all.take(i as int)) is None,
        decreases files@.len() - i,
    {
        let f = &files[i];
        assert(all[i as int] == (f.name@, f.bytes@, f.mode, f.owner, f.mtime));
        assert(all.take(i + 1).drop_last() =~= all.take(i as int));
        assert(all.take(i + 1) =~= all.take(i as int).push(all[i as int]));
        let (name, bytes) = (f.name.as_str(), f.bytes.as_slice());
        let added = match f.owner {
            Some(owner) => append_owned(&mut tar, name, bytes, f.mode, owner, f.mtime),
            None => append_tar(&mut tar, name, bytes, f.mode, f.mtime),
        };
        match added {
            Ok(_) => {},
            Err(e) => {
                proof {
                    lemma_refused_stays(all, i + 1);
                }
                return Err((ArchiveStep::File(i), e));
            },
        }
        i += 1;
    }
    assert(all.take(i as int) =~= all);
    match end_tar(tar) {
        Ok(g) => match finish_gz(g) {
            Ok(b) => Ok(b),
            Err(e) => Err((ArchiveStep::Compression, e)),
        },
        Err(e) => Err((ArchiveStep::End, e)),
    }
}

/// The models of named files.
pub open spec fn named_files(v: Seq<(String, Vec<u8>)>) -> Seq<(Seq<char>, Seq<u8>)> {
    v.map_values(|f: (String, Vec<u8>)| (f.0@, f.1@))
}

/// The longest name that a file in a ZIP archive can have, in bytes.
pub const MAX_ZIP_NAME: usize = 65_535;

/// Whether each name fits into a ZIP archive.
pub open spec fn zip_names_fit(files: Seq<(Seq<char>, Seq<u8>)>) -> bool {
    forall|i: int|
        0 <= i < files.len() ==> encode_utf8((#[trigger] files[i]).0).len() <= MAX_ZIP_NAME
}

/// A text has at most four bytes for each character.
pub proof fn lemma_bytes_len(s: Seq<char>)
    ensures
        encode_utf8(s).len() <= 4 * s.len(),
    decreases s.len(),
{
    if s.len() > 0 {
        lemma_bytes_len(s.drop_first());
    }
}

/// The largest size of a file, packed or not, in a ZIP archive without the fields for large files.
pub const MAX_ZIP_FILE: u64 = 0xffff_ffff;

/// Whether each file has less than two gibibytes, which fit into a ZIP archive even where they
/// grow when they are deflated.
pub open spec fn zip_small(files: Seq<(Seq<char>, Seq<u8>)>) -> bool {
    forall|i: int| 0 <= i < files.len() ==> (#[trigger] files[i]).1.len() < 0x8000_0000
}

/// Whether some file does not fit into a ZIP archive, however it is deflated.
pub open spec fn zip_excess(files: Seq<(Seq<char>, Seq<u8>)>) -> bool {
    exists|i: int| 0 <= i < files.len() && (#[trigger] files[i]).1.len() > MAX_ZIP_FILE
}

/// What is said of a file that is too large for a ZIP archive.
pub open spec fn too_large() -> Seq<char> {
    "Large file option has not been set"@
}

/// A ZIP archive that is being written into memory.
#[verifier::external_body]
pub struct ZipOutput {
    inner: zip::ZipWriter<std::io::Cursor<Vec<u8>>>,
}

/// The files that a ZIP archive holds so far; the last one may still grow.
pub uninterp spec fn zip_entries(z: ZipOutput) -> Seq<(Seq<char>, Seq<u8>)>;

/// Whether every write to a ZIP archive went through so far.
pub uninterp spec fn zip_sound(z: ZipOutput) -> bool;

/// The ZIP archive of named files.
pub uninterp spec fn zip_bytes(files: Seq<(Seq<char>, Seq<u8>)>) -> Seq<u8>;

/// Whether a name is among those of named files.
pub open spec fn zip_holds(files: Seq<(Seq<char>, Seq<u8>)>, name: Seq<char>) -> bool {
    exists|i: int| 0 <= i < files.len() && (#[trigger] files[i]).0 == name
}

/// Calls `zip::ZipWriter::new` on a `std::io::Cursor`: an archive without files.
#[verifier::external_body]
fn new_zip() -> (r: ZipOutput)
    ensures
        zip_entries(r) == Seq::<(Seq<char>, Seq<u8>)>::empty(),
        zip_sound(r),
{
    ZipOutput { inner: zip::ZipWriter::new(std::io::Cursor::new(Vec::new())) }
}

/// Calls `zip::ZipWriter::start_file` for deflated files. Claims that the file comes last, without
/// bytes so far, that a name that is there already is refused, and that another one is not where
/// the files so far are small; it is refused as an error of writing where the file before it has
/// become too large. It panics on names that do not fit. What is said of a name that is there
/// already, and what is in the archive after a refusal, is left unsaid.
#[verifier::external_body]
fn start_zip_file(z: &mut ZipOutput, name: &str) -> (r: Result<(), String>)
    requires
        encode_utf8(name@).len() <= MAX_ZIP_NAME,
    ensures
        r is Ok ==> zip_entries(*final(z)) == zip_entries(*old(z)).push((name@, Seq::<u8>::empty())),
        r is Ok && zip_sound(*old(z)) ==> zip_sound(*final(z)),
        zip_holds(zip_entries(*old(z)), name@) ==> r is Err,
        zip_sound(*old(z)) && !zip_holds(zip_entries(*old(z)), name@) ==> match r {
            Ok(_) => true,
            Err(e) => e@ == "i/o error"@ && !zip_small(zip_entries(*old(z))),
        },
{
    let options = zip::write::SimpleFileOptions::default().compression_method(
        zip::CompressionMethod::Deflated,
    );
    z.inner.start_file(name, options).map_err(|e| e.to_string())
}

/// Calls `write_all` of the `std::io::Write` that `zip::ZipWriter` is. Claims that the bytes become
/// those of the file that was started last, unless they are too many: this fails beyond the
/// largest size of a file, and not otherwise. What is in the archive after a failure is left
/// unsaid.
#[verifier::external_body]
fn write_zip_bytes(z: &mut ZipOutput, bytes: &[u8]) -> (r: Result<(), String>)
    requires
        zip_entries(*old(z)).len() > 0,
        zip_entries(*old(z)).last().1.len() == 0,
    ensures
        r is Ok ==> zip_entries(*final(z)) == zip_entries(*old(z)).drop_last().push(
            (zip_entries(*old(z)).last().0, bytes@),
        ),
        r is Ok && zip_sound(*old(z)) ==> zip_sound(*final(z)),
        zip_sound(*old(z)) ==> match r {
            Ok(_) => bytes@.len() <= MAX_ZIP_FILE,
            Err(e) => bytes@.len() > MAX_ZIP_FILE && e@ == too_large(),
        },
{
    std::io::Write::write_all(&mut z.inner, bytes).map_err(|e| e.to_string())
}

/// Calls `zip::ZipWriter::finish`. Claims that the bytes depend on the files alone, where every
/// write went through, and that then finishing fails, as an error of writing, only where the last
/// file has become too large.
#[verifier::external_body]
fn finish_zip(z: ZipOutput) -> (r: Result<Vec<u8>, String>)
    ensures
        zip_sound(z) && r is Ok ==> r->Ok_0@ == zip_bytes(zip_entries(z)),
        zip_sound(z) ==> match r {
            Ok(_) => true,
            Err(e) => e@ == "i/o error"@ && !zip_small(zip_entries(z)),
        },
{
    z.inner.finish().map(|c| c.into_inner()).map_err(|e| e.to_string())
}

/// Whether no two named files have one name.
pub open spec fn zip_names_differ(files: Seq<(Seq<char>, Seq<u8>)>) -> bool {
    forall|i: int, j: int|
        0 <= i < j < files.len() ==> (#[trigger] files[i]).0 != (#[trigger] files[j]).0
}

/// Packs named files, no two with one name, into a ZIP archive, in order, up to the first failure.
/// Small files do not fail, and files beyond the largest size do.
pub(crate) fn pack_zip(files: &Vec<(String, Vec<u8>)>) -> (r: Result<Vec<u8>, String>)
    requires
        zip_names_fit(named_files(files@)),
        zip_names_differ(named_files(files@)),
    ensures
        match r {
            Ok(b) => b@ == zip_bytes(named_files(files@)),
            Err(e) => !zip_small(named_files(files@)) && (e@ == too_large() || e@
                == "i/o error"@),
        },
        zip_excess(named_files(files@)) ==> r is Err,
{
    let ghost all = named_files(files@);
    let mut zip = new_zip();
    let mut i: usize = 0;
    assert(all.take(0) =~= Seq::empty());
    while i < files.len()
        invariant
            i <= files@.len(),
            all == named_files(files@),
            zip_names_fit(all),
            zip_names_differ(all),
            zip_sound(zip),
            zip_entries(zip) == all.take(i as int),
            !zip_excess(all.take(i as int)),
        decreases files@.len() - i,
    {
        let ghost had = all.take(i as int);
        let name = files[i].0.as_str();
        let bytes = files[i].1.as_slice();
        assert(all[i as int] == (name@, bytes@));
        let ghost begun = had.push((name@, Seq::<u8>::empty()));
        assert(all.take(i + 1) =~= had.push(all[i as int]));
        assert(begun.drop_last() =~= had);
        proof {
            assert(zip_small(all) ==> zip_small(had));
            assert(zip_names_differ(all) ==> !zip_holds(had, name@)) by {
                if zip_names_differ(all) && zip_holds(had, name@) {
                    let j = choose|j: int| 0 <= j < had.len() && (#[trigger] had[j]).0 == name@;
                    assert(all[j].0 != all[i as int].0);
                }
            }
        }
        match start_zip_file(&mut zip, name) {
            Ok(_) => {},
            Err(e) => {
                return Err(e);
            },
        }
        match write_zip_bytes(&mut zip, bytes) {
            Ok(_) => {},
            Err(e) => {
                assert(all[i as int].1.len() > MAX_ZIP_FILE);
                return Err(e);
            },
        }
        assert(zip_entries(zip) =~= all.take(i + 1));
        assert(!zip_excess(all.take(i + 1))) by {
            if zip_excess(all.take(i + 1)) {
                let j = choose|j: int|
                    0 <= j < i + 1 && (#[trigger] all.take(i + 1)[j]).1.len() > MAX_ZIP_FILE;
                assert(had[j] == all[j]);
            }
        }
        i += 1;
    }
    assert(all.take(i as int) =~= all);
    finish_zip(zip)
}

/// Packs named files into a ZIP archive, in order, passing over those that are refused; nothing
/// comes of an archive that cannot be finished. Of small files with different names none is
/// refused.
pub(crate) fn pack_zip_openly(files: &Vec<(String, Vec<u8>)>) -> (r: Vec<u8>)
    requires
        zip_names_fit(named_files(files@)),
    ensures
        zip_small(named_files(files@)) && zip_names_differ(named_files(files@)) ==> r@ == zip_bytes(
            named_files(files@),
        ),
{
    let ghost all = named_files(files@);
    let ghost fine = zip_small(all) && zip_names_differ(all);
    let mut zip = new_zip();
    let mut i: usize = 0;
    assert(all.take(0) =~= Seq::empty());
    while i < files.len()
        invariant
            i <= files@.len(),
            all == named_files(files@),
            fine == (zip_small(all) && zip_names_differ(all)),
            zip_names_fit(all),
            fine ==> zip_sound(zip) && zip_entries(zip) == all.take(i as int),
        decreases files@.len() - i,
    {
        let ghost had = all.take(i as int);
        let name = files[i].0.as_str();
        let bytes = files[i].1.as_slice();
        assert(all[i as int] == (name@, bytes@));
        let ghost begun = had.push((name@, Seq::<u8>::empty()));
        assert(all.take(i + 1) =~= had.push(all[i as int]));
        assert(begun.drop_last() =~= had);
        proof {
            assert(zip_small(all) ==> zip_small(had));
            assert(zip_names_differ(all) ==> !zip_holds(had, name@)) by {
                if zip_names_differ(all) && zip_holds(had, name@) {
                    let j = choose|j: int| 0 <= j < had.len() && (#[trigger] had[j]).0 == name@;
                    assert(all[j].0 != all[i as int].0);
                }
            }
        }
        if start_zip_file(&mut zip, name).is_ok() {
            let _ = write_zip_bytes(&mut zip, bytes);
        }
        assert(fine ==> zip_entries(zip) =~= all.take(i + 1));
        i += 1;
    }
    assert(all.take(i as int) =~= all);
    match finish_zip(zip) {
        Ok(b) => b,
        Err(_) => Vec::new(),
    }
}

/// The model of an optional text.
pub open spec fn opt_text_view(s: Option<String>) -> Option<Seq<char>> {
    match s {
        Some(s) => Some(s@),
        None => None,
    }
}

} // verus!
