//! The storage root: where a media file's bytes go, the checks made before
//! anything is written, and the walk that discovers the files under it.
use vstd::prelude::*;
use crate::image::{create_thumbnail, read_media_from, read_media_outcome, reads_as_media, media_rotation_of, thumbnail_jpeg_of};
use crate::identity::{kind_from_mime_type, kind_of_mime_type, MediaKind};
use crate::models::{IngestError, Media, Thumbnail};

verus! {

/// The storage root of a media collection.
pub struct Collection {
    pub basedir: String,
}

/// `rel` under `base`: `rel` itself when it is absolute or `base` is empty,
/// else the two joined by exactly one separator.
pub open spec fn join_path(base: Seq<char>, rel: Seq<char>) -> Seq<char> {
    if (rel.len() > 0 && rel[0] == '/') || base.len() == 0 {
        rel
    } else if base.last() == '/' {
        base + rel
    } else {
        base + seq!['/'] + rel
    }
}

fn join(base: &String, rel: &String) -> (r: String)
    ensures
        r@ == join_path(base@, rel@),
{
    proof {
        reveal_strlit("/");
    }
    let b = base.as_str();
    let rs = rel.as_str();
    let rn = rs.unicode_len();
    let bn = b.unicode_len();
    if (rn > 0 && rs.get_char(0) == '/') || bn == 0 {
        rel.clone()
    } else if b.get_char(bn - 1) == '/' {
        let mut out = base.clone();
        out.append(rs);
        out
    } else {
        let mut out = base.clone();
        out.append("/");
        out.append(rs);
        out
    }
}

impl Collection {
    /// Where the bytes of a media record are stored.
    pub fn get_raw_path(&self, media: &Media) -> (r: String)
        ensures
            r@ == join_path(self.basedir@, media.path@),
    {
        join(&self.basedir, &media.path)
    }
}

/// The check made before a media file's bytes are written: content already
/// indexed is refused, and so is a path that an unindexed file occupies.
pub fn admission(already_indexed: bool, path_occupied: bool) -> (r: Result<(), IngestError>)
    ensures
        already_indexed ==> r matches Err(IngestError::AlreadyIndexed),
        !already_indexed && path_occupied ==> r matches Err(IngestError::PathConflict),
        !already_indexed && !path_occupied ==> r is Ok,
{
    if already_indexed {
        Err(IngestError::AlreadyIndexed)
    } else if path_occupied {
        Err(IngestError::PathConflict)
    } else {
        Ok(())
    }
}

/// Decides which decoder an upload goes through: an empty upload is
/// refused, then the top-level part of the declared mime type picks images
/// or videos; any other type is refused, naming it.
pub fn choose_media_kind(file_len: usize, mime_type: &str, essence: &str) -> (r: Result<MediaKind, IngestError>)
    ensures
        file_len == 0 ==> r matches Err(IngestError::Empty),
        file_len > 0 ==> match kind_of_mime_type(mime_type@) {
            Some(k) => r matches Ok(x) && x == k,
            None => r matches Err(IngestError::UnsupportedFormat(d)) && (d matches Some(t) && t@ == essence@),
        },
{
    if file_len == 0 {
        return Err(IngestError::Empty);
    }
    match kind_from_mime_type(mime_type) {
        Some(k) => Ok(k),
        None => Err(IngestError::UnsupportedFormat(Some(String::from_str(essence)))),
    }
}

/// Reads an uploaded image into its media record and thumbnail, before
/// anything is stored: an empty upload is refused, then the record is read
/// and the thumbnail made for it.
pub fn prepare_image(image_bytes: &[u8], story: &str) -> (r: Result<(Media, Thumbnail), IngestError>)
    ensures
        image_bytes@.len() == 0 ==> r matches Err(IngestError::Empty),
        image_bytes@.len() > 0 ==> match r {
            Ok((m, t)) => read_media_outcome(image_bytes@, story@, Ok(m)) && t.id@ == m.id@
                && thumbnail_jpeg_of(image_bytes@, m.rotation) == Some(t.content@),
            Err(e) => if reads_as_media(image_bytes@) {
                e is CorruptMedia && thumbnail_jpeg_of(image_bytes@, media_rotation_of(image_bytes@)) is None
            } else {
                read_media_outcome(image_bytes@, story@, Err(e))
            },
        },
{
    if image_bytes.len() == 0 {
        return Err(IngestError::Empty);
    }
    let media = read_media_from(image_bytes, story)?;
    let thumbnail = create_thumbnail(&media, image_bytes)?;
    Ok((media, thumbnail))
}

/// What a directory entry is.
#[derive(Clone, Copy, Debug, PartialEq, Eq, Structural)]
pub enum EntryKind {
    File,
    Directory,
    Other,
}

/// One entry of a directory listing.
#[derive(Clone, Debug)]
pub struct DirEntry {
    pub name: String,
    pub kind: EntryKind,
}

/// The path of `name` inside the root-relative directory `dir`.
pub open spec fn child_path(dir: Seq<char>, name: Seq<char>) -> Seq<char> {
    if dir.len() == 0 {
        name
    } else {
        dir + seq!['/'] + name
    }
}

/// The root-relative paths of the entries of kind `kind`, in listing order.
pub open spec fn paths_of_kind(dir: Seq<char>, entries: Seq<DirEntry>, kind: EntryKind) -> Seq<Seq<char>>
    decreases entries.len(),
{
    if entries.len() == 0 {
        Seq::empty()
    } else {
        let rest = paths_of_kind(dir, entries.drop_last(), kind);
        if entries.last().kind == kind {
            rest.push(child_path(dir, entries.last().name@))
        } else {
            rest
        }
    }
}

/// The number of entries of kind `kind`.
pub open spec fn count_of_kind(entries: Seq<DirEntry>, kind: EntryKind) -> nat
    decreases entries.len(),
{
    if entries.len() == 0 {
        0
    } else {
        count_of_kind(entries.drop_last(), kind) + if entries.last().kind == kind { 1nat } else { 0nat }
    }
}

/// A file or directory name: not empty and without a separator.
pub open spec fn plain_name(n: Seq<char>) -> bool {
    n.len() > 0 && forall|i: int| 0 <= i < n.len() ==> n[i] != '/'
}

/// Paths built from different directories or different names differ: a
/// path names its directory and its entry unambiguously.
pub proof fn child_paths_differ(d1: Seq<char>, n1: Seq<char>, d2: Seq<char>, n2: Seq<char>)
    requires
        plain_name(n1),
        plain_name(n2),
        child_path(d1, n1) == child_path(d2, n2),
    ensures
        d1 == d2,
        n1 == n2,
{
    let p = child_path(d1, n1);
    let l = p.len() as int;
    if d1.len() == 0 && d2.len() == 0 {
    } else if d1.len() == 0 {
        assert(p[d2.len() as int] == '/');
        assert(n1[d2.len() as int] == '/');
    } else if d2.len() == 0 {
        assert(p[d1.len() as int] == '/');
        assert(n2[d1.len() as int] == '/');
    } else {
        if n1.len() < n2.len() {
            let k = l - n1.len() - 1;
            assert(p[k] == '/');
            assert(n2[k - (l - n2.len())] == '/');
        } else if n2.len() < n1.len() {
            let k = l - n2.len() - 1;
            assert(p[k] == '/');
            assert(n1[k - (l - n1.len())] == '/');
        } else {
            assert(n1 =~= p.subrange(l - n1.len(), l));
            assert(n2 =~= p.subrange(l - n2.len(), l));
            assert(d1 =~= p.subrange(0, d1.len() as int));
            assert(d2 =~= p.subrange(0, d2.len() as int));
        }
    }
}

/// The listing of one directory gives one visit per regular file, each at
/// the file's path relative to the root, and no path twice; with
/// `child_paths_differ`, listings of different directories share no path.
pub proof fn crawl_visits_each_file_once(dir: Seq<char>, entries: Seq<DirEntry>)
    requires
        forall|i: int| 0 <= i < entries.len() ==> plain_name(#[trigger] entries[i].name@),
        forall|i: int, j: int| 0 <= i < entries.len() && 0 <= j < entries.len() && i != j
            ==> entries[i].name@ != entries[j].name@,
    ensures
        paths_of_kind(dir, entries, EntryKind::File).len() == count_of_kind(entries, EntryKind::File),
        paths_of_kind(dir, entries, EntryKind::File).no_duplicates(),
        forall|k: int| 0 <= k < paths_of_kind(dir, entries, EntryKind::File).len() ==> exists|i: int|
            0 <= i < entries.len() && entries[i].kind == EntryKind::File
            && #[trigger] paths_of_kind(dir, entries, EntryKind::File)[k] == child_path(dir, entries[i].name@),
    decreases entries.len(),
{
    if entries.len() > 0 {
        let init = entries.drop_last();
        assert forall|i: int| 0 <= i < init.len() implies plain_name(#[trigger] init[i].name@) by {
            assert(init[i] == entries[i]);
        }
        crawl_visits_each_file_once(dir, init);
        let rest = paths_of_kind(dir, init, EntryKind::File);
        let last = entries.last();
        let n = entries.len() - 1;
        assert(plain_name(entries[n].name@));
        if last.kind == EntryKind::File {
            let all = rest.push(child_path(dir, last.name@));
            assert forall|k: int| 0 <= k < rest.len() implies #[trigger] all[k] != all[rest.len() as int] by {
                let i = choose|i: int| 0 <= i < init.len() && init[i].kind == EntryKind::File
                    && rest[k] == child_path(dir, init[i].name@);
                assert(init[i] == entries[i]);
                assert(plain_name(entries[i].name@));
                if all[k] == all[rest.len() as int] {
                    child_paths_differ(dir, init[i].name@, dir, last.name@);
                }
            }
            assert forall|k: int| 0 <= k < all.len() implies exists|i: int|
                0 <= i < entries.len() && entries[i].kind == EntryKind::File
                && #[trigger] all[k] == child_path(dir, entries[i].name@) by {
                if k < rest.len() {
                    let i = choose|i: int| 0 <= i < init.len() && init[i].kind == EntryKind::File
                        && rest[k] == child_path(dir, init[i].name@);
                    assert(init[i] == entries[i]);
                } else {
                    assert(entries[n] == last);
                }
            }
        } else {
            assert forall|k: int| 0 <= k < rest.len() implies exists|i: int|
                0 <= i < entries.len() && entries[i].kind == EntryKind::File
                && #[trigger] rest[k] == child_path(dir, entries[i].name@) by {
                let i = choose|i: int| 0 <= i < init.len() && init[i].kind == EntryKind::File
                    && rest[k] == child_path(dir, init[i].name@);
                assert(init[i] == entries[i]);
            }
        }
    }
}

fn child(dir: &String, name: &String) -> (r: String)
    ensures
        r@ == child_path(dir@, name@),
{
    proof {
        reveal_strlit("/");
    }
    if dir.as_str().unicode_len() == 0 {
        name.clone()
    } else {
        let mut out = dir.clone();
        out.append("/");
        out.append(name.as_str());
        out
    }
}

/// A walk over the storage root: directories still to be listed, relative
/// to the root. The caller lists each directory the walk hands out and
/// gives the listing back; the walk answers with the regular files to visit.
pub struct Crawl {
    pending: Vec<String>,
}

impl View for Crawl {
    type V = Seq<Seq<char>>;

    closed spec fn view(&self) -> Seq<Seq<char>> {
        self.pending@.map_values(|d: String| d@)
    }
}

impl Crawl {
    /// A walk that starts at the root-relative directory `start`.
    pub fn new(start: String) -> (r: Crawl)
        ensures
            r@ == seq![start@],
    {
        let mut pending = Vec::new();
        pending.push(start);
        let r = Crawl { pending };
        assert(r@ =~= seq![start@]);
        r
    }

    /// The next directory to list, if any remains.
    pub fn next_dir(&mut self) -> (r: Option<String>)
        ensures
            old(self)@.len() == 0 ==> r is None && final(self)@ == old(self)@,
            old(self)@.len() > 0 ==> (r matches Some(d) && d@ == old(self)@.last()
                && final(self)@ == old(self)@.drop_last()),
    {
        let r = self.pending.pop();
        proof {
            if old(self)@.len() > 0 {
                assert(self@ =~= old(self)@.drop_last());
            }
        }
        r
    }

    /// Takes the listing of `dir`: its subdirectories are queued, in listing
    /// order, and the paths of its regular files are returned; other
    /// entries are skipped.
    pub fn visit_listing(&mut self, dir: &String, entries: &Vec<DirEntry>) -> (files: Vec<String>)
        ensures
            files@.map_values(|f: String| f@) == paths_of_kind(dir@, entries@, EntryKind::File),
            final(self)@ == old(self)@ + paths_of_kind(dir@, entries@, EntryKind::Directory),
    {
        let mut files: Vec<String> = Vec::new();
        let mut i: usize = 0;
        let ghost start = self@;
        while i < entries.len()
            invariant
                i <= entries@.len(),
                files@.map_values(|f: String| f@) == paths_of_kind(dir@, entries@.subrange(0, i as int), EntryKind::File),
                self@ == start + paths_of_kind(dir@, entries@.subrange(0, i as int), EntryKind::Directory),
            decreases entries@.len() - i,
        {
            let e = &entries[i];
            let ghost pre = entries@.subrange(0, i + 1);
            proof {
                assert(pre.drop_last() =~= entries@.subrange(0, i as int));
                assert(pre.last() == *e);
            }
            match e.kind {
                EntryKind::File => {
                    files.push(child(dir, &e.name));
                    assert(files@.map_values(|f: String| f@) =~= paths_of_kind(dir@, pre, EntryKind::File));
                    assert(self@ =~= start + paths_of_kind(dir@, pre, EntryKind::Directory));
                },
                EntryKind::Directory => {
                    let c = child(dir, &e.name);
                    let ghost before = self@;
                    self.pending.push(c);
                    assert(self@ =~= before.push(c@));
                    assert(files@.map_values(|f: String| f@) =~= paths_of_kind(dir@, pre, EntryKind::File));
                    assert(self@ =~= start + paths_of_kind(dir@, pre, EntryKind::Directory));
                },
                EntryKind::Other => {
                    assert(files@.map_values(|f: String| f@) =~= paths_of_kind(dir@, pre, EntryKind::File));
                    assert(self@ =~= start + paths_of_kind(dir@, pre, EntryKind::Directory));
                },
            }
            i = i + 1;
        }
        assert(entries@.subrange(0, entries@.len() as int) =~= entries@);
        files
    }
}

/// A command that indexes the files under some directories of the storage
/// root.
pub struct Findphotos {
    /// The storage root.
    pub photos_dir: String,
    /// Directories to search, relative to the root; none means the root itself.
    pub base: Vec<String>,
}

impl Findphotos {
    /// The root-relative directories to crawl: those given, or the root.
    pub fn run(&self) -> (r: Vec<String>)
        ensures
            self.base@.len() == 0 ==> r@.len() == 1 && r@[0]@ == Seq::<char>::empty(),
            self.base@.len() > 0 ==> r@ == self.base@,
    {
        if self.base.len() == 0 {
            let mut r = Vec::new();
            r.push(String::new());
            r
        } else {
            self.base.clone()
        }
    }
}

} // verus!
