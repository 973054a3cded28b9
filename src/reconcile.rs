//! Reconciling a newly read media record against the index: a record at the
//! same path is updated in its dimensions and capture date only, or left
//! alone when those match; content already indexed elsewhere is refused; any
//! other record is created.
use vstd::prelude::*;
use crate::datetime::DateTime;
use crate::models::{IngestError, Media, Thumbnail};

verus! {

/// The fields a re-ingestion writes, each only when its value changed.
#[derive(Clone, Copy, Debug, PartialEq, Eq, Structural)]
pub struct FieldChanges {
    pub width: Option<i32>,
    pub height: Option<i32>,
    pub date: Option<Option<DateTime>>,
}

/// How an ingestion left the index.
#[derive(Clone, Copy, Debug, PartialEq, Eq, Structural)]
pub enum Reconciliation {
    Created,
    Updated(FieldChanges),
    Unchanged,
}

/// The changes that bring `existing` in line with `candidate`: width,
/// height and capture date, each only where they differ.
pub open spec fn changes_between(existing: Media, candidate: Media) -> FieldChanges {
    FieldChanges {
        width: if existing.width != candidate.width { Some(candidate.width) } else { None },
        height: if existing.height != candidate.height { Some(candidate.height) } else { None },
        date: if existing.date != candidate.date { Some(candidate.date) } else { None },
    }
}

/// Width, height and capture date agree.
pub open spec fn same_decoded(a: Media, b: Media) -> bool {
    a.width == b.width && a.height == b.height && a.date == b.date
}

/// The outcome of reconciling `candidate` with the record at its path.
pub open spec fn reconciliation_of(existing: Option<Media>, candidate: Media) -> Reconciliation {
    match existing {
        None => Reconciliation::Created,
        Some(e) => if same_decoded(e, candidate) {
            Reconciliation::Unchanged
        } else {
            Reconciliation::Updated(changes_between(e, candidate))
        },
    }
}

/// `m` with the changed fields written.
pub open spec fn with_changes(m: Media, c: FieldChanges) -> Media {
    Media {
        width: match c.width { Some(w) => w, None => m.width },
        height: match c.height { Some(h) => h, None => m.height },
        date: match c.date { Some(d) => d, None => m.date },
        ..m
    }
}

fn same_date(a: &Option<DateTime>, b: &Option<DateTime>) -> (r: bool)
    ensures
        r == (*a == *b),
{
    match (a, b) {
        (Some(x), Some(y)) => *x == *y,
        (None, None) => true,
        _ => false,
    }
}

/// Decides how `candidate` changes the record `existing` found at its path.
/// With the same width, height and date it is unchanged; otherwise exactly
/// the differing ones of those three are to be written.
pub fn reconcile(existing: Option<&Media>, candidate: &Media) -> (r: Reconciliation)
    ensures
        r == reconciliation_of(match existing { Some(e) => Some(*e), None => None }, *candidate),
{
    match existing {
        None => Reconciliation::Created,
        Some(e) => {
            let same_date = same_date(&e.date, &candidate.date);
            if e.width == candidate.width && e.height == candidate.height && same_date {
                Reconciliation::Unchanged
            } else {
                Reconciliation::Updated(FieldChanges {
                    width: if e.width != candidate.width { Some(candidate.width) } else { None },
                    height: if e.height != candidate.height { Some(candidate.height) } else { None },
                    date: if !same_date { Some(candidate.date) } else { None },
                })
            }
        },
    }
}

/// Writes the changed fields into a record and touches no other field.
pub fn apply_changes(m: &mut Media, c: &FieldChanges)
    ensures
        *final(m) == with_changes(*old(m), *c),
{
    if let Some(w) = c.width {
        m.width = w;
    }
    if let Some(h) = c.height {
        m.height = h;
    }
    if let Some(d) = c.date {
        m.date = d;
    }
}

/// Re-ingesting a record with the same width, height and capture date is
/// reported unchanged; changing any of them, such as the width by one
/// pixel, is an update that writes exactly the changed fields and leaves
/// every other field, content id and path included, as it was.
pub proof fn reconciliation_is_minimal(existing: Media, candidate: Media)
    ensures
        reconciliation_of(Some(existing), candidate) == Reconciliation::Unchanged <==> same_decoded(existing, candidate),
        !same_decoded(existing, candidate) ==> ({
            let c = changes_between(existing, candidate);
            let u = with_changes(existing, c);
            &&& reconciliation_of(Some(existing), candidate) == Reconciliation::Updated(c)
            &&& (c.width is Some <==> existing.width != candidate.width)
            &&& (c.height is Some <==> existing.height != candidate.height)
            &&& (c.date is Some <==> existing.date != candidate.date)
            &&& same_decoded(u, candidate)
            &&& u.id == existing.id && u.path == existing.path && u.rotation == existing.rotation
            &&& u.is_public == existing.is_public && u.story == existing.story
            &&& u.lat == existing.lat && u.lon == existing.lon && u.make == existing.make
            &&& u.model == existing.model && u.caption == existing.caption
        }),
{
}

/// Content ids are unique, and so are paths.
pub open spec fn index_wf(rs: Seq<Media>) -> bool {
    forall|i: int, j: int|
        0 <= i < rs.len() && 0 <= j < rs.len() && i != j ==> rs[i].id@ != rs[j].id@ && rs[i].path@ != rs[j].path@
}

pub open spec fn has_path(rs: Seq<Media>, p: Seq<char>) -> bool {
    exists|i: int| 0 <= i < rs.len() && rs[i].path@ == p
}

pub open spec fn has_id(rs: Seq<Media>, id: Seq<char>) -> bool {
    exists|i: int| 0 <= i < rs.len() && rs[i].id@ == id
}

/// The position of the record with path `p`.
pub open spec fn path_slot(rs: Seq<Media>, p: Seq<char>) -> int {
    choose|i: int| 0 <= i < rs.len() && rs[i].path@ == p
}

/// The record after reconciliation.
pub open spec fn reconciled(m: Media, r: Reconciliation) -> Media {
    match r {
        Reconciliation::Updated(c) => with_changes(m, c),
        _ => m,
    }
}

/// The records and the outcome after ingesting `c` into the records `rs`.
pub open spec fn ingest_spec(rs: Seq<Media>, c: Media) -> (Seq<Media>, Result<Reconciliation, IngestError>) {
    if has_path(rs, c.path@) {
        let i = path_slot(rs, c.path@);
        let r = reconciliation_of(Some(rs[i]), c);
        (rs.update(i, reconciled(rs[i], r)), Ok(r))
    } else if has_id(rs, c.id@) {
        (rs, Err(IngestError::AlreadyIndexed))
    } else {
        (rs.push(c), Ok(Reconciliation::Created))
    }
}

/// Whether ingesting `c` adds a new record, rather than reconciling the record
/// at its path or refusing content already indexed.
pub open spec fn creates(rs: Seq<Media>, c: Media) -> bool {
    !has_path(rs, c.path@) && !has_id(rs, c.id@)
}

/// `t` keyed by the content id of `c`.
pub open spec fn keyed_thumbnail(c: Media, t: Thumbnail) -> Thumbnail {
    Thumbnail { id: c.id, ..t }
}

/// A consistent store: records with unique ids and paths, one thumbnail per
/// record keyed by its content id, and one stored file per record at its path.
pub open spec fn store_wf(rs: Seq<Media>, ts: Seq<Thumbnail>, ps: Seq<Seq<char>>) -> bool {
    &&& index_wf(rs)
    &&& ts.len() == rs.len()
    &&& ps.len() == rs.len()
    &&& forall|i: int| 0 <= i < rs.len() ==> #[trigger] ts[i].id@ == rs[i].id@ && ps[i] == rs[i].path@
}

/// Records, thumbnails and stored file paths, and the outcome, after
/// ingesting `c` with its thumbnail `t`: the thumbnail is kept and the bytes
/// are written only when a record is created.
pub open spec fn ingest_store(rs: Seq<Media>, ts: Seq<Thumbnail>, ps: Seq<Seq<char>>, c: Media, t: Thumbnail)
    -> (Seq<Media>, Seq<Thumbnail>, Seq<Seq<char>>, Result<Reconciliation, IngestError>) {
    let (rs1, out) = ingest_spec(rs, c);
    if creates(rs, c) {
        (rs1, ts.push(keyed_thumbnail(c, t)), ps.push(c.path@), out)
    } else {
        (rs1, ts, ps, out)
    }
}

proof fn lemma_ingest_keeps_wf(rs: Seq<Media>, c: Media)
    requires
        index_wf(rs),
    ensures
        index_wf(ingest_spec(rs, c).0),
        ingest_spec(rs, c).1 is Ok ==> has_path(ingest_spec(rs, c).0, c.path@),
        ingest_spec(rs, c).1 is Ok ==> ({
            let rs1 = ingest_spec(rs, c).0;
            let k = path_slot(rs1, c.path@);
            same_decoded(rs1[k], c)
        }),
{
    let (rs1, out) = ingest_spec(rs, c);
    if has_path(rs, c.path@) {
        let i = path_slot(rs, c.path@);
        assert(rs1[i].path@ == c.path@);
        assert(index_wf(rs1));
        let k = path_slot(rs1, c.path@);
        assert(k == i);
    } else if !has_id(rs, c.id@) {
        let n = rs.len() as int;
        assert(rs1[n] == c);
        assert(index_wf(rs1));
        let k = path_slot(rs1, c.path@);
        assert(k == n);
    }
}

/// Ingesting the same record twice never creates a second record: the
/// second ingestion reports it unchanged, or refuses it as already indexed
/// when the first did, and leaves the index as the first left it.
pub proof fn reingestion_is_idempotent(rs: Seq<Media>, c: Media)
    requires
        index_wf(rs),
    ensures
        ({
            let (rs1, first) = ingest_spec(rs, c);
            let (rs2, second) = ingest_spec(rs1, c);
            &&& rs2 == rs1
            &&& rs1.len() <= rs.len() + 1
            &&& (second == Ok::<Reconciliation, IngestError>(Reconciliation::Unchanged)
                || second == Err::<Reconciliation, IngestError>(IngestError::AlreadyIndexed))
            &&& first is Err ==> second == first
        }),
{
    lemma_ingest_keeps_wf(rs, c);
    let (rs1, first) = ingest_spec(rs, c);
    if first is Ok {
        let k = path_slot(rs1, c.path@);
        let (rs2, second) = ingest_spec(rs1, c);
        assert(reconciliation_of(Some(rs1[k]), c) == Reconciliation::Unchanged);
        assert(rs2 =~= rs1);
    }
}

proof fn lemma_ingest_store_keeps_wf(rs: Seq<Media>, ts: Seq<Thumbnail>, ps: Seq<Seq<char>>, c: Media, t: Thumbnail)
    requires
        store_wf(rs, ts, ps),
    ensures
        ({
            let (rs1, ts1, ps1, out) = ingest_store(rs, ts, ps, c, t);
            store_wf(rs1, ts1, ps1)
        }),
{
    lemma_ingest_keeps_wf(rs, c);
    let (rs1, ts1, ps1, out) = ingest_store(rs, ts, ps, c, t);
    if has_path(rs, c.path@) {
        let i = path_slot(rs, c.path@);
        assert forall|j: int| 0 <= j < rs1.len() implies #[trigger] ts1[j].id@ == rs1[j].id@ && ps1[j] == rs1[j].path@ by {
            assert(rs1[j].id == rs[j].id && rs1[j].path == rs[j].path);
        }
    } else if creates(rs, c) {
        assert forall|j: int| 0 <= j < rs1.len() implies #[trigger] ts1[j].id@ == rs1[j].id@ && ps1[j] == rs1[j].path@ by {
            if j < rs.len() {
                assert(ts1[j] == ts[j] && ps1[j] == ps[j] && rs1[j] == rs[j]);
            }
        }
    }
}

/// Ingesting the same content twice never creates a second record, a second
/// thumbnail or a second copy of the bytes: the second ingestion leaves
/// records, thumbnails and stored files as the first left them, and the
/// store stays consistent, with at most one record, one thumbnail and one
/// stored file for each content id.
pub proof fn reingestion_stores_once(rs: Seq<Media>, ts: Seq<Thumbnail>, ps: Seq<Seq<char>>, c: Media, t: Thumbnail)
    requires
        store_wf(rs, ts, ps),
    ensures
        ({
            let (rs1, ts1, ps1, first) = ingest_store(rs, ts, ps, c, t);
            let (rs2, ts2, ps2, second) = ingest_store(rs1, ts1, ps1, c, t);
            &&& store_wf(rs1, ts1, ps1)
            &&& rs2 == rs1 && ts2 == ts1 && ps2 == ps1
            &&& ps1.len() <= ps.len() + 1
            &&& ps1.no_duplicates()
            &&& (second == Ok::<Reconciliation, IngestError>(Reconciliation::Unchanged)
                || second == Err::<Reconciliation, IngestError>(IngestError::AlreadyIndexed))
        }),
{
    reingestion_is_idempotent(rs, c);
    lemma_ingest_store_keeps_wf(rs, ts, ps, c, t);
    let (rs1, ts1, ps1, first) = ingest_store(rs, ts, ps, c, t);
    lemma_ingest_keeps_wf(rs, c);
    if first is Ok {
        assert(has_path(rs1, c.path@));
        assert(!creates(rs1, c));
    } else {
        assert(!creates(rs, c));
        assert(rs1 == rs);
        assert(!creates(rs1, c));
    }
    assert forall|i: int, j: int| 0 <= i < ps1.len() && 0 <= j < ps1.len() && i != j implies ps1[i] != ps1[j] by {
        assert(ts1[i].id@ == rs1[i].id@ && ps1[i] == rs1[i].path@);
        assert(ts1[j].id@ == rs1[j].id@ && ps1[j] == rs1[j].path@);
    }
}

/// An index of media records, keyed by content id and by path.
pub struct MediaIndex {
    records: Vec<Media>,
    thumbnails: Vec<Thumbnail>,
    stored: Vec<String>,
}

impl View for MediaIndex {
    type V = Seq<Media>;

    closed spec fn view(&self) -> Seq<Media> {
        self.records@
    }
}

impl MediaIndex {
    /// The thumbnails kept, one per record.
    pub closed spec fn thumbnails(&self) -> Seq<Thumbnail> {
        self.thumbnails@
    }

    /// The paths at which media bytes were written, one per record.
    pub closed spec fn stored(&self) -> Seq<Seq<char>> {
        self.stored@.map_values(|p: String| p@)
    }

    /// Records, thumbnails and stored files agree.
    pub open spec fn wf(&self) -> bool {
        store_wf(self@, self.thumbnails(), self.stored())
    }

    /// An empty index.
    pub fn new() -> (r: MediaIndex)
        ensures
            r@ == Seq::<Media>::empty(),
            r.thumbnails() == Seq::<Thumbnail>::empty(),
            r.stored() == Seq::<Seq<char>>::empty(),
            r.wf(),
    {
        let r = MediaIndex { records: Vec::new(), thumbnails: Vec::new(), stored: Vec::new() };
        assert(r.stored() =~= Seq::<Seq<char>>::empty());
        r
    }

    /// The number of thumbnails kept.
    pub fn thumbnail_count(&self) -> (r: usize)
        ensures
            r == self.thumbnails().len(),
    {
        self.thumbnails.len()
    }

    /// The paths at which bytes were written, in order.
    pub fn stored_paths(&self) -> (r: &Vec<String>)
        ensures
            r@.map_values(|p: String| p@) == self.stored(),
    {
        &self.stored
    }

    /// The number of records.
    pub fn len(&self) -> (r: usize)
        ensures
            r == self@.len(),
    {
        self.records.len()
    }

    /// The record at position `i`.
    pub fn get(&self, i: usize) -> (r: &Media)
        requires
            i < self@.len(),
        ensures
            *r == self@[i as int],
    {
        &self.records[i]
    }

    /// The position of the record stored at `path`.
    pub fn find_by_path(&self, path: &String) -> (r: Option<usize>)
        ensures
            match r {
                Some(i) => i < self@.len() && self@[i as int].path@ == path@,
                None => !has_path(self@, path@),
            },
    {
        let mut i: usize = 0;
        while i < self.records.len()
            invariant
                i <= self.records@.len(),
                forall|j: int| 0 <= j < i ==> self.records@[j].path@ != path@,
            decreases self.records@.len() - i,
        {
            if self.records[i].path == *path {
                return Some(i);
            }
            i = i + 1;
        }
        None
    }

    /// Whether a record with content id `id` exists.
    pub fn contains_id(&self, id: &String) -> (r: bool)
        ensures
            r == has_id(self@, id@),
    {
        let mut i: usize = 0;
        while i < self.records.len()
            invariant
                i <= self.records@.len(),
                forall|j: int| 0 <= j < i ==> self.records@[j].id@ != id@,
            decreases self.records@.len() - i,
        {
            if self.records[i].id == *id {
                return true;
            }
            i = i + 1;
        }
        false
    }

    /// Ingests a record with its thumbnail: reconciles it with the record at
    /// its path if there is one, refuses it as already indexed if its content
    /// id is present under another path, and otherwise adds it, keeps its
    /// thumbnail (keyed by its content id) and records that its bytes are
    /// stored at its path.
    pub fn ingest(&mut self, candidate: Media, thumbnail: Thumbnail) -> (r: Result<Reconciliation, IngestError>)
        requires
            old(self).wf(),
        ensures
            final(self).wf(),
            (final(self)@, final(self).thumbnails(), final(self).stored(), r)
                == ingest_store(old(self)@, old(self).thumbnails(), old(self).stored(), candidate, thumbnail),
    {
        proof {
            lemma_ingest_store_keeps_wf(self@, self.thumbnails(), self.stored(), candidate, thumbnail);
            lemma_ingest_keeps_wf(self@, candidate);
        }
        match self.find_by_path(&candidate.path) {
            Some(i) => {
                let ghost rs = self.records@;
                proof {
                    let j = path_slot(rs, candidate.path@);
                    assert(has_path(rs, candidate.path@));
                    assert(j == i as int);
                }
                let r = reconcile(Some(&self.records[i]), &candidate);
                if let Reconciliation::Updated(c) = r {
                    let mut m = self.records[i].duplicate();
                    apply_changes(&mut m, &c);
                    self.records[i] = m;
                }
                Ok(r)
            },
            None => {
                if self.contains_id(&candidate.id) {
                    Err(IngestError::AlreadyIndexed)
                } else {
                    let ghost before = self.stored();
                    let path = candidate.path.clone();
                    let keyed = Thumbnail { id: candidate.id.clone(), content: thumbnail.content, mimetype: thumbnail.mimetype };
                    self.records.push(candidate);
                    self.thumbnails.push(keyed);
                    self.stored.push(path);
                    assert(self.stored() =~= before.push(path@));
                    Ok(Reconciliation::Created)
                }
            },
        }
    }
}

} // verus!
