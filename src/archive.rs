//! The streaming ZIP encoder: one archive session, entries opened, fed and
//! closed one at a time, then the central directory.
use vstd::prelude::*;

use crate::checksum::{crc32_update, crc_of_chunks, flatten, lemma_flatten_push};
use crate::layout::{
    central_record, data_descriptor, lemma_central_record_len, data_descriptor_bytes, end_record, end_record_bytes,
    local_header, local_header_bytes, push_bytes, push_central_record, CENTRAL_HEADER_LEN,
    DATA_DESCRIPTOR_LEN, END_RECORD_LEN, LOCAL_HEADER_LEN, MAX_U16, MAX_U32,
};

verus! {

/// Local header, bytes and data descriptor of one stored entry.
pub open spec fn entry_section(name: Seq<u8>, chunks: Seq<Seq<u8>>) -> Seq<u8> {
    local_header(name) + flatten(chunks) + data_descriptor(
        crc_of_chunks(chunks),
        flatten(chunks).len() as u32,
    )
}

/// The sections of the first `n` entries, in order.
pub open spec fn sections(names: Seq<Seq<u8>>, bodies: Seq<Seq<Seq<u8>>>, n: int) -> Seq<u8>
    decreases n,
{
    if n <= 0 {
        Seq::empty()
    } else {
        sections(names, bodies, n - 1) + entry_section(names[n - 1], bodies[n - 1])
    }
}

/// The central directory records of the first `n` entries, in order.
pub open spec fn directory(names: Seq<Seq<u8>>, bodies: Seq<Seq<Seq<u8>>>, n: int) -> Seq<u8>
    decreases n,
{
    if n <= 0 {
        Seq::empty()
    } else {
        directory(names, bodies, n - 1) + central_record(
            names[n - 1],
            crc_of_chunks(bodies[n - 1]),
            flatten(bodies[n - 1]).len() as u32,
            sections(names, bodies, n - 1).len() as u32,
        )
    }
}

/// The complete archive of the entries named `names` whose bytes came as `bodies`.
pub open spec fn archive_image(names: Seq<Seq<u8>>, bodies: Seq<Seq<Seq<u8>>>) -> Seq<u8> {
    let body = sections(names, bodies, names.len() as int);
    let dir = directory(names, bodies, names.len() as int);
    body + dir + end_record(names.len() as u16, dir.len() as u32, body.len() as u32)
}

/// Sections and directory of the first `n` entries depend on those entries alone.
pub proof fn lemma_prefix_agree(
    a: Seq<Seq<u8>>,
    ab: Seq<Seq<Seq<u8>>>,
    b: Seq<Seq<u8>>,
    bb: Seq<Seq<Seq<u8>>>,
    n: int,
)
    requires
        0 <= n <= a.len(),
        n <= ab.len(),
        n <= b.len(),
        n <= bb.len(),
        forall|i: int| 0 <= i < n ==> a[i] == b[i] && ab[i] == bb[i],
    ensures
        sections(a, ab, n) == sections(b, bb, n),
        directory(a, ab, n) == directory(b, bb, n),
    decreases n,
{
    if n > 0 {
        lemma_prefix_agree(a, ab, b, bb, n - 1);
    }
}

/// Each entry adds one record, of 46 bytes and its name, to the directory.
pub proof fn lemma_directory_len(names: Seq<Seq<u8>>, bodies: Seq<Seq<Seq<u8>>>, n: int)
    requires
        0 < n,
    ensures
        directory(names, bodies, 0) == Seq::<u8>::empty(),
        directory(names, bodies, n).len() == directory(names, bodies, n - 1).len()
            + CENTRAL_HEADER_LEN + names[n - 1].len(),
{
    lemma_central_record_len(
        names[n - 1],
        crc_of_chunks(bodies[n - 1]),
        flatten(bodies[n - 1]).len() as u32,
        sections(names, bodies, n - 1).len() as u32,
    );
}

/// The directory only grows as entries are added.
pub proof fn lemma_directory_grows(names: Seq<Seq<u8>>, bodies: Seq<Seq<Seq<u8>>>, i: int, n: int)
    requires
        0 <= i <= n,
    ensures
        directory(names, bodies, i).len() <= directory(names, bodies, n).len(),
    decreases n,
{
    if i < n {
        lemma_directory_grows(names, bodies, i, n - 1);
    }
}

/// An entry that received no bytes is its local header, no data, and a data
/// descriptor with the CRC-32 of the empty string (zero) and size zero.
pub proof fn lemma_empty_entry(name: Seq<u8>, chunks: Seq<Seq<u8>>)
    requires
        forall|j: int| 0 <= j < chunks.len() ==> (#[trigger] chunks[j]).len() > 0,
        flatten(chunks).len() == 0,
    ensures
        chunks.len() == 0,
        entry_section(name, chunks) == local_header(name) + data_descriptor(0, 0),
{
    if chunks.len() > 0 {
        assert(chunks.last().len() > 0);
        assert(flatten(chunks).len() >= chunks.last().len());
    }
    assert(flatten(chunks) =~= Seq::<u8>::empty());
    assert(local_header(name) + Seq::<u8>::empty() =~= local_header(name));
}

/// What the format's fixed-width fields cannot hold.
#[derive(Debug, Clone, Copy, PartialEq, Eq)]
pub enum EncodeError {
    /// The entry name is longer than 65535 bytes.
    NameTooLong,
    /// The archive already holds 65535 entries.
    TooManyEntries,
    /// The archive would grow past 4 GiB, the reach of its 32-bit offsets.
    ArchiveTooLarge,
}

/// A finalized entry, as its central directory record describes it.
#[derive(Debug)]
pub struct EntryRecord {
    pub name: Vec<u8>,
    pub crc32: u32,
    pub size: u32,
    pub offset: u32,
}

/// The entry being streamed: its running CRC-32 and byte count.
#[derive(Debug)]
pub struct EntryCursor {
    pub name: Vec<u8>,
    pub offset: u32,
    pub crc32: u32,
    pub size: u32,
}

/// One archive being written front to back. Each operation returns the
/// bytes that go to the sink next; `emitted` is everything handed out so far.
pub struct ArchiveSession {
    records: Vec<EntryRecord>,
    cursor: Option<EntryCursor>,
    offset: u64,
    finished: bool,
    bodies: Ghost<Seq<Seq<Seq<u8>>>>,
    chunks: Ghost<Seq<Seq<u8>>>,
    emitted: Ghost<Seq<u8>>,
}

impl ArchiveSession {
    /// Names of the finalized entries, in the order they were closed.
    pub closed spec fn names(&self) -> Seq<Seq<u8>> {
        self.records@.map_values(|r: EntryRecord| r.name@)
    }

    /// Chunks of each finalized entry, in arrival order.
    pub closed spec fn bodies(&self) -> Seq<Seq<Seq<u8>>> {
        self.bodies@
    }

    /// Chunks of the open entry so far.
    pub closed spec fn open_chunks(&self) -> Seq<Seq<u8>> {
        self.chunks@
    }

    pub closed spec fn entry_open(&self) -> bool {
        self.cursor is Some
    }

    pub closed spec fn open_name(&self) -> Seq<u8> {
        self.cursor->Some_0.name@
    }

    pub closed spec fn is_finished(&self) -> bool {
        self.finished
    }

    /// Every byte handed out for the sink, in order.
    pub closed spec fn emitted(&self) -> Seq<u8> {
        self.emitted@
    }

    pub closed spec fn wf(&self) -> bool {
        let n = self.records@.len();
        let names = self.names();
        &&& self.bodies@.len() == n
        &&& n <= MAX_U16
        &&& self.emitted@.len() == self.offset
        &&& self.offset <= MAX_U32
        &&& forall|i: int|
            0 <= i < n ==> {
                &&& (#[trigger] self.records@[i]).name@.len() <= MAX_U16
                &&& self.records@[i].crc32 == crc_of_chunks(self.bodies@[i])
                &&& self.records@[i].size == flatten(self.bodies@[i]).len()
                &&& self.records@[i].offset == sections(names, self.bodies@, i).len()
            }
        &&& forall|i: int, j: int|
            0 <= i < n && 0 <= j < self.bodies@[i].len() ==> (#[trigger] self.bodies@[i][j]).len()
                > 0
        &&& forall|j: int| 0 <= j < self.chunks@.len() ==> (#[trigger] self.chunks@[j]).len() > 0
        &&& self.finished ==> self.cursor is None && self.emitted@ == archive_image(
            names,
            self.bodies@,
        )
        &&& !self.finished && self.cursor is None ==> self.chunks@.len() == 0 && self.emitted@
            == sections(names, self.bodies@, n as int)
        &&& self.cursor matches Some(c) ==> {
            &&& n < MAX_U16
            &&& c.name@.len() <= MAX_U16
            &&& c.offset == sections(names, self.bodies@, n as int).len()
            &&& c.crc32 == crc_of_chunks(self.chunks@)
            &&& c.size == flatten(self.chunks@).len()
            &&& self.emitted@ == sections(names, self.bodies@, n as int) + local_header(c.name@)
                + flatten(self.chunks@)
        }
    }

    /// What a well-formed session has emitted, in terms of its entries.
    pub proof fn lemma_emitted(&self)
        requires
            self.wf(),
        ensures
            self.bodies().len() == self.names().len(),
            self.names().len() <= MAX_U16,
            self.emitted().len() <= MAX_U32,
            self.is_finished() ==> !self.entry_open() && self.emitted() == archive_image(
                self.names(),
                self.bodies(),
            ),
            !self.is_finished() && !self.entry_open() ==> self.open_chunks().len() == 0
                && self.emitted() == sections(
                self.names(),
                self.bodies(),
                self.names().len() as int,
            ),
            self.entry_open() ==> self.emitted() == sections(
                self.names(),
                self.bodies(),
                self.names().len() as int,
            ) + local_header(self.open_name()) + flatten(self.open_chunks()),
            forall|i: int, j: int|
                0 <= i < self.bodies().len() && 0 <= j < self.bodies()[i].len() ==> (
                #[trigger] self.bodies()[i][j]).len() > 0,
            forall|j: int|
                0 <= j < self.open_chunks().len() ==> (#[trigger] self.open_chunks()[j]).len() > 0,
    {
    }

    /// A session bound to a sink that has received nothing yet.
    pub fn new() -> (s: ArchiveSession)
        ensures
            s.wf(),
            s.names() == Seq::<Seq<u8>>::empty(),
            s.bodies() == Seq::<Seq<Seq<u8>>>::empty(),
            s.emitted() == Seq::<u8>::empty(),
            !s.entry_open(),
            !s.is_finished(),
    {
        let s = ArchiveSession {
            records: Vec::new(),
            cursor: None,
            offset: 0,
            finished: false,
            bodies: Ghost(Seq::empty()),
            chunks: Ghost(Seq::empty()),
            emitted: Ghost(Seq::empty()),
        };
        assert(s.names() =~= Seq::<Seq<u8>>::empty());
        s
    }

    pub fn is_entry_open(&self) -> (r: bool)
        ensures
            r == self.entry_open(),
    {
        self.cursor.is_some()
    }

    pub fn entry_count(&self) -> (r: usize)
        ensures
            r == self.names().len(),
    {
        self.records.len()
    }

    /// Starts a stored entry named `name` and returns its local header, whose
    /// CRC-32 and size fields stay zero until the data descriptor.
    pub fn begin_entry(&mut self, name: &[u8]) -> (r: Result<Vec<u8>, EncodeError>)
        requires
            old(self).wf(),
            !old(self).entry_open(),
            !old(self).is_finished(),
        ensures
            final(self).wf(),
            match r {
                Ok(header) => {
                    &&& header@ == local_header(name@)
                    &&& header@.len() == LOCAL_HEADER_LEN + name@.len()
                    &&& final(self).emitted() == old(self).emitted() + header@
                    &&& final(self).entry_open()
                    &&& final(self).open_name() == name@
                    &&& final(self).open_chunks() == Seq::<Seq<u8>>::empty()
                    &&& final(self).names() == old(self).names()
                    &&& final(self).bodies() == old(self).bodies()
                    &&& !final(self).is_finished()
                },
                Err(e) => *final(self) == *old(self),
            },
            r == Err::<Vec<u8>, EncodeError>(EncodeError::NameTooLong) <==> name@.len() > MAX_U16,
            r == Err::<Vec<u8>, EncodeError>(EncodeError::TooManyEntries) <==> name@.len()
                <= MAX_U16 && old(self).names().len() >= MAX_U16,
            r == Err::<Vec<u8>, EncodeError>(EncodeError::ArchiveTooLarge) <==> name@.len()
                <= MAX_U16 && old(self).names().len() < MAX_U16 && old(self).emitted().len()
                + LOCAL_HEADER_LEN + name@.len() > MAX_U32,
    {
        if name.len() as u64 > MAX_U16 {
            return Err(EncodeError::NameTooLong);
        }
        if self.records.len() as u64 >= MAX_U16 {
            return Err(EncodeError::TooManyEntries);
        }
        if self.offset + LOCAL_HEADER_LEN + name.len() as u64 > MAX_U32 {
            return Err(EncodeError::ArchiveTooLarge);
        }
        let header = local_header_bytes(name);
        let mut stored: Vec<u8> = Vec::new();
        push_bytes(&mut stored, name);
        assert(stored@ =~= name@);
        self.cursor = Some(EntryCursor { name: stored, offset: self.offset as u32, crc32: 0, size: 0 });
        self.offset = self.offset + header.len() as u64;
        self.emitted = Ghost(self.emitted@ + header@);
        assert(flatten(self.chunks@) =~= Seq::<u8>::empty());
        assert(self.emitted@ =~= sections(self.names(), self.bodies@, self.records@.len() as int)
            + local_header(name@) + flatten(self.chunks@));
        Ok(header)
    }

    /// Feeds the next chunk of the open entry; the caller sends the chunk
    /// itself to the sink. An empty chunk changes nothing.
    pub fn write(&mut self, chunk: &[u8]) -> (r: Result<(), EncodeError>)
        requires
            old(self).wf(),
            old(self).entry_open(),
        ensures
            final(self).wf(),
            r is Ok <==> old(self).emitted().len() + chunk@.len() <= MAX_U32,
            r == Err::<(), EncodeError>(EncodeError::ArchiveTooLarge) <==> r is Err,
            r is Err ==> *final(self) == *old(self),
            r is Ok ==> {
                &&& final(self).emitted() == old(self).emitted() + chunk@
                &&& final(self).open_chunks() == if chunk@.len() == 0 {
                    old(self).open_chunks()
                } else {
                    old(self).open_chunks().push(chunk@)
                }
                &&& final(self).entry_open()
                &&& final(self).open_name() == old(self).open_name()
                &&& final(self).names() == old(self).names()
                &&& final(self).bodies() == old(self).bodies()
                &&& !final(self).is_finished()
            },
    {
        if chunk.len() as u64 > MAX_U32 - self.offset {
            return Err(EncodeError::ArchiveTooLarge);
        }
        if chunk.len() == 0 {
            assert(self.emitted@ + chunk@ =~= self.emitted@);
            return Ok(());
        }
        let ghost old_chunks = self.chunks@;
        let ghost before = self.emitted@;
        let mut cursor = self.cursor.take().unwrap();
        proof {
            lemma_flatten_push(old_chunks, chunk@);
        }
        cursor.crc32 = crc32_update(cursor.crc32, chunk);
        cursor.size = (cursor.size as u64 + chunk.len() as u64) as u32;
        self.cursor = Some(cursor);
        self.offset = self.offset + chunk.len() as u64;
        self.chunks = Ghost(old_chunks.push(chunk@));
        self.emitted = Ghost(before + chunk@);
        assert forall|j: int| 0 <= j < self.chunks@.len() implies (#[trigger] self.chunks@[j]).len()
            > 0 by {
            if j < old_chunks.len() {
                assert(self.chunks@[j] == old_chunks[j]);
            }
        }
        assert(self.emitted@ =~= sections(self.names(), self.bodies@, self.records@.len() as int)
            + local_header(self.cursor->Some_0.name@) + flatten(self.chunks@));
        Ok(())
    }
    /// Ends the open entry and returns its data descriptor, which carries
    /// the entry's CRC-32 and size.
    pub fn close_entry(&mut self) -> (r: Result<Vec<u8>, EncodeError>)
        requires
            old(self).wf(),
            old(self).entry_open(),
        ensures
            final(self).wf(),
            r is Ok <==> old(self).emitted().len() + DATA_DESCRIPTOR_LEN <= MAX_U32,
            r is Err ==> r == Err::<Vec<u8>, EncodeError>(EncodeError::ArchiveTooLarge)
                && *final(self) == *old(self),
            r matches Ok(d) ==> {
                &&& d@ == data_descriptor(
                    crc_of_chunks(old(self).open_chunks()),
                    flatten(old(self).open_chunks()).len() as u32,
                )
                &&& d@.len() == DATA_DESCRIPTOR_LEN
                &&& final(self).emitted() == old(self).emitted() + d@
                &&& !final(self).entry_open()
                &&& final(self).names() == old(self).names().push(old(self).open_name())
                &&& final(self).bodies() == old(self).bodies().push(old(self).open_chunks())
                &&& final(self).open_chunks() == Seq::<Seq<u8>>::empty()
                &&& !final(self).is_finished()
            },
    {
        if self.offset > MAX_U32 - DATA_DESCRIPTOR_LEN {
            return Err(EncodeError::ArchiveTooLarge);
        }
        let ghost old_names = self.names();
        let ghost old_bodies = self.bodies@;
        let ghost n = self.records@.len() as int;
        let ghost chunks = self.chunks@;
        let cursor = self.cursor.take().unwrap();
        let descriptor = data_descriptor_bytes(cursor.crc32, cursor.size);
        self.records.push(
            EntryRecord {
                name: cursor.name,
                crc32: cursor.crc32,
                size: cursor.size,
                offset: cursor.offset,
            },
        );
        self.offset = self.offset + DATA_DESCRIPTOR_LEN;
        self.bodies = Ghost(old_bodies.push(chunks));
        self.chunks = Ghost(Seq::empty());
        self.emitted = Ghost(self.emitted@ + descriptor@);
        proof {
            let names = self.names();
            assert(names =~= old_names.push(self.records@[n].name@));
            lemma_prefix_agree(names, self.bodies@, old_names, old_bodies, n);
            assert forall|i: int| 0 <= i <= n implies sections(names, self.bodies@, i)
                == sections(old_names, old_bodies, i) by {
                lemma_prefix_agree(names, self.bodies@, old_names, old_bodies, i);
            }
            assert(self.emitted@ =~= sections(names, self.bodies@, n + 1));
            assert forall|i: int, j: int|
                0 <= i < n + 1 && 0 <= j < self.bodies@[i].len() implies (
                #[trigger] self.bodies@[i][j]).len() > 0 by {
                if i < n {
                    assert(self.bodies@[i] == old_bodies[i]);
                }
            }
            assert forall|i: int| 0 <= i < n + 1 implies {
                &&& (#[trigger] self.records@[i]).name@.len() <= MAX_U16
                &&& self.records@[i].crc32 == crc_of_chunks(self.bodies@[i])
                &&& self.records@[i].size == flatten(self.bodies@[i]).len()
                &&& self.records@[i].offset == sections(names, self.bodies@, i).len()
            } by {
                if i < n {
                    assert(self.bodies@[i] == old_bodies[i]);
                }
            }
        }
        Ok(descriptor)
    }

    /// Writes the central directory, one record per entry in the order the
    /// entries were closed, and the end-of-central-directory record.
    pub fn finish(&mut self) -> (r: Result<Vec<u8>, EncodeError>)
        requires
            old(self).wf(),
            !old(self).entry_open(),
            !old(self).is_finished(),
        ensures
            final(self).wf(),
            r is Ok <==> old(self).emitted().len() + directory(
                old(self).names(),
                old(self).bodies(),
                old(self).names().len() as int,
            ).len() + END_RECORD_LEN <= MAX_U32,
            r is Err ==> r == Err::<Vec<u8>, EncodeError>(EncodeError::ArchiveTooLarge)
                && *final(self) == *old(self),
            r matches Ok(t) ==> {
                &&& final(self).emitted() == old(self).emitted() + t@
                &&& final(self).emitted() == archive_image(old(self).names(), old(self).bodies())
                &&& final(self).is_finished()
                &&& !final(self).entry_open()
                &&& final(self).names() == old(self).names()
                &&& final(self).bodies() == old(self).bodies()
                &&& final(self).open_chunks() == old(self).open_chunks()
            },
    {
        let ghost names = self.names();
        let ghost bodies = self.bodies@;
        let n = self.records.len();
        proof {
            lemma_directory_grows(names, bodies, 0, n as int);
        }
        if self.offset > MAX_U32 - END_RECORD_LEN {
            return Err(EncodeError::ArchiveTooLarge);
        }
        let mut out: Vec<u8> = Vec::new();
        let mut dir_len: u64 = 0;
        let mut i: usize = 0;
        while i < n
            invariant
                self.wf(),
                n == self.records@.len(),
                names == self.names(),
                bodies == self.bodies@,
                i <= n,
                out@ == directory(names, bodies, i as int),
                dir_len == out@.len(),
                self.offset + dir_len + END_RECORD_LEN <= MAX_U32,
            decreases n - i,
        {
            let rec = &self.records[i];
            let add = CENTRAL_HEADER_LEN + rec.name.len() as u64;
            if add > MAX_U32 - END_RECORD_LEN - self.offset - dir_len {
                proof {
                    assert(names[i as int] == rec.name@);
                    lemma_central_record_len(
                        names[i as int],
                        crc_of_chunks(bodies[i as int]),
                        flatten(bodies[i as int]).len() as u32,
                        sections(names, bodies, i as int).len() as u32,
                    );
                    lemma_directory_grows(names, bodies, i + 1, n as int);
                }
                return Err(EncodeError::ArchiveTooLarge);
            }
            push_central_record(&mut out, rec.name.as_slice(), rec.crc32, rec.size, rec.offset);
            assert(names[i as int] == rec.name@);
            dir_len = dir_len + add;
            i = i + 1;
        }
        let end = end_record_bytes(n as u16, dir_len as u32, self.offset as u32);
        push_bytes(&mut out, end.as_slice());
        self.emitted = Ghost(self.emitted@ + out@);
        self.offset = self.offset + dir_len + END_RECORD_LEN;
        self.finished = true;
        assert(self.emitted@ =~= archive_image(names, bodies));
        Ok(out)
    }
}

} // verus!
