//! The asynchronous write syscall's marshalling and resolution. The raw
//! kernel reinterprets a struct's memory as bytes when it rides the
//! submission ring; here the record has an explicit fixed layout instead:
//! eight little-endian bytes of file-descriptor word, eight little-endian
//! bytes of message length, then the message bytes. Decoding is the exact
//! inverse of encoding.

use vstd::prelude::*;

verus! {

/// Flag bit marking a value as an error code (or a file-descriptor word
/// as a reference to an earlier syscall's returned value).
pub const ONLY_MSB_OF_USIZE: u64 = 0x8000_0000_0000_0000;

/// Error code reported when a write lands on something that is not an
/// open file.
pub const READ_ON_CLOSED_FILE: u64 = 1;

/// The asynchronous syscalls that ride the submission ring.
#[derive(Copy, Clone, Debug, PartialEq, Eq, Structural)]
pub enum AsyncSyscalls {
    OpenFile,
    ReadFile,
    WriteFile,
    CloseFile,
}

/// Byte `k` of the little-endian encoding of `v`.
pub open spec fn spec_le_byte(v: u64, k: int) -> u8 {
    ((v >> (8 * k)) & 0xFF) as u8
}

/// The eight-byte little-endian encoding of `v`.
pub open spec fn spec_le_bytes(v: u64) -> Seq<u8> {
    Seq::new(8, |k: int| spec_le_byte(v, k))
}

/// Writes the eight little-endian bytes of `v` onto the end of `out`.
fn push_le_bytes(out: &mut Vec<u8>, v: u64)
    ensures
        final(out)@ == old(out)@ + spec_le_bytes(v),
{
    let mut k: usize = 0;
    while k < 8
        invariant
            k <= 8,
            out@.len() == old(out)@.len() + k,
            forall|j: int| 0 <= j < old(out)@.len() ==> #[trigger] out@[j] == old(out)@[j],
            forall|j: int| 0 <= j < k
                ==> #[trigger] out@[old(out)@.len() + j] == spec_le_byte(v, j),
        decreases 8 - k,
    {
        out.push(((v >> ((8 * k) as u64)) & 0xFF) as u8);
        k = k + 1;
    }
    proof {
        assert forall|i: int| 0 <= i < out@.len() implies out@[i] == (old(out)@ + spec_le_bytes(
            v,
        ))[i] by {
            if i >= old(out)@.len() {
                let j = i - old(out)@.len();
                assert(out@[old(out)@.len() + j] == spec_le_byte(v, j));
            }
        }
        assert(out@ =~= old(out)@ + spec_le_bytes(v));
    }
}

/// The value eight little-endian bytes encode.
pub open spec fn spec_le_value(b: Seq<u8>) -> u64
    recommends
        b.len() == 8,
{
    (b[0] as u64) | (b[1] as u64) << 8 | (b[2] as u64) << 16 | (b[3] as u64) << 24 | (
    b[4] as u64) << 32 | (b[5] as u64) << 40 | (b[6] as u64) << 48 | (b[7] as u64) << 56
}

/// Encoding the value eight bytes decode to gives those bytes back: the
/// eight-byte wire form of a value is unique.
pub proof fn lemma_le_bytes_of_value(b: Seq<u8>)
    requires
        b.len() == 8,
    ensures
        spec_le_bytes(spec_le_value(b)) =~= b,
{
    let b0 = b[0];
    let b1 = b[1];
    let b2 = b[2];
    let b3 = b[3];
    let b4 = b[4];
    let b5 = b[5];
    let b6 = b[6];
    let b7 = b[7];
    let v = (b0 as u64) | (b1 as u64) << 8 | (b2 as u64) << 16 | (b3 as u64) << 24 | (
    b4 as u64) << 32 | (b5 as u64) << 40 | (b6 as u64) << 48 | (b7 as u64) << 56;
    assert(((v >> 0) & 0xFF) as u8 == b0 && ((v >> 8) & 0xFF) as u8 == b1 && ((v >> 16) & 0xFF)
        as u8 == b2 && ((v >> 24) & 0xFF) as u8 == b3 && ((v >> 32) & 0xFF) as u8 == b4 && ((v
        >> 40) & 0xFF) as u8 == b5 && ((v >> 48) & 0xFF) as u8 == b6 && ((v >> 56) & 0xFF) as u8
        == b7) by (bit_vector)
        requires
            v == (b0 as u64) | (b1 as u64) << 8 | (b2 as u64) << 16 | (b3 as u64) << 24
                | (b4 as u64) << 32 | (b5 as u64) << 40 | (b6 as u64) << 48 | (b7 as u64)
                << 56,
    ;
    assert(spec_le_value(b) == v);
    assert forall|k: int| 0 <= k < 8 implies spec_le_bytes(v)[k] == b[k] by {
        if k == 0 {
            assert(spec_le_byte(v, 0) == b0);
        } else if k == 1 {
            assert(spec_le_byte(v, 1) == b1);
        } else if k == 2 {
            assert(spec_le_byte(v, 2) == b2);
        } else if k == 3 {
            assert(spec_le_byte(v, 3) == b3);
        } else if k == 4 {
            assert(spec_le_byte(v, 4) == b4);
        } else if k == 5 {
            assert(spec_le_byte(v, 5) == b5);
        } else if k == 6 {
            assert(spec_le_byte(v, 6) == b6);
        } else {
            assert(spec_le_byte(v, 7) == b7);
        }
    }
}

/// Eight little-endian bytes decode back to the value they encode.
pub proof fn lemma_le_round_trip(v: u64)
    ensures
        spec_le_value(spec_le_bytes(v)) == v,
{
    let b = spec_le_bytes(v);
    assert(((((v >> 0) & 0xFF) as u8) as u64) | ((((v >> 8) & 0xFF) as u8) as u64) << 8 | ((((
    v >> 16) & 0xFF) as u8) as u64) << 16 | ((((v >> 24) & 0xFF) as u8) as u64) << 24 | ((((v
        >> 32) & 0xFF) as u8) as u64) << 32 | ((((v >> 40) & 0xFF) as u8) as u64) << 40 | ((((
    v >> 48) & 0xFF) as u8) as u64) << 48 | ((((v >> 56) & 0xFF) as u8) as u64) << 56 == v)
        by (bit_vector);
    assert(b[0] == ((v >> 0) & 0xFF) as u8);
    assert(b[1] == ((v >> 8) & 0xFF) as u8);
    assert(b[2] == ((v >> 16) & 0xFF) as u8);
    assert(b[3] == ((v >> 24) & 0xFF) as u8);
    assert(b[4] == ((v >> 32) & 0xFF) as u8);
    assert(b[5] == ((v >> 40) & 0xFF) as u8);
    assert(b[6] == ((v >> 48) & 0xFF) as u8);
    assert(b[7] == ((v >> 56) & 0xFF) as u8);
}

/// Reads the eight little-endian bytes at `off` of `bytes`.
fn read_le_bytes(bytes: &Vec<u8>, off: usize) -> (r: u64)
    requires
        off + 8 <= bytes@.len(),
    ensures
        r == spec_le_value(bytes@.subrange(off as int, off as int + 8)),
{
    let n = bytes.len();
    proof {
        assert(off + 8 <= n);
    }
    let r = (bytes[off] as u64) | (bytes[off + 1] as u64) << 8u64 | (bytes[off + 2]
        as u64) << 16u64 | (bytes[off + 3] as u64) << 24u64 | (bytes[off + 4] as u64)
        << 32u64 | (bytes[off + 5] as u64) << 40u64 | (bytes[off + 6] as u64) << 48u64
        | (bytes[off + 7] as u64) << 56u64;
    proof {
        let b = bytes@.subrange(off as int, off as int + 8);
        assert(b[0] == bytes@[off as int]);
        assert(b[1] == bytes@[off as int + 1]);
        assert(b[2] == bytes@[off as int + 2]);
        assert(b[3] == bytes@[off as int + 3]);
        assert(b[4] == bytes@[off as int + 4]);
        assert(b[5] == bytes@[off as int + 5]);
        assert(b[6] == bytes@[off as int + 6]);
        assert(b[7] == bytes@[off as int + 7]);
    }
    r
}

/// Two records with the same wire form are the same record: the fixed
/// layout loses nothing.
pub proof fn lemma_wire_encoding_injective(a: AsyncWriteSyscallData, b: AsyncWriteSyscallData)
    requires
        a.spec_bytes() == b.spec_bytes(),
        a.message@.len() <= u64::MAX,
        b.message@.len() <= u64::MAX,
    ensures
        a.afd == b.afd,
        a.message@ == b.message@,
{
    lemma_le_round_trip(a.afd);
    lemma_le_round_trip(b.afd);
    lemma_le_round_trip(a.message@.len() as u64);
    lemma_le_round_trip(b.message@.len() as u64);
    assert(a.spec_bytes().subrange(0, 8) =~= spec_le_bytes(a.afd));
    assert(b.spec_bytes().subrange(0, 8) =~= spec_le_bytes(b.afd));
    assert(spec_le_value(spec_le_bytes(a.afd)) == spec_le_value(spec_le_bytes(b.afd)));
    assert(a.spec_bytes().subrange(8, 16) =~= spec_le_bytes(a.message@.len() as u64));
    assert(b.spec_bytes().subrange(8, 16) =~= spec_le_bytes(b.message@.len() as u64));
    assert(spec_le_value(spec_le_bytes(a.message@.len() as u64)) == spec_le_value(
        spec_le_bytes(b.message@.len() as u64),
    ));
    assert(a.message@.len() == b.message@.len());
    assert(a.message@ =~= a.spec_bytes().subrange(16, a.spec_bytes().len() as int));
    assert(b.message@ =~= b.spec_bytes().subrange(16, b.spec_bytes().len() as int));
}

/// Payload of one asynchronous write: which file-descriptor word it
/// targets and the message bytes to write.
#[derive(Debug, PartialEq, Eq)]
pub struct AsyncWriteSyscallData {
    pub afd: u64,
    pub message: Vec<u8>,
}

impl AsyncWriteSyscallData {
    /// The record's fixed wire layout: descriptor word, message length,
    /// message bytes.
    pub open spec fn spec_bytes(self) -> Seq<u8> {
        spec_le_bytes(self.afd) + spec_le_bytes(self.message@.len() as u64) + self.message@
    }

    /// Encodes the record in its fixed wire layout.
    pub fn as_bytes(&self) -> (r: Vec<u8>)
        ensures
            r@ == self.spec_bytes(),
    {
        let mut out: Vec<u8> = Vec::new();
        push_le_bytes(&mut out, self.afd);
        push_le_bytes(&mut out, self.message.len() as u64);
        let mut k: usize = 0;
        let n = self.message.len();
        while k < n
            invariant
                k <= n,
                n == self.message@.len(),
                out@ == spec_le_bytes(self.afd) + spec_le_bytes(n as u64) + self.message@
                    .subrange(0, k as int),
            decreases n - k,
        {
            out.push(self.message[k]);
            proof {
                assert(out@ =~= spec_le_bytes(self.afd) + spec_le_bytes(n as u64)
                    + self.message@.subrange(0, k as int + 1));
            }
            k = k + 1;
        }
        proof {
            assert(self.message@.subrange(0, n as int) =~= self.message@);
        }
        out
    }

    /// Decodes a wire record. Exactly the byte strings `as_bytes`
    /// produces decode, and they decode to the record that produced them.
    #[verifier::loop_isolation(false)]
    pub fn from_bytes(bytes: &Vec<u8>) -> (r: Option<AsyncWriteSyscallData>)
        ensures
            match r {
                Some(d) => {
                    &&& bytes@ == d.spec_bytes()
                    &&& bytes@.len() >= 16
                },
                None => forall|d: AsyncWriteSyscallData| bytes@ != #[trigger] d.spec_bytes(),
            },
    {
        if bytes.len() < 16 {
            proof {
                assert forall|d: AsyncWriteSyscallData| bytes@ != #[trigger] d.spec_bytes() by {
                    assert(d.spec_bytes().len() >= 16);
                }
            }
            return None;
        }
        let afd = read_le_bytes(bytes, 0);
        let len = read_le_bytes(bytes, 8);
        if len != (bytes.len() - 16) as u64 {
            proof {
                assert forall|d: AsyncWriteSyscallData| bytes@ != #[trigger] d.spec_bytes() by {
                    if bytes@ == d.spec_bytes() {
                        lemma_le_round_trip(d.message@.len() as u64);
                        assert(bytes@.subrange(8, 16) =~= spec_le_bytes(
                            d.message@.len() as u64,
                        ));
                        assert(len == d.message@.len());
                        assert(bytes@.len() == 16 + d.message@.len());
                    }
                }
            }
            return None;
        }
        let mut message: Vec<u8> = Vec::new();
        let len_us = bytes.len() - 16;
        let mut k: usize = 0;
        while k < len_us
            invariant
                k <= len_us,
                16 + len_us == bytes@.len(),
                message@ =~= bytes@.subrange(16, 16 + k as int),
            decreases len_us - k,
        {
            message.push(bytes[16 + k]);
            proof {
                assert(message@ =~= bytes@.subrange(16, 16 + k as int + 1));
            }
            k = k + 1;
        }
        let d = AsyncWriteSyscallData { afd, message };
        proof {
            lemma_le_bytes_of_value(bytes@.subrange(0, 8));
            lemma_le_bytes_of_value(bytes@.subrange(8, 16));
            assert(spec_le_bytes(afd) =~= bytes@.subrange(0, 8));
            assert(spec_le_bytes(len) =~= bytes@.subrange(8, 16));
            assert(d.message@ =~= bytes@.subrange(16, bytes@.len() as int));
            assert(d.spec_bytes() =~= bytes@);
        }
        Some(d)
    }
}


/// The descriptor word an asynchronous write targets: either a real file
/// descriptor, or — top bit set — a reference to the value an earlier
/// asynchronous syscall returned.
#[derive(Copy, Clone, Debug, PartialEq, Eq, Structural)]
pub enum AsyncFileDescriptor {
    FileDescriptor(u64),
    AsyncSyscallReturnValue(u64),
}

impl AsyncFileDescriptor {
    /// The word the descriptor travels as: the value itself, or the
    /// value with the top bit set for a returned-value reference.
    pub open spec fn spec_word(self) -> u64 {
        match self {
            AsyncFileDescriptor::FileDescriptor(v) => v,
            AsyncFileDescriptor::AsyncSyscallReturnValue(v) => ONLY_MSB_OF_USIZE | v,
        }
    }

    /// Encodes the descriptor as its word.
    pub fn to_word(self) -> (r: u64)
        ensures
            r == self.spec_word(),
    {
        match self {
            AsyncFileDescriptor::FileDescriptor(v) => v,
            AsyncFileDescriptor::AsyncSyscallReturnValue(v) => ONLY_MSB_OF_USIZE | v,
        }
    }

    /// The descriptor a word denotes.
    pub open spec fn spec_from_word(w: u64) -> AsyncFileDescriptor {
        if w & ONLY_MSB_OF_USIZE != 0 {
            AsyncFileDescriptor::AsyncSyscallReturnValue(w & !ONLY_MSB_OF_USIZE)
        } else {
            AsyncFileDescriptor::FileDescriptor(w)
        }
    }

    /// Decodes a descriptor word.
    pub fn from_word(w: u64) -> (r: AsyncFileDescriptor)
        ensures
            r == Self::spec_from_word(w),
    {
        if w & ONLY_MSB_OF_USIZE != 0 {
            AsyncFileDescriptor::AsyncSyscallReturnValue(w & !ONLY_MSB_OF_USIZE)
        } else {
            AsyncFileDescriptor::FileDescriptor(w)
        }
    }

    /// Encoding and decoding a descriptor whose value keeps clear of the
    /// flag bit is lossless.
    pub proof fn lemma_word_round_trip(self)
        requires
            (match self {
                AsyncFileDescriptor::FileDescriptor(v) => v,
                AsyncFileDescriptor::AsyncSyscallReturnValue(v) => v,
            }) & ONLY_MSB_OF_USIZE == 0,
        ensures
            Self::spec_from_word(self.spec_word()) == self,
    {
        match self {
            AsyncFileDescriptor::FileDescriptor(v) => {
                assert(self.spec_word() == v);
            },
            AsyncFileDescriptor::AsyncSyscallReturnValue(v) => {
                let w = ONLY_MSB_OF_USIZE | v;
                assert(w & 0x8000_0000_0000_0000u64 != 0 && w & !0x8000_0000_0000_0000u64 == v)
                    by (bit_vector)
                    requires
                        w == 0x8000_0000_0000_0000u64 | v,
                        v & 0x8000_0000_0000_0000u64 == 0,
                ;
            },
        }
    }
}

/// The values earlier asynchronous syscalls returned, keyed by request
/// identifier: which syscall it was and what it returned.
pub struct AsyncReturnedValues {
    map: Vec<(u64, (AsyncSyscalls, u64))>,
}

/// The first entry of `m` carrying key `k`, if any.
pub open spec fn spec_assoc_lookup(
    m: Seq<(u64, (AsyncSyscalls, u64))>,
    k: u64,
) -> Option<(AsyncSyscalls, u64)>
    decreases m.len(),
{
    if m.len() == 0 {
        None
    } else if m[0].0 == k {
        Some(m[0].1)
    } else {
        spec_assoc_lookup(m.drop_first(), k)
    }
}

impl AsyncReturnedValues {
    /// The recorded entries, oldest first.
    pub closed spec fn spec_map(self) -> Seq<(u64, (AsyncSyscalls, u64))> {
        self.map@
    }

    /// An empty record.
    pub fn new() -> (r: Self)
        ensures
            r.spec_map() =~= Seq::<(u64, (AsyncSyscalls, u64))>::empty(),
    {
        AsyncReturnedValues { map: Vec::new() }
    }

    /// Records what a finished asynchronous syscall returned.
    pub fn insert(&mut self, key: u64, syscall: AsyncSyscalls, value: u64)
        ensures
            final(self).spec_map() == old(self).spec_map().push((key, (syscall, value))),
    {
        self.map.push((key, (syscall, value)));
    }

    /// Looks a request identifier up, matching `spec_assoc_lookup`.
    #[verifier::loop_isolation(false)]
    pub fn lookup(&self, key: u64) -> (r: Option<(AsyncSyscalls, u64)>)
        ensures
            r == spec_assoc_lookup(self.spec_map(), key),
    {
        let n = self.map.len();
        proof {
            assert(self.spec_map().skip(0) =~= self.spec_map());
        }
        let mut i: usize = 0;
        while i < n
            invariant
                i <= n,
                spec_assoc_lookup(self.spec_map(), key) == spec_assoc_lookup(
                    self.spec_map().skip(i as int),
                    key,
                ),
            decreases n - i,
        {
            proof {
                assert(self.spec_map().skip(i as int)[0] == self.spec_map()[i as int]);
                assert(self.spec_map().skip(i as int).drop_first() =~= self.spec_map().skip(
                    i as int + 1,
                ));
            }
            let entry = self.map[i];
            if entry.0 == key {
                return Some(entry.1);
            }
            i = i + 1;
        }
        proof {
            assert(self.spec_map().skip(n as int).len() == 0);
        }
        None
    }
}

/// How the descriptor word of an asynchronous write resolves: a file
/// descriptor to write through, or an error word to hand straight back.
#[derive(Copy, Clone, Debug, PartialEq, Eq, Structural)]
pub enum WriteResolution {
    UseFd(u64),
    Fail(u64),
}

/// What `resolve_async_write_fd` must answer for a given descriptor word
/// and record of returned values: a plain descriptor is used as it is; a
/// returned-value reference must name a finished open-file syscall whose
/// result was no error — anything else fails with the closed-file error,
/// and a recorded error word is handed back unchanged.
pub open spec fn spec_resolve_write_fd(
    w: u64,
    returned: Seq<(u64, (AsyncSyscalls, u64))>,
) -> WriteResolution {
    match AsyncFileDescriptor::spec_from_word(w) {
        AsyncFileDescriptor::FileDescriptor(v) => WriteResolution::UseFd(v),
        AsyncFileDescriptor::AsyncSyscallReturnValue(v) => match spec_assoc_lookup(returned, v) {
            None => WriteResolution::Fail(ONLY_MSB_OF_USIZE | READ_ON_CLOSED_FILE),
            Some((syscall, value)) => if syscall is OpenFile {
                if value & ONLY_MSB_OF_USIZE != 0 {
                    WriteResolution::Fail(value)
                } else {
                    WriteResolution::UseFd(value)
                }
            } else {
                WriteResolution::Fail(ONLY_MSB_OF_USIZE | READ_ON_CLOSED_FILE)
            },
        },
    }
}

/// Resolves the descriptor word of an asynchronous write against the
/// record of returned values.
pub fn resolve_async_write_fd(w: u64, returned_values: &AsyncReturnedValues) -> (r:
    WriteResolution)
    ensures
        r == spec_resolve_write_fd(w, returned_values.spec_map()),
{
    match AsyncFileDescriptor::from_word(w) {
        AsyncFileDescriptor::FileDescriptor(v) => WriteResolution::UseFd(v),
        AsyncFileDescriptor::AsyncSyscallReturnValue(v) => match returned_values.lookup(v) {
            None => WriteResolution::Fail(ONLY_MSB_OF_USIZE | READ_ON_CLOSED_FILE),
            Some((syscall, value)) => match syscall {
                AsyncSyscalls::OpenFile => if value & ONLY_MSB_OF_USIZE != 0 {
                    WriteResolution::Fail(value)
                } else {
                    WriteResolution::UseFd(value)
                },
                _ => WriteResolution::Fail(ONLY_MSB_OF_USIZE | READ_ON_CLOSED_FILE),
            },
        },
    }
}

/// The word an asynchronous write hands back: zero on success, the error
/// code with the flag bit on failure.
pub fn async_write_result(write_result: Result<(), u64>) -> (r: u64)
    ensures
        match write_result {
            Ok(()) => r == 0,
            Err(e) => r == ONLY_MSB_OF_USIZE | e,
        },
{
    match write_result {
        Ok(()) => 0,
        Err(e) => ONLY_MSB_OF_USIZE | e,
    }
}

/// One request riding the submission ring: its identifier, its payload
/// in wire form, the payload's size, and which syscall it asks for.
#[derive(Debug)]
pub struct AsyncSyscall {
    pub id: u64,
    pub data_size: usize,
    pub syscall_type: AsyncSyscalls,
    pub data: Vec<u8>,
}

/// The submission ring between user tasks and the kernel, modeled as the
/// requests in flight, oldest first.
#[derive(Debug)]
pub struct CircullarBuffer {
    entries: Vec<AsyncSyscall>,
}

impl CircullarBuffer {
    /// The requests in flight, oldest first.
    pub closed spec fn spec_entries(self) -> Seq<AsyncSyscall> {
        self.entries@
    }

    /// An empty ring.
    pub fn new() -> (r: Self)
        ensures
            r.spec_entries() =~= Seq::<AsyncSyscall>::empty(),
    {
        CircullarBuffer { entries: Vec::new() }
    }

    /// Takes the oldest request out of the ring, if any.
    pub fn pop(&mut self) -> (r: Option<AsyncSyscall>)
        ensures
            match r {
                Some(_) => {
                    &&& old(self).spec_entries().len() > 0
                    &&& r == Some(old(self).spec_entries()[0])
                    &&& final(self).spec_entries() == old(self).spec_entries().drop_first()
                },
                None => {
                    &&& old(self).spec_entries().len() == 0
                    &&& final(self).spec_entries() == old(self).spec_entries()
                },
            },
    {
        if self.entries.len() == 0 {
            None
        } else {
            let r = self.entries.remove(0);
            proof {
                assert(old(self).spec_entries().remove(0) =~= old(
                    self,
                ).spec_entries().drop_first());
            }
            Some(r)
        }
    }
}

/// Appends one request to the submission ring.
pub fn send_async_syscall(submission_buffer: &mut CircullarBuffer, syscall: AsyncSyscall)
    ensures
        final(submission_buffer).spec_entries() == old(submission_buffer).spec_entries().push(
            syscall,
        ),
{
    submission_buffer.entries.push(syscall);
}

/// Submits an asynchronous write: marshals the descriptor word and the
/// message into the fixed wire layout and appends the request to the
/// submission ring.
pub fn write(
    afd: &AsyncFileDescriptor,
    message: Vec<u8>,
    id: u64,
    submission_buffer: &mut CircullarBuffer,
) -> (ghost_data: Ghost<AsyncWriteSyscallData>)
    ensures
        ghost_data@.afd == afd.spec_word(),
        ghost_data@.message@ == message@,
        final(submission_buffer).spec_entries().len() == old(
            submission_buffer,
        ).spec_entries().len() + 1,
        ({
            let e = final(submission_buffer).spec_entries().last();
            &&& e.id == id
            &&& e.syscall_type == AsyncSyscalls::WriteFile
            &&& e.data@ == ghost_data@.spec_bytes()
            &&& e.data_size == e.data@.len()
        }),
        forall|i: int| 0 <= i < old(submission_buffer).spec_entries().len()
            ==> final(submission_buffer).spec_entries()[i] == old(
                submission_buffer,
            ).spec_entries()[i],
{
    let data = AsyncWriteSyscallData { afd: afd.to_word(), message };
    let bytes = data.as_bytes();
    let data_size = bytes.len();
    let request = AsyncSyscall {
        id,
        data_size,
        syscall_type: AsyncSyscalls::WriteFile,
        data: bytes,
    };
    send_async_syscall(submission_buffer, request);
    Ghost(data)
}

} // verus!
