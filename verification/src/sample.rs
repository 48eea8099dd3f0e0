use vstd::prelude::*;
use crate::error::NodeError;
use crate::message::{DataMessage, DropToken};

verus! {

#[verifier::external_type_specification]
#[verifier::external_body]
pub struct ExShmem(shared_memory_extended::Shmem);

/// The fixed capacity a shared region was mapped with.
pub uninterp spec fn shmem_capacity(s: shared_memory_extended::Shmem) -> nat;

/// The OS-level name under which consumers can open the region.
pub uninterp spec fn shmem_os_id(s: shared_memory_extended::Shmem) -> Seq<char>;

/// Relies on shared_memory_extended::ShmemConf::create: maps a fresh
/// writable OS-backed region of exactly the requested size; a size of
/// zero is refused.
#[verifier::external_body]
fn shmem_create(len: usize) -> (r: Result<shared_memory_extended::Shmem, ()>)
    ensures
        r matches Ok(s) ==> shmem_capacity(s) == len,
{
    shared_memory_extended::ShmemConf::new()
        .size(len)
        .writable(true)
        .create()
        .map_err(|_| ())
}

/// Relies on shared_memory_extended::Shmem::len: the mapped size.
#[verifier::external_body]
fn shmem_len(s: &shared_memory_extended::Shmem) -> (r: usize)
    ensures
        r == shmem_capacity(*s),
{
    s.len()
}

/// Relies on shared_memory_extended::Shmem::get_os_id: the region's
/// OS name.
#[verifier::external_body]
fn shmem_get_os_id(s: &shared_memory_extended::Shmem) -> (r: String)
    ensures
        r@ == shmem_os_id(*s),
{
    s.get_os_id().to_owned()
}

/// One named shared-memory region, with its name and capacity held
/// beside the opaque OS handle.
pub struct Region {
    pub shmem: shared_memory_extended::Shmem,
    pub id: String,
    pub capacity: usize,
}

impl Region {
    /// The cached name and capacity agree with the OS handle.
    pub open spec fn wf(&self) -> bool {
        &&& self.capacity == shmem_capacity(self.shmem)
        &&& self.id@ == shmem_os_id(self.shmem)
    }

    /// Map a fresh region of exactly `len` bytes.
    pub fn create(len: usize) -> (r: Result<Region, NodeError>)
        ensures
            r matches Ok(region) ==> region.wf() && region.capacity == len,
            r matches Err(e) ==> e == NodeError::AllocationFailure,
    {
        match shmem_create(len) {
            Ok(shmem) => {
                let id = shmem_get_os_id(&shmem);
                let capacity = shmem_len(&shmem);
                Ok(Region { shmem, id, capacity })
            },
            Err(_) => Err(NodeError::AllocationFailure),
        }
    }
}

/// `n` zero bytes: what a fresh sample holds.
pub open spec fn zero_bytes(n: usize) -> Seq<u8> {
    Seq::new(n as nat, |i: int| 0u8)
}

/// A writable output buffer of a fixed length, backed either by plain
/// heap memory or by a shared region that will travel by name. The
/// caller fills it, then `finalize` turns it into the message to ship.
pub struct DataSample {
    pub inner: DataSampleInner,
    pub len: usize,
}

pub enum DataSampleInner {
    Vec(Vec<u8>),
    Shmem { region: Region, staging: Vec<u8>, published: bool },
}

/// What a finalized sample becomes: an inline message, or a
/// shared-memory message together with the region to park in the
/// in-flight table under the minted drop token.
pub enum DataSampleType {
    Vec(DataMessage),
    Shmem(DataMessage, Region, DropToken),
}

impl DataSample {
    /// The buffer holds exactly `len` bytes and fits its backing.
    pub open spec fn wf(&self) -> bool {
        match self.inner {
            DataSampleInner::Vec(ref v) => v@.len() == self.len,
            DataSampleInner::Shmem { ref region, ref staging, published } => staging@.len()
                == self.len && self.len <= region.capacity && region.wf(),
        }
    }

    /// The bytes the caller has written so far.
    pub open spec fn bytes(&self) -> Seq<u8> {
        match self.inner {
            DataSampleInner::Vec(ref v) => v@,
            DataSampleInner::Shmem { ref region, ref staging, published } => staging@,
        }
    }

    pub open spec fn is_shared(&self) -> bool {
        self.inner is Shmem
    }

    /// Whether the staged bytes have been copied into the OS region.
    /// The copy needs the region crate's raw slice access, which this
    /// library cannot hold, so the surrounding I/O shell performs it
    /// and acknowledges it here.
    pub open spec fn is_published(&self) -> bool {
        match self.inner {
            DataSampleInner::Vec(ref v) => false,
            DataSampleInner::Shmem { ref region, ref staging, published } => published,
        }
    }

    /// The region backing a shared sample.
    pub open spec fn shared_region(&self) -> Region
        recommends
            self.is_shared(),
    {
        match self.inner {
            DataSampleInner::Vec(ref v) => arbitrary(),
            DataSampleInner::Shmem { ref region, ref staging, published } => *region,
        }
    }

    /// Acknowledge that the staged bytes now stand in the region. To be
    /// called only after the copy was made; nothing in this library can
    /// make it.
    pub fn mark_published(&mut self)
        requires
            old(self).wf(),
        ensures
            final(self).wf(),
            final(self).len == old(self).len,
            final(self).bytes() == old(self).bytes(),
            final(self).is_shared() == old(self).is_shared(),
            final(self).is_shared() ==> final(self).is_published(),
            final(self).shared_region() == old(self).shared_region(),
    {
        match &mut self.inner {
            DataSampleInner::Vec(_) => {},
            DataSampleInner::Shmem { region, staging, published } => {
                *published = true;
            },
        }
    }

    /// A zero-filled heap-backed sample.
    pub fn heap(len: usize) -> (r: DataSample)
        ensures
            r.wf(),
            r.len == len,
            !r.is_shared(),
            r.bytes() == Seq::new(len as nat, |i: int| 0u8),
    {
        let v: Vec<u8> = vec![0u8; len];
        assert(v@ =~= Seq::new(len as nat, |i: int| 0u8));
        DataSample { inner: DataSampleInner::Vec(v), len }
    }

    /// A zero-filled sample over the first `len` bytes of a region.
    pub fn shared(region: Region, len: usize) -> (r: DataSample)
        requires
            region.wf(),
            len <= region.capacity,
        ensures
            r.wf(),
            r.len == len,
            r.is_shared(),
            !r.is_published(),
            r.shared_region() == region,
            r.bytes() == Seq::new(len as nat, |i: int| 0u8),
    {
        let staging: Vec<u8> = vec![0u8; len];
        assert(staging@ =~= Seq::new(len as nat, |i: int| 0u8));
        DataSample {
            inner: DataSampleInner::Shmem { region, staging, published: false },
            len,
        }
    }

    pub fn sample_len(&self) -> (r: usize)
        ensures
            r == self.len,
    {
        self.len
    }

    pub fn published_backed(&self) -> (r: bool)
        ensures
            r == self.is_published(),
    {
        match &self.inner {
            DataSampleInner::Vec(_) => false,
            DataSampleInner::Shmem { region, staging, published } => *published,
        }
    }

    pub fn shared_backed(&self) -> (r: bool)
        ensures
            r == self.is_shared(),
    {
        match &self.inner {
            DataSampleInner::Vec(_) => false,
            DataSampleInner::Shmem { .. } => true,
        }
    }

    /// Overwrite the whole buffer with the given bytes.
    pub fn copy_from_slice(&mut self, data: &[u8])
        requires
            old(self).wf(),
            data@.len() == old(self).len,
        ensures
            final(self).wf(),
            final(self).len == old(self).len,
            final(self).is_shared() == old(self).is_shared(),
            final(self).bytes() == data@,
            final(self).shared_region() == old(self).shared_region(),
            final(self).is_published() == old(self).is_published(),
    {
        match &mut self.inner {
            DataSampleInner::Vec(v) => {
                let mut fresh = vstd::slice::slice_to_vec(data);
                *v = fresh;
            },
            DataSampleInner::Shmem { region, staging, published } => {
                let mut fresh = vstd::slice::slice_to_vec(data);
                *staging = fresh;
            },
        }
    }

    /// Write one byte of the buffer.
    pub fn set_byte(&mut self, i: usize, b: u8)
        requires
            old(self).wf(),
            i < old(self).len,
        ensures
            final(self).wf(),
            final(self).len == old(self).len,
            final(self).is_shared() == old(self).is_shared(),
            final(self).bytes() == old(self).bytes().update(i as int, b),
            final(self).shared_region() == old(self).shared_region(),
            final(self).is_published() == old(self).is_published(),
    {
        match &mut self.inner {
            DataSampleInner::Vec(v) => {
                v.set(i, b);
            },
            DataSampleInner::Shmem { region, staging, published } => {
                staging.set(i, b);
            },
        }
    }

    /// Take a shared sample apart into its region and staged bytes.
    pub fn into_shared_parts(self) -> (r: (Region, Vec<u8>))
        requires
            self.wf(),
            self.is_shared(),
        ensures
            r.0 == self.shared_region(),
            r.0.wf(),
            r.1@ == self.bytes(),
    {
        match self.inner {
            DataSampleInner::Shmem { region, staging, published } => (region, staging),
            DataSampleInner::Vec(v) => {
                proof {
                    assert(false);
                }
                (
                    Region {
                        shmem: unreached(),
                        id: String::new(),
                        capacity: 0,
                    },
                    v,
                )
            },
        }
    }

    /// Consume the sample: a heap buffer becomes an inline message; a
    /// shared buffer becomes a by-name message under the given fresh
    /// drop token, yielding the region for the in-flight table.
    pub fn finalize(self, token: DropToken) -> (r: DataSampleType)
        requires
            self.wf(),
        ensures
            match r {
                DataSampleType::Vec(m) => !self.is_shared() && (m matches DataMessage::Vec(b)
                    && b@ == self.bytes()),
                DataSampleType::Shmem(m, region, tok) => self.is_shared() && tok == token
                    && region.wf() && region == self.shared_region() && (m
                    matches DataMessage::SharedMemory {
                    shared_memory_id,
                    len,
                    drop_token,
                } && shared_memory_id@ == region.id@ && len == self.len && drop_token == token),
            },
    {
        match self.inner {
            DataSampleInner::Shmem { region, staging, published } => {
                let id = region.id.clone();
                let data = DataMessage::SharedMemory {
                    shared_memory_id: id,
                    len: self.len,
                    drop_token: token,
                };
                DataSampleType::Shmem(data, region, token)
            },
            DataSampleInner::Vec(buffer) => DataSampleType::Vec(DataMessage::Vec(buffer)),
        }
    }
}

} // verus!
