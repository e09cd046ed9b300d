//! Buffers: where their bytes come from, and the padding that buffer views
//! rely on.

use crate::scene::error::GltfSceneError;
use vstd::prelude::*;

verus! {

/// Where the bytes of a buffer are kept.
#[derive(Clone, Copy, Debug, PartialEq, Eq, Structural)]
pub enum BufferSource {
    /// In a file of its own, named by a URI.
    Uri,
    /// In the binary chunk of the container.
    Bin,
}

/// A buffer as it was read.
#[derive(Clone, Debug)]
pub struct SourceBuffer {
    pub source: BufferSource,
    pub data: Vec<u8>,
}

/// The number of zero bytes that bring `length` up to a multiple of four.
pub open spec fn padding(length: nat) -> nat {
    if length % 4 == 0 {
        0
    } else {
        (4 - length % 4) as nat
    }
}

/// `data` followed by zero bytes up to the next multiple of four.
pub open spec fn padded(data: Seq<u8>) -> Seq<u8> {
    data + Seq::new(padding(data.len()), |i: int| 0u8)
}

/// The bytes that the compiler keeps of a buffer: a buffer from the binary
/// chunk is refused, any other is padded.
pub open spec fn admitted(buffer: SourceBuffer) -> Result<Seq<u8>, GltfSceneError> {
    match buffer.source {
        BufferSource::Bin => Err(GltfSceneError::BinaryBuffer),
        BufferSource::Uri => Ok(padded(buffer.data@)),
    }
}

/// Copies a buffer and pads it with zero bytes to a multiple of four.
pub fn pad_buffer(data: &Vec<u8>) -> (out: Vec<u8>)
    ensures
        out@ == padded(data@),
        out@.len() % 4 == 0,
{
    let mut out: Vec<u8> = Vec::new();
    let mut copied: usize = 0;
    while copied < data.len()
        invariant
            copied <= data@.len(),
            out@ == data@.take(copied as int),
        decreases data@.len() - copied,
    {
        out.push(data[copied]);
        copied = copied + 1;
        assert(out@ =~= data@.take(copied as int));
    }
    assert(out@ =~= data@);
    let rest: usize = out.len() % 4;
    let missing: usize = if rest == 0 {
        0
    } else {
        4 - rest
    };
    let mut added: usize = 0;
    assert(out@ =~= data@ + Seq::new(0nat, |i: int| 0u8));
    while added < missing
        invariant
            added <= missing,
            missing == padding(data@.len()),
            out@ == data@ + Seq::new(added as nat, |i: int| 0u8),
        decreases missing - added,
    {
        out.push(0);
        added = added + 1;
        assert(out@ =~= data@ + Seq::new(added as nat, |i: int| 0u8));
    }
    out
}

/// Takes a buffer into the scene, or refuses it.
pub fn admit_buffer(buffer: &SourceBuffer) -> (out: Result<Vec<u8>, GltfSceneError>)
    ensures
        match out {
            Ok(bytes) => admitted(*buffer) == Ok::<_, GltfSceneError>(bytes@),
            Err(e) => admitted(*buffer) == Err::<Seq<u8>, _>(e),
        },
{
    match buffer.source {
        BufferSource::Bin => Err(GltfSceneError::BinaryBuffer),
        BufferSource::Uri => Ok(pad_buffer(&buffer.data)),
    }
}

} // verus!
