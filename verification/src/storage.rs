//! The verified half of the chunk storage layer: interpreting what a backend
//! read produced, and the canonical paths chunks live under. The reads and
//! writes themselves are I/O and happen outside this crate.

use vstd::prelude::*;
use vstd::string::StringExecFns;

use crate::chunk::Chunk;
use crate::codec::{spec_encoded, CompressionType};
use crate::coords::{spec_object_name, ChunkCoordinates};
use crate::CHUNK_BYTE_SIZE;

verus! {

/// What the chunk loader/saver can fail with.
#[derive(Debug)]
pub enum ChunkLoaderSaverError {
    ChunkLoadError(String),
    ChunkSaveError(String),
    CompressionError(String),
}

/// Interprets a storage read: decode the object's bytes, or hand out a fresh
/// chunk when the object is missing and creation was asked for. A missing
/// object without `create_new` is a load error; bytes that do not decode are
/// a compression error.
pub fn chunk_from_loaded(loaded: Option<Vec<u8>>, create_new: bool) -> (r: Result<
    Chunk,
    ChunkLoaderSaverError,
>)
    ensures
        r is Ok ==> r->Ok_0.wf(),
        loaded is None ==> ((r is Ok <==> create_new) && (create_new
            ==> r->Ok_0.spec_bytes() =~= Seq::new(CHUNK_BYTE_SIZE as nat, |i: int| 0u8)) && (
        !create_new ==> r->Err_0 is ChunkLoadError)),
        loaded is Some ==> {
            let data = loaded->0@;
            &&& (r is Err ==> r->Err_0 is CompressionError)
            &&& (data.len() == 0 ==> r is Err)
            &&& (data.len() == CHUNK_BYTE_SIZE ==> r is Ok && r->Ok_0.spec_bytes() == data)
            &&& forall|d: Seq<u8>, c: CompressionType|
                d.len() == CHUNK_BYTE_SIZE && data == #[trigger] spec_encoded(d, c) && data.len()
                    != CHUNK_BYTE_SIZE ==> r is Ok && r->Ok_0.spec_bytes() == d
        },
{
    match loaded {
        Some(data) => {
            match Chunk::from_raw_data(data.as_slice()) {
                Ok(chunk) => Ok(chunk),
                Err(message) => Err(ChunkLoaderSaverError::CompressionError(message)),
            }
        },
        None => {
            if create_new {
                Ok(Chunk::new())
            } else {
                Err(ChunkLoaderSaverError::ChunkLoadError("No chunk found".to_owned()))
            }
        },
    }
}

/// The filesystem path of a chunk, `canvas/{x}_{y}.chunk`.
pub fn chunk_file_path(coordinates: &ChunkCoordinates) -> (r: String)
    requires
        coordinates.spec_x() > i64::MIN,
        coordinates.spec_y() > i64::MIN,
    ensures
        r@ == seq!['c', 'a', 'n', 'v', 'a', 's', '/'] + spec_object_name(
            coordinates.spec_x() as int,
            coordinates.spec_y() as int,
        ),
{
    proof {
        reveal_strlit("canvas/");
    }
    let mut s = "canvas/".to_owned();
    let name = coordinates.object_name();
    s.append(name.as_str());
    proof {
        assert(s@ =~= seq!['c', 'a', 'n', 'v', 'a', 's', '/'] + spec_object_name(
            coordinates.spec_x() as int,
            coordinates.spec_y() as int,
        ));
    }
    s
}

/// The object-store key of a chunk, `chunks/{x}_{y}.chunk`.
pub fn chunk_object_path(coordinates: &ChunkCoordinates) -> (r: String)
    requires
        coordinates.spec_x() > i64::MIN,
        coordinates.spec_y() > i64::MIN,
    ensures
        r@ == seq!['c', 'h', 'u', 'n', 'k', 's', '/'] + spec_object_name(
            coordinates.spec_x() as int,
            coordinates.spec_y() as int,
        ),
{
    proof {
        reveal_strlit("chunks/");
    }
    let mut s = "chunks/".to_owned();
    let name = coordinates.object_name();
    s.append(name.as_str());
    proof {
        assert(s@ =~= seq!['c', 'h', 'u', 'n', 'k', 's', '/'] + spec_object_name(
            coordinates.spec_x() as int,
            coordinates.spec_y() as int,
        ));
    }
    s
}

} // verus!
