//! The parts of a plugin's path that matter: the file name and its
//! extension.

use crate::bytes::bytes_equal;
use vstd::prelude::*;
use vstd::slice::slice_subrange;
use vstd::utf8::encode_utf8;

verus! {

/// The extension "esm" of a master file, as bytes.
pub open spec fn esm_extension() -> Seq<u8> {
    seq![0x65u8, 0x73u8, 0x6Du8]
}

/// The extension "esl" of a light master file, as bytes.
pub open spec fn esl_extension() -> Seq<u8> {
    seq![0x65u8, 0x73u8, 0x6Cu8]
}

/// Whether a file name, given by its UTF-8 bytes, has the extension
/// `extension`, which holds no dot: the name ends in a dot and the
/// extension, and the dot is not its first byte.
pub open spec fn has_extension(filename: Seq<u8>, extension: Seq<u8>) -> bool {
    &&& filename.len() > extension.len() + 1
    &&& filename[filename.len() - extension.len() - 1] == 0x2Eu8
    &&& filename.subrange(filename.len() - extension.len(), filename.len() as int) == extension
}

/// Calls `Path::file_name` of std on the path, which gives the final
/// component of the path where it has one. What counts as a component
/// depends on the platform, so nothing is claimed of the result.
#[verifier::external_body]
pub(crate) fn path_file_name(path: &str) -> (name: Option<String>) {
    match std::path::Path::new(path).file_name() {
        Some(name) => Some(name.to_string_lossy().into_owned()),
        None => None,
    }
}

/// Whether the file name has the extension whose bytes are `extension`.
pub fn filename_has_extension(filename: &str, extension: &[u8; 3]) -> (has: bool)
    ensures
        has == has_extension(encode_utf8(filename@), extension@),
{
    let name: &[u8] = filename.as_bytes();
    let length: usize = name.len();
    if length <= 4 {
        return false;
    }
    if name[length - 4] != 0x2E {
        return false;
    }
    bytes_equal(slice_subrange(name, length - 3, length), extension.as_slice())
}

} // verus!
