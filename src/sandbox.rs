use crate::error::RunError;
use std::io::Read;
use vstd::prelude::*;
use vstd::string::StrSliceExecFns;
use vstd::string::StringExecFns;

verus! {

/// The name of the sandbox directory under the working directory.
pub const SANDBOX_DIR: &'static str = "sandbox";

/// `rel` joined onto `base` as `Path::join` does: an absolute `rel` replaces
/// `base`; otherwise a `/` goes between them unless `base` is empty or
/// already ends in one.
pub open spec fn join_text(base: Seq<char>, rel: Seq<char>) -> Seq<char> {
    if rel.len() > 0 && rel[0] == '/' {
        rel
    } else if base.len() == 0 || base.last() == '/' {
        base + rel
    } else {
        base + "/"@ + rel
    }
}

/// `rel` joined onto `base`.
pub fn join_path(base: &str, rel: &str) -> (r: String)
    ensures
        r@ == join_text(base@, rel@),
{
    let rel_len = rel.unicode_len();
    let base_len = base.unicode_len();
    if rel_len > 0 && rel.get_char(0) == '/' {
        rel.to_string()
    } else if base_len == 0 || base.get_char(base_len - 1) == '/' {
        let mut r = base.to_string();
        r.append(rel);
        r
    } else {
        let mut r = base.to_string();
        r.append("/");
        r.append(rel);
        r
    }
}

/// The sandbox directory for the working directory `cwd`.
pub fn sandbox_dir(cwd: &str) -> (r: String)
    ensures
        r@ == join_text(cwd@, SANDBOX_DIR@),
{
    join_path(cwd, SANDBOX_DIR)
}

/// Where the binary at the absolute path `command` goes inside `sandbox`: the
/// same path, taken relative to the sandbox.
pub open spec fn binary_destination_text(command: Seq<char>, sandbox: Seq<char>) -> Seq<char> {
    join_text(sandbox, command.drop_first())
}

/// The directories made inside `sandbox` before the binary is copied.
pub open spec fn binary_dirs_text(sandbox: Seq<char>) -> Seq<Seq<char>> {
    seq![join_text(sandbox, "usr/local/bin"@), join_text(sandbox, "bin"@)]
}

/// What copying a command into the sandbox takes: the directories to make,
/// in order, then the copy from `source` to `destination`.
#[derive(Debug)]
pub struct CopyPlan {
    pub dirs: Vec<String>,
    pub source: String,
    pub destination: String,
}

/// Plans the copy of the binary at `command` into `sandbox`. The command must
/// be an absolute path; a relative one is an I/O error.
pub fn plan_binary_copy(command: &str, sandbox: &str) -> (r: Result<CopyPlan, RunError>)
    ensures
        command@.len() > 0 && command@[0] == '/' ==> (r matches Ok(p) && {
            &&& p.source@ == command@
            &&& p.destination@ == binary_destination_text(command@, sandbox@)
            &&& p.dirs@.len() == 2
            &&& p.dirs@[0]@ == binary_dirs_text(sandbox@)[0]
            &&& p.dirs@[1]@ == binary_dirs_text(sandbox@)[1]
        }),
        !(command@.len() > 0 && command@[0] == '/') ==> r == Err::<CopyPlan, RunError>(RunError::Io),
{
    let n = command.unicode_len();
    if n == 0 || command.get_char(0) != '/' {
        return Err(RunError::Io);
    }
    let rel = command.substring_char(1, n);
    assert(rel@ =~= command@.drop_first());
    let mut dirs: Vec<String> = Vec::new();
    dirs.push(join_path(sandbox, "usr/local/bin"));
    dirs.push(join_path(sandbox, "bin"));
    Ok(CopyPlan { dirs, source: command.to_string(), destination: join_path(sandbox, rel) })
}

/// What gzip decompression makes of `b`: the decompressed bytes, or none
/// where `b` is no well-formed gzip stream.
pub uninterp spec fn gunzip_of(b: Seq<u8>) -> Option<Seq<u8>>;

/// Relies on flate2's `GzDecoder` read to the end over an in-memory slice:
/// the result depends on the bytes alone, and reading fails only on
/// malformed data.
#[verifier::external_body]
fn gunzip(b: &[u8]) -> (r: Option<Vec<u8>>)
    ensures
        match r {
            Some(v) => gunzip_of(b@) == Some(v@),
            None => gunzip_of(b@) is None,
        },
{
    let mut out = Vec::new();
    match flate2::read::GzDecoder::new(b).read_to_end(&mut out) {
        Ok(_) => Some(out),
        Err(_) => None,
    }
}

/// The tar archive inside the compressed layer blob `blob`; an extraction
/// error where the blob is no gzip stream.
pub fn decompress_layer(blob: &[u8]) -> (r: Result<Vec<u8>, RunError>)
    ensures
        match gunzip_of(blob@) {
            Some(t) => r matches Ok(v) && v@ == t,
            None => r == Err::<Vec<u8>, RunError>(RunError::Extract),
        },
{
    match gunzip(blob) {
        Some(v) => Ok(v),
        None => Err(RunError::Extract),
    }
}

/// A file tree as the contents found at each path.
pub type FileTree = Map<Seq<char>, Seq<u8>>;

/// The tree left by unpacking `layers` onto `base` one after another: each
/// layer's files overwrite what is already at their paths.
pub open spec fn unpack_layers(base: FileTree, layers: Seq<FileTree>) -> FileTree
    decreases layers.len(),
{
    if layers.len() == 0 {
        base
    } else {
        unpack_layers(base, layers.drop_last()).union_prefer_right(layers.last())
    }
}

/// Last write wins: where several layers write a path, the unpacked tree
/// holds at that path what the last of them wrote.
pub proof fn lemma_last_layer_wins(base: FileTree, layers: Seq<FileTree>, p: Seq<char>, j: int)
    requires
        0 <= j < layers.len(),
        layers[j].contains_key(p),
        forall|k: int| j < k < layers.len() ==> !(#[trigger] layers[k]).contains_key(p),
    ensures
        unpack_layers(base, layers).contains_key(p),
        unpack_layers(base, layers)[p] == layers[j][p],
    decreases layers.len(),
{
    if j < layers.len() - 1 {
        let rest = layers.drop_last();
        assert forall|k: int| j < k < rest.len() implies !(#[trigger] rest[k]).contains_key(p) by {
            assert(rest[k] == layers[k]);
        }
        lemma_last_layer_wins(base, rest, p, j);
        assert(!layers[layers.len() - 1].contains_key(p));
    }
}

} // verus!
