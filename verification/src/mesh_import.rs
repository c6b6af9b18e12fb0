//! Source meshes dropped into a Space: which file extensions name a
//! convertible format, which files the watcher skips, what each format's
//! conversion currently gives, and reordering vertex data by a remap table.

use vstd::prelude::*;
use crate::text::{chars_of, push_str, lowercase_ascii, ascii_lower_seq, chars_eq};

verus! {

/// A source mesh format the importer recognises.
#[derive(Debug, Clone, Copy, PartialEq, Eq, Structural)]
pub enum MeshSourceFormat {
    Stl,
    Obj,
    Ply,
    Step,
    Fbx,
}

/// The format's canonical extension.
pub open spec fn spec_format_str(f: MeshSourceFormat) -> Seq<char> {
    match f {
        MeshSourceFormat::Stl => "stl"@,
        MeshSourceFormat::Obj => "obj"@,
        MeshSourceFormat::Ply => "ply"@,
        MeshSourceFormat::Step => "step"@,
        MeshSourceFormat::Fbx => "fbx"@,
    }
}

/// The format an extension names, in any ASCII case: `stl`, `obj`, `ply`,
/// `step` or `stp`, `fbx`.
pub open spec fn spec_format_from(ext: Seq<char>) -> Option<MeshSourceFormat> {
    let e = ascii_lower_seq(ext);
    if e == "stl"@ {
        Some(MeshSourceFormat::Stl)
    } else if e == "obj"@ {
        Some(MeshSourceFormat::Obj)
    } else if e == "ply"@ {
        Some(MeshSourceFormat::Ply)
    } else if e == "step"@ || e == "stp"@ {
        Some(MeshSourceFormat::Step)
    } else if e == "fbx"@ {
        Some(MeshSourceFormat::Fbx)
    } else {
        None
    }
}

impl MeshSourceFormat {
    /// The format an extension names, in any ASCII case.
    pub fn from_extension(ext: &str) -> (r: Option<Self>)
        ensures
            r == spec_format_from(ext@),
    {
        let e = lowercase_ascii(ext);
        if chars_eq(&e, &chars_of("stl")) {
            Some(MeshSourceFormat::Stl)
        } else if chars_eq(&e, &chars_of("obj")) {
            Some(MeshSourceFormat::Obj)
        } else if chars_eq(&e, &chars_of("ply")) {
            Some(MeshSourceFormat::Ply)
        } else if chars_eq(&e, &chars_of("step")) || chars_eq(&e, &chars_of("stp")) {
            Some(MeshSourceFormat::Step)
        } else if chars_eq(&e, &chars_of("fbx")) {
            Some(MeshSourceFormat::Fbx)
        } else {
            None
        }
    }

    /// The format's canonical extension.
    pub fn as_str(self) -> (r: &'static str)
        ensures
            r@ == spec_format_str(self),
    {
        match self {
            MeshSourceFormat::Stl => "stl",
            MeshSourceFormat::Obj => "obj",
            MeshSourceFormat::Ply => "ply",
            MeshSourceFormat::Step => "step",
            MeshSourceFormat::Fbx => "fbx",
        }
    }
}

/// A format's canonical extension names the format again.
pub proof fn law_format_extension_roundtrip(f: MeshSourceFormat)
    ensures
        spec_format_from(spec_format_str(f)) == Some(f),
{
    reveal_strlit("stl");
    reveal_strlit("obj");
    reveal_strlit("ply");
    reveal_strlit("step");
    reveal_strlit("stp");
    reveal_strlit("fbx");
    let s = spec_format_str(f);
    assert(ascii_lower_seq(s) =~= s);
    assert("stl"@[0] != "obj"@[0] && "stl"@[0] != "ply"@[0] && "stl"@[0] != "fbx"@[0]);
    assert("obj"@[0] != "ply"@[0] && "obj"@[0] != "fbx"@[0] && "ply"@[0] != "fbx"@[0]);
    assert("step"@.len() != "stl"@.len());
}

/// Whether the watcher skips a directory entry: hidden names start with `.`.
pub fn is_hidden_name(name: &str) -> (r: bool)
    ensures
        r == (name@.len() > 0 && name@[0] == '.'),
{
    let v = chars_of(name);
    v.len() > 0 && v[0] == '.'
}

/// What converting a source mesh gives today: the number of triangles
/// written, or why nothing was.
pub open spec fn spec_import_result(f: MeshSourceFormat) -> Result<u32, Seq<char>> {
    match f {
        MeshSourceFormat::Stl => Err(
            "STL → GLB: parser scaffolded, binary GLB writer pending (deps `stl_io` + `gltf-json` in a follow-up)"@,
        ),
        MeshSourceFormat::Step => Err(
            "STEP → GLB: truck-stepio parse scaffolded, tessellation + GLB writer pending"@,
        ),
        MeshSourceFormat::Obj | MeshSourceFormat::Ply => Err(
            spec_format_str(f) + " → GLB conversion lands in a follow-up (tobj / ply-rs parsers)"@,
        ),
        MeshSourceFormat::Fbx => Err(
            "FBX → GLB requires external FBX2glTF process; set EUSTRESS_FBX2GLTF_BIN env var"@,
        ),
    }
}

/// Convert a source mesh of the given format.
pub fn import_mesh(format: MeshSourceFormat) -> (r: Result<u32, String>)
    ensures
        match r {
            Ok(n) => spec_import_result(format) == Ok::<u32, Seq<char>>(n),
            Err(e) => spec_import_result(format) == Err::<u32, Seq<char>>(e@),
        },
{
    let mut s = String::new();
    match format {
        MeshSourceFormat::Stl => {
            push_str(&mut s, "STL → GLB: parser scaffolded, binary GLB writer pending (deps `stl_io` + `gltf-json` in a follow-up)");
            Err(s)
        },
        MeshSourceFormat::Step => {
            push_str(&mut s, "STEP → GLB: truck-stepio parse scaffolded, tessellation + GLB writer pending");
            Err(s)
        },
        MeshSourceFormat::Obj | MeshSourceFormat::Ply => {
            push_str(&mut s, format.as_str());
            push_str(&mut s, " → GLB conversion lands in a follow-up (tobj / ply-rs parsers)");
            Err(s)
        },
        MeshSourceFormat::Fbx => {
            push_str(&mut s, "FBX → GLB requires external FBX2glTF process; set EUSTRESS_FBX2GLTF_BIN env var");
            Err(s)
        },
    }
}

/// The last position `i` below `n` whose remap target is `ni` and that has
/// data, if any.
pub open spec fn last_source(remap: Seq<u32>, data_len: nat, ni: int, n: int) -> Option<int>
    decreases n,
{
    if n <= 0 {
        None
    } else if remap[n - 1] as int == ni && n - 1 < data_len {
        Some(n - 1)
    } else {
        last_source(remap, data_len, ni, n - 1)
    }
}

/// Vertex data reordered by a remap table: position `i` moves to
/// `remap[i]`; targets at or beyond `count` and positions beyond the data
/// are ignored; a target no position moves to keeps `fill`; where several
/// positions move to one target, the last one wins.
pub fn apply_remap<T: Copy>(data: &[T], remap: &[u32], count: usize, fill: T) -> (r: Vec<T>)
    ensures
        r@.len() == count,
        forall|ni: int| 0 <= ni < count ==> #[trigger] r@[ni] == match last_source(remap@, data@.len(), ni, remap@.len() as int) {
            Some(i) => data@[i],
            None => fill,
        },
{
    let mut out: Vec<T> = Vec::new();
    let mut k: usize = 0;
    while k < count
        invariant
            k <= count,
            out@.len() == k,
            forall|j: int| 0 <= j < k ==> out@[j] == fill,
        decreases count - k,
    {
        out.push(fill);
        k = k + 1;
    }
    let mut i: usize = 0;
    while i < remap.len()
        invariant
            i <= remap@.len(),
            out@.len() == count,
            forall|ni: int| 0 <= ni < count ==> #[trigger] out@[ni] == match last_source(remap@, data@.len(), ni, i as int) {
                Some(s) => data@[s],
                None => fill,
            },
        decreases remap.len() - i,
    {
        let ni = remap[i] as usize;
        if ni < count && i < data.len() {
            out.set(ni, data[i]);
        }
        i = i + 1;
    }
    out
}

} // verus!
