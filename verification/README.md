# roform

`roform` converts Roblox model and place files into render-agnostic glTF and
GLB assets.

The crate is a Verus library. Everything under `src/` is verified: each public
function carries a contract over mathematical models of its inputs and
results, and the laws that tie functions together are proof functions.

- `bytes`, `text`, `paths`: little-endian words, decimal text, and paths as
  lists of components with their order, file names and extensions.
- `csg`: the decoded-mesh cache format; decoding what encoding wrote gives the
  mesh back.
- `payload`: union (`CSGK`, `CSGMDL2/4/5`) and mesh (versions 1 to 5) payloads,
  decoded through `rbx_mesh` into valid meshes; payloads whose announced
  sizes the decoder cannot count are refused before it runs.
- `geometry`: building meshes face by face.
- `gltf`: the binary buffer of a glTF document, its buffer views and
  accessors, image packing, GLB framing and relative resource URIs.
- `materials`: which primitives share a material and which materials share
  an image, where a texture comes from, and which materials blend or are
  unlit.
- `metadata`, `model`: asset ids, materials, source files, model roots and
  where each primitive's mesh comes from.
- `pipeline`, `plan`: fingerprints, the model manifest, output names and the
  stages a run performs.
- `export`: the decisions of an export run: when a source's previous models
  are reused, how outcomes are counted, and the manifest the run writes.

Floating-point mesh data is carried as IEEE-754 bit patterns.

`app/` is the command-line program around the library: argument parsing,
downloads (through `mhif`), the file system, the Roblox DOM, JSON documents
and the floating-point geometry. Binary models are decoded there too, where a
panic of the decoder can be caught and reported as a decode error.
