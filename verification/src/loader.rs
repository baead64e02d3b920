//! Building meshes from the contents of files in three formats: binary STL,
//! text STL and OBJ.
//!
//! A file that is malformed is refused as a whole: the mesh then stays as it
//! was.

use byteorder::ByteOrder;
use vstd::prelude::*;
use vstd::slice::slice_subrange;
use vstd::string::StringSliceAdditionalSpecFns;
use vstd::utf8::valid_utf8;
use crate::mesh::Mesh;
use crate::single::{scalar_from_single, scalar_of_single};
use crate::text::{
    find_line_end, find_word_end, find_word_start, index_of_word, line_end, read_index,
    read_scalar, scalar_of_numeral, spells, word_end, word_start,
};
use crate::triangle::{is_color, normal_of, Triangle};
use crate::vec3d::Vec3d;

verus! {

/// Why a source was refused.
#[derive(Copy, Clone, Debug, PartialEq, Eq, Structural)]
pub enum MeshError {
    /// The bytes end before the header or before the last triangle.
    Truncated,
    /// A number is infinite, not a number, or beyond what a scalar holds.
    BadNumber,
    /// A face names a vertex that has not been given.
    BadIndex,
    /// A facet ends with fewer than three vertices.
    MissingVertex,
    /// A line ends before the last of its three numbers.
    MissingNumber,
    /// The contents are no text: they are not encoded in UTF-8.
    NotText,
}

/// The format of a file.
#[derive(Copy, Clone, Debug, PartialEq, Eq, Structural)]
pub enum MeshFormat {
    /// Text with a vertex or a face on a line.
    Obj,
    /// Triangles with their normals, as text or in binary.
    Stl,
}

/// What one line of an OBJ file holds.
#[derive(Copy, Clone, Debug, PartialEq, Eq)]
pub enum ObjLine {
    /// A vertex, from a line that starts with the word `v`.
    Vertex(Vec3d),
    /// A face, from a line that starts with the word `f`: the numbers of its
    /// first three vertices, counted from one.
    Face(usize, usize, usize),
    /// Anything else.
    Other,
}

/// What one line of a text STL file holds.
#[derive(Copy, Clone, Debug, PartialEq, Eq)]
pub enum StlLine {
    /// The normal of a facet, from a line that starts with `facet normal`.
    Facet(Vec3d),
    /// A vertex, from a line that starts with the word `vertex`.
    Vertex(Vec3d),
    /// The end of a facet, from a line that starts with the word `endfacet`.
    EndFacet,
    /// Anything else.
    Other,
}

/// A triangle as a file gives it: its normal and its three vertices.
pub type Facet = (Vec3d, (Vec3d, Vec3d, Vec3d));

/// The number that four bytes from index `at` hold, the lowest byte first.
pub open spec fn le_u32(data: Seq<u8>, at: int) -> u32 {
    (data[at] as int + 0x100 * (data[at + 1] as int) + 0x1_0000 * (data[at + 2] as int)
        + 0x100_0000 * (data[at + 3] as int)) as u32
}

/// Reads four bytes from index `at` as a number, the lowest byte first, by
/// `byteorder::LittleEndian::read_u32`, which takes the first four bytes of
/// the slice it is given and panics on a shorter one.
#[verifier::external_body]
fn read_u32_le(data: &[u8], at: usize) -> (n: u32)
    requires
        at + 4 <= data@.len(),
    ensures
        n == le_u32(data@, at as int),
{
    byteorder::LittleEndian::read_u32(&data[at..])
}

/// The number of triangles that the header of a binary STL file announces.
pub open spec fn stl_count(data: Seq<u8>) -> int {
    le_u32(data, 80) as int
}

/// Whether the bytes hold the header and all the triangles it announces.
pub open spec fn stl_complete(data: Seq<u8>) -> bool {
    &&& data.len() >= 84
    &&& data.len() >= 84 + 50 * stl_count(data)
}

/// The vector whose three single-precision coordinates start at index `at`.
pub open spec fn stl_vector(data: Seq<u8>, at: int) -> Option<Vec3d> {
    let x = scalar_of_single(le_u32(data, at));
    let y = scalar_of_single(le_u32(data, at + 4));
    let z = scalar_of_single(le_u32(data, at + 8));
    if x.is_some() && y.is_some() && z.is_some() {
        Some(Vec3d { x: x.unwrap(), y: y.unwrap(), z: z.unwrap() })
    } else {
        None
    }
}

/// Triangle `k` of a binary STL file: its normal and its three vertices.
/// The two bytes that follow them are not read.
pub open spec fn stl_facet(data: Seq<u8>, k: int) -> Option<(Vec3d, (Vec3d, Vec3d, Vec3d))> {
    let at = 84 + 50 * k;
    let normal = stl_vector(data, at);
    let a = stl_vector(data, at + 12);
    let b = stl_vector(data, at + 24);
    let c = stl_vector(data, at + 36);
    if normal.is_some() && a.is_some() && b.is_some() && c.is_some() {
        Some((normal.unwrap(), (a.unwrap(), b.unwrap(), c.unwrap())))
    } else {
        None
    }
}

/// Whether every number of every triangle of the file stands for a scalar.
pub open spec fn stl_readable(data: Seq<u8>) -> bool {
    forall|k: int| 0 <= k < stl_count(data) ==> (#[trigger] stl_facet(data, k)).is_some()
}

/// Reads three coordinates from index `at`.
fn read_vector(data: &[u8], at: usize) -> (v: Option<Vec3d>)
    requires
        at + 12 <= data@.len(),
    ensures
        v == stl_vector(data@, at as int),
{
    let len: usize = data.len();
    let x: Option<i32> = scalar_from_single(read_u32_le(data, at));
    let y: Option<i32> = scalar_from_single(read_u32_le(data, at + 4));
    let z: Option<i32> = scalar_from_single(read_u32_le(data, at + 8));
    match (x, y, z) {
        (Some(x), Some(y), Some(z)) => Some(Vec3d { x, y, z }),
        _ => None,
    }
}

/// Reads the normal and the vertices of triangle `k`, which starts at index
/// `at`.
fn read_facet(data: &[u8], at: usize, k: Ghost<int>) -> (f: Option<(Vec3d, (Vec3d, Vec3d, Vec3d))>)
    requires
        at == 84 + 50 * k@,
        at + 50 <= data@.len(),
    ensures
        f == stl_facet(data@, k@),
{
    let len: usize = data.len();
    let normal: Option<Vec3d> = read_vector(data, at);
    let a: Option<Vec3d> = read_vector(data, at + 12);
    let b: Option<Vec3d> = read_vector(data, at + 24);
    let c: Option<Vec3d> = read_vector(data, at + 36);
    match (normal, a, b, c) {
        (Some(normal), Some(a), Some(b), Some(c)) => Some((normal, (a, b, c))),
        _ => None,
    }
}

/// Tells whether the bytes are text, by `core::str::from_utf8`, which gives
/// an error exactly for bytes that are not encoded in UTF-8.
#[verifier::external_body]
fn is_text(data: &[u8]) -> (b: bool)
    ensures
        b == valid_utf8(data@),
{
    core::str::from_utf8(data).is_ok()
}

/// The word `v`.
pub open spec fn word_v() -> Seq<u8> {
    seq![118u8]
}

/// The word `f`.
pub open spec fn word_f() -> Seq<u8> {
    seq![102u8]
}

/// The word `facet`.
pub open spec fn word_facet() -> Seq<u8> {
    seq![102u8, 97u8, 99u8, 101u8, 116u8]
}

/// The word `normal`.
pub open spec fn word_normal() -> Seq<u8> {
    seq![110u8, 111u8, 114u8, 109u8, 97u8, 108u8]
}

/// The word `vertex`.
pub open spec fn word_vertex() -> Seq<u8> {
    seq![118u8, 101u8, 114u8, 116u8, 101u8, 120u8]
}

/// The word `endfacet`.
pub open spec fn word_endfacet() -> Seq<u8> {
    seq![101u8, 110u8, 100u8, 102u8, 97u8, 99u8, 101u8, 116u8]
}

/// The word `obj`.
pub open spec fn word_obj() -> Seq<u8> {
    seq![111u8, 98u8, 106u8]
}

/// The word `stl`.
pub open spec fn word_stl() -> Seq<u8> {
    seq![115u8, 116u8, 108u8]
}

/// Start and end of the first word from `from` on, on the line that ends at
/// `limit`. Where no word follows, both are `limit`.
pub open spec fn next_word(data: Seq<u8>, from: int, limit: int) -> (int, int) {
    let start = word_start(data, from, limit);
    (start, word_end(data, start, limit))
}

/// The vector that the next three words on the line give as numerals.
pub open spec fn three_scalars(data: Seq<u8>, from: int, limit: int) -> Result<Vec3d, MeshError> {
    let a = next_word(data, from, limit);
    let b = next_word(data, a.1, limit);
    let c = next_word(data, b.1, limit);
    let x = scalar_of_numeral(data.subrange(a.0, a.1));
    let y = scalar_of_numeral(data.subrange(b.0, b.1));
    let z = scalar_of_numeral(data.subrange(c.0, c.1));
    if c.0 >= limit {
        Err(MeshError::MissingNumber)
    } else if x.is_none() || y.is_none() || z.is_none() {
        Err(MeshError::BadNumber)
    } else {
        Ok(Vec3d { x: x.unwrap(), y: y.unwrap(), z: z.unwrap() })
    }
}

/// The three numbers that the next three words on the line give in digits.
pub open spec fn three_indices(data: Seq<u8>, from: int, limit: int) -> Result<
    (usize, usize, usize),
    MeshError,
> {
    let a = next_word(data, from, limit);
    let b = next_word(data, a.1, limit);
    let c = next_word(data, b.1, limit);
    let i = index_of_word(data.subrange(a.0, a.1));
    let j = index_of_word(data.subrange(b.0, b.1));
    let k = index_of_word(data.subrange(c.0, c.1));
    if c.0 >= limit {
        Err(MeshError::MissingNumber)
    } else if i.is_none() || j.is_none() || k.is_none() {
        Err(MeshError::BadIndex)
    } else {
        Ok((i.unwrap(), j.unwrap(), k.unwrap()))
    }
}

/// What the line of an OBJ file from `from` up to `limit` holds.
pub open spec fn obj_line(data: Seq<u8>, from: int, limit: int) -> Result<ObjLine, MeshError> {
    let w = next_word(data, from, limit);
    let word = data.subrange(w.0, w.1);
    if word == word_v() {
        match three_scalars(data, w.1, limit) {
            Ok(v) => Ok(ObjLine::Vertex(v)),
            Err(e) => Err(e),
        }
    } else if word == word_f() {
        match three_indices(data, w.1, limit) {
            Ok(f) => Ok(ObjLine::Face(f.0, f.1, f.2)),
            Err(e) => Err(e),
        }
    } else {
        Ok(ObjLine::Other)
    }
}

/// The faces of an OBJ file from index `from` on, after `found`, where
/// `points` are the vertices that the lines before have given. A face takes
/// its vertices by their numbers, counted from one, from among the vertices
/// given before it, and its normal from its vertices. (The end of a line
/// never lies before its start or beyond the text; the test for it lets the
/// definition be seen to end.)
pub open spec fn obj_faces(data: Seq<u8>, from: int, points: Seq<Vec3d>, found: Seq<Facet>) -> Result<
    Seq<Facet>,
    MeshError,
>
    decreases data.len() + 1 - from,
{
    if from >= data.len() {
        Ok(found)
    } else {
        let limit = line_end(data, from);
        if limit < from || limit > data.len() {
            Ok(found)
        } else {
            match obj_line(data, from, limit) {
                Err(e) => Err(e),
                Ok(ObjLine::Other) => obj_faces(data, limit + 1, points, found),
                Ok(ObjLine::Vertex(v)) => obj_faces(data, limit + 1, points.push(v), found),
                Ok(ObjLine::Face(i, j, k)) => if 1 <= i <= points.len() && 1 <= j <= points.len()
                    && 1 <= k <= points.len() {
                    let verticies = (points[i - 1], points[j - 1], points[k - 1]);
                    obj_faces(
                        data,
                        limit + 1,
                        points,
                        found.push((normal_of(verticies), verticies)),
                    )
                } else {
                    Err(MeshError::BadIndex)
                },
            }
        }
    }
}

/// What the line of a text STL file from `from` up to `limit` holds.
pub open spec fn stl_line(data: Seq<u8>, from: int, limit: int) -> Result<StlLine, MeshError> {
    let w = next_word(data, from, limit);
    let word = data.subrange(w.0, w.1);
    if word == word_facet() {
        let n = next_word(data, w.1, limit);
        if data.subrange(n.0, n.1) == word_normal() {
            match three_scalars(data, n.1, limit) {
                Ok(v) => Ok(StlLine::Facet(v)),
                Err(e) => Err(e),
            }
        } else {
            Ok(StlLine::Other)
        }
    } else if word == word_vertex() {
        match three_scalars(data, w.1, limit) {
            Ok(v) => Ok(StlLine::Vertex(v)),
            Err(e) => Err(e),
        }
    } else if word == word_endfacet() {
        Ok(StlLine::EndFacet)
    } else {
        Ok(StlLine::Other)
    }
}

/// The facets of a text STL file from index `from` on, after `found`, where
/// `normal` and `points` are what the lines of the facet at hand have given
/// so far. The end of a facet takes the normal and the first three vertices
/// given since the end of the facet before; where no normal was given, the
/// normal is zero. (The end of a line never lies before its start or beyond
/// the text; the test for it lets the definition be seen to end.)
pub open spec fn stl_facets(
    data: Seq<u8>,
    from: int,
    normal: Vec3d,
    points: Seq<Vec3d>,
    found: Seq<Facet>,
) -> Result<Seq<Facet>, MeshError>
    decreases data.len() + 1 - from,
{
    if from >= data.len() {
        Ok(found)
    } else {
        let limit = line_end(data, from);
        if limit < from || limit > data.len() {
            Ok(found)
        } else {
            match stl_line(data, from, limit) {
                Err(e) => Err(e),
                Ok(StlLine::Other) => stl_facets(data, limit + 1, normal, points, found),
                Ok(StlLine::Facet(n)) => stl_facets(data, limit + 1, n, points, found),
                Ok(StlLine::Vertex(v)) => stl_facets(data, limit + 1, normal, points.push(v), found),
                Ok(StlLine::EndFacet) => if points.len() >= 3 {
                    stl_facets(
                        data,
                        limit + 1,
                        Vec3d { x: 0, y: 0, z: 0 },
                        Seq::empty(),
                        found.push((normal, (points[0], points[1], points[2]))),
                    )
                } else {
                    Err(MeshError::MissingVertex)
                },
            }
        }
    }
}

/// The index at which the last part of a file name starts: after its last
/// full stop before `upto`, or zero if there is none.
pub open spec fn extension_start(name: Seq<u8>, upto: int) -> int
    decreases upto,
{
    if upto <= 0 {
        0
    } else if name[upto - 1] == 46 {
        upto
    } else {
        extension_start(name, upto - 1)
    }
}

/// The format that the name of a file tells by its last part, if any.
pub open spec fn format_of_name(name: Seq<u8>) -> Option<MeshFormat> {
    let last = name.subrange(extension_start(name, name.len() as int), name.len() as int);
    if last == word_obj() {
        Some(MeshFormat::Obj)
    } else if last == word_stl() {
        Some(MeshFormat::Stl)
    } else {
        None
    }
}

/// Finds the next word on the line.
fn find_next_word(data: &[u8], from: usize, limit: usize) -> (w: (usize, usize))
    requires
        from <= limit <= data@.len(),
    ensures
        w.0 as int == next_word(data@, from as int, limit as int).0,
        w.1 as int == next_word(data@, from as int, limit as int).1,
        from <= w.0 <= w.1 <= limit,
{
    let start: usize = find_word_start(data, from, limit);
    (start, find_word_end(data, start, limit))
}

/// Reads the next three words on the line as numerals.
fn read_three_scalars(data: &[u8], from: usize, limit: usize) -> (r: Result<Vec3d, MeshError>)
    requires
        from <= limit <= data@.len(),
    ensures
        r == three_scalars(data@, from as int, limit as int),
{
    let a: (usize, usize) = find_next_word(data, from, limit);
    let b: (usize, usize) = find_next_word(data, a.1, limit);
    let c: (usize, usize) = find_next_word(data, b.1, limit);
    if c.0 >= limit {
        return Err(MeshError::MissingNumber);
    }
    let x: Option<i32> = read_scalar(slice_subrange(data, a.0, a.1));
    let y: Option<i32> = read_scalar(slice_subrange(data, b.0, b.1));
    let z: Option<i32> = read_scalar(slice_subrange(data, c.0, c.1));
    match (x, y, z) {
        (Some(x), Some(y), Some(z)) => Ok(Vec3d { x, y, z }),
        _ => Err(MeshError::BadNumber),
    }
}

/// Reads the next three words on the line as numbers in digits.
fn read_three_indices(data: &[u8], from: usize, limit: usize) -> (r: Result<
    (usize, usize, usize),
    MeshError,
>)
    requires
        from <= limit <= data@.len(),
    ensures
        r == three_indices(data@, from as int, limit as int),
{
    let a: (usize, usize) = find_next_word(data, from, limit);
    let b: (usize, usize) = find_next_word(data, a.1, limit);
    let c: (usize, usize) = find_next_word(data, b.1, limit);
    if c.0 >= limit {
        return Err(MeshError::MissingNumber);
    }
    let i: Option<usize> = read_index(slice_subrange(data, a.0, a.1));
    let j: Option<usize> = read_index(slice_subrange(data, b.0, b.1));
    let k: Option<usize> = read_index(slice_subrange(data, c.0, c.1));
    match (i, j, k) {
        (Some(i), Some(j), Some(k)) => Ok((i, j, k)),
        _ => Err(MeshError::BadIndex),
    }
}

/// Tells whether the bytes from `start` up to `end` spell the word `v`.
fn spells_v(data: &[u8], start: usize, end: usize) -> (b: bool)
    requires
        start <= end <= data@.len(),
    ensures
        b == (data@.subrange(start as int, end as int) == word_v()),
{
    let word: [u8; 1] = [118];
    assert(word@ =~= word_v());
    spells(data, start, end, word.as_slice())
}

/// Tells whether the bytes from `start` up to `end` spell the word `f`.
fn spells_f(data: &[u8], start: usize, end: usize) -> (b: bool)
    requires
        start <= end <= data@.len(),
    ensures
        b == (data@.subrange(start as int, end as int) == word_f()),
{
    let word: [u8; 1] = [102];
    assert(word@ =~= word_f());
    spells(data, start, end, word.as_slice())
}

/// Tells whether the bytes from `start` up to `end` spell the word `facet`.
fn spells_facet(data: &[u8], start: usize, end: usize) -> (b: bool)
    requires
        start <= end <= data@.len(),
    ensures
        b == (data@.subrange(start as int, end as int) == word_facet()),
{
    let word: [u8; 5] = [102, 97, 99, 101, 116];
    assert(word@ =~= word_facet());
    spells(data, start, end, word.as_slice())
}

/// Tells whether the bytes from `start` up to `end` spell the word `normal`.
fn spells_normal(data: &[u8], start: usize, end: usize) -> (b: bool)
    requires
        start <= end <= data@.len(),
    ensures
        b == (data@.subrange(start as int, end as int) == word_normal()),
{
    let word: [u8; 6] = [110, 111, 114, 109, 97, 108];
    assert(word@ =~= word_normal());
    spells(data, start, end, word.as_slice())
}

/// Tells whether the bytes from `start` up to `end` spell the word `vertex`.
fn spells_vertex(data: &[u8], start: usize, end: usize) -> (b: bool)
    requires
        start <= end <= data@.len(),
    ensures
        b == (data@.subrange(start as int, end as int) == word_vertex()),
{
    let word: [u8; 6] = [118, 101, 114, 116, 101, 120];
    assert(word@ =~= word_vertex());
    spells(data, start, end, word.as_slice())
}

/// Tells whether the bytes from `start` up to `end` spell the word
/// `endfacet`.
fn spells_endfacet(data: &[u8], start: usize, end: usize) -> (b: bool)
    requires
        start <= end <= data@.len(),
    ensures
        b == (data@.subrange(start as int, end as int) == word_endfacet()),
{
    let word: [u8; 8] = [101, 110, 100, 102, 97, 99, 101, 116];
    assert(word@ =~= word_endfacet());
    spells(data, start, end, word.as_slice())
}

/// Reads one line of an OBJ file.
pub fn read_obj_line(data: &[u8], from: usize, limit: usize) -> (r: Result<ObjLine, MeshError>)
    requires
        from <= limit <= data@.len(),
    ensures
        r == obj_line(data@, from as int, limit as int),
{
    let w: (usize, usize) = find_next_word(data, from, limit);
    if spells_v(data, w.0, w.1) {
        match read_three_scalars(data, w.1, limit) {
            Ok(v) => Ok(ObjLine::Vertex(v)),
            Err(e) => Err(e),
        }
    } else if spells_f(data, w.0, w.1) {
        match read_three_indices(data, w.1, limit) {
            Ok(f) => Ok(ObjLine::Face(f.0, f.1, f.2)),
            Err(e) => Err(e),
        }
    } else {
        Ok(ObjLine::Other)
    }
}

/// Reads one line of a text STL file.
pub fn read_stl_line(data: &[u8], from: usize, limit: usize) -> (r: Result<StlLine, MeshError>)
    requires
        from <= limit <= data@.len(),
    ensures
        r == stl_line(data@, from as int, limit as int),
{
    let w: (usize, usize) = find_next_word(data, from, limit);
    if spells_facet(data, w.0, w.1) {
        let n: (usize, usize) = find_next_word(data, w.1, limit);
        if spells_normal(data, n.0, n.1) {
            match read_three_scalars(data, n.1, limit) {
                Ok(v) => Ok(StlLine::Facet(v)),
                Err(e) => Err(e),
            }
        } else {
            Ok(StlLine::Other)
        }
    } else if spells_vertex(data, w.0, w.1) {
        match read_three_scalars(data, w.1, limit) {
            Ok(v) => Ok(StlLine::Vertex(v)),
            Err(e) => Err(e),
        }
    } else if spells_endfacet(data, w.0, w.1) {
        Ok(StlLine::EndFacet)
    } else {
        Ok(StlLine::Other)
    }
}

/// Whether the triangles are those of the facets, each in a colour of its
/// own.
pub open spec fn built_from(tris: Seq<Triangle>, facets: Seq<Facet>) -> bool {
    &&& tris.len() == facets.len()
    &&& forall|k: int|
        0 <= k < facets.len() ==> {
            let t = #[trigger] tris[k];
            &&& t == Triangle::assembled(facets[k].0, facets[k].1, t.color)
            &&& is_color(t.color)
        }
}

impl Mesh {
    /// Whether `r` and `later` are what reading the binary STL file `data`
    /// into this mesh gives.
    pub open spec fn read_stl_bin(self, later: Mesh, data: Seq<u8>, r: Result<(), MeshError>) -> bool {
        match r {
            Ok(_) => {
                &&& stl_complete(data)
                &&& stl_readable(data)
                &&& self.extended_by(
                    later,
                    Seq::new(stl_count(data) as nat, |k: int| stl_facet(data, k).unwrap()),
                )
            },
            Err(MeshError::Truncated) => !stl_complete(data) && later == self,
            Err(MeshError::BadNumber) => stl_complete(data) && !stl_readable(data) && later == self,
            Err(_) => false,
        }
    }

    /// Whether `r` and `later` are what reading the OBJ file `data` into this
    /// mesh gives.
    pub open spec fn read_obj(self, later: Mesh, data: Seq<u8>, r: Result<(), MeshError>) -> bool {
        if !valid_utf8(data) {
            r == Err::<(), MeshError>(MeshError::NotText) && later == self
        } else {
            match obj_faces(data, 0, Seq::empty(), Seq::empty()) {
                Ok(facets) => r.is_ok() && self.extended_by(later, facets),
                Err(e) => r == Err::<(), MeshError>(e) && later == self,
            }
        }
    }

    /// Whether `r` and `later` are what reading the text STL file `data`
    /// into this mesh gives.
    pub open spec fn read_stl_text(self, later: Mesh, data: Seq<u8>, r: Result<(), MeshError>) -> bool {
        if !valid_utf8(data) {
            r == Err::<(), MeshError>(MeshError::NotText) && later == self
        } else {
            match stl_facets(data, 0, Vec3d { x: 0, y: 0, z: 0 }, Seq::empty(), Seq::empty()) {
                Ok(facets) => r.is_ok() && self.extended_by(later, facets),
                Err(e) => r == Err::<(), MeshError>(e) && later == self,
            }
        }
    }

    /// Whether `later` is this mesh with triangles added at the end, one for
    /// each of `facets` in order: with its normal and vertices, in a colour of
    /// its own.
    pub open spec fn extended_by(
        self,
        later: Mesh,
        facets: Seq<(Vec3d, (Vec3d, Vec3d, Vec3d))>,
    ) -> bool {
        &&& self.same_frame(later)
        &&& later.tris@.len() == self.tris@.len() + facets.len()
        &&& forall|i: int| 0 <= i < self.tris@.len() ==> later.tris@[i] == self.tris@[i]
        &&& forall|k: int|
            0 <= k < facets.len() ==> {
                let t = #[trigger] later.tris@[self.tris@.len() + k];
                &&& t == Triangle::assembled(facets[k].0, facets[k].1, t.color)
                &&& is_color(t.color)
            }
    }

    /// Make a Mesh from the bytes of an stl binary file: the triangles of
    /// the file are added to the mesh, in colours picked at random.
    ///
    /// The file holds 80 bytes of header, the number of triangles in four
    /// bytes, and 50 bytes for each triangle. Bytes after the last triangle
    /// are not read.
    pub fn from_stl_bin(&mut self, data: &[u8]) -> (r: Result<(), MeshError>)
        ensures
            old(self).read_stl_bin(*final(self), data@, r),
    {
        if data.len() < 84 {
            return Err(MeshError::Truncated);
        }
        let n_tris: u32 = read_u32_le(data, 80);
        if ((data.len() - 84) as u64) / 50 < n_tris as u64 {
            return Err(MeshError::Truncated);
        }
        let count: usize = n_tris as usize;
        let mut tris: Vec<Triangle> = Vec::new();
        let mut k: usize = 0;
        let mut at: usize = 84;
        while k < count
            invariant
                k <= count,
                count == stl_count(data@),
                84 + 50 * count <= data@.len(),
                data@.len() <= usize::MAX,
                at == 84 + 50 * k,
                tris@.len() == k,
                forall|j: int| 0 <= j < k ==> (#[trigger] stl_facet(data@, j)).is_some(),
                forall|j: int|
                    0 <= j < k ==> {
                        let t = #[trigger] tris@[j];
                        &&& t == Triangle::assembled(
                            stl_facet(data@, j).unwrap().0,
                            stl_facet(data@, j).unwrap().1,
                            t.color,
                        )
                        &&& is_color(t.color)
                    },
            decreases count - k,
        {
            match read_facet(data, at, Ghost(k as int)) {
                None => {
                    return Err(MeshError::BadNumber);
                },
                Some(facet) => {
                    tris.push(
                        Triangle::new_with_normal(facet.0, facet.1.0, facet.1.1, facet.1.2),
                    );
                },
            }
            k = k + 1;
            at = at + 50;
        }
        self.tris.append(&mut tris);
        Ok(())
    }

    /// Adds the triangles `tris`, which were built from `facets`.
    fn take(&mut self, tris: Vec<Triangle>, facets: Ghost<Seq<Facet>>)
        requires
            built_from(tris@, facets@),
        ensures
            old(self).extended_by(*final(self), facets@),
    {
        let mut tris = tris;
        self.tris.append(&mut tris);
    }

    /// Make a Mesh from the contents of an obj file: the faces of the file
    /// are added to the mesh as triangles, in colours picked at random.
    ///
    /// A line that starts with the word `v` gives a vertex by three
    /// numerals, one that starts with the word `f` a face by the numbers of
    /// three vertices. Other lines, and what follows the third number on a
    /// line, are not read.
    pub fn from_obj(&mut self, data: &[u8]) -> (r: Result<(), MeshError>)
        ensures
            old(self).read_obj(*final(self), data@, r),
    {
        if !is_text(data) {
            return Err(MeshError::NotText);
        }
        let mut points: Vec<Vec3d> = Vec::new();
        let mut tris: Vec<Triangle> = Vec::new();
        let ghost mut found: Seq<Facet> = Seq::empty();
        let mut pos: usize = 0;
        while pos < data.len()
            invariant
                pos <= data@.len(),
                valid_utf8(data@),
                *self == *old(self),
                obj_faces(data@, pos as int, points@, found) == obj_faces(
                    data@,
                    0,
                    Seq::empty(),
                    Seq::empty(),
                ),
                built_from(tris@, found),
            decreases data@.len() - pos,
        {
            let limit: usize = find_line_end(data, pos);
            match read_obj_line(data, pos, limit) {
                Err(e) => {
                    return Err(e);
                },
                Ok(ObjLine::Other) => {},
                Ok(ObjLine::Vertex(v)) => {
                    points.push(v);
                },
                Ok(ObjLine::Face(i, j, k)) => {
                    let n: usize = points.len();
                    if i < 1 || i > n || j < 1 || j > n || k < 1 || k > n {
                        return Err(MeshError::BadIndex);
                    }
                    let t: Triangle = Triangle::new(points[i - 1], points[j - 1], points[k - 1]);
                    tris.push(t);
                    proof {
                        let verticies = (points@[i - 1], points@[j - 1], points@[k - 1]);
                        found = found.push((normal_of(verticies), verticies));
                    }
                },
            }
            proof {
                if limit == data@.len() {
                    assert(obj_faces(data@, limit + 1, points@, found) == Ok::<
                        Seq<Facet>,
                        MeshError,
                    >(found));
                    assert(obj_faces(data@, limit as int, points@, found) == Ok::<
                        Seq<Facet>,
                        MeshError,
                    >(found));
                }
            }
            if limit == data.len() {
                pos = limit;
            } else {
                pos = limit + 1;
            }
        }
        self.take(tris, Ghost(found));
        Ok(())
    }

    /// Make a Mesh from the contents of an stl ascii file: the facets of the
    /// file are added to the mesh as triangles, in colours picked at random.
    ///
    /// A line that starts with the words `facet normal` gives the normal of
    /// a facet by three numerals, one that starts with the word `vertex` a
    /// vertex, and one that starts with the word `endfacet` ends the facet.
    /// Other lines, and what follows the third numeral on a line, are not
    /// read.
    pub fn from_stl_ascii(&mut self, data: &[u8]) -> (r: Result<(), MeshError>)
        ensures
            old(self).read_stl_text(*final(self), data@, r),
    {
        if !is_text(data) {
            return Err(MeshError::NotText);
        }
        let mut points: Vec<Vec3d> = Vec::new();
        let mut normal: Vec3d = Vec3d::new(0, 0, 0);
        let mut tris: Vec<Triangle> = Vec::new();
        let ghost mut found: Seq<Facet> = Seq::empty();
        let mut pos: usize = 0;
        while pos < data.len()
            invariant
                pos <= data@.len(),
                valid_utf8(data@),
                *self == *old(self),
                stl_facets(data@, pos as int, normal, points@, found) == stl_facets(
                    data@,
                    0,
                    Vec3d { x: 0, y: 0, z: 0 },
                    Seq::empty(),
                    Seq::empty(),
                ),
                built_from(tris@, found),
            decreases data@.len() - pos,
        {
            let limit: usize = find_line_end(data, pos);
            match read_stl_line(data, pos, limit) {
                Err(e) => {
                    return Err(e);
                },
                Ok(StlLine::Other) => {},
                Ok(StlLine::Facet(n)) => {
                    normal = n;
                },
                Ok(StlLine::Vertex(v)) => {
                    points.push(v);
                },
                Ok(StlLine::EndFacet) => {
                    if points.len() < 3 {
                        return Err(MeshError::MissingVertex);
                    }
                    let t: Triangle = Triangle::new_with_normal(
                        normal,
                        points[0],
                        points[1],
                        points[2],
                    );
                    tris.push(t);
                    proof {
                        found = found.push((normal, (points@[0], points@[1], points@[2])));
                    }
                    normal = Vec3d::new(0, 0, 0);
                    points = Vec::new();
                },
            }
            proof {
                if limit == data@.len() {
                    assert(stl_facets(data@, limit + 1, normal, points@, found) == Ok::<
                        Seq<Facet>,
                        MeshError,
                    >(found));
                    assert(stl_facets(data@, limit as int, normal, points@, found) == Ok::<
                        Seq<Facet>,
                        MeshError,
                    >(found));
                }
            }
            if limit == data.len() {
                pos = limit;
            } else {
                pos = limit + 1;
            }
        }
        self.take(tris, Ghost(found));
        Ok(())
    }

    /// Tells the format of a file by the last part of its name.
    pub fn format_of(filename: &str) -> (format: Option<MeshFormat>)
        ensures
            format == format_of_name(filename.spec_bytes()),
    {
        let name: &[u8] = filename.as_bytes();
        let mut start: usize = name.len();
        while start > 0 && name[start - 1] != 46
            invariant
                start <= name@.len(),
                extension_start(name@, start as int) == extension_start(
                    name@,
                    name@.len() as int,
                ),
            decreases start,
        {
            start = start - 1;
        }
        let obj: [u8; 3] = [111, 98, 106];
        let stl: [u8; 3] = [115, 116, 108];
        assert(obj@ =~= word_obj());
        assert(stl@ =~= word_stl());
        if spells(name, start, name.len(), obj.as_slice()) {
            Some(MeshFormat::Obj)
        } else if spells(name, start, name.len(), stl.as_slice()) {
            Some(MeshFormat::Stl)
        } else {
            None
        }
    }

    /// Make a Mesh from the contents of a file, whose name tells the format.
    ///
    /// An stl file is read as text; if it is no text, it is read as binary.
    /// A file of neither format is not read, and the mesh stays as it is.
    pub fn from_file(&mut self, filename: &str, contents: &[u8]) -> (r: Result<(), MeshError>)
        ensures
            match format_of_name(filename.spec_bytes()) {
                None => r.is_ok() && *final(self) == *old(self),
                Some(MeshFormat::Obj) => old(self).read_obj(*final(self), contents@, r),
                Some(MeshFormat::Stl) => if valid_utf8(contents@) {
                    old(self).read_stl_text(*final(self), contents@, r)
                } else {
                    old(self).read_stl_bin(*final(self), contents@, r)
                },
            },
    {
        match Mesh::format_of(filename) {
            None => Ok(()),
            Some(MeshFormat::Obj) => self.from_obj(contents),
            Some(MeshFormat::Stl) => {
                if is_text(contents) {
                    self.from_stl_ascii(contents)
                } else {
                    self.from_stl_bin(contents)
                }
            },
        }
    }
}

} // verus!
