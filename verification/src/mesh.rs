use vstd::prelude::*;

verus! {

/// A polygon of a mesh, as the file stores it: its corners are the loops
/// `loop_start`, `loop_start + 1`, ..., `loop_start + loop_total - 1`.
#[derive(Copy, Clone, PartialEq, Eq, Structural, Debug)]
pub struct MeshFace {
    pub loop_start: i32,
    pub loop_total: i32,
}

/// One corner of an output triangle: the loop it takes its texture
/// coordinate from, and the vertex it takes its position and normal from.
#[derive(Copy, Clone, PartialEq, Eq, Structural, Debug)]
pub struct MeshCorner {
    pub loop_index: usize,
    pub vertex_index: usize,
}

/// The number of triangles that a polygon of `loop_total` loops is cut into:
/// one for each odd `i` below `loop_total`.
pub open spec fn triangle_count(loop_total: int) -> int {
    if loop_total <= 0 {
        0
    } else {
        loop_total / 2
    }
}

/// Triangle `t` of a polygon takes the loop offsets `2t`, `2t + 1`, `2t + 2`;
/// an offset that runs past the polygon's last loop falls back to `0`.
/// This is the offset of corner `j` (triangle `j / 3`, place `j % 3`).
pub open spec fn corner_offset(loop_total: int, j: int) -> int {
    let k = 2 * (j / 3) + j % 3;
    if k < loop_total {
        k
    } else {
        0
    }
}

/// The loop that corner `j` of `face` refers to.
pub open spec fn corner_loop(face: MeshFace, j: int) -> int {
    face.loop_start + corner_offset(face.loop_total as int, j)
}

/// The corners of the triangles of one face, in order.
pub open spec fn face_corners(face: MeshFace, loop_vertices: Seq<i32>) -> Seq<MeshCorner> {
    Seq::new(
        (3 * triangle_count(face.loop_total as int)) as nat,
        |j: int|
            MeshCorner {
                loop_index: corner_loop(face, j) as usize,
                vertex_index: loop_vertices[corner_loop(face, j)] as usize,
            },
    )
}

/// The corners of the triangles of all faces, face after face.
pub open spec fn mesh_corners(faces: Seq<MeshFace>, loop_vertices: Seq<i32>) -> Seq<MeshCorner>
    decreases faces.len(),
{
    if faces.len() == 0 {
        Seq::empty()
    } else {
        mesh_corners(faces.drop_last(), loop_vertices) + face_corners(faces.last(), loop_vertices)
    }
}

/// The number of triangle corners of all faces.
pub open spec fn face_index_total(faces: Seq<MeshFace>) -> int
    decreases faces.len(),
{
    if faces.len() == 0 {
        0
    } else {
        face_index_total(faces.drop_last()) + 3 * triangle_count(faces.last().loop_total as int)
    }
}

/// Corner `j` of `face` names one of `loop_count` loops, by an index that
/// fits in an `i32`.
pub open spec fn corner_loop_in_range(face: MeshFace, j: int, loop_count: nat) -> bool {
    let li = corner_loop(face, j);
    0 <= li < loop_count && li <= i32::MAX
}

/// Every corner of `face` names one of `loop_count` loops.
pub open spec fn face_loops_in_range(face: MeshFace, loop_count: nat) -> bool {
    forall|j: int|
        0 <= j < 3 * triangle_count(face.loop_total as int) ==> #[trigger] corner_loop_in_range(
            face,
            j,
            loop_count,
        )
}

/// Every corner of every face names one of `loop_count` loops.
pub open spec fn mesh_loops_in_range(faces: Seq<MeshFace>, loop_count: nat) -> bool {
    forall|i: int| 0 <= i < faces.len() ==> #[trigger] face_loops_in_range(faces[i], loop_count)
}

/// The corner count of a prefix of the faces is at most that of all faces.
proof fn lemma_face_index_total_prefix(faces: Seq<MeshFace>, i: int)
    requires
        0 <= i <= faces.len(),
    ensures
        0 <= face_index_total(faces.take(i)) <= face_index_total(faces),
    decreases faces.len(),
{
    if i == faces.len() {
        assert(faces.take(i) =~= faces);
        lemma_face_index_total_nonnegative(faces);
    } else {
        lemma_face_index_total_prefix(faces.drop_last(), i);
        assert(faces.drop_last().take(i) =~= faces.take(i));
    }
}

/// Corner counts are never negative.
proof fn lemma_face_index_total_nonnegative(faces: Seq<MeshFace>)
    ensures
        face_index_total(faces) >= 0,
    decreases faces.len(),
{
    if faces.len() > 0 {
        lemma_face_index_total_nonnegative(faces.drop_last());
    }
}

/// Counts the triangle corners of all faces: for each face, three for each
/// odd `i` below its loop total.
pub fn face_index_count(faces: &Vec<MeshFace>) -> (count: usize)
    requires
        face_index_total(faces@) <= usize::MAX,
    ensures
        count == face_index_total(faces@),
{
    let mut count: usize = 0;
    let mut i: usize = 0;
    while i < faces.len()
        invariant
            i <= faces.len(),
            face_index_total(faces@) <= usize::MAX,
            count == face_index_total(faces@.take(i as int)),
        decreases faces.len() - i,
    {
        let len = faces[i].loop_total;
        proof {
            assert(faces@.take(i + 1).drop_last() =~= faces@.take(i as int));
            lemma_face_index_total_prefix(faces@, i + 1);
        }
        let ghost base = count;
        let mut indexi: i32 = 1;
        let ghost mut t: int = 0;
        while indexi < len
            invariant
                indexi == 2 * t + 1,
                0 <= t,
                t == 0 || 2 * t <= len,
                count == base + 3 * t,
                base + 3 * triangle_count(len as int) <= usize::MAX,
            decreases len - indexi + 1,
        {
            count = count + 3;
            indexi = indexi + 2;
            proof {
                t = t + 1;
            }
        }
        i = i + 1;
    }
    proof {
        assert(faces@.take(faces@.len() as int) =~= faces@);
    }
    count
}

/// Appends the corners of the triangles of `face` to `corners`.
fn push_face_corners(face: MeshFace, loop_vertices: &Vec<i32>, corners: &mut Vec<MeshCorner>)
    requires
        face_loops_in_range(face, loop_vertices@.len()),
    ensures
        final(corners)@ == old(corners)@ + face_corners(face, loop_vertices@),
{
    let ghost init = corners@;
    let ghost all = face_corners(face, loop_vertices@);
    let len = face.loop_total;
    let start = face.loop_start;
    let mut indexi: i32 = 1;
    let ghost mut t: int = 0;
    while indexi < len
        invariant
            len == face.loop_total,
            start == face.loop_start,
            face_loops_in_range(face, loop_vertices@.len()),
            all == face_corners(face, loop_vertices@),
            indexi == 2 * t + 1,
            0 <= t,
            t == 0 || 2 * t <= len,
            corners@ == init + all.take(3 * t),
        decreases len - indexi + 1,
    {
        let mut l: i32 = 0;
        while l < 3
            invariant
                len == face.loop_total,
                start == face.loop_start,
                face_loops_in_range(face, loop_vertices@.len()),
                all == face_corners(face, loop_vertices@),
                indexi == 2 * t + 1,
                indexi < len,
                0 <= t,
                0 <= l <= 3,
                corners@ == init + all.take(3 * t + l),
            decreases 3 - l,
        {
            let ghost j = 3 * t + l;
            proof {
                assert(j / 3 == t && j % 3 == l);
                assert(corner_loop_in_range(face, j, loop_vertices@.len()));
            }
            let k = (indexi - 1) + l;
            let index = if k < len {
                start + k
            } else {
                start
            };
            let v = loop_vertices[index as usize];
            corners.push(MeshCorner { loop_index: index as usize, vertex_index: #[verifier::truncate] (v as usize) });
            proof {
                assert(all.take(j + 1) =~= all.take(j).push(all[j]));
            }
            l = l + 1;
        }
        indexi = indexi + 2;
        proof {
            t = t + 1;
        }
    }
    proof {
        assert(all.take(3 * t) =~= all);
    }
}

/// Lists the triangle corners of every face, face after face: for each face,
/// each corner's loop and the vertex that loop names. The triangles take the
/// loops in steps of two, which covers a face's area only when it has three
/// or four loops; the loader is meant for meshes of triangular faces.
pub fn triangulate_mesh(faces: &Vec<MeshFace>, loop_vertices: &Vec<i32>) -> (corners: Vec<
    MeshCorner,
>)
    requires
        mesh_loops_in_range(faces@, loop_vertices@.len()),
    ensures
        corners@ == mesh_corners(faces@, loop_vertices@),
        forall|m: int|
            0 <= m < corners@.len() ==> (#[trigger] corners@[m]).loop_index < loop_vertices@.len()
                && corners@[m].vertex_index == loop_vertices@[corners@[m].loop_index as int] as usize,
{
    let mut corners: Vec<MeshCorner> = Vec::new();
    let mut i: usize = 0;
    while i < faces.len()
        invariant
            i <= faces.len(),
            mesh_loops_in_range(faces@, loop_vertices@.len()),
            corners@ == mesh_corners(faces@.take(i as int), loop_vertices@),
        decreases faces.len() - i,
    {
        proof {
            assert(face_loops_in_range(faces@[i as int], loop_vertices@.len()));
            assert(faces@.take(i + 1).drop_last() =~= faces@.take(i as int));
        }
        push_face_corners(faces[i], loop_vertices, &mut corners);
        i = i + 1;
    }
    proof {
        assert(faces@.take(faces@.len() as int) =~= faces@);
        lemma_mesh_corner_vertices(faces@, loop_vertices@);
    }
    corners
}

/// Whether `face_index_count` and `triangulate_mesh` accept these faces and
/// loops: the corner count fits in a `usize` and every corner names one of
/// the loops.
pub fn mesh_is_supported(faces: &Vec<MeshFace>, loop_vertices: &Vec<i32>) -> (ok: bool)
    ensures
        ok == (face_index_total(faces@) <= usize::MAX && mesh_loops_in_range(
            faces@,
            loop_vertices@.len(),
        )),
{
    let mut count: usize = 0;
    let mut i: usize = 0;
    while i < faces.len()
        invariant
            i <= faces.len(),
            count == face_index_total(faces@.take(i as int)),
            forall|m: int| 0 <= m < i ==> #[trigger] face_loops_in_range(faces@[m], loop_vertices@.len()),
        decreases faces.len() - i,
    {
        let face = faces[i];
        let len = face.loop_total;
        proof {
            assert(faces@.take(i + 1).drop_last() =~= faces@.take(i as int));
            lemma_face_index_total_prefix(faces@, i + 1);
        }
        let corner_total: usize = if len <= 0 {
            0
        } else {
            3 * ((len / 2) as usize)
        };
        if count > usize::MAX - corner_total {
            return false;
        }
        count = count + corner_total;
        let mut j: usize = 0;
        while j < corner_total
            invariant
                i < faces@.len(),
                face == faces@[i as int],
                len == face.loop_total,
                corner_total == 3 * triangle_count(len as int),
                j <= corner_total,
                forall|m: int| 0 <= m < j ==> #[trigger] corner_loop_in_range(face, m, loop_vertices@.len()),
            decreases corner_total - j,
        {
            let offset: i64 = (2 * (j / 3) + j % 3) as i64;
            let k: i64 = if offset < len as i64 {
                offset
            } else {
                0
            };
            let li: i64 = face.loop_start as i64 + k;
            if li < 0 || li > i32::MAX as i64 || li as usize >= loop_vertices.len() {
                proof {
                    assert(!corner_loop_in_range(face, j as int, loop_vertices@.len()));
                    assert(!face_loops_in_range(faces@[i as int], loop_vertices@.len()));
                    assert(!mesh_loops_in_range(faces@, loop_vertices@.len()));
                }
                return false;
            }
            j = j + 1;
        }
        i = i + 1;
    }
    proof {
        assert(faces@.take(faces@.len() as int) =~= faces@);
    }
    true
}

/// The first pass and the second agree: the corner count of the faces is the
/// number of corners their triangulation lists, so the buffers sized by the
/// count are filled exactly.
pub proof fn lemma_corner_count_matches(faces: Seq<MeshFace>, loop_vertices: Seq<i32>)
    ensures
        mesh_corners(faces, loop_vertices).len() == face_index_total(faces),
    decreases faces.len(),
{
    if faces.len() > 0 {
        lemma_corner_count_matches(faces.drop_last(), loop_vertices);
    }
}

/// Every corner of a face's triangles is one of that face's own loops.
pub proof fn lemma_corners_within_face(face: MeshFace, j: int)
    requires
        0 <= j < 3 * triangle_count(face.loop_total as int),
    ensures
        face.loop_start <= corner_loop(face, j) < face.loop_start + face.loop_total,
{
}

/// Every loop of a face is a corner of one of its triangles, once the face
/// has at least two loops.
pub proof fn lemma_face_loops_covered(face: MeshFace, offset: int)
    requires
        face.loop_total >= 2,
        0 <= offset < face.loop_total,
    ensures
        exists|j: int|
            0 <= j < 3 * triangle_count(face.loop_total as int) && #[trigger] corner_loop(face, j)
                == face.loop_start + offset,
{
    let j = if offset == 0 {
        0
    } else if offset % 2 == 1 {
        3 * (offset / 2) + 1
    } else {
        3 * (offset / 2 - 1) + 2
    };
    assert(corner_loop(face, j) == face.loop_start + offset);
}

/// Corner counts add up over runs of faces: every face counts, wherever it
/// stands.
pub proof fn lemma_face_index_total_additive(a: Seq<MeshFace>, b: Seq<MeshFace>)
    ensures
        face_index_total(a + b) == face_index_total(a) + face_index_total(b),
    decreases b.len(),
{
    if b.len() == 0 {
        assert(a + b =~= a);
    } else {
        lemma_face_index_total_additive(a, b.drop_last());
        assert((a + b).drop_last() =~= a + b.drop_last());
        assert((a + b).last() == b.last());
    }
}

/// One face of `n` loops has `3 * (n / 2)` corners, none when `n <= 0`.
pub proof fn lemma_face_index_total_single(f: MeshFace)
    ensures
        face_index_total(seq![f]) == if f.loop_total > 0 {
            3 * (f.loop_total / 2)
        } else {
            0
        },
{
    let one = seq![f];
    assert(one.drop_last() =~= Seq::<MeshFace>::empty());
    assert(one.last() == f);
    assert(face_index_total(one.drop_last()) == 0);
}

/// The corners of two runs of faces are those of the first run followed by
/// those of the second.
pub proof fn lemma_mesh_corners_additive(a: Seq<MeshFace>, b: Seq<MeshFace>, loop_vertices: Seq<i32>)
    ensures
        mesh_corners(a + b, loop_vertices) == mesh_corners(a, loop_vertices) + mesh_corners(
            b,
            loop_vertices,
        ),
    decreases b.len(),
{
    if b.len() == 0 {
        assert(a + b =~= a);
        assert(mesh_corners(a, loop_vertices) + mesh_corners(b, loop_vertices) =~= mesh_corners(
            a,
            loop_vertices,
        ));
    } else {
        lemma_mesh_corners_additive(a, b.drop_last(), loop_vertices);
        assert((a + b).drop_last() =~= a + b.drop_last());
        assert((a + b).last() == b.last());
        assert(mesh_corners(a + b, loop_vertices) =~= mesh_corners(a, loop_vertices)
            + mesh_corners(b, loop_vertices));
    }
}

/// The corners of a single face, stated on its loops: triangle `m / 3` takes
/// the face's loops `2 (m / 3)`, `2 (m / 3) + 1` and `2 (m / 3) + 2`, the last
/// going back to the face's first loop when it is past the face's end; there
/// are three corners for every two loops; each corner names the vertex of its
/// own loop.
pub proof fn lemma_single_face_corners(f: MeshFace, loop_vertices: Seq<i32>)
    requires
        face_loops_in_range(f, loop_vertices.len()),
    ensures
        mesh_corners(seq![f], loop_vertices).len() == if f.loop_total > 0 {
            3 * (f.loop_total / 2)
        } else {
            0
        },
        forall|m: int|
            0 <= m < mesh_corners(seq![f], loop_vertices).len() ==> {
                let c = #[trigger] mesh_corners(seq![f], loop_vertices)[m];
                let k = 2 * (m / 3) + m % 3;
                &&& c.loop_index as int == if k < f.loop_total {
                    f.loop_start + k
                } else {
                    f.loop_start as int
                }
                &&& c.vertex_index == loop_vertices[c.loop_index as int] as usize
            },
{
    let one = seq![f];
    assert(one.drop_last() =~= Seq::<MeshFace>::empty());
    assert(one.last() == f);
    assert(mesh_corners(one.drop_last(), loop_vertices) =~= Seq::<MeshCorner>::empty());
    assert(mesh_corners(one, loop_vertices) =~= face_corners(f, loop_vertices));
    assert forall|m: int| 0 <= m < mesh_corners(one, loop_vertices).len() implies {
        let c = #[trigger] mesh_corners(one, loop_vertices)[m];
        let k = 2 * (m / 3) + m % 3;
        &&& c.loop_index as int == if k < f.loop_total {
            f.loop_start + k
        } else {
            f.loop_start as int
        }
        &&& c.vertex_index == loop_vertices[c.loop_index as int] as usize
    } by {
        assert(corner_loop_in_range(f, m, loop_vertices.len()));
        assert(mesh_corners(one, loop_vertices)[m] == face_corners(f, loop_vertices)[m]);
    }
}

/// Every corner of a triangulation names one of the loops, and the vertex it
/// names is the vertex of that loop.
pub proof fn lemma_mesh_corner_vertices(faces: Seq<MeshFace>, loop_vertices: Seq<i32>)
    requires
        mesh_loops_in_range(faces, loop_vertices.len()),
    ensures
        forall|m: int|
            0 <= m < mesh_corners(faces, loop_vertices).len() ==> {
                let c = #[trigger] mesh_corners(faces, loop_vertices)[m];
                &&& c.loop_index < loop_vertices.len()
                &&& c.vertex_index == loop_vertices[c.loop_index as int] as usize
            },
    decreases faces.len(),
{
    if faces.len() > 0 {
        let init = faces.drop_last();
        let f = faces.last();
        assert(mesh_loops_in_range(init, loop_vertices.len())) by {
            assert forall|i: int| 0 <= i < init.len() implies #[trigger] face_loops_in_range(
                init[i],
                loop_vertices.len(),
            ) by {
                assert(init[i] == faces[i]);
                assert(face_loops_in_range(faces[i], loop_vertices.len()));
            }
        }
        assert(face_loops_in_range(faces[faces.len() - 1], loop_vertices.len()));
        lemma_mesh_corner_vertices(init, loop_vertices);
        let front = mesh_corners(init, loop_vertices);
        let back = face_corners(f, loop_vertices);
        assert forall|m: int|
            0 <= m < mesh_corners(faces, loop_vertices).len() implies {
            let c = #[trigger] mesh_corners(faces, loop_vertices)[m];
            &&& c.loop_index < loop_vertices.len()
            &&& c.vertex_index == loop_vertices[c.loop_index as int] as usize
        } by {
            if m < front.len() {
                assert(mesh_corners(faces, loop_vertices)[m] == front[m]);
            } else {
                let j = m - front.len();
                assert(mesh_corners(faces, loop_vertices)[m] == back[j]);
                assert(corner_loop_in_range(f, j, loop_vertices.len()));
            }
        }
    }
}

/// A face's corners all name existing loops exactly when the face has fewer
/// than two loops, or its loops `loop_start .. loop_start + loop_total` all
/// lie among the `loop_count` loops with indices that fit in an `i32`.
pub proof fn lemma_face_loops_in_range_iff(f: MeshFace, loop_count: nat)
    ensures
        face_loops_in_range(f, loop_count) <==> (f.loop_total < 2 || (f.loop_start >= 0
            && f.loop_start + f.loop_total <= loop_count && f.loop_start + f.loop_total - 1
            <= i32::MAX)),
{
    if f.loop_total >= 2 {
        if face_loops_in_range(f, loop_count) {
            assert(corner_loop_in_range(f, 0, loop_count));
            lemma_face_loops_covered(f, f.loop_total - 1);
            let j = choose|j: int|
                0 <= j < 3 * triangle_count(f.loop_total as int) && #[trigger] corner_loop(f, j)
                    == f.loop_start + (f.loop_total - 1);
            assert(corner_loop_in_range(f, j, loop_count));
        }
        if f.loop_start >= 0 && f.loop_start + f.loop_total <= loop_count && f.loop_start
            + f.loop_total - 1 <= i32::MAX {
            assert forall|j: int|
                0 <= j < 3 * triangle_count(f.loop_total as int) implies #[trigger] corner_loop_in_range(
                f,
                j,
                loop_count,
            ) by {
                lemma_corners_within_face(f, j);
            }
        }
    }
}

/// The index list of `face_count` triangles drawn from a vertex list that
/// holds three vertices per triangle, in order: index `i` is `i`.
pub fn triangle_index_list(face_count: usize) -> (indices: Vec<u16>)
    requires
        3 * face_count <= u16::MAX,
    ensures
        indices@.len() == 3 * face_count,
        forall|i: int| 0 <= i < indices@.len() ==> indices@[i] == i,
{
    let mut indices: Vec<u16> = Vec::new();
    let mut index: u16 = 0;
    let mut f: usize = 0;
    while f < face_count
        invariant
            f <= face_count,
            3 * face_count <= u16::MAX,
            index == 3 * f,
            indices@.len() == 3 * f,
            forall|i: int| 0 <= i < indices@.len() ==> indices@[i] == i,
        decreases face_count - f,
    {
        indices.push(index);
        indices.push(index + 1);
        indices.push(index + 2);
        index = index + 3;
        f = f + 1;
    }
    indices
}

} // verus!
