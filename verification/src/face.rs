//! The corners of a face: what its references point to, and how a polygon
//! becomes triangles.
use vstd::prelude::*;
use crate::error::ParseError;
use crate::number::{isize_value, parse_isize};
use crate::seqs::views;
use crate::text::{split, split_on};

verus! {

/// The triangles that a polygon with the corners `s` is cut into: each is
/// made of the first corner and two corners that follow one another. Up to
/// three corners stay as they are.
pub open spec fn fan(s: Seq<usize>) -> Seq<usize> {
    if s.len() <= 3 {
        s
    } else {
        Seq::new(
            (3 * (s.len() - 2)) as nat,
            |k: int|
                if k % 3 == 0 {
                    s[0]
                } else if k % 3 == 1 {
                    s[k / 3 + 1]
                } else {
                    s[k / 3 + 2]
                },
        )
    }
}

/// Cuts the polygon with the corners `indices` into triangles.
pub fn triangulate(indices: &Vec<usize>) -> (out: Vec<usize>)
    ensures
        out@ == fan(indices@),
{
    let n = indices.len();
    let mut out: Vec<usize> = Vec::new();
    if n <= 3 {
        let mut i: usize = 0;
        while i < n
            invariant
                n == indices.len(),
                i <= n,
                out@ == indices@.take(i as int),
            decreases n - i,
        {
            out.push(indices[i]);
            assert(indices@.take(i + 1) =~= indices@.take(i as int).push(indices@[i as int]));
            i += 1;
        }
        assert(indices@.take(n as int) =~= indices@);
        return out;
    }
    let a = indices[0];
    let mut b = indices[1];
    let mut c: usize = 2;
    while c < n
        invariant
            n == indices.len(),
            n > 3,
            2 <= c <= n,
            a == indices@[0],
            b == indices@[c - 1],
            out@.len() == 3 * (c - 2),
            forall|k: int| 0 <= k < out@.len() ==> out@[k] == fan(indices@)[k],
        decreases n - c,
    {
        let ghost base = out@.len() as int;
        out.push(a);
        out.push(b);
        out.push(indices[c]);
        b = indices[c];
        assert(base % 3 == 0 && base / 3 == c - 2) by (nonlinear_arith)
            requires
                base == 3 * (c - 2),
        ;
        assert((base + 1) % 3 == 1 && (base + 1) / 3 == c - 2) by (nonlinear_arith)
            requires
                base == 3 * (c - 2),
        ;
        assert((base + 2) % 3 == 2 && (base + 2) / 3 == c - 2) by (nonlinear_arith)
            requires
                base == 3 * (c - 2),
        ;
        c += 1;
    }
    assert(out@ =~= fan(indices@));
    out
}

/// How many entries each pool of the model holds.
#[derive(Clone, Copy, Debug)]
pub struct PoolSizes {
    /// The number of positions.
    pub vertices: usize,
    /// The number of texture coordinates.
    pub textures: usize,
    /// The number of normals.
    pub normals: usize,
}

/// The index lists of a face while its references are read.
pub struct Corners {
    pub vertices: Seq<usize>,
    pub textures: Seq<usize>,
    pub normals: Seq<usize>,
}

/// The index that the reference `x` stands for in a pool with `count`
/// entries: a positive reference counts from one at the start of the pool, a
/// negative one from minus one at its end. Zero, and a negative reference
/// that reaches back beyond the start, stand for nothing.
pub open spec fn resolve(x: isize, count: usize) -> Option<usize> {
    if x < 0 {
        if x + count >= 0 {
            Some((x + count) as usize)
        } else {
            None
        }
    } else if x == 0 {
        None
    } else {
        Some((x - 1) as usize)
    }
}

/// The index that the reference `x` stands for in a pool with `count`
/// entries.
pub fn resolve_index(x: isize, count: usize) -> (out: Option<usize>)
    ensures
        out == resolve(x, count),
{
    if x < 0 {
        let back: usize = (-(x + 1)) as usize;
        if back < count {
            Some(count - 1 - back)
        } else {
            None
        }
    } else if x == 0 {
        None
    } else {
        Some((x - 1) as usize)
    }
}

/// The corners after the part at place `place` of a reference was read: an
/// empty part changes nothing; a part that is no integer is refused, then
/// one at a fourth or later place, then one that stands for no index; any
/// other adds its index to the list that its place names.
pub open spec fn add_part(c: Corners, place: int, part: Seq<char>, sizes: PoolSizes) -> Result<
    Corners,
    ParseError,
> {
    if part.len() == 0 {
        Ok(c)
    } else {
        match isize_value(part) {
            None => Err(ParseError::Fetch),
            Some(x) => if place == 0 {
                match resolve(x, sizes.vertices) {
                    Some(i) => Ok(Corners { vertices: c.vertices.push(i), ..c }),
                    None => Err(ParseError::IndexOutOfRange),
                }
            } else if place == 1 {
                match resolve(x, sizes.textures) {
                    Some(i) => Ok(Corners { textures: c.textures.push(i), ..c }),
                    None => Err(ParseError::IndexOutOfRange),
                }
            } else if place == 2 {
                match resolve(x, sizes.normals) {
                    Some(i) => Ok(Corners { normals: c.normals.push(i), ..c }),
                    None => Err(ParseError::IndexOutOfRange),
                }
            } else {
                Err(ParseError::FaceShape)
            },
        }
    }
}

/// The corners after the parts of one reference were read in order, from
/// place `place` on, up to the first that is refused.
pub open spec fn add_parts(c: Corners, parts: Seq<Seq<char>>, place: int, sizes: PoolSizes) -> Result<
    Corners,
    ParseError,
>
    decreases parts.len(),
{
    if parts.len() == 0 {
        Ok(c)
    } else {
        match add_part(c, place, parts[0], sizes) {
            Ok(next) => add_parts(next, parts.drop_first(), place + 1, sizes),
            Err(e) => Err(e),
        }
    }
}

/// The corners after the references `words` were read in order: each is cut
/// at its slashes and its parts are read.
pub open spec fn add_references(c: Corners, words: Seq<Seq<char>>, sizes: PoolSizes) -> Result<
    Corners,
    ParseError,
>
    decreases words.len(),
{
    if words.len() == 0 {
        Ok(c)
    } else {
        match add_parts(c, split_on(words[0], '/'), 0, sizes) {
            Ok(next) => add_references(next, words.drop_first(), sizes),
            Err(e) => Err(e),
        }
    }
}

/// The corners of the face that the references `words` describe.
pub open spec fn corners_of(words: Seq<Seq<char>>, sizes: PoolSizes) -> Result<Corners, ParseError> {
    add_references(
        Corners { vertices: Seq::empty(), textures: Seq::empty(), normals: Seq::empty() },
        words,
        sizes,
    )
}

/// The index lists of a face: positions, texture coordinates, normals.
pub struct CornerLists {
    pub vertices: Vec<usize>,
    pub textures: Vec<usize>,
    pub normals: Vec<usize>,
}

impl View for CornerLists {
    type V = Corners;

    open spec fn view(&self) -> Corners {
        Corners { vertices: self.vertices@, textures: self.textures@, normals: self.normals@ }
    }
}

/// Reads one reference into the index lists. Where it is refused, the lists
/// hold what was read before the part that was refused.
fn read_reference(lists: &mut CornerLists, word: &Vec<char>, sizes: PoolSizes) -> (res: Result<
    (),
    ParseError,
>)
    ensures
        match add_parts(old(lists)@, split_on(word@, '/'), 0, sizes) {
            Ok(c) => res == Ok::<(), ParseError>(()) && final(lists)@ == c,
            Err(e) => res == Err::<(), ParseError>(e),
        },
{
    let parts = split(word, '/');
    let ghost all = views(parts@);
    let mut p: usize = 0;
    assert(all.skip(0) =~= all);
    while p < parts.len()
        invariant
            p <= parts.len(),
            all == views(parts@),
            all == split_on(word@, '/'),
            add_parts(lists@, all.skip(p as int), p as int, sizes) == add_parts(
                old(lists)@,
                all,
                0,
                sizes,
            ),
        decreases parts.len() - p,
    {
        assert(all.skip(p as int)[0] == parts@[p as int]@);
        assert(all.skip(p as int).drop_first() =~= all.skip(p + 1));
        let part = &parts[p];
        if part.len() > 0 {
            match parse_isize(part) {
                None => {
                    return Err(ParseError::Fetch);
                },
                Some(x) => {
                    if p == 0 {
                        match resolve_index(x, sizes.vertices) {
                            Some(i) => {
                                lists.vertices.push(i);
                            },
                            None => {
                                return Err(ParseError::IndexOutOfRange);
                            },
                        }
                    } else if p == 1 {
                        match resolve_index(x, sizes.textures) {
                            Some(i) => {
                                lists.textures.push(i);
                            },
                            None => {
                                return Err(ParseError::IndexOutOfRange);
                            },
                        }
                    } else if p == 2 {
                        match resolve_index(x, sizes.normals) {
                            Some(i) => {
                                lists.normals.push(i);
                            },
                            None => {
                                return Err(ParseError::IndexOutOfRange);
                            },
                        }
                    } else {
                        return Err(ParseError::FaceShape);
                    }
                },
            }
        }
        p += 1;
    }
    Ok(())
}

/// Reads the references `words` of a face into its index lists.
pub fn read_corners(words: &[Vec<char>], sizes: PoolSizes) -> (out: Result<CornerLists, ParseError>)
    ensures
        match corners_of(views(words@), sizes) {
            Ok(c) => out is Ok && out->Ok_0@ == c,
            Err(e) => out is Err && out->Err_0 == e,
        },
{
    let mut lists = CornerLists { vertices: Vec::new(), textures: Vec::new(), normals: Vec::new() };
    let mut w: usize = 0;
    assert(views(words@).skip(0) =~= views(words@));
    while w < words.len()
        invariant
            w <= words.len(),
            add_references(lists@, views(words@).skip(w as int), sizes) == corners_of(
                views(words@),
                sizes,
            ),
        decreases words.len() - w,
    {
        let ghost rest = views(words@).skip(w as int);
        assert(rest[0] == words@[w as int]@);
        assert(rest.drop_first() =~= views(words@).skip(w + 1));
        match read_reference(&mut lists, &words[w], sizes) {
            Ok(()) => {},
            Err(e) => {
                return Err(e);
            },
        }
        w += 1;
    }
    Ok(lists)
}

} // verus!
