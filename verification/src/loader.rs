//! Parsers for the SIFT benchmark file formats.
//!
//! A `.fvecs`, `.bvecs` or `.ivecs` file is a run of records, each a
//! little-endian `i32` dimension `d` followed by `d` components: 4-byte
//! floats, single bytes, or 4-byte integers. Fewer than 4 bytes after the
//! last record end the file. Float components are returned as their IEEE-754
//! bit patterns, to be read with `f32::from_bits`.

use crate::codec::{le_read_i32, le_read_u32, spec_i32_from_le_bytes};
use vstd::bytes::{lemma_auto_spec_u32_to_from_le_bytes, spec_u32_from_le_bytes, spec_u32_to_le_bytes};
use vstd::prelude::*;
use vstd::slice::{slice_subrange, slice_to_vec};

verus! {

/// Why a SIFT file could not be read.
#[derive(Debug, Clone, Copy, PartialEq, Eq, Structural)]
pub enum LoadError {
    /// The file ends inside a record.
    Truncated,
    /// A record's dimension differs from the file's dimension.
    InconsistentDimensions { expected: usize, actual: usize },
    /// A negative dimension, which as a length exceeds what can be
    /// allocated.
    CapacityOverflow { dimension: usize },
}

/// The loader of SIFT data sets.
pub struct SiftDataLoader;

/// The `i`-th little-endian 4-byte word of `s`.
pub open spec fn word_at(s: Seq<u8>, i: int) -> u32 {
    spec_u32_from_le_bytes(s.subrange(4 * i, 4 * i + 4))
}

/// The `n` little-endian 4-byte words at the start of `s`.
pub open spec fn words(s: Seq<u8>, n: int) -> Seq<u32> {
    Seq::new(n as nat, |i: int| word_at(s, i))
}

/// The `n` little-endian `i32`s at the start of `s`.
pub open spec fn int_words(s: Seq<u8>, n: int) -> Seq<i32> {
    Seq::new(n as nat, |i: int| spec_i32_from_le_bytes(s.subrange(4 * i, 4 * i + 4)))
}

/// The dimension in the record header at the start of `s`.
pub open spec fn header(s: Seq<u8>) -> i32 {
    spec_i32_from_le_bytes(s.take(4))
}

/// `r` with the records `done` put before its records.
pub open spec fn after<V>(done: Seq<V>, r: Result<(usize, Seq<V>), LoadError>) -> Result<
    (usize, Seq<V>),
    LoadError,
> {
    match r {
        Ok((d, rest)) => Ok((d, done + rest)),
        Err(e) => Err(e),
    }
}

/// The records of an `.fvecs` file `s` (as bit patterns) and its dimension,
/// reading on with `dimension` as the dimension met so far (0 for none).
pub open spec fn parse_fvecs_from(s: Seq<u8>, dimension: usize) -> Result<
    (usize, Seq<Seq<u32>>),
    LoadError,
>
    decreases s.len(),
{
    if s.len() < 4 {
        Ok((dimension, Seq::empty()))
    } else {
        let d = header(s);
        let dim = d as usize;
        if dimension != 0 && dimension != dim {
            Err(LoadError::InconsistentDimensions { expected: dimension, actual: dim })
        } else if d < 0 {
            Err(LoadError::CapacityOverflow { dimension: dim })
        } else if s.len() - 4 < 4 * (d as int) {
            Err(LoadError::Truncated)
        } else {
            let body = s.subrange(4, 4 + 4 * (d as int));
            after(seq![words(body, d as int)], parse_fvecs_from(s.skip(4 + 4 * (d as int)), dim))
        }
    }
}

/// The records of a `.bvecs` file `s` and its dimension, reading on with
/// `dimension` as the dimension met so far (0 for none).
pub open spec fn parse_bvecs_from(s: Seq<u8>, dimension: usize) -> Result<
    (usize, Seq<Seq<u8>>),
    LoadError,
>
    decreases s.len(),
{
    if s.len() < 4 {
        Ok((dimension, Seq::empty()))
    } else {
        let d = header(s);
        let dim = d as usize;
        if dimension != 0 && dimension != dim {
            Err(LoadError::InconsistentDimensions { expected: dimension, actual: dim })
        } else if d < 0 {
            Err(LoadError::CapacityOverflow { dimension: dim })
        } else if s.len() - 4 < d as int {
            Err(LoadError::Truncated)
        } else {
            let body = s.subrange(4, 4 + (d as int));
            after(seq![body], parse_bvecs_from(s.skip(4 + (d as int)), dim))
        }
    }
}

/// The records of an `.ivecs` file `s`; records may differ in dimension.
pub open spec fn parse_ivecs_from(s: Seq<u8>) -> Result<(usize, Seq<Seq<i32>>), LoadError>
    decreases s.len(),
{
    if s.len() < 4 {
        Ok((0, Seq::empty()))
    } else {
        let d = header(s);
        if d < 0 {
            Err(LoadError::CapacityOverflow { dimension: d as usize })
        } else if s.len() - 4 < 4 * (d as int) {
            Err(LoadError::Truncated)
        } else {
            let body = s.subrange(4, 4 + 4 * (d as int));
            after(seq![int_words(body, d as int)], parse_ivecs_from(s.skip(4 + 4 * (d as int))))
        }
    }
}

/// The views of a vector of vectors.
pub open spec fn views<T>(v: Seq<Vec<T>>) -> Seq<Seq<T>> {
    v.map_values(|x: Vec<T>| x@)
}

proof fn lemma_after_after<V>(a: Seq<V>, b: Seq<V>, r: Result<(usize, Seq<V>), LoadError>)
    ensures
        after(a, after(b, r)) == after(a + b, r),
{
    match r {
        Ok((d, rest)) => {
            assert(a + (b + rest) =~= (a + b) + rest);
        },
        Err(e) => {},
    }
}

proof fn lemma_after_empty<V>(r: Result<(usize, Seq<V>), LoadError>)
    ensures
        after(Seq::<V>::empty(), r) == r,
{
    match r {
        Ok((d, rest)) => {
            assert(Seq::<V>::empty() + rest =~= rest);
        },
        Err(e) => {},
    }
}

/// Reads `n` little-endian 4-byte words starting at byte `pos`.
fn read_words(bytes: &[u8], pos: usize, n: usize) -> (r: Vec<u32>)
    requires
        pos + 4 * n <= bytes@.len(),
    ensures
        r@ == words(bytes@.subrange(pos as int, pos + 4 * n), n as int),
{
    let mut out: Vec<u32> = Vec::new();
    let len = bytes.len();
    let mut j: usize = 0;
    while j < n
        invariant
            pos + 4 * n <= bytes@.len(),
            0 <= j <= n,
            bytes@.len() == len,
            out@ == words(bytes@.subrange(pos as int, pos + 4 * n), j as int),
        decreases n - j,
    {
        let at = pos + 4 * j;
        let w = le_read_u32(slice_subrange(bytes, at, at + 4));
        proof {
            let body = bytes@.subrange(pos as int, pos + 4 * n);
            assert(bytes@.subrange(at as int, at + 4).take(4) =~= body.subrange(4 * j, 4 * j + 4));
        }
        out.push(w);
        j = j + 1;
        assert(out@ =~= words(bytes@.subrange(pos as int, pos + 4 * n), j as int));
    }
    out
}

/// Reads `n` little-endian `i32`s starting at byte `pos`.
fn read_int_words(bytes: &[u8], pos: usize, n: usize) -> (r: Vec<i32>)
    requires
        pos + 4 * n <= bytes@.len(),
    ensures
        r@ == int_words(bytes@.subrange(pos as int, pos + 4 * n), n as int),
{
    let mut out: Vec<i32> = Vec::new();
    let len = bytes.len();
    let mut j: usize = 0;
    while j < n
        invariant
            pos + 4 * n <= bytes@.len(),
            0 <= j <= n,
            bytes@.len() == len,
            out@ == int_words(bytes@.subrange(pos as int, pos + 4 * n), j as int),
        decreases n - j,
    {
        let at = pos + 4 * j;
        let w = le_read_i32(slice_subrange(bytes, at, at + 4));
        proof {
            let body = bytes@.subrange(pos as int, pos + 4 * n);
            assert(bytes@.subrange(at as int, at + 4).take(4) =~= body.subrange(4 * j, 4 * j + 4));
        }
        out.push(w);
        j = j + 1;
        assert(out@ =~= int_words(bytes@.subrange(pos as int, pos + 4 * n), j as int));
    }
    out
}

impl SiftDataLoader {
    /// Parses the contents of an `.fvecs` file: the file's dimension and its
    /// vectors, each component as its `f32` bit pattern.
    pub fn parse_fvecs(bytes: &[u8]) -> (r: Result<(usize, Vec<Vec<u32>>), LoadError>)
        ensures
            match r {
                Ok((d, v)) => parse_fvecs_from(bytes@, 0) == Ok::<(usize, Seq<Seq<u32>>), LoadError>(
                    (d, views(v@)),
                ),
                Err(e) => parse_fvecs_from(bytes@, 0) == Err::<(usize, Seq<Seq<u32>>), LoadError>(e),
            },
    {
        let mut vectors: Vec<Vec<u32>> = Vec::new();
        let mut dimension: usize = 0;
        let mut pos: usize = 0;
        proof {
            assert(bytes@.skip(0) =~= bytes@);
            lemma_after_empty(parse_fvecs_from(bytes@, 0));
        }
        while bytes.len() - pos >= 4
            invariant
                pos <= bytes@.len(),
                parse_fvecs_from(bytes@, 0) == after(
                    views(vectors@),
                    parse_fvecs_from(bytes@.skip(pos as int), dimension),
                ),
            decreases bytes@.len() - pos,
        {
            let ghost rest = bytes@.skip(pos as int);
            let d = le_read_i32(slice_subrange(bytes, pos, pos + 4));
            assert(bytes@.subrange(pos as int, pos + 4).take(4) =~= rest.take(4));
            let dim = d as usize;
            if dimension != 0 && dimension != dim {
                return Err(LoadError::InconsistentDimensions { expected: dimension, actual: dim });
            }
            if d < 0 {
                return Err(LoadError::CapacityOverflow { dimension: dim });
            }
            let n = d as usize;
            if (bytes.len() - pos - 4) / 4 < n {
                return Err(LoadError::Truncated);
            }
            let vector = read_words(bytes, pos + 4, n);
            proof {
                let body = rest.subrange(4, 4 + 4 * (d as int));
                assert(bytes@.subrange(pos + 4, pos + 4 + 4 * n) =~= body);
                assert(rest.skip(4 + 4 * (d as int)) =~= bytes@.skip(pos + 4 + 4 * n));
                lemma_after_after(
                    views(vectors@),
                    seq![vector@],
                    parse_fvecs_from(bytes@.skip(pos + 4 + 4 * n), dim),
                );
            }
            let ghost prev = vectors@;
            vectors.push(vector);
            assert(views(vectors@) =~= views(prev) + seq![vector@]);
            dimension = dim;
            pos = pos + 4 + 4 * n;
        }
        assert(views(vectors@) + Seq::empty() =~= views(vectors@));
        Ok((dimension, vectors))
    }

    /// Parses the contents of a `.bvecs` file: the file's dimension and its
    /// vectors of bytes.
    pub fn parse_bvecs(bytes: &[u8]) -> (r: Result<(usize, Vec<Vec<u8>>), LoadError>)
        ensures
            match r {
                Ok((d, v)) => parse_bvecs_from(bytes@, 0) == Ok::<(usize, Seq<Seq<u8>>), LoadError>(
                    (d, views(v@)),
                ),
                Err(e) => parse_bvecs_from(bytes@, 0) == Err::<(usize, Seq<Seq<u8>>), LoadError>(e),
            },
    {
        let mut vectors: Vec<Vec<u8>> = Vec::new();
        let mut dimension: usize = 0;
        let mut pos: usize = 0;
        proof {
            assert(bytes@.skip(0) =~= bytes@);
            lemma_after_empty(parse_bvecs_from(bytes@, 0));
        }
        while bytes.len() - pos >= 4
            invariant
                pos <= bytes@.len(),
                parse_bvecs_from(bytes@, 0) == after(
                    views(vectors@),
                    parse_bvecs_from(bytes@.skip(pos as int), dimension),
                ),
            decreases bytes@.len() - pos,
        {
            let ghost rest = bytes@.skip(pos as int);
            let d = le_read_i32(slice_subrange(bytes, pos, pos + 4));
            assert(bytes@.subrange(pos as int, pos + 4).take(4) =~= rest.take(4));
            let dim = d as usize;
            if dimension != 0 && dimension != dim {
                return Err(LoadError::InconsistentDimensions { expected: dimension, actual: dim });
            }
            if d < 0 {
                return Err(LoadError::CapacityOverflow { dimension: dim });
            }
            let n = d as usize;
            if bytes.len() - pos - 4 < n {
                return Err(LoadError::Truncated);
            }
            let vector = slice_to_vec(slice_subrange(bytes, pos + 4, pos + 4 + n));
            proof {
                let body = rest.subrange(4, 4 + (d as int));
                assert(bytes@.subrange(pos + 4, pos + 4 + n) =~= body);
                assert(rest.skip(4 + (d as int)) =~= bytes@.skip(pos + 4 + n));
                lemma_after_after(
                    views(vectors@),
                    seq![vector@],
                    parse_bvecs_from(bytes@.skip(pos + 4 + n), dim),
                );
            }
            let ghost prev = vectors@;
            vectors.push(vector);
            assert(views(vectors@) =~= views(prev) + seq![vector@]);
            dimension = dim;
            pos = pos + 4 + n;
        }
        assert(views(vectors@) + Seq::empty() =~= views(vectors@));
        Ok((dimension, vectors))
    }

    /// Parses the contents of an `.ivecs` file: its vectors of integers,
    /// which may differ in dimension.
    pub fn parse_ivecs(bytes: &[u8]) -> (r: Result<Vec<Vec<i32>>, LoadError>)
        ensures
            match r {
                Ok(v) => parse_ivecs_from(bytes@) matches Ok((_, w)) && w == views(v@),
                Err(e) => parse_ivecs_from(bytes@) == Err::<(usize, Seq<Seq<i32>>), LoadError>(e),
            },
    {
        let mut vectors: Vec<Vec<i32>> = Vec::new();
        let mut pos: usize = 0;
        proof {
            assert(bytes@.skip(0) =~= bytes@);
            lemma_after_empty(parse_ivecs_from(bytes@));
        }
        while bytes.len() - pos >= 4
            invariant
                pos <= bytes@.len(),
                parse_ivecs_from(bytes@) == after(views(vectors@), parse_ivecs_from(bytes@.skip(pos as int))),
            decreases bytes@.len() - pos,
        {
            let ghost rest = bytes@.skip(pos as int);
            let d = le_read_i32(slice_subrange(bytes, pos, pos + 4));
            assert(bytes@.subrange(pos as int, pos + 4).take(4) =~= rest.take(4));
            if d < 0 {
                return Err(LoadError::CapacityOverflow { dimension: d as usize });
            }
            let n = d as usize;
            if (bytes.len() - pos - 4) / 4 < n {
                return Err(LoadError::Truncated);
            }
            let vector = read_int_words(bytes, pos + 4, n);
            proof {
                let body = rest.subrange(4, 4 + 4 * (d as int));
                assert(bytes@.subrange(pos + 4, pos + 4 + 4 * n) =~= body);
                assert(rest.skip(4 + 4 * (d as int)) =~= bytes@.skip(pos + 4 + 4 * n));
                lemma_after_after(
                    views(vectors@),
                    seq![vector@],
                    parse_ivecs_from(bytes@.skip(pos + 4 + 4 * n)),
                );
            }
            let ghost prev = vectors@;
            vectors.push(vector);
            assert(views(vectors@) =~= views(prev) + seq![vector@]);
            pos = pos + 4 + 4 * n;
        }
        assert(views(vectors@) + Seq::empty() =~= views(vectors@));
        Ok(vectors)
    }
}

/// The little-endian bytes of the words `ws`, one after the other.
pub open spec fn encode_words(ws: Seq<u32>) -> Seq<u8>
    decreases ws.len(),
{
    if ws.len() == 0 {
        Seq::empty()
    } else {
        spec_u32_to_le_bytes(ws[0]) + encode_words(ws.skip(1))
    }
}

/// The record header of a vector of `n` components.
pub open spec fn encode_header(n: nat) -> Seq<u8> {
    spec_u32_to_le_bytes(n as u32)
}

/// An `.fvecs` file holding the vectors `vs` (components as bit patterns).
pub open spec fn encode_fvecs(vs: Seq<Seq<u32>>) -> Seq<u8>
    decreases vs.len(),
{
    if vs.len() == 0 {
        Seq::empty()
    } else {
        encode_header(vs[0].len()) + encode_words(vs[0]) + encode_fvecs(vs.skip(1))
    }
}

/// A `.bvecs` file holding the byte vectors `vs`.
pub open spec fn encode_bvecs(vs: Seq<Seq<u8>>) -> Seq<u8>
    decreases vs.len(),
{
    if vs.len() == 0 {
        Seq::empty()
    } else {
        encode_header(vs[0].len()) + vs[0] + encode_bvecs(vs.skip(1))
    }
}

/// The two's-complement words of the integers `xs`.
pub open spec fn int_bits(xs: Seq<i32>) -> Seq<u32> {
    xs.map_values(|x: i32| x as u32)
}

/// An `.ivecs` file holding the integer vectors `vs`.
pub open spec fn encode_ivecs(vs: Seq<Seq<i32>>) -> Seq<u8>
    decreases vs.len(),
{
    if vs.len() == 0 {
        Seq::empty()
    } else {
        encode_header(vs[0].len()) + encode_words(int_bits(vs[0])) + encode_ivecs(vs.skip(1))
    }
}

proof fn lemma_encode_words(ws: Seq<u32>)
    ensures
        encode_words(ws).len() == 4 * ws.len(),
        forall|i: int|
            0 <= i < ws.len() ==> #[trigger] encode_words(ws).subrange(4 * i, 4 * i + 4)
                == spec_u32_to_le_bytes(ws[i]),
    decreases ws.len(),
{
    lemma_auto_spec_u32_to_from_le_bytes();
    if ws.len() > 0 {
        lemma_encode_words(ws.skip(1));
        let e = encode_words(ws);
        let head = spec_u32_to_le_bytes(ws[0]);
        let tail = encode_words(ws.skip(1));
        assert forall|i: int| 0 <= i < ws.len() implies #[trigger] e.subrange(4 * i, 4 * i + 4)
            == spec_u32_to_le_bytes(ws[i]) by {
            if i == 0 {
                assert(e.subrange(0, 4) =~= head);
            } else {
                assert(tail.subrange(4 * (i - 1), 4 * (i - 1) + 4) == spec_u32_to_le_bytes(
                    ws.skip(1)[i - 1],
                ));
                assert(e.subrange(4 * i, 4 * i + 4) =~= tail.subrange(4 * (i - 1), 4 * (i - 1) + 4));
            }
        }
    }
}

proof fn lemma_words_of_encoding(ws: Seq<u32>, rest: Seq<u8>)
    ensures
        words((encode_words(ws) + rest).subrange(0, 4 * (ws.len() as int)), ws.len() as int) == ws,
{
    lemma_auto_spec_u32_to_from_le_bytes();
    lemma_encode_words(ws);
    let body = (encode_words(ws) + rest).subrange(0, 4 * (ws.len() as int));
    assert(body =~= encode_words(ws));
    assert forall|i: int| 0 <= i < ws.len() implies #[trigger] words(body, ws.len() as int)[i]
        == ws[i] by {
        assert(body.subrange(4 * i, 4 * i + 4) == spec_u32_to_le_bytes(ws[i]));
    }
    assert(words(body, ws.len() as int) =~= ws);
}

proof fn lemma_header_of_encoding(n: nat, rest: Seq<u8>)
    requires
        n <= i32::MAX,
    ensures
        header(encode_header(n) + rest) == n as i32,
        (encode_header(n) + rest).len() == 4 + rest.len(),
{
    lemma_auto_spec_u32_to_from_le_bytes();
    assert((encode_header(n) + rest).take(4) =~= encode_header(n));
    let u = n as u32;
    assert(u <= 0x7fff_ffff);
    assert(u <= 0x7fff_ffff ==> (u as i32) as int == u as int) by (bit_vector);
}

/// Reading an `.fvecs` file written from vectors of one dimension `d` gives
/// those vectors back, with `d` as the file's dimension (0 for no vectors).
pub proof fn lemma_fvecs_round_trip(vs: Seq<Seq<u32>>, d: nat, dimension: usize)
    requires
        d <= i32::MAX,
        forall|i: int| 0 <= i < vs.len() ==> #[trigger] vs[i].len() == d,
        dimension == 0 || dimension == d,
    ensures
        parse_fvecs_from(encode_fvecs(vs), dimension) == Ok::<(usize, Seq<Seq<u32>>), LoadError>(
            (if vs.len() == 0 { dimension } else { d as usize }, vs),
        ),
    decreases vs.len(),
{
    if vs.len() > 0 {
        let v = vs[0];
        let rest = encode_fvecs(vs.skip(1));
        let s = encode_fvecs(vs);
        lemma_encode_words(v);
        assert(s =~= encode_header(v.len()) + (encode_words(v) + rest));
        lemma_header_of_encoding(v.len(), encode_words(v) + rest);
        assert(header(s) == d as i32);
        assert(header(s) as usize == d as usize);
        assert(!(header(s) < 0));
        lemma_words_of_encoding(v, rest);
        assert(s.subrange(4, 4 + 4 * (d as int)) =~= (encode_words(v) + rest).subrange(0, 4 * (v.len() as int)));
        assert(s.skip(4 + 4 * (d as int)) =~= rest);
        lemma_fvecs_round_trip(vs.skip(1), d, d as usize);
        assert(seq![v] + vs.skip(1) =~= vs);
        assert(words(s.subrange(4, 4 + 4 * (d as int)), d as int) == v);
        assert(parse_fvecs_from(s, dimension) == after(
            seq![v],
            parse_fvecs_from(rest, d as usize),
        ));
    } else {
        assert(encode_fvecs(vs) =~= Seq::<u8>::empty());
        assert(vs =~= Seq::<Seq<u32>>::empty());
    }
}

/// Reading a `.bvecs` file written from byte vectors of one dimension `d`
/// gives those vectors back, with `d` as the file's dimension.
pub proof fn lemma_bvecs_round_trip(vs: Seq<Seq<u8>>, d: nat, dimension: usize)
    requires
        d <= i32::MAX,
        forall|i: int| 0 <= i < vs.len() ==> #[trigger] vs[i].len() == d,
        dimension == 0 || dimension == d,
    ensures
        parse_bvecs_from(encode_bvecs(vs), dimension) == Ok::<(usize, Seq<Seq<u8>>), LoadError>(
            (if vs.len() == 0 { dimension } else { d as usize }, vs),
        ),
    decreases vs.len(),
{
    if vs.len() > 0 {
        let v = vs[0];
        let rest = encode_bvecs(vs.skip(1));
        let s = encode_bvecs(vs);
        assert(s =~= encode_header(v.len()) + (v + rest));
        lemma_header_of_encoding(v.len(), v + rest);
        assert(header(s) == d as i32);
        assert(header(s) as usize == d as usize);
        assert(!(header(s) < 0));
        assert(s.subrange(4, 4 + (d as int)) =~= v);
        assert(s.skip(4 + (d as int)) =~= rest);
        lemma_bvecs_round_trip(vs.skip(1), d, d as usize);
        assert(seq![v] + vs.skip(1) =~= vs);
        assert(parse_bvecs_from(s, dimension) == after(
            seq![v],
            parse_bvecs_from(rest, d as usize),
        ));
    } else {
        assert(encode_bvecs(vs) =~= Seq::<u8>::empty());
        assert(vs =~= Seq::<Seq<u8>>::empty());
    }
}

/// Reading an `.ivecs` file written from integer vectors gives those vectors
/// back; their lengths may differ.
pub proof fn lemma_ivecs_round_trip(vs: Seq<Seq<i32>>)
    requires
        forall|i: int| 0 <= i < vs.len() ==> #[trigger] vs[i].len() <= i32::MAX,
    ensures
        parse_ivecs_from(encode_ivecs(vs)) matches Ok((_, w)) && w == vs,
    decreases vs.len(),
{
    if vs.len() > 0 {
        let v = vs[0];
        let ws = int_bits(v);
        let rest = encode_ivecs(vs.skip(1));
        let s = encode_ivecs(vs);
        lemma_encode_words(ws);
        assert(s =~= encode_header(v.len()) + (encode_words(ws) + rest));
        lemma_header_of_encoding(v.len(), encode_words(ws) + rest);
        lemma_words_of_encoding(ws, rest);
        let body = s.subrange(4, 4 + 4 * (v.len() as int));
        assert(body =~= (encode_words(ws) + rest).subrange(0, 4 * (ws.len() as int)));
        assert forall|i: int| 0 <= i < v.len() implies #[trigger] int_words(body, v.len() as int)[i]
            == v[i] by {
            let x = v[i];
            assert(words(body, v.len() as int)[i] == ws[i]);
            assert(spec_u32_from_le_bytes(body.subrange(4 * i, 4 * i + 4)) == x as u32);
            assert(((x as u32) as i32) == x) by (bit_vector);
        }
        assert(int_words(body, v.len() as int) =~= v);
        assert(s.skip(4 + 4 * (v.len() as int)) =~= rest);
        lemma_ivecs_round_trip(vs.skip(1));
        assert(seq![v] + vs.skip(1) =~= vs);
    } else {
        assert(encode_ivecs(vs) =~= Seq::<u8>::empty());
    }
}

} // verus!
