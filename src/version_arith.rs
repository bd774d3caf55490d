//! Arithmetic on versions: `W!-S` style subtraction, over versions parsed and
//! rendered by the `versions` crate.
use crate::settings::decimal;
use crate::version_select::opt_view;
use vstd::prelude::*;

verus! {

/// One dot-separated piece of a parsed version.
pub enum VersionChunk {
    Numeric(u32),
    Alphanum(String),
}

/// A parsed version, held as plain values: optional epoch, main chunks,
/// optional release chunks and optional metadata.
pub struct VersionParts {
    pub epoch: Option<u32>,
    pub chunks: Vec<VersionChunk>,
    pub release: Option<Vec<VersionChunk>>,
    pub meta: Option<String>,
}

pub enum ChunkView {
    Numeric(u32),
    Alphanum(Seq<char>),
}

pub struct PartsView {
    pub epoch: Option<u32>,
    pub chunks: Seq<ChunkView>,
    pub release: Option<Seq<ChunkView>>,
    pub meta: Option<Seq<char>>,
}

pub open spec fn chunk_view(c: VersionChunk) -> ChunkView {
    match c {
        VersionChunk::Numeric(n) => ChunkView::Numeric(n),
        VersionChunk::Alphanum(s) => ChunkView::Alphanum(s@),
    }
}

pub open spec fn chunk_list_view(v: Seq<VersionChunk>) -> Seq<ChunkView> {
    v.map_values(|c: VersionChunk| chunk_view(c))
}

impl View for VersionParts {
    type V = PartsView;

    open spec fn view(&self) -> PartsView {
        PartsView {
            epoch: self.epoch,
            chunks: chunk_list_view(self.chunks@),
            release: match self.release {
                Some(r) => Some(chunk_list_view(r@)),
                None => None,
            },
            meta: opt_view(self.meta),
        }
    }
}

pub open spec fn opt_parts_view(p: Option<VersionParts>) -> Option<PartsView> {
    match p {
        Some(p) => Some(p@),
        None => None,
    }
}

/// What `versions::Version::new` makes of a text, as parts.
pub uninterp spec fn parsed_version(s: Seq<char>) -> Option<PartsView>;

/// How `versions` displays a chunk: a number in decimal, text as is.
pub open spec fn chunk_text(c: ChunkView) -> Seq<char> {
    match c {
        ChunkView::Numeric(n) => decimal(n as nat),
        ChunkView::Alphanum(s) => s,
    }
}

/// Chunks displayed one after another, separated by `.`.
pub open spec fn joined_chunks(cs: Seq<ChunkView>) -> Seq<char>
    decreases cs.len(),
{
    if cs.len() == 0 {
        Seq::empty()
    } else if cs.len() == 1 {
        chunk_text(cs[0])
    } else {
        joined_chunks(cs.drop_last()) + "."@ + chunk_text(cs.last())
    }
}

/// How `versions::Version` displays a version with these parts: `<epoch>:`
/// if there is an epoch, the chunks, `-<release>` and `+<meta>` if present.
pub open spec fn rendered_version(p: PartsView) -> Seq<char> {
    let epoch = match p.epoch {
        Some(e) => decimal(e as nat) + ":"@,
        None => Seq::empty(),
    };
    let release = match p.release {
        Some(r) => "-"@ + joined_chunks(r),
        None => Seq::empty(),
    };
    let meta = match p.meta {
        Some(m) => "+"@ + m,
        None => Seq::empty(),
    };
    epoch + joined_chunks(p.chunks) + release + meta
}

/// Relies on `versions::Version::new`, which parses the whole text or fails;
/// the result depends on the text alone.
#[verifier::external_body]
fn parse_version(s: &str) -> (r: Option<VersionParts>)
    ensures
        opt_parts_view(r) == parsed_version(s@),
{
    let v = versions::Version::new(s)?;
    let conv = |c: versions::Chunk| match c {
        versions::Chunk::Numeric(n) => VersionChunk::Numeric(n),
        versions::Chunk::Alphanum(a) => VersionChunk::Alphanum(a),
    };
    Some(VersionParts {
        epoch: v.epoch,
        chunks: v.chunks.0.into_iter().map(conv).collect(),
        release: v.release.map(|r| r.0.into_iter().map(conv).collect()),
        meta: v.meta,
    })
}

/// Relies on the `Display` impls of `versions::Version`, `Chunks`, `Release`
/// and `Chunk`.
#[verifier::external_body]
fn render_version(p: &VersionParts) -> (r: String)
    ensures
        r@ == rendered_version(p@),
{
    let conv = |c: &VersionChunk| match c {
        VersionChunk::Numeric(n) => versions::Chunk::Numeric(*n),
        VersionChunk::Alphanum(a) => versions::Chunk::Alphanum(a.clone()),
    };
    versions::Version {
        epoch: p.epoch,
        chunks: versions::Chunks(p.chunks.iter().map(conv).collect()),
        release: p.release.as_ref().map(|r| versions::Release(r.iter().map(conv).collect())),
        meta: p.meta.clone(),
    }.to_string()
}

pub open spec fn min_len(a: int, b: int) -> int {
    if a < b {
        a
    } else {
        b
    }
}

/// Subtraction is defined when the first `min` chunks of both versions are
/// numeric and no chunk of `s` exceeds the matching chunk of `o`.
pub open spec fn can_subtract(o: PartsView, s: PartsView) -> bool {
    forall|i: int|
        0 <= i < min_len(o.chunks.len() as int, s.chunks.len() as int) ==> {
            &&& (#[trigger] o.chunks[i]) is Numeric
            &&& s.chunks[i] is Numeric
            &&& s.chunks[i]->Numeric_0 <= o.chunks[i]->Numeric_0
        }
}

/// `o` cut to the chunk count of `s`, each chunk decreased by the chunk of `s`.
pub open spec fn subtracted(o: PartsView, s: PartsView) -> PartsView {
    PartsView {
        chunks: Seq::new(
            min_len(o.chunks.len() as int, s.chunks.len() as int) as nat,
            |i: int|
                ChunkView::Numeric((o.chunks[i]->Numeric_0 - s.chunks[i]->Numeric_0) as u32),
        ),
        ..o
    }
}

/// The text `version_sub` gives for `orig` and `sub`, or `None` when either
/// does not parse or the subtraction is not defined.
pub open spec fn version_sub_result(orig: Seq<char>, sub: Seq<char>) -> Option<Seq<char>> {
    match (parsed_version(orig), parsed_version(sub)) {
        (Some(o), Some(s)) => if can_subtract(o, s) {
            Some(rendered_version(subtracted(o, s)))
        } else {
            None
        },
        _ => None,
    }
}

/// Cuts `o` to the chunk count of `s` and subtracts `s` chunk by chunk.
pub fn subtract_parts(o: VersionParts, s: &VersionParts) -> (r: Option<VersionParts>)
    ensures
        r is Some <==> can_subtract(o@, s@),
        r matches Some(p) ==> p@ == subtracted(o@, s@),
{
    let n = if o.chunks.len() < s.chunks.len() {
        o.chunks.len()
    } else {
        s.chunks.len()
    };
    let ghost ov = o@;
    let ghost sv = s@;
    let mut out: Vec<VersionChunk> = Vec::new();
    let mut i: usize = 0;
    while i < n
        invariant
            ov == o@,
            sv == s@,
            n == min_len(ov.chunks.len() as int, sv.chunks.len() as int),
            n <= o.chunks.len(),
            n <= s.chunks.len(),
            i <= n,
            chunk_list_view(out@) == subtracted(ov, sv).chunks.take(i as int),
            forall|k: int|
                0 <= k < i ==> {
                    &&& (#[trigger] ov.chunks[k]) is Numeric
                    &&& sv.chunks[k] is Numeric
                    &&& sv.chunks[k]->Numeric_0 <= ov.chunks[k]->Numeric_0
                },
        decreases n - i,
    {
        assert(ov.chunks[i as int] == chunk_view(o.chunks@[i as int]));
        assert(sv.chunks[i as int] == chunk_view(s.chunks@[i as int]));
        let a = match &o.chunks[i] {
            VersionChunk::Numeric(a) => *a,
            VersionChunk::Alphanum(_) => {
                return None;
            },
        };
        let b = match &s.chunks[i] {
            VersionChunk::Numeric(b) => *b,
            VersionChunk::Alphanum(_) => {
                return None;
            },
        };
        if b > a {
            return None;
        }
        let ghost prev = out@;
        out.push(VersionChunk::Numeric(a - b));
        assert(chunk_list_view(out@) =~= chunk_list_view(prev).push(ChunkView::Numeric((a - b) as u32)));
        assert(subtracted(ov, sv).chunks[i as int] == ChunkView::Numeric((a - b) as u32));
        assert(chunk_list_view(out@) =~= subtracted(ov, sv).chunks.take(i + 1));
        i = i + 1;
    }
    assert(subtracted(ov, sv).chunks.take(n as int) =~= subtracted(ov, sv).chunks);
    Some(VersionParts { epoch: o.epoch, chunks: out, release: o.release, meta: o.meta })
}

/// Subtracts `sub` from `orig` chunk by chunk and drops the chunks past the
/// length of `sub`: "18.2.3" minus "2" is "16", minus "0.1" is "18.1".
/// `None` when either text is not a version or a chunk would go below zero.
pub fn version_sub(orig: &str, sub: &str) -> (r: Option<String>)
    ensures
        opt_view(r) == version_sub_result(orig@, sub@),
{
    let o = match parse_version(orig) {
        Some(o) => o,
        None => {
            return None;
        },
    };
    let s = match parse_version(sub) {
        Some(s) => s,
        None => {
            return None;
        },
    };
    match subtract_parts(o, &s) {
        Some(d) => Some(render_version(&d)),
        None => None,
    }
}

} // verus!
