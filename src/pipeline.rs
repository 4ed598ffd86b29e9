//! The streaming pass over a dump: each line that starts with a lower-case `insert` is read with
//! the line after it, masked and rendered again; other lines pass unchanged.
use vstd::prelude::*;
use crate::lexer::ParseError;
use crate::masker::{Transform, MaskError, all_masked, insert_masked, config_ok};
use crate::model::{Insert, InsertV, views};
use crate::render::{Sql, insert_sql};
use crate::statement::{parse_insert_statement, spec_insert_statement};
use crate::lexer::lex;
use crate::text::{chars_of, string_of};

verus! {

/// Whether a line starts with `insert`, in lower case.
pub open spec fn is_insert_line_spec(line: Seq<char>) -> bool {
    line.len() >= 6 && line.subrange(0, 6) == "insert"@
}

pub fn is_insert_line(line: &String) -> (r: bool)
    ensures
        r == is_insert_line_spec(line@),
{
    let c = chars_of(line.as_str());
    let p = chars_of("insert");
    proof {
        reveal_strlit("insert");
    }
    if c.len() < 6 {
        return false;
    }
    proof {
        assert(p@.len() == 6);
    }
    let mut i: usize = 0;
    while i < 6
        invariant
            i <= 6,
            c@.len() >= 6,
            c@ == line@,
            p@.len() == 6,
            p@ == "insert"@,
            forall|k: int| 0 <= k < i ==> c@[k] == p@[k],
        decreases 6 - i,
    {
        if c[i] != p[i] {
            proof {
                assert(line@.subrange(0, 6)[i as int] != "insert"@[i as int]);
            }
            return false;
        }
        i = i + 1;
    }
    proof {
        assert(line@.subrange(0, 6) =~= "insert"@);
    }
    true
}

/// `s` without line terminators.
pub open spec fn unterminated(s: Seq<char>) -> Seq<char> {
    s.filter(|c: char| c != '\n' && c != '\r')
}

pub fn strip_terminators(s: &String) -> (r: String)
    ensures
        r@ == unterminated(s@),
{
    let c = chars_of(s.as_str());
    let mut out: Vec<char> = Vec::new();
    let mut i: usize = 0;
    while i < c.len()
        invariant
            i <= c@.len(),
            c@ == s@,
            out@ == unterminated(c@.subrange(0, i as int)),
        decreases c@.len() - i,
    {
        proof {
            reveal(Seq::filter);
            assert(c@.subrange(0, i + 1).drop_last() =~= c@.subrange(0, i as int));
        }
        if c[i] != '\n' && c[i] != '\r' {
            out.push(c[i]);
        }
        i = i + 1;
    }
    proof {
        assert(c@.subrange(0, c@.len() as int) =~= c@);
    }
    string_of(&out)
}

/// A unit of the output: a line kept as it is, or the text of an insert block.
#[derive(Clone, Debug, PartialEq, Eq)]
pub enum Block {
    Verbatim(String),
    Insert(String),
}

/// The view of a [`Block`].
pub enum BlockV {
    Verbatim(Seq<char>),
    Insert(Seq<char>),
}

impl View for Block {
    type V = BlockV;

    open spec fn view(&self) -> BlockV {
        match self {
            Block::Verbatim(s) => BlockV::Verbatim(s@),
            Block::Insert(s) => BlockV::Insert(s@),
        }
    }
}

/// How lines fall into blocks: a line that starts with `insert` takes the next
/// line with it, terminators removed.
pub open spec fn blocks_of(lines: Seq<Seq<char>>) -> Seq<BlockV>
    decreases lines.len(),
{
    if lines.len() == 0 {
        Seq::empty()
    } else if is_insert_line_spec(lines[0]) {
        if lines.len() >= 2 {
            seq![BlockV::Insert(unterminated(lines[0] + lines[1]))] + blocks_of(lines.subrange(2, lines.len() as int))
        } else {
            seq![BlockV::Insert(unterminated(lines[0]))]
        }
    } else {
        seq![BlockV::Verbatim(lines[0])] + blocks_of(lines.subrange(1, lines.len() as int))
    }
}

/// Splits lines into blocks.
pub fn split_blocks(lines: &Vec<String>) -> (r: Vec<Block>)
    ensures
        views(r@) == blocks_of(views(lines@)),
{
    let n = lines.len();
    let mut out: Vec<Block> = Vec::new();
    proof {
        assert(views(lines@).subrange(0, n as int) =~= views(lines@));
        assert(views(out@) + blocks_of(views(lines@)) =~= blocks_of(views(lines@)));
    }
    let mut i: usize = 0;
    while i < n
        invariant
            i <= n,
            n == lines@.len(),
            views(out@) + blocks_of(views(lines@).subrange(i as int, n as int)) == blocks_of(views(lines@)),
        decreases n - i,
    {
        let ghost rest = views(lines@).subrange(i as int, n as int);
        let ghost before = out@;
        proof {
            assert(rest[0] == lines@[i as int]@);
        }
        if is_insert_line(&lines[i]) {
            if i + 1 < n {
                let joined = lines[i].clone().concat(lines[i + 1].as_str());
                let b = Block::Insert(strip_terminators(&joined));
                out.push(b);
                proof {
                    crate::model::lemma_views_push(before, b);
                    assert(rest[1] == lines@[i + 1]@);
                    assert(rest.subrange(2, rest.len() as int) =~= views(lines@).subrange(i + 2, n as int));
                    assert(views(before).push(b@) + blocks_of(views(lines@).subrange(i + 2, n as int)) =~= views(before) + blocks_of(rest));
                }
                i = i + 2;
            } else {
                let b = Block::Insert(strip_terminators(&lines[i]));
                out.push(b);
                proof {
                    crate::model::lemma_views_push(before, b);
                    assert(views(lines@).subrange(n as int, n as int) =~= Seq::<Seq<char>>::empty());
                    assert(views(before).push(b@) + blocks_of(views(lines@).subrange(n as int, n as int)) =~= views(before) + blocks_of(rest));
                }
                i = i + 1;
            }
        } else {
            let b = Block::Verbatim(lines[i].clone());
            out.push(b);
            proof {
                crate::model::lemma_views_push(before, b);
                assert(rest.subrange(1, rest.len() as int) =~= views(lines@).subrange(i + 1, n as int));
                assert(views(before).push(b@) + blocks_of(views(lines@).subrange(i + 1, n as int)) =~= views(before) + blocks_of(rest));
            }
            i = i + 1;
        }
    }
    proof {
        assert(views(lines@).subrange(n as int, n as int) =~= Seq::<Seq<char>>::empty());
        assert(views(out@) + Seq::<BlockV>::empty() =~= views(out@));
    }
    out
}

/// The insert that the text of an insert block holds, if any.
pub open spec fn read_block(text: Seq<char>) -> Option<InsertV> {
    match lex(text) {
        Some(tv) => spec_insert_statement(tv),
        None => None,
    }
}

/// A block that the pass reads without fail: a verbatim line, or the text of an
/// INSERT statement.
pub open spec fn readable_block(b: BlockV) -> bool {
    match b {
        BlockV::Verbatim(_) => true,
        BlockV::Insert(text) => read_block(text) is Some,
    }
}

/// Why the streaming pass failed.
#[derive(Clone, Debug, PartialEq, Eq)]
pub enum PipelineError {
    /// An insert block does not read as one INSERT statement.
    Parse(ParseError),
    Mask(MaskError),
}

/// What the pass emits for a block: a verbatim line unchanged; for an insert block,
/// the rendering of a masked insert, followed by a line terminator.
pub open spec fn emitted(c: crate::masker::MaskingConfigV, b: BlockV, out: Seq<char>, seed: u64) -> bool {
    match b {
        BlockV::Verbatim(l) => out == l,
        BlockV::Insert(text) => read_block(text) is Some && exists|y: InsertV| #[trigger] insert_masked(c, read_block(text)->Some_0, y, seed)
            && out == insert_sql(y) + "\n"@,
    }
}

/// One fragment for each block of `lines`, each what the pass emits for it.
pub open spec fn all_emitted(c: crate::masker::MaskingConfigV, lines: Seq<Seq<char>>, out: Seq<String>, seed: u64) -> bool {
    &&& out.len() == blocks_of(lines).len()
    &&& forall|k: int| 0 <= k < out.len() ==> emitted(c, blocks_of(lines)[k], #[trigger] out[k]@, seed)
}

/// Masks the insert blocks of a dump, given as lines with their terminators,
/// using the generators seeded with `seed`. The output holds one fragment per block.
pub fn mask_lines_seeded(t: &Transform, lines: &Vec<String>, seed: u64) -> (r: Result<Vec<String>, PipelineError>)
    ensures
        r matches Ok(out) ==> all_emitted(t.config@, views(lines@), out@, seed),
        !config_ok(t.config@) && blocks_of(views(lines@)).len() > 0 && (exists|k: int| 0 <= k < blocks_of(views(lines@)).len() && #[trigger] blocks_of(views(lines@))[k] is Insert) ==> r is Err,
        (forall|k: int| 0 <= k < blocks_of(views(lines@)).len() ==> #[trigger] blocks_of(views(lines@))[k] is Verbatim) ==> r is Ok,
        config_ok(t.config@) && (forall|k: int| 0 <= k < blocks_of(views(lines@)).len() ==> #[trigger] readable_block(blocks_of(views(lines@))[k])) ==> r is Ok,
{
    let blocks = split_blocks(lines);
    let mut out: Vec<String> = Vec::new();
    let mut k: usize = 0;
    while k < blocks.len()
        invariant
            k <= blocks@.len(),
            views(blocks@) == blocks_of(views(lines@)),
            out@.len() == k,
            forall|j: int| 0 <= j < k ==> emitted(t.config@, blocks_of(views(lines@))[j], #[trigger] out@[j]@, seed),
            forall|j: int| 0 <= j < k ==> (#[trigger] blocks@[j]) is Insert ==> config_ok(t.config@),
        decreases blocks@.len() - k,
    {
        let ghost bv = blocks@[k as int]@;
        proof {
            if config_ok(t.config@) && (forall|j: int| 0 <= j < blocks_of(views(lines@)).len() ==> #[trigger] readable_block(blocks_of(views(lines@))[j])) {
                assert(readable_block(blocks_of(views(lines@))[k as int]));
            }
        }
        proof {
            assert(views(blocks@)[k as int] == blocks@[k as int]@);
        }
        match &blocks[k] {
            Block::Verbatim(l) => {
                out.push(l.clone());
            },
            Block::Insert(text) => {
                let x = match parse_insert_statement(text.as_str()) {
                    Ok(x) => x,
                    Err(e) => return Err(PipelineError::Parse(e)),
                };
                let ghost xv = x@;
                let mut batch: Vec<Insert> = Vec::new();
                batch.push(x);
                let ghost before = batch@;
                proof {
                    assert(before[0]@ == xv);
                }
                match t.mask_dml_stmts_seeded(&mut batch, seed) {
                    Ok(()) => {},
                    Err(e) => return Err(PipelineError::Mask(e)),
                }
                let y = &batch[0];
                let s = y.as_sql().concat("\n");
                proof {
                    assert(bv == BlockV::Insert(text@));
                    assert(lex(text@) is Some);
                    assert(spec_insert_statement(lex(text@)->Some_0) == Some(xv));
                    assert(all_masked(t.config@, before, batch@, seed));
                    assert(insert_masked(t.config@, before[0]@, batch@[0]@, seed));
                    assert(insert_masked(t.config@, xv, y@, seed));
                    assert(s@ == insert_sql(y@) + "\n"@);
                    assert(read_block(text@) == Some(xv));
                    assert(insert_masked(t.config@, read_block(text@)->Some_0, y@, seed));
                    assert(emitted(t.config@, BlockV::Insert(text@), s@, seed));
                    assert(emitted(t.config@, bv, s@, seed));
                }
                out.push(s);
            },
        }
        k = k + 1;
    }
    Ok(out)
}

/// Masks the insert blocks of a dump with generators seeded from the system's random source.
pub fn mask_lines(t: &Transform, lines: &Vec<String>) -> (r: Result<Vec<String>, PipelineError>)
    ensures
        r matches Ok(out) ==> exists|seed: u64| #[trigger] all_emitted(t.config@, views(lines@), out@, seed),
        (forall|k: int| 0 <= k < blocks_of(views(lines@)).len() ==> #[trigger] blocks_of(views(lines@))[k] is Verbatim) ==> r is Ok,
        config_ok(t.config@) && (forall|k: int| 0 <= k < blocks_of(views(lines@)).len() ==> #[trigger] readable_block(blocks_of(views(lines@))[k])) ==> r is Ok,
{
    let seed = crate::masker::fresh_seed();
    mask_lines_seeded(t, lines, seed)
}

} // verus!
