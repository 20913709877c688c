//! Evaluation manifests: tab-separated rows of audio files and references.
use vstd::prelude::*;

use crate::score::Mode;
use crate::text::{chars_of, str_eq, string_of};
use crate::unicode::{trim, trimmed};

verus! {

/// A clip and what is said in it.
#[derive(Debug)]
pub struct Row {
    pub file: String,
    pub reference: String,
}

/// A row with too few or too many columns.
#[derive(Clone, Copy, Debug, PartialEq, Eq, Structural)]
pub struct RowError {
    /// The line, counted from 1.
    pub line: usize,
    pub columns: usize,
}

/// The pieces between the separators `c`.
pub open spec fn pieces(s: Seq<char>, c: char) -> Seq<Seq<char>>
    decreases s.len(),
{
    if s.len() == 0 {
        seq![Seq::empty()]
    } else {
        let p = pieces(s.drop_last(), c);
        if s.last() == c {
            p.push(Seq::empty())
        } else {
            p.drop_last().push(p.last().push(s.last()))
        }
    }
}

/// Cuts at every separator.
pub fn split(s: &[char], c: char) -> (r: Vec<Vec<char>>)
    ensures
        r@.len() == pieces(s@, c).len(),
        forall|i: int| 0 <= i < r@.len() ==> (#[trigger] r@[i])@ == pieces(s@, c)[i],
{
    let mut out: Vec<Vec<char>> = Vec::new();
    let mut cur: Vec<char> = Vec::new();
    let ghost mut w: Seq<Seq<char>> = Seq::empty();
    assert(w.push(cur@) =~= seq![Seq::<char>::empty()]);
    for i in 0..s.len()
        invariant
            out@.len() == w.len(),
            forall|k: int| 0 <= k < out@.len() ==> (#[trigger] out@[k])@ == w[k],
            pieces(s@.take(i as int), c) == w.push(cur@),
    {
        let ghost t = s@.take(i + 1);
        assert(t.drop_last() =~= s@.take(i as int));
        let ghost before = cur@;
        assert(w.push(before).drop_last() =~= w);
        if s[i] == c {
            out.push(cur);
            proof {
                w = w.push(before);
            }
            cur = Vec::new();
            assert(cur@ =~= Seq::<char>::empty());
        } else {
            cur.push(s[i]);
        }
    }
    assert(s@.take(s@.len() as int) =~= s@);
    out.push(cur);
    out
}

/// A line without the carriage return that a line feed followed.
pub open spec fn unreturned(s: Seq<char>) -> Seq<char> {
    if s.len() > 0 && s.last() == '\r' {
        s.drop_last()
    } else {
        s
    }
}

/// Line `i` of the pieces between line feeds: only the last piece was not ended
/// by one.
pub open spec fn line_of(p: Seq<Seq<char>>, i: int) -> Seq<char> {
    if i + 1 < p.len() {
        unreturned(p[i])
    } else {
        p[i]
    }
}

/// Lines of a text: a last empty piece is none.
pub open spec fn line_count(p: Seq<Seq<char>>) -> int {
    if p.last().len() == 0 {
        p.len() - 1
    } else {
        p.len() as int
    }
}

/// The lines of a text.
pub open spec fn lines_of(text: Seq<char>) -> Seq<Seq<char>> {
    let p = pieces(text, '\n');
    Seq::new(line_count(p) as nat, |i: int| line_of(p, i))
}

/// Cuts a text into lines: at line feeds, the carriage return before one going
/// with it.
pub fn lines(text: &str) -> (r: Vec<Vec<char>>)
    ensures
        r@.len() == lines_of(text@).len(),
        forall|i: int| 0 <= i < r@.len() ==> (#[trigger] r@[i])@ == lines_of(text@)[i],
{
    let c = chars_of(text);
    let p = split(c.as_slice(), '\n');
    let ghost q = pieces(text@, '\n');
    proof {
        lemma_pieces(text@, '\n');
    }
    let n: usize = p.len();
    let count: usize = if p[n - 1].len() == 0 {
        n - 1
    } else {
        n
    };
    let mut r: Vec<Vec<char>> = Vec::new();
    for i in 0..count
        invariant
            n == q.len(),
            n == p@.len(),
            count == line_count(q),
            count <= n,
            q == pieces(text@, '\n'),
            forall|k: int| 0 <= k < p@.len() ==> (#[trigger] p@[k])@ == q[k],
            r@.len() == i,
            forall|k: int| 0 <= k < r@.len() ==> (#[trigger] r@[k])@ == lines_of(text@)[k],
    {
        let whole: usize = p[i].len();
        let len: usize = if i + 1 < n && whole > 0 && p[i][whole - 1] == '\r' {
            whole - 1
        } else {
            whole
        };
        let mut line: Vec<char> = Vec::new();
        for j in 0..len
            invariant
                i < p@.len(),
                len <= p@[i as int]@.len(),
                line@ == p@[i as int]@.take(j as int),
        {
            line.push(p[i][j]);
        }
        assert(line@ =~= line_of(q, i as int));
        r.push(line);
    }
    r
}

/// What a row's columns say: four or more are an identifier, the file, the raw
/// and the normalized text; two are the file and the text.
pub open spec fn row_of(cols: Seq<Seq<char>>) -> Option<(Seq<char>, Seq<char>)> {
    if cols.len() >= 4 {
        Some((cols[1], cols[3]))
    } else if cols.len() == 2 {
        Some((cols[0], cols[1]))
    } else {
        None
    }
}

/// The rows of the first `n` lines, or the first line that is not one; blank
/// lines are passed over.
pub open spec fn rows_of(lines: Seq<Seq<char>>, n: nat) -> Result<Seq<(Seq<char>, Seq<char>)>, (int, int)>
    decreases n,
{
    if n == 0 {
        Ok(Seq::empty())
    } else {
        match rows_of(lines, (n - 1) as nat) {
            Err(e) => Err(e),
            Ok(rows) => {
                let line = lines[n - 1];
                let cols = pieces(line, '\t');
                if trimmed(line).len() == 0 {
                    Ok(rows)
                } else {
                    match row_of(cols) {
                        Some(r) => Ok(rows.push(r)),
                        None => Err((n as int, cols.len() as int)),
                    }
                }
            },
        }
    }
}

/// The rows of a manifest.
pub open spec fn manifest(text: Seq<char>) -> Result<Seq<(Seq<char>, Seq<char>)>, (int, int)> {
    rows_of(lines_of(text), lines_of(text).len())
}

/// The rows say the same.
pub open spec fn rows_view(v: Seq<Row>) -> Seq<(Seq<char>, Seq<char>)> {
    v.map_values(|r: Row| (r.file@, r.reference@))
}

proof fn lemma_rows_push(v: Seq<Row>, r: Row)
    ensures
        rows_view(v.push(r)) == rows_view(v).push((r.file@, r.reference@)),
{
    assert(rows_view(v.push(r)) =~= rows_view(v).push((r.file@, r.reference@)));
}

proof fn lemma_error_stays(p: Seq<Seq<char>>, n: nat, m: nat)
    requires
        n <= m,
        rows_of(p, n) is Err,
    ensures
        rows_of(p, m) == rows_of(p, n),
    decreases m,
{
    if n < m {
        lemma_error_stays(p, n, (m - 1) as nat);
    }
}

/// At least one piece.
pub proof fn lemma_pieces(s: Seq<char>, c: char)
    ensures
        pieces(s, c).len() >= 1,
    decreases s.len(),
{
    if s.len() > 0 {
        lemma_pieces(s.drop_last(), c);
    }
}

/// Reads the rows of a manifest.
pub fn read_rows(text: &str) -> (r: Result<Vec<Row>, RowError>)
    ensures
        match manifest(text@) {
            Ok(rows) => r is Ok && rows_view(r->Ok_0@) == rows,
            Err(e) => r is Err && r->Err_0.line == e.0 && r->Err_0.columns == e.1,
        },
{
    let all = lines(text);
    let ghost l = lines_of(text@);
    let count: usize = all.len();
    let mut rows: Vec<Row> = Vec::new();
    assert(rows_view(rows@) =~= Seq::empty());
    for i in 0..count
        invariant
            l == lines_of(text@),
            count == l.len(),
            count == all@.len(),
            forall|k: int| 0 <= k < all@.len() ==> (#[trigger] all@[k])@ == l[k],
            rows_of(l, i as nat) == Ok::<Seq<(Seq<char>, Seq<char>)>, (int, int)>(rows_view(rows@)),
    {
        let line = &all[i];
        let blank = trim(line.as_slice());
        if blank.len() > 0 {
            let cols = split(line.as_slice(), '\t');
            let row = if cols.len() >= 4 {
                Row { file: string_of(cols[1].as_slice()), reference: string_of(cols[3].as_slice()) }
            } else if cols.len() == 2 {
                Row { file: string_of(cols[0].as_slice()), reference: string_of(cols[1].as_slice()) }
            } else {
                proof {
                    assert(rows_of(l, (i + 1) as nat) is Err);
                    lemma_error_stays(l, (i + 1) as nat, count as nat);
                }
                return Err(RowError { line: i + 1, columns: cols.len() });
            };
            let ghost before = rows@;
            rows.push(row);
            proof {
                lemma_rows_push(before, row);
            }
        }
    }
    Ok(rows)
}

/// The unit that `--mode` names.
pub fn mode_of(name: &Option<String>) -> (r: Option<Mode>)
    ensures
        r == match *name {
            None => Some(Mode::Wer),
            Some(s) => if s@ == "cer"@ {
                Some(Mode::Cer)
            } else if s@ == "wer"@ {
                Some(Mode::Wer)
            } else {
                None
            },
        },
{
    match name {
        None => Some(Mode::Wer),
        Some(s) => if str_eq(s.as_str(), "cer") {
            Some(Mode::Cer)
        } else if str_eq(s.as_str(), "wer") {
            Some(Mode::Wer)
        } else {
            None
        },
    }
}

/// The rows from `offset` on, `limit` of them at most, as a half-open range;
/// none where `offset` is past the last row.
pub fn row_window(offset: usize, limit: usize, rows: usize) -> (r: Option<(usize, usize)>)
    requires
        offset + limit <= usize::MAX,
    ensures
        r == if offset >= rows {
            None::<(usize, usize)>
        } else if offset + limit < rows {
            Some((offset, (offset + limit) as usize))
        } else {
            Some((offset, rows))
        },
{
    if offset >= rows {
        return None;
    }
    let end: usize = if offset + limit < rows {
        offset + limit
    } else {
        rows
    };
    Some((offset, end))
}

/// A text on one line: carriage returns and line feeds are spaces.
pub open spec fn one_line(s: Seq<char>) -> Seq<char> {
    s.map_values(
        |c: char|
            if c == '\r' || c == '\n' {
                ' '
            } else {
                c
            },
    )
}

/// Puts a text on one line.
pub fn flatten_lines(s: &str) -> (r: String)
    ensures
        r@ == one_line(s@),
{
    let c = chars_of(s);
    let mut out: Vec<char> = Vec::new();
    for i in 0..c.len()
        invariant
            c@ == s@,
            out@ == one_line(s@).take(i as int),
    {
        if c[i] == '\r' || c[i] == '\n' {
            out.push(' ');
        } else {
            out.push(c[i]);
        }
        assert(out@ =~= one_line(s@).take(i + 1));
    }
    assert(one_line(s@).take(s@.len() as int) =~= one_line(s@));
    string_of(out.as_slice())
}

} // verus!
