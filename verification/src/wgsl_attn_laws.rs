//! What the stage-1 kernel variants have in common.
use vstd::prelude::*;

use crate::text::rep;
use crate::wgsl_attn::{
    acc_decl_text, acc_name_text, add_lines_item, consume_item, consume_row_text, interleave_text, interleaves_item,
    key_lines_item, key_load_text, key_loads_item, key_word_text, lane_text, query_lines_item, query_load_text,
    query_loads_text, query_word_text, row_decl_text, row_decls_item, row_off_text, row_real_text, row_zero_text,
    schedule_text, score_stores_item, score_text, stage1_text, term_text, token_loop_text, window_len,
    window_loads_item, window_rows_item, window_text, window_use_text, window_uses_item, windowed_item, windows,
};
use crate::wgsl_lines::{
    joined, lemma_alone, lemma_behind, lemma_heard, lemma_joined_place, lemma_joined_split, lemma_nothing, lemma_pieces, lemma_quiet,
    lemma_quiet_around, lemma_quiet_behind, lemma_quiet_repeated, lemma_repeated, mark, one_line, picked, plain, quiet,
    starts, yields,
};

verus! {

/// How a line that accumulates begins: twelve blanks and a name in `d`.
pub open spec fn sum_head() -> Seq<char> {
    "            d"@
}

/// The lines of a stage-1 body that accumulate, in order.
pub open spec fn sum_lines(t: Seq<char>) -> Seq<Seq<char>> {
    picked(t, sum_head())
}

/// The line of one term.
pub open spec fn term_of(h: Seq<char>, r: Seq<char>, p: nat, j: nat) -> spec_fn(nat) -> Seq<Seq<char>> {
    |sub: nat| seq![term_text(h, r, p, j, sub).drop_last()]
}

/// What chunk `j` of key row `p` contributes: its four terms with the first query
/// row, then its four terms with the second.
pub open spec fn row_terms(j: nat) -> spec_fn(nat) -> Seq<Seq<char>> {
    |p: nat|
        joined(4, term_of(acc_name_text("da"@, p), "a"@, p, j)) + joined(
            4,
            term_of(acc_name_text("db"@, p), "b"@, p, j),
        )
}

/// What chunk `j` of `pin` key rows contributes.
pub open spec fn chunk_terms(pin: nat) -> spec_fn(nat) -> Seq<Seq<char>> {
    |j: nat| joined(pin, row_terms(j))
}

/// Every term of the dot products of `pin` key rows: the sixteen chunks in order.
pub open spec fn all_terms(pin: nat) -> Seq<Seq<char>> {
    joined(16, chunk_terms(pin))
}

proof fn lemma_shared()
    ensures
        plain("_"@),
        plain("a"@),
        plain("b"@),
        plain("."@),
        forall|sub: nat| #[trigger] plain(lane_text(sub)),
        forall|p: nat| #[trigger] plain(row_off_text(p)),
        one_line(");\n"@),
        sum_head().len() == 13,
        forall|i: int| 0 <= i < 12 ==> #[trigger] sum_head()[i] == ' ',
        sum_head()[12] == 'd',
{
    reveal(plain);
    reveal(one_line);
    reveal_strlit("_");
    reveal_strlit("a");
    reveal_strlit("b");
    reveal_strlit(".");
    reveal_strlit("x");
    reveal_strlit("y");
    reveal_strlit("z");
    reveal_strlit("w");
    reveal_strlit(");\n");
    reveal_strlit("            d");
    assert forall|p: nat| #[trigger] plain(row_off_text(p)) by {
        lemma_pieces();
        reveal_strlit(" + ");
        reveal_strlit("u");
        assert(plain(" + "@) && plain("u"@));
    }
}

proof fn lemma_key_word(p: nat, j: nat, sub: nat)
    ensures
        quiet(key_word_text(p, j, sub), sum_head()),
{
    lemma_pieces();
    lemma_shared();
    assert(plain("            let k"@) && plain(" = unpack2x16float(kv"@) && mark("            let k"@, 12, 'l')) by {
        reveal(plain);
        reveal(mark);
        reveal_strlit("            let k");
        reveal_strlit(" = unpack2x16float(kv");
    }
    lemma_quiet(key_word_text(p, j, sub), sum_head(), 12, 'l');
}

proof fn lemma_query_word(r: Seq<char>, p: nat, j: nat, sub: nat)
    requires
        plain(r),
    ensures
        quiet(query_word_text(r, p, j, sub), sum_head()),
{
    lemma_pieces();
    lemma_shared();
    assert(plain("            let "@) && plain(" = unpack2x16float(q"@) && mark("            let "@, 12, 'l')) by {
        reveal(plain);
        reveal(mark);
        reveal_strlit("            let ");
        reveal_strlit(" = unpack2x16float(q");
    }
    lemma_quiet(query_word_text(r, p, j, sub), sum_head(), 12, 'l');
}

proof fn lemma_key_load(p: nat, j: nat)
    ensures
        quiet(key_load_text(p, j), sum_head()),
{
    lemma_pieces();
    lemma_shared();
    assert(plain("            let kv"@) && plain(" = KC4[row4_"@) && plain(" + "@) && one_line("u];\n"@) && mark(
        "            let kv"@,
        12,
        'l',
    )) by {
        reveal(plain);
        reveal(one_line);
        reveal(mark);
        reveal_strlit("            let kv");
        reveal_strlit(" = KC4[row4_");
        reveal_strlit(" + ");
        reveal_strlit("u];\n");
    }
    lemma_quiet(key_load_text(p, j), sum_head(), 12, 'l');
}

proof fn lemma_query_loads(j: nat)
    ensures
        quiet(query_loads_text(j), sum_head()),
{
    lemma_pieces();
    lemma_shared();
    assert(plain("            let q"@) && plain(" = Q4[q"@) && plain("4 + "@) && one_line("u];\n"@) && mark(
        "            let q"@,
        12,
        'l',
    )) by {
        reveal(plain);
        reveal(one_line);
        reveal(mark);
        reveal_strlit("            let q");
        reveal_strlit(" = Q4[q");
        reveal_strlit("4 + ");
        reveal_strlit("u];\n");
    }
    lemma_quiet(query_load_text("a"@, j), sum_head(), 12, 'l');
    lemma_quiet(query_load_text("b"@, j), sum_head(), 12, 'l');
    lemma_quiet_behind(query_load_text("a"@, j), query_load_text("b"@, j), sum_head());
}

proof fn lemma_braces()
    ensures
        quiet("        {\n"@, sum_head()),
        quiet("        }\n"@, sum_head()),
        quiet("            {\n"@, sum_head()),
        quiet("            }\n"@, sum_head()),
        quiet("    }\n"@, sum_head()),
{
    lemma_shared();
    reveal(one_line);
    reveal(mark);
    reveal_strlit("        {\n");
    reveal_strlit("        }\n");
    reveal_strlit("            {\n");
    reveal_strlit("            }\n");
    reveal_strlit("    }\n");
    lemma_quiet("        {\n"@, sum_head(), 8, '{');
    lemma_quiet("        }\n"@, sum_head(), 8, '}');
    lemma_quiet("            {\n"@, sum_head(), 12, '{');
    lemma_quiet("            }\n"@, sum_head(), 12, '}');
    lemma_quiet("    }\n"@, sum_head(), 4, '}');
}

proof fn lemma_term(h: Seq<char>, r: Seq<char>, p: nat, j: nat, sub: nat)
    requires
        plain(h),
        plain(r),
        h.len() >= 2,
        h[0] == 'd',
    ensures
        yields(term_text(h, r, p, j, sub), sum_head(), term_of(h, r, p, j)(sub)),
{
    lemma_pieces();
    lemma_shared();
    assert(plain("            "@) && plain(" = "@) && plain(" + ("@) && plain(".x * k"@) && plain(".x + "@) && plain(
        ".y * k"@,
    ) && one_line(".y);\n"@) && starts("            "@ + h, sum_head())) by {
        reveal(plain);
        reveal(one_line);
        reveal(starts);
        reveal_strlit("            ");
        reveal_strlit(" = ");
        reveal_strlit(" + (");
        reveal_strlit(".x * k");
        reveal_strlit(".x + ");
        reveal_strlit(".y * k");
        reveal_strlit(".y);\n");
        reveal_strlit("            d");
        assert(("            "@ + h).take(13) =~= sum_head());
    }
    lemma_heard(term_text(h, r, p, j, sub), sum_head());
}

proof fn lemma_terms(pre: Seq<char>, r: Seq<char>, p: nat, j: nat)
    requires
        plain(pre),
        plain(r),
        pre.len() >= 2,
        pre[0] == 'd',
    ensures
        yields(
            rep(4, add_lines_item(acc_name_text(pre, p), r, p, j)),
            sum_head(),
            joined(4, term_of(acc_name_text(pre, p), r, p, j)),
        ),
{
    lemma_pieces();
    let h = acc_name_text(pre, p);
    let f = add_lines_item(h, r, p, j);
    let g = term_of(h, r, p, j);
    assert forall|sub: nat| sub < 4 implies yields(#[trigger] f(sub), sum_head(), g(sub)) by {
        lemma_term(h, r, p, j, sub);
    }
    lemma_repeated(4, f, sum_head(), g);
}

/// A consumed chunk of one row contributes its eight terms.
proof fn lemma_consume_row(p: nat, j: nat)
    ensures
        yields(consume_row_text(p, j), sum_head(), row_terms(j)(p)),
{
    let s = sum_head();
    lemma_shared();
    let k = key_lines_item(p, j);
    assert forall|sub: nat| sub < 4 implies quiet(#[trigger] k(sub), s) by {
        lemma_key_word(p, j, sub);
        lemma_query_word("a"@, p, j, sub);
        lemma_quiet_behind(key_word_text(p, j, sub), query_word_text("a"@, p, j, sub), s);
    }
    lemma_quiet_repeated(4, k, s);
    let q = query_lines_item(p, j);
    assert forall|sub: nat| sub < 4 implies quiet(#[trigger] q(sub), s) by {
        lemma_query_word("b"@, p, j, sub);
    }
    lemma_quiet_repeated(4, q, s);
    assert(plain("da"@) && plain("db"@) && "da"@.len() == 2 && "db"@.len() == 2 && "da"@[0] == 'd' && "db"@[0] == 'd') by {
        reveal(plain);
        reveal_strlit("da");
        reveal_strlit("db");
    }
    lemma_terms("da"@, "a"@, p, j);
    lemma_terms("db"@, "b"@, p, j);
    let a = add_lines_item(acc_name_text("da"@, p), "a"@, p, j);
    let b = add_lines_item(acc_name_text("db"@, p), "b"@, p, j);
    let ta = joined(4, term_of(acc_name_text("da"@, p), "a"@, p, j));
    let tb = joined(4, term_of(acc_name_text("db"@, p), "b"@, p, j));
    lemma_quiet_around(rep(4, k), rep(4, a), s, ta);
    lemma_quiet_around(rep(4, k) + rep(4, a), rep(4, q), s, ta);
    lemma_behind(rep(4, k) + rep(4, a) + rep(4, q), rep(4, b), s, ta, tb);
}

/// So does a chunk of all rows.
proof fn lemma_consume(pin: nat, j: nat)
    ensures
        yields(rep(pin, consume_item(j)), sum_head(), chunk_terms(pin)(j)),
{
    let f = consume_item(j);
    let g = row_terms(j);
    assert forall|p: nat| p < pin implies yields(#[trigger] f(p), sum_head(), g(p)) by {
        lemma_consume_row(p, j);
    }
    lemma_repeated(pin, f, sum_head(), g);
}

proof fn lemma_interleave(pin: nat, j: nat)
    ensures
        yields(interleave_text(pin, j), sum_head(), chunk_terms(pin)(j)),
{
    let s = sum_head();
    let t = chunk_terms(pin)(j);
    let f = key_loads_item(j);
    assert forall|p: nat| p < pin implies quiet(#[trigger] f(p), s) by {
        lemma_key_load(p, j);
    }
    lemma_quiet_repeated(pin, f, s);
    lemma_query_loads(j);
    lemma_braces();
    lemma_consume(pin, j);
    let a = "        {\n"@;
    let b = rep(pin, f);
    let c = query_loads_text(j);
    let d = rep(pin, consume_item(j));
    lemma_quiet_behind(a, b, s);
    lemma_quiet_behind(a + b, c, s);
    lemma_quiet_around(a + b + c, d, s, t);
    lemma_quiet_around(a + b + c + d, "        }\n"@, s, t);
}

proof fn lemma_window_use(pin: nat, j: nat)
    ensures
        yields(window_use_text(pin, j), sum_head(), chunk_terms(pin)(j)),
{
    let s = sum_head();
    let t = chunk_terms(pin)(j);
    lemma_query_loads(j);
    lemma_braces();
    lemma_consume(pin, j);
    let a = "            {\n"@;
    let c = query_loads_text(j);
    let d = rep(pin, consume_item(j));
    lemma_quiet_behind(a, c, s);
    lemma_quiet_around(a + c, d, s, t);
    lemma_quiet_around(a + c + d, "            }\n"@, s, t);
}

/// What the chunks from `j0` on contribute.
spec fn later_terms(pin: nat, j0: nat) -> spec_fn(nat) -> Seq<Seq<char>> {
    |k: nat| chunk_terms(pin)(j0 + k)
}

proof fn lemma_window(pin: nat, j0: nat, d: nat)
    ensures
        yields(window_text(pin, j0, d), sum_head(), joined(d, later_terms(pin, j0))),
{
    let s = sum_head();
    let f = window_rows_item(j0, d);
    assert forall|p: nat| p < pin implies quiet(#[trigger] f(p), s) by {
        let l = window_loads_item(p, j0);
        assert forall|k: nat| k < d implies quiet(#[trigger] l(k), s) by {
            lemma_key_load(p, j0 + k);
        }
        lemma_quiet_repeated(d, l, s);
    }
    lemma_quiet_repeated(pin, f, s);
    let u = window_uses_item(pin, j0);
    let g = later_terms(pin, j0);
    assert forall|k: nat| k < d implies yields(#[trigger] u(k), s, g(k)) by {
        lemma_window_use(pin, j0 + k);
    }
    lemma_repeated(d, u, s, g);
    lemma_braces();
    let t = joined(d, g);
    let a = "        {\n"@;
    let b = rep(pin, f);
    let c = rep(d, u);
    lemma_quiet_behind(a, b, s);
    lemma_quiet_around(a + b, c, s, t);
    lemma_quiet_around(a + b + c, "        }\n"@, s, t);
}

/// Chunks that the first `w` windows cover.
spec fn covered(depth: nat, w: nat) -> nat {
    if w * depth <= 16 {
        w * depth
    } else {
        16
    }
}

proof fn lemma_windows(pin: nat, depth: nat, w: nat)
    requires
        depth > 0,
        w <= windows(depth),
    ensures
        yields(rep(w, windowed_item(pin, depth)), sum_head(), joined(covered(depth, w), chunk_terms(pin))),
    decreases w,
{
    let g = chunk_terms(pin);
    let f = windowed_item(pin, depth);
    if w == 0 {
        assert(0 * depth == 0) by (nonlinear_arith);
        lemma_nothing(sum_head());
    } else {
        let m = (w - 1) as nat;
        lemma_windows(pin, depth, m);
        let j0 = m * depth;
        assert(w * depth == j0 + depth) by (nonlinear_arith)
            requires
                j0 == m * depth,
                w == m + 1,
        ;
        if depth < 16 {
            let n = windows(depth);
            assert(m * depth < 16) by (nonlinear_arith)
                requires
                    n == (15 + depth) / depth,
                    0 < depth,
                    m + 1 <= n,
            ;
        } else {
            assert(m == 0);
            assert(0 * depth == 0) by (nonlinear_arith);
        }
        let d = window_len(depth, j0);
        lemma_window(pin, j0, d);
        lemma_joined_split(j0, d, g, later_terms(pin, j0));
        assert(covered(depth, w) == j0 + d);
        lemma_behind(rep(m, f), f(m), sum_head(), joined(j0, g), joined(d, later_terms(pin, j0)));
    }
}

proof fn lemma_schedule(pin: nat, depth: nat)
    ensures
        yields(schedule_text(pin, depth, false, false), sum_head(), all_terms(pin)),
{
    let g = chunk_terms(pin);
    if depth == 0 {
        let f = interleaves_item(pin);
        assert forall|j: nat| j < 16 implies yields(#[trigger] f(j), sum_head(), g(j)) by {
            lemma_interleave(pin, j);
        }
        lemma_repeated(16, f, sum_head(), g);
    } else {
        let n = windows(depth);
        lemma_windows(pin, depth, n);
        if depth < 16 {
            assert(n * depth >= 16) by (nonlinear_arith)
                requires
                    n == (15 + depth) / depth,
                    0 < depth,
            ;
        }
        assert(covered(depth, n) == 16);
    }
}

proof fn lemma_row_decl(p: nat, row0: bool)
    ensures
        quiet(row_decl_text(p, row0), sum_head()),
{
    let s = sum_head();
    lemma_pieces();
    lemma_shared();
    assert(plain("        var "@) && plain("da"@) && plain("db"@) && one_line(" = 0.0;\n"@) && plain("        let row4_"@)
        && one_line(" = 0u;\n"@) && plain(" = (kbase + (t_start + t"@) && one_line(") * D2) >> 2u;\n"@) && mark(
        "        var "@,
        8,
        'v',
    ) && mark("        let row4_"@, 8, 'l')) by {
        reveal(plain);
        reveal(one_line);
        reveal(mark);
        reveal_strlit("        var ");
        reveal_strlit("da");
        reveal_strlit("db");
        reveal_strlit(" = 0.0;\n");
        reveal_strlit("        let row4_");
        reveal_strlit(" = 0u;\n");
        reveal_strlit(" = (kbase + (t_start + t");
        reveal_strlit(") * D2) >> 2u;\n");
    }
    let a = acc_decl_text("da"@, p);
    let b = acc_decl_text("db"@, p);
    lemma_quiet(a, s, 8, 'v');
    lemma_quiet(b, s, 8, 'v');
    lemma_quiet(row_zero_text(p), s, 8, 'l');
    lemma_quiet(row_real_text(p), s, 8, 'l');
    lemma_quiet_behind(a, b, s);
    lemma_quiet_behind(a + b, row_zero_text(p), s);
    lemma_quiet_behind(a + b, row_real_text(p), s);
}

proof fn lemma_score(p: nat)
    ensures
        quiet(score_stores_item()(p), sum_head()),
{
    let s = sum_head();
    lemma_pieces();
    lemma_shared();
    assert(plain("        sc_"@) && plain("[t"@) && plain("] = d"@) && one_line(" * cfg.scale;\n"@) && mark(
        "        sc_"@,
        8,
        's',
    )) by {
        reveal(plain);
        reveal(one_line);
        reveal(mark);
        reveal_strlit("        sc_");
        reveal_strlit("[t");
        reveal_strlit("] = d");
        reveal_strlit(" * cfg.scale;\n");
    }
    lemma_quiet(score_text("a"@, p), s, 8, 's');
    lemma_quiet(score_text("b"@, p), s, 8, 's');
    lemma_quiet_behind(score_text("a"@, p), score_text("b"@, p), s);
}

proof fn lemma_token_loop(pin: nat)
    ensures
        quiet(token_loop_text(pin), sum_head()),
{
    lemma_pieces();
    lemma_shared();
    assert(one_line("    for (var t = lid.x; t < chunk_len; t = t + BS) {\n"@) && mark(
        "    for (var t = lid.x; t < chunk_len; t = t + BS) {\n"@,
        4,
        'f',
    )) by {
        reveal(one_line);
        reveal(mark);
        reveal_strlit("    for (var t = lid.x; t < chunk_len; t = t + BS) {\n");
    }
    assert(plain("    for (var t = lid.x; t + 256u < chunk_len; t = t + "@) && one_line("u) {\n"@) && mark(
        "    for (var t = lid.x; t + 256u < chunk_len; t = t + "@,
        4,
        'f',
    )) by {
        reveal(plain);
        reveal(one_line);
        reveal(mark);
        reveal_strlit("    for (var t = lid.x; t + 256u < chunk_len; t = t + ");
        reveal_strlit("u) {\n");
    }
    lemma_quiet(token_loop_text(pin), sum_head(), 4, 'f');
}

/// The arithmetic of stage 1 is every term of the dot products once, each word of
/// each key row against both query rows, in the order of the chunks: the depth of
/// the loads, and the row that they are aimed at, change neither the lines that
/// accumulate nor their order.
pub proof fn law_stage1_sums(pin: nat, depth: nat, row0: bool)
    ensures
        sum_lines(stage1_text(pin, depth, false, row0, false)) == all_terms(pin),
{
    let s = sum_head();
    let t = all_terms(pin);
    let a = token_loop_text(pin);
    let d = row_decls_item(row0);
    let w = score_stores_item();
    lemma_token_loop(pin);
    assert forall|p: nat| p < pin implies quiet(#[trigger] d(p), s) by {
        lemma_row_decl(p, row0);
    }
    lemma_quiet_repeated(pin, d, s);
    assert forall|p: nat| p < pin implies quiet(#[trigger] w(p), s) by {
        lemma_score(p);
    }
    lemma_quiet_repeated(pin, w, s);
    lemma_schedule(pin, depth);
    lemma_braces();
    let b = rep(pin, d);
    let c = schedule_text(pin, depth, false, false);
    let e = rep(pin, w);
    lemma_quiet_behind(a, b, s);
    lemma_quiet_around(a + b, c, s, t);
    lemma_quiet_around(a + b + c, e, s, t);
    lemma_quiet_around(a + b + c + e, "    }\n"@, s, t);
    lemma_alone(stage1_text(pin, depth, false, row0, false), s, t);
}

proof fn lemma_row_places(p: nat, j: nat)
    ensures
        row_terms(j)(p).len() == 8,
        forall|sub: nat|
            sub < 4 ==> row_terms(j)(p)[sub as int] == (#[trigger] term_text(
                acc_name_text("da"@, p),
                "a"@,
                p,
                j,
                sub,
            )).drop_last(),
        forall|sub: nat|
            sub < 4 ==> row_terms(j)(p)[4 + sub as int] == (#[trigger] term_text(
                acc_name_text("db"@, p),
                "b"@,
                p,
                j,
                sub,
            )).drop_last(),
{
    let a = term_of(acc_name_text("da"@, p), "a"@, p, j);
    let b = term_of(acc_name_text("db"@, p), "b"@, p, j);
    lemma_joined_place(4, a, 1);
    lemma_joined_place(4, b, 1);
    assert forall|sub: nat| sub < 4 implies row_terms(j)(p)[sub as int] == (#[trigger] term_text(
        acc_name_text("da"@, p),
        "a"@,
        p,
        j,
        sub,
    )).drop_last() by {
        assert(joined(4, a)[(sub * 1 + 0) as int] == a(sub)[0]);
    }
    assert forall|sub: nat| sub < 4 implies row_terms(j)(p)[4 + sub as int] == (#[trigger] term_text(
        acc_name_text("db"@, p),
        "b"@,
        p,
        j,
        sub,
    )).drop_last() by {
        assert(joined(4, b)[(sub * 1 + 0) as int] == b(sub)[0]);
    }
}

/// Each word of a key row counts once for each query row, and there is nothing
/// else: chunk `j` of row `p` has eight lines of its own, and word `sub` has the
/// line `sub` of them for the first accumulator and the line `4 + sub` for the
/// second.
pub proof fn law_terms_in_place(pin: nat, j: nat, p: nat, sub: nat)
    requires
        j < 16,
        p < pin,
        sub < 4,
    ensures
        all_terms(pin).len() == 16 * (pin * 8),
        all_terms(pin)[(j * (pin * 8) + p * 8 + sub) as int] == term_text(
            acc_name_text("da"@, p),
            "a"@,
            p,
            j,
            sub,
        ).drop_last(),
        all_terms(pin)[(j * (pin * 8) + p * 8 + 4 + sub) as int] == term_text(
            acc_name_text("db"@, p),
            "b"@,
            p,
            j,
            sub,
        ).drop_last(),
{
    let g = chunk_terms(pin);
    assert forall|c: nat| c < 16 implies (#[trigger] g(c)).len() == pin * 8 by {
        let f = row_terms(c);
        assert forall|r: nat| r < pin implies (#[trigger] f(r)).len() == 8 by {
            lemma_row_places(r, c);
        }
        lemma_joined_place(pin, f, 8);
    }
    lemma_joined_place(16, g, pin * 8);
    let f = row_terms(j);
    assert forall|r: nat| r < pin implies (#[trigger] f(r)).len() == 8 by {
        lemma_row_places(r, j);
    }
    lemma_joined_place(pin, f, 8);
    lemma_row_places(p, j);
    let at = p * 8 + sub;
    assert(f(p)[sub as int] == g(j)[at as int]);
    assert(f(p)[(sub + 4) as int] == g(j)[(at + 4) as int]);
    assert(all_terms(pin)[(j * (pin * 8) + at) as int] == g(j)[at as int]);
    assert(all_terms(pin)[(j * (pin * 8) + (at + 4)) as int] == g(j)[(at + 4) as int]);
}

/// Two depths accumulate alike.
pub proof fn law_depth_keeps_sums(pin: nat, d1: nat, d2: nat, row0: bool)
    ensures
        sum_lines(stage1_text(pin, d1, false, row0, false)) == sum_lines(stage1_text(pin, d2, false, row0, false)),
{
    law_stage1_sums(pin, d1, row0);
    law_stage1_sums(pin, d2, row0);
}

} // verus!
