//! How many loads and multiply-adds an iteration of the arithmetic roof probe has.
use vstd::prelude::*;

use crate::text::{dec, lemma_dec_digits, rep};
use crate::wgsl_fma::{
    arm_text, body_text, carries, chain_line_text, chain_lines_item, early_load_text, early_loads_item, early_use_text,
    early_uses_item, fma_lines, load_lines, rounds_item, split_high_text, split_highs_item, split_low_text,
    split_lows_item, split_vec_load_text, split_vec_loads_item, split_word_load_text, split_word_loads_item,
    vec_load_text, vec_loads_item, vec_use_row_item, vec_use_text, vec_uses_item, word_load_text, word_loads_item,
    word_use_text, word_uses_item,
};
use crate::wgsl_lines::{
    lemma_heard, lemma_nothing, lemma_pieces, lemma_quiet, lemma_tally, lemma_tally_alone, lemma_tally_behind,
    lemma_tally_repeated, mark, one_line, plain, starts, tally,
};

verus! {

/// Multiply-adds and shared loads of a text.
spec fn holds(x: Seq<char>, fmas: nat, loads: nat) -> bool {
    tally(x, "    c"@, fmas) && tally(x, "    let "@, loads)
}

/// A line that advances a chain.
proof fn lemma_fma_line(x: Seq<char>)
    requires
        one_line(x),
        starts(x, "    c"@),
        mark(x, 4, 'c'),
    ensures
        holds(x, 1, 0),
{
    lemma_heard(x, "    c"@);
    lemma_tally(x, "    c"@, seq![x.drop_last()]);
    reveal_strlit("    let ");
    lemma_quiet(x, "    let "@, 4, 'c');
    lemma_tally(x, "    let "@, Seq::empty());
}

/// A line that binds a loaded value.
proof fn lemma_load_line(x: Seq<char>)
    requires
        one_line(x),
        starts(x, "    let "@),
        mark(x, 4, 'l'),
    ensures
        holds(x, 0, 1),
{
    lemma_heard(x, "    let "@);
    lemma_tally(x, "    let "@, seq![x.drop_last()]);
    reveal_strlit("    c");
    lemma_quiet(x, "    c"@, 4, 'l');
    lemma_tally(x, "    c"@, Seq::empty());
}

proof fn lemma_holds_behind(x: Seq<char>, y: Seq<char>, a: nat, b: nat, c: nat, d: nat)
    requires
        holds(x, a, b),
        holds(y, c, d),
    ensures
        holds(x + y, a + c, b + d),
{
    lemma_tally_behind(x, y, "    c"@, a, c);
    lemma_tally_behind(x, y, "    let "@, b, d);
}

proof fn lemma_holds_repeated(n: nat, f: spec_fn(nat) -> Seq<char>, a: nat, b: nat)
    requires
        forall|i: nat| i < n ==> holds(#[trigger] f(i), a, b),
    ensures
        holds(rep(n, f), n * a, n * b),
{
    lemma_tally_repeated(n, f, "    c"@, a);
    lemma_tally_repeated(n, f, "    let "@, b);
}

proof fn lemma_holds_nothing()
    ensures
        holds(Seq::empty(), 0, 0),
{
    lemma_nothing("    c"@);
    lemma_nothing("    let "@);
    lemma_tally(Seq::empty(), "    c"@, Seq::empty());
    lemma_tally(Seq::empty(), "    let "@, Seq::empty());
}

/// How every line that advances a chain begins.
proof fn lemma_fma_begin(i: nat)
    ensures
        plain("    c"@),
        plain(" = fma(c"@),
        plain("_"@),
        starts("    c"@ + dec(i), "    c"@),
        mark("    c"@ + dec(i), 4, 'c'),
{
    reveal(plain);
    reveal(starts);
    reveal(mark);
    reveal_strlit("    c");
    reveal_strlit(" = fma(c");
    reveal_strlit("_");
    lemma_dec_digits(i);
    assert(("    c"@ + dec(i)).take(5) =~= "    c"@);
}

proof fn lemma_chain(i: nat)
    ensures
        holds(chain_line_text(i), 1, 0),
{
    lemma_pieces();
    lemma_fma_begin(i);
    assert(one_line(", a, b);\n"@)) by {
        reveal(plain);
        reveal(one_line);
        reveal_strlit(", a, b);\n");
    }
    lemma_fma_line(chain_line_text(i));
}

proof fn lemma_vec_use(k: nat, r: nat, i: nat, e: nat)
    ensures
        holds(vec_use_text(k, r, i, e), 1, 0),
{
    lemma_pieces();
    lemma_fma_begin(k);
    assert(plain(", v"@) && plain("["@) && one_line("], b);\n"@)) by {
        reveal(plain);
        reveal(one_line);
        reveal_strlit(", v");
        reveal_strlit("[");
        reveal_strlit("], b);\n");
    }
    lemma_fma_line(vec_use_text(k, r, i, e));
}

proof fn lemma_word_use(i: nat, r: nat)
    ensures
        holds(word_use_text(i, r), 1, 0),
{
    lemma_pieces();
    lemma_fma_begin(i);
    assert(plain(", t"@) && one_line(", b);\n"@)) by {
        reveal(plain);
        reveal(one_line);
        reveal_strlit(", t");
        reveal_strlit(", b);\n");
    }
    lemma_fma_line(word_use_text(i, r));
}

proof fn lemma_split_low(i: nat, r: nat)
    ensures
        holds(split_low_text(i, r), 1, 0),
{
    lemma_pieces();
    lemma_fma_begin(i);
    assert(plain(", w"@) && plain("_0["@) && one_line("], b);\n"@)) by {
        reveal(plain);
        reveal(one_line);
        reveal_strlit(", w");
        reveal_strlit("_0[");
        reveal_strlit("], b);\n");
    }
    lemma_fma_line(split_low_text(i, r));
}

proof fn lemma_split_high(ii: nat, r: nat, i: nat)
    ensures
        holds(split_high_text(ii, r, i), 1, 0),
{
    lemma_pieces();
    lemma_fma_begin(ii);
    assert(plain(", w"@) && plain("_1["@) && one_line("], b);\n"@)) by {
        reveal(plain);
        reveal(one_line);
        reveal_strlit(", w");
        reveal_strlit("_1[");
        reveal_strlit("], b);\n");
    }
    lemma_fma_line(split_high_text(ii, r, i));
}

proof fn lemma_early_use(i: nat, r: nat)
    ensures
        holds(early_use_text(r, i), 1, 0),
{
    lemma_pieces();
    lemma_fma_begin(i);
    assert(plain(", t"@) && one_line(", b);\n"@)) by {
        reveal(plain);
        reveal(one_line);
        reveal_strlit(", t");
        reveal_strlit(", b);\n");
    }
    lemma_fma_line(early_use_text(r, i));
}

proof fn lemma_vec_load(r: nat, i: nat, off: nat)
    ensures
        holds(vec_load_text(r, i, off), 0, 1),
{
    lemma_pieces();
    assert(plain("    let v"@) && plain("_"@) && plain(" = tile[((idx * 4u + "@) && one_line("u + lid.x) & 511u)];\n"@) && starts("    let v"@, "    let "@) && mark(
        "    let v"@,
        4,
        'l',
    )) by {
        reveal(plain);
        reveal(one_line);
        reveal(starts);
        reveal(mark);
        reveal_strlit("    let v");
        reveal_strlit("_");
        reveal_strlit(" = tile[((idx * 4u + ");
        reveal_strlit("u + lid.x) & 511u)];\n");
        reveal_strlit("    let ");
        assert("    let v"@.take(8) =~= "    let "@);
    }
    lemma_load_line(vec_load_text(r, i, off));
}

proof fn lemma_word_load(r: nat, i: nat)
    ensures
        holds(word_load_text(r, i), 0, 1),
{
    lemma_pieces();
    assert(plain("    let t"@) && plain("_"@) && plain(" = tile[((idx * 16u + "@) && one_line("u) * 32u + lid.x) & 1023u];\n"@) && starts("    let t"@, "    let "@) && mark(
        "    let t"@,
        4,
        'l',
    )) by {
        reveal(plain);
        reveal(one_line);
        reveal(starts);
        reveal(mark);
        reveal_strlit("    let t");
        reveal_strlit("_");
        reveal_strlit(" = tile[((idx * 16u + ");
        reveal_strlit("u) * 32u + lid.x) & 1023u];\n");
        reveal_strlit("    let ");
        assert("    let t"@.take(8) =~= "    let "@);
    }
    lemma_load_line(word_load_text(r, i));
}

proof fn lemma_split_vec_load(r: nat, i: nat, off: nat)
    ensures
        holds(split_vec_load_text(r, i, off), 0, 1),
{
    lemma_pieces();
    assert(plain("    let w"@) && plain("_"@) && plain(" = tileA[((idx * 2u + (lid.x >> 4u) + "@) && one_line("u) & 511u)];\n"@) && starts("    let w"@, "    let "@) && mark(
        "    let w"@,
        4,
        'l',
    )) by {
        reveal(plain);
        reveal(one_line);
        reveal(starts);
        reveal(mark);
        reveal_strlit("    let w");
        reveal_strlit("_");
        reveal_strlit(" = tileA[((idx * 2u + (lid.x >> 4u) + ");
        reveal_strlit("u) & 511u)];\n");
        reveal_strlit("    let ");
        assert("    let w"@.take(8) =~= "    let "@);
    }
    lemma_load_line(split_vec_load_text(r, i, off));
}

proof fn lemma_split_word_load(r: nat, i: nat)
    ensures
        holds(split_word_load_text(r, i), 0, 1),
{
    lemma_pieces();
    assert(plain("    let t"@) && plain("_"@) && plain(" = tileB[((idx * 8u + "@) && one_line("u) * 32u + (lid.x & 15u)) & 1023u];\n"@) && starts("    let t"@, "    let "@) && mark(
        "    let t"@,
        4,
        'l',
    )) by {
        reveal(plain);
        reveal(one_line);
        reveal(starts);
        reveal(mark);
        reveal_strlit("    let t");
        reveal_strlit("_");
        reveal_strlit(" = tileB[((idx * 8u + ");
        reveal_strlit("u) * 32u + (lid.x & 15u)) & 1023u];\n");
        reveal_strlit("    let ");
        assert("    let t"@.take(8) =~= "    let "@);
    }
    lemma_load_line(split_word_load_text(r, i));
}

proof fn lemma_early_load(r: nat, i: nat, off: nat)
    ensures
        holds(early_load_text(r, i, off), 0, 1),
{
    lemma_pieces();
    assert(plain("    let t"@) && plain(" = tile[((idx + "@) && one_line("u) & 1023u)];\n"@) && starts("    let t"@, "    let "@) && mark(
        "    let t"@,
        4,
        'l',
    )) by {
        reveal(plain);
        reveal(one_line);
        reveal(starts);
        reveal(mark);
        reveal_strlit("    let t");
        reveal_strlit(" = tile[((idx + ");
        reveal_strlit("u) & 1023u)];\n");
        reveal_strlit("    let ");
        assert("    let t"@.take(8) =~= "    let "@);
    }
    lemma_load_line(early_load_text(r, i, off));
}

/// Multiply-adds that arm `mix` adds where it is carried.
pub open spec fn arm_fmas(mix: nat) -> nat {
    if mix == 4 || mix == 8 || mix == 16 {
        16
    } else if mix == 99 {
        2
    } else {
        0
    }
}

/// Loads of arm `mix` where it is carried: four vectors, two vectors and eight
/// words, sixteen words, or two words.
pub open spec fn arm_loads(mix: nat) -> nat {
    if mix == 4 {
        4
    } else if mix == 8 {
        10
    } else if mix == 16 {
        16
    } else if mix == 99 {
        2
    } else {
        0
    }
}

proof fn lemma_vec_arm(r: nat)
    ensures
        holds(arm_text(4, r), 16, 4),
{
    let l = vec_loads_item(r);
    assert forall|i: nat| i < 4 implies holds(#[trigger] l(i), 0, 1) by {
        lemma_vec_load(r, i, i * 128);
    }
    lemma_holds_repeated(4, l, 0, 1);
    let u = vec_uses_item(r);
    assert forall|i: nat| i < 4 implies holds(#[trigger] u(i), 4, 0) by {
        let w = vec_use_row_item(r, i);
        assert forall|e: nat| e < 4 implies holds(#[trigger] w(e), 1, 0) by {
            lemma_vec_use(i * 4 + e, r, i, e);
        }
        lemma_holds_repeated(4, w, 1, 0);
    }
    lemma_holds_repeated(4, u, 4, 0);
    lemma_holds_behind(rep(4, l), rep(4, u), 0, 4, 16, 0);
}

proof fn lemma_word_arm(r: nat)
    ensures
        holds(arm_text(16, r), 16, 16),
{
    let l = word_loads_item(r);
    assert forall|i: nat| i < 16 implies holds(#[trigger] l(i), 0, 1) by {
        lemma_word_load(r, i);
    }
    lemma_holds_repeated(16, l, 0, 1);
    let u = word_uses_item(r);
    assert forall|i: nat| i < 16 implies holds(#[trigger] u(i), 1, 0) by {
        lemma_word_use(i, r);
    }
    lemma_holds_repeated(16, u, 1, 0);
    lemma_holds_behind(rep(16, l), rep(16, u), 0, 16, 16, 0);
}

proof fn lemma_split_arm(r: nat)
    ensures
        holds(arm_text(8, r), 16, 10),
{
    let a = split_vec_loads_item(r);
    assert forall|i: nat| i < 2 implies holds(#[trigger] a(i), 0, 1) by {
        lemma_split_vec_load(r, i, i * 128);
    }
    lemma_holds_repeated(2, a, 0, 1);
    let b = split_word_loads_item(r);
    assert forall|i: nat| i < 8 implies holds(#[trigger] b(i), 0, 1) by {
        lemma_split_word_load(r, i);
    }
    lemma_holds_repeated(8, b, 0, 1);
    let c = split_lows_item(r);
    assert forall|i: nat| i < 4 implies holds(#[trigger] c(i), 1, 0) by {
        lemma_split_low(i, r);
    }
    lemma_holds_repeated(4, c, 1, 0);
    let d = split_highs_item(r);
    assert forall|i: nat| i < 4 implies holds(#[trigger] d(i), 1, 0) by {
        lemma_split_high(4 + i, r, i);
    }
    lemma_holds_repeated(4, d, 1, 0);
    let e = word_uses_item(r);
    assert forall|i: nat| i < 8 implies holds(#[trigger] e(i), 1, 0) by {
        lemma_word_use(i, r);
    }
    lemma_holds_repeated(8, e, 1, 0);
    lemma_holds_behind(rep(2, a), rep(8, b), 0, 2, 0, 8);
    lemma_holds_behind(rep(2, a) + rep(8, b), rep(4, c), 0, 10, 4, 0);
    lemma_holds_behind(rep(2, a) + rep(8, b) + rep(4, c), rep(4, d), 4, 10, 4, 0);
    lemma_holds_behind(rep(2, a) + rep(8, b) + rep(4, c) + rep(4, d), rep(8, e), 8, 10, 8, 0);
}

proof fn lemma_early_arm(r: nat)
    ensures
        holds(arm_text(99, r), 2, 2),
{
    let l = early_loads_item(r);
    assert forall|i: nat| i < 2 implies holds(#[trigger] l(i), 0, 1) by {
        lemma_early_load(r, i, r * 17 + i * 3);
    }
    lemma_holds_repeated(2, l, 0, 1);
    let u = early_uses_item(r);
    assert forall|i: nat| i < 2 implies holds(#[trigger] u(i), 1, 0) by {
        lemma_early_use(i, r);
    }
    lemma_holds_repeated(2, u, 1, 0);
    lemma_holds_behind(rep(2, l), rep(2, u), 0, 2, 2, 0);
}

proof fn lemma_arm(mix: nat, r: nat)
    ensures
        holds(arm_text(mix, r), arm_fmas(mix), arm_loads(mix)),
{
    if mix == 4 {
        lemma_vec_arm(r);
    } else if mix == 16 {
        lemma_word_arm(r);
    } else if mix == 8 {
        lemma_split_arm(r);
    } else if mix == 99 {
        lemma_early_arm(r);
    } else {
        lemma_holds_nothing();
    }
}

proof fn lemma_round(mix: nat, r: nat)
    ensures
        holds(
            rounds_item(mix)(r),
            16 + if carries(mix, r) {
                arm_fmas(mix)
            } else {
                0
            },
            if carries(mix, r) {
                arm_loads(mix)
            } else {
                0
            },
        ),
{
    let c = chain_lines_item();
    assert forall|i: nat| i < 16 implies holds(#[trigger] c(i), 1, 0) by {
        lemma_chain(i);
    }
    lemma_holds_repeated(16, c, 1, 0);
    if carries(mix, r) {
        lemma_arm(mix, r);
        lemma_holds_behind(rep(16, c), arm_text(mix, r), 16, 0, arm_fmas(mix), arm_loads(mix));
    } else {
        lemma_holds_nothing();
        lemma_holds_behind(rep(16, c), Seq::empty(), 16, 0, 0, 0);
    }
}

/// One iteration issues the 64 multiply-adds of the chains and one for each loaded
/// value, and the loads that the arm is named for: four vectors, two vectors and
/// eight words, sixteen words, or eight words at loop-counter addresses.
pub proof fn law_arm_counts(mix: nat)
    ensures
        fma_lines(mix).len() == if mix == 4 || mix == 8 || mix == 16 {
            80nat
        } else if mix == 99 {
            72nat
        } else {
            64nat
        },
        load_lines(mix).len() == if mix == 4 {
            4nat
        } else if mix == 8 {
            10nat
        } else if mix == 16 {
            16nat
        } else if mix == 99 {
            8nat
        } else {
            0nat
        },
{
    let f = rounds_item(mix);
    let a = 16 + arm_fmas(mix);
    let b = arm_loads(mix);
    let (c, d): (nat, nat) = if mix == 99 {
        (a, b)
    } else {
        (16, 0)
    };
    lemma_round(mix, 0);
    lemma_round(mix, 1);
    lemma_round(mix, 2);
    lemma_round(mix, 3);
    let s1 = rep(1, f);
    let s2 = rep(2, f);
    let s3 = rep(3, f);
    lemma_holds_nothing();
    assert(rep(0, f) == Seq::<char>::empty());
    lemma_holds_behind(rep(0, f), f(0), 0, 0, a, b);
    assert(s1 == rep(0, f) + f(0));
    lemma_holds_behind(s1, f(1), a, b, c, d);
    assert(s2 == s1 + f(1));
    lemma_holds_behind(s2, f(2), a + c, b + d, c, d);
    assert(s3 == s2 + f(2));
    lemma_holds_behind(s3, f(3), a + c + c, b + d + d, c, d);
    assert(body_text(mix) == s3 + f(3));
    lemma_tally_alone(body_text(mix), "    c"@, a + c + c + c);
    lemma_tally_alone(body_text(mix), "    let "@, b + d + d + d);
}

} // verus!
