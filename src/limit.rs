//! The decimal digits of the least value that a 64-bit float rounds to
//! infinity, proved equal to it.

use vstd::arithmetic::power::{lemma_pow1, lemma_pow_adds, pow};
use vstd::prelude::*;

use crate::numeral::{digit_value, digits_value, f64_limit, limit_digits};

verus! {

/// The value of the first `n + 1` digits, from that of the first `n`.
proof fn lemma_value_prefix(x: Seq<char>, n: int)
    requires
        0 <= n < x.len(),
    ensures
        digits_value(x.subrange(0, n + 1)) == digits_value(x.subrange(0, n)) * 10 + digit_value(x[n]),
{
    assert(x.subrange(0, n + 1).drop_last() =~= x.subrange(0, n));
}

/// The value of the first `b` digits, from that of the first `a` and of the
/// ones in between.
proof fn lemma_value_split(x: Seq<char>, a: int, b: int)
    requires
        0 <= a <= b <= x.len(),
    ensures
        digits_value(x.subrange(0, b)) == digits_value(x.subrange(0, a)) * pow(10, (b - a) as nat) + digits_value(x.subrange(a, b)),
{
    assert(x.subrange(0, a) + x.subrange(a, b) =~= x.subrange(0, b));
    crate::numeral::lemma_value_append(x.subrange(0, a), x.subrange(a, b));
}

/// The values of the limit's digits, eighteen at a time.
proof fn lemma_chunk_0()
    ensures
        digits_value(limit_digits().subrange(0, 18)) == 179769313486231580,
{
    let c = limit_digits().subrange(0, 18);
    assert(c.subrange(0, 0).len() == 0);
    assert(digits_value(c.subrange(0, 0)) == 0);
    lemma_value_prefix(c, 0);
    assert(c[0] == '1');
    assert(digits_value(c.subrange(0, 1)) == 1);
    lemma_value_prefix(c, 1);
    assert(c[1] == '7');
    assert(digits_value(c.subrange(0, 2)) == 17);
    lemma_value_prefix(c, 2);
    assert(c[2] == '9');
    assert(digits_value(c.subrange(0, 3)) == 179);
    lemma_value_prefix(c, 3);
    assert(c[3] == '7');
    assert(digits_value(c.subrange(0, 4)) == 1797);
    lemma_value_prefix(c, 4);
    assert(c[4] == '6');
    assert(digits_value(c.subrange(0, 5)) == 17976);
    lemma_value_prefix(c, 5);
    assert(c[5] == '9');
    assert(digits_value(c.subrange(0, 6)) == 179769);
    lemma_value_prefix(c, 6);
    assert(c[6] == '3');
    assert(digits_value(c.subrange(0, 7)) == 1797693);
    lemma_value_prefix(c, 7);
    assert(c[7] == '1');
    assert(digits_value(c.subrange(0, 8)) == 17976931);
    lemma_value_prefix(c, 8);
    assert(c[8] == '3');
    assert(digits_value(c.subrange(0, 9)) == 179769313);
    lemma_value_prefix(c, 9);
    assert(c[9] == '4');
    assert(digits_value(c.subrange(0, 10)) == 1797693134);
    lemma_value_prefix(c, 10);
    assert(c[10] == '8');
    assert(digits_value(c.subrange(0, 11)) == 17976931348);
    lemma_value_prefix(c, 11);
    assert(c[11] == '6');
    assert(digits_value(c.subrange(0, 12)) == 179769313486);
    lemma_value_prefix(c, 12);
    assert(c[12] == '2');
    assert(digits_value(c.subrange(0, 13)) == 1797693134862);
    lemma_value_prefix(c, 13);
    assert(c[13] == '3');
    assert(digits_value(c.subrange(0, 14)) == 17976931348623);
    lemma_value_prefix(c, 14);
    assert(c[14] == '1');
    assert(digits_value(c.subrange(0, 15)) == 179769313486231);
    lemma_value_prefix(c, 15);
    assert(c[15] == '5');
    assert(digits_value(c.subrange(0, 16)) == 1797693134862315);
    lemma_value_prefix(c, 16);
    assert(c[16] == '8');
    assert(digits_value(c.subrange(0, 17)) == 17976931348623158);
    lemma_value_prefix(c, 17);
    assert(c[17] == '0');
    assert(digits_value(c.subrange(0, 18)) == 179769313486231580);
    assert(c.subrange(0, 18) =~= c);
}

proof fn lemma_chunk_18()
    ensures
        digits_value(limit_digits().subrange(18, 36)) == 793728971405303415,
{
    let c = limit_digits().subrange(18, 36);
    assert(c.subrange(0, 0).len() == 0);
    assert(digits_value(c.subrange(0, 0)) == 0);
    lemma_value_prefix(c, 0);
    assert(c[0] == '7');
    assert(digits_value(c.subrange(0, 1)) == 7);
    lemma_value_prefix(c, 1);
    assert(c[1] == '9');
    assert(digits_value(c.subrange(0, 2)) == 79);
    lemma_value_prefix(c, 2);
    assert(c[2] == '3');
    assert(digits_value(c.subrange(0, 3)) == 793);
    lemma_value_prefix(c, 3);
    assert(c[3] == '7');
    assert(digits_value(c.subrange(0, 4)) == 7937);
    lemma_value_prefix(c, 4);
    assert(c[4] == '2');
    assert(digits_value(c.subrange(0, 5)) == 79372);
    lemma_value_prefix(c, 5);
    assert(c[5] == '8');
    assert(digits_value(c.subrange(0, 6)) == 793728);
    lemma_value_prefix(c, 6);
    assert(c[6] == '9');
    assert(digits_value(c.subrange(0, 7)) == 7937289);
    lemma_value_prefix(c, 7);
    assert(c[7] == '7');
    assert(digits_value(c.subrange(0, 8)) == 79372897);
    lemma_value_prefix(c, 8);
    assert(c[8] == '1');
    assert(digits_value(c.subrange(0, 9)) == 793728971);
    lemma_value_prefix(c, 9);
    assert(c[9] == '4');
    assert(digits_value(c.subrange(0, 10)) == 7937289714);
    lemma_value_prefix(c, 10);
    assert(c[10] == '0');
    assert(digits_value(c.subrange(0, 11)) == 79372897140);
    lemma_value_prefix(c, 11);
    assert(c[11] == '5');
    assert(digits_value(c.subrange(0, 12)) == 793728971405);
    lemma_value_prefix(c, 12);
    assert(c[12] == '3');
    assert(digits_value(c.subrange(0, 13)) == 7937289714053);
    lemma_value_prefix(c, 13);
    assert(c[13] == '0');
    assert(digits_value(c.subrange(0, 14)) == 79372897140530);
    lemma_value_prefix(c, 14);
    assert(c[14] == '3');
    assert(digits_value(c.subrange(0, 15)) == 793728971405303);
    lemma_value_prefix(c, 15);
    assert(c[15] == '4');
    assert(digits_value(c.subrange(0, 16)) == 7937289714053034);
    lemma_value_prefix(c, 16);
    assert(c[16] == '1');
    assert(digits_value(c.subrange(0, 17)) == 79372897140530341);
    lemma_value_prefix(c, 17);
    assert(c[17] == '5');
    assert(digits_value(c.subrange(0, 18)) == 793728971405303415);
    assert(c.subrange(0, 18) =~= c);
}

proof fn lemma_chunk_36()
    ensures
        digits_value(limit_digits().subrange(36, 54)) == 79934132710037826,
{
    let c = limit_digits().subrange(36, 54);
    assert(c.subrange(0, 0).len() == 0);
    assert(digits_value(c.subrange(0, 0)) == 0);
    lemma_value_prefix(c, 0);
    assert(c[0] == '0');
    assert(digits_value(c.subrange(0, 1)) == 0);
    lemma_value_prefix(c, 1);
    assert(c[1] == '7');
    assert(digits_value(c.subrange(0, 2)) == 7);
    lemma_value_prefix(c, 2);
    assert(c[2] == '9');
    assert(digits_value(c.subrange(0, 3)) == 79);
    lemma_value_prefix(c, 3);
    assert(c[3] == '9');
    assert(digits_value(c.subrange(0, 4)) == 799);
    lemma_value_prefix(c, 4);
    assert(c[4] == '3');
    assert(digits_value(c.subrange(0, 5)) == 7993);
    lemma_value_prefix(c, 5);
    assert(c[5] == '4');
    assert(digits_value(c.subrange(0, 6)) == 79934);
    lemma_value_prefix(c, 6);
    assert(c[6] == '1');
    assert(digits_value(c.subrange(0, 7)) == 799341);
    lemma_value_prefix(c, 7);
    assert(c[7] == '3');
    assert(digits_value(c.subrange(0, 8)) == 7993413);
    lemma_value_prefix(c, 8);
    assert(c[8] == '2');
    assert(digits_value(c.subrange(0, 9)) == 79934132);
    lemma_value_prefix(c, 9);
    assert(c[9] == '7');
    assert(digits_value(c.subrange(0, 10)) == 799341327);
    lemma_value_prefix(c, 10);
    assert(c[10] == '1');
    assert(digits_value(c.subrange(0, 11)) == 7993413271);
    lemma_value_prefix(c, 11);
    assert(c[11] == '0');
    assert(digits_value(c.subrange(0, 12)) == 79934132710);
    lemma_value_prefix(c, 12);
    assert(c[12] == '0');
    assert(digits_value(c.subrange(0, 13)) == 799341327100);
    lemma_value_prefix(c, 13);
    assert(c[13] == '3');
    assert(digits_value(c.subrange(0, 14)) == 7993413271003);
    lemma_value_prefix(c, 14);
    assert(c[14] == '7');
    assert(digits_value(c.subrange(0, 15)) == 79934132710037);
    lemma_value_prefix(c, 15);
    assert(c[15] == '8');
    assert(digits_value(c.subrange(0, 16)) == 799341327100378);
    lemma_value_prefix(c, 16);
    assert(c[16] == '2');
    assert(digits_value(c.subrange(0, 17)) == 7993413271003782);
    lemma_value_prefix(c, 17);
    assert(c[17] == '6');
    assert(digits_value(c.subrange(0, 18)) == 79934132710037826);
    assert(c.subrange(0, 18) =~= c);
}

proof fn lemma_chunk_54()
    ensures
        digits_value(limit_digits().subrange(54, 72)) == 936173778980444968,
{
    let c = limit_digits().subrange(54, 72);
    assert(c.subrange(0, 0).len() == 0);
    assert(digits_value(c.subrange(0, 0)) == 0);
    lemma_value_prefix(c, 0);
    assert(c[0] == '9');
    assert(digits_value(c.subrange(0, 1)) == 9);
    lemma_value_prefix(c, 1);
    assert(c[1] == '3');
    assert(digits_value(c.subrange(0, 2)) == 93);
    lemma_value_prefix(c, 2);
    assert(c[2] == '6');
    assert(digits_value(c.subrange(0, 3)) == 936);
    lemma_value_prefix(c, 3);
    assert(c[3] == '1');
    assert(digits_value(c.subrange(0, 4)) == 9361);
    lemma_value_prefix(c, 4);
    assert(c[4] == '7');
    assert(digits_value(c.subrange(0, 5)) == 93617);
    lemma_value_prefix(c, 5);
    assert(c[5] == '3');
    assert(digits_value(c.subrange(0, 6)) == 936173);
    lemma_value_prefix(c, 6);
    assert(c[6] == '7');
    assert(digits_value(c.subrange(0, 7)) == 9361737);
    lemma_value_prefix(c, 7);
    assert(c[7] == '7');
    assert(digits_value(c.subrange(0, 8)) == 93617377);
    lemma_value_prefix(c, 8);
    assert(c[8] == '8');
    assert(digits_value(c.subrange(0, 9)) == 936173778);
    lemma_value_prefix(c, 9);
    assert(c[9] == '9');
    assert(digits_value(c.subrange(0, 10)) == 9361737789);
    lemma_value_prefix(c, 10);
    assert(c[10] == '8');
    assert(digits_value(c.subrange(0, 11)) == 93617377898);
    lemma_value_prefix(c, 11);
    assert(c[11] == '0');
    assert(digits_value(c.subrange(0, 12)) == 936173778980);
    lemma_value_prefix(c, 12);
    assert(c[12] == '4');
    assert(digits_value(c.subrange(0, 13)) == 9361737789804);
    lemma_value_prefix(c, 13);
    assert(c[13] == '4');
    assert(digits_value(c.subrange(0, 14)) == 93617377898044);
    lemma_value_prefix(c, 14);
    assert(c[14] == '4');
    assert(digits_value(c.subrange(0, 15)) == 936173778980444);
    lemma_value_prefix(c, 15);
    assert(c[15] == '9');
    assert(digits_value(c.subrange(0, 16)) == 9361737789804449);
    lemma_value_prefix(c, 16);
    assert(c[16] == '6');
    assert(digits_value(c.subrange(0, 17)) == 93617377898044496);
    lemma_value_prefix(c, 17);
    assert(c[17] == '8');
    assert(digits_value(c.subrange(0, 18)) == 936173778980444968);
    assert(c.subrange(0, 18) =~= c);
}

proof fn lemma_chunk_72()
    ensures
        digits_value(limit_digits().subrange(72, 90)) == 292764750946649017,
{
    let c = limit_digits().subrange(72, 90);
    assert(c.subrange(0, 0).len() == 0);
    assert(digits_value(c.subrange(0, 0)) == 0);
    lemma_value_prefix(c, 0);
    assert(c[0] == '2');
    assert(digits_value(c.subrange(0, 1)) == 2);
    lemma_value_prefix(c, 1);
    assert(c[1] == '9');
    assert(digits_value(c.subrange(0, 2)) == 29);
    lemma_value_prefix(c, 2);
    assert(c[2] == '2');
    assert(digits_value(c.subrange(0, 3)) == 292);
    lemma_value_prefix(c, 3);
    assert(c[3] == '7');
    assert(digits_value(c.subrange(0, 4)) == 2927);
    lemma_value_prefix(c, 4);
    assert(c[4] == '6');
    assert(digits_value(c.subrange(0, 5)) == 29276);
    lemma_value_prefix(c, 5);
    assert(c[5] == '4');
    assert(digits_value(c.subrange(0, 6)) == 292764);
    lemma_value_prefix(c, 6);
    assert(c[6] == '7');
    assert(digits_value(c.subrange(0, 7)) == 2927647);
    lemma_value_prefix(c, 7);
    assert(c[7] == '5');
    assert(digits_value(c.subrange(0, 8)) == 29276475);
    lemma_value_prefix(c, 8);
    assert(c[8] == '0');
    assert(digits_value(c.subrange(0, 9)) == 292764750);
    lemma_value_prefix(c, 9);
    assert(c[9] == '9');
    assert(digits_value(c.subrange(0, 10)) == 2927647509);
    lemma_value_prefix(c, 10);
    assert(c[10] == '4');
    assert(digits_value(c.subrange(0, 11)) == 29276475094);
    lemma_value_prefix(c, 11);
    assert(c[11] == '6');
    assert(digits_value(c.subrange(0, 12)) == 292764750946);
    lemma_value_prefix(c, 12);
    assert(c[12] == '6');
    assert(digits_value(c.subrange(0, 13)) == 2927647509466);
    lemma_value_prefix(c, 13);
    assert(c[13] == '4');
    assert(digits_value(c.subrange(0, 14)) == 29276475094664);
    lemma_value_prefix(c, 14);
    assert(c[14] == '9');
    assert(digits_value(c.subrange(0, 15)) == 292764750946649);
    lemma_value_prefix(c, 15);
    assert(c[15] == '0');
    assert(digits_value(c.subrange(0, 16)) == 2927647509466490);
    lemma_value_prefix(c, 16);
    assert(c[16] == '1');
    assert(digits_value(c.subrange(0, 17)) == 29276475094664901);
    lemma_value_prefix(c, 17);
    assert(c[17] == '7');
    assert(digits_value(c.subrange(0, 18)) == 292764750946649017);
    assert(c.subrange(0, 18) =~= c);
}

proof fn lemma_chunk_90()
    ensures
        digits_value(limit_digits().subrange(90, 108)) == 977587207096330286,
{
    let c = limit_digits().subrange(90, 108);
    assert(c.subrange(0, 0).len() == 0);
    assert(digits_value(c.subrange(0, 0)) == 0);
    lemma_value_prefix(c, 0);
    assert(c[0] == '9');
    assert(digits_value(c.subrange(0, 1)) == 9);
    lemma_value_prefix(c, 1);
    assert(c[1] == '7');
    assert(digits_value(c.subrange(0, 2)) == 97);
    lemma_value_prefix(c, 2);
    assert(c[2] == '7');
    assert(digits_value(c.subrange(0, 3)) == 977);
    lemma_value_prefix(c, 3);
    assert(c[3] == '5');
    assert(digits_value(c.subrange(0, 4)) == 9775);
    lemma_value_prefix(c, 4);
    assert(c[4] == '8');
    assert(digits_value(c.subrange(0, 5)) == 97758);
    lemma_value_prefix(c, 5);
    assert(c[5] == '7');
    assert(digits_value(c.subrange(0, 6)) == 977587);
    lemma_value_prefix(c, 6);
    assert(c[6] == '2');
    assert(digits_value(c.subrange(0, 7)) == 9775872);
    lemma_value_prefix(c, 7);
    assert(c[7] == '0');
    assert(digits_value(c.subrange(0, 8)) == 97758720);
    lemma_value_prefix(c, 8);
    assert(c[8] == '7');
    assert(digits_value(c.subrange(0, 9)) == 977587207);
    lemma_value_prefix(c, 9);
    assert(c[9] == '0');
    assert(digits_value(c.subrange(0, 10)) == 9775872070);
    lemma_value_prefix(c, 10);
    assert(c[10] == '9');
    assert(digits_value(c.subrange(0, 11)) == 97758720709);
    lemma_value_prefix(c, 11);
    assert(c[11] == '6');
    assert(digits_value(c.subrange(0, 12)) == 977587207096);
    lemma_value_prefix(c, 12);
    assert(c[12] == '3');
    assert(digits_value(c.subrange(0, 13)) == 9775872070963);
    lemma_value_prefix(c, 13);
    assert(c[13] == '3');
    assert(digits_value(c.subrange(0, 14)) == 97758720709633);
    lemma_value_prefix(c, 14);
    assert(c[14] == '0');
    assert(digits_value(c.subrange(0, 15)) == 977587207096330);
    lemma_value_prefix(c, 15);
    assert(c[15] == '2');
    assert(digits_value(c.subrange(0, 16)) == 9775872070963302);
    lemma_value_prefix(c, 16);
    assert(c[16] == '8');
    assert(digits_value(c.subrange(0, 17)) == 97758720709633028);
    lemma_value_prefix(c, 17);
    assert(c[17] == '6');
    assert(digits_value(c.subrange(0, 18)) == 977587207096330286);
    assert(c.subrange(0, 18) =~= c);
}

proof fn lemma_chunk_108()
    ensures
        digits_value(limit_digits().subrange(108, 126)) == 416692887910946555,
{
    let c = limit_digits().subrange(108, 126);
    assert(c.subrange(0, 0).len() == 0);
    assert(digits_value(c.subrange(0, 0)) == 0);
    lemma_value_prefix(c, 0);
    assert(c[0] == '4');
    assert(digits_value(c.subrange(0, 1)) == 4);
    lemma_value_prefix(c, 1);
    assert(c[1] == '1');
    assert(digits_value(c.subrange(0, 2)) == 41);
    lemma_value_prefix(c, 2);
    assert(c[2] == '6');
    assert(digits_value(c.subrange(0, 3)) == 416);
    lemma_value_prefix(c, 3);
    assert(c[3] == '6');
    assert(digits_value(c.subrange(0, 4)) == 4166);
    lemma_value_prefix(c, 4);
    assert(c[4] == '9');
    assert(digits_value(c.subrange(0, 5)) == 41669);
    lemma_value_prefix(c, 5);
    assert(c[5] == '2');
    assert(digits_value(c.subrange(0, 6)) == 416692);
    lemma_value_prefix(c, 6);
    assert(c[6] == '8');
    assert(digits_value(c.subrange(0, 7)) == 4166928);
    lemma_value_prefix(c, 7);
    assert(c[7] == '8');
    assert(digits_value(c.subrange(0, 8)) == 41669288);
    lemma_value_prefix(c, 8);
    assert(c[8] == '7');
    assert(digits_value(c.subrange(0, 9)) == 416692887);
    lemma_value_prefix(c, 9);
    assert(c[9] == '9');
    assert(digits_value(c.subrange(0, 10)) == 4166928879);
    lemma_value_prefix(c, 10);
    assert(c[10] == '1');
    assert(digits_value(c.subrange(0, 11)) == 41669288791);
    lemma_value_prefix(c, 11);
    assert(c[11] == '0');
    assert(digits_value(c.subrange(0, 12)) == 416692887910);
    lemma_value_prefix(c, 12);
    assert(c[12] == '9');
    assert(digits_value(c.subrange(0, 13)) == 4166928879109);
    lemma_value_prefix(c, 13);
    assert(c[13] == '4');
    assert(digits_value(c.subrange(0, 14)) == 41669288791094);
    lemma_value_prefix(c, 14);
    assert(c[14] == '6');
    assert(digits_value(c.subrange(0, 15)) == 416692887910946);
    lemma_value_prefix(c, 15);
    assert(c[15] == '5');
    assert(digits_value(c.subrange(0, 16)) == 4166928879109465);
    lemma_value_prefix(c, 16);
    assert(c[16] == '5');
    assert(digits_value(c.subrange(0, 17)) == 41669288791094655);
    lemma_value_prefix(c, 17);
    assert(c[17] == '5');
    assert(digits_value(c.subrange(0, 18)) == 416692887910946555);
    assert(c.subrange(0, 18) =~= c);
}

proof fn lemma_chunk_126()
    ensures
        digits_value(limit_digits().subrange(126, 144)) == 547851940402630657,
{
    let c = limit_digits().subrange(126, 144);
    assert(c.subrange(0, 0).len() == 0);
    assert(digits_value(c.subrange(0, 0)) == 0);
    lemma_value_prefix(c, 0);
    assert(c[0] == '5');
    assert(digits_value(c.subrange(0, 1)) == 5);
    lemma_value_prefix(c, 1);
    assert(c[1] == '4');
    assert(digits_value(c.subrange(0, 2)) == 54);
    lemma_value_prefix(c, 2);
    assert(c[2] == '7');
    assert(digits_value(c.subrange(0, 3)) == 547);
    lemma_value_prefix(c, 3);
    assert(c[3] == '8');
    assert(digits_value(c.subrange(0, 4)) == 5478);
    lemma_value_prefix(c, 4);
    assert(c[4] == '5');
    assert(digits_value(c.subrange(0, 5)) == 54785);
    lemma_value_prefix(c, 5);
    assert(c[5] == '1');
    assert(digits_value(c.subrange(0, 6)) == 547851);
    lemma_value_prefix(c, 6);
    assert(c[6] == '9');
    assert(digits_value(c.subrange(0, 7)) == 5478519);
    lemma_value_prefix(c, 7);
    assert(c[7] == '4');
    assert(digits_value(c.subrange(0, 8)) == 54785194);
    lemma_value_prefix(c, 8);
    assert(c[8] == '0');
    assert(digits_value(c.subrange(0, 9)) == 547851940);
    lemma_value_prefix(c, 9);
    assert(c[9] == '4');
    assert(digits_value(c.subrange(0, 10)) == 5478519404);
    lemma_value_prefix(c, 10);
    assert(c[10] == '0');
    assert(digits_value(c.subrange(0, 11)) == 54785194040);
    lemma_value_prefix(c, 11);
    assert(c[11] == '2');
    assert(digits_value(c.subrange(0, 12)) == 547851940402);
    lemma_value_prefix(c, 12);
    assert(c[12] == '6');
    assert(digits_value(c.subrange(0, 13)) == 5478519404026);
    lemma_value_prefix(c, 13);
    assert(c[13] == '3');
    assert(digits_value(c.subrange(0, 14)) == 54785194040263);
    lemma_value_prefix(c, 14);
    assert(c[14] == '0');
    assert(digits_value(c.subrange(0, 15)) == 547851940402630);
    lemma_value_prefix(c, 15);
    assert(c[15] == '6');
    assert(digits_value(c.subrange(0, 16)) == 5478519404026306);
    lemma_value_prefix(c, 16);
    assert(c[16] == '5');
    assert(digits_value(c.subrange(0, 17)) == 54785194040263065);
    lemma_value_prefix(c, 17);
    assert(c[17] == '7');
    assert(digits_value(c.subrange(0, 18)) == 547851940402630657);
    assert(c.subrange(0, 18) =~= c);
}

proof fn lemma_chunk_144()
    ensures
        digits_value(limit_digits().subrange(144, 162)) == 488671505820681908,
{
    let c = limit_digits().subrange(144, 162);
    assert(c.subrange(0, 0).len() == 0);
    assert(digits_value(c.subrange(0, 0)) == 0);
    lemma_value_prefix(c, 0);
    assert(c[0] == '4');
    assert(digits_value(c.subrange(0, 1)) == 4);
    lemma_value_prefix(c, 1);
    assert(c[1] == '8');
    assert(digits_value(c.subrange(0, 2)) == 48);
    lemma_value_prefix(c, 2);
    assert(c[2] == '8');
    assert(digits_value(c.subrange(0, 3)) == 488);
    lemma_value_prefix(c, 3);
    assert(c[3] == '6');
    assert(digits_value(c.subrange(0, 4)) == 4886);
    lemma_value_prefix(c, 4);
    assert(c[4] == '7');
    assert(digits_value(c.subrange(0, 5)) == 48867);
    lemma_value_prefix(c, 5);
    assert(c[5] == '1');
    assert(digits_value(c.subrange(0, 6)) == 488671);
    lemma_value_prefix(c, 6);
    assert(c[6] == '5');
    assert(digits_value(c.subrange(0, 7)) == 4886715);
    lemma_value_prefix(c, 7);
    assert(c[7] == '0');
    assert(digits_value(c.subrange(0, 8)) == 48867150);
    lemma_value_prefix(c, 8);
    assert(c[8] == '5');
    assert(digits_value(c.subrange(0, 9)) == 488671505);
    lemma_value_prefix(c, 9);
    assert(c[9] == '8');
    assert(digits_value(c.subrange(0, 10)) == 4886715058);
    lemma_value_prefix(c, 10);
    assert(c[10] == '2');
    assert(digits_value(c.subrange(0, 11)) == 48867150582);
    lemma_value_prefix(c, 11);
    assert(c[11] == '0');
    assert(digits_value(c.subrange(0, 12)) == 488671505820);
    lemma_value_prefix(c, 12);
    assert(c[12] == '6');
    assert(digits_value(c.subrange(0, 13)) == 4886715058206);
    lemma_value_prefix(c, 13);
    assert(c[13] == '8');
    assert(digits_value(c.subrange(0, 14)) == 48867150582068);
    lemma_value_prefix(c, 14);
    assert(c[14] == '1');
    assert(digits_value(c.subrange(0, 15)) == 488671505820681);
    lemma_value_prefix(c, 15);
    assert(c[15] == '9');
    assert(digits_value(c.subrange(0, 16)) == 4886715058206819);
    lemma_value_prefix(c, 16);
    assert(c[16] == '0');
    assert(digits_value(c.subrange(0, 17)) == 48867150582068190);
    lemma_value_prefix(c, 17);
    assert(c[17] == '8');
    assert(digits_value(c.subrange(0, 18)) == 488671505820681908);
    assert(c.subrange(0, 18) =~= c);
}

proof fn lemma_chunk_162()
    ensures
        digits_value(limit_digits().subrange(162, 180)) == 902000708383676273,
{
    let c = limit_digits().subrange(162, 180);
    assert(c.subrange(0, 0).len() == 0);
    assert(digits_value(c.subrange(0, 0)) == 0);
    lemma_value_prefix(c, 0);
    assert(c[0] == '9');
    assert(digits_value(c.subrange(0, 1)) == 9);
    lemma_value_prefix(c, 1);
    assert(c[1] == '0');
    assert(digits_value(c.subrange(0, 2)) == 90);
    lemma_value_prefix(c, 2);
    assert(c[2] == '2');
    assert(digits_value(c.subrange(0, 3)) == 902);
    lemma_value_prefix(c, 3);
    assert(c[3] == '0');
    assert(digits_value(c.subrange(0, 4)) == 9020);
    lemma_value_prefix(c, 4);
    assert(c[4] == '0');
    assert(digits_value(c.subrange(0, 5)) == 90200);
    lemma_value_prefix(c, 5);
    assert(c[5] == '0');
    assert(digits_value(c.subrange(0, 6)) == 902000);
    lemma_value_prefix(c, 6);
    assert(c[6] == '7');
    assert(digits_value(c.subrange(0, 7)) == 9020007);
    lemma_value_prefix(c, 7);
    assert(c[7] == '0');
    assert(digits_value(c.subrange(0, 8)) == 90200070);
    lemma_value_prefix(c, 8);
    assert(c[8] == '8');
    assert(digits_value(c.subrange(0, 9)) == 902000708);
    lemma_value_prefix(c, 9);
    assert(c[9] == '3');
    assert(digits_value(c.subrange(0, 10)) == 9020007083);
    lemma_value_prefix(c, 10);
    assert(c[10] == '8');
    assert(digits_value(c.subrange(0, 11)) == 90200070838);
    lemma_value_prefix(c, 11);
    assert(c[11] == '3');
    assert(digits_value(c.subrange(0, 12)) == 902000708383);
    lemma_value_prefix(c, 12);
    assert(c[12] == '6');
    assert(digits_value(c.subrange(0, 13)) == 9020007083836);
    lemma_value_prefix(c, 13);
    assert(c[13] == '7');
    assert(digits_value(c.subrange(0, 14)) == 90200070838367);
    lemma_value_prefix(c, 14);
    assert(c[14] == '6');
    assert(digits_value(c.subrange(0, 15)) == 902000708383676);
    lemma_value_prefix(c, 15);
    assert(c[15] == '2');
    assert(digits_value(c.subrange(0, 16)) == 9020007083836762);
    lemma_value_prefix(c, 16);
    assert(c[16] == '7');
    assert(digits_value(c.subrange(0, 17)) == 90200070838367627);
    lemma_value_prefix(c, 17);
    assert(c[17] == '3');
    assert(digits_value(c.subrange(0, 18)) == 902000708383676273);
    assert(c.subrange(0, 18) =~= c);
}

proof fn lemma_chunk_180()
    ensures
        digits_value(limit_digits().subrange(180, 198)) == 854845817711531764,
{
    let c = limit_digits().subrange(180, 198);
    assert(c.subrange(0, 0).len() == 0);
    assert(digits_value(c.subrange(0, 0)) == 0);
    lemma_value_prefix(c, 0);
    assert(c[0] == '8');
    assert(digits_value(c.subrange(0, 1)) == 8);
    lemma_value_prefix(c, 1);
    assert(c[1] == '5');
    assert(digits_value(c.subrange(0, 2)) == 85);
    lemma_value_prefix(c, 2);
    assert(c[2] == '4');
    assert(digits_value(c.subrange(0, 3)) == 854);
    lemma_value_prefix(c, 3);
    assert(c[3] == '8');
    assert(digits_value(c.subrange(0, 4)) == 8548);
    lemma_value_prefix(c, 4);
    assert(c[4] == '4');
    assert(digits_value(c.subrange(0, 5)) == 85484);
    lemma_value_prefix(c, 5);
    assert(c[5] == '5');
    assert(digits_value(c.subrange(0, 6)) == 854845);
    lemma_value_prefix(c, 6);
    assert(c[6] == '8');
    assert(digits_value(c.subrange(0, 7)) == 8548458);
    lemma_value_prefix(c, 7);
    assert(c[7] == '1');
    assert(digits_value(c.subrange(0, 8)) == 85484581);
    lemma_value_prefix(c, 8);
    assert(c[8] == '7');
    assert(digits_value(c.subrange(0, 9)) == 854845817);
    lemma_value_prefix(c, 9);
    assert(c[9] == '7');
    assert(digits_value(c.subrange(0, 10)) == 8548458177);
    lemma_value_prefix(c, 10);
    assert(c[10] == '1');
    assert(digits_value(c.subrange(0, 11)) == 85484581771);
    lemma_value_prefix(c, 11);
    assert(c[11] == '1');
    assert(digits_value(c.subrange(0, 12)) == 854845817711);
    lemma_value_prefix(c, 12);
    assert(c[12] == '5');
    assert(digits_value(c.subrange(0, 13)) == 8548458177115);
    lemma_value_prefix(c, 13);
    assert(c[13] == '3');
    assert(digits_value(c.subrange(0, 14)) == 85484581771153);
    lemma_value_prefix(c, 14);
    assert(c[14] == '1');
    assert(digits_value(c.subrange(0, 15)) == 854845817711531);
    lemma_value_prefix(c, 15);
    assert(c[15] == '7');
    assert(digits_value(c.subrange(0, 16)) == 8548458177115317);
    lemma_value_prefix(c, 16);
    assert(c[16] == '6');
    assert(digits_value(c.subrange(0, 17)) == 85484581771153176);
    lemma_value_prefix(c, 17);
    assert(c[17] == '4');
    assert(digits_value(c.subrange(0, 18)) == 854845817711531764);
    assert(c.subrange(0, 18) =~= c);
}

proof fn lemma_chunk_198()
    ensures
        digits_value(limit_digits().subrange(198, 216)) == 475730270069855571,
{
    let c = limit_digits().subrange(198, 216);
    assert(c.subrange(0, 0).len() == 0);
    assert(digits_value(c.subrange(0, 0)) == 0);
    lemma_value_prefix(c, 0);
    assert(c[0] == '4');
    assert(digits_value(c.subrange(0, 1)) == 4);
    lemma_value_prefix(c, 1);
    assert(c[1] == '7');
    assert(digits_value(c.subrange(0, 2)) == 47);
    lemma_value_prefix(c, 2);
    assert(c[2] == '5');
    assert(digits_value(c.subrange(0, 3)) == 475);
    lemma_value_prefix(c, 3);
    assert(c[3] == '7');
    assert(digits_value(c.subrange(0, 4)) == 4757);
    lemma_value_prefix(c, 4);
    assert(c[4] == '3');
    assert(digits_value(c.subrange(0, 5)) == 47573);
    lemma_value_prefix(c, 5);
    assert(c[5] == '0');
    assert(digits_value(c.subrange(0, 6)) == 475730);
    lemma_value_prefix(c, 6);
    assert(c[6] == '2');
    assert(digits_value(c.subrange(0, 7)) == 4757302);
    lemma_value_prefix(c, 7);
    assert(c[7] == '7');
    assert(digits_value(c.subrange(0, 8)) == 47573027);
    lemma_value_prefix(c, 8);
    assert(c[8] == '0');
    assert(digits_value(c.subrange(0, 9)) == 475730270);
    lemma_value_prefix(c, 9);
    assert(c[9] == '0');
    assert(digits_value(c.subrange(0, 10)) == 4757302700);
    lemma_value_prefix(c, 10);
    assert(c[10] == '6');
    assert(digits_value(c.subrange(0, 11)) == 47573027006);
    lemma_value_prefix(c, 11);
    assert(c[11] == '9');
    assert(digits_value(c.subrange(0, 12)) == 475730270069);
    lemma_value_prefix(c, 12);
    assert(c[12] == '8');
    assert(digits_value(c.subrange(0, 13)) == 4757302700698);
    lemma_value_prefix(c, 13);
    assert(c[13] == '5');
    assert(digits_value(c.subrange(0, 14)) == 47573027006985);
    lemma_value_prefix(c, 14);
    assert(c[14] == '5');
    assert(digits_value(c.subrange(0, 15)) == 475730270069855);
    lemma_value_prefix(c, 15);
    assert(c[15] == '5');
    assert(digits_value(c.subrange(0, 16)) == 4757302700698555);
    lemma_value_prefix(c, 16);
    assert(c[16] == '7');
    assert(digits_value(c.subrange(0, 17)) == 47573027006985557);
    lemma_value_prefix(c, 17);
    assert(c[17] == '1');
    assert(digits_value(c.subrange(0, 18)) == 475730270069855571);
    assert(c.subrange(0, 18) =~= c);
}

proof fn lemma_chunk_216()
    ensures
        digits_value(limit_digits().subrange(216, 234)) == 366959622842914819,
{
    let c = limit_digits().subrange(216, 234);
    assert(c.subrange(0, 0).len() == 0);
    assert(digits_value(c.subrange(0, 0)) == 0);
    lemma_value_prefix(c, 0);
    assert(c[0] == '3');
    assert(digits_value(c.subrange(0, 1)) == 3);
    lemma_value_prefix(c, 1);
    assert(c[1] == '6');
    assert(digits_value(c.subrange(0, 2)) == 36);
    lemma_value_prefix(c, 2);
    assert(c[2] == '6');
    assert(digits_value(c.subrange(0, 3)) == 366);
    lemma_value_prefix(c, 3);
    assert(c[3] == '9');
    assert(digits_value(c.subrange(0, 4)) == 3669);
    lemma_value_prefix(c, 4);
    assert(c[4] == '5');
    assert(digits_value(c.subrange(0, 5)) == 36695);
    lemma_value_prefix(c, 5);
    assert(c[5] == '9');
    assert(digits_value(c.subrange(0, 6)) == 366959);
    lemma_value_prefix(c, 6);
    assert(c[6] == '6');
    assert(digits_value(c.subrange(0, 7)) == 3669596);
    lemma_value_prefix(c, 7);
    assert(c[7] == '2');
    assert(digits_value(c.subrange(0, 8)) == 36695962);
    lemma_value_prefix(c, 8);
    assert(c[8] == '2');
    assert(digits_value(c.subrange(0, 9)) == 366959622);
    lemma_value_prefix(c, 9);
    assert(c[9] == '8');
    assert(digits_value(c.subrange(0, 10)) == 3669596228);
    lemma_value_prefix(c, 10);
    assert(c[10] == '4');
    assert(digits_value(c.subrange(0, 11)) == 36695962284);
    lemma_value_prefix(c, 11);
    assert(c[11] == '2');
    assert(digits_value(c.subrange(0, 12)) == 366959622842);
    lemma_value_prefix(c, 12);
    assert(c[12] == '9');
    assert(digits_value(c.subrange(0, 13)) == 3669596228429);
    lemma_value_prefix(c, 13);
    assert(c[13] == '1');
    assert(digits_value(c.subrange(0, 14)) == 36695962284291);
    lemma_value_prefix(c, 14);
    assert(c[14] == '4');
    assert(digits_value(c.subrange(0, 15)) == 366959622842914);
    lemma_value_prefix(c, 15);
    assert(c[15] == '8');
    assert(digits_value(c.subrange(0, 16)) == 3669596228429148);
    lemma_value_prefix(c, 16);
    assert(c[16] == '1');
    assert(digits_value(c.subrange(0, 17)) == 36695962284291481);
    lemma_value_prefix(c, 17);
    assert(c[17] == '9');
    assert(digits_value(c.subrange(0, 18)) == 366959622842914819);
    assert(c.subrange(0, 18) =~= c);
}

proof fn lemma_chunk_234()
    ensures
        digits_value(limit_digits().subrange(234, 252)) == 860834936475292719,
{
    let c = limit_digits().subrange(234, 252);
    assert(c.subrange(0, 0).len() == 0);
    assert(digits_value(c.subrange(0, 0)) == 0);
    lemma_value_prefix(c, 0);
    assert(c[0] == '8');
    assert(digits_value(c.subrange(0, 1)) == 8);
    lemma_value_prefix(c, 1);
    assert(c[1] == '6');
    assert(digits_value(c.subrange(0, 2)) == 86);
    lemma_value_prefix(c, 2);
    assert(c[2] == '0');
    assert(digits_value(c.subrange(0, 3)) == 860);
    lemma_value_prefix(c, 3);
    assert(c[3] == '8');
    assert(digits_value(c.subrange(0, 4)) == 8608);
    lemma_value_prefix(c, 4);
    assert(c[4] == '3');
    assert(digits_value(c.subrange(0, 5)) == 86083);
    lemma_value_prefix(c, 5);
    assert(c[5] == '4');
    assert(digits_value(c.subrange(0, 6)) == 860834);
    lemma_value_prefix(c, 6);
    assert(c[6] == '9');
    assert(digits_value(c.subrange(0, 7)) == 8608349);
    lemma_value_prefix(c, 7);
    assert(c[7] == '3');
    assert(digits_value(c.subrange(0, 8)) == 86083493);
    lemma_value_prefix(c, 8);
    assert(c[8] == '6');
    assert(digits_value(c.subrange(0, 9)) == 860834936);
    lemma_value_prefix(c, 9);
    assert(c[9] == '4');
    assert(digits_value(c.subrange(0, 10)) == 8608349364);
    lemma_value_prefix(c, 10);
    assert(c[10] == '7');
    assert(digits_value(c.subrange(0, 11)) == 86083493647);
    lemma_value_prefix(c, 11);
    assert(c[11] == '5');
    assert(digits_value(c.subrange(0, 12)) == 860834936475);
    lemma_value_prefix(c, 12);
    assert(c[12] == '2');
    assert(digits_value(c.subrange(0, 13)) == 8608349364752);
    lemma_value_prefix(c, 13);
    assert(c[13] == '9');
    assert(digits_value(c.subrange(0, 14)) == 86083493647529);
    lemma_value_prefix(c, 14);
    assert(c[14] == '2');
    assert(digits_value(c.subrange(0, 15)) == 860834936475292);
    lemma_value_prefix(c, 15);
    assert(c[15] == '7');
    assert(digits_value(c.subrange(0, 16)) == 8608349364752927);
    lemma_value_prefix(c, 16);
    assert(c[16] == '1');
    assert(digits_value(c.subrange(0, 17)) == 86083493647529271);
    lemma_value_prefix(c, 17);
    assert(c[17] == '9');
    assert(digits_value(c.subrange(0, 18)) == 860834936475292719);
    assert(c.subrange(0, 18) =~= c);
}

proof fn lemma_chunk_252()
    ensures
        digits_value(limit_digits().subrange(252, 270)) == 74168444365510704,
{
    let c = limit_digits().subrange(252, 270);
    assert(c.subrange(0, 0).len() == 0);
    assert(digits_value(c.subrange(0, 0)) == 0);
    lemma_value_prefix(c, 0);
    assert(c[0] == '0');
    assert(digits_value(c.subrange(0, 1)) == 0);
    lemma_value_prefix(c, 1);
    assert(c[1] == '7');
    assert(digits_value(c.subrange(0, 2)) == 7);
    lemma_value_prefix(c, 2);
    assert(c[2] == '4');
    assert(digits_value(c.subrange(0, 3)) == 74);
    lemma_value_prefix(c, 3);
    assert(c[3] == '1');
    assert(digits_value(c.subrange(0, 4)) == 741);
    lemma_value_prefix(c, 4);
    assert(c[4] == '6');
    assert(digits_value(c.subrange(0, 5)) == 7416);
    lemma_value_prefix(c, 5);
    assert(c[5] == '8');
    assert(digits_value(c.subrange(0, 6)) == 74168);
    lemma_value_prefix(c, 6);
    assert(c[6] == '4');
    assert(digits_value(c.subrange(0, 7)) == 741684);
    lemma_value_prefix(c, 7);
    assert(c[7] == '4');
    assert(digits_value(c.subrange(0, 8)) == 7416844);
    lemma_value_prefix(c, 8);
    assert(c[8] == '4');
    assert(digits_value(c.subrange(0, 9)) == 74168444);
    lemma_value_prefix(c, 9);
    assert(c[9] == '3');
    assert(digits_value(c.subrange(0, 10)) == 741684443);
    lemma_value_prefix(c, 10);
    assert(c[10] == '6');
    assert(digits_value(c.subrange(0, 11)) == 7416844436);
    lemma_value_prefix(c, 11);
    assert(c[11] == '5');
    assert(digits_value(c.subrange(0, 12)) == 74168444365);
    lemma_value_prefix(c, 12);
    assert(c[12] == '5');
    assert(digits_value(c.subrange(0, 13)) == 741684443655);
    lemma_value_prefix(c, 13);
    assert(c[13] == '1');
    assert(digits_value(c.subrange(0, 14)) == 7416844436551);
    lemma_value_prefix(c, 14);
    assert(c[14] == '0');
    assert(digits_value(c.subrange(0, 15)) == 74168444365510);
    lemma_value_prefix(c, 15);
    assert(c[15] == '7');
    assert(digits_value(c.subrange(0, 16)) == 741684443655107);
    lemma_value_prefix(c, 16);
    assert(c[16] == '0');
    assert(digits_value(c.subrange(0, 17)) == 7416844436551070);
    lemma_value_prefix(c, 17);
    assert(c[17] == '4');
    assert(digits_value(c.subrange(0, 18)) == 74168444365510704);
    assert(c.subrange(0, 18) =~= c);
}

proof fn lemma_chunk_270()
    ensures
        digits_value(limit_digits().subrange(270, 288)) == 342711559699508093,
{
    let c = limit_digits().subrange(270, 288);
    assert(c.subrange(0, 0).len() == 0);
    assert(digits_value(c.subrange(0, 0)) == 0);
    lemma_value_prefix(c, 0);
    assert(c[0] == '3');
    assert(digits_value(c.subrange(0, 1)) == 3);
    lemma_value_prefix(c, 1);
    assert(c[1] == '4');
    assert(digits_value(c.subrange(0, 2)) == 34);
    lemma_value_prefix(c, 2);
    assert(c[2] == '2');
    assert(digits_value(c.subrange(0, 3)) == 342);
    lemma_value_prefix(c, 3);
    assert(c[3] == '7');
    assert(digits_value(c.subrange(0, 4)) == 3427);
    lemma_value_prefix(c, 4);
    assert(c[4] == '1');
    assert(digits_value(c.subrange(0, 5)) == 34271);
    lemma_value_prefix(c, 5);
    assert(c[5] == '1');
    assert(digits_value(c.subrange(0, 6)) == 342711);
    lemma_value_prefix(c, 6);
    assert(c[6] == '5');
    assert(digits_value(c.subrange(0, 7)) == 3427115);
    lemma_value_prefix(c, 7);
    assert(c[7] == '5');
    assert(digits_value(c.subrange(0, 8)) == 34271155);
    lemma_value_prefix(c, 8);
    assert(c[8] == '9');
    assert(digits_value(c.subrange(0, 9)) == 342711559);
    lemma_value_prefix(c, 9);
    assert(c[9] == '6');
    assert(digits_value(c.subrange(0, 10)) == 3427115596);
    lemma_value_prefix(c, 10);
    assert(c[10] == '9');
    assert(digits_value(c.subrange(0, 11)) == 34271155969);
    lemma_value_prefix(c, 11);
    assert(c[11] == '9');
    assert(digits_value(c.subrange(0, 12)) == 342711559699);
    lemma_value_prefix(c, 12);
    assert(c[12] == '5');
    assert(digits_value(c.subrange(0, 13)) == 3427115596995);
    lemma_value_prefix(c, 13);
    assert(c[13] == '0');
    assert(digits_value(c.subrange(0, 14)) == 34271155969950);
    lemma_value_prefix(c, 14);
    assert(c[14] == '8');
    assert(digits_value(c.subrange(0, 15)) == 342711559699508);
    lemma_value_prefix(c, 15);
    assert(c[15] == '0');
    assert(digits_value(c.subrange(0, 16)) == 3427115596995080);
    lemma_value_prefix(c, 16);
    assert(c[16] == '9');
    assert(digits_value(c.subrange(0, 17)) == 34271155969950809);
    lemma_value_prefix(c, 17);
    assert(c[17] == '3');
    assert(digits_value(c.subrange(0, 18)) == 342711559699508093);
    assert(c.subrange(0, 18) =~= c);
}

proof fn lemma_chunk_288()
    ensures
        digits_value(limit_digits().subrange(288, 306)) == 42880177904174497,
{
    let c = limit_digits().subrange(288, 306);
    assert(c.subrange(0, 0).len() == 0);
    assert(digits_value(c.subrange(0, 0)) == 0);
    lemma_value_prefix(c, 0);
    assert(c[0] == '0');
    assert(digits_value(c.subrange(0, 1)) == 0);
    lemma_value_prefix(c, 1);
    assert(c[1] == '4');
    assert(digits_value(c.subrange(0, 2)) == 4);
    lemma_value_prefix(c, 2);
    assert(c[2] == '2');
    assert(digits_value(c.subrange(0, 3)) == 42);
    lemma_value_prefix(c, 3);
    assert(c[3] == '8');
    assert(digits_value(c.subrange(0, 4)) == 428);
    lemma_value_prefix(c, 4);
    assert(c[4] == '8');
    assert(digits_value(c.subrange(0, 5)) == 4288);
    lemma_value_prefix(c, 5);
    assert(c[5] == '0');
    assert(digits_value(c.subrange(0, 6)) == 42880);
    lemma_value_prefix(c, 6);
    assert(c[6] == '1');
    assert(digits_value(c.subrange(0, 7)) == 428801);
    lemma_value_prefix(c, 7);
    assert(c[7] == '7');
    assert(digits_value(c.subrange(0, 8)) == 4288017);
    lemma_value_prefix(c, 8);
    assert(c[8] == '7');
    assert(digits_value(c.subrange(0, 9)) == 42880177);
    lemma_value_prefix(c, 9);
    assert(c[9] == '9');
    assert(digits_value(c.subrange(0, 10)) == 428801779);
    lemma_value_prefix(c, 10);
    assert(c[10] == '0');
    assert(digits_value(c.subrange(0, 11)) == 4288017790);
    lemma_value_prefix(c, 11);
    assert(c[11] == '4');
    assert(digits_value(c.subrange(0, 12)) == 42880177904);
    lemma_value_prefix(c, 12);
    assert(c[12] == '1');
    assert(digits_value(c.subrange(0, 13)) == 428801779041);
    lemma_value_prefix(c, 13);
    assert(c[13] == '7');
    assert(digits_value(c.subrange(0, 14)) == 4288017790417);
    lemma_value_prefix(c, 14);
    assert(c[14] == '4');
    assert(digits_value(c.subrange(0, 15)) == 42880177904174);
    lemma_value_prefix(c, 15);
    assert(c[15] == '4');
    assert(digits_value(c.subrange(0, 16)) == 428801779041744);
    lemma_value_prefix(c, 16);
    assert(c[16] == '9');
    assert(digits_value(c.subrange(0, 17)) == 4288017790417449);
    lemma_value_prefix(c, 17);
    assert(c[17] == '7');
    assert(digits_value(c.subrange(0, 18)) == 42880177904174497);
    assert(c.subrange(0, 18) =~= c);
}

proof fn lemma_chunk_306()
    ensures
        digits_value(limit_digits().subrange(306, 309)) == 792,
{
    let c = limit_digits().subrange(306, 309);
    assert(c.subrange(0, 0).len() == 0);
    assert(digits_value(c.subrange(0, 0)) == 0);
    lemma_value_prefix(c, 0);
    assert(c[0] == '7');
    assert(digits_value(c.subrange(0, 1)) == 7);
    lemma_value_prefix(c, 1);
    assert(c[1] == '9');
    assert(digits_value(c.subrange(0, 2)) == 79);
    lemma_value_prefix(c, 2);
    assert(c[2] == '2');
    assert(digits_value(c.subrange(0, 3)) == 792);
    assert(c.subrange(0, 3) =~= c);
}

#[verifier::rlimit(100)]
/// The value of the limit's digits, assembled from its chunks.
proof fn lemma_limit_value()
    ensures
        digits_value(limit_digits()) == (((((((((((((((((179769313486231580) * 1000000000000000000 + 793728971405303415) * 1000000000000000000 + 79934132710037826) * 1000000000000000000 + 936173778980444968) * 1000000000000000000 + 292764750946649017) * 1000000000000000000 + 977587207096330286) * 1000000000000000000 + 416692887910946555) * 1000000000000000000 + 547851940402630657) * 1000000000000000000 + 488671505820681908) * 1000000000000000000 + 902000708383676273) * 1000000000000000000 + 854845817711531764) * 1000000000000000000 + 475730270069855571) * 1000000000000000000 + 366959622842914819) * 1000000000000000000 + 860834936475292719) * 1000000000000000000 + 74168444365510704) * 1000000000000000000 + 342711559699508093) * 1000000000000000000 + 42880177904174497) * 1000 + 792,
{
    let l = limit_digits();
    assert(l.len() == 309);
    assert(pow(10, 18) == 1000000000000000000) by { reveal_with_fuel(pow, 19); }
    assert(pow(10, 3) == 1000) by { reveal_with_fuel(pow, 4); }
    assert(l.subrange(0, 0).len() == 0);
    assert(digits_value(l.subrange(0, 0)) == 0);
    lemma_chunk_0();
    lemma_value_split(l.subrange(0, 18), 0, 18);
    assert(l.subrange(0, 18).subrange(0, 0) =~= l.subrange(0, 0));
    assert(l.subrange(0, 18).subrange(0, 18) =~= l.subrange(0, 18));
    assert(l.subrange(0, 18).subrange(0, 18) =~= l.subrange(0, 18));
    lemma_chunk_18();
    lemma_value_split(l.subrange(0, 36), 18, 36);
    assert(l.subrange(0, 36).subrange(0, 18) =~= l.subrange(0, 18));
    assert(l.subrange(0, 36).subrange(18, 36) =~= l.subrange(18, 36));
    assert(l.subrange(0, 36).subrange(0, 36) =~= l.subrange(0, 36));
    lemma_chunk_36();
    lemma_value_split(l.subrange(0, 54), 36, 54);
    assert(l.subrange(0, 54).subrange(0, 36) =~= l.subrange(0, 36));
    assert(l.subrange(0, 54).subrange(36, 54) =~= l.subrange(36, 54));
    assert(l.subrange(0, 54).subrange(0, 54) =~= l.subrange(0, 54));
    lemma_chunk_54();
    lemma_value_split(l.subrange(0, 72), 54, 72);
    assert(l.subrange(0, 72).subrange(0, 54) =~= l.subrange(0, 54));
    assert(l.subrange(0, 72).subrange(54, 72) =~= l.subrange(54, 72));
    assert(l.subrange(0, 72).subrange(0, 72) =~= l.subrange(0, 72));
    lemma_chunk_72();
    lemma_value_split(l.subrange(0, 90), 72, 90);
    assert(l.subrange(0, 90).subrange(0, 72) =~= l.subrange(0, 72));
    assert(l.subrange(0, 90).subrange(72, 90) =~= l.subrange(72, 90));
    assert(l.subrange(0, 90).subrange(0, 90) =~= l.subrange(0, 90));
    lemma_chunk_90();
    lemma_value_split(l.subrange(0, 108), 90, 108);
    assert(l.subrange(0, 108).subrange(0, 90) =~= l.subrange(0, 90));
    assert(l.subrange(0, 108).subrange(90, 108) =~= l.subrange(90, 108));
    assert(l.subrange(0, 108).subrange(0, 108) =~= l.subrange(0, 108));
    lemma_chunk_108();
    lemma_value_split(l.subrange(0, 126), 108, 126);
    assert(l.subrange(0, 126).subrange(0, 108) =~= l.subrange(0, 108));
    assert(l.subrange(0, 126).subrange(108, 126) =~= l.subrange(108, 126));
    assert(l.subrange(0, 126).subrange(0, 126) =~= l.subrange(0, 126));
    lemma_chunk_126();
    lemma_value_split(l.subrange(0, 144), 126, 144);
    assert(l.subrange(0, 144).subrange(0, 126) =~= l.subrange(0, 126));
    assert(l.subrange(0, 144).subrange(126, 144) =~= l.subrange(126, 144));
    assert(l.subrange(0, 144).subrange(0, 144) =~= l.subrange(0, 144));
    lemma_chunk_144();
    lemma_value_split(l.subrange(0, 162), 144, 162);
    assert(l.subrange(0, 162).subrange(0, 144) =~= l.subrange(0, 144));
    assert(l.subrange(0, 162).subrange(144, 162) =~= l.subrange(144, 162));
    assert(l.subrange(0, 162).subrange(0, 162) =~= l.subrange(0, 162));
    lemma_chunk_162();
    lemma_value_split(l.subrange(0, 180), 162, 180);
    assert(l.subrange(0, 180).subrange(0, 162) =~= l.subrange(0, 162));
    assert(l.subrange(0, 180).subrange(162, 180) =~= l.subrange(162, 180));
    assert(l.subrange(0, 180).subrange(0, 180) =~= l.subrange(0, 180));
    lemma_chunk_180();
    lemma_value_split(l.subrange(0, 198), 180, 198);
    assert(l.subrange(0, 198).subrange(0, 180) =~= l.subrange(0, 180));
    assert(l.subrange(0, 198).subrange(180, 198) =~= l.subrange(180, 198));
    assert(l.subrange(0, 198).subrange(0, 198) =~= l.subrange(0, 198));
    lemma_chunk_198();
    lemma_value_split(l.subrange(0, 216), 198, 216);
    assert(l.subrange(0, 216).subrange(0, 198) =~= l.subrange(0, 198));
    assert(l.subrange(0, 216).subrange(198, 216) =~= l.subrange(198, 216));
    assert(l.subrange(0, 216).subrange(0, 216) =~= l.subrange(0, 216));
    lemma_chunk_216();
    lemma_value_split(l.subrange(0, 234), 216, 234);
    assert(l.subrange(0, 234).subrange(0, 216) =~= l.subrange(0, 216));
    assert(l.subrange(0, 234).subrange(216, 234) =~= l.subrange(216, 234));
    assert(l.subrange(0, 234).subrange(0, 234) =~= l.subrange(0, 234));
    lemma_chunk_234();
    lemma_value_split(l.subrange(0, 252), 234, 252);
    assert(l.subrange(0, 252).subrange(0, 234) =~= l.subrange(0, 234));
    assert(l.subrange(0, 252).subrange(234, 252) =~= l.subrange(234, 252));
    assert(l.subrange(0, 252).subrange(0, 252) =~= l.subrange(0, 252));
    lemma_chunk_252();
    lemma_value_split(l.subrange(0, 270), 252, 270);
    assert(l.subrange(0, 270).subrange(0, 252) =~= l.subrange(0, 252));
    assert(l.subrange(0, 270).subrange(252, 270) =~= l.subrange(252, 270));
    assert(l.subrange(0, 270).subrange(0, 270) =~= l.subrange(0, 270));
    lemma_chunk_270();
    lemma_value_split(l.subrange(0, 288), 270, 288);
    assert(l.subrange(0, 288).subrange(0, 270) =~= l.subrange(0, 270));
    assert(l.subrange(0, 288).subrange(270, 288) =~= l.subrange(270, 288));
    assert(l.subrange(0, 288).subrange(0, 288) =~= l.subrange(0, 288));
    lemma_chunk_288();
    lemma_value_split(l.subrange(0, 306), 288, 306);
    assert(l.subrange(0, 306).subrange(0, 288) =~= l.subrange(0, 288));
    assert(l.subrange(0, 306).subrange(288, 306) =~= l.subrange(288, 306));
    assert(l.subrange(0, 306).subrange(0, 306) =~= l.subrange(0, 306));
    lemma_chunk_306();
    lemma_value_split(l.subrange(0, 309), 306, 309);
    assert(l.subrange(0, 309).subrange(0, 306) =~= l.subrange(0, 306));
    assert(l.subrange(0, 309).subrange(306, 309) =~= l.subrange(306, 309));
    assert(l.subrange(0, 309).subrange(0, 309) =~= l.subrange(0, 309));
    assert(l.subrange(0, 309) =~= l);
}


/// The digit table of the limit writes 2^1024 - 2^970.
#[verifier::rlimit(100)]
pub proof fn lemma_limit_digits_value()
    ensures
        digits_value(limit_digits()) == f64_limit(),
{
    lemma_pow1(2);
    lemma_pow_adds(2, 1, 1);
    assert(pow(2, 2) == 4);
    lemma_pow_adds(2, 2, 2);
    assert(pow(2, 4) == 16);
    lemma_pow_adds(2, 4, 4);
    assert(pow(2, 8) == 256);
    lemma_pow_adds(2, 8, 8);
    assert(pow(2, 16) == 65536);
    lemma_pow_adds(2, 16, 16);
    assert(pow(2, 32) == 4294967296);
    lemma_pow_adds(2, 32, 32);
    assert(pow(2, 64) == 18446744073709551616);
    lemma_pow_adds(2, 64, 64);
    assert(pow(2, 128) == (18446744073709551616) * (18446744073709551616)) by (nonlinear_arith) requires pow(2, 64) == 18446744073709551616, pow(2, 128) == pow(2, 64) * pow(2, 64);
    lemma_pow_adds(2, 128, 128);
    assert(pow(2, 256) == ((18446744073709551616) * (18446744073709551616)) * ((18446744073709551616) * (18446744073709551616))) by (nonlinear_arith) requires pow(2, 128) == (18446744073709551616) * (18446744073709551616), pow(2, 256) == pow(2, 128) * pow(2, 128);
    lemma_pow_adds(2, 256, 256);
    assert(pow(2, 512) == (((18446744073709551616) * (18446744073709551616)) * ((18446744073709551616) * (18446744073709551616))) * (((18446744073709551616) * (18446744073709551616)) * ((18446744073709551616) * (18446744073709551616)))) by (nonlinear_arith) requires pow(2, 256) == ((18446744073709551616) * (18446744073709551616)) * ((18446744073709551616) * (18446744073709551616)), pow(2, 512) == pow(2, 256) * pow(2, 256);
    lemma_pow_adds(2, 512, 512);
    assert(pow(2, 1024) == ((((18446744073709551616) * (18446744073709551616)) * ((18446744073709551616) * (18446744073709551616))) * (((18446744073709551616) * (18446744073709551616)) * ((18446744073709551616) * (18446744073709551616)))) * ((((18446744073709551616) * (18446744073709551616)) * ((18446744073709551616) * (18446744073709551616))) * (((18446744073709551616) * (18446744073709551616)) * ((18446744073709551616) * (18446744073709551616))))) by (nonlinear_arith) requires pow(2, 512) == (((18446744073709551616) * (18446744073709551616)) * ((18446744073709551616) * (18446744073709551616))) * (((18446744073709551616) * (18446744073709551616)) * ((18446744073709551616) * (18446744073709551616))), pow(2, 1024) == pow(2, 512) * pow(2, 512);
    lemma_pow_adds(2, 512, 256);
    lemma_pow_adds(2, 768, 128);
    lemma_pow_adds(2, 896, 64);
    lemma_pow_adds(2, 960, 8);
    lemma_pow_adds(2, 968, 2);
    lemma_limit_value();
}

}
