use vstd::prelude::*;

use vstd::arithmetic::div_mod::lemma_fundamental_div_mod;
use vstd::arithmetic::div_mod::lemma_fundamental_div_mod_converse;
use vstd::arithmetic::div_mod::lemma_mod_division_less_than_divisor;
use vstd::arithmetic::div_mod::lemma_mod_multiples_vanish;

use crate::math::fixed::SCALE;

verus! {

/// Sine of `h` half-degrees for `0 <= h <= 180` (an angle between 0 and 90
/// degrees), in fixed-point steps, rounded to the nearest step.
pub open spec fn sin_table(h: int) -> int {
    if h == 0 {
        0
    } else if h == 1 {
        8726535
    } else if h == 2 {
        17452406
    } else if h == 3 {
        26176948
    } else if h == 4 {
        34899497
    } else if h == 5 {
        43619387
    } else if h == 6 {
        52335956
    } else if h == 7 {
        61048540
    } else if h == 8 {
        69756474
    } else if h == 9 {
        78459096
    } else if h == 10 {
        87155743
    } else if h == 11 {
        95845753
    } else if h == 12 {
        104528463
    } else if h == 13 {
        113203214
    } else if h == 14 {
        121869343
    } else if h == 15 {
        130526192
    } else if h == 16 {
        139173101
    } else if h == 17 {
        147809411
    } else if h == 18 {
        156434465
    } else if h == 19 {
        165047606
    } else if h == 20 {
        173648178
    } else if h == 21 {
        182235525
    } else if h == 22 {
        190808995
    } else if h == 23 {
        199367934
    } else if h == 24 {
        207911691
    } else if h == 25 {
        216439614
    } else if h == 26 {
        224951054
    } else if h == 27 {
        233445364
    } else if h == 28 {
        241921896
    } else if h == 29 {
        250380004
    } else if h == 30 {
        258819045
    } else if h == 31 {
        267238376
    } else if h == 32 {
        275637356
    } else if h == 33 {
        284015345
    } else if h == 34 {
        292371705
    } else if h == 35 {
        300705800
    } else if h == 36 {
        309016994
    } else if h == 37 {
        317304656
    } else if h == 38 {
        325568154
    } else if h == 39 {
        333806859
    } else if h == 40 {
        342020143
    } else if h == 41 {
        350207381
    } else if h == 42 {
        358367950
    } else if h == 43 {
        366501227
    } else if h == 44 {
        374606593
    } else if h == 45 {
        382683432
    } else if h == 46 {
        390731128
    } else if h == 47 {
        398749069
    } else if h == 48 {
        406736643
    } else if h == 49 {
        414693243
    } else if h == 50 {
        422618262
    } else if h == 51 {
        430511097
    } else if h == 52 {
        438371147
    } else if h == 53 {
        446197813
    } else if h == 54 {
        453990500
    } else if h == 55 {
        461748613
    } else if h == 56 {
        469471563
    } else if h == 57 {
        477158760
    } else if h == 58 {
        484809620
    } else if h == 59 {
        492423560
    } else if h == 60 {
        500000000
    } else if h == 61 {
        507538363
    } else if h == 62 {
        515038075
    } else if h == 63 {
        522498565
    } else if h == 64 {
        529919264
    } else if h == 65 {
        537299608
    } else if h == 66 {
        544639035
    } else if h == 67 {
        551936985
    } else if h == 68 {
        559192903
    } else if h == 69 {
        566406237
    } else if h == 70 {
        573576436
    } else if h == 71 {
        580702956
    } else if h == 72 {
        587785252
    } else if h == 73 {
        594822787
    } else if h == 74 {
        601815023
    } else if h == 75 {
        608761429
    } else if h == 76 {
        615661475
    } else if h == 77 {
        622514637
    } else if h == 78 {
        629320391
    } else if h == 79 {
        636078220
    } else if h == 80 {
        642787610
    } else if h == 81 {
        649448048
    } else if h == 82 {
        656059029
    } else if h == 83 {
        662620048
    } else if h == 84 {
        669130606
    } else if h == 85 {
        675590208
    } else if h == 86 {
        681998360
    } else if h == 87 {
        688354576
    } else if h == 88 {
        694658370
    } else if h == 89 {
        700909264
    } else if h == 90 {
        707106781
    } else if h == 91 {
        713250449
    } else if h == 92 {
        719339800
    } else if h == 93 {
        725374371
    } else if h == 94 {
        731353702
    } else if h == 95 {
        737277337
    } else if h == 96 {
        743144825
    } else if h == 97 {
        748955721
    } else if h == 98 {
        754709580
    } else if h == 99 {
        760405966
    } else if h == 100 {
        766044443
    } else if h == 101 {
        771624583
    } else if h == 102 {
        777145961
    } else if h == 103 {
        782608157
    } else if h == 104 {
        788010754
    } else if h == 105 {
        793353340
    } else if h == 106 {
        798635510
    } else if h == 107 {
        803856861
    } else if h == 108 {
        809016994
    } else if h == 109 {
        814115518
    } else if h == 110 {
        819152044
    } else if h == 111 {
        824126189
    } else if h == 112 {
        829037573
    } else if h == 113 {
        833885822
    } else if h == 114 {
        838670568
    } else if h == 115 {
        843391446
    } else if h == 116 {
        848048096
    } else if h == 117 {
        852640164
    } else if h == 118 {
        857167301
    } else if h == 119 {
        861629160
    } else if h == 120 {
        866025404
    } else if h == 121 {
        870355696
    } else if h == 122 {
        874619707
    } else if h == 123 {
        878817113
    } else if h == 124 {
        882947593
    } else if h == 125 {
        887010833
    } else if h == 126 {
        891006524
    } else if h == 127 {
        894934362
    } else if h == 128 {
        898794046
    } else if h == 129 {
        902585284
    } else if h == 130 {
        906307787
    } else if h == 131 {
        909961271
    } else if h == 132 {
        913545458
    } else if h == 133 {
        917060074
    } else if h == 134 {
        920504853
    } else if h == 135 {
        923879533
    } else if h == 136 {
        927183855
    } else if h == 137 {
        930417568
    } else if h == 138 {
        933580426
    } else if h == 139 {
        936672189
    } else if h == 140 {
        939692621
    } else if h == 141 {
        942641491
    } else if h == 142 {
        945518576
    } else if h == 143 {
        948323655
    } else if h == 144 {
        951056516
    } else if h == 145 {
        953716951
    } else if h == 146 {
        956304756
    } else if h == 147 {
        958819735
    } else if h == 148 {
        961261696
    } else if h == 149 {
        963630453
    } else if h == 150 {
        965925826
    } else if h == 151 {
        968147640
    } else if h == 152 {
        970295726
    } else if h == 153 {
        972369920
    } else if h == 154 {
        974370065
    } else if h == 155 {
        976296007
    } else if h == 156 {
        978147601
    } else if h == 157 {
        979924705
    } else if h == 158 {
        981627183
    } else if h == 159 {
        983254908
    } else if h == 160 {
        984807753
    } else if h == 161 {
        986285602
    } else if h == 162 {
        987688341
    } else if h == 163 {
        989015863
    } else if h == 164 {
        990268069
    } else if h == 165 {
        991444861
    } else if h == 166 {
        992546152
    } else if h == 167 {
        993571856
    } else if h == 168 {
        994521895
    } else if h == 169 {
        995396198
    } else if h == 170 {
        996194698
    } else if h == 171 {
        996917334
    } else if h == 172 {
        997564050
    } else if h == 173 {
        998134798
    } else if h == 174 {
        998629535
    } else if h == 175 {
        999048222
    } else if h == 176 {
        999390827
    } else if h == 177 {
        999657325
    } else if h == 178 {
        999847695
    } else if h == 179 {
        999961923
    } else {
        1000000000
    }
}

/// Table lookup matching `sin_table`.
fn sin_table_lookup(h: i64) -> (r: i64)
    requires
        0 <= h <= 180,
    ensures
        r as int == sin_table(h as int),
{
    if h == 0 {
        0
    } else if h == 1 {
        8726535
    } else if h == 2 {
        17452406
    } else if h == 3 {
        26176948
    } else if h == 4 {
        34899497
    } else if h == 5 {
        43619387
    } else if h == 6 {
        52335956
    } else if h == 7 {
        61048540
    } else if h == 8 {
        69756474
    } else if h == 9 {
        78459096
    } else if h == 10 {
        87155743
    } else if h == 11 {
        95845753
    } else if h == 12 {
        104528463
    } else if h == 13 {
        113203214
    } else if h == 14 {
        121869343
    } else if h == 15 {
        130526192
    } else if h == 16 {
        139173101
    } else if h == 17 {
        147809411
    } else if h == 18 {
        156434465
    } else if h == 19 {
        165047606
    } else if h == 20 {
        173648178
    } else if h == 21 {
        182235525
    } else if h == 22 {
        190808995
    } else if h == 23 {
        199367934
    } else if h == 24 {
        207911691
    } else if h == 25 {
        216439614
    } else if h == 26 {
        224951054
    } else if h == 27 {
        233445364
    } else if h == 28 {
        241921896
    } else if h == 29 {
        250380004
    } else if h == 30 {
        258819045
    } else if h == 31 {
        267238376
    } else if h == 32 {
        275637356
    } else if h == 33 {
        284015345
    } else if h == 34 {
        292371705
    } else if h == 35 {
        300705800
    } else if h == 36 {
        309016994
    } else if h == 37 {
        317304656
    } else if h == 38 {
        325568154
    } else if h == 39 {
        333806859
    } else if h == 40 {
        342020143
    } else if h == 41 {
        350207381
    } else if h == 42 {
        358367950
    } else if h == 43 {
        366501227
    } else if h == 44 {
        374606593
    } else if h == 45 {
        382683432
    } else if h == 46 {
        390731128
    } else if h == 47 {
        398749069
    } else if h == 48 {
        406736643
    } else if h == 49 {
        414693243
    } else if h == 50 {
        422618262
    } else if h == 51 {
        430511097
    } else if h == 52 {
        438371147
    } else if h == 53 {
        446197813
    } else if h == 54 {
        453990500
    } else if h == 55 {
        461748613
    } else if h == 56 {
        469471563
    } else if h == 57 {
        477158760
    } else if h == 58 {
        484809620
    } else if h == 59 {
        492423560
    } else if h == 60 {
        500000000
    } else if h == 61 {
        507538363
    } else if h == 62 {
        515038075
    } else if h == 63 {
        522498565
    } else if h == 64 {
        529919264
    } else if h == 65 {
        537299608
    } else if h == 66 {
        544639035
    } else if h == 67 {
        551936985
    } else if h == 68 {
        559192903
    } else if h == 69 {
        566406237
    } else if h == 70 {
        573576436
    } else if h == 71 {
        580702956
    } else if h == 72 {
        587785252
    } else if h == 73 {
        594822787
    } else if h == 74 {
        601815023
    } else if h == 75 {
        608761429
    } else if h == 76 {
        615661475
    } else if h == 77 {
        622514637
    } else if h == 78 {
        629320391
    } else if h == 79 {
        636078220
    } else if h == 80 {
        642787610
    } else if h == 81 {
        649448048
    } else if h == 82 {
        656059029
    } else if h == 83 {
        662620048
    } else if h == 84 {
        669130606
    } else if h == 85 {
        675590208
    } else if h == 86 {
        681998360
    } else if h == 87 {
        688354576
    } else if h == 88 {
        694658370
    } else if h == 89 {
        700909264
    } else if h == 90 {
        707106781
    } else if h == 91 {
        713250449
    } else if h == 92 {
        719339800
    } else if h == 93 {
        725374371
    } else if h == 94 {
        731353702
    } else if h == 95 {
        737277337
    } else if h == 96 {
        743144825
    } else if h == 97 {
        748955721
    } else if h == 98 {
        754709580
    } else if h == 99 {
        760405966
    } else if h == 100 {
        766044443
    } else if h == 101 {
        771624583
    } else if h == 102 {
        777145961
    } else if h == 103 {
        782608157
    } else if h == 104 {
        788010754
    } else if h == 105 {
        793353340
    } else if h == 106 {
        798635510
    } else if h == 107 {
        803856861
    } else if h == 108 {
        809016994
    } else if h == 109 {
        814115518
    } else if h == 110 {
        819152044
    } else if h == 111 {
        824126189
    } else if h == 112 {
        829037573
    } else if h == 113 {
        833885822
    } else if h == 114 {
        838670568
    } else if h == 115 {
        843391446
    } else if h == 116 {
        848048096
    } else if h == 117 {
        852640164
    } else if h == 118 {
        857167301
    } else if h == 119 {
        861629160
    } else if h == 120 {
        866025404
    } else if h == 121 {
        870355696
    } else if h == 122 {
        874619707
    } else if h == 123 {
        878817113
    } else if h == 124 {
        882947593
    } else if h == 125 {
        887010833
    } else if h == 126 {
        891006524
    } else if h == 127 {
        894934362
    } else if h == 128 {
        898794046
    } else if h == 129 {
        902585284
    } else if h == 130 {
        906307787
    } else if h == 131 {
        909961271
    } else if h == 132 {
        913545458
    } else if h == 133 {
        917060074
    } else if h == 134 {
        920504853
    } else if h == 135 {
        923879533
    } else if h == 136 {
        927183855
    } else if h == 137 {
        930417568
    } else if h == 138 {
        933580426
    } else if h == 139 {
        936672189
    } else if h == 140 {
        939692621
    } else if h == 141 {
        942641491
    } else if h == 142 {
        945518576
    } else if h == 143 {
        948323655
    } else if h == 144 {
        951056516
    } else if h == 145 {
        953716951
    } else if h == 146 {
        956304756
    } else if h == 147 {
        958819735
    } else if h == 148 {
        961261696
    } else if h == 149 {
        963630453
    } else if h == 150 {
        965925826
    } else if h == 151 {
        968147640
    } else if h == 152 {
        970295726
    } else if h == 153 {
        972369920
    } else if h == 154 {
        974370065
    } else if h == 155 {
        976296007
    } else if h == 156 {
        978147601
    } else if h == 157 {
        979924705
    } else if h == 158 {
        981627183
    } else if h == 159 {
        983254908
    } else if h == 160 {
        984807753
    } else if h == 161 {
        986285602
    } else if h == 162 {
        987688341
    } else if h == 163 {
        989015863
    } else if h == 164 {
        990268069
    } else if h == 165 {
        991444861
    } else if h == 166 {
        992546152
    } else if h == 167 {
        993571856
    } else if h == 168 {
        994521895
    } else if h == 169 {
        995396198
    } else if h == 170 {
        996194698
    } else if h == 171 {
        996917334
    } else if h == 172 {
        997564050
    } else if h == 173 {
        998134798
    } else if h == 174 {
        998629535
    } else if h == 175 {
        999048222
    } else if h == 176 {
        999390827
    } else if h == 177 {
        999657325
    } else if h == 178 {
        999847695
    } else if h == 179 {
        999961923
    } else {
        1000000000
    }
}

/// Sine of `h` half-degrees, any `h`, by symmetry over the quadrants.
pub open spec fn sin_half(h: int) -> int {
    let m = h % 720;
    if m <= 180 {
        sin_table(m)
    } else if m <= 360 {
        sin_table(360 - m)
    } else if m <= 540 {
        -sin_table(m - 360)
    } else {
        -sin_table(720 - m)
    }
}

/// Cosine of `h` half-degrees: the sine a quarter turn further.
pub open spec fn cos_half(h: int) -> int {
    sin_half(h + 180)
}

/// Sine of `d` whole degrees.
pub open spec fn sin_deg(d: int) -> int {
    sin_half(2 * d)
}

/// Cosine of `d` whole degrees.
pub open spec fn cos_deg(d: int) -> int {
    cos_half(2 * d)
}

/// Euclidean remainder of `h` modulo 720 (one full turn in half-degrees).
fn mod720(h: i64) -> (r: i64)
    ensures
        r as int == (h as int) % 720,
        0 <= r < 720,
{
    let t = h % 720;
    proof {
        if h >= 0 {
            lemma_mod_division_less_than_divisor(h as int, 720);
        } else {
            let n = -(h as int);
            lemma_fundamental_div_mod(n, 720);
            lemma_mod_division_less_than_divisor(n, 720);
            let q = n / 720;
            let rr = n % 720;
            if rr == 0 {
                lemma_fundamental_div_mod_converse(h as int, 720, -q, 0);
            } else {
                assert(h as int == (-q - 1) * 720 + (720 - rr)) by (nonlinear_arith)
                    requires
                        n == 720 * q + rr,
                        n == -(h as int),
                ;
                lemma_fundamental_div_mod_converse(h as int, 720, -q - 1, 720 - rr);
            }
        }
    }
    if t < 0 {
        t + 720
    } else {
        t
    }
}

/// Sine of `h` half-degrees.
pub fn sin_half_deg(h: i64) -> (r: i64)
    ensures
        r as int == sin_half(h as int),
{
    let m = mod720(h);
    if m <= 180 {
        sin_table_lookup(m)
    } else if m <= 360 {
        sin_table_lookup(360 - m)
    } else if m <= 540 {
        -sin_table_lookup(m - 360)
    } else {
        -sin_table_lookup(720 - m)
    }
}

/// How the cosine reduces over the remainder `m` of `h` modulo 720.
pub proof fn lemma_cos_half_form(h: int)
    ensures
        0 <= h % 720 < 720,
        h % 720 <= 180 ==> cos_half(h) == sin_table(180 - h % 720),
        180 < h % 720 <= 360 ==> cos_half(h) == -sin_table(h % 720 - 180),
        360 < h % 720 < 540 ==> cos_half(h) == -sin_table(540 - h % 720),
        540 <= h % 720 < 720 ==> cos_half(h) == sin_table(h % 720 - 540),
{
    lemma_mod_division_less_than_divisor(h, 720);
    let m = h % 720;
    lemma_fundamental_div_mod(h, 720);
    let q = h / 720;
    assert(h + 180 == 720 * q + (m + 180));
    lemma_mod_multiples_vanish(q, m + 180, 720);
    assert((h + 180) % 720 == (m + 180) % 720);
    if m < 540 {
        lemma_fundamental_div_mod_converse(m + 180, 720, 0, m + 180);
    } else {
        assert(m + 180 == 1 * 720 + (m - 540));
        lemma_fundamental_div_mod_converse(m + 180, 720, 1, m - 540);
    }
}

/// Cosine of `h` half-degrees.
pub fn cos_half_deg(h: i64) -> (r: i64)
    ensures
        r as int == cos_half(h as int),
{
    proof {
        lemma_cos_half_form(h as int);
    }
    let m = mod720(h);
    if m <= 180 {
        sin_table_lookup(180 - m)
    } else if m <= 360 {
        -sin_table_lookup(m - 180)
    } else if m < 540 {
        -sin_table_lookup(540 - m)
    } else {
        sin_table_lookup(m - 540)
    }
}

/// Sine of `d` whole degrees.
pub fn sin_of_deg(d: i32) -> (r: i64)
    ensures
        r as int == sin_deg(d as int),
{
    sin_half_deg(2 * (d as i64))
}

/// Cosine of `d` whole degrees.
pub fn cos_of_deg(d: i32) -> (r: i64)
    ensures
        r as int == cos_deg(d as int),
{
    cos_half_deg(2 * (d as i64))
}

/// Every table entry lies between 0 and one unit.
pub proof fn lemma_sin_table_range(h: int)
    requires
        0 <= h <= 180,
    ensures
        0 <= sin_table(h) <= SCALE,
{
}

/// The sine of any angle lies within one unit in magnitude.
pub proof fn lemma_sin_half_range(h: int)
    ensures
        -SCALE <= sin_half(h) <= SCALE,
{
    lemma_mod_division_less_than_divisor(h, 720);
    let m = h % 720;
    if m <= 180 {
        lemma_sin_table_range(m);
    } else if m <= 360 {
        lemma_sin_table_range(360 - m);
    } else if m <= 540 {
        lemma_sin_table_range(m - 360);
    } else {
        lemma_sin_table_range(720 - m);
    }
}

/// The cosine of any angle lies within one unit in magnitude.
pub proof fn lemma_cos_half_range(h: int)
    ensures
        -SCALE <= cos_half(h) <= SCALE,
{
    lemma_sin_half_range(h + 180);
}

/// Away from the zero crossings the table is bounded away from zero: the
/// sine of at least half a degree is at least its first entry.
pub proof fn lemma_sin_table_pos(h: int)
    requires
        1 <= h <= 179,
    ensures
        8726535 <= sin_table(h),
{
}

/// For angles strictly inside the first half turn the sine is positive.
pub proof fn lemma_sin_half_pos(h: int)
    requires
        1 <= h <= 179,
    ensures
        8726535 <= sin_half(h),
{
    vstd::arithmetic::div_mod::lemma_small_mod(h as nat, 720);
    lemma_sin_table_pos(h);
}

/// Squared norm of each table pair: within two steps-per-unit of one.
#[verifier::spinoff_prover]
#[verifier::rlimit(100)]
pub proof fn lemma_sin_table_norm(h: int)
    requires
        0 <= h <= 180,
    ensures
        999999998000000000 <= sin_table(h) * sin_table(h) + sin_table(180 - h) * sin_table(
            180 - h,
        ) <= 1000000002000000000,
{
    if h == 0 {
        let a = sin_table(0);
        let b = sin_table(180);
        assert(a * a + b * b == 1000000000000000000) by (nonlinear_arith)
            requires
                a == 0,
                b == 1000000000,
        ;
    } else if h == 1 {
        let a = sin_table(1);
        let b = sin_table(179);
        assert(a * a + b * b == 999999999862964154) by (nonlinear_arith)
            requires
                a == 8726535,
                b == 999961923,
        ;
    } else if h == 2 {
        let a = sin_table(2);
        let b = sin_table(178);
        assert(a * a + b * b == 999999999672001861) by (nonlinear_arith)
            requires
                a == 17452406,
                b == 999847695,
        ;
    } else if h == 3 {
        let a = sin_table(3);
        let b = sin_table(177);
        assert(a * a + b * b == 1000000000032750329) by (nonlinear_arith)
            requires
                a == 26176948,
                b == 999657325,
        ;
    } else if h == 4 {
        let a = sin_table(4);
        let b = sin_table(176);
        assert(a * a + b * b == 999999999982596938) by (nonlinear_arith)
            requires
                a == 34899497,
                b == 999390827,
        ;
    } else if h == 5 {
        let a = sin_table(5);
        let b = sin_table(175);
        assert(a * a + b * b == 1000000000803617053) by (nonlinear_arith)
            requires
                a == 43619387,
                b == 999048222,
        ;
    } else if h == 6 {
        let a = sin_table(6);
        let b = sin_table(174);
        assert(a * a + b * b == 1000000000464750161) by (nonlinear_arith)
            requires
                a == 52335956,
                b == 998629535,
        ;
    } else if h == 7 {
        let a = sin_table(7);
        let b = sin_table(173);
        assert(a * a + b * b == 999999999214632404) by (nonlinear_arith)
            requires
                a == 61048540,
                b == 998134798,
        ;
    } else if h == 8 {
        let a = sin_table(8);
        let b = sin_table(172);
        assert(a * a + b * b == 999999999517315176) by (nonlinear_arith)
            requires
                a == 69756474,
                b == 997564050,
        ;
    } else if h == 9 {
        let a = sin_table(9);
        let b = sin_table(171);
        assert(a * a + b * b == 1000000000574804772) by (nonlinear_arith)
            requires
                a == 78459096,
                b == 996917334,
        ;
    } else if h == 10 {
        let a = sin_table(10);
        let b = sin_table(170);
        assert(a * a + b * b == 999999999861193253) by (nonlinear_arith)
            requires
                a == 87155743,
                b == 996194698,
        ;
    } else if h == 11 {
        let a = sin_table(11);
        let b = sin_table(169);
        assert(a * a + b * b == 999999999360992213) by (nonlinear_arith)
            requires
                a == 95845753,
                b == 995396198,
        ;
    } else if h == 12 {
        let a = sin_table(12);
        let b = sin_table(168);
        assert(a * a + b * b == 999999999211533394) by (nonlinear_arith)
            requires
                a == 104528463,
                b == 994521895,
        ;
    } else if h == 13 {
        let a = sin_table(13);
        let b = sin_table(167);
        assert(a * a + b * b == 1000000000695214532) by (nonlinear_arith)
            requires
                a == 113203214,
                b == 993571856,
        ;
    } else if h == 14 {
        let a = sin_table(14);
        let b = sin_table(166);
        assert(a * a + b * b == 1000000000613258753) by (nonlinear_arith)
            requires
                a == 121869343,
                b == 992546152,
        ;
    } else if h == 15 {
        let a = sin_table(15);
        let b = sin_table(165);
        assert(a * a + b * b == 999999999201330185) by (nonlinear_arith)
            requires
                a == 130526192,
                b == 991444861,
        ;
    } else if h == 16 {
        let a = sin_table(16);
        let b = sin_table(164);
        assert(a * a + b * b == 1000000000522944962) by (nonlinear_arith)
            requires
                a == 139173101,
                b == 990268069,
        ;
    } else if h == 17 {
        let a = sin_table(17);
        let b = sin_table(163);
        assert(a * a + b * b == 999999999245801690) by (nonlinear_arith)
            requires
                a == 147809411,
                b == 989015863,
        ;
    } else if h == 18 {
        let a = sin_table(18);
        let b = sin_table(162);
        assert(a * a + b * b == 1000000000787168506) by (nonlinear_arith)
            requires
                a == 156434465,
                b == 987688341,
        ;
    } else if h == 19 {
        let a = sin_table(19);
        let b = sin_table(161);
        assert(a * a + b * b == 1000000000958833640) by (nonlinear_arith)
            requires
                a == 165047606,
                b == 986285602,
        ;
    } else if h == 20 {
        let a = sin_table(20);
        let b = sin_table(160);
        assert(a * a + b * b == 1000000000091628693) by (nonlinear_arith)
            requires
                a == 173648178,
                b == 984807753,
        ;
    } else if h == 21 {
        let a = sin_table(21);
        let b = sin_table(159);
        assert(a * a + b * b == 1000000000678114089) by (nonlinear_arith)
            requires
                a == 182235525,
                b == 983254908,
        ;
    } else if h == 22 {
        let a = sin_table(22);
        let b = sin_table(158);
        assert(a * a + b * b == 999999998977425514) by (nonlinear_arith)
            requires
                a == 190808995,
                b == 981627183,
        ;
    } else if h == 23 {
        let a = sin_table(23);
        let b = sin_table(157);
        assert(a * a + b * b == 1000000000576765381) by (nonlinear_arith)
            requires
                a == 199367934,
                b == 979924705,
        ;
    } else if h == 24 {
        let a = sin_table(24);
        let b = sin_table(156);
        assert(a * a + b * b == 1000000000596534682) by (nonlinear_arith)
            requires
                a == 207911691,
                b == 978147601,
        ;
    } else if h == 25 {
        let a = sin_table(25);
        let b = sin_table(155);
        assert(a * a + b * b == 999999999792613045) by (nonlinear_arith)
            requires
                a == 216439614,
                b == 976296007,
        ;
    } else if h == 26 {
        let a = sin_table(26);
        let b = sin_table(154);
        assert(a * a + b * b == 1000000000263815141) by (nonlinear_arith)
            requires
                a == 224951054,
                b == 974370065,
        ;
    } else if h == 27 {
        let a = sin_table(27);
        let b = sin_table(153);
        assert(a * a + b * b == 999999999293898896) by (nonlinear_arith)
            requires
                a == 233445364,
                b == 972369920,
        ;
    } else if h == 28 {
        let a = sin_table(28);
        let b = sin_table(152);
        assert(a * a + b * b == 999999999658101892) by (nonlinear_arith)
            requires
                a == 241921896,
                b == 970295726,
        ;
    } else if h == 29 {
        let a = sin_table(29);
        let b = sin_table(151);
        assert(a * a + b * b == 999999999240609616) by (nonlinear_arith)
            requires
                a == 250380004,
                b == 968147640,
        ;
    } else if h == 30 {
        let a = sin_table(30);
        let b = sin_table(150);
        assert(a * a + b * b == 999999999388494301) by (nonlinear_arith)
            requires
                a == 258819045,
                b == 965925826,
        ;
    } else if h == 31 {
        let a = sin_table(31);
        let b = sin_table(149);
        assert(a * a + b * b == 999999999556102585) by (nonlinear_arith)
            requires
                a == 267238376,
                b == 963630453,
        ;
    } else if h == 32 {
        let a = sin_table(32);
        let b = sin_table(148);
        assert(a * a + b * b == 1000000000219467152) by (nonlinear_arith)
            requires
                a == 275637356,
                b == 961261696,
        ;
    } else if h == 33 {
        let a = sin_table(33);
        let b = sin_table(147);
        assert(a * a + b * b == 1000000000420939250) by (nonlinear_arith)
            requires
                a == 284015345,
                b == 958819735,
        ;
    } else if h == 34 {
        let a = sin_table(34);
        let b = sin_table(146);
        assert(a * a + b * b == 1000000000232826561) by (nonlinear_arith)
            requires
                a == 292371705,
                b == 956304756,
        ;
    } else if h == 35 {
        let a = sin_table(35);
        let b = sin_table(145);
        assert(a * a + b * b == 1000000000778376401) by (nonlinear_arith)
            requires
                a == 300705800,
                b == 953716951,
        ;
    } else if h == 36 {
        let a = sin_table(36);
        let b = sin_table(144);
        assert(a * a + b * b == 999999999206854292) by (nonlinear_arith)
            requires
                a == 309016994,
                b == 951056516,
        ;
    } else if h == 37 {
        let a = sin_table(37);
        let b = sin_table(143);
        assert(a * a + b * b == 999999999351837361) by (nonlinear_arith)
            requires
                a == 317304656,
                b == 948323655,
        ;
    } else if h == 38 {
        let a = sin_table(38);
        let b = sin_table(142);
        assert(a * a + b * b == 1000000000460035492) by (nonlinear_arith)
            requires
                a == 325568154,
                b == 945518576,
        ;
    } else if h == 39 {
        let a = sin_table(39);
        let b = sin_table(141);
        assert(a * a + b * b == 999999999670148962) by (nonlinear_arith)
            requires
                a == 333806859,
                b == 942641491,
        ;
    } else if h == 40 {
        let a = sin_table(40);
        let b = sin_table(140);
        assert(a * a + b * b == 1000000000179590090) by (nonlinear_arith)
            requires
                a == 342020143,
                b == 939692621,
        ;
    } else if h == 41 {
        let a = sin_table(41);
        let b = sin_table(139);
        assert(a * a + b * b == 999999999352930882) by (nonlinear_arith)
            requires
                a == 350207381,
                b == 936672189,
        ;
    } else if h == 42 {
        let a = sin_table(42);
        let b = sin_table(138);
        assert(a * a + b * b == 999999999397543976) by (nonlinear_arith)
            requires
                a == 358367950,
                b == 933580426,
        ;
    } else if h == 43 {
        let a = sin_table(43);
        let b = sin_table(137);
        assert(a * a + b * b == 1000000000235540153) by (nonlinear_arith)
            requires
                a == 366501227,
                b == 930417568,
        ;
    } else if h == 44 {
        let a = sin_table(44);
        let b = sin_table(136);
        assert(a * a + b * b == 1000000000491728674) by (nonlinear_arith)
            requires
                a == 374606593,
                b == 927183855,
        ;
    } else if h == 45 {
        let a = sin_table(45);
        let b = sin_table(135);
        assert(a * a + b * b == 1000000000623596713) by (nonlinear_arith)
            requires
                a == 382683432,
                b == 923879533,
        ;
    } else if h == 46 {
        let a = sin_table(46);
        let b = sin_table(134);
        assert(a * a + b * b == 999999998784703993) by (nonlinear_arith)
            requires
                a == 390731128,
                b == 920504853,
        ;
    } else if h == 47 {
        let a = sin_table(47);
        let b = sin_table(133);
        assert(a * a + b * b == 999999999353252237) by (nonlinear_arith)
            requires
                a == 398749069,
                b == 917060074,
        ;
    } else if h == 48 {
        let a = sin_table(48);
        let b = sin_table(132);
        assert(a * a + b * b == 1000000000591339213) by (nonlinear_arith)
            requires
                a == 406736643,
                b == 913545458,
        ;
    } else if h == 49 {
        let a = sin_table(49);
        let b = sin_table(131);
        assert(a * a + b * b == 1000000000509792490) by (nonlinear_arith)
            requires
                a == 414693243,
                b == 909961271,
        ;
    } else if h == 50 {
        let a = sin_table(50);
        let b = sin_table(130);
        assert(a * a + b * b == 1000000000152738013) by (nonlinear_arith)
            requires
                a == 422618262,
                b == 906307787,
        ;
    } else if h == 51 {
        let a = sin_table(51);
        let b = sin_table(129);
        assert(a * a + b * b == 999999999533504065) by (nonlinear_arith)
            requires
                a == 430511097,
                b == 902585284,
        ;
    } else if h == 52 {
        let a = sin_table(52);
        let b = sin_table(128);
        assert(a * a + b * b == 999999999647145725) by (nonlinear_arith)
            requires
                a == 438371147,
                b == 898794046,
        ;
    } else if h == 53 {
        let a = sin_table(53);
        let b = sin_table(127);
        assert(a * a + b * b == 1000000000614330013) by (nonlinear_arith)
            requires
                a == 446197813,
                b == 894934362,
        ;
    } else if h == 54 {
        let a = sin_table(54);
        let b = sin_table(126);
        assert(a * a + b * b == 999999999900812576) by (nonlinear_arith)
            requires
                a == 453990500,
                b == 891006524,
        ;
    } else if h == 55 {
        let a = sin_table(55);
        let b = sin_table(125);
        assert(a * a + b * b == 999999999466777658) by (nonlinear_arith)
            requires
                a == 461748613,
                b == 887010833,
        ;
    } else if h == 56 {
        let a = sin_table(56);
        let b = sin_table(124);
        assert(a * a + b * b == 1000000000450156618) by (nonlinear_arith)
            requires
                a == 469471563,
                b == 882947593,
        ;
    } else if h == 57 {
        let a = sin_table(57);
        let b = sin_table(123);
        assert(a * a + b * b == 1000000000346392369) by (nonlinear_arith)
            requires
                a == 477158760,
                b == 878817113,
        ;
    } else if h == 58 {
        let a = sin_table(58);
        let b = sin_table(122);
        assert(a * a + b * b == 999999999517310249) by (nonlinear_arith)
            requires
                a == 484809620,
                b == 874619707,
        ;
    } else if h == 59 {
        let a = sin_table(59);
        let b = sin_table(121);
        assert(a * a + b * b == 1000000000002718016) by (nonlinear_arith)
            requires
                a == 492423560,
                b == 870355696,
        ;
    } else if h == 60 {
        let a = sin_table(60);
        let b = sin_table(120);
        assert(a * a + b * b == 1000000000373363216) by (nonlinear_arith)
            requires
                a == 500000000,
                b == 866025404,
        ;
    } else if h == 61 {
        let a = sin_table(61);
        let b = sin_table(119);
        assert(a * a + b * b == 999999999279025369) by (nonlinear_arith)
            requires
                a == 507538363,
                b == 861629160,
        ;
    } else if h == 62 {
        let a = sin_table(62);
        let b = sin_table(118);
        assert(a * a + b * b == 1000000000603330226) by (nonlinear_arith)
            requires
                a == 515038075,
                b == 857167301,
        ;
    } else if h == 63 {
        let a = sin_table(63);
        let b = sin_table(117);
        assert(a * a + b * b == 999999999693006121) by (nonlinear_arith)
            requires
                a == 522498565,
                b == 852640164,
        ;
    } else if h == 64 {
        let a = sin_table(64);
        let b = sin_table(116);
        assert(a * a + b * b == 999999999487526912) by (nonlinear_arith)
            requires
                a == 529919264,
                b == 848048096,
        ;
    } else if h == 65 {
        let a = sin_table(65);
        let b = sin_table(115);
        assert(a * a + b * b == 999999999942924580) by (nonlinear_arith)
            requires
                a == 537299608,
                b == 843391446,
        ;
    } else if h == 66 {
        let a = sin_table(66);
        let b = sin_table(114);
        assert(a * a + b * b == 1000000000075173849) by (nonlinear_arith)
            requires
                a == 544639035,
                b == 838670568,
        ;
    } else if h == 67 {
        let a = sin_table(67);
        let b = sin_table(113);
        assert(a * a + b * b == 999999999543505909) by (nonlinear_arith)
            requires
                a == 551936985,
                b == 833885822,
        ;
    } else if h == 68 {
        let a = sin_table(68);
        let b = sin_table(112);
        assert(a * a + b * b == 1000000000211297738) by (nonlinear_arith)
            requires
                a == 559192903,
                b == 829037573,
        ;
    } else if h == 69 {
        let a = sin_table(69);
        let b = sin_table(111);
        assert(a * a + b * b == 1000000000708163890) by (nonlinear_arith)
            requires
                a == 566406237,
                b == 824126189,
        ;
    } else if h == 70 {
        let a = sin_table(70);
        let b = sin_table(110);
        assert(a * a + b * b == 999999999123840032) by (nonlinear_arith)
            requires
                a == 573576436,
                b == 819152044,
        ;
    } else if h == 71 {
        let a = sin_table(71);
        let b = sin_table(109);
        assert(a * a + b * b == 999999999755546260) by (nonlinear_arith)
            requires
                a == 580702956,
                b == 814115518,
        ;
    } else if h == 72 {
        let a = sin_table(72);
        let b = sin_table(108);
        assert(a * a + b * b == 999999999049499540) by (nonlinear_arith)
            requires
                a == 587785252,
                b == 809016994,
        ;
    } else if h == 73 {
        let a = sin_table(73);
        let b = sin_table(107);
        assert(a * a + b * b == 1000000000911220690) by (nonlinear_arith)
            requires
                a == 594822787,
                b == 803856861,
        ;
    } else if h == 74 {
        let a = sin_table(74);
        let b = sin_table(106);
        assert(a * a + b * b == 999999999741450629) by (nonlinear_arith)
            requires
                a == 601815023,
                b == 798635510,
        ;
    } else if h == 75 {
        let a = sin_table(75);
        let b = sin_table(105);
        assert(a * a + b * b == 999999999527277641) by (nonlinear_arith)
            requires
                a == 608761429,
                b == 793353340,
        ;
    } else if h == 76 {
        let a = sin_table(76);
        let b = sin_table(104);
        assert(a * a + b * b == 1000000000218824141) by (nonlinear_arith)
            requires
                a == 615661475,
                b == 788010754,
        ;
    } else if h == 77 {
        let a = sin_table(77);
        let b = sin_table(103);
        assert(a * a + b * b == 1000000000682178418) by (nonlinear_arith)
            requires
                a == 622514637,
                b == 782608157,
        ;
    } else if h == 78 {
        let a = sin_table(78);
        let b = sin_table(102);
        assert(a * a + b * b == 999999999227006402) by (nonlinear_arith)
            requires
                a == 629320391,
                b == 777145961,
        ;
    } else if h == 79 {
        let a = sin_table(79);
        let b = sin_table(101);
        assert(a * a + b * b == 999999999048292289) by (nonlinear_arith)
            requires
                a == 636078220,
                b == 771624583,
        ;
    } else if h == 80 {
        let a = sin_table(80);
        let b = sin_table(100);
        assert(a * a + b * b == 1000000000220692349) by (nonlinear_arith)
            requires
                a == 642787610,
                b == 766044443,
        ;
    } else if h == 81 {
        let a = sin_table(81);
        let b = sin_table(99);
        assert(a * a + b * b == 1000000000179403460) by (nonlinear_arith)
            requires
                a == 649448048,
                b == 760405966,
        ;
    } else if h == 82 {
        let a = sin_table(82);
        let b = sin_table(98);
        assert(a * a + b * b == 999999999676199241) by (nonlinear_arith)
            requires
                a == 656059029,
                b == 754709580,
        ;
    } else if h == 83 {
        let a = sin_table(83);
        let b = sin_table(97);
        assert(a * a + b * b == 1000000000030152145) by (nonlinear_arith)
            requires
                a == 662620048,
                b == 748955721,
        ;
    } else if h == 84 {
        let a = sin_table(84);
        let b = sin_table(96);
        assert(a * a + b * b == 999999998810207861) by (nonlinear_arith)
            requires
                a == 669130606,
                b == 743144825,
        ;
    } else if h == 85 {
        let a = sin_table(85);
        let b = sin_table(95);
        assert(a * a + b * b == 1000000000799294833) by (nonlinear_arith)
            requires
                a == 675590208,
                b == 737277337,
        ;
    } else if h == 86 {
        let a = sin_table(86);
        let b = sin_table(94);
        assert(a * a + b * b == 1000000000471794404) by (nonlinear_arith)
            requires
                a == 681998360,
                b == 731353702,
        ;
    } else if h == 87 {
        let a = sin_table(87);
        let b = sin_table(93);
        assert(a * a + b * b == 1000000000403785417) by (nonlinear_arith)
            requires
                a == 688354576,
                b == 725374371,
        ;
    } else if h == 88 {
        let a = sin_table(88);
        let b = sin_table(92);
        assert(a * a + b * b == 999999998875096900) by (nonlinear_arith)
            requires
                a == 694658370,
                b == 719339800,
        ;
    } else if h == 89 {
        let a = sin_table(89);
        let b = sin_table(91);
        assert(a * a + b * b == 999999999359723297) by (nonlinear_arith)
            requires
                a == 700909264,
                b == 713250449,
        ;
    } else if h == 90 {
        let a = sin_table(90);
        let b = sin_table(90);
        assert(a * a + b * b == 999999999472363922) by (nonlinear_arith)
            requires
                a == 707106781,
                b == 707106781,
        ;
    } else if h == 91 {
        let a = sin_table(91);
        let b = sin_table(89);
        assert(a * a + b * b == 999999999359723297) by (nonlinear_arith)
            requires
                a == 713250449,
                b == 700909264,
        ;
    } else if h == 92 {
        let a = sin_table(92);
        let b = sin_table(88);
        assert(a * a + b * b == 999999998875096900) by (nonlinear_arith)
            requires
                a == 719339800,
                b == 694658370,
        ;
    } else if h == 93 {
        let a = sin_table(93);
        let b = sin_table(87);
        assert(a * a + b * b == 1000000000403785417) by (nonlinear_arith)
            requires
                a == 725374371,
                b == 688354576,
        ;
    } else if h == 94 {
        let a = sin_table(94);
        let b = sin_table(86);
        assert(a * a + b * b == 1000000000471794404) by (nonlinear_arith)
            requires
                a == 731353702,
                b == 681998360,
        ;
    } else if h == 95 {
        let a = sin_table(95);
        let b = sin_table(85);
        assert(a * a + b * b == 1000000000799294833) by (nonlinear_arith)
            requires
                a == 737277337,
                b == 675590208,
        ;
    } else if h == 96 {
        let a = sin_table(96);
        let b = sin_table(84);
        assert(a * a + b * b == 999999998810207861) by (nonlinear_arith)
            requires
                a == 743144825,
                b == 669130606,
        ;
    } else if h == 97 {
        let a = sin_table(97);
        let b = sin_table(83);
        assert(a * a + b * b == 1000000000030152145) by (nonlinear_arith)
            requires
                a == 748955721,
                b == 662620048,
        ;
    } else if h == 98 {
        let a = sin_table(98);
        let b = sin_table(82);
        assert(a * a + b * b == 999999999676199241) by (nonlinear_arith)
            requires
                a == 754709580,
                b == 656059029,
        ;
    } else if h == 99 {
        let a = sin_table(99);
        let b = sin_table(81);
        assert(a * a + b * b == 1000000000179403460) by (nonlinear_arith)
            requires
                a == 760405966,
                b == 649448048,
        ;
    } else if h == 100 {
        let a = sin_table(100);
        let b = sin_table(80);
        assert(a * a + b * b == 1000000000220692349) by (nonlinear_arith)
            requires
                a == 766044443,
                b == 642787610,
        ;
    } else if h == 101 {
        let a = sin_table(101);
        let b = sin_table(79);
        assert(a * a + b * b == 999999999048292289) by (nonlinear_arith)
            requires
                a == 771624583,
                b == 636078220,
        ;
    } else if h == 102 {
        let a = sin_table(102);
        let b = sin_table(78);
        assert(a * a + b * b == 999999999227006402) by (nonlinear_arith)
            requires
                a == 777145961,
                b == 629320391,
        ;
    } else if h == 103 {
        let a = sin_table(103);
        let b = sin_table(77);
        assert(a * a + b * b == 1000000000682178418) by (nonlinear_arith)
            requires
                a == 782608157,
                b == 622514637,
        ;
    } else if h == 104 {
        let a = sin_table(104);
        let b = sin_table(76);
        assert(a * a + b * b == 1000000000218824141) by (nonlinear_arith)
            requires
                a == 788010754,
                b == 615661475,
        ;
    } else if h == 105 {
        let a = sin_table(105);
        let b = sin_table(75);
        assert(a * a + b * b == 999999999527277641) by (nonlinear_arith)
            requires
                a == 793353340,
                b == 608761429,
        ;
    } else if h == 106 {
        let a = sin_table(106);
        let b = sin_table(74);
        assert(a * a + b * b == 999999999741450629) by (nonlinear_arith)
            requires
                a == 798635510,
                b == 601815023,
        ;
    } else if h == 107 {
        let a = sin_table(107);
        let b = sin_table(73);
        assert(a * a + b * b == 1000000000911220690) by (nonlinear_arith)
            requires
                a == 803856861,
                b == 594822787,
        ;
    } else if h == 108 {
        let a = sin_table(108);
        let b = sin_table(72);
        assert(a * a + b * b == 999999999049499540) by (nonlinear_arith)
            requires
                a == 809016994,
                b == 587785252,
        ;
    } else if h == 109 {
        let a = sin_table(109);
        let b = sin_table(71);
        assert(a * a + b * b == 999999999755546260) by (nonlinear_arith)
            requires
                a == 814115518,
                b == 580702956,
        ;
    } else if h == 110 {
        let a = sin_table(110);
        let b = sin_table(70);
        assert(a * a + b * b == 999999999123840032) by (nonlinear_arith)
            requires
                a == 819152044,
                b == 573576436,
        ;
    } else if h == 111 {
        let a = sin_table(111);
        let b = sin_table(69);
        assert(a * a + b * b == 1000000000708163890) by (nonlinear_arith)
            requires
                a == 824126189,
                b == 566406237,
        ;
    } else if h == 112 {
        let a = sin_table(112);
        let b = sin_table(68);
        assert(a * a + b * b == 1000000000211297738) by (nonlinear_arith)
            requires
                a == 829037573,
                b == 559192903,
        ;
    } else if h == 113 {
        let a = sin_table(113);
        let b = sin_table(67);
        assert(a * a + b * b == 999999999543505909) by (nonlinear_arith)
            requires
                a == 833885822,
                b == 551936985,
        ;
    } else if h == 114 {
        let a = sin_table(114);
        let b = sin_table(66);
        assert(a * a + b * b == 1000000000075173849) by (nonlinear_arith)
            requires
                a == 838670568,
                b == 544639035,
        ;
    } else if h == 115 {
        let a = sin_table(115);
        let b = sin_table(65);
        assert(a * a + b * b == 999999999942924580) by (nonlinear_arith)
            requires
                a == 843391446,
                b == 537299608,
        ;
    } else if h == 116 {
        let a = sin_table(116);
        let b = sin_table(64);
        assert(a * a + b * b == 999999999487526912) by (nonlinear_arith)
            requires
                a == 848048096,
                b == 529919264,
        ;
    } else if h == 117 {
        let a = sin_table(117);
        let b = sin_table(63);
        assert(a * a + b * b == 999999999693006121) by (nonlinear_arith)
            requires
                a == 852640164,
                b == 522498565,
        ;
    } else if h == 118 {
        let a = sin_table(118);
        let b = sin_table(62);
        assert(a * a + b * b == 1000000000603330226) by (nonlinear_arith)
            requires
                a == 857167301,
                b == 515038075,
        ;
    } else if h == 119 {
        let a = sin_table(119);
        let b = sin_table(61);
        assert(a * a + b * b == 999999999279025369) by (nonlinear_arith)
            requires
                a == 861629160,
                b == 507538363,
        ;
    } else if h == 120 {
        let a = sin_table(120);
        let b = sin_table(60);
        assert(a * a + b * b == 1000000000373363216) by (nonlinear_arith)
            requires
                a == 866025404,
                b == 500000000,
        ;
    } else if h == 121 {
        let a = sin_table(121);
        let b = sin_table(59);
        assert(a * a + b * b == 1000000000002718016) by (nonlinear_arith)
            requires
                a == 870355696,
                b == 492423560,
        ;
    } else if h == 122 {
        let a = sin_table(122);
        let b = sin_table(58);
        assert(a * a + b * b == 999999999517310249) by (nonlinear_arith)
            requires
                a == 874619707,
                b == 484809620,
        ;
    } else if h == 123 {
        let a = sin_table(123);
        let b = sin_table(57);
        assert(a * a + b * b == 1000000000346392369) by (nonlinear_arith)
            requires
                a == 878817113,
                b == 477158760,
        ;
    } else if h == 124 {
        let a = sin_table(124);
        let b = sin_table(56);
        assert(a * a + b * b == 1000000000450156618) by (nonlinear_arith)
            requires
                a == 882947593,
                b == 469471563,
        ;
    } else if h == 125 {
        let a = sin_table(125);
        let b = sin_table(55);
        assert(a * a + b * b == 999999999466777658) by (nonlinear_arith)
            requires
                a == 887010833,
                b == 461748613,
        ;
    } else if h == 126 {
        let a = sin_table(126);
        let b = sin_table(54);
        assert(a * a + b * b == 999999999900812576) by (nonlinear_arith)
            requires
                a == 891006524,
                b == 453990500,
        ;
    } else if h == 127 {
        let a = sin_table(127);
        let b = sin_table(53);
        assert(a * a + b * b == 1000000000614330013) by (nonlinear_arith)
            requires
                a == 894934362,
                b == 446197813,
        ;
    } else if h == 128 {
        let a = sin_table(128);
        let b = sin_table(52);
        assert(a * a + b * b == 999999999647145725) by (nonlinear_arith)
            requires
                a == 898794046,
                b == 438371147,
        ;
    } else if h == 129 {
        let a = sin_table(129);
        let b = sin_table(51);
        assert(a * a + b * b == 999999999533504065) by (nonlinear_arith)
            requires
                a == 902585284,
                b == 430511097,
        ;
    } else if h == 130 {
        let a = sin_table(130);
        let b = sin_table(50);
        assert(a * a + b * b == 1000000000152738013) by (nonlinear_arith)
            requires
                a == 906307787,
                b == 422618262,
        ;
    } else if h == 131 {
        let a = sin_table(131);
        let b = sin_table(49);
        assert(a * a + b * b == 1000000000509792490) by (nonlinear_arith)
            requires
                a == 909961271,
                b == 414693243,
        ;
    } else if h == 132 {
        let a = sin_table(132);
        let b = sin_table(48);
        assert(a * a + b * b == 1000000000591339213) by (nonlinear_arith)
            requires
                a == 913545458,
                b == 406736643,
        ;
    } else if h == 133 {
        let a = sin_table(133);
        let b = sin_table(47);
        assert(a * a + b * b == 999999999353252237) by (nonlinear_arith)
            requires
                a == 917060074,
                b == 398749069,
        ;
    } else if h == 134 {
        let a = sin_table(134);
        let b = sin_table(46);
        assert(a * a + b * b == 999999998784703993) by (nonlinear_arith)
            requires
                a == 920504853,
                b == 390731128,
        ;
    } else if h == 135 {
        let a = sin_table(135);
        let b = sin_table(45);
        assert(a * a + b * b == 1000000000623596713) by (nonlinear_arith)
            requires
                a == 923879533,
                b == 382683432,
        ;
    } else if h == 136 {
        let a = sin_table(136);
        let b = sin_table(44);
        assert(a * a + b * b == 1000000000491728674) by (nonlinear_arith)
            requires
                a == 927183855,
                b == 374606593,
        ;
    } else if h == 137 {
        let a = sin_table(137);
        let b = sin_table(43);
        assert(a * a + b * b == 1000000000235540153) by (nonlinear_arith)
            requires
                a == 930417568,
                b == 366501227,
        ;
    } else if h == 138 {
        let a = sin_table(138);
        let b = sin_table(42);
        assert(a * a + b * b == 999999999397543976) by (nonlinear_arith)
            requires
                a == 933580426,
                b == 358367950,
        ;
    } else if h == 139 {
        let a = sin_table(139);
        let b = sin_table(41);
        assert(a * a + b * b == 999999999352930882) by (nonlinear_arith)
            requires
                a == 936672189,
                b == 350207381,
        ;
    } else if h == 140 {
        let a = sin_table(140);
        let b = sin_table(40);
        assert(a * a + b * b == 1000000000179590090) by (nonlinear_arith)
            requires
                a == 939692621,
                b == 342020143,
        ;
    } else if h == 141 {
        let a = sin_table(141);
        let b = sin_table(39);
        assert(a * a + b * b == 999999999670148962) by (nonlinear_arith)
            requires
                a == 942641491,
                b == 333806859,
        ;
    } else if h == 142 {
        let a = sin_table(142);
        let b = sin_table(38);
        assert(a * a + b * b == 1000000000460035492) by (nonlinear_arith)
            requires
                a == 945518576,
                b == 325568154,
        ;
    } else if h == 143 {
        let a = sin_table(143);
        let b = sin_table(37);
        assert(a * a + b * b == 999999999351837361) by (nonlinear_arith)
            requires
                a == 948323655,
                b == 317304656,
        ;
    } else if h == 144 {
        let a = sin_table(144);
        let b = sin_table(36);
        assert(a * a + b * b == 999999999206854292) by (nonlinear_arith)
            requires
                a == 951056516,
                b == 309016994,
        ;
    } else if h == 145 {
        let a = sin_table(145);
        let b = sin_table(35);
        assert(a * a + b * b == 1000000000778376401) by (nonlinear_arith)
            requires
                a == 953716951,
                b == 300705800,
        ;
    } else if h == 146 {
        let a = sin_table(146);
        let b = sin_table(34);
        assert(a * a + b * b == 1000000000232826561) by (nonlinear_arith)
            requires
                a == 956304756,
                b == 292371705,
        ;
    } else if h == 147 {
        let a = sin_table(147);
        let b = sin_table(33);
        assert(a * a + b * b == 1000000000420939250) by (nonlinear_arith)
            requires
                a == 958819735,
                b == 284015345,
        ;
    } else if h == 148 {
        let a = sin_table(148);
        let b = sin_table(32);
        assert(a * a + b * b == 1000000000219467152) by (nonlinear_arith)
            requires
                a == 961261696,
                b == 275637356,
        ;
    } else if h == 149 {
        let a = sin_table(149);
        let b = sin_table(31);
        assert(a * a + b * b == 999999999556102585) by (nonlinear_arith)
            requires
                a == 963630453,
                b == 267238376,
        ;
    } else if h == 150 {
        let a = sin_table(150);
        let b = sin_table(30);
        assert(a * a + b * b == 999999999388494301) by (nonlinear_arith)
            requires
                a == 965925826,
                b == 258819045,
        ;
    } else if h == 151 {
        let a = sin_table(151);
        let b = sin_table(29);
        assert(a * a + b * b == 999999999240609616) by (nonlinear_arith)
            requires
                a == 968147640,
                b == 250380004,
        ;
    } else if h == 152 {
        let a = sin_table(152);
        let b = sin_table(28);
        assert(a * a + b * b == 999999999658101892) by (nonlinear_arith)
            requires
                a == 970295726,
                b == 241921896,
        ;
    } else if h == 153 {
        let a = sin_table(153);
        let b = sin_table(27);
        assert(a * a + b * b == 999999999293898896) by (nonlinear_arith)
            requires
                a == 972369920,
                b == 233445364,
        ;
    } else if h == 154 {
        let a = sin_table(154);
        let b = sin_table(26);
        assert(a * a + b * b == 1000000000263815141) by (nonlinear_arith)
            requires
                a == 974370065,
                b == 224951054,
        ;
    } else if h == 155 {
        let a = sin_table(155);
        let b = sin_table(25);
        assert(a * a + b * b == 999999999792613045) by (nonlinear_arith)
            requires
                a == 976296007,
                b == 216439614,
        ;
    } else if h == 156 {
        let a = sin_table(156);
        let b = sin_table(24);
        assert(a * a + b * b == 1000000000596534682) by (nonlinear_arith)
            requires
                a == 978147601,
                b == 207911691,
        ;
    } else if h == 157 {
        let a = sin_table(157);
        let b = sin_table(23);
        assert(a * a + b * b == 1000000000576765381) by (nonlinear_arith)
            requires
                a == 979924705,
                b == 199367934,
        ;
    } else if h == 158 {
        let a = sin_table(158);
        let b = sin_table(22);
        assert(a * a + b * b == 999999998977425514) by (nonlinear_arith)
            requires
                a == 981627183,
                b == 190808995,
        ;
    } else if h == 159 {
        let a = sin_table(159);
        let b = sin_table(21);
        assert(a * a + b * b == 1000000000678114089) by (nonlinear_arith)
            requires
                a == 983254908,
                b == 182235525,
        ;
    } else if h == 160 {
        let a = sin_table(160);
        let b = sin_table(20);
        assert(a * a + b * b == 1000000000091628693) by (nonlinear_arith)
            requires
                a == 984807753,
                b == 173648178,
        ;
    } else if h == 161 {
        let a = sin_table(161);
        let b = sin_table(19);
        assert(a * a + b * b == 1000000000958833640) by (nonlinear_arith)
            requires
                a == 986285602,
                b == 165047606,
        ;
    } else if h == 162 {
        let a = sin_table(162);
        let b = sin_table(18);
        assert(a * a + b * b == 1000000000787168506) by (nonlinear_arith)
            requires
                a == 987688341,
                b == 156434465,
        ;
    } else if h == 163 {
        let a = sin_table(163);
        let b = sin_table(17);
        assert(a * a + b * b == 999999999245801690) by (nonlinear_arith)
            requires
                a == 989015863,
                b == 147809411,
        ;
    } else if h == 164 {
        let a = sin_table(164);
        let b = sin_table(16);
        assert(a * a + b * b == 1000000000522944962) by (nonlinear_arith)
            requires
                a == 990268069,
                b == 139173101,
        ;
    } else if h == 165 {
        let a = sin_table(165);
        let b = sin_table(15);
        assert(a * a + b * b == 999999999201330185) by (nonlinear_arith)
            requires
                a == 991444861,
                b == 130526192,
        ;
    } else if h == 166 {
        let a = sin_table(166);
        let b = sin_table(14);
        assert(a * a + b * b == 1000000000613258753) by (nonlinear_arith)
            requires
                a == 992546152,
                b == 121869343,
        ;
    } else if h == 167 {
        let a = sin_table(167);
        let b = sin_table(13);
        assert(a * a + b * b == 1000000000695214532) by (nonlinear_arith)
            requires
                a == 993571856,
                b == 113203214,
        ;
    } else if h == 168 {
        let a = sin_table(168);
        let b = sin_table(12);
        assert(a * a + b * b == 999999999211533394) by (nonlinear_arith)
            requires
                a == 994521895,
                b == 104528463,
        ;
    } else if h == 169 {
        let a = sin_table(169);
        let b = sin_table(11);
        assert(a * a + b * b == 999999999360992213) by (nonlinear_arith)
            requires
                a == 995396198,
                b == 95845753,
        ;
    } else if h == 170 {
        let a = sin_table(170);
        let b = sin_table(10);
        assert(a * a + b * b == 999999999861193253) by (nonlinear_arith)
            requires
                a == 996194698,
                b == 87155743,
        ;
    } else if h == 171 {
        let a = sin_table(171);
        let b = sin_table(9);
        assert(a * a + b * b == 1000000000574804772) by (nonlinear_arith)
            requires
                a == 996917334,
                b == 78459096,
        ;
    } else if h == 172 {
        let a = sin_table(172);
        let b = sin_table(8);
        assert(a * a + b * b == 999999999517315176) by (nonlinear_arith)
            requires
                a == 997564050,
                b == 69756474,
        ;
    } else if h == 173 {
        let a = sin_table(173);
        let b = sin_table(7);
        assert(a * a + b * b == 999999999214632404) by (nonlinear_arith)
            requires
                a == 998134798,
                b == 61048540,
        ;
    } else if h == 174 {
        let a = sin_table(174);
        let b = sin_table(6);
        assert(a * a + b * b == 1000000000464750161) by (nonlinear_arith)
            requires
                a == 998629535,
                b == 52335956,
        ;
    } else if h == 175 {
        let a = sin_table(175);
        let b = sin_table(5);
        assert(a * a + b * b == 1000000000803617053) by (nonlinear_arith)
            requires
                a == 999048222,
                b == 43619387,
        ;
    } else if h == 176 {
        let a = sin_table(176);
        let b = sin_table(4);
        assert(a * a + b * b == 999999999982596938) by (nonlinear_arith)
            requires
                a == 999390827,
                b == 34899497,
        ;
    } else if h == 177 {
        let a = sin_table(177);
        let b = sin_table(3);
        assert(a * a + b * b == 1000000000032750329) by (nonlinear_arith)
            requires
                a == 999657325,
                b == 26176948,
        ;
    } else if h == 178 {
        let a = sin_table(178);
        let b = sin_table(2);
        assert(a * a + b * b == 999999999672001861) by (nonlinear_arith)
            requires
                a == 999847695,
                b == 17452406,
        ;
    } else if h == 179 {
        let a = sin_table(179);
        let b = sin_table(1);
        assert(a * a + b * b == 999999999862964154) by (nonlinear_arith)
            requires
                a == 999961923,
                b == 8726535,
        ;
    } else {
        let a = sin_table(180);
        let b = sin_table(0);
        assert(a * a + b * b == 1000000000000000000) by (nonlinear_arith)
            requires
                a == 1000000000,
                b == 0,
        ;
    }
}

/// The squared norm of (sine, cosine) at any angle: within two
/// steps-per-unit of one square unit.
pub proof fn lemma_sin_cos_norm(h: int)
    ensures
        999999998000000000 <= sin_half(h) * sin_half(h) + cos_half(h) * cos_half(h)
            <= 1000000002000000000,
{
    lemma_cos_half_form(h);
    let m = h % 720;
    let s = sin_half(h);
    let c = cos_half(h);
    if m <= 180 {
        lemma_sin_table_norm(m);
        assert(s == sin_table(m) && c == sin_table(180 - m));
    } else if m <= 360 {
        lemma_sin_table_norm(360 - m);
        assert(s == sin_table(360 - m) && c == -sin_table(m - 180));
        assert(sin_table(180 - (360 - m)) == sin_table(m - 180));
        assert(c * c == sin_table(m - 180) * sin_table(m - 180)) by (nonlinear_arith)
            requires
                c == -sin_table(m - 180),
        ;
    } else if m < 540 {
        lemma_sin_table_norm(m - 360);
        assert(s == -sin_table(m - 360) && c == -sin_table(540 - m));
        assert(sin_table(180 - (m - 360)) == sin_table(540 - m));
        assert(s * s == sin_table(m - 360) * sin_table(m - 360)) by (nonlinear_arith)
            requires
                s == -sin_table(m - 360),
        ;
        assert(c * c == sin_table(540 - m) * sin_table(540 - m)) by (nonlinear_arith)
            requires
                c == -sin_table(540 - m),
        ;
    } else {
        lemma_sin_table_norm(720 - m);
        assert(s == -sin_table(720 - m) && c == sin_table(m - 540));
        assert(sin_table(180 - (720 - m)) == sin_table(m - 540));
        assert(s * s == sin_table(720 - m) * sin_table(720 - m)) by (nonlinear_arith)
            requires
                s == -sin_table(720 - m),
        ;
    }
}

} // verus!
