//! The order of the groups of Bn256 is a prime.
//!
//! Each number is traced back to smaller primes, down to those that trial division settles:
//! some powers of a fixed base are computed modulo the number, four binary digits of the
//! exponent at a time.
use crate::algebra::congruence::{congruent, is_prime};
use crate::algebra::primality::{
    lemma_forced_factor, lemma_forced_product, lemma_four_power_steps, lemma_power_of_power,
    lemma_power_start, lemma_prime_by_forced_exponent, lemma_prime_by_one_factor,
    lemma_prime_by_trial,
};
use crate::provider::bn256::scalar::group_order;
use vstd::arithmetic::power::pow;
use vstd::prelude::*;

verus! {

/// The order of the groups.
#[verifier::inline]
spec fn order() -> int {
    0x30644e72e131a029b85045b68181585d2833e84879b9709143e1f593f0000001int
}

/// The base of the powers modulo the order of the groups.
#[verifier::inline]
spec fn base() -> int {
    0x8fdf6a009ddb0f44829608cbae4d277cf3727232b632f357b4ae966ddb136a8int
}

proof fn lemma_prime_3()
    ensures
        is_prime(3),
{
    assert forall|d: int| 1 < d < 2 implies #[trigger] (3int % d) != 0 by {
        assert(false);
    }
    lemma_prime_by_trial(3, 2);
}

proof fn lemma_prime_5()
    ensures
        is_prime(5),
{
    assert forall|d: int| 1 < d < 3 implies #[trigger] (5int % d) != 0 by {
        assert(d == 2);
    }
    lemma_prime_by_trial(5, 3);
}

proof fn lemma_prime_7()
    ensures
        is_prime(7),
{
    assert forall|d: int| 1 < d < 3 implies #[trigger] (7int % d) != 0 by {
        assert(d == 2);
    }
    lemma_prime_by_trial(7, 3);
}

proof fn lemma_prime_31()
    ensures
        is_prime(31),
{
    assert forall|d: int| 1 < d < 6 implies #[trigger] (31int % d) != 0 by {
        assert(d == 2 || d == 3 || d == 4 || d == 5);
    }
    lemma_prime_by_trial(31, 6);
}

proof fn lemma_prime_229()
    ensures
        is_prime(229),
{
    assert forall|d: int| 1 < d < 16 implies #[trigger] (229int % d) != 0 by {
        assert(d == 2 || d == 3 || d == 4 || d == 5 || d == 6 || d == 7 || d == 8 || d == 9 || d == 10 || d == 11 || d == 12 || d == 13 || d == 14 || d == 15);
    }
    lemma_prime_by_trial(229, 16);
}

proof fn lemma_prime_409()
    ensures
        is_prime(409),
{
    assert forall|d: int| 1 < d < 21 implies #[trigger] (409int % d) != 0 by {
        assert(d == 2 || d == 3 || d == 4 || d == 5 || d == 6 || d == 7 || d == 8 || d == 9 || d == 10 || d == 11 || d == 12 || d == 13 || d == 14 || d == 15 || d == 16 || d == 17 || d == 18 || d == 19 || d == 20);
    }
    lemma_prime_by_trial(409, 21);
}

/// A power modulo 1637 that is congruent to one.
proof fn lemma_power_modulo_1637()
    ensures
        congruent(pow(16int, 409nat), 1int, 1637int),
{
    lemma_power_start(16int, 1637int);
    let e: nat = 0;
    let e = lemma_four_power_steps(
        16int, e, (false, false, false, true), 1int, 1int, 1int, 1int, 16int, 1637int,
    );
    let e = lemma_four_power_steps(
        16int, e, (true, false, false, true), 16int, 822int, 1240int, 457int, 467int, 1637int,
    );
    let e = lemma_four_power_steps(
        16int, e, (true, false, false, true), 467int, 977int, 158int, 409int, 1int, 1637int,
    );
    assert(e == 409);
}

proof fn lemma_prime_1637()
    ensures
        is_prime(1637),
{
    lemma_prime_409();
    lemma_power_modulo_1637();
    lemma_prime_by_one_factor(16int, 409int, 764int, 1637int);
}

/// The power whose exponent lacks the factor 31.
proof fn lemma_power_modulo_93001_without_31()
    ensures
        congruent(pow(32400int, 15nat), 52049int, 93001int),
{
    lemma_power_start(32400int, 93001int);
    let e: nat = 0;
    let e = lemma_four_power_steps(
        32400int, e, (true, true, true, true), 1int, 32400int, 23094int, 42120int, 52049int,
        93001int,
    );
    assert(e == 15);
}

/// The power whose exponent lacks the factor 5.
proof fn lemma_power_modulo_93001_without_5()
    ensures
        congruent(pow(32400int, 93nat), 28198int, 93001int),
{
    lemma_power_start(32400int, 93001int);
    let e: nat = 0;
    let e = lemma_four_power_steps(
        32400int, e, (false, true, false, true), 1int, 1int, 32400int, 57713int, 26691int, 93001int,
    );
    let e = lemma_four_power_steps(
        32400int, e, (true, true, false, true), 26691int, 6798int, 46829int, 84662int, 28198int,
        93001int,
    );
    assert(e == 93);
}

/// The power whose exponent lacks the factor 3.
proof fn lemma_power_modulo_93001_without_3()
    ensures
        congruent(pow(32400int, 155nat), 22786int, 93001int),
{
    lemma_power_start(32400int, 93001int);
    let e: nat = 0;
    let e = lemma_four_power_steps(
        32400int, e, (true, false, false, true), 1int, 32400int, 57713int, 52555int, 11422int,
        93001int,
    );
    let e = lemma_four_power_steps(
        32400int, e, (true, false, true, true), 11422int, 89783int, 32413int, 24157int,
        22786int, 93001int,
    );
    assert(e == 155);
}

/// The power that is congruent to one when that factor is added.
proof fn lemma_power_modulo_93001_with_31()
    ensures
        congruent(pow(52049int, 31nat), 1int, 93001int),
{
    lemma_power_start(52049int, 93001int);
    let e: nat = 0;
    let e = lemma_four_power_steps(
        52049int, e, (false, false, false, true), 1int, 1int, 1int, 1int, 52049int, 93001int,
    );
    let e = lemma_four_power_steps(
        52049int, e, (true, true, true, true), 52049int, 73881int, 82995int, 28520int, 1int,
        93001int,
    );
    assert(e == 31);
}

proof fn lemma_prime_93001()
    ensures
        is_prime(93001),
{
    lemma_prime_31();
    lemma_prime_5();
    lemma_prime_3();
    lemma_power_modulo_93001_without_31();
    lemma_power_modulo_93001_without_5();
    lemma_power_modulo_93001_without_3();
    lemma_power_modulo_93001_with_31();
    lemma_power_of_power(32400int, 15nat, 52049int, 31nat, 93001int);
    assert(15nat * 31nat == 465nat);
    lemma_forced_factor(32400int, 15nat, 31int, 52049int, 79405int, 93001int);
    assert(93nat * 5nat == 465nat);
    lemma_forced_factor(32400int, 93nat, 5int, 28198int, 35420int, 93001int);
    assert(155nat * 3nat == 465nat);
    lemma_forced_factor(32400int, 155nat, 3int, 22786int, 85405int, 93001int);
    lemma_forced_product(32400int, 31int, 5int, 93001int);
    assert(31int * 5int == 155int);
    lemma_forced_product(32400int, 155int, 3int, 93001int);
    assert(155int * 3int == 465int);
    lemma_prime_by_forced_exponent(32400int, 465nat, 465nat, 93001int);
}

/// The power whose exponent lacks the factor 1637.
proof fn lemma_power_modulo_639533339_without_1637()
    ensures
        congruent(pow(494303240int, 229nat), 248876995int, 639533339int),
{
    lemma_power_start(494303240int, 639533339int);
    let e: nat = 0;
    let e = lemma_four_power_steps(
        494303240int, e, (true, true, true, false), 1int, 494303240int, 411031626int,
        363698248int, 38950797int, 639533339int,
    );
    let e = lemma_four_power_steps(
        494303240int, e, (false, true, false, true), 38950797int, 286358848int, 63574888int,
        100133292int, 248876995int, 639533339int,
    );
    assert(e == 229);
}

/// The power whose exponent lacks the factor 229.
proof fn lemma_power_modulo_639533339_without_229()
    ensures
        congruent(pow(494303240int, 1637nat), 271298491int, 639533339int),
{
    lemma_power_start(494303240int, 639533339int);
    let e: nat = 0;
    let e = lemma_four_power_steps(
        494303240int, e, (false, true, true, false), 1int, 1int, 494303240int, 411031626int,
        5160803int, 639533339int,
    );
    let e = lemma_four_power_steps(
        494303240int, e, (false, true, true, false), 5160803int, 521702154int, 100962107int,
        488685830int, 3348427int, 639533339int,
    );
    let e = lemma_four_power_steps(
        494303240int, e, (false, true, false, true), 3348427int, 304408320int, 497159363int,
        270240567int, 271298491int, 639533339int,
    );
    assert(e == 1637);
}

/// The power that is congruent to one when that factor is added.
proof fn lemma_power_modulo_639533339_with_1637()
    ensures
        congruent(pow(248876995int, 1637nat), 1int, 639533339int),
{
    lemma_power_start(248876995int, 639533339int);
    let e: nat = 0;
    let e = lemma_four_power_steps(
        248876995int, e, (false, true, true, false), 1int, 1int, 248876995int, 257756831int,
        448608357int, 639533339int,
    );
    let e = lemma_four_power_steps(
        248876995int, e, (false, true, true, false), 448608357int, 461042979int, 605154259int,
        547712976int, 181348006int, 639533339int,
    );
    let e = lemma_four_power_steps(
        248876995int, e, (false, true, false, true), 181348006int, 343175704int, 147059079int,
        301238345int, 1int, 639533339int,
    );
    assert(e == 1637);
}

proof fn lemma_prime_639533339()
    ensures
        is_prime(639533339),
{
    lemma_prime_1637();
    lemma_prime_229();
    lemma_power_modulo_639533339_without_1637();
    lemma_power_modulo_639533339_without_229();
    lemma_power_modulo_639533339_with_1637();
    lemma_power_of_power(494303240int, 229nat, 248876995int, 1637nat, 639533339int);
    assert(229nat * 1637nat == 374873nat);
    lemma_forced_factor(494303240int, 229nat, 1637int, 248876995int, 296391531int, 639533339int);
    assert(1637nat * 229nat == 374873nat);
    lemma_forced_factor(494303240int, 1637nat, 229int, 271298491int, 178689417int, 639533339int);
    lemma_forced_product(494303240int, 1637int, 229int, 639533339int);
    assert(1637int * 229int == 374873int);
    lemma_prime_by_forced_exponent(494303240int, 374873nat, 374873nat, 639533339int);
}

/// The power whose exponent lacks the factor 93001.
proof fn lemma_power_modulo_12048837557_without_93001()
    ensures
        congruent(pow(6335919648int, 7nat), 4746995210int, 12048837557int),
{
    lemma_power_start(6335919648int, 12048837557int);
    let e: nat = 0;
    let e = lemma_four_power_steps(
        6335919648int, e, (false, true, true, true), 1int, 1int, 6335919648int, 10185598928int,
        4746995210int, 12048837557int,
    );
    assert(e == 7);
}

/// The power whose exponent lacks the factor 7.
proof fn lemma_power_modulo_12048837557_without_7()
    ensures
        congruent(pow(6335919648int, 93001nat), 41029474int, 12048837557int),
{
    lemma_power_start(6335919648int, 12048837557int);
    let e: nat = 0;
    let e = lemma_four_power_steps(
        6335919648int, e, (false, false, false, true), 1int, 1int, 1int, 1int, 6335919648int,
        12048837557int,
    );
    let e = lemma_four_power_steps(
        6335919648int, e, (false, true, true, false), 6335919648int, 5677634111int,
        4495415131int, 7911747084int, 5094945820int, 12048837557int,
    );
    let e = lemma_four_power_steps(
        6335919648int, e, (true, false, true, true), 5094945820int, 3859104344int,
        3750904267int, 2500114133int, 4471327493int, 12048837557int,
    );
    let e = lemma_four_power_steps(
        6335919648int, e, (false, true, false, false), 4471327493int, 10695809059int,
        320264092int, 9343781118int, 8886273509int, 12048837557int,
    );
    let e = lemma_four_power_steps(
        6335919648int, e, (true, false, false, true), 8886273509int, 12006157103int,
        5598753514int, 1205139734int, 41029474int, 12048837557int,
    );
    assert(e == 93001);
}

/// The power that is congruent to one when that factor is added.
proof fn lemma_power_modulo_12048837557_with_93001()
    ensures
        congruent(pow(4746995210int, 93001nat), 1int, 12048837557int),
{
    lemma_power_start(4746995210int, 12048837557int);
    let e: nat = 0;
    let e = lemma_four_power_steps(
        4746995210int, e, (false, false, false, true), 1int, 1int, 1int, 1int, 4746995210int,
        12048837557int,
    );
    let e = lemma_four_power_steps(
        4746995210int, e, (false, true, true, false), 4746995210int, 6461955269int,
        2981714033int, 9681621874int, 6023560310int, 12048837557int,
    );
    let e = lemma_four_power_steps(
        4746995210int, e, (true, false, true, true), 6023560310int, 9174352505int,
        10390882295int, 11653420293int, 6776742415int, 12048837557int,
    );
    let e = lemma_four_power_steps(
        4746995210int, e, (false, true, false, false), 6776742415int, 8165790361int,
        5748487736int, 7308113147int, 7776442859int, 12048837557int,
    );
    let e = lemma_four_power_steps(
        4746995210int, e, (true, false, false, true), 7776442859int, 538682138int,
        1421815290int, 6322326642int, 1int, 12048837557int,
    );
    assert(e == 93001);
}

proof fn lemma_prime_12048837557()
    ensures
        is_prime(12048837557),
{
    lemma_prime_93001();
    lemma_prime_7();
    lemma_power_modulo_12048837557_without_93001();
    lemma_power_modulo_12048837557_without_7();
    lemma_power_modulo_12048837557_with_93001();
    lemma_power_of_power(6335919648int, 7nat, 4746995210int, 93001nat, 12048837557int);
    assert(7nat * 93001nat == 651007nat);
    lemma_forced_factor(
        6335919648int, 7nat, 93001int, 4746995210int, 10304344409int, 12048837557int,
    );
    assert(93001nat * 7nat == 651007nat);
    lemma_forced_factor(6335919648int, 93001nat, 7int, 41029474int, 5236981891int, 12048837557int);
    lemma_forced_product(6335919648int, 93001int, 7int, 12048837557int);
    assert(93001int * 7int == 651007int);
    lemma_prime_by_forced_exponent(6335919648int, 651007nat, 651007nat, 12048837557int);
}

/// A power modulo 5156902474397 that is congruent to one.
proof fn lemma_power_modulo_5156902474397()
    ensures
        congruent(pow(4746712836098int, 12048837557nat), 1int, 5156902474397int),
{
    lemma_power_start(4746712836098int, 5156902474397int);
    let e: nat = 0;
    let e = lemma_four_power_steps(
        4746712836098int, e, (false, false, true, false), 1int, 1int, 1int, 4746712836098int,
        4873537632190int, 5156902474397int,
    );
    let e = lemma_four_power_steps(
        4746712836098int, e, (true, true, false, false), 4873537632190int, 3644367028578int,
        1512708647324int, 2458361394247int, 1372198352576int, 5156902474397int,
    );
    let e = lemma_four_power_steps(
        4746712836098int, e, (true, true, true, false), 1372198352576int, 3985494425225int,
        3534033127334int, 2097983046559int, 3949638834514int, 5156902474397int,
    );
    let e = lemma_four_power_steps(
        4746712836098int, e, (false, false, true, false), 3949638834514int, 2886924168213int,
        4889216364411int, 1186104587753int, 4863306363187int, 5156902474397int,
    );
    let e = lemma_four_power_steps(
        4746712836098int, e, (true, false, true, false), 4863306363187int, 3528003011007int,
        569229458997int, 4322973491138int, 1056634934969int, 5156902474397int,
    );
    let e = lemma_four_power_steps(
        4746712836098int, e, (true, false, true, false), 1056634934969int, 2967256843868int,
        4214317258230int, 2005289838737int, 2188467409472int, 5156902474397int,
    );
    let e = lemma_four_power_steps(
        4746712836098int, e, (true, false, true, true), 2188467409472int, 2598843926205int,
        4903139152562int, 2379638444348int, 4488210961748int, 5156902474397int,
    );
    let e = lemma_four_power_steps(
        4746712836098int, e, (true, false, true, true), 4488210961748int, 2385369468561int,
        2260607923718int, 4942587966814int, 1513905999439int, 5156902474397int,
    );
    let e = lemma_four_power_steps(
        4746712836098int, e, (false, true, false, true), 1513905999439int, 3368897426571int,
        4570632802352int, 3938668016706int, 1int, 5156902474397int,
    );
    assert(e == 12048837557);
}

proof fn lemma_prime_5156902474397()
    ensures
        is_prime(5156902474397),
{
    lemma_prime_12048837557();
    lemma_power_modulo_5156902474397();
    lemma_prime_by_one_factor(4746712836098int, 12048837557int, 5089286551700int, 5156902474397int);
}

/// A power modulo 1670836401704629 that is congruent to one.
proof fn lemma_power_modulo_1670836401704629()
    ensures
        congruent(pow(11046204280772int, 5156902474397nat), 1int, 1670836401704629int),
{
    lemma_power_start(11046204280772int, 1670836401704629int);
    let e: nat = 0;
    let e = lemma_four_power_steps(
        11046204280772int, e, (false, true, false, false), 1int, 1int, 11046204280772int,
        1662414987046364int, 243335622413464int, 1670836401704629int,
    );
    let e = lemma_four_power_steps(
        11046204280772int, e, (true, false, true, true), 243335622413464int, 938638730596843int,
        824118890218688int, 267262586498538int, 49492090486633int, 1670836401704629int,
    );
    let e = lemma_four_power_steps(
        11046204280772int, e, (false, false, false, false), 49492090486633int,
        307337505430343int, 142460584602657int, 1084549957119634int, 1080461158659793int,
        1670836401704629int,
    );
    let e = lemma_four_power_steps(
        11046204280772int, e, (true, false, true, false), 1080461158659793int,
        772960424580221int, 811442543936487int, 1514683984251661int, 1113683759450937int,
        1670836401704629int,
    );
    let e = lemma_four_power_steps(
        11046204280772int, e, (true, true, true, true), 1113683759450937int,
        1494067479693012int, 1470387515290701int, 674188219219632int, 1364249210607750int,
        1670836401704629int,
    );
    let e = lemma_four_power_steps(
        11046204280772int, e, (false, true, false, true), 1364249210607750int,
        1330217670466045int, 185921603602951int, 1245520574938995int, 31384141629922int,
        1670836401704629int,
    );
    let e = lemma_four_power_steps(
        11046204280772int, e, (false, true, true, true), 31384141629922int, 532800708973965int,
        338760206885147int, 1321478185456450int, 566863234295377int, 1670836401704629int,
    );
    let e = lemma_four_power_steps(
        11046204280772int, e, (false, false, false, true), 566863234295377int,
        860630985012453int, 1651831741258945int, 1613023119241294int, 498053521471380int,
        1670836401704629int,
    );
    let e = lemma_four_power_steps(
        11046204280772int, e, (false, false, true, false), 498053521471380int,
        826988066168908int, 865056267209583int, 287668427336427int, 337174974857465int,
        1670836401704629int,
    );
    let e = lemma_four_power_steps(
        11046204280772int, e, (true, false, false, true), 337174974857465int,
        1463454570500538int, 1504549373680653int, 1666035062387111int, 585835722703625int,
        1670836401704629int,
    );
    let e = lemma_four_power_steps(
        11046204280772int, e, (true, true, false, true), 585835722703625int, 951131594771470int,
        1670143628958792int, 122502676378192int, 1int, 1670836401704629int,
    );
    assert(e == 5156902474397);
}

proof fn lemma_prime_1670836401704629()
    ensures
        is_prime(1670836401704629),
{
    lemma_prime_5156902474397();
    lemma_power_modulo_1670836401704629();
    lemma_prime_by_one_factor(
        11046204280772int, 5156902474397int, 735766788910399int, 1670836401704629int,
    );
}

/// A power modulo 65865678001877903 that is congruent to one.
proof fn lemma_power_modulo_65865678001877903()
    ensures
        congruent(pow(8595199928015311int, 639533339nat), 1int, 65865678001877903int),
{
    lemma_power_start(8595199928015311int, 65865678001877903int);
    let e: nat = 0;
    let e = lemma_four_power_steps(
        8595199928015311int, e, (false, false, true, false), 1int, 1int, 1int,
        8595199928015311int, 19226070235069677int, 65865678001877903int,
    );
    let e = lemma_four_power_steps(
        8595199928015311int, e, (false, true, true, false), 19226070235069677int,
        56968334197042590int, 18611656393288241int, 43734149829486000int, 48447415136911303int,
        65865678001877903int,
    );
    let e = lemma_four_power_steps(
        8595199928015311int, e, (false, false, false, true), 48447415136911303int,
        64820389105270256int, 51329992322973469int, 61286237417813760int, 58465146411114843int,
        65865678001877903int,
    );
    let e = lemma_four_power_steps(
        8595199928015311int, e, (true, true, true, false), 58465146411114843int,
        25160803760737125int, 43282835694537230int, 17564606142202988int, 55317398354378580int,
        65865678001877903int,
    );
    let e = lemma_four_power_steps(
        8595199928015311int, e, (true, false, false, false), 55317398354378580int,
        1018752242786798int, 12272844760177368int, 60491326033384519int, 51365274646233044int,
        65865678001877903int,
    );
    let e = lemma_four_power_steps(
        8595199928015311int, e, (false, false, false, true), 51365274646233044int,
        35194706668242559int, 41777112883480135int, 38459179869673960int, 34048583907657784int,
        65865678001877903int,
    );
    let e = lemma_four_power_steps(
        8595199928015311int, e, (false, false, false, true), 34048583907657784int,
        64143099883154873int, 7159896889705541int, 33061215984632264int, 45545585862734603int,
        65865678001877903int,
    );
    let e = lemma_four_power_steps(
        8595199928015311int, e, (true, false, true, true), 45545585862734603int,
        60626625102889057int, 57018535114983506int, 51349957123922359int, 1int,
        65865678001877903int,
    );
    assert(e == 639533339);
}

proof fn lemma_prime_65865678001877903()
    ensures
        is_prime(65865678001877903),
{
    lemma_prime_639533339();
    lemma_power_modulo_65865678001877903();
    lemma_prime_by_one_factor(
        8595199928015311int, 639533339int, 39033286818209505int, 65865678001877903int,
    );
}

/// A power modulo 13818364434197438864469338081 that is congruent to one.
proof fn lemma_power_modulo_13818364434197438864469338081()
    ensures
        congruent(pow(0x19a3e92405bebb4bd6527e50int, 65865678001877903nat), 0x1int, 0x2ca6487cfcd795e8729527e1int),
{
    lemma_power_start(0x19a3e92405bebb4bd6527e50int, 0x2ca6487cfcd795e8729527e1int);
    let e: nat = 0;
    let e = lemma_four_power_steps(
        0x19a3e92405bebb4bd6527e50int, e, (true, true, true, false), 0x1int,
        0x19a3e92405bebb4bd6527e50int, 0x1377743336b03795709a3dfcint,
        0x29dd6322677c53601f9b8f1dint, 0x2a1ccadc2fe323cbf7f65a7bint,
        0x2ca6487cfcd795e8729527e1int,
    );
    let e = lemma_four_power_steps(
        0x19a3e92405bebb4bd6527e50int, e, (true, false, true, false),
        0x2a1ccadc2fe323cbf7f65a7bint, 0x1e1b137ff36a324a4ae6d9d7int,
        0xb447ed7839e5ced0e9416cbint, 0x1cfc319e15305a5bb2514c73int,
        0x2a2849632887881fe9aa8518int, 0x2ca6487cfcd795e8729527e1int,
    );
    let e = lemma_four_power_steps(
        0x19a3e92405bebb4bd6527e50int, e, (false, false, false, false),
        0x2a2849632887881fe9aa8518int, 0x59be5bf25ef4f4c96b71cebint,
        0x75c33d0907400032cdc3981int, 0x21c9b255c4936e4d095aba87int,
        0x256c79b3a74dd54db5dc03a0int, 0x2ca6487cfcd795e8729527e1int,
    );
    let e = lemma_four_power_steps(
        0x19a3e92405bebb4bd6527e50int, e, (false, false, false, false),
        0x256c79b3a74dd54db5dc03a0int, 0xe59669e756e8e998d55b865int,
        0x1b0aa2759336eca181645bceint, 0x1ded7c80a2b12c7bb762ae60int,
        0x21a5825f715c9f16a80314d1int, 0x2ca6487cfcd795e8729527e1int,
    );
    let e = lemma_four_power_steps(
        0x19a3e92405bebb4bd6527e50int, e, (false, true, true, true),
        0x21a5825f715c9f16a80314d1int, 0x254b30aadbc19fa27ec1011aint,
        0xd367c05503bac9d6419e6a5int, 0x6666b9237bfae9a5fbcd45int, 0xce957194f4106347ba8851cint,
        0x2ca6487cfcd795e8729527e1int,
    );
    let e = lemma_four_power_steps(
        0x19a3e92405bebb4bd6527e50int, e, (true, true, false, false),
        0xce957194f4106347ba8851cint, 0x174e96b90d33704bca99dee7int,
        0xa94bd527b6649b7cab81bfbint, 0x19261ecd3a311dac4e5004f4int,
        0x273788c4a10bc624c6c33619int, 0x2ca6487cfcd795e8729527e1int,
    );
    let e = lemma_four_power_steps(
        0x19a3e92405bebb4bd6527e50int, e, (false, false, true, true),
        0x273788c4a10bc624c6c33619int, 0x26f062ff9dc36e7f330c116int,
        0x1ea1aef1dc016f24d376e6e3int, 0x2150627447f80d425b750ae7int,
        0xa241be77843f0927716a343int, 0x2ca6487cfcd795e8729527e1int,
    );
    let e = lemma_four_power_steps(
        0x19a3e92405bebb4bd6527e50int, e, (false, true, false, false),
        0xa241be77843f0927716a343int, 0x285629362a5c555ffa9ef2f9int,
        0x75f2340be930d65f861b611int, 0x1b3f02289bfe9b3461e9a7a3int,
        0x1e01d89f21bbcb33354f621aint, 0x2ca6487cfcd795e8729527e1int,
    );
    let e = lemma_four_power_steps(
        0x19a3e92405bebb4bd6527e50int, e, (false, false, true, true),
        0x1e01d89f21bbcb33354f621aint, 0x17bfb88f93eb4891faa4a291int,
        0x2452589b30bf4ec4d0dbca32int, 0x21e9b5b44c62f77b58be4e16int,
        0x611cbea0101c8219feaa757int, 0x2ca6487cfcd795e8729527e1int,
    );
    let e = lemma_four_power_steps(
        0x19a3e92405bebb4bd6527e50int, e, (false, false, false, true),
        0x611cbea0101c8219feaa757int, 0x174fe46632dcb2d184f7a48eint,
        0x1b12d250a91c5ea809f78c5eint, 0x29b1c7dcbbb1efce4434fc59int,
        0x2251208b9ca0ee7b6ace2256int, 0x2ca6487cfcd795e8729527e1int,
    );
    let e = lemma_four_power_steps(
        0x19a3e92405bebb4bd6527e50int, e, (false, false, true, true),
        0x2251208b9ca0ee7b6ace2256int, 0x83f3c33f2d6756b21a262aaint,
        0x4da7b262650460a5798fb7int, 0x12f0b8f09b9f2ff90bd7e637int,
        0x127829bc6a9b3d50afa90311int, 0x2ca6487cfcd795e8729527e1int,
    );
    let e = lemma_four_power_steps(
        0x19a3e92405bebb4bd6527e50int, e, (false, false, true, true),
        0x127829bc6a9b3d50afa90311int, 0x1e19df92d17a8bd855584f71int,
        0x16668b3d4c5c3d8ee04830ddint, 0x9f6d40fde8b4957e29ce599int,
        0xa18470a66e409a1ec145373int, 0x2ca6487cfcd795e8729527e1int,
    );
    let e = lemma_four_power_steps(
        0x19a3e92405bebb4bd6527e50int, e, (true, false, false, false),
        0xa18470a66e409a1ec145373int, 0x9e16e62fcf21495b4bacce2int,
        0xc78928c0f6bcc9fcedc74deint, 0x142eb1294b5eef14840542a3int,
        0x18a2fea047d7d0de7989a763int, 0x2ca6487cfcd795e8729527e1int,
    );
    let e = lemma_four_power_steps(
        0x19a3e92405bebb4bd6527e50int, e, (true, true, true, true),
        0x18a2fea047d7d0de7989a763int, 0x1295d3396a19afe2000e24e3int,
        0x1dd1ccc1a22f7ab9c010bed0int, 0x174ec4335b0352e468e4b618int, 0x1int,
        0x2ca6487cfcd795e8729527e1int,
    );
    assert(e == 65865678001877903);
}

proof fn lemma_prime_13818364434197438864469338081()
    ensures
        is_prime(13818364434197438864469338081),
{
    lemma_prime_65865678001877903();
    lemma_power_modulo_13818364434197438864469338081();
    lemma_prime_by_one_factor(
        0x19a3e92405bebb4bd6527e50int, 0xea007c3431338fint, 0x27af4995b5c971ff1be1666aint,
        0x2ca6487cfcd795e8729527e1int,
    );
}

/// The power whose exponent lacks the factor 13818364434197438864469338081.
proof fn lemma_power_modulo_order_without_13818364434197438864469338081()
    ensures
        congruent(pow(base(), 1670836401704629nat), 0x299662f9e8574586530237c7b2e285cc00b75b8c63b1d725b7ffc6d604e94fc8int, order()),
{
    lemma_power_start(base(), order());
    let e: nat = 0;
    let e = lemma_four_power_steps(
        base(),
        e,
        (false, true, false, true),
        0x1int,
        0x1int,
        0x8fdf6a009ddb0f44829608cbae4d277cf3727232b632f357b4ae966ddb136a8int,
        0xe1e6ba2302b44c608f0e8f18de6c2682898b53add1c30d4d2b7d5a1dfb52f80int,
        0x1d44ddd89101748239baed92f2d1f8da6571bde0728453b77f287a47cd9705d4int,
        order(),
    );
    let e = lemma_four_power_steps(
        base(),
        e,
        (true, true, true, false),
        0x1d44ddd89101748239baed92f2d1f8da6571bde0728453b77f287a47cd9705d4int,
        0x2850c4080a8341d45d54524b04b7dba1bfd29198656dc59a65ed523c6f1cbdfaint,
        0xca60ba9e75b26c0aee9ff7133998f3f198b84fd5092d9ddcf59c3d56b47f1b1int,
        0x1c525a2f21d2eb4d146cb7ca51a30ab689ffe4b9e1eb4c544b91b34c2c7f41beint,
        0x2250eb8205a9551f8d0c3486150db5dfd9ce352cea74b6d0c3c0738f6f3d8408int,
        order(),
    );
    let e = lemma_four_power_steps(
        base(),
        e,
        (true, true, true, true),
        0x2250eb8205a9551f8d0c3486150db5dfd9ce352cea74b6d0c3c0738f6f3d8408int,
        0x2cc5104160764dd7fa29c6eaed1fdf53fb900b7964d1035d7d0da2ca5c8d3606int,
        0x523ec220d9d056a66c7e11ec2bd6c0a3bb5595ca9d8fba868ca697ce849429eint,
        0x489755debdee5bf5c93bcbffbb2aff4069f24b4e72a9d4071b6f64c7a2c01e7int,
        0xbbad1eecb70e89b5fc26658c59e6bbce68f21ad891c461c94d2d03a01e6b29cint,
        order(),
    );
    let e = lemma_four_power_steps(
        base(),
        e,
        (true, false, false, true),
        0xbbad1eecb70e89b5fc26658c59e6bbce68f21ad891c461c94d2d03a01e6b29cint,
        0x1119fe6248a2d2e34cf26ac2169ae5506caf48f441f6992b4f951ea2b14b955fint,
        0x1e5e3eace33af87ad3d7d5899fb4307867dacd135f909a635881294abad8459eint,
        0x204261f9c004045403cd18d41592f936d6ace0945c755b93120a72d6cc5e5ea0int,
        0x150b3f478bbd41c2a5ba02a3a2051a58ec99a3ab4bfb110e2883f60ad29ab711int,
        order(),
    );
    let e = lemma_four_power_steps(
        base(),
        e,
        (true, true, false, true),
        0x150b3f478bbd41c2a5ba02a3a2051a58ec99a3ab4bfb110e2883f60ad29ab711int,
        0x149e3d47eaade2e02c3e1bde42ffbb5d3b10f5a8da63e9443d98aa9d91738c00int,
        0xed4506ec8812472a8b71bca92ead075e792979181cdc8c25a281bc683abeb96int,
        0x7ba90e8947fb01447454f14452ddaee56cb387ef32c97573a6bbfd80c413fe8int,
        0x2784ec32db16a8d197c036744b2241a70028f7a9d68026b3261564cd4a0943fcint,
        order(),
    );
    let e = lemma_four_power_steps(
        base(),
        e,
        (true, true, true, false),
        0x2784ec32db16a8d197c036744b2241a70028f7a9d68026b3261564cd4a0943fcint,
        0x19dece823c132a94a2567826c39f3e801d432e8659687c350307ed5a40e7e711int,
        0x10d15787f14f24874d7ac079734666a9d34d88fc1dfd1ec8cbb84d6698e4af48int,
        0x1102f1dbfa6f0cb39c846c1d0e182efbb88e9f0aa75ea1fc4a225ff8d6718f05int,
        0x133054faaad60b9d0b56f3963bd99e16024ecab2f9fe116cc9eb7720e997c0a7int,
        order(),
    );
    let e = lemma_four_power_steps(
        base(),
        e,
        (true, false, true, false),
        0x133054faaad60b9d0b56f3963bd99e16024ecab2f9fe116cc9eb7720e997c0a7int,
        0xe4350aeafb6ae016178bab69f4af10b619d74b6157c0f47b7863c610083b20int,
        0x2c50be7a703a8ec06633ed18ec86a7d22a3cae572d1142445078663695e26b87int,
        0x12338380bfa921ded8aea529bb517d7096aaeaaa2e860cfdcbcecbdc818b1281int,
        0x131464c000009688675be04eb2861e70d6dd88dd1521913cc90665a3c9d50429int,
        order(),
    );
    let e = lemma_four_power_steps(
        base(),
        e,
        (false, false, true, true),
        0x131464c000009688675be04eb2861e70d6dd88dd1521913cc90665a3c9d50429int,
        0x27c086cb1caaee9e195191ac464829378b89d572d4d4d7bb2e80311bc8ea838fint,
        0x185635f29f35b9d35262acdc73bb7f1c097cc2544b1d604ebf3afa945493466eint,
        0x18f2f19983b607ea637aebdf05e2b2deb185bed803180d4f152355223655bda3int,
        0x1e70d70b3042473db3c88ee00840ee77f1b28b1d6460496ed32e93741eb389f6int,
        order(),
    );
    let e = lemma_four_power_steps(
        base(),
        e,
        (false, false, true, true),
        0x1e70d70b3042473db3c88ee00840ee77f1b28b1d6460496ed32e93741eb389f6int,
        0x11f6e59866b7ec8d7de4c569fcab6f97c41d15f21ba36a0d5b0b13afcc2a6cc2int,
        0x21a1032066275666540fc79fa5fbb5afd0cbec5048c690aad865105ba443cfdeint,
        0x20c6b1e06abe4217afa0d748e01ef1110947db2a903ab80a1b7da4cf344237e2int,
        0x193fc38bdc24f8b04909ae4c56c16ff2567872c6bea93f3c551480e08fe2b043int,
        order(),
    );
    let e = lemma_four_power_steps(
        base(),
        e,
        (true, false, false, false),
        0x193fc38bdc24f8b04909ae4c56c16ff2567872c6bea93f3c551480e08fe2b043int,
        0x28e4dd344ccba3caa94c4916299f2f1c2e17e1b32f44e2cb7d3c5d333240aacbint,
        0x4f21ba1d1469cd3e5761ca4e9ff612515fbf991a0e97569d409b5d650bb957bint,
        0x646f4e3b72c7c5934dc73f0f5c7bf0fcaf3e7f45e7eed4554c9470affe2958aint,
        0x33cf3c77635feadd8fcb7118be89058ef0b0933455d104ee51be00c5e174b84int,
        order(),
    );
    let e = lemma_four_power_steps(
        base(),
        e,
        (true, true, true, false),
        0x33cf3c77635feadd8fcb7118be89058ef0b0933455d104ee51be00c5e174b84int,
        0x29d4d211f554121a4c5098185d945482f792e44ff524e9785f4c76b98f93f087int,
        0x3019c50b2cd5842434f97d00834e3352dc88b95bf152a5ca62f77e42a6669118int,
        0x5632fda2275c853cdcaf32c67b2852947eebbb83206600e2b4c2441ee4bc020int,
        0x2673c66d9e636ef60c5c18db7fe32d670f3aea1071ac50890292a4b63349afecint,
        order(),
    );
    let e = lemma_four_power_steps(
        base(),
        e,
        (true, false, true, true),
        0x2673c66d9e636ef60c5c18db7fe32d670f3aea1071ac50890292a4b63349afecint,
        0x2529d9f9d506cd0ef9b9a9964077db249dad0ae21bb7de4cdc1c4775ef310711int,
        0x29358463a760abf850c46d1db50ce847a093581dd41f56bdc0220ced30801dacint,
        0xe9b7b5bf37dc590e84538593f24a2e5354686bcc8372282a3fab89b30b21cbbint,
        0x8ec0269a8c9313dc4d47abb493f3e33421d484bb887cb0de1c8bd3dd0e3d7ceint,
        order(),
    );
    let e = lemma_four_power_steps(
        base(),
        e,
        (false, true, false, true),
        0x8ec0269a8c9313dc4d47abb493f3e33421d484bb887cb0de1c8bd3dd0e3d7ceint,
        0x210feedaa530c0bff2d3cfef46a8bdf97d0ed3237911c8506f9a21c4fd14adecint,
        0x21877a33e59e4d6baddd6b243f2eef07d7367167687079a0694411bddebe1d3aint,
        0x12353ed5ad447799acedbe05cf492a0f04e31daf655173fb0f8a0ab302deff2dint,
        0x299662f9e8574586530237c7b2e285cc00b75b8c63b1d725b7ffc6d604e94fc8int,
        order(),
    );
    assert(e == 1670836401704629);
}

/// The power whose exponent lacks the factor 1670836401704629.
proof fn lemma_power_modulo_order_without_1670836401704629()
    ensures
        congruent(pow(base(), 13818364434197438864469338081nat), 0x2200524a255dbf6af47485a398ccebd619e3d57040f03e65be26ba6bf27f8ff3int, order()),
{
    lemma_power_start(base(), order());
    let e: nat = 0;
    let e = lemma_four_power_steps(
        base(),
        e,
        (false, false, true, false),
        0x1int,
        0x1int,
        0x1int,
        0x8fdf6a009ddb0f44829608cbae4d277cf3727232b632f357b4ae966ddb136a8int,
        0xe1e6ba2302b44c608f0e8f18de6c2682898b53add1c30d4d2b7d5a1dfb52f80int,
        order(),
    );
    let e = lemma_four_power_steps(
        base(),
        e,
        (true, true, false, false),
        0xe1e6ba2302b44c608f0e8f18de6c2682898b53add1c30d4d2b7d5a1dfb52f80int,
        0x1d44ddd89101748239baed92f2d1f8da6571bde0728453b77f287a47cd9705d4int,
        0x2850c4080a8341d45d54524b04b7dba1bfd29198656dc59a65ed523c6f1cbdfaint,
        0x2d98bf1d63affca10b199b048049ac1e1b8f8afa534a7c5c7f25a02d8570f73int,
        0x22b0aaab00a2f668e98870325a8a65ea55ca9f3bb68a41d3907cb698168fb5d9int,
        order(),
    );
    let e = lemma_four_power_steps(
        base(),
        e,
        (true, false, true, false),
        0x22b0aaab00a2f668e98870325a8a65ea55ca9f3bb68a41d3907cb698168fb5d9int,
        0x1d1fd2a9d8174f1ed625460c9ae261bb7fd42a6838522c649cf3a8406d1a6086int,
        0xb66758d229ff3bb3af249bca478c278ddd01a27f8766e091f0e24332dd8f88int,
        0x4f6a9628d4730c534ace8d474119172cc95419b1c53c5a27878eead0c65fdbfint,
        0x126b37f43f1200681799d95035a91a48c2af845247721da8d72a6d22ef74d5f7int,
        order(),
    );
    let e = lemma_four_power_steps(
        base(),
        e,
        (false, true, true, false),
        0x126b37f43f1200681799d95035a91a48c2af845247721da8d72a6d22ef74d5f7int,
        0x1c014b5df12b9fc50a38b5dde155365a19b650264c63bc6252388dc967c834a3int,
        0x22fe4d9d204d7346bc4b6e300e176e2405ed5d68a697a6395c7ca613e29b88c1int,
        0x921253db5f27fc176752bd62b08af90b6ae22cb0d8cb8d2787fb5480e6ba6f6int,
        0x171f13d01388ee95c34c6acbc02303fdd277bb86ce50ce0f0e0fbfeef06c6931int,
        order(),
    );
    let e = lemma_four_power_steps(
        base(),
        e,
        (false, true, false, false),
        0x171f13d01388ee95c34c6acbc02303fdd277bb86ce50ce0f0e0fbfeef06c6931int,
        0x1a0533256a114f5b9fe2f79f073309a30cb03ab6127ab4afa9cb244524257545int,
        0x250c0c9e96d73d93e304ebe9d1630ee81f856f2ea027fce5e1a44fcb42b03c32int,
        0xf59f2627b477da09353b922ca4939eb56069e295608051a0964e79bd30bafa3int,
        0x13e0c0a0e7e4b99346275f0f1f4757b42bce41637bbf09e1dc494b6863bf9198int,
        order(),
    );
    let e = lemma_four_power_steps(
        base(),
        e,
        (true, false, false, false),
        0x13e0c0a0e7e4b99346275f0f1f4757b42bce41637bbf09e1dc494b6863bf9198int,
        0x26266873db0df7ecc05bd6e64db1c46fd37861843e02588774c626d7c665ea2bint,
        0x1c7bf86252c3a12bd555b59bb15f631f7b424d1dc1e66771ec17493d90615f78int,
        0x159a1af2a6c7e1e48909c5394cb4d700d4d05ee3908947aeb1d0df03e22966caint,
        0x1abde34d51aff1f68a075803054fdae1d579788c63a7bdd5d398f38b46bdf567int,
        order(),
    );
    let e = lemma_four_power_steps(
        base(),
        e,
        (false, true, true, true),
        0x1abde34d51aff1f68a075803054fdae1d579788c63a7bdd5d398f38b46bdf567int,
        0x15051d339b447589084f14e7a30a623cbeae705bc644651d7a494be827f6eaaeint,
        0x27a54b85fc649567210afccab7a338ca7668444f96aec23c4df3b7cb7e28a450int,
        0x1b37214f249ad3efc33252b4193778553d8ae8fb1857ddd743441054925b3d31int,
        0xe2516a35b57362d4cb7dea238f23cf799c35bb7b73ff811210f9988c2146c93int,
        order(),
    );
    let e = lemma_four_power_steps(
        base(),
        e,
        (true, true, false, false),
        0xe2516a35b57362d4cb7dea238f23cf799c35bb7b73ff811210f9988c2146c93int,
        0x71e44f65f3006fbf55c55ceaa477c0a7b41734083eab6c0b79c0a657383356aint,
        0xf718a68b7b16760f47e43cc14d43dff52314fcae99f2e7c2a9cfec5be64d6b0int,
        0x2237dd4a55bcf95d2f2dda68e398d7af31a73f4938c12b91c7f8d0ca50a9a914int,
        0x16cd7595e8df2197b947a7a7d188689b26a4a3e7457640c5ef00a48c491e6c23int,
        order(),
    );
    let e = lemma_four_power_steps(
        base(),
        e,
        (true, true, true, true),
        0x16cd7595e8df2197b947a7a7d188689b26a4a3e7457640c5ef00a48c491e6c23int,
        0x26e30d82fe9e1e3cba095d3b284a68d07278e3426a631fcd21fcb2b168d68febint,
        0x21863b6d6d3453a298a4d2641ad0beccbf9d3954968eb5f61fa77dabd1f1d651int,
        0x13661526c80ae0fc6165a47001d93f015ae927766266cb793a3538c4941dce76int,
        0x9a3bb98ad1482bed703ad0eddacb10d258d70b7d8f95bdeff7d60d1c89b08a2int,
        order(),
    );
    let e = lemma_four_power_steps(
        base(),
        e,
        (true, true, false, false),
        0x9a3bb98ad1482bed703ad0eddacb10d258d70b7d8f95bdeff7d60d1c89b08a2int,
        0x23fbe26324fdc9c46d18050ba8bd856440218b2b71bcdd104f03841ec50fe974int,
        0x1c8a257bf6e0f5ec1ec53b0093279eb64e1918db18fb45fc122d14f107ce5581int,
        0x230b54dbd8e59978b19435ea6a380ee2d63dfa0bcf522cca69cd2af2275f369dint,
        0xd237577ca9f3a0986562ba48412759531b52dceacca4dd006a7959222323064int,
        order(),
    );
    let e = lemma_four_power_steps(
        base(),
        e,
        (true, true, false, true),
        0xd237577ca9f3a0986562ba48412759531b52dceacca4dd006a7959222323064int,
        0x12408d1ee3c8e52a1b80357a93544cb84689d1b781c56e75051ee761582e07b2int,
        0x13c010c149103f1de36a6ee3341b0160caec486022a165ad6b6384b2d777d040int,
        0x2d8547341e7b1efb1c8c53610a5489988fa610bece88218c52b9830e09facad0int,
        0x129c8d32bbd43f0a227260dd51e0069c825a51464a487e16047e11c4984861a5int,
        order(),
    );
    let e = lemma_four_power_steps(
        base(),
        e,
        (false, true, true, true),
        0x129c8d32bbd43f0a227260dd51e0069c825a51464a487e16047e11c4984861a5int,
        0xa18a97df531f95951cba64947c1fd703eedfa73c18d977f321423b34a130990int,
        0x154bd7b4da09c86bbabe8a8cd134fd9b5ce4e1eb29e15c84815a7a0ac6bdd0ccint,
        0x25a9c9f2a54d18a891741a8ffe4f128bbb22316798baf1c7c556f9f1ac7e6b02int,
        0x14db2f233e523efc1a011b9376af1ebd4d5a94e57c7250a9e47ec9019239cd36int,
        order(),
    );
    let e = lemma_four_power_steps(
        base(),
        e,
        (true, false, false, true),
        0x14db2f233e523efc1a011b9376af1ebd4d5a94e57c7250a9e47ec9019239cd36int,
        0x1d60991d8e42ffb79396403fa4bacebb4d3b7776074ccdae621d6378fc8b4f41int,
        0xa80dfe6ff39e1818a0bb6a1c270014ac691fc1816791226b63867134a587e06int,
        0x1cd18e39fff6b5e554611e9dcc71fd37d3d7744f52b5170c7bbe2a077ed26515int,
        0x22fafcd41ce9cfedd8079a48864f1b2af064adc8577e480dc953d0438796969bint,
        order(),
    );
    let e = lemma_four_power_steps(
        base(),
        e,
        (false, true, false, true),
        0x22fafcd41ce9cfedd8079a48864f1b2af064adc8577e480dc953d0438796969bint,
        0x83937f5f7f47e6ea438a8f95f20aec2405b7ac200e73e4ece1a26d1f68ae629int,
        0x2474507c081fce953f39b38e727feac31eccb1bb9e9dffe50209fe6e874bcb43int,
        0x1e137e45f69fb8ddb673271632267f1195fb9b586ed3d6a3c5fac197cae489dcint,
        0x2e8bd58798dd2d2975e41b8fb2a2aa99e9c32983fe72ea0284154278b9c412fint,
        order(),
    );
    let e = lemma_four_power_steps(
        base(),
        e,
        (true, true, true, false),
        0x2e8bd58798dd2d2975e41b8fb2a2aa99e9c32983fe72ea0284154278b9c412fint,
        0x212ca2e3dc4db526dfbb49c84246eb4135b6b7b9c009898c816f025e514a8158int,
        0x2a74881ca50dc33fef15667e3e53fe4ae263fc05194f6e3b8cb8df47d2f96b18int,
        0x2a843b016306164ff0831d6e36bbf01334e1fd217786be1ee259d30a14916522int,
        0x5a506cd18cd76c24b43de12d906eccf381a5ea6bad4d0d59b2bfd8b0634dd14int,
        order(),
    );
    let e = lemma_four_power_steps(
        base(),
        e,
        (true, false, false, false),
        0x5a506cd18cd76c24b43de12d906eccf381a5ea6bad4d0d59b2bfd8b0634dd14int,
        0x21df613fe909b9484c7b03277b1ebc47adfe55e3f08e0b7b3ed36cb616342d5cint,
        0x8423d9aadb24ab87c10633909d575f92e59b970e2f2bb45fdb362acf4afdd93int,
        0xc6e1272a1c687643890468473b44d88e64c127971d811a52e67a572f6a1d136int,
        0x29a9c259294e3c4a0b93861219a8f0f959028eea9ec6d46c808b2e1dc331e84eint,
        order(),
    );
    let e = lemma_four_power_steps(
        base(),
        e,
        (false, true, true, true),
        0x29a9c259294e3c4a0b93861219a8f0f959028eea9ec6d46c808b2e1dc331e84eint,
        0x10a24623af30b8bdcf66ae387c5abe7048a9863863c5ef06a4445794f6dade7bint,
        0x12ade1f1782518827f253adb12c08114e4ada0e65c4af313cb74cf98e54f475cint,
        0x57eb9b192e4f396f75c4d9a1920e00de85da9bb61043f23be67c2d9322b5c85int,
        0x3e64b43d62f1f8ad3e78d44f3726553e8519a661214213e082650c345b02b2bint,
        order(),
    );
    let e = lemma_four_power_steps(
        base(),
        e,
        (false, false, true, false),
        0x3e64b43d62f1f8ad3e78d44f3726553e8519a661214213e082650c345b02b2bint,
        0xa82c2b31e3b9b2f36600b82be194e8a26cc29729154c4cb60a48bade4a02562int,
        0x2dc1409c625114c18a1e7ebfcdd352a61104e7e29236ccc93d7ecc4080503728int,
        0x130e83b3a8e36c56d952b9d4ce730c55b1e5b2c02361750f5ec5137110e51cbdint,
        0x178603a2735be45b1a609f747df6334ca1123bb2e070d5785d22dcdbe44af403int,
        order(),
    );
    let e = lemma_four_power_steps(
        base(),
        e,
        (true, false, false, true),
        0x178603a2735be45b1a609f747df6334ca1123bb2e070d5785d22dcdbe44af403int,
        0x1e211916d6dec8fe6ed3bd50b0946d06e149c8cd5589d9d652ffea6ae39e83b0int,
        0x344d971db60e764cb45756fde63ab4c18a998c57e0c0f2a4b9c47d95e66e92bint,
        0x1bab6febc5f4feb818c59e62123207937f8a8dce17854258cd9d6362486c0f11int,
        0xe6a00512a5b9cc63f9c163c505723695a8ff194abfb81c276b671aebf21e697int,
        order(),
    );
    let e = lemma_four_power_steps(
        base(),
        e,
        (false, true, false, true),
        0xe6a00512a5b9cc63f9c163c505723695a8ff194abfb81c276b671aebf21e697int,
        0x2531ba888f125c19bef81e3a3ebc510134921529f640a3b55794a62db64bee48int,
        0xacd68e2e7f0e6b3719aa71aab61f14569f8968b8260ec8fde3843d603f8851cint,
        0x17ed2723a15bd731ce674d6c22be3e16a325619f3f56dcf6c9aed106d9b66b98int,
        0xdcc2fb670a38e172a6aaaba79ad2c9679b34a0ebf0ab187389906ee2c0ce734int,
        order(),
    );
    let e = lemma_four_power_steps(
        base(),
        e,
        (false, false, true, false),
        0xdcc2fb670a38e172a6aaaba79ad2c9679b34a0ebf0ab187389906ee2c0ce734int,
        0x231319ea986906b787a5d34fe761ca4b176c33732184cd38d7aee68546f1a6dint,
        0x1e67d0c55a595b0c9d035f3607c28b50767dad6895d878a1845d10a1dd2b7c20int,
        0xc78a90735b8ddc35a514a5336207ae69a12e1668568bab223b9405560a264bint,
        0x160dd019068d7f3dda7750732f5beca3cc7122709209473faa1e536013fb630cint,
        order(),
    );
    let e = lemma_four_power_steps(
        base(),
        e,
        (false, true, true, true),
        0x160dd019068d7f3dda7750732f5beca3cc7122709209473faa1e536013fb630cint,
        0x2b6bbe26082d2aa197ec9af46c5e31f09d9c790e893a9542925f797d11cd633bint,
        0x25e4b0f7559c73e62e3a0815f66cea5ca47f8c8ee61e44b350e724c406b3a5b8int,
        0x2056dc80d59ee42e73ffed9e0516a05046d56b8e0985a5aed82d762a191ac26int,
        0xcaddb702982d1a5a880c2ad424415df499b417a348a2561ecc6f1ad155eec39int,
        order(),
    );
    let e = lemma_four_power_steps(
        base(),
        e,
        (true, true, true, false),
        0xcaddb702982d1a5a880c2ad424415df499b417a348a2561ecc6f1ad155eec39int,
        0x397e85855ca66990e83b90d0499fdff43d0d4ce2efeede50b096d2432a0d60cint,
        0x21be9b1c300ab61e9c12fbabc11e2ae3e0b8997bfdfe0fb577221db63e785100int,
        0x10acfe6980db4c24a9050a42757e8115c92cf84a38d29288f67c681b8bcc34f1int,
        0x17f95e389f80f635f826fb70c48648235f74c74d5b14993569da5d5ab9ff6896int,
        order(),
    );
    let e = lemma_four_power_steps(
        base(),
        e,
        (false, false, false, true),
        0x17f95e389f80f635f826fb70c48648235f74c74d5b14993569da5d5ab9ff6896int,
        0x1781901d5464a0968ae7007da96bb0ec41b1691d36533e38a60e0546928b5debint,
        0x839295cfbd1a6da3b7791dc221ba0534ed2709bcf00b4fd080cfb4537805ffbint,
        0x176fd2495eff53c1517f55b0d7f066c0e1403a5ae93609a1ce753a4bc35ca7c3int,
        0x2200524a255dbf6af47485a398ccebd619e3d57040f03e65be26ba6bf27f8ff3int,
        order(),
    );
    assert(e == 13818364434197438864469338081);
}

/// The power that is congruent to one when that factor is added.
proof fn lemma_power_modulo_order_with_13818364434197438864469338081()
    ensures
        congruent(pow(0x299662f9e8574586530237c7b2e285cc00b75b8c63b1d725b7ffc6d604e94fc8int, 13818364434197438864469338081nat), 0x1int, order()),
{
    lemma_power_start(0x299662f9e8574586530237c7b2e285cc00b75b8c63b1d725b7ffc6d604e94fc8int, order());
    let e: nat = 0;
    let e = lemma_four_power_steps(
        0x299662f9e8574586530237c7b2e285cc00b75b8c63b1d725b7ffc6d604e94fc8int,
        e,
        (false, false, true, false),
        0x1int,
        0x1int,
        0x1int,
        0x299662f9e8574586530237c7b2e285cc00b75b8c63b1d725b7ffc6d604e94fc8int,
        0x14164d1407184b86b6cd895b52855947f3a428a1525643c44e27b7a8ea2b8ff2int,
        order(),
    );
    let e = lemma_four_power_steps(
        0x299662f9e8574586530237c7b2e285cc00b75b8c63b1d725b7ffc6d604e94fc8int,
        e,
        (true, true, false, false),
        0x14164d1407184b86b6cd895b52855947f3a428a1525643c44e27b7a8ea2b8ff2int,
        0x9dfd32fe7e8ccd55732ccab524e9897f07bd29e531ab96bc18a8b8f591f7e80int,
        0x101d08329b45bba75574ebc792ffce263292ed9611e9c9c131a8aa24e803b25cint,
        0x240f58b01e17416cc9f2f0cd3fd90e2f3de69f37a23b84793451c4d075d4327bint,
        0x2919b9f31b823ef29de7ec6f787441ca15456d7e021b8e7cca77bf7cc2d15d13int,
        order(),
    );
    let e = lemma_four_power_steps(
        0x299662f9e8574586530237c7b2e285cc00b75b8c63b1d725b7ffc6d604e94fc8int,
        e,
        (true, false, true, false),
        0x2919b9f31b823ef29de7ec6f787441ca15456d7e021b8e7cca77bf7cc2d15d13int,
        0x7e4bbf8b24c8d823eb098cf4eb9468963a0be2a962e8d1da791b20a34de43a9int,
        0x30431278d975fffd51a4eadadb98080b36695422b4d7a9a0bff1af6fce16b428int,
        0x13d7af05a5534ce13def62e94630ca666a56292d3ee608e2f294441adec73057int,
        0x1b961760f8a62e9e90968efc293b46fb0c995f2937accded875160bf225d191dint,
        order(),
    );
    let e = lemma_four_power_steps(
        0x299662f9e8574586530237c7b2e285cc00b75b8c63b1d725b7ffc6d604e94fc8int,
        e,
        (false, true, true, false),
        0x1b961760f8a62e9e90968efc293b46fb0c995f2937accded875160bf225d191dint,
        0x28c8faf86bcde4bfe3e4a346e21b99ae00e9a35ba960abc2e00dc0ad982fbcd0int,
        0x2806f39ddcfafa59c922575efe3afaadef621fe9b57c40c9390d1581391a8441int,
        0x2fe6e8b565df4ce2c5c519a182203496d1dd6cdea8c3c58f7ecd6502ddd6290aint,
        0x1b3fb985c5a0fabd0d131497c4cc73dc65bb6d56a1ce030e84b8c639b6f74feeint,
        order(),
    );
    let e = lemma_four_power_steps(
        0x299662f9e8574586530237c7b2e285cc00b75b8c63b1d725b7ffc6d604e94fc8int,
        e,
        (false, true, false, false),
        0x1b3fb985c5a0fabd0d131497c4cc73dc65bb6d56a1ce030e84b8c639b6f74feeint,
        0x1db89c97450a4c6cb90af679c0e48e751c536feb7b5a5a0b5aae1808e07686abint,
        0x29d5437ac59a794cd3fc3e8f6cff77a287178d90733525bd6c379d50068bbfe1int,
        0x237986076e99ee1d7a530ad98e625d191837b8916b90aad047a5e2222cab5e47int,
        0x5a190dc26bf9f8f91a957ef74d4cce83c68cb220fd5ad971d6b31297b6ac397int,
        order(),
    );
    let e = lemma_four_power_steps(
        0x299662f9e8574586530237c7b2e285cc00b75b8c63b1d725b7ffc6d604e94fc8int,
        e,
        (true, false, false, false),
        0x5a190dc26bf9f8f91a957ef74d4cce83c68cb220fd5ad971d6b31297b6ac397int,
        0x1e624c3ebe5c9bb837e4bba8f723dd626dd203edced6e9d9e78413c53544f83fint,
        0x146ff96f4a12696fa4e42f994195424bdce1b39fc73fee3af0a3824a6eef3afcint,
        0x1d6790829e56736e4d65b44f80a03ad26bbbb5eb898063996b4e46192cd4949fint,
        0x234c8c5a4edeb563a9cf667990e6df1ecb2eca043cd1be26566bbab499befd06int,
        order(),
    );
    let e = lemma_four_power_steps(
        0x299662f9e8574586530237c7b2e285cc00b75b8c63b1d725b7ffc6d604e94fc8int,
        e,
        (false, true, true, true),
        0x234c8c5a4edeb563a9cf667990e6df1ecb2eca043cd1be26566bbab499befd06int,
        0x2a321a6e5ae74f14ff8417ebbc4889db7036defe99a17599124f2a668d1f9187int,
        0x41fe4cc45d65baa107d663b9ffdfa4135b975c0447ba57002d3e86e8b2c0e69int,
        0x1d3fe69eb31bc2e4f53f1c176312097841fc2dc47af7c01e9543f695f715adc9int,
        0x19198e49d99e0a921d52a1da4ed3f77f20155fc8554f7b15ecc7bf8fdbf82a77int,
        order(),
    );
    let e = lemma_four_power_steps(
        0x299662f9e8574586530237c7b2e285cc00b75b8c63b1d725b7ffc6d604e94fc8int,
        e,
        (true, true, false, false),
        0x19198e49d99e0a921d52a1da4ed3f77f20155fc8554f7b15ecc7bf8fdbf82a77int,
        0x1ddb359ee3f8207ad11dc20ee84815e5b8ff6df5453e88a8688538bfabff2ba6int,
        0xb93404cf0f54dae63ee503fcdc7a410b2e3aa7aacfacc74530fb2c960bfd9deint,
        0x137cd6208e61b679dfb9bf4696034355809d06777d298ea22a598b421145099int,
        0x90751ab47a7165b72dbde324c1e06d7ca37e7a94aa84fbb4d45dbc86f59eec4int,
        order(),
    );
    let e = lemma_four_power_steps(
        0x299662f9e8574586530237c7b2e285cc00b75b8c63b1d725b7ffc6d604e94fc8int,
        e,
        (true, true, true, true),
        0x90751ab47a7165b72dbde324c1e06d7ca37e7a94aa84fbb4d45dbc86f59eec4int,
        0x22a585bd8caecdb6ce5e5dd927b6aaa57748f53fc4a1cb65c8fed46cb3b9295aint,
        0x1141eac00f7d9432ab3b7f9b338c5f892f449cfeb4ff59c68581bab1c7bf6351int,
        0x1165f3a1cad4534b8841a198202756a939de0c79f9bc99c4bc96a7df601a43a8int,
        0x1f9875ae7026de7e8c8140eeb4918059e3af3dc4763ce8b221a159f2326271fdint,
        order(),
    );
    let e = lemma_four_power_steps(
        0x299662f9e8574586530237c7b2e285cc00b75b8c63b1d725b7ffc6d604e94fc8int,
        e,
        (true, true, false, false),
        0x1f9875ae7026de7e8c8140eeb4918059e3af3dc4763ce8b221a159f2326271fdint,
        0xb82aee0eb09d1fa794b90ba2c7124ff0aedb975aee3ad6c28cd7ad9900f8a14int,
        0x1f4eb7b568105e216113da10b635861ed215ea035d4ed2d1c0fcf0645e1587beint,
        0x250ce00d0889246a92a94e1856feab1095a7c763d2bb571a06521a83c8345eb0int,
        0x3064374f63c0f26cedd06fc7918cae7c0f5be935b463605a1c8b1f9a3354bc40int,
        order(),
    );
    let e = lemma_four_power_steps(
        0x299662f9e8574586530237c7b2e285cc00b75b8c63b1d725b7ffc6d604e94fc8int,
        e,
        (true, true, false, true),
        0x3064374f63c0f26cedd06fc7918cae7c0f5be935b463605a1c8b1f9a3354bc40int,
        0x2a568fec0075c258e69b486fce3adf5549cf82b5e8e498cbe49464ade25680cdint,
        0x198a203e3215d19d54d6242e0d676762638fd54ccb4d5282a847f1599a13b1ebint,
        0xb2c721ce4da7d3caf57988e593cd6ec14ec946681620a44a862fe7fa2147140int,
        0x6a05e118831cc3980ff1392d5489aac2fc230b2882db66359ef5383d05dc9d6int,
        order(),
    );
    let e = lemma_four_power_steps(
        0x299662f9e8574586530237c7b2e285cc00b75b8c63b1d725b7ffc6d604e94fc8int,
        e,
        (false, true, true, true),
        0x6a05e118831cc3980ff1392d5489aac2fc230b2882db66359ef5383d05dc9d6int,
        0x28fe4e7c96c3af7dadb054d1705c99ec14e06f48632386f7fc40e66d16b0b2bint,
        0x226a42087348f9a07a361304551a36794894752cbe3a8fd640c8021c101a5607int,
        0x2c3c76e52a19a9669194ff38d5ceebaced8407618d2d53f571ca1af60db36707int,
        0x2329119199a6bc308fc326f279b99d50aa357260da9603f1f6bbec76f2535f61int,
        order(),
    );
    let e = lemma_four_power_steps(
        0x299662f9e8574586530237c7b2e285cc00b75b8c63b1d725b7ffc6d604e94fc8int,
        e,
        (true, false, false, true),
        0x2329119199a6bc308fc326f279b99d50aa357260da9603f1f6bbec76f2535f61int,
        0x2315cf1502739a5080713d02bcbf4a6a57b9162a978905a8e7ce03ca83888d36int,
        0x126b05ad01ae8d1a1be725d1a5a1b40c2c68df86a390e70f610014cb8e0dd2dint,
        0x2ecd6b5dccac9a51e238b81307c9e176df6086948fd5b501a25da4a3cae4744aint,
        0x11f9662095272b35ebc95630af0a077dd103380611f98a3eae7a9e791bb685d9int,
        order(),
    );
    let e = lemma_four_power_steps(
        0x299662f9e8574586530237c7b2e285cc00b75b8c63b1d725b7ffc6d604e94fc8int,
        e,
        (false, true, false, true),
        0x11f9662095272b35ebc95630af0a077dd103380611f98a3eae7a9e791bb685d9int,
        0x2c9f2198245a2cfc3be8adfb29721a795693b80c36291d61e580808d902d0b24int,
        0x292427a9ec0cebdf58c59836b708642480947340344f841fbbda9a9c59cb216cint,
        0x186fa1672e40bca0fc8a663b489c1f20181308433d5e2da409fdd82773c1fd9bint,
        0x1a82e4116390cc5b03ba34c0a8a558d2321a182bd2360918bce473c920e026ccint,
        order(),
    );
    let e = lemma_four_power_steps(
        0x299662f9e8574586530237c7b2e285cc00b75b8c63b1d725b7ffc6d604e94fc8int,
        e,
        (true, true, true, false),
        0x1a82e4116390cc5b03ba34c0a8a558d2321a182bd2360918bce473c920e026ccint,
        0x55dc892d609c6fecd31e226470a4f567da2737fed672de81caf81e78b76970bint,
        0x2949238202d11cf4f2228572a8ad882dfcdba4667351abe7d2ad327c537a624fint,
        0x27f2bcf3aafbcf3014eb1155489b9734bd134c1316cdaa6f630c76d3d1dc134dint,
        0x1bfede5291f7c4e960c56b64ca3d720a2a71a10286d9ee3b8eb177a36c1f7bfdint,
        order(),
    );
    let e = lemma_four_power_steps(
        0x299662f9e8574586530237c7b2e285cc00b75b8c63b1d725b7ffc6d604e94fc8int,
        e,
        (true, false, false, false),
        0x1bfede5291f7c4e960c56b64ca3d720a2a71a10286d9ee3b8eb177a36c1f7bfdint,
        0xbdf58288953de263d2f35f299fd75f27899616244343f9c2a830ac8525007ecint,
        0x1833c5a41712e2f0eb20fac3dbc580b22876668d0c6cf9285a1d7abda686bc20int,
        0x299debabfb9a099ec03d4a25a732caa855c0f68116d47f106e26a42459ee6c32int,
        0x2614b5aaa170598b2580c2e773ddfd18e709fdb74dbbbbb4ec16ec55261129ccint,
        order(),
    );
    let e = lemma_four_power_steps(
        0x299662f9e8574586530237c7b2e285cc00b75b8c63b1d725b7ffc6d604e94fc8int,
        e,
        (false, true, true, true),
        0x2614b5aaa170598b2580c2e773ddfd18e709fdb74dbbbbb4ec16ec55261129ccint,
        0x2f125dfee7c919eee4e22c8044e145af4ebf0e079d7cd54257dd61b264027105int,
        0x290129aee7bdaa520cd794ced2e50370e59d12aa4d37ff46fd482b05a608756int,
        0x8e701114eb0bfea3dbdd84dda51240dcf0d8d52018c3a9fac38452feaecc1e3int,
        0x2ddf233601012df88a20cc2b7c616046ea604c1f0da97ffb250fa11862f9f382int,
        order(),
    );
    let e = lemma_four_power_steps(
        0x299662f9e8574586530237c7b2e285cc00b75b8c63b1d725b7ffc6d604e94fc8int,
        e,
        (false, false, true, false),
        0x2ddf233601012df88a20cc2b7c616046ea604c1f0da97ffb250fa11862f9f382int,
        0x176467b5174143ba79e94aced99328cb60755b523927c59c1232b0d6e4e1e5beint,
        0x30319b1973c7e84ded3e6e85dc57dd748024ea18e11a1fa4b0019b4103a0d41int,
        0x301afd7e9a0676791344596f003fb3224ff41a6ad1646c6ba41d279f86d99eadint,
        0xd8cf583f4cf5b0a6fdbe527825be5fecab2b01dfd3b2bc6d64d8b81da8b377fint,
        order(),
    );
    let e = lemma_four_power_steps(
        0x299662f9e8574586530237c7b2e285cc00b75b8c63b1d725b7ffc6d604e94fc8int,
        e,
        (true, false, false, true),
        0xd8cf583f4cf5b0a6fdbe527825be5fecab2b01dfd3b2bc6d64d8b81da8b377fint,
        0x2c9a2abb628353d635463ddb07bbcdd206f50cbd2d81ea973954468357c9b29eint,
        0x1a77729567b1118ec135a4e9f42e933da2e15a703835e10912e84f1ea6ace27int,
        0x27aaed472f1a6bf74c19199774526e4b2115177fa9ba48517368329dc2f0cb86int,
        0xd242eef20b41367900abbbfb47d952b4a79d6950ca44dc16ec76000a5eff051int,
        order(),
    );
    let e = lemma_four_power_steps(
        0x299662f9e8574586530237c7b2e285cc00b75b8c63b1d725b7ffc6d604e94fc8int,
        e,
        (false, true, false, true),
        0xd242eef20b41367900abbbfb47d952b4a79d6950ca44dc16ec76000a5eff051int,
        0x2b4df3370963e36159582f7e3c1e9d23de6e426431b6ac126fad773f87f5dd4dint,
        0x1414c92c4cb959c2da2c60d304841de6b0867aeee41e58260184dda12851c0int,
        0x25f8fe7b0868a8d4a2c878916540bb5555e6fed8ba058557095482309785c2c8int,
        0x1fb2bd77e5ee59bb74a1a1f4b902d4af12123059749afe333bc0a40c4548dcacint,
        order(),
    );
    let e = lemma_four_power_steps(
        0x299662f9e8574586530237c7b2e285cc00b75b8c63b1d725b7ffc6d604e94fc8int,
        e,
        (false, false, true, false),
        0x1fb2bd77e5ee59bb74a1a1f4b902d4af12123059749afe333bc0a40c4548dcacint,
        0x1c0fd99aec80b8b20da59a42b8e411248320cbc5c1a8152718e9296edbad01aaint,
        0x15947c2d00f2d7f5648b0d15f39c327e9e5b86592c5592b856442fb82f5d3d53int,
        0x84a9140e20b7b46a57ca3f25998294254a9a7da040cb353f8d5764cc718809cint,
        0x11867375f550e7b5eaff8db153e3c0c43504134c6d424b489d7e6f348bf0da30int,
        order(),
    );
    let e = lemma_four_power_steps(
        0x299662f9e8574586530237c7b2e285cc00b75b8c63b1d725b7ffc6d604e94fc8int,
        e,
        (false, true, true, true),
        0x11867375f550e7b5eaff8db153e3c0c43504134c6d424b489d7e6f348bf0da30int,
        0x16829601e4c450272a1c92fe05d7b517fe5bcd773c9d737d075add7765e1d30fint,
        0x3ed12740274de9a894362b80ea711fded37848eeda95388a9162eead849ced1int,
        0x1f7ddd2f2d12c9aa0f588ceb0d0a0296ef3b4750cfd626f23ccd9eac80403618int,
        0x211b8caf2045213dfd6cc1ab641a2aedfe7a81df1441c64a55e8ae981124142cint,
        order(),
    );
    let e = lemma_four_power_steps(
        0x299662f9e8574586530237c7b2e285cc00b75b8c63b1d725b7ffc6d604e94fc8int,
        e,
        (true, true, true, false),
        0x211b8caf2045213dfd6cc1ab641a2aedfe7a81df1441c64a55e8ae981124142cint,
        0x2733abf8df6da3635669f39d9cd41b4bedb72aa890513f49cf8c48bab0354af2int,
        0xecdba668be6ff9c48145dc91a165eb8f395b9a87fb469e5eb1ef4d8614fbb6int,
        0x13f4da79ca1d937eed2739aa0c7ef490e287c6155d7d202928e8d938b7eae81dint,
        0xd0e1902067bc0770d5f1f7b778afaaf72ce681ae741e1b2a373a658e974857cint,
        order(),
    );
    let e = lemma_four_power_steps(
        0x299662f9e8574586530237c7b2e285cc00b75b8c63b1d725b7ffc6d604e94fc8int,
        e,
        (false, false, false, true),
        0xd0e1902067bc0770d5f1f7b778afaaf72ce681ae741e1b2a373a658e974857cint,
        0xe9193eb33f3a07f27171b10d35b91c646fcbd6e2566a3e2b9ee4f043df0d8f0int,
        0x3c02dbd43ff9721856ac465c418ee41e871aaf10908b0d5b18c4b69dec74d9bint,
        0x259fd4dca443f017da722f095c2731018c7e309c93930a687f0c84632463ed89int,
        0x1int,
        order(),
    );
    assert(e == 13818364434197438864469338081);
}

/// The order of the groups is a prime.
pub proof fn law_group_order_is_prime()
    ensures
        is_prime(group_order()),
{
    lemma_prime_13818364434197438864469338081();
    lemma_prime_1670836401704629();
    lemma_power_modulo_order_without_13818364434197438864469338081();
    lemma_power_modulo_order_without_1670836401704629();
    lemma_power_modulo_order_with_13818364434197438864469338081();
    lemma_power_of_power(
        base(),
        1670836401704629nat,
        0x299662f9e8574586530237c7b2e285cc00b75b8c63b1d725b7ffc6d604e94fc8int,
        13818364434197438864469338081nat,
        order(),
    );
    assert(1670836401704629nat * 13818364434197438864469338081nat == 23088226308677670388631582763742451703676949nat);
    lemma_forced_factor(
        base(),
        1670836401704629nat,
        13818364434197438864469338081int,
        0x299662f9e8574586530237c7b2e285cc00b75b8c63b1d725b7ffc6d604e94fc8int,
        0x29a1d6cdff4615644953694b0908408f070056350f6009ad0924c654e07a589dint,
        order(),
    );
    assert(13818364434197438864469338081nat * 1670836401704629nat == 23088226308677670388631582763742451703676949nat);
    lemma_forced_factor(
        base(),
        13818364434197438864469338081nat,
        1670836401704629int,
        0x2200524a255dbf6af47485a398ccebd619e3d57040f03e65be26ba6bf27f8ff3int,
        0x30b43c635b2375e9f82f247135e791541018e190295925392ce8c12f2bea62int,
        order(),
    );
    lemma_forced_product(base(), 13818364434197438864469338081int, 1670836401704629int, order());
    assert(13818364434197438864469338081int * 1670836401704629int == 23088226308677670388631582763742451703676949int);
    lemma_prime_by_forced_exponent(
        base(),
        23088226308677670388631582763742451703676949nat,
        23088226308677670388631582763742451703676949nat,
        order(),
    );
}

} // verus!
