//! The provider catalog: three providers per country, and for each provider
//! the weights with which it gives each soft decline reason.

use crate::models::psp::{DeclineReason, PspConfig, PspConfigView};
use crate::models::transaction::Country;
use crate::text::same_text;
use vstd::prelude::*;

verus! {

/// One soft decline reason and its weight, in percent.
#[derive(Clone, Copy, Debug, PartialEq, Eq, Structural)]
pub struct DeclineWeight {
    pub reason: DeclineReason,
    pub weight_pct: u32,
}

/// The weights of the four soft reasons, in the fixed order issuer
/// unavailable, suspected fraud, do not honor, processor declined.
pub open spec fn weights_of(issuer: u32, fraud: u32, honor: u32, processor: u32) -> Seq<
    DeclineWeight,
> {
    seq![
        DeclineWeight { reason: DeclineReason::IssuerUnavailable, weight_pct: issuer },
        DeclineWeight { reason: DeclineReason::SuspectedFraud, weight_pct: fraud },
        DeclineWeight { reason: DeclineReason::DoNotHonor, weight_pct: honor },
        DeclineWeight { reason: DeclineReason::ProcessorDeclined, weight_pct: processor },
    ]
}

/// The soft decline distribution of each provider. Each catalog provider
/// leans on one reason, with weight 45; any other identifier gets the even
/// distribution.
pub open spec fn decline_distribution(psp_id: Seq<char>) -> Seq<DeclineWeight> {
    if psp_id == "psp_br_1"@ {
        weights_of(45, 20, 20, 15)
    } else if psp_id == "psp_br_2"@ {
        weights_of(15, 45, 25, 15)
    } else if psp_id == "psp_br_3"@ {
        weights_of(15, 20, 45, 20)
    } else if psp_id == "psp_mx_1"@ {
        weights_of(20, 15, 20, 45)
    } else if psp_id == "psp_mx_2"@ {
        weights_of(45, 20, 15, 20)
    } else if psp_id == "psp_mx_3"@ {
        weights_of(15, 45, 20, 20)
    } else if psp_id == "psp_co_1"@ {
        weights_of(20, 15, 45, 20)
    } else if psp_id == "psp_co_2"@ {
        weights_of(45, 20, 20, 15)
    } else if psp_id == "psp_co_3"@ {
        weights_of(15, 20, 20, 45)
    } else {
        weights_of(25, 25, 25, 25)
    }
}

/// Sum of the weights of a distribution.
pub open spec fn weight_total(weights: Seq<DeclineWeight>) -> nat
    decreases weights.len(),
{
    if weights.len() == 0 {
        0
    } else {
        weight_total(weights.drop_last()) + weights.last().weight_pct as nat
    }
}

/// What every distribution of the catalog satisfies: four entries, all of
/// them soft reasons, with weights that sum to exactly one hundred percent.
pub open spec fn distribution_sound(weights: Seq<DeclineWeight>) -> bool {
    &&& weights.len() == 4
    &&& forall|i: int| 0 <= i < weights.len() ==> (#[trigger] weights[i]).reason.spec_is_soft()
    &&& weight_total(weights) == 100
}

proof fn lemma_weights_of_sound(issuer: u32, fraud: u32, honor: u32, processor: u32)
    requires
        issuer + fraud + honor + processor == 100,
    ensures
        distribution_sound(weights_of(issuer, fraud, honor, processor)),
{
    let w = weights_of(issuer, fraud, honor, processor);
    let w3 = w.drop_last();
    let w2 = w3.drop_last();
    let w1 = w2.drop_last();
    assert(w1.drop_last().len() == 0);
    assert(weight_total(w1.drop_last()) == 0);
    assert(weight_total(w1) == issuer);
    assert(weight_total(w2) == issuer + fraud);
    assert(weight_total(w3) == issuer + fraud + honor);
    assert(w.len() == 4);
    assert(w[0].reason.spec_is_soft());
    assert(w[1].reason.spec_is_soft());
    assert(w[2].reason.spec_is_soft());
    assert(w[3].reason.spec_is_soft());
}

/// Every provider identifier, in the catalog or not, has a sound
/// distribution.
pub proof fn lemma_distribution_sound(psp_id: Seq<char>)
    ensures
        distribution_sound(decline_distribution(psp_id)),
{
    lemma_weights_of_sound(45, 20, 20, 15);
    lemma_weights_of_sound(15, 45, 25, 15);
    lemma_weights_of_sound(15, 20, 45, 20);
    lemma_weights_of_sound(20, 15, 20, 45);
    lemma_weights_of_sound(45, 20, 15, 20);
    lemma_weights_of_sound(15, 45, 20, 20);
    lemma_weights_of_sound(20, 15, 45, 20);
    lemma_weights_of_sound(15, 20, 20, 45);
    lemma_weights_of_sound(25, 25, 25, 25);
}

fn make_weights(issuer: u32, fraud: u32, honor: u32, processor: u32) -> (weights: Vec<
    DeclineWeight,
>)
    ensures
        weights@ == weights_of(issuer, fraud, honor, processor),
{
    let mut weights: Vec<DeclineWeight> = Vec::new();
    weights.push(DeclineWeight { reason: DeclineReason::IssuerUnavailable, weight_pct: issuer });
    weights.push(DeclineWeight { reason: DeclineReason::SuspectedFraud, weight_pct: fraud });
    weights.push(DeclineWeight { reason: DeclineReason::DoNotHonor, weight_pct: honor });
    weights.push(
        DeclineWeight { reason: DeclineReason::ProcessorDeclined, weight_pct: processor },
    );
    assert(weights@ =~= weights_of(issuer, fraud, honor, processor));
    weights
}

/// The soft decline distribution of a provider.
pub fn get_decline_distribution(psp_id: &str) -> (weights: Vec<DeclineWeight>)
    ensures
        weights@ == decline_distribution(psp_id@),
        distribution_sound(weights@),
{
    proof {
        lemma_distribution_sound(psp_id@);
    }
    if same_text(psp_id, "psp_br_1") {
        make_weights(45, 20, 20, 15)
    } else if same_text(psp_id, "psp_br_2") {
        make_weights(15, 45, 25, 15)
    } else if same_text(psp_id, "psp_br_3") {
        make_weights(15, 20, 45, 20)
    } else if same_text(psp_id, "psp_mx_1") {
        make_weights(20, 15, 20, 45)
    } else if same_text(psp_id, "psp_mx_2") {
        make_weights(45, 20, 15, 20)
    } else if same_text(psp_id, "psp_mx_3") {
        make_weights(15, 45, 20, 20)
    } else if same_text(psp_id, "psp_co_1") {
        make_weights(20, 15, 45, 20)
    } else if same_text(psp_id, "psp_co_2") {
        make_weights(45, 20, 20, 15)
    } else if same_text(psp_id, "psp_co_3") {
        make_weights(15, 20, 20, 45)
    } else {
        make_weights(25, 25, 25, 25)
    }
}

/// The value of one catalog entry.
pub open spec fn entry(
    id: Seq<char>,
    name: Seq<char>,
    country: Country,
    success_rate_bps: u32,
    latency_min_ms: u64,
    latency_max_ms: u64,
    fee_bps: u64,
    fee_fixed_cents: u64,
) -> PspConfigView {
    PspConfigView {
        id,
        name,
        country,
        success_rate_bps,
        latency_min_ms,
        latency_max_ms,
        fee_bps,
        fee_fixed_cents,
    }
}

/// The providers of a country, in catalog order: a primary, a premium with
/// the best rate and the highest fee, and a budget one.
pub open spec fn catalog(country: Country) -> Seq<PspConfigView> {
    match country {
        Country::Brazil => seq![
            entry("psp_br_1"@, "PagSeguro"@, Country::Brazil, 7800, 200, 400, 290, 30),
            entry("psp_br_2"@, "Cielo"@, Country::Brazil, 8200, 150, 250, 320, 25),
            entry("psp_br_3"@, "Stone"@, Country::Brazil, 6800, 300, 600, 250, 35),
        ],
        Country::Mexico => seq![
            entry("psp_mx_1"@, "Conekta"@, Country::Mexico, 7500, 180, 350, 280, 28),
            entry("psp_mx_2"@, "OpenPay"@, Country::Mexico, 8000, 200, 300, 310, 22),
            entry("psp_mx_3"@, "SR Pago"@, Country::Mexico, 7000, 250, 500, 260, 32),
        ],
        Country::Colombia => seq![
            entry("psp_co_1"@, "PayU"@, Country::Colombia, 7600, 190, 380, 270, 29),
            entry("psp_co_2"@, "Wompi"@, Country::Colombia, 8300, 160, 280, 330, 20),
            entry("psp_co_3"@, "Bold"@, Country::Colombia, 6500, 280, 550, 240, 38),
        ],
    }
}

/// Shortest latency any catalog provider may have, in milliseconds.
pub const CATALOG_LATENCY_FLOOR_MS: u64 = 150;

/// Longest latency any catalog provider may have, in milliseconds.
pub const CATALOG_LATENCY_CEILING_MS: u64 = 600;

/// What every catalog entry satisfies: it is valid, its success rate lies
/// between 65 and 85 percent, and its latency band lies within 150 and 600
/// milliseconds.
pub open spec fn catalog_entry_sound(psp: PspConfigView) -> bool {
    &&& psp.valid()
    &&& 6500 <= psp.success_rate_bps <= 8500
    &&& CATALOG_LATENCY_FLOOR_MS <= psp.latency_min_ms
    &&& psp.latency_max_ms <= CATALOG_LATENCY_CEILING_MS
    &&& distribution_sound(decline_distribution(psp.id))
}

/// Each country has three providers, all of that country and all sound.
pub proof fn lemma_catalog_sound(country: Country)
    ensures
        catalog(country).len() == 3,
        forall|i: int|
            0 <= i < 3 ==> {
                &&& (#[trigger] catalog(country)[i]).country == country
                &&& catalog_entry_sound(catalog(country)[i])
            },
{
    assert forall|i: int| 0 <= i < 3 implies {
        &&& (#[trigger] catalog(country)[i]).country == country
        &&& catalog_entry_sound(catalog(country)[i])
    } by {
        lemma_distribution_sound(catalog(country)[i].id);
    }
}

/// Number of entries of a distribution that have a given weight.
pub open spec fn entries_of_weight(weights: Seq<DeclineWeight>, weight_pct: u32) -> nat
    decreases weights.len(),
{
    if weights.len() == 0 {
        0
    } else {
        entries_of_weight(weights.drop_last(), weight_pct) + if weights.last().weight_pct
            == weight_pct {
            1nat
        } else {
            0nat
        }
    }
}

proof fn lemma_entries_of_weight(issuer: u32, fraud: u32, honor: u32, processor: u32, w: u32)
    ensures
        entries_of_weight(weights_of(issuer, fraud, honor, processor), w) == (if issuer == w {
            1nat
        } else {
            0nat
        }) + (if fraud == w {
            1nat
        } else {
            0nat
        }) + (if honor == w {
            1nat
        } else {
            0nat
        }) + (if processor == w {
            1nat
        } else {
            0nat
        }),
{
    let all = weights_of(issuer, fraud, honor, processor);
    let three = all.drop_last();
    let two = three.drop_last();
    let one = two.drop_last();
    assert(one.drop_last().len() == 0);
    assert(entries_of_weight(one.drop_last(), w) == 0);
    let hit = |weight: u32| -> nat {
        if weight == w {
            1nat
        } else {
            0nat
        }
    };
    assert(one.last().weight_pct == issuer);
    assert(entries_of_weight(one, w) == hit(issuer));
    assert(two.last().weight_pct == fraud);
    assert(entries_of_weight(two, w) == hit(issuer) + hit(fraud));
    assert(three.last().weight_pct == honor);
    assert(entries_of_weight(three, w) == hit(issuer) + hit(fraud) + hit(honor));
    assert(all.last().weight_pct == processor);
}

/// Every catalog provider leans on one soft reason: exactly one entry of
/// its distribution has the weight 45.
pub proof fn lemma_catalog_leans_on_one_reason(country: Country, i: int)
    requires
        0 <= i < 3,
    ensures
        entries_of_weight(decline_distribution(catalog(country)[i].id), 45) == 1,
{
    reveal_strlit("psp_br_1");
    reveal_strlit("psp_br_2");
    reveal_strlit("psp_br_3");
    reveal_strlit("psp_mx_1");
    reveal_strlit("psp_mx_2");
    reveal_strlit("psp_mx_3");
    reveal_strlit("psp_co_1");
    reveal_strlit("psp_co_2");
    reveal_strlit("psp_co_3");
    assert("psp_br_1"@[4] == 'b' && "psp_br_1"@[7] == '1');
    assert("psp_br_2"@[4] == 'b' && "psp_br_2"@[7] == '2');
    assert("psp_br_3"@[4] == 'b' && "psp_br_3"@[7] == '3');
    assert("psp_mx_1"@[4] == 'm' && "psp_mx_1"@[7] == '1');
    assert("psp_mx_2"@[4] == 'm' && "psp_mx_2"@[7] == '2');
    assert("psp_mx_3"@[4] == 'm' && "psp_mx_3"@[7] == '3');
    assert("psp_co_1"@[4] == 'c' && "psp_co_1"@[7] == '1');
    assert("psp_co_2"@[4] == 'c' && "psp_co_2"@[7] == '2');
    assert("psp_co_3"@[4] == 'c' && "psp_co_3"@[7] == '3');
    lemma_entries_of_weight(45, 20, 20, 15, 45);
    lemma_entries_of_weight(15, 45, 25, 15, 45);
    lemma_entries_of_weight(15, 20, 45, 20, 45);
    lemma_entries_of_weight(20, 15, 20, 45, 45);
    lemma_entries_of_weight(45, 20, 15, 20, 45);
    lemma_entries_of_weight(15, 45, 20, 20, 45);
    lemma_entries_of_weight(20, 15, 45, 20, 45);
    lemma_entries_of_weight(15, 20, 20, 45, 45);
}

fn make_psp(
    id: &str,
    name: &str,
    country: Country,
    success_rate_bps: u32,
    latency_min_ms: u64,
    latency_max_ms: u64,
    fee_bps: u64,
    fee_fixed_cents: u64,
) -> (psp: PspConfig)
    ensures
        psp@ == entry(
            id@,
            name@,
            country,
            success_rate_bps,
            latency_min_ms,
            latency_max_ms,
            fee_bps,
            fee_fixed_cents,
        ),
{
    PspConfig {
        id: String::from_str(id),
        name: String::from_str(name),
        country,
        success_rate_bps,
        latency_min_ms,
        latency_max_ms,
        fee_bps,
        fee_fixed_cents,
    }
}

/// The providers configured for a country, in catalog order.
pub fn get_psps_for_country(country: &Country) -> (psps: Vec<PspConfig>)
    ensures
        psps.deep_view() == catalog(*country),
        psps.len() == 3,
        forall|i: int|
            0 <= i < 3 ==> {
                &&& (#[trigger] psps[i])@.country == *country
                &&& catalog_entry_sound(psps[i]@)
            },
{
    let mut psps: Vec<PspConfig> = Vec::new();
    match country {
        Country::Brazil => {
            psps.push(make_psp("psp_br_1", "PagSeguro", Country::Brazil, 7800, 200, 400, 290, 30));
            psps.push(make_psp("psp_br_2", "Cielo", Country::Brazil, 8200, 150, 250, 320, 25));
            psps.push(make_psp("psp_br_3", "Stone", Country::Brazil, 6800, 300, 600, 250, 35));
        },
        Country::Mexico => {
            psps.push(make_psp("psp_mx_1", "Conekta", Country::Mexico, 7500, 180, 350, 280, 28));
            psps.push(make_psp("psp_mx_2", "OpenPay", Country::Mexico, 8000, 200, 300, 310, 22));
            psps.push(make_psp("psp_mx_3", "SR Pago", Country::Mexico, 7000, 250, 500, 260, 32));
        },
        Country::Colombia => {
            psps.push(make_psp("psp_co_1", "PayU", Country::Colombia, 7600, 190, 380, 270, 29));
            psps.push(make_psp("psp_co_2", "Wompi", Country::Colombia, 8300, 160, 280, 330, 20));
            psps.push(make_psp("psp_co_3", "Bold", Country::Colombia, 6500, 280, 550, 240, 38));
        },
    }
    proof {
        lemma_catalog_sound(*country);
        assert(psps.deep_view() =~= catalog(*country));
        assert forall|i: int| 0 <= i < 3 implies {
            &&& (#[trigger] psps[i])@.country == *country
            &&& catalog_entry_sound(psps[i]@)
        } by {
            assert(psps[i]@ == psps.deep_view()[i]);
        }
    }
    psps
}

/// All providers of the three countries, in the order Brazil, Mexico,
/// Colombia.
pub open spec fn full_catalog() -> Seq<PspConfigView> {
    catalog(Country::Brazil) + catalog(Country::Mexico) + catalog(Country::Colombia)
}

/// All nine providers, in the order Brazil, Mexico, Colombia.
pub fn get_all_psps() -> (psps: Vec<PspConfig>)
    ensures
        psps.deep_view() == full_catalog(),
        psps.len() == 9,
        forall|i: int| 0 <= i < 9 ==> catalog_entry_sound((#[trigger] psps[i])@),
{
    let mut psps = get_psps_for_country(&Country::Brazil);
    let mut mexico = get_psps_for_country(&Country::Mexico);
    let mut colombia = get_psps_for_country(&Country::Colombia);
    let ghost brazil_seq = psps@;
    let ghost mexico_seq = mexico@;
    let ghost colombia_seq = colombia@;
    psps.append(&mut mexico);
    psps.append(&mut colombia);
    proof {
        assert(psps@ =~= brazil_seq + mexico_seq + colombia_seq);
        assert(psps.deep_view() =~= full_catalog()) by {
            assert forall|i: int| 0 <= i < 9 implies psps.deep_view()[i] == full_catalog()[i] by {
                if i < 3 {
                    assert(psps[i] == brazil_seq[i]);
                    assert(catalog(Country::Brazil)[i] == brazil_seq[i]@);
                } else if i < 6 {
                    assert(psps[i] == mexico_seq[i - 3]);
                    assert(catalog(Country::Mexico)[i - 3] == mexico_seq[i - 3]@);
                } else {
                    assert(psps[i] == colombia_seq[i - 6]);
                    assert(catalog(Country::Colombia)[i - 6] == colombia_seq[i - 6]@);
                }
            }
        }
        assert forall|i: int| 0 <= i < 9 implies catalog_entry_sound((#[trigger] psps[i])@) by {
            if i < 3 {
                assert(psps[i] == brazil_seq[i]);
            } else if i < 6 {
                assert(psps[i] == mexico_seq[i - 3]);
            } else {
                assert(psps[i] == colombia_seq[i - 6]);
            }
        }
    }
    psps
}

} // verus!
