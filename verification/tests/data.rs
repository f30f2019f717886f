use payment_routing::data::{
    amount_band, amount_in_band, bin_at, compose_transaction, customer_tier, generate_test_data,
    get_test_dataset, Draws, FRACTION_UNIT,
};
use payment_routing::models::transaction::{Country, Currency};

const BRAZIL_BINS: [&str; 3] = ["411111", "510510", "376411"];
const MEXICO_BINS: [&str; 3] = ["424242", "551234", "371449"];
const COLOMBIA_BINS: [&str; 3] = ["431940", "520082", "378282"];

#[test]
fn test_generates_correct_count() {
    let data = generate_test_data(200);
    assert_eq!(data.len(), 200);
}

#[test]
fn test_default_dataset_is_210() {
    let data = get_test_dataset();
    assert_eq!(data.len(), 210);
}

#[test]
fn test_is_deterministic() {
    let d1 = generate_test_data(50);
    let d2 = generate_test_data(50);
    for (a, b) in d1.iter().zip(d2.iter()) {
        assert_eq!(a.id, b.id);
        assert_eq!(a.amount_cents, b.amount_cents);
        assert_eq!(a.card_bin, b.card_bin);
        assert_eq!(a.card_last4, b.card_last4);
    }
}

#[test]
fn test_country_distribution() {
    let data = get_test_dataset();
    let brazil = data.iter().filter(|t| t.country == Country::Brazil).count();
    let mexico = data.iter().filter(|t| t.country == Country::Mexico).count();
    let colombia = data.iter().filter(|t| t.country == Country::Colombia).count();

    assert_eq!(brazil, 70);
    assert_eq!(mexico, 70);
    assert_eq!(colombia, 70);
}

#[test]
fn test_amount_range() {
    let data = get_test_dataset();
    for tx in &data {
        let amount = tx.amount_cents as f64 / 100.0;
        assert!(
            amount >= 10.0 && amount <= 500.0,
            "Amount {} out of range for txn {}",
            amount,
            tx.id
        );
    }
}

#[test]
fn test_unique_customer_count() {
    let data = get_test_dataset();
    let mut customers: Vec<&str> = data.iter().map(|t| t.customer_id.as_str()).collect();
    customers.sort();
    customers.dedup();
    assert!(
        customers.len() >= 10,
        "Expected at least 10 unique customers, got {}",
        customers.len()
    );
}

#[test]
fn test_valid_bins_per_country() {
    let data = get_test_dataset();
    for tx in &data {
        let valid_bins = match tx.country {
            Country::Brazil => &BRAZIL_BINS[..],
            Country::Mexico => &MEXICO_BINS[..],
            Country::Colombia => &COLOMBIA_BINS[..],
        };
        assert!(
            valid_bins.contains(&tx.card_bin.as_str()),
            "Invalid BIN {} for country {:?}",
            tx.card_bin,
            tx.country
        );
    }
}

#[test]
fn test_unique_transaction_ids() {
    let data = get_test_dataset();
    let mut ids: Vec<&str> = data.iter().map(|t| t.id.as_str()).collect();
    let original_len = ids.len();
    ids.sort();
    ids.dedup();
    assert_eq!(ids.len(), original_len, "Transaction IDs must be unique");
}

#[test]
fn batch_has_the_documented_shape() {
    let data = get_test_dataset();
    for (i, tx) in data.iter().enumerate() {
        assert_eq!(tx.id, format!("txn_{:04}", i + 1));
        let country = [Country::Brazil, Country::Mexico, Country::Colombia][i % 3];
        assert_eq!(tx.country, country);
        assert_eq!(tx.currency, country.currency());
        assert_eq!(tx.card_last4.len(), 4);
        assert!(tx.card_last4.chars().all(|c| c.is_ascii_digit()));
        assert!(tx.customer_id.starts_with("cust_"));
        assert_eq!(tx.customer_id.len(), 8);
        let customer: u32 = tx.customer_id[5..].parse().unwrap();
        assert!(1 <= customer && customer <= 15);
        assert!(1000 <= tx.amount_cents && tx.amount_cents <= 50000);
        assert_eq!(tx.timestamp.len(), 20);
        assert!(tx.timestamp.starts_with("2025-01-15T"));
        assert!(tx.timestamp.ends_with('Z'));
        let hour: usize = tx.timestamp[11..13].parse().unwrap();
        assert_eq!(hour, 8 + i * 12 / 210);
        let minute: u32 = tx.timestamp[14..16].parse().unwrap();
        let second: u32 = tx.timestamp[17..19].parse().unwrap();
        assert!(minute < 60 && second < 60);
        assert_eq!(&tx.timestamp[13..14], ":");
        assert_eq!(&tx.timestamp[16..17], ":");
    }
}

#[test]
fn batches_differ_in_their_draws() {
    let data = get_test_dataset();
    let mut last4: Vec<&str> = data.iter().map(|t| t.card_last4.as_str()).collect();
    last4.sort();
    last4.dedup();
    assert!(last4.len() > 150, "only {} different last digits in 210 draws", last4.len());
    let mut amounts: Vec<u64> = data.iter().map(|t| t.amount_cents).collect();
    amounts.sort();
    amounts.dedup();
    assert!(amounts.len() > 150, "only {} different amounts in 210 draws", amounts.len());
    let mut bins: Vec<&str> = data.iter().map(|t| t.card_bin.as_str()).collect();
    bins.sort();
    bins.dedup();
    assert_eq!(bins.len(), 9);
}

#[test]
fn a_longer_batch_draws_the_same_values() {
    // The draws do not depend on the count; only the hour does.
    let short = generate_test_data(30);
    let long = generate_test_data(90);
    for (a, b) in short.iter().zip(long.iter()) {
        assert_eq!(a.id, b.id);
        assert_eq!(a.card_bin, b.card_bin);
        assert_eq!(a.card_last4, b.card_last4);
        assert_eq!(a.customer_id, b.customer_id);
        assert_eq!(a.amount_cents, b.amount_cents);
        assert_eq!(&a.timestamp[13..], &b.timestamp[13..]);
    }
    assert_eq!(&short[29].timestamp[11..13], "19");
    assert_eq!(&long[29].timestamp[11..13], "11");
}

#[test]
fn empty_batch_is_empty() {
    assert!(generate_test_data(0).is_empty());
}

#[test]
fn large_batch_numbers_grow_beyond_four_digits() {
    let data = generate_test_data(10001);
    assert_eq!(data[0].id, "txn_0001");
    assert_eq!(data[9998].id, "txn_9999");
    assert_eq!(data[9999].id, "txn_10000");
    assert_eq!(data[10000].id, "txn_10001");
    assert_eq!(&data[10000].timestamp[11..13], "19");
}

#[test]
fn customer_tiers_follow_their_shares() {
    // 30 percent of 2^53 is 2702159776422297.6, 60 percent 5404319552844595.2.
    assert_eq!(customer_tier(0), (1, 3));
    assert_eq!(customer_tier(2702159776422297), (1, 3));
    assert_eq!(customer_tier(2702159776422298), (4, 8));
    assert_eq!(customer_tier(5404319552844595), (4, 8));
    assert_eq!(customer_tier(5404319552844596), (9, 15));
    assert_eq!(customer_tier(9007199254740991), (9, 15));
}

#[test]
fn amount_bands_follow_their_shares() {
    // 40 percent of 2^53 is 3602879701896396.8, 75 percent 6755399441055744.
    assert_eq!(amount_band(0), (1000, 9000));
    assert_eq!(amount_band(3602879701896396), (1000, 9000));
    assert_eq!(amount_band(3602879701896397), (10000, 20000));
    assert_eq!(amount_band(6755399441055743), (10000, 20000));
    assert_eq!(amount_band(6755399441055744), (30000, 20000));
    assert_eq!(amount_band(9007199254740991), (30000, 20000));
}

#[test]
fn amounts_are_rounded_to_the_cent() {
    assert_eq!(amount_in_band(1000, 9000, 0), 1000);
    assert_eq!(amount_in_band(1000, 9000, FRACTION_UNIT / 2), 5500);
    assert_eq!(amount_in_band(10000, 20000, FRACTION_UNIT / 4), 15000);
    // The largest fraction rounds up to the end of the band.
    assert_eq!(amount_in_band(1000, 9000, FRACTION_UNIT - 1), 10000);
    assert_eq!(amount_in_band(30000, 20000, FRACTION_UNIT - 1), 50000);
    // Half a cent is reached at 2^52 / 18000 = 250199979298.16.
    assert_eq!(amount_in_band(1000, 9000, 250199979298), 1000);
    assert_eq!(amount_in_band(1000, 9000, 250199979299), 1001);
    assert_eq!(amount_in_band(1000, 0, FRACTION_UNIT - 1), 1000);
    assert_eq!(amount_in_band(0, u64::MAX, FRACTION_UNIT / 2), 1 << 63);
}

#[test]
fn card_prefixes_are_those_of_the_country() {
    for i in 0..3 {
        assert_eq!(bin_at(Country::Brazil, i as u64), BRAZIL_BINS[i]);
        assert_eq!(bin_at(Country::Mexico, i as u64), MEXICO_BINS[i]);
        assert_eq!(bin_at(Country::Colombia, i as u64), COLOMBIA_BINS[i]);
    }
}

#[test]
fn compose_writes_every_field() {
    let draws = Draws {
        bin_index: 2,
        last4: 42,
        customer: 7,
        amount_cents: 12345,
        minute: 5,
        second: 59,
    };
    let tx = compose_transaction(4, 12, &draws);
    assert_eq!(tx.id, "txn_0005");
    assert_eq!(tx.country, Country::Mexico);
    assert_eq!(tx.currency, Currency::MXN);
    assert_eq!(tx.card_bin, "371449");
    assert_eq!(tx.card_last4, "0042");
    assert_eq!(tx.customer_id, "cust_007");
    assert_eq!(tx.amount_cents, 12345);
    assert_eq!(tx.timestamp, "2025-01-15T12:05:59Z");
    let last = compose_transaction(
        11,
        12,
        &Draws { bin_index: 0, last4: 9999, customer: 15, amount_cents: 50000, minute: 0, second: 0 },
    );
    assert_eq!(last.id, "txn_0012");
    assert_eq!(last.country, Country::Colombia);
    assert_eq!(last.card_bin, "431940");
    assert_eq!(last.card_last4, "9999");
    assert_eq!(last.customer_id, "cust_015");
    assert_eq!(last.timestamp, "2025-01-15T19:00:00Z");
}
