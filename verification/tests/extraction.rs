use invoice_etl::amount::extract_total;

#[test]
fn total_anchored_match_wins() {
    let r = extract_total("Invoice total: $12.34 plus tax $99.99");
    assert_eq!(r, "total: $12.34");
}

#[test]
fn total_match_is_case_insensitive() {
    let r = extract_total("Amount TOTAL: $12.34 due");
    assert_eq!(r, "TOTAL: $12.34");
}

#[test]
fn first_total_match_wins() {
    let r = extract_total("total: $1.00 then total: $2.00");
    assert_eq!(r, "total: $1.00");
}

#[test]
fn fallback_takes_last_amount() {
    let r = extract_total("fees $5.00 and $20.00");
    assert_eq!(r, "$20.00");
}

#[test]
fn fallback_without_currency_symbol() {
    let r = extract_total("values 7.25 then 8.50");
    assert_eq!(r, "8.50");
}

#[test]
fn no_monetary_pattern_yields_default() {
    let r = extract_total("no money mentioned here");
    assert_eq!(r, "0.00");
}

#[test]
fn empty_text_yields_default() {
    let r = extract_total("");
    assert_eq!(r, "0.00");
}

#[test]
fn one_fraction_digit_is_not_matched() {
    let r = extract_total("price 12.3");
    assert_eq!(r, "0.00");
}

#[test]
fn three_fraction_digits_are_not_matched() {
    let r = extract_total("price 12.345");
    assert_eq!(r, "0.00");
}

#[test]
fn three_fraction_digits_after_total_are_not_matched() {
    let r = extract_total("total: 12.345");
    assert_eq!(r, "0.00");
}

#[test]
fn zero_fraction_digits_are_not_matched() {
    let r = extract_total("total: 12.");
    assert_eq!(r, "0.00");
}

#[test]
fn comma_is_a_decimal_separator() {
    let r = extract_total("Rechnung total 9,99 Euro");
    assert_eq!(r, "total 9,99");
}

#[test]
fn currency_symbol_with_space_is_part_of_the_match() {
    let r = extract_total("total: \u{a3} 3.50 due");
    assert_eq!(r, "total: \u{a3} 3.50");
}

#[test]
fn euro_symbol_is_recognized() {
    let r = extract_total("charges \u{20ac}7.77 noted");
    assert_eq!(r, "\u{20ac}7.77");
}

#[test]
fn the_two_digit_rule_shapes_the_fallback_scan() {
    let r = extract_total("1.234.56");
    assert_eq!(r, "234.56");
}

#[test]
fn colon_without_space_separates_total_from_amount() {
    let r = extract_total("total:$12.34");
    assert_eq!(r, "total:$12.34");
}

#[test]
fn total_without_separator_is_not_anchored() {
    let r = extract_total("subtotal12.34 then 56.78");
    assert_eq!(r, "56.78");
}
