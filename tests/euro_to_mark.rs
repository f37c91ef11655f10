use discord_bots::euro_to_mark::{get_euro, step, Error, MarkerState, CEILING};

#[test]
fn plain_amount_with_spaced_euro_sign() {
    assert_eq!(get_euro("98923 €"), Ok(98923));
}

#[test]
fn plain_amount_with_euro_sign() {
    assert_eq!(get_euro("98923€"), Ok(98923));
}

#[test]
fn plain_amount_with_spaced_letters() {
    assert_eq!(get_euro("98923 EUR"), Ok(98923));
}

#[test]
fn plain_amount_with_letters() {
    assert_eq!(get_euro("42EUR"), Ok(42));
    assert_eq!(get_euro("42eur"), Ok(42));
    assert_eq!(get_euro("42 EuR"), Ok(42));
}

#[test]
fn sentence_with_amount() {
    assert_eq!(get_euro("das kostet 98923 eur"), Ok(98923));
}

#[test]
fn thousands_separator_is_skipped() {
    assert_eq!(get_euro("91.897 EUR"), Ok(91897));
    assert_eq!(get_euro("91.897 €"), Ok(91897));
    assert_eq!(get_euro("1.2.3 €"), Ok(123));
}

#[test]
fn decimal_comma_drops_fraction() {
    assert_eq!(get_euro("99,10 €"), Ok(99));
    assert_eq!(get_euro("99,10 EUR"), Ok(99));
    assert_eq!(get_euro("1.000,99 €"), Ok(1000));
}

#[test]
fn fraction_alone_is_no_amount() {
    assert_eq!(get_euro(",50 €"), Err(Error::NoCurrencyMarker));
}

#[test]
fn zero_with_fraction() {
    assert_eq!(get_euro("0,50 €"), Ok(0));
}

#[test]
fn no_marker() {
    assert_eq!(get_euro("hallo wie geht's"), Err(Error::NoCurrencyMarker));
    assert_eq!(get_euro("12345"), Err(Error::NoCurrencyMarker));
}

#[test]
fn empty_text() {
    assert_eq!(get_euro(""), Err(Error::NoCurrencyMarker));
}

#[test]
fn marker_without_number() {
    assert_eq!(get_euro("€"), Err(Error::NoCurrencyMarker));
    assert_eq!(get_euro("nur eur"), Err(Error::NoCurrencyMarker));
    assert_eq!(get_euro(". €"), Err(Error::NoCurrencyMarker));
    assert_eq!(get_euro(", €"), Err(Error::NoCurrencyMarker));
}

#[test]
fn ceiling_is_allowed() {
    assert_eq!(get_euro("100000 €"), Ok(CEILING));
    assert_eq!(get_euro("100.000 €"), Ok(100000));
}

#[test]
fn above_ceiling_overflows() {
    assert_eq!(get_euro("100001 €"), Err(Error::Overflow));
    assert_eq!(get_euro("1000000 eur"), Err(Error::Overflow));
    assert_eq!(get_euro("99999999999999999999999999 €"), Err(Error::Overflow));
}

#[test]
fn overflowing_fraction_overflows() {
    assert_eq!(get_euro("1,999999 €"), Err(Error::Overflow));
}

#[test]
fn leading_zeros_do_not_overflow() {
    assert_eq!(get_euro("0000000000000000000000000042 €"), Ok(42));
    assert_eq!(get_euro("000000000000000000000000000 €"), Ok(0));
}

#[test]
fn last_amount_wins() {
    assert_eq!(get_euro("5 € und 7 €"), Ok(7));
    assert_eq!(get_euro("5 eur oder 200000 eur"), Err(Error::Overflow));
    assert_eq!(get_euro("200000 eur oder 5 eur"), Ok(5));
}

#[test]
fn marker_without_number_is_passed_over() {
    assert_eq!(get_euro("5 € und € nochmal"), Ok(5));
}

#[test]
fn second_space_ends_number() {
    assert_eq!(get_euro("1 000 €"), Ok(0));
    assert_eq!(get_euro("7  €"), Err(Error::NoCurrencyMarker));
}

#[test]
fn number_ends_at_letter() {
    assert_eq!(get_euro("a12 €"), Ok(12));
}

#[test]
fn broken_letters_are_no_marker() {
    assert_eq!(get_euro("5 eru"), Err(Error::NoCurrencyMarker));
    assert_eq!(get_euro("5 e ur"), Err(Error::NoCurrencyMarker));
}

#[test]
fn extraction_is_repeatable() {
    let text = "das kostet 98923 eur";
    assert_eq!(get_euro(text), get_euro(text));
    let text = "1000000 eur";
    assert_eq!(get_euro(text), get_euro(text));
}

#[test]
fn marker_machine_steps() {
    assert_eq!(step(MarkerState::Idle, 'r'), MarkerState::SawR);
    assert_eq!(step(MarkerState::Idle, 'R'), MarkerState::SawR);
    assert_eq!(step(MarkerState::SawR, 'u'), MarkerState::SawRU);
    assert_eq!(step(MarkerState::SawRU, 'E'), MarkerState::Confirmed);
    assert_eq!(step(MarkerState::SawR, 'x'), MarkerState::Idle);
    assert_eq!(step(MarkerState::SawR, 'r'), MarkerState::Idle);
    assert_eq!(step(MarkerState::SawRU, '€'), MarkerState::Confirmed);
    assert_eq!(step(MarkerState::Idle, '€'), MarkerState::Confirmed);
    assert_eq!(step(MarkerState::Idle, '5'), MarkerState::Idle);
}
