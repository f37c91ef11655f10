use discord_bots::euro_to_mark::{get_euro, Error};
use discord_bots::kaenguru::{
    decimal_string, euro_reply, footer, format_response, response_tier, ResponseTier, Severity,
};

const REMARK: &str = "Kleinvieh macht auch Mist!";

#[test]
fn small_amount_has_remark() {
    let r = format_response(Ok(5));
    assert_eq!(
        r.body,
        "5 Euro? Das, das sind ja 10 Mark! 20 Ostmark! 40 Ostmark aufm Schwarzmarkt!\n\nKleinvieh macht auch Mist!"
    );
    assert_eq!(r.severity, Severity::Normal);
    assert!(!r.escalated);
}

#[test]
fn larger_amount_has_no_remark() {
    let r = format_response(Ok(50000));
    assert_eq!(
        r.body,
        "50000 Euro? Das, das sind ja 100000 Mark! 200000 Ostmark! 400000 Ostmark aufm Schwarzmarkt!"
    );
    assert!(!r.body.contains(REMARK));
    assert_eq!(r.severity, Severity::Normal);
}

#[test]
fn ten_has_no_remark_nine_has() {
    assert!(!format_response(Ok(10)).body.contains(REMARK));
    assert!(format_response(Ok(9)).body.contains(REMARK));
    assert!(format_response(Ok(0)).body.contains(REMARK));
}

#[test]
fn ceiling_amount_is_converted() {
    let r = format_response(Ok(100000));
    assert!(r.body.contains("800000"));
    assert_eq!(r.severity, Severity::Normal);
    assert!(!r.escalated);
}

#[test]
fn overflow_is_alarmed() {
    let r = format_response(Err(Error::Overflow));
    assert_eq!(r.body, "Huiuiui! So viele Schulden kann die DDR doch nicht haben!");
    assert!(!r.body.chars().any(|c| c.is_ascii_digit()));
    assert_eq!(r.severity, Severity::High);
    assert!(r.escalated);
}

#[test]
fn amount_past_ceiling_is_alarmed() {
    let r = format_response(Ok(100001));
    assert_eq!(r.severity, Severity::High);
    assert!(r.escalated);
    assert!(!r.body.chars().any(|c| c.is_ascii_digit()));
}

#[test]
fn decimal_strings() {
    assert_eq!(decimal_string(0), "0");
    assert_eq!(decimal_string(7), "7");
    assert_eq!(decimal_string(10), "10");
    assert_eq!(decimal_string(791384), "791384");
    assert_eq!(decimal_string(u64::MAX), "18446744073709551615");
}

#[test]
fn footer_text() {
    assert_eq!(footer(), "War ich ein guter Rechenknecht?");
}

#[test]
fn end_to_end_amount_in_sentence() {
    let amount = get_euro("das kostet 98923 eur");
    assert_eq!(amount, Ok(98923));
    let r = format_response(amount);
    for part in ["98923", "197846", "395692", "791384"] {
        assert!(r.body.contains(part));
    }
    assert_eq!(r.severity, Severity::Normal);
    let r = euro_reply("das kostet 98923 eur").unwrap();
    assert!(r.body.contains("791384"));
}

#[test]
fn end_to_end_thousands() {
    assert_eq!(get_euro("91.897 EUR"), Ok(91897));
}

#[test]
fn end_to_end_overflow() {
    let amount = get_euro("1000000 eur");
    assert_eq!(amount, Err(Error::Overflow));
    let r = format_response(amount);
    assert!(!r.body.chars().any(|c| c.is_ascii_digit()));
    assert_eq!(r.severity, Severity::High);
    let r = euro_reply("1000000 eur").unwrap();
    assert!(r.escalated);
}

#[test]
fn end_to_end_no_marker() {
    assert_eq!(get_euro("hallo wie geht's"), Err(Error::NoCurrencyMarker));
    assert!(euro_reply("hallo wie geht's").is_none());
}

#[test]
fn explicit_zero_gets_small_reply() {
    let r = euro_reply("0 €").unwrap();
    assert_eq!(
        r.body,
        "0 Euro? Das, das sind ja 0 Mark! 0 Ostmark! 0 Ostmark aufm Schwarzmarkt!\n\nKleinvieh macht auch Mist!"
    );
    assert_eq!(r.severity, Severity::Normal);
    assert!(!r.escalated);
}

#[test]
fn tiers() {
    assert_eq!(response_tier(Ok(0)), ResponseTier::Small);
    assert_eq!(response_tier(Ok(9)), ResponseTier::Small);
    assert_eq!(response_tier(Ok(10)), ResponseTier::Normal);
    assert_eq!(response_tier(Ok(100000)), ResponseTier::Normal);
    assert_eq!(response_tier(Ok(100001)), ResponseTier::Escalated);
    assert_eq!(response_tier(Err(Error::Overflow)), ResponseTier::Escalated);
}
