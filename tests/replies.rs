use discord_bots::config::{Autokommentator, Bots, Config, Kaenguru, Response};
use discord_bots::replies::{choose_reply, choose_reply_checked, find_response};
use discord_bots::xd::replies;

fn response(triggers: &[&str], pool: &[&str]) -> Response {
    Response {
        trigger: triggers.iter().map(|s| s.to_string()).collect(),
        response_pool: pool.iter().map(|s| s.to_string()).collect(),
    }
}

fn sample() -> Vec<Response> {
    vec![
        response(&["Linux", "arch"], &["Ich benutze Bogen"]),
        response(&["xd"], &["XDDDDD", "xD"]),
        response(&["bogen"], &["Bogen!"]),
    ]
}

#[test]
fn first_trigger_case_insensitive() {
    let rs = sample();
    assert_eq!(find_response("ich nutze LINUX", &rs), Some(0));
    assert_eq!(find_response("ARCH und xd", &rs), Some(0));
    assert_eq!(find_response("haha XD", &rs), Some(1));
    assert_eq!(find_response("Pfeil und Bogen", &rs), Some(2));
}

#[test]
fn no_trigger() {
    let rs = sample();
    assert_eq!(find_response("nichts hier", &rs), None);
    assert_eq!(find_response("", &rs), None);
    assert_eq!(find_response("xd", &Vec::new()), None);
}

#[test]
fn reply_is_from_first_pool() {
    let rs = sample();
    for _ in 0..20 {
        let r = choose_reply("xd und bogen", &rs).unwrap();
        assert!(r == "XDDDDD" || r == "xD");
    }
    assert_eq!(choose_reply("linux", &rs), Some("Ich benutze Bogen".to_string()));
    assert_eq!(choose_reply("nichts", &rs), None);
}

#[test]
fn built_in_replies() {
    let table = replies();
    assert_eq!(table.len(), 11);
    assert_eq!(table.get("xd").map(|s| s.as_str()), Some("XDDDDD"));
    assert_eq!(table.get("sus").map(|s| s.as_str()), Some("ඞ"));
    assert_eq!(
        table.get("Bogen").map(|s| s.as_str()),
        Some("> Bogen\n\nIch benutze Bogen bei dem Weg")
    );
    assert!(table["cringe"].ends_with("> Läuft bei dir ARD."));
    assert!(table.get("bogen").is_none());
}

#[test]
fn responses_and_tokens_by_bot() {
    let config = Config {
        version: "0.3".to_string(),
        autokommentator: Autokommentator {
            token: Some("SECRET-REDACTED".to_string()),
            responses: sample(),
        },
        kaenguru: Kaenguru { token: None, responses: Vec::new() },
    };
    assert_eq!(config.responses(Bots::Autokommentator).len(), 3);
    assert_eq!(config.responses(Bots::KaenguruKnecht).len(), 0);
    assert_eq!(config.token(Bots::Autokommentator, None), Some("SECRET-REDACTED".to_string()));
    assert_eq!(config.token(Bots::KaenguruKnecht, None), None);
    assert_eq!(
        config.token(Bots::KaenguruKnecht, Some("given".to_string())),
        Some("given".to_string())
    );
}

#[test]
fn empty_pool_of_first_match_is_reported() {
    let rs = vec![
        response(&["leer"], &[]),
        response(&["xd"], &["XDDDDD"]),
    ];
    assert_eq!(choose_reply_checked("leer", &rs), Err(0));
    assert_eq!(choose_reply_checked("xd", &rs), Ok(Some("XDDDDD".to_string())));
    assert_eq!(choose_reply_checked("nichts", &rs), Ok(None));
    assert_eq!(choose_reply("xd", &rs), Some("XDDDDD".to_string()));
}
