use ollama_chat::config::{config, load_configuration, parse_port, ConfigError};

fn text(s: &str) -> Option<String> {
    Some(s.to_string())
}

#[test]
fn loads_a_complete_environment() {
    let loaded = load_configuration(text("localhost"), text("11434"), text("llama3"))
        .expect("all three variables are set and the port is a number");
    assert_eq!(loaded.ollama_host(), "localhost");
    assert_eq!(loaded.ollama_port(), 11434);
    assert_eq!(loaded.ollama_model(), "llama3");
}

#[test]
fn missing_host_is_reported() {
    let error = load_configuration(None, text("11434"), text("llama3")).unwrap_err();
    assert_eq!(error, ConfigError::MissingHost);
    assert_eq!(error.variable(), "OLLAMA_HOST");
    assert_eq!(error.message(), "OLLAMA_HOST environment variable should be set");
}

#[test]
fn missing_port_is_reported() {
    let error = load_configuration(text("localhost"), None, text("llama3")).unwrap_err();
    assert_eq!(error, ConfigError::MissingPort);
    assert_eq!(error.variable(), "OLLAMA_PORT");
    assert_eq!(error.message(), "OLLAMA_PORT environment variable should be set");
}

#[test]
fn malformed_port_is_reported() {
    let error =
        load_configuration(text("localhost"), text("eleven"), text("llama3")).unwrap_err();
    assert_eq!(error, ConfigError::InvalidPort);
    assert_eq!(error.variable(), "OLLAMA_PORT");
    assert_eq!(error.message(), "OLLAMA_PORT should be a valid port number");
}

#[test]
fn missing_model_is_reported() {
    let error = load_configuration(text("localhost"), text("11434"), None).unwrap_err();
    assert_eq!(error, ConfigError::MissingModel);
    assert_eq!(error.variable(), "OLLAMA_MODEL");
    assert_eq!(error.message(), "OLLAMA_MODEL environment variable should be set");
}

#[test]
fn the_first_fault_wins() {
    let cases = [
        (None, None, None, ConfigError::MissingHost),
        (None, text("x"), None, ConfigError::MissingHost),
        (None, text("80"), text("m"), ConfigError::MissingHost),
        (text("h"), None, None, ConfigError::MissingPort),
        (text("h"), None, text("m"), ConfigError::MissingPort),
        (text("h"), text("x"), None, ConfigError::InvalidPort),
        (text("h"), text("70000"), None, ConfigError::InvalidPort),
        (text("h"), text(""), text("m"), ConfigError::InvalidPort),
        (text("h"), text("7"), None, ConfigError::MissingModel),
    ];
    for (host, port, model, expected) in cases {
        assert_eq!(load_configuration(host, port, model).unwrap_err(), expected);
    }
}

#[test]
fn empty_host_and_model_are_kept_as_they_are() {
    let loaded = load_configuration(text(""), text("0"), text("")).unwrap();
    assert_eq!(loaded.ollama_host(), "");
    assert_eq!(loaded.ollama_port(), 0);
    assert_eq!(loaded.ollama_model(), "");
}

#[test]
fn config_keeps_its_arguments() {
    let built = config("http://127.0.0.1".to_string(), 8080, "mistral".to_string());
    assert_eq!(built.ollama_host(), "http://127.0.0.1");
    assert_eq!(built.ollama_port(), 8080);
    assert_eq!(built.ollama_model(), "mistral");
}

#[test]
fn port_bounds() {
    assert_eq!(parse_port("0"), Some(0));
    assert_eq!(parse_port("1"), Some(1));
    assert_eq!(parse_port("11434"), Some(11434));
    assert_eq!(parse_port("65535"), Some(65535));
    assert_eq!(parse_port("65536"), None);
    assert_eq!(parse_port("99999"), None);
    assert_eq!(parse_port("4294967296"), None);
    assert_eq!(parse_port("18446744073709551616"), None);
}

#[test]
fn port_signs_and_padding() {
    assert_eq!(parse_port("+80"), Some(80));
    assert_eq!(parse_port("+0"), Some(0));
    assert_eq!(parse_port("0080"), Some(80));
    assert_eq!(parse_port("+0000065535"), Some(65535));
    assert_eq!(parse_port("000000000000000000000000000001"), Some(1));
    assert_eq!(parse_port("-80"), None);
    assert_eq!(parse_port("-0"), None);
    assert_eq!(parse_port("++80"), None);
    assert_eq!(parse_port("+-80"), None);
    assert_eq!(parse_port("+"), None);
    assert_eq!(parse_port("-"), None);
}

#[test]
fn port_rejects_what_is_no_number() {
    assert_eq!(parse_port(""), None);
    assert_eq!(parse_port(" "), None);
    assert_eq!(parse_port(" 80"), None);
    assert_eq!(parse_port("80 "), None);
    assert_eq!(parse_port("8 0"), None);
    assert_eq!(parse_port("80a"), None);
    assert_eq!(parse_port("a80"), None);
    assert_eq!(parse_port("0x50"), None);
    assert_eq!(parse_port("80.0"), None);
    assert_eq!(parse_port("8_0"), None);
    assert_eq!(parse_port("1e3"), None);
    assert_eq!(parse_port("\u{0668}\u{0660}"), None);
    assert_eq!(parse_port("\u{ff18}\u{ff10}"), None);
    assert_eq!(parse_port("/"), None);
    assert_eq!(parse_port(":"), None);
    assert_eq!(parse_port("99999999999999999999x"), None);
}

#[test]
fn port_reads_as_the_standard_parser_does() {
    let samples = [
        "", "+", "-", "0", "00", "+0", "-0", "7", "+7", "-7", "65535", "65536", "+65535",
        "065535", "655350", "100000", " 1", "1 ", "\t1", "1\n", "12ab", "ab12", "+ 1", "1+",
        "\u{ff11}\u{ff12}", "\u{0663}", "429496729680", "0000000000000000000000065535",
        "6553\u{ff15}",
    ];
    for sample in samples {
        assert_eq!(parse_port(sample), sample.parse::<u16>().ok(), "{:?}", sample);
    }
    for number in 0..=70000u32 {
        let written = format!("{}", number);
        assert_eq!(parse_port(&written), written.parse::<u16>().ok(), "{:?}", written);
    }
}
