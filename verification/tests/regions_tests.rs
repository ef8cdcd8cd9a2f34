use mcp_news::country_to_gnews_code;

#[test]
fn country_codes_by_name() {
    assert_eq!(country_to_gnews_code("Kenya"), "ke");
    assert_eq!(country_to_gnews_code("nigeria"), "ng");
    assert_eq!(country_to_gnews_code("South Africa"), "za");
    assert_eq!(country_to_gnews_code("India"), "in");
    assert_eq!(country_to_gnews_code("China"), "cn");
    assert_eq!(country_to_gnews_code("Australia"), "au");
    assert_eq!(country_to_gnews_code("United Kingdom"), "gb");
    assert_eq!(country_to_gnews_code("UK"), "gb");
    assert_eq!(country_to_gnews_code("United States"), "us");
    assert_eq!(country_to_gnews_code("USA"), "us");
    assert_eq!(country_to_gnews_code("France"), "fr");
    assert_eq!(country_to_gnews_code("Germany"), "de");
    assert_eq!(country_to_gnews_code("UAE"), "ae");
    assert_eq!(country_to_gnews_code("Japan"), "jp");
    assert_eq!(country_to_gnews_code("Brazil"), "br");
    assert_eq!(country_to_gnews_code("Egypt"), "eg");
}

#[test]
fn country_codes_documented_codes_map_to_themselves() {
    for code in ["us", "gb", "ke", "in", "au", "cn", "fr", "de", "ng", "za", "ae", "jp", "br", "eg"] {
        assert_eq!(country_to_gnews_code(code), code);
        assert_eq!(country_to_gnews_code(&code.to_uppercase()), code);
    }
}

#[test]
fn country_codes_unknown_is_lowercased() {
    assert_eq!(country_to_gnews_code("Mexico"), "mexico");
    assert_eq!(country_to_gnews_code("MX"), "mx");
    assert_eq!(country_to_gnews_code(""), "");
}

#[test]
fn country_codes_are_idempotent() {
    for c in ["Kenya", "United States", "Mexico", "gb", "Nowhere Land"] {
        let once = country_to_gnews_code(c);
        assert_eq!(country_to_gnews_code(&once), once);
    }
}
