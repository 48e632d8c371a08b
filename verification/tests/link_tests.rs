use notifier::link::{build_signed_link, LinkError};

fn pairs(ps: &[(&str, &str)]) -> Vec<(String, String)> {
    ps.iter()
        .map(|(n, v)| (n.to_string(), v.to_string()))
        .collect()
}

#[test]
fn appends_parameters_in_order() {
    let ps = pairs(&[("token", "abc"), ("sig", "def")]);
    let link = build_signed_link("https://x/y", &ps).unwrap();
    assert_eq!(link, "https://x/y?token=abc&sig=def");
}

#[test]
fn building_twice_is_identical() {
    let ps = pairs(&[("token", "abc"), ("sig", "def")]);
    let a = build_signed_link("https://x/y", &ps).unwrap();
    let b = build_signed_link("https://x/y", &ps).unwrap();
    assert_eq!(a, b);
}

#[test]
fn no_parameters_returns_base() {
    let link = build_signed_link("https://x/y", &Vec::new()).unwrap();
    assert_eq!(link, "https://x/y");
}

#[test]
fn uses_ampersand_when_base_has_query() {
    let ps = pairs(&[("sig", "s")]);
    let link = build_signed_link("https://x/y?a=b", &ps).unwrap();
    assert_eq!(link, "https://x/y?a=b&sig=s");
}

#[test]
fn percent_encodes_names_and_values() {
    let ps = pairs(&[("a b", "c/d"), ("q", "x=y&z")]);
    let link = build_signed_link("https://host/p", &ps).unwrap();
    assert_eq!(link, "https://host/p?a%20b=c%2Fd&q=x%3Dy%26z");
}

#[test]
fn percent_encodes_multibyte_characters() {
    let ps = pairs(&[("n", "p\u{e9}")]);
    let link = build_signed_link("https://host/p", &ps).unwrap();
    assert_eq!(link, "https://host/p?n=p%C3%A9");
}

#[test]
fn keeps_unreserved_characters() {
    let ps = pairs(&[("k", "A9z-_.~")]);
    let link = build_signed_link("https://host/p", &ps).unwrap();
    assert_eq!(link, "https://host/p?k=A9z-_.~");
}

#[test]
fn rejects_base_without_scheme() {
    let ps = pairs(&[("a", "b")]);
    assert_eq!(
        build_signed_link("not a url", &ps).unwrap_err(),
        LinkError::InvalidBaseUrl
    );
    assert_eq!(
        build_signed_link("://x/y", &ps).unwrap_err(),
        LinkError::InvalidBaseUrl
    );
    assert_eq!(
        build_signed_link("", &ps).unwrap_err(),
        LinkError::InvalidBaseUrl
    );
}

#[test]
fn rejects_base_without_authority() {
    let ps = pairs(&[("a", "b")]);
    assert_eq!(
        build_signed_link("https://", &ps).unwrap_err(),
        LinkError::InvalidBaseUrl
    );
    assert_eq!(
        build_signed_link("https:/x", &ps).unwrap_err(),
        LinkError::InvalidBaseUrl
    );
}
