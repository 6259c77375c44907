use nh::installable::{join_attribute, parse_attribute, Installable};

#[test]
fn test_parse_attribute() {
    assert_eq!(parse_attribute(r"foo.bar"), vec!["foo", "bar"]);
    assert_eq!(parse_attribute(r#"foo."bar.baz""#), vec!["foo", "bar.baz"]);
    let v: Vec<String> = vec![];
    assert_eq!(parse_attribute(""), v);
}

#[test]
fn test_installable_to_args() {
    assert_eq!(
        (Installable::Flake {
            reference: String::from("w"),
            attribute: ["x", "y.z"].into_iter().map(str::to_string).collect()
        })
        .to_args(),
        vec![r#"w#x."y.z""#]
    );

    assert_eq!(
        (Installable::File {
            path: String::from("w"),
            attribute: ["x", "y.z"].into_iter().map(str::to_string).collect()
        })
        .to_args(),
        vec!["--file", "w", r#"x."y.z""#]
    );
}

#[test]
fn test_join_attribute() {
    let ab: Vec<String> = vec!["foo".to_string(), "bar".to_string()];
    assert_eq!(join_attribute(&ab), "foo.bar");
    let cd: Vec<String> = vec!["foo".to_string(), "bar.baz".to_string()];
    assert_eq!(join_attribute(&cd), r#"foo."bar.baz""#);
}

#[test]
fn to_args_expression_and_store() {
    let e = Installable::Expression {
        expression: "import <nixpkgs> {}".to_string(),
        attribute: vec!["hello".to_string()],
    };
    assert_eq!(e.to_args(), vec!["--expr", "import <nixpkgs> {}", "hello"]);

    let s = Installable::Store { path: "/nix/store/abc".to_string() };
    assert_eq!(s.to_args(), vec!["/nix/store/abc"]);
}

#[test]
fn str_kind_names_every_variant() {
    let f = Installable::Flake { reference: "r".into(), attribute: vec![] };
    let fi = Installable::File { path: "p".into(), attribute: vec![] };
    let st = Installable::Store { path: "p".into() };
    let ex = Installable::Expression { expression: "e".into(), attribute: vec![] };
    assert_eq!(f.str_kind(), "flake");
    assert_eq!(fi.str_kind(), "file");
    assert_eq!(st.str_kind(), "store path");
    assert_eq!(ex.str_kind(), "expression");
}

#[test]
fn parse_attribute_empty_elements() {
    assert_eq!(parse_attribute("a..b"), vec!["a", "", "b"]);
    assert_eq!(parse_attribute(r#""a.b""#), vec!["a.b"]);
}
