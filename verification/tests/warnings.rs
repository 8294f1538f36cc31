use config_warnings::Warning;

fn unknown(section: &str, source: Option<&str>) -> Warning {
    Warning::UnknownSection {
        unknown_section: String::from(section),
        source: source.map(String::from),
    }
}

fn deprecated(old: &str, new: &str) -> Warning {
    Warning::DeprecatedKey { old: String::from(old), new: String::from(new) }
}

#[test]
fn render_unknown_section_without_source() {
    let w = unknown("legacy", None);
    assert_eq!(
        w.render(),
        "Found unknown config section: [legacy]\n\
         This notation for profiles has been deprecated and may result in the profile \
         not being registered in future versions.\n\
         Please use [profile.legacy] instead or run `forge config --fix`."
    );
    assert!(w.render().starts_with("Found unknown config section: [legacy]"));
}

#[test]
fn render_unknown_section_with_source() {
    let w = unknown("legacy", Some("remote.toml"));
    let r = w.render();
    assert_eq!(
        r,
        "Found unknown config section in remote.toml: [legacy]\n\
         This notation for profiles has been deprecated and may result in the profile \
         not being registered in future versions.\n\
         Please use [profile.legacy] instead or run `forge config --fix`."
    );
    assert_eq!(r.matches(" in remote.toml").count(), 1);
    assert!(r.starts_with("Found unknown config section in remote.toml: [legacy]"));
}

#[test]
fn render_no_local_toml() {
    let w = Warning::NoLocalToml { path: String::from("/home/user/project") };
    let r = w.render();
    assert_eq!(
        r,
        "No local TOML found to fix at /home/user/project.\n\
         Change the current directory to a project path or set the foundry.toml path with \
         the `FOUNDRY_CONFIG` environment variable"
    );
    assert!(r.contains("/home/user/project"));
    assert!(r.contains("Change the current directory"));
    assert!(r.contains("FOUNDRY_CONFIG"));
}

#[test]
fn render_could_not_read_toml() {
    let w = Warning::CouldNotReadToml {
        path: String::from("/tmp/foundry.toml"),
        err: String::from("unexpected EOF"),
    };
    let r = w.render();
    assert_eq!(r, "Could not read TOML at /tmp/foundry.toml: unexpected EOF");
    assert!(r.contains("/tmp/foundry.toml"));
    assert!(r.contains("unexpected EOF"));
    assert!(r.contains("read"));
    assert!(!r.contains("write"));
}

#[test]
fn render_could_not_write_toml() {
    let w = Warning::CouldNotWriteToml {
        path: String::from("/tmp/foundry.toml"),
        err: String::from("disk full"),
    };
    assert_eq!(w.render(), "Could not write TOML to /tmp/foundry.toml: disk full");
}

#[test]
fn render_could_not_fix_profile() {
    let w = Warning::CouldNotFixProfile {
        path: String::from("/tmp/foundry.toml"),
        profile: String::from("default"),
        err: String::from("profile is not a table"),
    };
    assert_eq!(
        w.render(),
        "Could not fix [default] in TOML at /tmp/foundry.toml: profile is not a table"
    );
}

#[test]
fn render_deprecated_key_without_replacement() {
    let w = deprecated("foo", "");
    assert_eq!(w.render(), "Key `foo` is being deprecated and will be removed in future versions.");
}

#[test]
fn render_deprecated_key_with_replacement() {
    let w = deprecated("foo", "bar");
    assert_eq!(
        w.render(),
        "Key `foo` is being deprecated in favor of `bar`. It will be removed in future versions."
    );
    assert!(w.render().contains("bar"));
    assert_ne!(deprecated("foo", "").render(), deprecated("foo", "bar").render());
}

#[test]
fn render_is_nonempty_for_every_variant() {
    let all = vec![
        unknown("a", None),
        unknown("a", Some("b")),
        Warning::NoLocalToml { path: String::new() },
        Warning::CouldNotReadToml { path: String::new(), err: String::new() },
        Warning::CouldNotWriteToml { path: String::new(), err: String::new() },
        Warning::CouldNotFixProfile {
            path: String::new(),
            profile: String::new(),
            err: String::new(),
        },
        deprecated("", ""),
    ];
    for w in all {
        assert!(!w.render().is_empty());
        assert_eq!(w.render(), w.render());
    }
}

#[test]
fn encode_exact_deprecated_key_empty_new() {
    let w = deprecated("foo", "");
    assert_eq!(w.encode(), "{\"type\":\"DeprecatedKey\",\"old\":\"foo\",\"new\":\"\"}");
}

#[test]
fn encode_exact_unknown_section_without_source() {
    let w = unknown("legacy", None);
    assert_eq!(
        w.encode(),
        "{\"type\":\"UnknownSection\",\"unknown_section\":\"legacy\",\"source\":null}"
    );
}

#[test]
fn encode_exact_unknown_section_with_source() {
    let w = unknown("legacy", Some("remote.toml"));
    assert_eq!(
        w.encode(),
        "{\"type\":\"UnknownSection\",\"unknown_section\":\"legacy\",\"source\":\"remote.toml\"}"
    );
}

#[test]
fn encode_escapes_special_characters() {
    let w = Warning::NoLocalToml { path: String::from("a\"b\\c\nd\re\tf") };
    assert_eq!(
        w.encode(),
        "{\"type\":\"NoLocalToml\",\"path\":\"a\\\"b\\\\c\\nd\\re\\tf\"}"
    );
}

#[test]
fn round_trip_every_variant() {
    let all = vec![
        unknown("legacy", None),
        unknown("legacy", Some("remote.toml")),
        Warning::NoLocalToml { path: String::from("/home/user/project") },
        Warning::CouldNotReadToml {
            path: String::from("/tmp/foundry.toml"),
            err: String::from("unexpected EOF"),
        },
        Warning::CouldNotWriteToml {
            path: String::from("/tmp/foundry.toml"),
            err: String::from("disk full"),
        },
        Warning::CouldNotFixProfile {
            path: String::from("/tmp/foundry.toml"),
            profile: String::from("default"),
            err: String::from("profile is not a table"),
        },
        deprecated("foo", "bar"),
        deprecated("foo", ""),
    ];
    for w in all {
        let decoded = Warning::decode(&w.encode());
        assert_eq!(decoded, Some(w));
    }
}

#[test]
fn round_trip_keeps_special_characters() {
    let w = Warning::CouldNotReadToml {
        path: String::from("C:\\config\\spaced dir\\foundry.toml"),
        err: String::from("line 1:\n\texpected \"]\", got \"\\\" instead\r"),
    };
    assert_eq!(Warning::decode(&w.encode()), Some(w));
}

#[test]
fn round_trip_empty_fields() {
    let w = unknown("", Some(""));
    assert_eq!(Warning::decode(&w.encode()), Some(w));
    let v = deprecated("", "");
    assert_eq!(Warning::decode(&v.encode()), Some(v));
}

#[test]
fn decode_rejects_malformed_input() {
    assert_eq!(Warning::decode(""), None);
    assert_eq!(Warning::decode("{}"), None);
    assert_eq!(Warning::decode("{\"type\":\"Unknown\"}"), None);
    assert_eq!(Warning::decode("{\"type\":\"NoLocalToml\",\"path\":\"x\"}extra"), None);
    assert_eq!(Warning::decode("{\"type\":\"NoLocalToml\",\"path\":\"x"), None);
    assert_eq!(Warning::decode("{\"type\":\"NoLocalToml\",\"path\":\"x\\q\"}"), None);
    assert_eq!(Warning::decode("{\"type\":\"DeprecatedKey\",\"old\":\"a\",\"new\":null}"), None);
}

#[test]
fn decode_rejects_raw_control_character_in_string() {
    assert_eq!(Warning::decode("{\"type\":\"NoLocalToml\",\"path\":\"a\nb\"}"), None);
}

#[test]
fn encoding_is_valid_tagged_json() {
    let w = Warning::CouldNotFixProfile {
        path: String::from("/tmp/foundry.toml"),
        profile: String::from("default"),
        err: String::from("said \"no\""),
    };
    let value: serde_json::Value = serde_json::from_str(&w.encode()).unwrap();
    assert_eq!(value.get("type").unwrap().as_str(), Some("CouldNotFixProfile"));
    assert_eq!(value.get("path").unwrap().as_str(), Some("/tmp/foundry.toml"));
    assert_eq!(value.get("profile").unwrap().as_str(), Some("default"));
    assert_eq!(value.get("err").unwrap().as_str(), Some("said \"no\""));
}

#[test]
fn encoding_of_absent_source_is_json_null() {
    let value: serde_json::Value = serde_json::from_str(&unknown("legacy", None).encode()).unwrap();
    assert!(value.get("source").unwrap().is_null());
}

#[test]
fn equality_is_reflexive_and_structural() {
    let w = unknown("legacy", Some("remote.toml"));
    assert_eq!(w, w.clone());
    assert_eq!(w, unknown("legacy", Some("remote.toml")));
    let d = deprecated("foo", "");
    assert_eq!(d, deprecated("foo", ""));
}

#[test]
fn equality_is_symmetric_and_transitive() {
    let a = deprecated("foo", "bar");
    let b = deprecated("foo", "bar");
    let c = deprecated("foo", "bar");
    assert_eq!(a == b, b == a);
    assert!(a == b && b == c);
    assert!(a == c);
}

#[test]
fn changing_any_field_breaks_equality() {
    assert_ne!(unknown("legacy", None), unknown("other", None));
    assert_ne!(unknown("legacy", None), unknown("legacy", Some("x")));
    assert_ne!(unknown("legacy", Some("a")), unknown("legacy", Some("b")));
    assert_ne!(deprecated("foo", ""), deprecated("foo", "bar"));
    assert_ne!(deprecated("foo", "bar"), deprecated("fox", "bar"));
    assert_ne!(
        Warning::NoLocalToml { path: String::from("a") },
        Warning::NoLocalToml { path: String::from("b") }
    );
    assert_ne!(
        Warning::CouldNotReadToml { path: String::from("p"), err: String::from("e") },
        Warning::CouldNotWriteToml { path: String::from("p"), err: String::from("e") }
    );
}

#[test]
fn empty_replacement_is_distinct_from_absent_source() {
    let d = deprecated("foo", "");
    let encoded = d.encode();
    assert!(encoded.contains("\"new\":\"\""));
    assert!(!encoded.contains("null"));
    let u = unknown("legacy", None);
    assert!(u.encode().contains("\"source\":null"));
}
