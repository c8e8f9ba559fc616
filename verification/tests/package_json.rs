use flopeek_core::flow::package_json::manifest_json;
use flopeek_core::flow::{BinField, ManifestJson};

fn s(text: &str) -> String {
    text.to_string()
}

#[test]
fn manifest_json_reads_scripts_bin_main_and_module() {
    let bytes = br#"{"scripts":{"n":1,"test":"vitest"},"bin":{"cli":"bin/cli.js","x":false},"main":"index.js","module":3}"#;
    let fields = match manifest_json(bytes) {
        ManifestJson::Object(fields) => fields,
        other => panic!("unexpected {other:?}"),
    };
    assert_eq!(fields.scripts, Some(vec![(s("n"), None), (s("test"), Some(s("vitest")))]));
    match fields.bin {
        Some(BinField::Named(named)) => {
            assert_eq!(named, vec![(s("cli"), Some(s("bin/cli.js"))), (s("x"), None)])
        }
        other => panic!("unexpected {other:?}"),
    }
    assert_eq!(fields.main, Some(Some(s("index.js"))));
    assert_eq!(fields.module, Some(None));
}

#[test]
fn manifest_json_tells_invalid_from_non_object_json() {
    assert!(matches!(manifest_json(b"{not json"), ManifestJson::Invalid));
    assert!(matches!(manifest_json(b"[1, 2]"), ManifestJson::NotObject));
    match manifest_json(br#"{"bin":"cli.js","scripts":[1]}"#) {
        ManifestJson::Object(fields) => {
            assert!(fields.scripts.is_none());
            assert!(matches!(fields.bin, Some(BinField::Text(ref t)) if t == "cli.js"));
            assert!(fields.main.is_none());
        }
        other => panic!("unexpected {other:?}"),
    }
}
