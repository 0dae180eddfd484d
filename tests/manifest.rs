use bedrock_launcher::manifest::{
    identity_of_attributes, manifest_path_for, read_identity, Attribute, ManifestError,
};

const MANIFEST: &str = r#"<?xml version="1.0" encoding="utf-8"?>
<Package xmlns="http://schemas.microsoft.com/appx/manifest/foundation/windows10">
  <Properties><DisplayName>Minecraft</DisplayName></Properties>
  <Identity Name="Microsoft.MinecraftUWP" Publisher="CN=Microsoft Corporation" Version="1.20.0.0" ProcessorArchitecture="x64"/>
  <Dependencies/>
</Package>"#;

#[test]
fn reads_identity_among_other_elements() {
    let id = read_identity(MANIFEST.as_bytes().to_vec()).unwrap();
    assert_eq!(id.name, "Microsoft.MinecraftUWP");
    assert_eq!(id.version, "1.20.0.0");
}

#[test]
fn first_identity_element_wins() {
    let doc = r#"<Package><Identity Name="First" Version="1.0.0.0"/><Identity Name="Second" Version="2.0.0.0"/></Package>"#;
    let id = read_identity(doc.as_bytes().to_vec()).unwrap();
    assert_eq!(id.name, "First");
    assert_eq!(id.version, "1.0.0.0");
}

#[test]
fn first_identity_without_version_is_missing() {
    let doc = r#"<Package><Identity Name="First"/><Identity Name="Second" Version="2.0.0.0"/></Package>"#;
    assert!(matches!(read_identity(doc.as_bytes().to_vec()), Err(ManifestError::MissingIdentity)));
}

#[test]
fn no_identity_is_missing() {
    let doc = r#"<Package><Properties/></Package>"#;
    assert!(matches!(read_identity(doc.as_bytes().to_vec()), Err(ManifestError::MissingIdentity)));
}

#[test]
fn malformed_markup_is_parse_error() {
    let doc = r#"<Package><Identity Name="A" Version="1"/></Pack"#;
    assert!(matches!(read_identity(doc.as_bytes().to_vec()), Err(ManifestError::Parse)));
    assert!(matches!(read_identity(Vec::new()), Err(ManifestError::Parse)));
}

#[test]
fn attributes_are_looked_up_by_name() {
    let attrs = vec![
        Attribute { name: "Version".to_string(), value: "3.1.0.0".to_string() },
        Attribute { name: "Name".to_string(), value: "Microsoft.MinecraftWindowsBeta".to_string() },
    ];
    let id = identity_of_attributes(&attrs).unwrap();
    assert_eq!(id.name, "Microsoft.MinecraftWindowsBeta");
    assert_eq!(id.version, "3.1.0.0");
    let version_only = vec![Attribute { name: "Version".to_string(), value: "3.1.0.0".to_string() }];
    assert!(matches!(identity_of_attributes(&version_only), Err(ManifestError::MissingIdentity)));
}

#[test]
fn manifest_path_uses_forward_slashes() {
    assert_eq!(manifest_path_for("D:\\Downloads\\MC"), "D:/Downloads/MC/AppxManifest.xml");
    assert_eq!(manifest_path_for("pkg"), "pkg/AppxManifest.xml");
    assert_eq!(manifest_path_for(""), "/AppxManifest.xml");
}
