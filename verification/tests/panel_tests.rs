use aoiplate::panel::{
    build_init_script, detect_mime, image_candidates, image_data_uri, inline_assets,
    is_image_extension, message_script, overlay_visibility_script, priority_image_names,
    replace_text, DirEntryName, INIT_SCRIPT_BASE,
};

#[test]
fn init_script_with_and_without_image() {
    let none = build_init_script(None);
    assert_eq!(none, format!("{INIT_SCRIPT_BASE}\nwindow.__TODOLITE_PLATE_IMAGE_DATA = null;\n"));
    let some = build_init_script(Some("data:image/png;base64,AA\"\\\n"));
    assert!(some.ends_with(
        "\nwindow.__TODOLITE_PLATE_IMAGE_DATA = \"data:image/png;base64,AA\\\"\\\\\\n\";\n"
    ));
    let ctrl = build_init_script(Some("\u{1}"));
    assert!(ctrl.ends_with("= \"\\u0001\";\n"));
}

#[test]
fn bridge_scripts() {
    assert_eq!(message_script("{\"type\":\"x\"}"), "window.__TODOLITE_FROM_RUST({\"type\":\"x\"});");
    assert_eq!(overlay_visibility_script(true), "window.__TODOLITE_SET_OVERLAY_VISIBLE(true);");
    assert_eq!(overlay_visibility_script(false), "window.__TODOLITE_SET_OVERLAY_VISIBLE(false);");
}

#[test]
fn replace_matches_std() {
    for (s, p, r) in [
        ("aaa", "aa", "b"),
        ("abcabc", "bc", "XY"),
        ("no match", "zz", "q"),
        ("", "x", "y"),
        ("盘子盘子", "子", "s"),
    ] {
        assert_eq!(replace_text(s, p, r), s.replace(p, r));
    }
}

#[test]
fn assets_are_inlined() {
    let page = inline_assets(
        "<style>{{INLINE_STYLES}}</style><script>{{INLINE_SCRIPT}}</script>",
        "body{}",
        "run();",
    );
    assert_eq!(page, "<style>body{}</style><script>run();</script>");
    let nested = inline_assets("{{INLINE_STYLES}}", "{{INLINE_SCRIPT}}", "js");
    assert_eq!(nested, "js");
}

#[test]
fn mime_by_signature_then_extension() {
    let png = [0x89, 0x50, 0x4E, 0x47, 0x0D, 0x0A, 0x1A, 0x0A, 0];
    assert_eq!(detect_mime(None, &png), Some("image/png"));
    assert_eq!(detect_mime(Some("txt"), &[0xFF, 0xD8, 0xFF, 0x00]), Some("image/jpeg"));
    let webp = *b"RIFF\0\0\0\0WEBPVP8 ";
    assert_eq!(detect_mime(None, &webp), Some("image/webp"));
    assert_eq!(detect_mime(Some("PNG"), b"xx"), Some("image/png"));
    assert_eq!(detect_mime(Some("Jpeg"), b"xx"), Some("image/jpeg"));
    assert_eq!(detect_mime(Some("jpg"), b"xx"), Some("image/jpeg"));
    assert_eq!(detect_mime(Some("heic"), b"xx"), Some("image/heic"));
    assert_eq!(detect_mime(Some("gif"), b"xx"), None);
    assert_eq!(detect_mime(None, b"RIFF"), None);
}

#[test]
fn data_uri_is_base64() {
    assert_eq!(image_data_uri(Some("png"), b"Man").as_deref(), Some("data:image/png;base64,TWFu"));
    assert_eq!(image_data_uri(Some("png"), b"Ma").as_deref(), Some("data:image/png;base64,TWE="));
    assert_eq!(image_data_uri(Some("png"), b"M").as_deref(), Some("data:image/png;base64,TQ=="));
    assert_eq!(
        image_data_uri(Some("webp"), &[0xfb, 0xff, 0xbf]).as_deref(),
        Some("data:image/webp;base64,+/+/")
    );
    assert_eq!(image_data_uri(Some("bmp"), b"Man"), None);
}

#[test]
fn image_extensions() {
    for ext in ["png", "JPG", "jpeg", "WebP", "heic"] {
        assert!(is_image_extension(ext));
    }
    assert!(!is_image_extension("gif"));
    assert!(!is_image_extension(""));
}

#[test]
fn candidates_filtered_and_sorted() {
    let entry = |name: &str, ext: Option<&str>| DirEntryName {
        name: name.as_bytes().to_vec(),
        extension: ext.map(|e| e.to_string()),
    };
    let names = image_candidates(vec![
        entry("zeta.png", Some("png")),
        entry("README.md", Some("md")),
        entry("Alpha.JPG", Some("JPG")),
        entry("beta.heic", Some("heic")),
        entry("noext", None),
        entry("alpha.webp", Some("webp")),
    ]);
    let names: Vec<String> = names.into_iter().map(|n| String::from_utf8(n).unwrap()).collect();
    assert_eq!(names, vec!["Alpha.JPG", "alpha.webp", "beta.heic", "zeta.png"]);
}

#[test]
fn preferred_names_come_first() {
    assert_eq!(
        priority_image_names(),
        vec!["plate.png", "plate.webp", "plate.jpg", "plate.jpeg", "plate.heic"]
    );
}
