//! Output forms.

use std::io::Read;

use supervisor_tools::out::{html_page, live_url, update_text};

#[test]
fn live_url_roundtrips() {
    let url = live_url("flowchart TD\n  a --> b\n");
    let b64 = url.strip_prefix("https://mermaid.live/edit#pako:").unwrap();
    let bytes = debase64_url(b64);
    let mut inflater = flate2::read::ZlibDecoder::new(bytes.as_slice());
    let mut json = String::new();
    inflater.read_to_string(&mut json).unwrap();
    let v: serde_json::Value = serde_json::from_str(&json).unwrap();
    assert_eq!(v["code"], "flowchart TD\n  a --> b\n");
}

#[test]
fn html_page_shows_or_omits_its_title() {
    let diagrams = vec![("graph".to_string(), "flowchart TD\n".to_string())];
    let titled = html_page(Some("Firmware <graph>"), &diagrams);
    assert!(
        titled.contains("<title>Firmware &lt;graph&gt;</title>"),
        "{titled}"
    );
    assert!(
        titled.contains("<h1>Firmware &lt;graph&gt;</h1>"),
        "{titled}"
    );

    let untitled = html_page(None, &diagrams);
    assert!(!untitled.contains("<title>"), "{untitled}");
    assert!(!untitled.contains("<h1>"), "{untitled}");
}

#[test]
fn html_page_has_a_persisted_system_light_dark_switcher() {
    let diagrams = vec![(
        "graph".to_string(),
        "flowchart TD\nA[</script>]\n".to_string(),
    )];
    let page = html_page(Some("Graph"), &diagrams);
    for mode in ["system", "light", "dark"] {
        assert!(
            page.contains(&format!("data-theme-mode=\"{mode}\"")),
            "missing {mode} control: {page}"
        );
    }
    assert!(
        page.contains("matchMedia(\"(prefers-color-scheme: dark)\")"),
        "{page}"
    );
    assert!(page.contains("supervisor-mermaid:appearance"), "{page}");
    assert!(page.contains("mermaid.render("), "{page}");
    assert!(page.contains("theme: resolvedTheme()"), "{page}");
    assert!(
        page.contains("@mermaid-js/layout-elk@0/dist/mermaid-layout-elk.esm.min.mjs"),
        "{page}"
    );
    assert!(
        page.contains("mermaid.registerLayoutLoaders(elkLayouts)"),
        "{page}"
    );
    assert!(page.contains("A[\\u003c/script\\u003e]"), "{page}");
    assert!(page.contains(".page-header {"), "{page}");
    assert!(page.contains("<section class=\"diagram\">"), "{page}");
    assert!(
        page.contains("data-index=\"0\" aria-labelledby=\"diagram-0-title\""),
        "{page}"
    );
}

fn debase64_url(s: &str) -> Vec<u8> {
    let val = |c: u8| -> u32 {
        match c {
            b'A'..=b'Z' => (c - b'A') as u32,
            b'a'..=b'z' => (c - b'a' + 26) as u32,
            b'0'..=b'9' => (c - b'0' + 52) as u32,
            b'-' => 62,
            b'_' => 63,
            _ => 0,
        }
    };
    let s: Vec<u8> = s.bytes().filter(|&c| c != b'=').collect();
    let mut out = Vec::new();
    for chunk in s.chunks(4) {
        let mut n = 0u32;
        for (i, &c) in chunk.iter().enumerate() {
            n |= val(c) << (18 - 6 * i);
        }
        let bytes = [(n >> 16) as u8, (n >> 8) as u8, n as u8];
        out.extend_from_slice(&bytes[..chunk.len() - 1]);
    }
    out
}

#[test]
fn markdown_update_replaces_and_appends() {
    let s = update_text("doc.md", "# Doc\n\ntext\n", "ONE\n").unwrap();
    assert!(s.contains("# Doc"), "{s}");
    assert!(s.contains(":start -->\nONE\n<!--"), "{s}");
    let s = update_text("doc.md", &s, "TWO\n").unwrap();
    assert!(!s.contains("ONE"), "{s}");
    assert_eq!(s.matches("supervisor-mermaid:start").count(), 1, "{s}");
}
