//! Output forms: mermaid.live links, HTML pages and managed blocks of markdown files.

use vstd::prelude::*;
use vstd::string::*;
use vstd::utf8::encode_utf8;

use crate::json::{
    arr, compact_json, field, json_read, keys_ascend, member, member_from, new_fields, no_fields,
    obj, string, tidy, to_compact, Json, JsonV, NESTED,
};
use crate::list::put;
use crate::order::precedes;
use crate::text::{
    free_of, lemma_replaced_free, cat2, cat3, cat4, chars_of, contains, decimal, decimal_usize,
    ends_with, find, find_in, has_suffix, lemma_find_from, replace, replace_first, replaced,
    replaced_first, slice_text, stands_at, text,
};

verus! {

/// The frame of an HTML page.
pub const HTML_PAGE: &'static str = "<!doctype html>\n<html lang=\"en\">\n<head>\n<meta charset=\"utf-8\">\n<meta name=\"viewport\" content=\"width=device-width, initial-scale=1\">\n{{DOCUMENT_TITLE}}<style>\n{{STYLE}}</style>\n</head>\n<body>\n<header class=\"page-header\">\n{{PAGE_HEADING}}<div class=\"theme-switch\" role=\"group\" aria-label=\"Appearance\">\n<button type=\"button\" data-theme-mode=\"system\">System</button>\n<button type=\"button\" data-theme-mode=\"light\">Light</button>\n<button type=\"button\" data-theme-mode=\"dark\">Dark</button>\n</div>\n</header>\n<main>\n{{DIAGRAMS}}</main>\n<script type=\"module\">\n{{SCRIPT}}</script>\n</body>\n</html>\n";

/// The frame of one diagram in an HTML page.
pub const HTML_DIAGRAM: &'static str = "<section class=\"diagram\">\n<h2 id=\"diagram-{{INDEX}}-title\">{{HEADING}}</h2>\n<div class=\"canvas\" data-index=\"{{INDEX}}\" aria-labelledby=\"diagram-{{INDEX}}-title\"></div>\n</section>\n";

/// The style sheet of an HTML page.
pub const HTML_STYLE: &'static str = ":root {\n  color-scheme: light dark;\n  --ground: #ffffff;\n  --ink: #1f2328;\n  --rule: #d0d7de;\n}\n:root[data-theme=\"dark\"] {\n  color-scheme: dark;\n  --ground: #0d1117;\n  --ink: #e6edf3;\n  --rule: #30363d;\n}\nbody {\n  margin: 0;\n  padding: 1.5rem;\n  background: var(--ground);\n  color: var(--ink);\n  font-family: system-ui, sans-serif;\n}\n.page-header {\n  display: flex;\n  flex-wrap: wrap;\n  align-items: center;\n  justify-content: space-between;\n  gap: 1rem;\n}\n.theme-switch button {\n  padding: 0.3rem 0.7rem;\n  border: 1px solid var(--rule);\n  background: transparent;\n  color: inherit;\n  cursor: pointer;\n}\n.theme-switch button[aria-pressed=\"true\"] {\n  font-weight: 600;\n}\n.diagram {\n  margin: 1.5rem 0;\n  padding: 1rem;\n  border: 1px solid var(--rule);\n  overflow: auto;\n}\n";

/// The script of an HTML page.
pub const HTML_SCRIPT: &'static str = "import mermaid from \"https://cdn.jsdelivr.net/npm/mermaid@11/dist/mermaid.esm.min.mjs\";\nimport elkLayouts from \"https://cdn.jsdelivr.net/npm/@mermaid-js/layout-elk@0/dist/mermaid-layout-elk.esm.min.mjs\";\n\nmermaid.registerLayoutLoaders(elkLayouts);\n\nconst sources = __SOURCES__;\nconst key = \"supervisor-mermaid:appearance\";\nconst system = window.matchMedia(\"(prefers-color-scheme: dark)\");\nconst buttons = document.querySelectorAll(\"[data-theme-mode]\");\n\nlet mode = localStorage.getItem(key) || \"system\";\nlet round = 0;\n\nfunction isDark() {\n  return mode === \"dark\" || (mode === \"system\" && system.matches);\n}\n\nfunction resolvedTheme() {\n  return isDark() ? \"dark\" : \"default\";\n}\n\nasync function draw() {\n  const mine = ++round;\n  document.documentElement.dataset.theme = isDark() ? \"dark\" : \"light\";\n  for (const button of buttons) {\n    button.setAttribute(\"aria-pressed\", String(button.dataset.themeMode === mode));\n  }\n  mermaid.initialize({ startOnLoad: false, theme: resolvedTheme(), maxTextSize: 1000000 });\n  for (const canvas of document.querySelectorAll(\".canvas\")) {\n    const index = Number(canvas.dataset.index);\n    const { svg, bindFunctions } = await mermaid.render(`drawing-${mine}-${index}`, sources[index]);\n    if (mine !== round) {\n      return;\n    }\n    canvas.innerHTML = svg;\n    bindFunctions?.(canvas);\n  }\n}\n\nfor (const button of buttons) {\n  button.addEventListener(\"click\", () => {\n    mode = button.dataset.themeMode;\n    localStorage.setItem(key, mode);\n    draw();\n  });\n}\nsystem.addEventListener(\"change\", () => {\n  if (mode === \"system\") {\n    draw();\n  }\n});\ndraw();\n";

/// The digit of base 64 for a number below 64, in the alphabet that is safe in URLs.
pub open spec fn base64_digit(v: int) -> char {
    if v < 26 {
        ('A' as int + v) as char
    } else if v < 52 {
        ('a' as int + v - 26) as char
    } else if v < 62 {
        ('0' as int + v - 52) as char
    } else if v == 62 {
        '-'
    } else {
        '_'
    }
}

fn digit_char(v: u32) -> (r: char)
    requires
        v < 64,
    ensures
        r == base64_digit(v as int),
{
    if v < 26 {
        (65 + v as u8) as char
    } else if v < 52 {
        (97 + (v as u8 - 26)) as char
    } else if v < 62 {
        (48 + (v as u8 - 52)) as char
    } else if v == 62 {
        '-'
    } else {
        '_'
    }
}

/// The byte at `i`, zero behind the end.
pub open spec fn byte_at(s: Seq<u8>, i: int) -> int {
    if 0 <= i < s.len() {
        s[i] as int
    } else {
        0
    }
}

/// Three bytes as one number.
pub open spec fn triple(s: Seq<u8>, i: int) -> int {
    byte_at(s, i) * 65536 + byte_at(s, i + 1) * 256 + byte_at(s, i + 2)
}

/// The four digits of the up to three bytes at `i`, padded with `=`.
pub open spec fn base64_quad(s: Seq<u8>, i: int) -> Seq<char> {
    let n = triple(s, i);
    seq![
        base64_digit(n / 262144),
        base64_digit(n / 4096 % 64),
        if i + 1 < s.len() {
            base64_digit(n / 64 % 64)
        } else {
            '='
        },
        if i + 2 < s.len() {
            base64_digit(n % 64)
        } else {
            '='
        },
    ]
}

/// The bytes from `i` on in base 64.
pub open spec fn base64_from(s: Seq<u8>, i: int) -> Seq<char>
    decreases s.len() + 3 - i,
{
    if i < 0 || i >= s.len() {
        Seq::empty()
    } else {
        base64_quad(s, i) + base64_from(s, i + 3)
    }
}

/// Bytes in base 64, in the alphabet that is safe in URLs, padded with `=`.
pub open spec fn base64_text(s: Seq<u8>) -> Seq<char> {
    base64_from(s, 0)
}

pub fn base64_url(bytes: &Vec<u8>) -> (r: String)
    ensures
        r@ == base64_text(bytes@),
{
    let mut out = String::new();
    let size: usize = bytes.len();
    let mut i: usize = 0;
    while i < size
        invariant
            size == bytes@.len(),
            out@ + base64_from(bytes@, i as int) == base64_text(bytes@),
        decreases size - i,
    {
        let a = bytes[i] as u32;
        let b: u32 = if size - i > 1 {
            bytes[i + 1] as u32
        } else {
            0
        };
        let c: u32 = if size - i > 2 {
            bytes[i + 2] as u32
        } else {
            0
        };
        let n: u32 = a * 65536 + b * 256 + c;
        proof {
            assert(n == triple(bytes@, i as int));
            assert(n < 16777216);
            let rest = base64_from(bytes@, i + 3);
            let quad = base64_quad(bytes@, i as int);
            assert(out@.push(quad[0]).push(quad[1]).push(quad[2]).push(quad[3]) + rest == out@ + (quad
                + rest));
        }
        out.push(digit_char(n / 262144));
        out.push(digit_char(n / 4096 % 64));
        out.push(
            if size - i > 1 {
                digit_char(n / 64 % 64)
            } else {
                '='
            },
        );
        out.push(
            if size - i > 2 {
                digit_char(n % 64)
            } else {
                '='
            },
        );
        if size - i > 3 {
            i = i + 3;
        } else {
            proof {
                assert(base64_from(bytes@, i + 3) == Seq::<char>::empty());
                assert(base64_from(bytes@, size as int) == Seq::<char>::empty());
            }
            i = size;
        }
    }
    assert(out@ + Seq::<char>::empty() == out@);
    out
}

/// The value of a digit of base 64.
pub open spec fn base64_value(c: char) -> int {
    if 'A' <= c && c <= 'Z' {
        c as int - 'A' as int
    } else if 'a' <= c && c <= 'z' {
        c as int - 'a' as int + 26
    } else if '0' <= c && c <= '9' {
        c as int - '0' as int + 52
    } else if c == '-' {
        62
    } else if c == '_' {
        63
    } else {
        0
    }
}

/// The bytes of the digits from `i` on.
pub open spec fn unbase64_from(t: Seq<char>, i: int) -> Seq<u8>
    decreases t.len() + 4 - i,
{
    if i < 0 || i + 4 > t.len() {
        Seq::empty()
    } else {
        let n = base64_value(t[i]) * 262144 + base64_value(t[i + 1]) * 4096 + base64_value(t[i + 2]) * 64
            + base64_value(t[i + 3]);
        let bytes = seq![(n / 65536) as u8, (n / 256 % 256) as u8, (n % 256) as u8];
        let kept = if t[i + 2] == '=' {
            1int
        } else if t[i + 3] == '=' {
            2
        } else {
            3
        };
        bytes.take(kept) + unbase64_from(t, i + 4)
    }
}

proof fn lemma_digit(v: int)
    requires
        0 <= v < 64,
    ensures
        base64_value(base64_digit(v)) == v,
        base64_digit(v) != '=',
{
}

proof fn lemma_split(n: int)
    requires
        0 <= n < 16777216,
    ensures
        n == n / 262144 * 262144 + n / 4096 % 64 * 4096 + n / 64 % 64 * 64 + n % 64,
        0 <= n / 262144 < 64,
{
}

proof fn lemma_bytes(a: int, b: int, c: int)
    requires
        0 <= a < 256,
        0 <= b < 256,
        0 <= c < 256,
    ensures
        ({
            let n = a * 65536 + b * 256 + c;
            &&& 0 <= n < 16777216
            &&& n / 65536 == a
            &&& n / 256 % 256 == b
            &&& n % 256 == c
            &&& c == 0 ==> n % 64 == 0
            &&& b == 0 && c == 0 ==> n / 64 % 64 == 0
        }),
{
}

/// What four digits stand for.
spec fn quad_value(t: Seq<char>, k: int) -> int {
    base64_value(t[k]) * 262144 + base64_value(t[k + 1]) * 4096 + base64_value(t[k + 2]) * 64
        + base64_value(t[k + 3])
}

proof fn lemma_quad_value(s: Seq<u8>, i: int, t: Seq<char>, k: int)
    requires
        0 <= i < s.len(),
        0 <= k,
        k + 4 <= t.len(),
        t.subrange(k, k + 4) == base64_quad(s, i),
    ensures
        quad_value(t, k) == triple(s, i),
        t[k + 2] == '=' <==> i + 1 >= s.len(),
        t[k + 3] == '=' <==> i + 2 >= s.len(),
{
    let n = triple(s, i);
    let q = t.subrange(k, k + 4);
    assert(t[k] == q[0] && t[k + 1] == q[1] && t[k + 2] == q[2] && t[k + 3] == q[3]);
    lemma_bytes(byte_at(s, i), byte_at(s, i + 1), byte_at(s, i + 2));
    lemma_split(n);
    lemma_digit(n / 262144);
    lemma_digit(n / 4096 % 64);
    lemma_digit(n / 64 % 64);
    lemma_digit(n % 64);
    assert(base64_value('=') == 0);
}

proof fn lemma_quad(s: Seq<u8>, i: int, t: Seq<char>, k: int)
    requires
        0 <= i < s.len(),
        0 <= k,
        k + 4 <= t.len(),
        t.subrange(k, k + 4) == base64_quad(s, i),
    ensures
        unbase64_from(t, k) == s.subrange(
            i,
            if i + 3 < s.len() {
                i + 3
            } else {
                s.len() as int
            },
        ) + unbase64_from(t, k + 4),
{
    lemma_quad_value(s, i, t, k);
    lemma_bytes(byte_at(s, i), byte_at(s, i + 1), byte_at(s, i + 2));
    let n = triple(s, i);
    let end = if i + 3 < s.len() {
        i + 3
    } else {
        s.len() as int
    };
    let bytes = seq![(n / 65536) as u8, (n / 256 % 256) as u8, (n % 256) as u8];
    let kept = if i + 1 >= s.len() {
        1int
    } else if i + 2 >= s.len() {
        2
    } else {
        3
    };
    assert(bytes.take(kept) == s.subrange(i, end));
}

proof fn lemma_unbase64(s: Seq<u8>, i: int, t: Seq<char>, k: int)
    requires
        0 <= i <= s.len(),
        0 <= k <= t.len(),
        t.skip(k) == base64_from(s, i),
    ensures
        unbase64_from(t, k) == s.skip(i),
    decreases s.len() - i,
{
    if i < s.len() {
        let rest = base64_from(s, i + 3);
        assert(t.skip(k).len() == 4 + rest.len());
        assert(t.subrange(k, k + 4) == t.skip(k).take(4));
        assert(t.skip(k).take(4) == base64_quad(s, i));
        assert(t.skip(k + 4) == t.skip(k).skip(4));
        assert(t.skip(k).skip(4) == rest);
        lemma_quad(s, i, t, k);
        if i + 3 < s.len() {
            lemma_unbase64(s, i + 3, t, k + 4);
            assert(s.subrange(i, i + 3) + s.skip(i + 3) == s.skip(i));
        } else {
            assert(rest == Seq::<char>::empty());
            assert(unbase64_from(t, k + 4) == Seq::<u8>::empty());
            assert(s.subrange(i, s.len() as int) + Seq::<u8>::empty() == s.skip(i));
        }
    } else {
        assert(t.skip(k).len() == 0);
        assert(s.skip(i) == Seq::<u8>::empty());
    }
}

/// Decoding gives back the bytes that were encoded.
pub proof fn base64_decodes_to_what_was_encoded(s: Seq<u8>)
    ensures
        unbase64_from(base64_text(s), 0) == s,
{
    let t = base64_text(s);
    assert(t.skip(0) == t);
    lemma_unbase64(s, 0, t, 0);
    assert(s.skip(0) == s);
}

/// Bytes compressed by `flate2` in the zlib format at its best level.
pub uninterp spec fn zlib_best(bytes: Seq<u8>) -> Seq<u8>;

/// The bytes that `flate2::read::ZlibDecoder` inflates others to; nothing where they are not in the
/// zlib format.
pub uninterp spec fn zlib_read(bytes: Seq<u8>) -> Option<Seq<u8>>;

/// Compresses bytes: `flate2::write::ZlibEncoder` at `Compression::best()`, writing into a vector,
/// which does not fail. What comes out depends on the bytes alone, and inflating it gives them back.
#[verifier::external_body]
fn compress(bytes: &[u8]) -> (r: Vec<u8>)
    ensures
        r@ == zlib_best(bytes@),
        zlib_read(r@) == Some(bytes@),
{
    let mut enc = flate2::write::ZlibEncoder::new(Vec::new(), flate2::Compression::best());
    let _ = std::io::Write::write_all(&mut enc, bytes);
    enc.finish().unwrap_or_default()
}

/// The editor state that a link carries.
pub open spec fn editor_state(diagram: Seq<char>) -> JsonV {
    JsonV::Obj(
        no_fields().push(("autoSync"@, JsonV::Bool(true))).push(("code"@, JsonV::Str(diagram))).push(
            ("mermaid"@, JsonV::Obj(no_fields().push(("theme"@, JsonV::Str("default"@))))),
        ).push(("updateDiagram"@, JsonV::Bool(false))),
    )
}

fn make_editor_state(diagram: &str) -> (r: Json)
    ensures
        r.deep_view() == editor_state(diagram@),
{
    let mut theme = new_fields();
    field(&mut theme, "theme", string("default"));
    let mut o = new_fields();
    field(&mut o, "autoSync", Json::Bool(true));
    field(&mut o, "code", string(diagram));
    field(&mut o, "mermaid", obj(theme));
    field(&mut o, "updateDiagram", Json::Bool(false));
    obj(o)
}

/// The bytes that a link to a diagram carries, before they are compressed.
pub open spec fn editor_bytes(diagram: Seq<char>) -> Seq<u8> {
    encode_utf8(compact_json(editor_state(diagram)))
}

proof fn lemma_editor_state(diagram: Seq<char>)
    ensures
        tidy(editor_state(diagram), NESTED as nat),
        member(editor_state(diagram), "code"@) == Some(JsonV::Str(diagram)),
{
    reveal_strlit("autoSync");
    reveal_strlit("code");
    reveal_strlit("mermaid");
    reveal_strlit("updateDiagram");
    reveal_with_fuel(tidy, 3);
    reveal_with_fuel(member_from, 3);
    let v = editor_state(diagram)->Obj_0;
    assert(precedes("autoSync"@, "code"@) && precedes("autoSync"@, "mermaid"@) && precedes(
        "autoSync"@,
        "updateDiagram"@,
    ));
    assert(precedes("code"@, "mermaid"@) && precedes("code"@, "updateDiagram"@));
    assert(precedes("mermaid"@, "updateDiagram"@));
    assert(keys_ascend(v));
    assert(v[0].0 != "code"@);
}

/// Where the link to a diagram starts.
pub const LIVE: &'static str = "https://mermaid.live/edit#pako:";

/// The link that carries some bytes.
pub open spec fn link_to(bytes: Seq<u8>) -> Seq<char> {
    LIVE@ + base64_text(bytes)
}

/// The link that carries compressed bytes.
pub fn link_of(bytes: &Vec<u8>) -> (r: String)
    ensures
        r@ == link_to(bytes@),
{
    let digits = base64_url(bytes);
    cat2(LIVE, digits.as_str())
}

/// Encodes a Mermaid diagram into a shareable mermaid.live URL.
///
/// Behind the address the link holds the digits of compressed bytes. Decoded, inflated and read as
/// JSON they give back the editor state, whose code is the diagram.
pub fn live_url(diagram: &str) -> (r: String)
    ensures
        r@ == link_to(zlib_best(editor_bytes(diagram@))),
        LIVE@.is_prefix_of(r@),
        ({
            let carried = zlib_read(unbase64_from(r@.skip(LIVE@.len() as int), 0));
            &&& carried == Some(editor_bytes(diagram@))
            &&& json_read(carried->0) == Ok::<JsonV, Seq<char>>(editor_state(diagram@))
            &&& member(json_read(carried->0)->Ok_0, "code"@) == Some(JsonV::Str(diagram@))
        }),
{
    let state = make_editor_state(diagram);
    proof {
        lemma_editor_state(diagram@);
        a_link_carries_its_diagram(diagram@);
    }
    let json = to_compact(&state);
    let bytes = compress(json.as_str().as_bytes());
    let r = link_of(&bytes);
    assert(r@.subrange(0, LIVE@.len() as int) == LIVE@);
    r
}

/// A link gives back the compressed editor state of its diagram.
pub proof fn a_link_carries_its_diagram(diagram: Seq<char>)
    ensures
        ({
            let bytes = zlib_best(editor_bytes(diagram));
            unbase64_from(link_to(bytes).skip(LIVE@.len() as int), 0) == bytes
        }),
{
    let bytes = zlib_best(editor_bytes(diagram));
    assert(link_to(bytes).skip(LIVE@.len() as int) == base64_text(bytes));
    base64_decodes_to_what_was_encoded(bytes);
}

/// A text as it stands between the tags of an HTML page.
pub open spec fn html_escaped(s: Seq<char>) -> Seq<char> {
    replaced(replaced(replaced(s, "&"@, "&amp;"@), "<"@, "&lt;"@), ">"@, "&gt;"@)
}

fn html_esc(s: &str) -> (r: String)
    ensures
        r@ == html_escaped(s@),
{
    proof {
        reveal_strlit("&");
        reveal_strlit("<");
        reveal_strlit(">");
    }
    let a = replace(s, "&", "&amp;");
    let b = replace(a.as_str(), "<", "&lt;");
    replace(b.as_str(), ">", "&gt;")
}

/// The sections of the diagrams from number `i` on, behind `acc`.
pub open spec fn sections_from(
    diagrams: Seq<(Seq<char>, Seq<char>)>,
    i: int,
    acc: Seq<char>,
) -> Seq<char>
    decreases diagrams.len() - i,
{
    if i < 0 || i >= diagrams.len() {
        acc
    } else {
        sections_from(
            diagrams,
            i + 1,
            acc + replaced_first(
                replaced(HTML_DIAGRAM@, "{{INDEX}}"@, decimal(i as nat)),
                "{{HEADING}}"@,
                html_escaped(diagrams[i].0),
            ),
        )
    }
}

fn diagram_sections(diagrams: &Vec<(String, String)>) -> (r: String)
    ensures
        r@ == sections_from(diagrams.deep_view(), 0, ""@),
{
    let ghost ds = diagrams.deep_view();
    let mut out = text("");
    let mut i: usize = 0;
    while i < diagrams.len()
        invariant
            i <= diagrams@.len(),
            ds == diagrams.deep_view(),
            sections_from(ds, 0, ""@) == sections_from(ds, i as int, out@),
        decreases diagrams@.len() - i,
    {
        proof {
            reveal_strlit("{{INDEX}}");
        }
        let index = decimal_usize(i);
        let heading = html_esc(diagrams[i].0.as_str());
        let one = replace(HTML_DIAGRAM, "{{INDEX}}", index.as_str());
        let section = replace_first(one.as_str(), "{{HEADING}}", heading.as_str());
        out.append(section.as_str());
        i = i + 1;
    }
    out
}

/// The sources of diagrams as JSON.
pub open spec fn sources_json(diagrams: Seq<(Seq<char>, Seq<char>)>) -> JsonV {
    JsonV::Arr(Seq::new(diagrams.len(), |i: int| JsonV::Str(diagrams[i].1)))
}

/// A JSON text as it stands inside a script of an HTML page.
pub open spec fn script_escaped(s: Seq<char>) -> Seq<char> {
    replaced(replaced(replaced(s, "<"@, "\\u003c"@), ">"@, "\\u003e"@), "&"@, "\\u0026"@)
}

/// Escapes a JSON text for a script of an HTML page.
pub fn script_esc(s: &str) -> (r: String)
    ensures
        r@ == script_escaped(s@),
{
    proof {
        reveal_strlit("&");
        reveal_strlit("<");
        reveal_strlit(">");
    }
    let a = replace(s, "<", "\\u003c");
    let b = replace(a.as_str(), ">", "\\u003e");
    replace(b.as_str(), "&", "\\u0026")
}

fn script_sources(diagrams: &Vec<(String, String)>) -> (r: String)
    ensures
        r@ == script_escaped(compact_json(sources_json(diagrams.deep_view()))),
{
    let ghost all = sources_json(diagrams.deep_view())->Arr_0;
    let mut list: Vec<Json> = Vec::new();
    let mut i: usize = 0;
    while i < diagrams.len()
        invariant
            i <= diagrams@.len(),
            all == sources_json(diagrams.deep_view())->Arr_0,
            list.deep_view() == all.take(i as int),
        decreases diagrams@.len() - i,
    {
        put(&mut list, string(diagrams[i].1.as_str()));
        i = i + 1;
        assert(list.deep_view() == all.take(i as int));
    }
    assert(all.take(all.len() as int) == all);
    let json = to_compact(&arr(list));
    script_esc(json.as_str())
}

/// A title between two tags, or nothing.
pub open spec fn tagged(open: Seq<char>, title: Option<Seq<char>>, close: Seq<char>) -> Seq<char> {
    match title {
        Some(t) => open + html_escaped(t) + close,
        None => ""@,
    }
}

/// The page around diagrams whose sources, escaped for a script, are given.
pub open spec fn page_text(
    title: Option<Seq<char>>,
    diagrams: Seq<(Seq<char>, Seq<char>)>,
    sources: Seq<char>,
) -> Seq<char> {
    let script = replaced_first(HTML_SCRIPT@, "__SOURCES__"@, sources);
    let styled = replaced_first(HTML_PAGE@, "{{STYLE}}"@, HTML_STYLE@);
    let scripted = replaced_first(styled, "{{SCRIPT}}"@, script);
    let filled = replaced_first(scripted, "{{DIAGRAMS}}"@, sections_from(diagrams, 0, ""@));
    replaced_first(
        replaced_first(filled, "{{PAGE_HEADING}}"@, tagged("<h1>"@, title, "</h1>\n"@)),
        "{{DOCUMENT_TITLE}}"@,
        tagged("<title>"@, title, "</title>\n"@),
    )
}

/// Puts a page around diagrams whose sources, escaped for a script, are given.
pub fn page_with(title: Option<&str>, diagrams: &Vec<(String, String)>, sources: &str) -> (r: String)
    ensures
        r@ == page_text(
            match title {
                Some(t) => Some(t@),
                None => None,
            },
            diagrams.deep_view(),
            sources@,
        ),
{
    let body = diagram_sections(diagrams);
    let (browser, heading) = match title {
        Some(t) => {
            let safe = html_esc(t);
            (
                cat3("<title>", safe.as_str(), "</title>\n"),
                cat3("<h1>", safe.as_str(), "</h1>\n"),
            )
        },
        None => (text(""), text("")),
    };
    let script = replace_first(HTML_SCRIPT, "__SOURCES__", sources);
    let styled = replace_first(HTML_PAGE, "{{STYLE}}", HTML_STYLE);
    let scripted = replace_first(styled.as_str(), "{{SCRIPT}}", script.as_str());
    let filled = replace_first(scripted.as_str(), "{{DIAGRAMS}}", body.as_str());
    let headed = replace_first(filled.as_str(), "{{PAGE_HEADING}}", heading.as_str());
    replace_first(headed.as_str(), "{{DOCUMENT_TITLE}}", browser.as_str())
}

/// Builds a self-contained HTML page that renders the given diagrams, each a heading and its
/// Mermaid source.
pub fn html_page(title: Option<&str>, diagrams: &Vec<(String, String)>) -> (r: String)
    ensures
        r@ == page_text(
            match title {
                Some(t) => Some(t@),
                None => None,
            },
            diagrams.deep_view(),
            script_escaped(compact_json(sources_json(diagrams.deep_view()))),
        ),
{
    let sources = script_sources(diagrams);
    page_with(title, diagrams, sources.as_str())
}

/// Where a managed block starts.
pub const START: &'static str = "<!-- supervisor-mermaid:start -->";

/// Where a managed block ends.
pub const END: &'static str = "<!-- supervisor-mermaid:end -->";

pub const LONE_MARKER: &'static str = ": found one supervisor-mermaid marker without the other; fix the markers by hand";

/// A managed block.
pub open spec fn managed(block: Seq<char>) -> Seq<char> {
    START@ + "\n"@ + block + END@
}

/// A document with its managed block rewritten, or appended where it has none; nothing where one
/// marker stands without the other in front of or behind it.
pub open spec fn updated(existing: Seq<char>, block: Seq<char>) -> Option<Seq<char>> {
    match (find(existing, START@), find(existing, END@)) {
        (Some(s), Some(e)) => if e >= s {
            Some(existing.take(s) + managed(block) + existing.skip(e + END@.len()))
        } else {
            None
        },
        (None, None) => Some(
            existing + (if ends_with(existing, "\n"@) {
                "\n"@
            } else {
                "\n\n"@
            }) + managed(block) + "\n"@,
        ),
        _ => None,
    }
}

/// Rewrites the managed block of a markdown document read from `path`.
pub fn update_text(path: &str, existing: &str, block: &str) -> (r: Result<String, String>)
    ensures
        match r {
            Ok(t) => updated(existing@, block@) == Some(t@),
            Err(e) => updated(existing@, block@) is None && e@ == path@ + LONE_MARKER@,
        },
{
    let cs = chars_of(existing);
    let start = chars_of(START);
    let end = chars_of(END);
    let full = cat4(START, "\n", block, END);
    match (find_in(&cs, &start, 0), find_in(&cs, &end, 0)) {
        (Some(s), Some(e)) => {
            if e >= s {
                let size: usize = cs.len();
                let head = slice_text(&cs, 0, s);
                let tail = slice_text(&cs, e + end.len(), size);
                assert(head@ == existing@.take(s as int));
                assert(tail@ == existing@.skip(e + END@.len()));
                return Ok(cat3(head.as_str(), full.as_str(), tail.as_str()));
            }
        },
        (None, None) => {
            let sep = if has_suffix(existing, "\n") {
                "\n"
            } else {
                "\n\n"
            };
            return Ok(cat4(existing, sep, full.as_str(), "\n"));
        },
        _ => {},
    }
    Err(cat2(path, LONE_MARKER))
}

/// No tag can begin or end in an escaped text.
pub proof fn an_escaped_text_holds_no_tags(s: Seq<char>)
    ensures
        free_of(html_escaped(s), '<'),
        free_of(html_escaped(s), '>'),
{
    reveal_strlit("&");
    reveal_strlit("<");
    reveal_strlit(">");
    reveal_strlit("&amp;");
    reveal_strlit("&lt;");
    reveal_strlit("&gt;");
    let a = replaced(s, "&"@, "&amp;"@);
    let b = replaced(a, "<"@, "&lt;"@);
    assert("<"@ == seq!['<']);
    assert(">"@ == seq!['>']);
    lemma_replaced_free(a, "<"@, "&lt;"@, '<', 0);
    lemma_replaced_free(b, ">"@, "&gt;"@, '<', 0);
    lemma_replaced_free(b, ">"@, "&gt;"@, '>', 0);
}

/// No tag and no entity can begin in a script-escaped text, whatever it says.
pub proof fn a_script_escaped_text_holds_no_tags(s: Seq<char>)
    ensures
        free_of(script_escaped(s), '<'),
        free_of(script_escaped(s), '>'),
        free_of(script_escaped(s), '&'),
{
    reveal_strlit("&");
    reveal_strlit("<");
    reveal_strlit(">");
    reveal_strlit("\\u003c");
    reveal_strlit("\\u003e");
    reveal_strlit("\\u0026");
    let a = replaced(s, "<"@, "\\u003c"@);
    let b = replaced(a, ">"@, "\\u003e"@);
    assert("<"@ == seq!['<']);
    assert(">"@ == seq!['>']);
    assert("&"@ == seq!['&']);
    lemma_replaced_free(s, "<"@, "\\u003c"@, '<', 0);
    lemma_replaced_free(a, ">"@, "\\u003e"@, '<', 0);
    lemma_replaced_free(a, ">"@, "\\u003e"@, '>', 0);
    lemma_replaced_free(b, "&"@, "\\u0026"@, '<', 0);
    lemma_replaced_free(b, "&"@, "\\u0026"@, '>', 0);
    lemma_replaced_free(b, "&"@, "\\u0026"@, '&', 0);
}

proof fn lemma_markers()
    ensures
        START@.len() == 33,
        END@.len() == 31,
        START@[0] == '<',
        END@[0] == '<',
        START@[24] == 's',
        END@[24] == 'e',
        forall|j: int| 0 < j < 33 ==> #[trigger] START@[j] != '<',
        forall|j: int| 0 < j < 31 ==> #[trigger] END@[j] != '<',
        forall|j: int| 0 <= j < 33 ==> #[trigger] START@[j] != '\n',
        forall|j: int| 0 <= j < 31 ==> #[trigger] END@[j] != '\n',
{
    reveal_strlit("<!-- supervisor-mermaid:start -->");
    reveal_strlit("<!-- supervisor-mermaid:end -->");
}

/// A text that stands at `j` gives each of its characters there.
proof fn lemma_stands(s: Seq<char>, j: int, pat: Seq<char>, k: int)
    requires
        stands_at(s, j, pat),
        0 <= k < pat.len(),
    ensures
        s[j + k] == pat[k],
{
    assert(s.subrange(j, j + pat.len())[k] == s[j + k]);
}

/// The first place of a text is the one before which it stands nowhere.
proof fn lemma_first(s: Seq<char>, pat: Seq<char>, k: int)
    requires
        stands_at(s, k, pat),
        forall|j: int| 0 <= j < k ==> !stands_at(s, j, pat),
    ensures
        find(s, pat) == Some(k),
{
    lemma_find_from(s, pat, 0);
}

proof fn lemma_managed(p: Seq<char>, a: Seq<char>, rest: Seq<char>)
    requires
        !contains(p, START@),
        !contains(p, END@),
        !contains(a, END@),
    ensures
        find(p + managed(a) + rest, START@) == Some(p.len() as int),
        find(p + managed(a) + rest, END@) == Some((p.len() + 34 + a.len()) as int),
{
    lemma_markers();
    reveal_strlit("\n");
    let s = START@;
    let e = END@;
    let t = p + managed(a) + rest;
    let at = p.len() as int;
    let end = at + 34 + a.len();
    assert(t.subrange(at, at + 33) == s);
    assert(t.subrange(end, end + 31) == e);
    assert(t[at] == '<');
    assert(t[end] == '<');
    assert forall|j: int| 0 <= j < at implies !stands_at(t, j, s) by {
        if stands_at(t, j, s) {
            if j + 33 <= at {
                assert(p.subrange(j, j + 33) == t.subrange(j, j + 33));
                assert(stands_at(p, j, s));
            } else {
                lemma_stands(t, j, s, at - j);
            }
        }
    }
    lemma_first(t, s, at);
    assert forall|j: int| 0 <= j < end implies !stands_at(t, j, e) by {
        if stands_at(t, j, e) {
            lemma_stands(t, j, e, 0);
            if j < at {
                if j + 31 <= at {
                    assert(p.subrange(j, j + 31) == t.subrange(j, j + 31));
                    assert(stands_at(p, j, e));
                } else {
                    lemma_stands(t, j, e, at - j);
                }
            } else if j == at {
                lemma_stands(t, j, e, 24);
                assert(t[at + 24] == s[24]);
            } else if j < at + 33 {
                assert(t[j] == s[j - at]);
            } else if j == at + 33 {
                assert(t[j] == '\n');
            } else if j + 31 <= end {
                assert(a.subrange(j - at - 34, j - at - 34 + 31) == t.subrange(j, j + 31));
                assert(stands_at(a, j - at - 34, e));
            } else {
                lemma_stands(t, j, e, end - j);
            }
        }
    }
    lemma_first(t, e, end);
}

/// The last update of a document is what it holds: an update before it, whose block holds no end
/// marker, leaves nothing behind.
pub proof fn the_last_update_wins(existing: Seq<char>, a: Seq<char>, b: Seq<char>)
    requires
        !contains(a, END@),
        updated(existing, a) is Some,
    ensures
        updated(updated(existing, a)->0, b) == updated(existing, b),
{
    lemma_markers();
    reveal_strlit("\n");
    reveal_strlit("\n\n");
    lemma_find_from(existing, START@, 0);
    lemma_find_from(existing, END@, 0);
    let t = updated(existing, a)->0;
    match (find(existing, START@), find(existing, END@)) {
        (Some(s), Some(e)) => {
            let p = existing.take(s);
            let rest = existing.skip(e + 31);
            assert(!contains(p, START@)) by {
                if contains(p, START@) {
                    let j = choose|j: int| stands_at(p, j, START@);
                    assert(existing.subrange(j, j + 33) == p.subrange(j, j + 33));
                    assert(stands_at(existing, j, START@));
                }
            }
            assert(!contains(p, END@)) by {
                if contains(p, END@) {
                    let j = choose|j: int| stands_at(p, j, END@);
                    assert(existing.subrange(j, j + 31) == p.subrange(j, j + 31));
                    assert(stands_at(existing, j, END@));
                }
            }
            lemma_managed(p, a, rest);
            assert(t.take(s) == p);
            assert(t.skip(s + 34 + a.len() + 31) == rest);
        },
        (None, None) => {
            let sep = if ends_with(existing, "\n"@) {
                "\n"@
            } else {
                "\n\n"@
            };
            let p = existing + sep;
            let n = existing.len() as int;
            assert(p[n] == '\n');
            assert(!contains(p, START@)) by {
                if contains(p, START@) {
                    let j = choose|j: int| stands_at(p, j, START@);
                    if j + 33 <= n {
                        assert(existing.subrange(j, j + 33) == p.subrange(j, j + 33));
                        assert(stands_at(existing, j, START@));
                    } else {
                        lemma_stands(p, j, START@, n - j);
                    }
                }
            }
            assert(!contains(p, END@)) by {
                if contains(p, END@) {
                    let j = choose|j: int| stands_at(p, j, END@);
                    if j + 31 <= n {
                        assert(existing.subrange(j, j + 31) == p.subrange(j, j + 31));
                        assert(stands_at(existing, j, END@));
                    } else {
                        lemma_stands(p, j, END@, n - j);
                    }
                }
            }
            lemma_managed(p, a, "\n"@);
            assert(t.take(p.len() as int) == p);
            assert(t.skip((p.len() + 34 + a.len() + 31) as int) == "\n"@);
        },
        _ => {},
    }
}

} // verus!
