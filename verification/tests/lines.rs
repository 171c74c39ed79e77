use puppetfile_audit::line::{read_line, Attr, Line};
use regex::Regex;

fn chars(s: &str) -> Vec<char> {
    s.chars().collect()
}

fn read(s: &str) -> Line {
    read_line(&chars(s))
}

struct Patterns {
    registry: Regex,
    source: Regex,
    attribute: Regex,
}

fn patterns() -> Patterns {
    Patterns {
        registry: Regex::new(
            r#"^\s*(?:mod)\s+['\"](?P<name>[^'\"]+)['\"],\s+['\"](?P<version>.*)['\"]"#,
        )
        .unwrap(),
        source: Regex::new(r#"^\s*(?:mod)\s+['\"](?P<name>[^'\"]+)['\"]\s*,$"#).unwrap(),
        attribute: Regex::new(
            r#"^\s*:(?P<name>git|commit|tag|branch|ref|link|fallback)\s*=>\s*['\"]?(?P<value>[^'\"]+)['\"']?$"#,
        )
        .unwrap(),
    }
}

fn key_of(word: &str) -> Attr {
    match word {
        "git" => Attr::Git,
        "commit" => Attr::Commit,
        "tag" => Attr::Tag,
        "branch" => Attr::Branch,
        "ref" => Attr::Ref,
        "link" => Attr::Link,
        "fallback" => Attr::Fallback,
        other => panic!("no attribute {other}"),
    }
}

/// The line as three regular expressions read it, after the same cutting
/// and trimming.
fn by_patterns(p: &Patterns, raw: &str) -> Line {
    let line = raw.trim();
    if line.is_empty() || line.starts_with('#') {
        return Line::Blank;
    }
    let line = match line.split_once('#') {
        Some((l, _)) => l.trim(),
        None => line,
    };
    if let Some(caps) = p.registry.captures(line) {
        Line::Registry {
            name: caps.name("name").unwrap().as_str().to_string(),
            version: caps.name("version").unwrap().as_str().to_string(),
        }
    } else if let Some(caps) = p.source.captures(line) {
        Line::Source { name: caps.name("name").unwrap().as_str().to_string() }
    } else if let Some(caps) = p.attribute.captures(line) {
        Line::Attribute {
            key: key_of(caps.name("name").unwrap().as_str()),
            value: caps.name("value").unwrap().as_str().to_string(),
        }
    } else {
        Line::Other
    }
}

#[test]
fn registry_line_is_read() {
    assert_eq!(
        read(r#"mod "puppetlabs/stdlib", "8.5.0""#),
        Line::Registry { name: "puppetlabs/stdlib".to_string(), version: "8.5.0".to_string() }
    );
}

#[test]
fn registry_line_quotes_need_not_match() {
    assert_eq!(
        read(r#"mod 'puppetlabs-apt", "9.0.0'"#),
        Line::Registry { name: "puppetlabs-apt".to_string(), version: "9.0.0".to_string() }
    );
}

#[test]
fn registry_version_runs_to_the_last_quote() {
    assert_eq!(
        read(r#"mod "a-b", "1.0.0" 'x' y"#),
        Line::Registry { name: "a-b".to_string(), version: "1.0.0\" 'x".to_string() }
    );
}

#[test]
fn registry_name_may_be_any_text_without_quotes() {
    assert_eq!(
        read(r#"mod "stdlib", "8.5.0""#),
        Line::Registry { name: "stdlib".to_string(), version: "8.5.0".to_string() }
    );
    assert_eq!(
        read(r#"mod "a/b", "8.5.0""#),
        Line::Registry { name: "a/b".to_string(), version: "8.5.0".to_string() }
    );
    assert_eq!(
        read(r#"mod "a b", "8.5.0""#),
        Line::Registry { name: "a b".to_string(), version: "8.5.0".to_string() }
    );
    assert_eq!(read(r#"mod "", "8.5.0""#), Line::Other);
}

#[test]
fn keyword_is_case_sensitive() {
    assert_eq!(read(r#"Mod "a-b", "1.0.0""#), Line::Other);
    assert_eq!(read(r#"MOD "a-b","#), Line::Other);
}

#[test]
fn source_line_is_read() {
    assert_eq!(read(r#"mod "myorg/thing","#), Line::Source { name: "myorg/thing".to_string() });
    assert_eq!(read("mod 'thing'  ,"), Line::Source { name: "thing".to_string() });
    assert_eq!(read("mod 'thing', x"), Line::Other);
}

#[test]
fn attribute_lines_are_read() {
    assert_eq!(
        read(":git => 'https://example.com/r.git'"),
        Line::Attribute { key: Attr::Git, value: "https://example.com/r.git".to_string() }
    );
    assert_eq!(
        read("  :branch=>main"),
        Line::Attribute { key: Attr::Branch, value: "main".to_string() }
    );
    assert_eq!(
        read(":ref => 'abc',"),
        Line::Other
    );
    assert_eq!(read(":ref => 'abc'"), Line::Attribute { key: Attr::Ref, value: "abc".to_string() });
    assert_eq!(read(":link => true"), Line::Attribute { key: Attr::Link, value: "true".to_string() });
    assert_eq!(read(":unknown => 'x'"), Line::Other);
    assert_eq!(read(":git => ''"), Line::Other);
}

#[test]
fn attribute_value_of_one_quote_is_the_space_before_it() {
    assert_eq!(read(":git => '"), Line::Attribute { key: Attr::Git, value: " ".to_string() });
    assert_eq!(read(":git =>'"), Line::Other);
}

#[test]
fn comments_are_cut() {
    assert_eq!(read("# mod 'a-b', '1.0.0'"), Line::Blank);
    assert_eq!(read("   # mod 'a-b', '1.0.0'"), Line::Blank);
    assert_eq!(read("   "), Line::Blank);
    assert_eq!(read(""), Line::Blank);
    assert_eq!(read("x # y"), Line::Other);
    assert_eq!(
        read("mod 'a-b', '1.0.0' # pinned"),
        Line::Registry { name: "a-b".to_string(), version: "1.0.0".to_string() }
    );
    assert_eq!(
        read(":git => 'https://example.com/r#x'"),
        Line::Attribute { key: Attr::Git, value: "https://example.com/r".to_string() }
    );
}

#[test]
fn white_space_is_what_unicode_says() {
    let mut c = 0u32;
    while c <= 0x10ffff {
        if let Some(ch) = char::from_u32(c) {
            assert_eq!(puppetfile_audit::text::space(ch), ch.is_whitespace(), "U+{c:04X}");
        }
        c += 1;
    }
    assert_eq!(
        read("mod\u{a0}'a-b',\u{3000}'1.0.0'\u{2028}"),
        Line::Registry { name: "a-b".to_string(), version: "1.0.0".to_string() }
    );
}

#[test]
fn lines_agree_with_the_patterns_on_samples() {
    let p = patterns();
    let samples = [
        r#"mod "puppetlabs/stdlib", "8.5.0""#,
        r#"mod "puppetlabs/stdlib","8.5.0""#,
        r#"mod "puppetlabs/stdlib" , "8.5.0""#,
        r#"mod  "a-b",   "1""#,
        r#"mod "a-b", """#,
        r#"mod "a-b", ""#,
        r#"mod "a--b", "1.0.0", :x"#,
        r#"mod "a b/c d", "1.0.0""#,
        r#"mod"a-b", "1.0.0""#,
        r#"modx "a-b", "1.0.0""#,
        r#"mod "thing","#,
        r#"mod "thing" ,"#,
        r#"mod "thing", "#,
        r#"mod "", "#,
        r#"mod "a-b",,"#,
        ":git => 'https://example.com/r.git'",
        ":git=>x",
        ":git => x y",
        ":git => 'x' y",
        ":git => x'",
        ":git => x''",
        ":git => 'x",
        ":git => '",
        ":git =>  '",
        ":git =>'",
        ":git => ",
        ":git =>",
        ":git = > x",
        ":gitx => x",
        ":tag => \"v1\"",
        ":commit => 'abc' # why",
        ":fallback => 'main'",
        ":link => 'true'",
        ":ref => 'x'",
        ": git => 'x'",
        "\t:branch\t=>\t'b'\t",
        "mod 'a-b', '1.0.0'\r",
        "  # comment",
        "#",
        "",
    ];
    for s in samples {
        assert_eq!(read(s), by_patterns(&p, s), "line {s:?}");
    }
}

#[test]
fn lines_agree_with_the_patterns_on_all_short_lines() {
    let p = patterns();
    let tokens =
        ["mod", " ", "'", "\"", "a-b", "z", ",", "#", ":git", ":ref", "=>", "\t", "1.0.0", "/"];
    let n = tokens.len();
    let mut count = 0usize;
    let mut len = 1;
    while len <= 4 {
        let total = n.pow(len as u32);
        let mut code = 0;
        while code < total {
            let mut s = String::new();
            let mut rest = code;
            let mut k = 0;
            while k < len {
                s.push_str(tokens[rest % n]);
                rest /= n;
                k += 1;
            }
            assert_eq!(read(&s), by_patterns(&p, &s), "line {s:?}");
            count += 1;
            code += 1;
        }
        len += 1;
    }
    assert!(count > 40000);
}

#[test]
fn module_lines_agree_with_the_patterns() {
    let p = patterns();
    let tails = ["'", "\"", "a-b", "z", ",", " ", "1.0.0", "x/y", "-"];
    let n = tails.len();
    let total = n.pow(5);
    let mut code = 0;
    while code < total {
        let mut s = String::from("mod '");
        let mut rest = code;
        let mut k = 0;
        while k < 5 {
            s.push_str(tails[rest % n]);
            rest /= n;
            k += 1;
        }
        assert_eq!(read(&s), by_patterns(&p, &s), "line {s:?}");
        code += 1;
    }
}

#[test]
fn attribute_lines_agree_with_the_patterns() {
    let p = patterns();
    let tails = ["'", "\"", "v", " ", "=>", "=", "\t", "x y"];
    let n = tails.len();
    let total = n.pow(5);
    for key in [":git", ":commit", ":tag", ":branch", ":ref", ":link", ":fallback", ":gi"] {
        let mut code = 0;
        while code < total {
            let mut s = String::from(key);
            let mut rest = code;
            let mut k = 0;
            while k < 5 {
                s.push_str(tails[rest % n]);
                rest /= n;
                k += 1;
            }
            assert_eq!(read(&s), by_patterns(&p, &s), "line {s:?}");
            code += 1;
        }
    }
}
