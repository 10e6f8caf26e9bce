use hyper::header::HeaderValue;
use hyper::HeaderMap;
use oxidized_wall::http::{Method, RequestUri};
use oxidized_wall::waf::dlp::{mask_card, mask_email, mask_sensitive_info, SensitivePatterns};
use oxidized_wall::waf::file::{check_magic_number, is_allowed_file_type};
use oxidized_wall::waf::injection::{get_patterns, is_attack};
use oxidized_wall::waf::path::{get_traversal_matcher, is_traversal, normalize_url};
use oxidized_wall::waf::single::exceeds;
use oxidized_wall::waf::structure::{
    check_json_depth, has_parameter_pollution, has_tool_name, is_high_density, is_malicious_bot,
};
use oxidized_wall::waf::{
    apply_dlp, body, has_text_body, header, is_text_type, judge_body, judge_header, BodyAction,
    BodyEvent, Rules, DENSITY_THRESHOLD,
};

fn rules() -> Rules {
    Rules::compile().unwrap()
}

fn uri(target: &str) -> RequestUri {
    RequestUri { path_and_query: Some(target.to_string()), host: None }
}

fn headers(list: &[(&'static str, &'static str)]) -> HeaderMap {
    let mut map = HeaderMap::new();
    for (name, value) in list {
        map.append(*name, HeaderValue::from_static(value));
    }
    map
}

#[test]
fn injections_are_found() {
    let patterns = get_patterns().unwrap();
    let attacks: [&[u8]; 9] = [
        b"1 UNION  SELECT x",
        b"select a from b",
        b"a' OR '1'='1'",
        b"x -- y",
        b"<SCRIPT src=x>",
        b"<img onerror = 1>",
        b"; rm -rf",
        b"a && b",
        b"$(id)",
    ];
    for attack in attacks {
        assert!(is_attack(&patterns, attack));
    }
    let harmless: [&[u8]; 4] = [b"", b"hello world", b"select", b"\xff\xfe"];
    for text in harmless {
        assert!(!is_attack(&patterns, text));
    }
    assert!(is_attack(&patterns, b"\xff\xfe||"));
}

#[test]
fn traversals_are_found() {
    let matcher = get_traversal_matcher().unwrap();
    for path in
        ["/a/../b", "..\\", "/ETC/passwd", "/Windows/System32", "boot.INI", "%2E%2e%2f", "%2e%2E%5c"]
    {
        assert!(is_traversal(&matcher, path));
    }
    for path in ["", "/", "/a/..", "/etc/shadow", "%2e%2e"] {
        assert!(!is_traversal(&matcher, path));
    }
}

fn reference_normalize(input: &str) -> String {
    let mut result = String::new();
    let mut chars = input.chars();
    while let Some(c) = chars.next() {
        if c == '%' {
            let mut hex = String::new();
            if let Some(h1) = chars.next() {
                hex.push(h1);
            }
            if let Some(h2) = chars.next() {
                hex.push(h2);
            }
            if let Ok(byte) = u8::from_str_radix(&hex, 16) {
                result.push(byte as char);
                continue;
            }
            result.push('%');
            result.push_str(&hex);
        } else {
            result.push(c);
        }
    }
    result
}

#[test]
fn escapes_are_decoded() {
    assert_eq!(normalize_url("/a%2Fb%41"), "/a/bA");
    assert_eq!(normalize_url("%e4"), "\u{e4}");
    assert_eq!(normalize_url("%252e"), "%2e");
    assert_eq!(normalize_url("%zz%4"), "%zz\u{4}");
    assert_eq!(normalize_url("%"), "%");
    assert_eq!(normalize_url("%+7"), "\u{7}");
    assert_eq!(normalize_url("%%41"), "%%41");
}

#[test]
fn decoding_agrees_with_radix_parsing() {
    let alphabet = ['%', '0', '9', 'a', 'F', 'g', '+', '-', ' ', '\u{e4}', '/'];
    for a in alphabet {
        for b in alphabet {
            for c in alphabet {
                for d in alphabet {
                    let text: String = [a, b, c, d].iter().collect();
                    assert_eq!(normalize_url(&text), reference_normalize(&text));
                }
            }
        }
    }
}

#[test]
fn decoding_undoes_escaping_and_never_lengthens() {
    let bytes: Vec<u8> = (0..=255u8).collect();
    let escaped: String = bytes.iter().map(|b| format!("%{:02x}", b)).collect();
    let plain: String = bytes.iter().map(|b| *b as char).collect();
    assert_eq!(normalize_url(&escaped), plain);
    assert_eq!(normalize_url("no escapes"), "no escapes");
}

#[test]
fn magic_numbers_are_refused() {
    assert_eq!(check_magic_number(b"MZ"), Ok(()));
    assert_eq!(
        check_magic_number(b"MZ\x90\x00"),
        Err("Executable file upload blocked (.exe/.dll)")
    );
    assert_eq!(check_magic_number(b"\x7fELF"), Err("ELF executable upload blocked"));
    assert_eq!(check_magic_number(b"#!/bin/sh"), Err("Script file upload blocked"));
    assert_eq!(check_magic_number(b"<?php echo"), Err("Script file upload blocked"));
    assert_eq!(check_magic_number(b"<?ph"), Ok(()));
    assert_eq!(check_magic_number(b"hello"), Ok(()));
}

#[test]
fn file_types_must_match() {
    assert!(is_allowed_file_type("image/jpeg", b"\xff\xd8\xff\xe0"));
    assert!(!is_allowed_file_type("image/jpeg", b"\x89PNG"));
    assert!(is_allowed_file_type("image/png", b"\x89PNG\r\n"));
    assert!(!is_allowed_file_type("image/png", b"GIF89a"));
    assert!(is_allowed_file_type("image/gif", b"GIF89a"));
    assert!(!is_allowed_file_type("image/gif", b"%PDF-1"));
    assert!(is_allowed_file_type("application/pdf", b"%PDF-1"));
    assert!(!is_allowed_file_type("application/pdf", b"PK\x03\x04"));
    assert!(is_allowed_file_type("application/zip", b"PK\x03\x04"));
    assert!(!is_allowed_file_type("application/zip", b"GIF89a"));
    assert!(is_allowed_file_type("text/plain", b"GIF89a"));
    assert!(is_allowed_file_type("image/png", b"abc"));
}

#[test]
fn nesting_is_bounded() {
    assert!(check_json_depth("", 0));
    assert!(!check_json_depth("{", 0));
    assert!(check_json_depth("[{[]}]", 3));
    assert!(!check_json_depth("[{[]}]", 2));
    assert!(check_json_depth("]]]][", 1));
    assert!(check_json_depth(&"[]".repeat(100), 1));
    assert!(!check_json_depth(&"[".repeat(11), 10));
}

#[test]
fn attack_tools_are_known() {
    for agent in ["sqlmap/1.0", "NIKTO", "Nmap", "MassCan", "DirBuster-1", "x gobuster"] {
        assert!(is_malicious_bot(agent));
    }
    assert!(!is_malicious_bot("Mozilla/5.0"));
    assert!(has_tool_name("nmap"));
    assert!(!has_tool_name("NMAP"));
}

fn reference_density(input: &str, threshold: f32) -> bool {
    let special = input.chars().filter(|c| !c.is_alphanumeric() && !c.is_whitespace()).count();
    let plain = input.chars().filter(|c| c.is_alphanumeric()).count();
    special as f32 / plain as f32 > threshold
}

#[test]
fn density_agrees_with_single_precision() {
    let thresholds =
        [0.0f32, 0.1, 0.25, 0.3, 0.4, 0.5, 0.75, 1.0, 7.0, -1.0, 1.5, f32::INFINITY, f32::NAN];
    let mut inputs = vec![String::new(), "\u{e4}!\u{20ac}".to_string(), " \t".to_string()];
    for special in 0..25usize {
        for plain in 0..25usize {
            inputs.push("!".repeat(special) + " " + &"a".repeat(plain));
        }
    }
    for input in &inputs {
        for threshold in thresholds {
            assert_eq!(
                is_high_density(input, threshold.to_bits()),
                reference_density(input, threshold)
            );
        }
    }
}

#[test]
fn density_is_special_characters_to_letters_and_numbers() {
    assert_eq!(DENSITY_THRESHOLD, 0.4f32.to_bits());
    assert!(is_high_density("ab!", DENSITY_THRESHOLD));
    assert!(is_high_density("!!aaa", DENSITY_THRESHOLD));
    assert!(!is_high_density("!!aaaaa", DENSITY_THRESHOLD));
    assert!(!is_high_density("a b1 2c!", DENSITY_THRESHOLD));
    assert!(is_high_density("!", DENSITY_THRESHOLD));
    assert!(!is_high_density("", DENSITY_THRESHOLD));
    assert!(!is_high_density(" \n", DENSITY_THRESHOLD));
    assert!(!is_high_density("plain text", 0f32.to_bits()));
}

#[test]
fn smaller_thresholds_find_more() {
    let thresholds = [-2.0f32, -0.0, 0.0, 1e-40, 0.2, 0.5, 0.50000006, 1.0, 3.0, f32::MAX];
    for input in ["a!", "!", "abc", "a!!!", ""] {
        let found: Vec<bool> =
            thresholds.iter().map(|t| is_high_density(input, t.to_bits())).collect();
        for pair in found.windows(2) {
            assert!(pair[0] || !pair[1]);
        }
    }
}

#[test]
fn ratios_are_rounded_to_single_precision() {
    let pairs = [
        (1u64, 3u64),
        (2, 5),
        (16_777_217, 33_554_435),
        (33_554_433, 83_886_083),
        (99_999_999, 249_999_997),
        (1, u64::MAX),
        (u64::MAX - 1, u64::MAX),
        (u64::MAX, u64::MAX),
        (0, 7),
        (7, 0),
        (0, 0),
        (u64::MAX, 1),
        (1 << 40, 3),
        (33_554_433, 2),
    ];
    for (a, b) in pairs {
        for threshold in [
            0.4f32,
            1.0 / 3.0,
            0.5,
            1.0,
            0.0,
            -0.0,
            -3.0,
            f32::NAN,
            f32::INFINITY,
            f32::NEG_INFINITY,
            1e-40,
            16_777_216.0,
            1.8e19,
            f32::MAX,
        ] {
            let expected = a as f32 / b as f32 > threshold;
            assert_eq!(exceeds(a, b, threshold.to_bits()), expected);
        }
        let quotient = a as f32 / b as f32;
        assert!(!exceeds(a, b, quotient.to_bits()));
        if quotient > 0.0 && quotient.is_finite() {
            assert!(exceeds(a, b, quotient.to_bits() - 1));
        }
    }
}

#[test]
fn repeated_parameters_are_pollution() {
    assert!(has_parameter_pollution("a=1&b=2&a=3"));
    assert!(has_parameter_pollution("a&a"));
    assert!(!has_parameter_pollution("a=1&b=2"));
    assert!(!has_parameter_pollution("=1&=2&&"));
    assert!(!has_parameter_pollution(""));
    assert!(!has_parameter_pollution("a=1&A=2"));
}

#[test]
fn emails_and_cards_are_masked() {
    let patterns = SensitivePatterns::compile().unwrap();
    assert_eq!(
        mask_sensitive_info(&patterns, "mail user@example.com, x.y@b.org now"),
        "mail ****@example.com, ****@b.org now"
    );
    assert_eq!(
        mask_sensitive_info(&patterns, "card 4111 1111 1111 1111!"),
        "card ****-****-****-****!"
    );
    assert_eq!(mask_sensitive_info(&patterns, "nothing 12345 a@b here"), "nothing 12345 a@b here");
    assert_eq!(mask_email("user@example.com"), "****@example.com");
    assert_eq!(mask_email("a@b@c"), "****@b@c");
    assert_eq!(mask_email("none"), "none");
    assert_eq!(mask_card("4111111111111111"), "****-****-****-****");
}

#[test]
fn heads_are_judged_in_order() {
    assert_eq!(judge_header(true, true, true, true), Err("Directory Traversal detected"));
    assert_eq!(judge_header(false, true, true, true), Err("Malicious pattern detected in URI"));
    assert_eq!(
        judge_header(false, false, true, true),
        Err("HTTP Parameter Pollution detected in URI")
    );
    assert_eq!(judge_header(false, false, false, true), Err("Malicious Bot detected"));
    assert_eq!(judge_header(false, false, false, false), Ok(()));
}

#[test]
fn heads_are_inspected() {
    let rules = rules();
    let none = headers(&[]);
    let get = Method::Get;
    assert_eq!(header(&rules, &uri("/a?b=c"), &get, &none), Ok(()));
    assert_eq!(
        header(&rules, &uri("/a/%2e%2E/b"), &get, &none),
        Err("Directory Traversal detected")
    );
    assert_eq!(
        header(&rules, &uri("/a?b=%3Cscript%3E"), &get, &none),
        Err("Malicious pattern detected in URI")
    );
    assert_eq!(
        header(&rules, &uri("/a?b=1&b=2"), &get, &none),
        Err("HTTP Parameter Pollution detected in URI")
    );
    assert_eq!(
        header(&rules, &uri("/"), &get, &headers(&[("User-Agent", "SQLmap")])),
        Err("Malicious Bot detected")
    );
    assert_eq!(
        header(&rules, &uri("/"), &get, &headers(&[("User-Agent", "curl"), ("User-Agent", "nmap")])),
        Ok(())
    );
}

#[test]
fn user_agent_that_is_no_text_is_ignored() {
    let mut map = HeaderMap::new();
    map.insert("user-agent", HeaderValue::from_bytes(b"nmap\xff").unwrap());
    assert_eq!(header(&rules(), &uri("/"), &Method::Get, &map), Ok(()));
}

#[test]
fn bodies_are_judged_in_order() {
    assert_eq!(judge_body(Err("x"), true, true, true, true, true), Err("x"));
    assert_eq!(
        judge_body(Ok(()), true, true, true, true, true),
        Err("File signature mismatch with Content-Type")
    );
    assert_eq!(judge_body(Ok(()), false, true, true, true, true), Err("JSON nesting too deep"));
    assert_eq!(
        judge_body(Ok(()), false, false, true, true, true),
        Err("High payload density detected")
    );
    assert_eq!(
        judge_body(Ok(()), false, false, false, true, true),
        Err("Parameter Pollution detected in payload")
    );
    assert_eq!(
        judge_body(Ok(()), false, false, false, false, true),
        Err("Malicious pattern detected in payload")
    );
    assert_eq!(judge_body(Ok(()), false, false, false, false, false), Ok(()));
}

#[test]
fn bodies_are_inspected() {
    let rules = rules();
    let none = headers(&[]);
    assert_eq!(body(&rules, &none, b"name=John"), Ok(()));
    assert_eq!(body(&rules, &none, b"\x7fELF...."), Err("ELF executable upload blocked"));
    assert_eq!(
        body(&rules, &headers(&[("Content-Type", "image/png")]), b"plain text"),
        Err("File signature mismatch with Content-Type")
    );
    let deep = "a".repeat(100) + &"[".repeat(11);
    assert_eq!(body(&rules, &none, deep.as_bytes()), Err("JSON nesting too deep"));
    assert_eq!(body(&rules, &none, b"{\"a\":1}"), Err("High payload density detected"));
    assert_eq!(
        body(&rules, &none, b"alpha=1&beta=2&alpha=3"),
        Err("Parameter Pollution detected in payload")
    );
    assert_eq!(
        body(&rules, &none, b"text javascript: text"),
        Err("Malicious pattern detected in payload")
    );
    assert_eq!(body(&rules, &none, b"valid \xff text of some length"), Ok(()));
    assert_eq!(body(&rules, &none, b"ab!"), Err("High payload density detected"));
}

#[test]
fn text_types_are_known() {
    for t in ["text/html", "application/json", "image/svg+xml", "application/javascript"] {
        assert!(is_text_type(t));
    }
    assert!(!is_text_type("image/png"));
    assert!(!is_text_type("TEXT/HTML"));
    assert!(has_text_body(&headers(&[("Content-Type", "TEXT/HTML; charset=utf-8")])));
    assert!(!has_text_body(&headers(&[("Content-Type", "image/png")])));
    assert!(!has_text_body(&headers(&[])));
}

#[test]
fn responses_are_masked() {
    let rules = rules();
    let text = headers(&[("Content-Type", "text/plain")]);
    let image = headers(&[("Content-Type", "image/png")]);
    assert!(matches!(apply_dlp(&rules, &text, BodyEvent::Start), BodyAction::Collect));
    assert!(matches!(apply_dlp(&rules, &image, BodyEvent::Start), BodyAction::PassThrough));
    assert!(matches!(apply_dlp(&rules, &text, BodyEvent::Failed), BodyAction::Empty));
    match apply_dlp(&rules, &text, BodyEvent::Collected(b"a@b.com \xff".to_vec())) {
        BodyAction::Replace(out) => assert_eq!(out, "****@b.com \u{fffd}"),
        _ => panic!("not masked"),
    }
}

#[test]
fn every_character_is_classified() {
    for code in 0u32..0x110000 {
        if let Some(c) = char::from_u32(code) {
            let text = c.to_string();
            assert_eq!(is_high_density(&text, DENSITY_THRESHOLD), reference_density(&text, 0.4));
        }
    }
}

#[test]
fn deeper_limits_accept_more() {
    let text = "[{(";
    assert!(!check_json_depth(text, 1));
    for limit in 2..20 {
        assert!(check_json_depth(text, limit));
    }
    assert!(check_json_depth("[[[[", 4));
}

#[test]
fn escaping_hides_no_traversal() {
    let matcher = get_traversal_matcher().unwrap();
    for text in ["a/../b", "%2e%2e%2f", "BOOT.ini"] {
        let escaped: String = text.bytes().map(|b| format!("%{:02X}", b)).collect();
        assert!(is_traversal(&matcher, &normalize_url(&escaped)));
    }
    assert!(is_traversal(&matcher, &normalize_url("%252e%252e%252f")));
}

#[test]
fn case_hides_no_tool() {
    let rules = rules();
    for code in 0u32..64 {
        let agent: String = "sqlmap"
            .chars()
            .enumerate()
            .map(|(i, c)| if code >> i & 1 == 1 { c.to_ascii_uppercase() } else { c })
            .collect();
        let mut map = HeaderMap::new();
        map.insert("user-agent", HeaderValue::from_str(&agent).unwrap());
        assert_eq!(header(&rules, &uri("/"), &Method::Get, &map), Err("Malicious Bot detected"));
    }
}
