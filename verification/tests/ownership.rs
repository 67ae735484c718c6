use kunger_lib::ownership::parse_dpkg_search;
use kunger_lib::text::is_unicode_whitespace;

#[test]
fn parses_single_owner_lines() {
    let output = "firefox: /usr/share/applications/firefox.desktop\n\
                   git: /usr/share/applications/git-gui.desktop\n";

    let owners = parse_dpkg_search(output);

    assert_eq!(
        owners
            .get("/usr/share/applications/firefox.desktop")
            .map(String::as_str),
        Some("firefox")
    );
    assert_eq!(
        owners
            .get("/usr/share/applications/git-gui.desktop")
            .map(String::as_str),
        Some("git")
    );
}

#[test]
fn multiple_owning_packages_use_the_first_listed_one() {
    let output = "vim, vim-runtime: /usr/share/applications/vim.desktop\n";

    let owners = parse_dpkg_search(output);

    assert_eq!(
        owners
            .get("/usr/share/applications/vim.desktop")
            .map(String::as_str),
        Some("vim")
    );
}

#[test]
fn unrecognized_or_stderr_style_lines_are_ignored_not_panicked_on() {
    let output = "dpkg-query: no path found matching pattern /opt/custom/app.desktop\n\
                   firefox: /usr/share/applications/firefox.desktop\n";

    let owners = parse_dpkg_search(output);

    assert_eq!(owners.len(), 1);
    assert!(owners.contains_key("/usr/share/applications/firefox.desktop"));
}

#[test]
fn empty_output_yields_an_empty_map() {
    assert!(parse_dpkg_search("").is_empty());
}

#[test]
fn later_line_for_the_same_path_replaces_the_earlier_one() {
    let owners = parse_dpkg_search("a: /x\nb: /x\n");
    assert_eq!(owners.len(), 1);
    assert_eq!(owners.get("/x").map(String::as_str), Some("b"));
}

#[test]
fn crlf_line_endings_and_surrounding_whitespace_are_trimmed() {
    let owners = parse_dpkg_search("  vim ,vim-tiny:   /usr/bin/vim \r\nnano: /bin/nano");
    assert_eq!(owners.len(), 2);
    assert_eq!(owners.get("/usr/bin/vim").map(String::as_str), Some("vim"));
    assert_eq!(owners.get("/bin/nano").map(String::as_str), Some("nano"));
}

#[test]
fn relative_paths_and_empty_package_names_are_skipped() {
    let owners = parse_dpkg_search("pkg: relative/path\n: /no/package\n , other: /blank/first\n");
    assert!(owners.is_empty());
}

#[test]
fn only_the_first_colon_space_delimits() {
    let owners = parse_dpkg_search("pkg: /odd: name\n");
    assert_eq!(owners.get("/odd: name").map(String::as_str), Some("pkg"));
}

#[test]
fn non_ascii_whitespace_is_trimmed_like_str_trim() {
    let owners = parse_dpkg_search("\u{3000}pkg\u{a0}: /p\u{2009}\n");
    assert_eq!(owners.get("/p").map(String::as_str), Some("pkg"));
}

#[test]
fn whitespace_test_agrees_with_char_is_whitespace() {
    for c in (0u32..=0x10FFFF).filter_map(char::from_u32) {
        assert_eq!(is_unicode_whitespace(c), c.is_whitespace(), "{:?}", c);
    }
}

#[test]
fn batched_output_equals_lines_merged_in_order() {
    let a = "x: /1\ny: /2";
    let b = "z: /2\nw: /3";
    let whole = parse_dpkg_search(&format!("{a}\n{b}"));
    assert_eq!(whole.len(), 3);
    assert_eq!(whole.get("/1").map(String::as_str), Some("x"));
    assert_eq!(whole.get("/2").map(String::as_str), Some("z"));
    assert_eq!(whole.get("/3").map(String::as_str), Some("w"));
}
