use heyday::aur::{
    aur_git_url, aur_info_url, aur_search_url, aur_summary, installed_contains,
    parse_installed_names, parse_srcinfo_deps, strip_ver, validate_pkg_path, AurBackend,
};
use heyday::domain::Source;
use heyday::pacman::{parse_pacman_search, parse_size, PacmanCli};

#[test]
fn upgrades_lines_parse() {
    let out = "firefox 122.0-1 -> 123.0-1\nnot a match\nzlib 1.2-1 -> 1.3-1\n";
    let rows = PacmanCli::parse_upgrades(out);
    assert_eq!(rows.len(), 2);
    assert_eq!(rows[0].id.name, "firefox");
    assert_eq!(rows[0].version, "123.0-1");
    assert!(rows[0].installed);
    assert!(matches!(rows[0].id.source, Source::Repo));
    assert_eq!(rows[1].id.name, "zlib");
    assert_eq!(rows[1].version, "1.3-1");
}

#[test]
fn upgrades_ignore_indented_and_short_lines() {
    let out = " firefox 1 -> 2\nfirefox 1 ->\nfirefox 1 2\n";
    let rows = PacmanCli::parse_upgrades(out);
    assert_eq!(rows.len(), 0);
}

#[test]
fn search_output_parses_head_and_description() {
    let out = "extra/firefox 123.0-1\n    Fast web browser\ncore/zlib 1.3-1 [installed]\n    Compression library\n";
    let rows = parse_pacman_search(out);
    assert_eq!(rows.len(), 2);
    assert_eq!(rows[0].id.name, "firefox");
    assert_eq!(rows[0].version, "123.0-1");
    assert_eq!(rows[0].description, "Fast web browser");
    assert!(!rows[0].installed);
    assert_eq!(rows[1].id.name, "zlib");
    assert!(rows[1].installed);
    assert_eq!(rows[1].description, "Compression library");
}

#[test]
fn search_head_without_description_is_kept_at_end() {
    let out = "extra/firefox 123.0-1";
    let rows = parse_pacman_search(out);
    assert_eq!(rows.len(), 1);
    assert_eq!(rows[0].id.name, "firefox");
    assert_eq!(rows[0].description, "");
}

#[test]
fn search_rejects_malformed_heads() {
    // no slash in the first token, and trailing junk after the version
    let out = "firefox 123.0-1\n    desc\nextra/firefox 123.0-1 unexpected\n    desc\n";
    let rows = parse_pacman_search(out);
    assert_eq!(rows.len(), 0);
}

#[test]
fn details_output_parses_fields() {
    let out = "Name            : firefox\n\
               Version         : 123.0-1\n\
               Description     : Fast browser\n\
               URL             : https://example.org\n\
               Depends On      : glibc gtk3\n\
               Optional Deps   : hunspell: spell checking\n\
               Packager        : Someone <dev@example.org>\n\
               Installed Size  : 6.5 MiB\n\
               Download Size   : 2 KiB\n";
    let summary = heyday::domain::PackageSummary {
        id: heyday::domain::PackageId { name: "firefox".to_string(), source: Source::Repo },
        version: String::new(),
        description: String::new(),
        installed: false,
        popular: None,
        last_updated: None,
    };
    let det = heyday::pacman::parse_pacman_details(out, summary);
    assert_eq!(det.summary.version, "123.0-1");
    assert_eq!(det.summary.description, "Fast browser");
    assert_eq!(det.homepage.as_deref(), Some("https://example.org"));
    assert_eq!(det.depends, vec!["glibc".to_string(), "gtk3".to_string()]);
    assert_eq!(det.opt_depends, vec!["hunspell".to_string()]);
    assert_eq!(det.maintainer.as_deref(), Some("Someone <dev@example.org>"));
    assert_eq!(det.size_install, Some(6815744)); // 6.5 * 1024 * 1024
    assert_eq!(det.size_download, Some(2048));
}

#[test]
fn details_depends_none_stays_empty() {
    let out = "Depends On      : None\n";
    let summary = heyday::domain::PackageSummary {
        id: heyday::domain::PackageId { name: String::new(), source: Source::Repo },
        version: String::new(),
        description: String::new(),
        installed: false,
        popular: None,
        last_updated: None,
    };
    let det = heyday::pacman::parse_pacman_details(out, summary);
    assert!(det.depends.is_empty());
}

#[test]
fn size_parsing_exact_values() {
    assert_eq!(parse_size("6.5 MiB"), 6815744);
    assert_eq!(parse_size("1024.0 KiB"), 1048576);
    assert_eq!(parse_size("2 GiB"), 2147483648);
    assert_eq!(parse_size("123 B"), 123);
    assert_eq!(parse_size("512"), 512);
    assert_eq!(parse_size("0.5 KiB"), 512);
    assert_eq!(parse_size(""), 0);
    assert_eq!(parse_size("abc MiB"), 0);
    assert_eq!(parse_size("12.3.4 KiB"), 0);
}

#[test]
fn fallback_names_trim_and_skip_blanks() {
    let out = "firefox\n\n  zlib  \n";
    let rows = PacmanCli::parse_fallback_names(out);
    assert_eq!(rows.len(), 2);
    assert_eq!(rows[0].id.name, "firefox");
    assert_eq!(rows[1].id.name, "zlib");
    assert_eq!(rows[0].version, "");
    assert!(!rows[0].installed);
}

#[test]
fn srcinfo_deps_sorted_and_deduplicated() {
    let src = "pkgbase = demo\n\tdepends = zlib>=1.2\n\tmakedepends = cmake\n\tdepends = glibc\n\tdepends = zlib\n";
    let deps = parse_srcinfo_deps(src);
    assert_eq!(
        deps,
        vec!["cmake".to_string(), "glibc".to_string(), "zlib".to_string()]
    );
}

#[test]
fn strip_ver_cuts_constraints() {
    assert_eq!(strip_ver("glibc>=2.39"), "glibc");
    assert_eq!(strip_ver("gtk3<4"), "gtk3");
    assert_eq!(strip_ver("plain "), "plain");
    assert_eq!(strip_ver("a=b"), "a");
}

#[test]
fn pkg_path_extension_check() {
    assert!(validate_pkg_path("/tmp/build/demo-1.0-x86_64.pkg.tar.zst"));
    assert!(!validate_pkg_path("/tmp/build/demo-1.0-x86_64.pkg.tar.gz"));
    assert!(!validate_pkg_path("/tmp/build/.zst"));
    assert!(!validate_pkg_path("zstfile"));
}

#[test]
fn installed_names_and_membership() {
    let names = parse_installed_names("firefox\nzlib\n\n");
    assert_eq!(names, vec!["firefox".to_string(), "zlib".to_string()]);
    assert!(installed_contains(&names, &"zlib".to_string()));
    assert!(!installed_contains(&names, &"emacs".to_string()));
}

#[test]
fn aur_urls_percent_encode_the_query() {
    let _ = AurBackend::new();
    let u = aur_search_url("fire fox+");
    assert_eq!(
        u,
        "https://aur.archlinux.org/rpc/?v=5&type=search&by=name-desc&arg=fire%20fox%2B"
    );
    let i = aur_info_url("brave-bin");
    assert_eq!(
        i,
        "https://aur.archlinux.org/rpc/?v=5&type=info&arg[]=brave-bin"
    );
    let g = aur_git_url("brave-bin");
    assert_eq!(g, "https://aur.archlinux.org/brave-bin.git");
}

#[test]
fn aur_summary_fields_carry_over() {
    let s = aur_summary(
        "brave-bin".to_string(),
        "1.60".to_string(),
        Some("Browser".to_string()),
        Some(42),
        Some(1700000000),
        true,
    );
    assert_eq!(s.id.name, "brave-bin");
    assert!(matches!(s.id.source, Source::Aur));
    assert_eq!(s.version, "1.60");
    assert_eq!(s.description, "Browser");
    assert_eq!(s.popular, Some(42));
    assert_eq!(s.last_updated, Some(1700000000));
    assert!(s.installed);
}

#[test]
fn size_parsing_saturates_on_huge_figures() {
    assert_eq!(parse_size("999999999999999999999999 GiB"), u64::MAX);
    assert_eq!(parse_size("18446744073709551615 B"), u64::MAX);
}
