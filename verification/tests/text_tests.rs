use tuifile::paths::{path_file_name, path_join, path_pop, rel_path_of};
use tuifile::text::{dec_of, oct3_of, parse_millis, parse_octal};

fn chars(s: &str) -> Vec<char> {
    s.chars().collect()
}

fn text(v: &Vec<char>) -> String {
    v.iter().collect()
}

#[test]
fn decimal_rendering_is_exact() {
    assert_eq!(text(&dec_of(0)), "0");
    assert_eq!(text(&dec_of(7)), "7");
    assert_eq!(text(&dec_of(1024)), "1024");
    assert_eq!(text(&dec_of(u64::MAX)), "18446744073709551615");
}

#[test]
fn octal_triplet_is_zero_padded() {
    assert_eq!(text(&oct3_of(0o755)), "755");
    assert_eq!(text(&oct3_of(0o7)), "007");
    assert_eq!(text(&oct3_of(0)), "000");
}

#[test]
fn octal_parse_accepts_mode_words() {
    assert_eq!(parse_octal(&chars("755")), Some(0o755));
    assert_eq!(parse_octal(&chars("0")), Some(0));
    assert_eq!(parse_octal(&chars("+644")), Some(0o644));
    assert_eq!(parse_octal(&chars("")), None);
    assert_eq!(parse_octal(&chars("8")), None);
    assert_eq!(parse_octal(&chars("7x")), None);
    assert_eq!(parse_octal(&chars("77777777777")), None); // past 32 bits
}

#[test]
fn timeout_parse_reads_seconds_with_fraction() {
    assert_eq!(parse_millis(&chars("1")), Some(1000));
    assert_eq!(parse_millis(&chars("1.5")), Some(1500));
    assert_eq!(parse_millis(&chars(".25")), Some(250));
    assert_eq!(parse_millis(&chars("2.")), Some(2000));
    assert_eq!(parse_millis(&chars("0.1234")), Some(123)); // millisecond precision
    assert_eq!(parse_millis(&chars("")), None);
    assert_eq!(parse_millis(&chars(".")), None);
    assert_eq!(parse_millis(&chars("1.2.3")), None);
    assert_eq!(parse_millis(&chars("abc")), None);
}

#[test]
fn path_helpers_mirror_component_arithmetic() {
    assert_eq!(text(&path_join(&chars("/a"), &chars("b"))), "/a/b");
    assert_eq!(text(&path_join(&chars("/"), &chars("b"))), "/b");
    assert_eq!(text(&path_join(&chars("/a"), &chars("/abs"))), "/abs");
    assert_eq!(path_file_name(&chars("/a/b")).map(|v| text(&v)), Some("b".to_string()));
    assert_eq!(path_file_name(&chars("/")), None);
    let mut p = chars("/a/b");
    path_pop(&mut p);
    assert_eq!(text(&p), "/a");
    path_pop(&mut p);
    assert_eq!(text(&p), "/");
    path_pop(&mut p);
    assert_eq!(text(&p), "/");
    assert_eq!(rel_path_of(&chars("/a"), &chars("/a/b/c")).map(|v| text(&v)), Some("b/c".to_string()));
    assert_eq!(rel_path_of(&chars("/"), &chars("/bin")).map(|v| text(&v)), Some("bin".to_string()));
    assert_eq!(rel_path_of(&chars("/a"), &chars("/ab/c")), None);
}
