use a2s_metrics::{clean_string, default_port, default_unknown};

#[test]
fn delimiters_are_escaped() {
    assert_eq!(clean_string(&"My, Cool=Server".to_string()), "My\\,\\ Cool\\=Server");
    assert_eq!(clean_string(&"a,b c=d".to_string()), "a\\,b\\ c\\=d");
}

#[test]
fn control_and_non_ascii_are_removed_before_trimming() {
    assert_eq!(clean_string(&"  H\u{e9}llo\tWorld  ".to_string()), "HlloWorld");
    assert_eq!(clean_string(&"\u{1}\u{7f}x\n".to_string()), "x");
    assert_eq!(clean_string(&"\u{7f}".to_string()), "");
    assert_eq!(clean_string(&" ~a\u{7f} ".to_string()), "~a");
    assert_eq!(clean_string(&"\t a b \u{263a}".to_string()), "a\\ b");
}

#[test]
fn empty_and_blank_values() {
    assert_eq!(clean_string(&String::new()), "");
    assert_eq!(clean_string(&"   ".to_string()), "");
    assert_eq!(clean_string(&"\u{e9}\u{e8}".to_string()), "");
}

#[test]
fn configuration_defaults() {
    assert_eq!(default_port(), 27015);
    assert_eq!(default_unknown(), "unknown");
}
