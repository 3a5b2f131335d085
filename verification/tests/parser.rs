use vimgen::flags::{parse_map_key, FlagError};

#[test]
fn parses_normal_visual() {
    let k = parse_map_key("nv").unwrap();
    assert!(k.flags.normal);
    assert!(k.flags.visual);
    assert!(!k.flags.insert);
    assert!(!k.flags.leader);
    assert!(!k.flags.command);
    assert!(!k.flags.recursive);
    assert_eq!(k.file_type, None);
    assert_eq!(k.label, None);
}

#[test]
fn parses_label_without_file_type() {
    let k = parse_map_key("nlc_MyLabel").unwrap();
    assert!(k.flags.normal);
    assert!(k.flags.leader);
    assert!(k.flags.command);
    assert!(!k.flags.insert);
    assert!(!k.flags.visual);
    assert_eq!(k.file_type, None);
    assert_eq!(k.label, Some("MyLabel".to_string()));
}

#[test]
fn parses_file_type_and_label() {
    let k = parse_map_key("nf_rust_Comment").unwrap();
    assert!(k.flags.normal);
    assert_eq!(k.file_type, Some("rust".to_string()));
    assert_eq!(k.label, Some("Comment".to_string()));
}

#[test]
fn parses_file_type_without_label() {
    let k = parse_map_key("nf_rust").unwrap();
    assert!(k.flags.normal);
    assert_eq!(k.file_type, Some("rust".to_string()));
    assert_eq!(k.label, None);
}

#[test]
fn rejects_duplicate_file_type_flag() {
    let e = parse_map_key("nff_x").unwrap_err();
    assert_eq!(e, FlagError::DuplicateFileTypeFlag);
}

#[test]
fn rejects_unsupported_flag() {
    let e = parse_map_key("z").unwrap_err();
    assert_eq!(e, FlagError::UnsupportedFlag('z'));
}

#[test]
fn rejects_file_type_flag_without_source() {
    let e = parse_map_key("nf").unwrap_err();
    assert_eq!(e, FlagError::MissingFileTypeSource);
}

#[test]
fn upper_case_flags_are_lowered() {
    let k = parse_map_key("NV").unwrap();
    assert!(k.flags.normal);
    assert!(k.flags.visual);
    let e = parse_map_key("Z").unwrap_err();
    assert_eq!(e, FlagError::UnsupportedFlag('z'));
}

#[test]
fn repeated_flags_are_idempotent() {
    let a = parse_map_key("nn").unwrap();
    let b = parse_map_key("n").unwrap();
    assert_eq!(a.flags.normal, b.flags.normal);
    assert_eq!(a.flags.insert, b.flags.insert);
    assert_eq!(a.file_type, b.file_type);
    assert_eq!(a.label, b.label);
}

#[test]
fn empty_key_gives_empty_flags() {
    let k = parse_map_key("").unwrap();
    assert!(!k.flags.insert && !k.flags.normal && !k.flags.visual);
    assert!(!k.flags.leader && !k.flags.command && !k.flags.recursive);
    assert_eq!(k.file_type, None);
    assert_eq!(k.label, None);
}

#[test]
fn parsing_is_deterministic() {
    for s in ["nv", "nlc_MyLabel", "nf_rust_Comment", "nff_x", "z", ""] {
        let a = parse_map_key(s);
        let b = parse_map_key(s);
        match (a, b) {
            (Ok(x), Ok(y)) => {
                assert_eq!(x.flags.insert, y.flags.insert);
                assert_eq!(x.flags.normal, y.flags.normal);
                assert_eq!(x.flags.visual, y.flags.visual);
                assert_eq!(x.flags.leader, y.flags.leader);
                assert_eq!(x.flags.command, y.flags.command);
                assert_eq!(x.flags.recursive, y.flags.recursive);
                assert_eq!(x.file_type, y.file_type);
                assert_eq!(x.label, y.label);
            }
            (Err(x), Err(y)) => assert_eq!(x, y),
            _ => panic!("parse results differ in kind"),
        }
    }
}

#[test]
fn label_remainder_splits_only_once_more() {
    let k = parse_map_key("nf_rust_Comment_Extra").unwrap();
    assert_eq!(k.file_type, Some("rust".to_string()));
    assert_eq!(k.label, Some("Comment_Extra".to_string()));
}

#[test]
fn empty_flag_sequence_with_label_is_legal() {
    let k = parse_map_key("_OnlyLabel").unwrap();
    assert!(!k.flags.insert && !k.flags.normal && !k.flags.visual);
    assert_eq!(k.file_type, None);
    assert_eq!(k.label, Some("OnlyLabel".to_string()));
}
