use vimgen::autocmd::{render_auto_command, AutoCommandSpec, EventMatch};
use vimgen::bindings::{expand, BindingEntry, SuffixBinding};
use vimgen::flags::ModeFlags;
use vimgen::render::render_binding;
use vimgen::scalar::{render_int, render_scalar, ScalarValue};

fn flags(insert: bool, normal: bool, visual: bool, leader: bool, command: bool, recursive: bool) -> ModeFlags {
    ModeFlags { insert, normal, visual, leader, command, recursive }
}

#[test]
fn renders_all_modifiers_one_line() {
    let f = flags(false, true, false, true, true, true);
    let lines = render_binding("k", "foo", f);
    assert_eq!(lines, vec!["nmap <silent> <LEADER>k <CMD>foo<CR>".to_string()]);
}

#[test]
fn zero_modes_render_zero_lines() {
    let f = flags(false, false, false, true, true, true);
    let lines = render_binding("k", "foo", f);
    assert!(lines.is_empty());
}

#[test]
fn one_line_per_active_mode_in_fixed_order() {
    let f = flags(true, true, true, false, false, false);
    let lines = render_binding("k", "c", f);
    assert_eq!(
        lines,
        vec![
            "inoremap <silent> k c".to_string(),
            "nnoremap <silent> k c".to_string(),
            "vnoremap <silent> k c".to_string(),
        ]
    );
}

#[test]
fn pipes_in_commands_are_escaped() {
    let f = flags(false, true, false, false, false, false);
    let lines = render_binding("k", "a|b|c", f);
    assert_eq!(lines, vec!["nnoremap <silent> k a\\|b\\|c".to_string()]);
}

#[test]
fn pipes_stay_escaped_under_command_wrap() {
    let f = flags(false, true, false, false, true, false);
    let lines = render_binding("k", "a|b", f);
    assert_eq!(lines, vec!["nnoremap <silent> k <CMD>a\\|b<CR>".to_string()]);
}

#[test]
fn whitespace_is_collapsed_out_of_keys() {
    let f = flags(false, true, false, false, false, false);
    let lines = render_binding("c w d", "x", f);
    assert_eq!(lines, vec!["nnoremap <silent> cwd x".to_string()]);
}

#[test]
fn expands_single_binding() {
    let pairs = expand("gd", &BindingEntry::Single("definition".to_string()));
    assert_eq!(pairs.len(), 1);
    assert_eq!(pairs[0].key, "gd");
    assert_eq!(pairs[0].command, "definition");
}

#[test]
fn expands_group_bindings_in_order() {
    let entry = BindingEntry::Group(vec![
        SuffixBinding { suffix: "a".to_string(), command: "one".to_string() },
        SuffixBinding { suffix: "b".to_string(), command: "two".to_string() },
    ]);
    let pairs = expand("p", &entry);
    assert_eq!(pairs.len(), 2);
    assert_eq!(pairs[0].key, "pa");
    assert_eq!(pairs[0].command, "one");
    assert_eq!(pairs[1].key, "pb");
    assert_eq!(pairs[1].command, "two");
}

#[test]
fn unconditional_autocmd_line() {
    let a = AutoCommandSpec {
        triggers: vec!["BufRead".to_string(), "BufNew".to_string()],
        cmd: vec!["setlocal spell".to_string()],
        lua: vec!["print(1)".to_string()],
        matching: None,
        event: vec![],
        silent: true,
        file_type: None,
    };
    let lines = render_auto_command(&a);
    assert_eq!(
        lines,
        vec![
            "autocmd BufRead,BufNew * silent! setlocal spell".to_string(),
            "autocmd BufRead,BufNew * silent! lua print(1)".to_string(),
        ]
    );
}

#[test]
fn conditional_autocmd_escapes_quotes() {
    let a = AutoCommandSpec {
        triggers: vec!["User".to_string()],
        cmd: vec!["say 'hi'".to_string()],
        lua: vec![],
        matching: Some("pat".to_string()),
        event: vec![EventMatch { key: "file".to_string(), value: "x".to_string() }],
        silent: false,
        file_type: None,
    };
    let lines = render_auto_command(&a);
    assert_eq!(
        lines,
        vec!["autocmd User pat  if v:event.file is 'x' | execute 'say \\'hi\\'' | endif".to_string()]
    );
}

#[test]
fn conditional_autocmd_joins_event_clauses() {
    let a = AutoCommandSpec {
        triggers: vec!["User".to_string()],
        cmd: vec!["c".to_string()],
        lua: vec![],
        matching: Some("*".to_string()),
        event: vec![
            EventMatch { key: "a".to_string(), value: "1".to_string() },
            EventMatch { key: "b".to_string(), value: "2".to_string() },
        ],
        silent: false,
        file_type: None,
    };
    let lines = render_auto_command(&a);
    assert_eq!(
        lines,
        vec!["autocmd User *  if v:event.a is '1' && v:event.b is '2' | execute 'c' | endif".to_string()]
    );
}

#[test]
fn file_type_autocmd_defaults_to_buffer_pattern() {
    let a = AutoCommandSpec {
        triggers: vec!["A".to_string()],
        cmd: vec!["c".to_string()],
        lua: vec![],
        matching: None,
        event: vec![],
        silent: false,
        file_type: Some("rust".to_string()),
    };
    let lines = render_auto_command(&a);
    assert_eq!(lines, vec!["autocmd A <buffer>  c".to_string()]);
}

#[test]
fn renders_integers_in_decimal() {
    assert_eq!(render_int(0), "0");
    assert_eq!(render_int(42), "42");
    assert_eq!(render_int(-7), "-7");
    assert_eq!(render_int(10), "10");
    assert_eq!(render_int(i64::MAX), "9223372036854775807");
    assert_eq!(render_int(i64::MIN), "-9223372036854775808");
}

#[test]
fn renders_scalar_values() {
    assert_eq!(render_scalar(&ScalarValue::Int(4)), "4");
    assert_eq!(render_scalar(&ScalarValue::Str("x y".to_string())), "\"x y\"");
    assert_eq!(render_scalar(&ScalarValue::Bool(true)), "yes");
    assert_eq!(render_scalar(&ScalarValue::Bool(false)), "no");
}
