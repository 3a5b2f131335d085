use vimgen::autocmd::AutoCommandSpec;
use vimgen::bindings::BindingEntry;
use vimgen::config::{compile_documents, Config, Document, KeyBinding, KeyGroup, Setting};
use vimgen::emit::emit_buckets;
use vimgen::flags::parse_map_key;
use vimgen::scalar::ScalarValue;

fn empty_config() -> Config {
    Config {
        keys: vec![],
        auto_commands: vec![],
        set_options: vec![],
        set_values: vec![],
        let_vars: vec![],
    }
}

fn rust_scoped_doc(filename: &str, key: &str, command: &str) -> Document {
    Document {
        config: Config {
            keys: vec![KeyGroup {
                map_key: parse_map_key("nf_rust").unwrap(),
                bindings: vec![KeyBinding {
                    key: key.to_string(),
                    entry: BindingEntry::Single(command.to_string()),
                }],
            }],
            ..empty_config()
        },
        filename: filename.to_string(),
    }
}

#[test]
fn whole_document_renders_in_order() {
    let doc = Document {
        config: Config {
            keys: vec![KeyGroup {
                map_key: parse_map_key("nl_Nav").unwrap(),
                bindings: vec![KeyBinding {
                    key: "x".to_string(),
                    entry: BindingEntry::Single("cmd|one".to_string()),
                }],
            }],
            auto_commands: vec![AutoCommandSpec {
                triggers: vec!["BufRead".to_string(), "BufNew".to_string()],
                cmd: vec!["setlocal spell".to_string()],
                lua: vec!["print(1)".to_string()],
                matching: None,
                event: vec![],
                silent: true,
                file_type: None,
            }],
            set_options: vec!["number".to_string()],
            set_values: vec![Setting {
                name: "tabstop".to_string(),
                value: ScalarValue::Int(4),
            }],
            let_vars: vec![Setting {
                name: "mapleader".to_string(),
                value: ScalarValue::Str(",".to_string()),
            }],
        },
        filename: "base.yaml".to_string(),
    };
    let buckets = compile_documents(&vec![doc]);
    let outputs = emit_buckets(&buckets);
    assert_eq!(outputs.len(), 1);
    assert_eq!(outputs[0].scope, None);
    let expected = "\n\n\" File: base.yaml\n\n\" Keybindings:\n\" Nav\nnnoremap <silent> <LEADER>x cmd\\|one\nautocmd BufRead,BufNew * silent! setlocal spell\nautocmd BufRead,BufNew * silent! lua print(1)\nset number\nset tabstop=4\nlet mapleader=\",\"";
    assert_eq!(outputs[0].payload, expected);
}

#[test]
fn two_documents_share_one_scoped_bucket_in_order() {
    let docs = vec![
        rust_scoped_doc("a.yaml", "a", "one"),
        rust_scoped_doc("b.yaml", "b", "two"),
    ];
    let buckets = compile_documents(&docs);
    let rust: Vec<&vimgen::buckets::Bucket> = buckets
        .buckets
        .iter()
        .filter(|b| b.scope == Some("rust".to_string()))
        .collect();
    assert_eq!(rust.len(), 1);
    assert_eq!(
        rust[0].lines,
        vec![
            "nnoremap <silent> a one".to_string(),
            "nnoremap <silent> b two".to_string(),
        ]
    );
}

#[test]
fn scoped_group_without_modes_still_creates_its_bucket() {
    let doc = Document {
        config: Config {
            keys: vec![KeyGroup {
                map_key: parse_map_key("f_rust").unwrap(),
                bindings: vec![KeyBinding {
                    key: "x".to_string(),
                    entry: BindingEntry::Single("c".to_string()),
                }],
            }],
            ..empty_config()
        },
        filename: "a.yaml".to_string(),
    };
    let buckets = compile_documents(&vec![doc]);
    let outputs = emit_buckets(&buckets);
    let rust: Vec<_> = outputs
        .iter()
        .filter(|o| o.scope == Some("rust".to_string()))
        .collect();
    assert_eq!(rust.len(), 1);
    assert_eq!(rust[0].payload, "");
}

#[test]
fn file_type_scoped_autocmds_land_in_the_global_bucket() {
    let doc = Document {
        config: Config {
            auto_commands: vec![AutoCommandSpec {
                triggers: vec!["A".to_string()],
                cmd: vec!["c".to_string()],
                lua: vec![],
                matching: None,
                event: vec![],
                silent: false,
                file_type: Some("rust".to_string()),
            }],
            ..empty_config()
        },
        filename: "a.yaml".to_string(),
    };
    let buckets = compile_documents(&vec![doc]);
    assert_eq!(buckets.buckets.len(), 1);
    assert_eq!(buckets.buckets[0].scope, None);
    assert!(buckets.buckets[0]
        .lines
        .contains(&"autocmd A <buffer>  c".to_string()));
}

#[test]
fn rerunning_the_pipeline_reproduces_identical_output() {
    let make = || {
        vec![
            rust_scoped_doc("a.yaml", "a", "one"),
            Document {
                config: Config {
                    set_options: vec!["ruler".to_string()],
                    ..empty_config()
                },
                filename: "b.toml".to_string(),
            },
        ]
    };
    let out1 = emit_buckets(&compile_documents(&make()));
    let out2 = emit_buckets(&compile_documents(&make()));
    assert_eq!(out1.len(), out2.len());
    for (a, b) in out1.iter().zip(out2.iter()) {
        assert_eq!(a.scope, b.scope);
        assert_eq!(a.payload, b.payload);
    }
}

#[test]
fn no_documents_emit_no_outputs() {
    let buckets = compile_documents(&vec![]);
    let outputs = emit_buckets(&buckets);
    assert!(outputs.is_empty());
}
