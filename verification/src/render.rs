//! The command line compiler: renders one key binding into one mode-prefixed
//! script statement per active mode, applying the modifier-driven text
//! transformations in a fixed order.

use vstd::prelude::*;

use crate::flags::ModeFlags;
use crate::text::escape_pipes;
use crate::text::escape_pipes_str;
use crate::text::string_push;
use crate::text::strip_whitespace;
use crate::text::strip_ws;

verus! {

/// The single statement body shared by all modes of one binding: directive,
/// silence marker, transformed key and transformed command.
pub open spec fn binding_body(key: Seq<char>, cmd: Seq<char>, f: ModeFlags) -> Seq<char> {
    let key1 = if f.leader {
        "<LEADER>"@ + key
    } else {
        key
    };
    let cmd1 = escape_pipes(cmd);
    let cmd2 = if f.command {
        "<CMD>"@ + cmd1 + "<CR>"@
    } else {
        cmd1
    };
    let key2 = strip_ws(key1);
    let base = if f.recursive {
        "map"@
    } else {
        "noremap"@
    };
    base + " <silent> "@ + key2 + " "@ + cmd2
}

/// The rendered lines of one binding: the shared body prefixed by each active
/// mode's one-character code, in the fixed order insert, normal, visual.
pub open spec fn binding_lines(key: Seq<char>, cmd: Seq<char>, f: ModeFlags) -> Seq<Seq<char>> {
    let body = binding_body(key, cmd, f);
    (if f.insert {
        seq![seq!['i'] + body]
    } else {
        Seq::empty()
    }) + (if f.normal {
        seq![seq!['n'] + body]
    } else {
        Seq::empty()
    }) + (if f.visual {
        seq![seq!['v'] + body]
    } else {
        Seq::empty()
    })
}

/// Renders one key binding into its mode-prefixed script lines.
pub fn render_binding(key: &str, cmd: &str, f: ModeFlags) -> (r: Vec<String>)
    ensures
        r.deep_view() == binding_lines(key@, cmd@, f),
{
    let mut key1 = String::new();
    if f.leader {
        key1.append("<LEADER>");
    }
    key1.append(key);
    proof {
        if f.leader {
            assert(key1@ =~= "<LEADER>"@ + key@);
        } else {
            assert(key1@ =~= key@);
        }
    }

    let cmd1 = escape_pipes_str(cmd);
    let mut cmd2 = String::new();
    if f.command {
        cmd2.append("<CMD>");
        cmd2.append(cmd1.as_str());
        cmd2.append("<CR>");
        proof {
            assert(cmd2@ =~= "<CMD>"@ + escape_pipes(cmd@) + "<CR>"@);
        }
    } else {
        cmd2.append(cmd1.as_str());
        proof {
            assert(cmd2@ =~= escape_pipes(cmd@));
        }
    }

    let key2 = strip_whitespace(key1.as_str());

    let mut body = String::new();
    if f.recursive {
        body.append("map");
    } else {
        body.append("noremap");
    }
    body.append(" <silent> ");
    body.append(key2.as_str());
    body.append(" ");
    body.append(cmd2.as_str());
    proof {
        assert(body@ =~= binding_body(key@, cmd@, f));
    }

    let mut r: Vec<String> = Vec::new();
    if f.insert {
        let mut li = String::new();
        string_push(&mut li, 'i');
        li.append(body.as_str());
        proof {
            assert(li@ =~= seq!['i'] + body@);
        }
        r.push(li);
    }
    if f.normal {
        let mut ln = String::new();
        string_push(&mut ln, 'n');
        ln.append(body.as_str());
        proof {
            assert(ln@ =~= seq!['n'] + body@);
        }
        r.push(ln);
    }
    if f.visual {
        let mut lv = String::new();
        string_push(&mut lv, 'v');
        lv.append(body.as_str());
        proof {
            assert(lv@ =~= seq!['v'] + body@);
        }
        r.push(lv);
    }
    proof {
        assert(r.deep_view() =~= binding_lines(key@, cmd@, f));
    }
    r
}

/// A binding with none of the insert, normal or visual modes set renders to
/// no lines at all, whatever its other modifiers, key or command are.
pub proof fn lemma_no_mode_no_lines(key: Seq<char>, cmd: Seq<char>, f: ModeFlags)
    requires
        !f.insert,
        !f.normal,
        !f.visual,
    ensures
        binding_lines(key, cmd, f).len() == 0,
{
}

/// Every rendered line of a binding embeds the pipe-escaped command text as
/// one contiguous segment, followed only by the fixed command-wrap suffix.
pub proof fn lemma_binding_embeds_escaped_cmd(key: Seq<char>, cmd: Seq<char>, f: ModeFlags, j: int)
    requires
        0 <= j < binding_lines(key, cmd, f).len(),
    ensures
        exists|pre: Seq<char>|
            binding_lines(key, cmd, f)[j] == pre + escape_pipes(cmd) + (if f.command {
                "<CR>"@
            } else {
                Seq::<char>::empty()
            }),
{
    let body = binding_body(key, cmd, f);
    let key1 = if f.leader {
        "<LEADER>"@ + key
    } else {
        key
    };
    let base = if f.recursive {
        "map"@
    } else {
        "noremap"@
    };
    let head = base + " <silent> "@ + strip_ws(key1) + " "@ + (if f.command {
        "<CMD>"@
    } else {
        Seq::<char>::empty()
    });
    let suffix = if f.command {
        "<CR>"@
    } else {
        Seq::<char>::empty()
    };
    let line = binding_lines(key, cmd, f)[j];
    let mode = line[0];
    let pre = seq![mode] + head;
    assert(line == seq![mode] + body);
    assert(line =~= pre + escape_pipes(cmd) + suffix);
}

} // verus!
