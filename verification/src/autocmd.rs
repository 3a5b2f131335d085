//! The autocommand compiler: renders one event/trigger specification into one
//! script statement per command, conditional when event matches are given.

use vstd::prelude::*;

use crate::text::escape_quotes;
use crate::text::escape_quotes_str;
use crate::text::join_strings;
use crate::text::join_with;
use crate::text::string_push;

verus! {

/// One required equality on the firing event's data: the generated condition
/// tests `v:event.key is 'value'`.
pub struct EventMatch {
    pub key: String,
    pub value: String,
}

/// Mathematical form of an event match.
pub ghost struct EventMatchV {
    pub key: Seq<char>,
    pub value: Seq<char>,
}

impl DeepView for EventMatch {
    type V = EventMatchV;

    open spec fn deep_view(&self) -> EventMatchV {
        EventMatchV { key: self.key@, value: self.value@ }
    }
}

/// One autocommand to render: its triggering events, the statements to run,
/// an optional match pattern, required event data, and a silence marker.
pub struct AutoCommandSpec {
    pub triggers: Vec<String>,
    pub cmd: Vec<String>,
    pub lua: Vec<String>,
    pub matching: Option<String>,
    pub event: Vec<EventMatch>,
    pub silent: bool,
    pub file_type: Option<String>,
}

/// Mathematical form of an autocommand specification.
pub ghost struct AutoCommandSpecV {
    pub triggers: Seq<Seq<char>>,
    pub cmd: Seq<Seq<char>>,
    pub lua: Seq<Seq<char>>,
    pub matching: Option<Seq<char>>,
    pub event: Seq<EventMatchV>,
    pub silent: bool,
    pub file_type: Option<Seq<char>>,
}

impl View for AutoCommandSpec {
    type V = AutoCommandSpecV;

    open spec fn view(&self) -> AutoCommandSpecV {
        AutoCommandSpecV {
            triggers: self.triggers.deep_view(),
            cmd: self.cmd.deep_view(),
            lua: self.lua.deep_view(),
            matching: self.matching.deep_view(),
            event: self.event.deep_view(),
            silent: self.silent,
            file_type: self.file_type.deep_view(),
        }
    }
}

impl DeepView for AutoCommandSpec {
    type V = AutoCommandSpecV;

    open spec fn deep_view(&self) -> AutoCommandSpecV {
        self.view()
    }
}

/// The match pattern of an autocommand: the explicit one when given, else
/// `<buffer>` for file-type-scoped specifications, else the wildcard.
pub open spec fn match_pattern(a: AutoCommandSpecV) -> Seq<char> {
    match a.matching {
        Some(m) => m,
        None => if a.file_type is Some {
            "<buffer>"@
        } else {
            "*"@
        },
    }
}

/// The silence token: `silent!` when asked for, else nothing.
pub open spec fn silent_token(a: AutoCommandSpecV) -> Seq<char> {
    if a.silent {
        "silent!"@
    } else {
        Seq::empty()
    }
}

/// The condition clause one event match contributes.
pub open spec fn event_clause(e: EventMatchV) -> Seq<char> {
    "v:event."@ + e.key + " is '"@ + e.value + seq!['\'']
}

/// The whole condition: every event match's clause, joined with ` && `.
pub open spec fn condition_of(event: Seq<EventMatchV>) -> Seq<char> {
    join_with(event.map_values(|e: EventMatchV| event_clause(e)), " && "@)
}

/// The head shared by every line of one autocommand: the directive, the
/// comma-joined triggers, the match pattern and the silence token.
pub open spec fn autocmd_head(a: AutoCommandSpecV) -> Seq<char> {
    "autocmd "@ + join_with(a.triggers, ","@) + " "@ + match_pattern(a) + " "@ + silent_token(a)
}

/// The statements an autocommand runs: its commands, then its lua snippets
/// wrapped as lua invocations; concatenated, never crossed.
pub open spec fn autocmd_stmts(a: AutoCommandSpecV) -> Seq<Seq<char>> {
    a.cmd + a.lua.map_values(|v: Seq<char>| "lua "@ + v)
}

/// One rendered line: unconditional when the condition is empty, else the
/// statement is wrapped in `if ... | execute '...' | endif` with its single
/// quotes escaped.
pub open spec fn autocmd_line(a: AutoCommandSpecV, st: Seq<char>) -> Seq<char> {
    if condition_of(a.event).len() == 0 {
        autocmd_head(a) + " "@ + st
    } else {
        autocmd_head(a) + " if "@ + condition_of(a.event) + " | execute '"@ + escape_quotes(st)
            + "' | endif"@
    }
}

/// All rendered lines of one autocommand, one per statement.
pub open spec fn autocmd_lines(a: AutoCommandSpecV) -> Seq<Seq<char>> {
    autocmd_stmts(a).map_values(|st: Seq<char>| autocmd_line(a, st))
}

/// Renders one autocommand specification into its script lines.
pub fn render_auto_command(a: &AutoCommandSpec) -> (r: Vec<String>)
    ensures
        r.deep_view() == autocmd_lines(a@),
{
    broadcast use crate::text::lemma_deep_view_index;

    let trig = join_strings(&a.triggers, ",");

    let mut head = String::new();
    head.append("autocmd ");
    head.append(trig.as_str());
    head.append(" ");
    match &a.matching {
        Some(m) => head.append(m.as_str()),
        None => {
            if a.file_type.is_some() {
                head.append("<buffer>");
            } else {
                head.append("*");
            }
        },
    }
    head.append(" ");
    if a.silent {
        head.append("silent!");
    }
    proof {
        assert(head@ =~= autocmd_head(a@));
    }

    let mut clauses: Vec<String> = Vec::new();
    let mut i: usize = 0;
    while i < a.event.len()
        invariant
            i <= a.event@.len(),
            clauses@.len() == i,
            forall|j: int| 0 <= j < i ==> clauses@[j]@ == event_clause(a@.event[j]),
        decreases a.event@.len() - i,
    {
        let e = &a.event[i];
        let mut cl = String::new();
        cl.append("v:event.");
        cl.append(e.key.as_str());
        cl.append(" is '");
        cl.append(e.value.as_str());
        string_push(&mut cl, '\'');
        proof {
            assert(cl@ =~= event_clause(a@.event[i as int]));
        }
        clauses.push(cl);
        i += 1;
    }
    proof {
        assert(clauses.deep_view() =~= a@.event.map_values(|e: EventMatchV| event_clause(e)));
    }
    let condition = join_strings(&clauses, " && ");

    let mut stmts: Vec<String> = Vec::new();
    let mut i: usize = 0;
    while i < a.cmd.len()
        invariant
            i <= a.cmd@.len(),
            stmts@.len() == i,
            forall|j: int| 0 <= j < i ==> stmts@[j]@ == a@.cmd[j],
        decreases a.cmd@.len() - i,
    {
        stmts.push(a.cmd[i].clone());
        i += 1;
    }
    let ghost n_cmd = a.cmd@.len() as int;
    let mut i: usize = 0;
    while i < a.lua.len()
        invariant
            i <= a.lua@.len(),
            stmts@.len() == n_cmd + i,
            n_cmd == a@.cmd.len(),
            forall|j: int| 0 <= j < n_cmd ==> stmts@[j]@ == a@.cmd[j],
            forall|j: int| 0 <= j < i ==> stmts@[n_cmd + j]@ == "lua "@ + a@.lua[j],
        decreases a.lua@.len() - i,
    {
        let mut st = String::new();
        st.append("lua ");
        st.append(a.lua[i].as_str());
        proof {
            assert(st@ =~= "lua "@ + a@.lua[i as int]);
        }
        stmts.push(st);
        i += 1;
    }
    proof {
        assert(stmts.deep_view() =~= autocmd_stmts(a@));
    }

    let ghost sv = autocmd_stmts(a@);
    let mut r: Vec<String> = Vec::new();
    let mut i: usize = 0;
    while i < stmts.len()
        invariant
            i <= stmts@.len(),
            stmts.deep_view() == sv,
            sv == autocmd_stmts(a@),
            stmts@.len() == sv.len(),
            head@ == autocmd_head(a@),
            condition@ == condition_of(a@.event),
            r@.len() == i,
            forall|j: int| 0 <= j < i ==> r@[j]@ == autocmd_line(a@, sv[j]),
        decreases stmts@.len() - i,
    {
        let st = &stmts[i];
        proof {
            assert(st@ == sv[i as int]);
        }
        let mut line = String::new();
        line.append(head.as_str());
        if condition.as_str().is_empty() {
            line.append(" ");
            line.append(st.as_str());
            proof {
                assert(line@ =~= autocmd_line(a@, sv[i as int]));
            }
        } else {
            let esc = escape_quotes_str(st.as_str());
            line.append(" if ");
            line.append(condition.as_str());
            line.append(" | execute '");
            line.append(esc.as_str());
            line.append("' | endif");
            proof {
                assert(line@ =~= autocmd_line(a@, sv[i as int]));
            }
        }
        r.push(line);
        i += 1;
    }
    proof {
        assert(r.deep_view() =~= autocmd_lines(a@));
    }
    r
}

/// A joined sequence with a non-empty last part is itself non-empty.
proof fn lemma_join_last_nonempty(parts: Seq<Seq<char>>, sep: Seq<char>)
    requires
        parts.len() > 0,
        parts.last().len() > 0,
    ensures
        join_with(parts, sep).len() > 0,
{
}

/// An autocommand with no event matches renders every statement as one
/// unconditional line; one with event matches renders every statement in the
/// conditional `if ... | execute '...' | endif` form, with the statement's
/// single quotes escaped.
pub proof fn lemma_autocmd_condition_forms(a: AutoCommandSpecV, j: int)
    requires
        0 <= j < autocmd_lines(a).len(),
    ensures
        a.event.len() == 0 ==> autocmd_lines(a)[j] == autocmd_head(a) + " "@ + autocmd_stmts(a)[j],
        a.event.len() > 0 ==> autocmd_lines(a)[j] == autocmd_head(a) + " if "@ + condition_of(
            a.event,
        ) + " | execute '"@ + escape_quotes(autocmd_stmts(a)[j]) + "' | endif"@,
{
    if a.event.len() == 0 {
        assert(a.event.map_values(|e: EventMatchV| event_clause(e)).len() == 0);
    } else {
        let parts = a.event.map_values(|e: EventMatchV| event_clause(e));
        reveal_strlit("v:event.");
        assert(parts.last() == event_clause(a.event.last()));
        assert(event_clause(a.event.last()).len() > 0);
        lemma_join_last_nonempty(parts, " && "@);
    }
}

} // verus!
