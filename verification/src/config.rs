//! One configuration document and the processing pass: header comment, key
//! binding groups routed to their scope's bucket, autocommands, then plain
//! settings, value settings and variable bindings — in that exact order, one
//! whole document before the next.

use vstd::prelude::*;

use crate::autocmd::autocmd_lines;
use crate::autocmd::render_auto_command;
use crate::autocmd::AutoCommandSpec;
use crate::autocmd::AutoCommandSpecV;
use crate::bindings::expand;
use crate::bindings::expand_entry;
use crate::bindings::BindingEntry;
use crate::bindings::BindingEntryV;
use crate::bindings::KeyCommand;
use crate::bindings::KeyCommandV;
use crate::buckets::append_to_scope;
use crate::buckets::lemma_append_wf;
use crate::buckets::lemma_bucket_order_preserved;
use crate::buckets::lines_of;
use crate::buckets::wf_buckets;
use crate::buckets::Buckets;
use crate::buckets::BucketV;
use crate::flags::MapKeySpec;
use crate::flags::MapKeySpecV;
use crate::flags::ModeFlags;
use crate::render::binding_lines;
use crate::render::render_binding;
use crate::scalar::render_scalar;
use crate::scalar::scalar_text;
use crate::scalar::ScalarValue;
use crate::scalar::ScalarValueV;
use crate::text::extend_vec;
use crate::text::push_elem;
use crate::text::string_push;

verus! {

/// One named setting with a scalar value.
pub struct Setting {
    pub name: String,
    pub value: ScalarValue,
}

/// Mathematical form of a setting.
pub ghost struct SettingV {
    pub name: Seq<char>,
    pub value: ScalarValueV,
}

impl DeepView for Setting {
    type V = SettingV;

    open spec fn deep_view(&self) -> SettingV {
        SettingV { name: self.name@, value: self.value.deep_view() }
    }
}

/// One key with its mapping entry.
pub struct KeyBinding {
    pub key: String,
    pub entry: BindingEntry,
}

/// Mathematical form of a key binding.
pub ghost struct KeyBindingV {
    pub key: Seq<char>,
    pub entry: BindingEntryV,
}

impl DeepView for KeyBinding {
    type V = KeyBindingV;

    open spec fn deep_view(&self) -> KeyBindingV {
        KeyBindingV { key: self.key@, entry: self.entry.deep_view() }
    }
}

/// All bindings sharing one parsed flag-key.
pub struct KeyGroup {
    pub map_key: MapKeySpec,
    pub bindings: Vec<KeyBinding>,
}

/// Mathematical form of a key group.
pub ghost struct KeyGroupV {
    pub map_key: MapKeySpecV,
    pub bindings: Seq<KeyBindingV>,
}

impl DeepView for KeyGroup {
    type V = KeyGroupV;

    open spec fn deep_view(&self) -> KeyGroupV {
        KeyGroupV { map_key: self.map_key@, bindings: self.bindings.deep_view() }
    }
}

/// One loaded configuration document's typed contents.
pub struct Config {
    pub keys: Vec<KeyGroup>,
    pub auto_commands: Vec<AutoCommandSpec>,
    pub set_options: Vec<String>,
    pub set_values: Vec<Setting>,
    pub let_vars: Vec<Setting>,
}

/// Mathematical form of a configuration document.
pub ghost struct ConfigV {
    pub keys: Seq<KeyGroupV>,
    pub auto_commands: Seq<AutoCommandSpecV>,
    pub set_options: Seq<Seq<char>>,
    pub set_values: Seq<SettingV>,
    pub let_vars: Seq<SettingV>,
}

impl View for Config {
    type V = ConfigV;

    open spec fn view(&self) -> ConfigV {
        ConfigV {
            keys: self.keys.deep_view(),
            auto_commands: self.auto_commands.deep_view(),
            set_options: self.set_options.deep_view(),
            set_values: self.set_values.deep_view(),
            let_vars: self.let_vars.deep_view(),
        }
    }
}

/// A document together with the file name it was read from.
pub struct Document {
    pub config: Config,
    pub filename: String,
}

/// Mathematical form of a document.
pub ghost struct DocumentV {
    pub config: ConfigV,
    pub filename: Seq<char>,
}

impl DeepView for Document {
    type V = DocumentV;

    open spec fn deep_view(&self) -> DocumentV {
        DocumentV { config: self.config@, filename: self.filename@ }
    }
}

/// The two comment lines opening a document's contribution to the global
/// bucket.
pub open spec fn header_lines(filename: Seq<char>) -> Seq<Seq<char>> {
    seq!["\n\n\" File: "@ + filename, "\n\" Keybindings:"@]
}

/// The flat key-to-command pairs of a group's bindings, in binding order.
pub open spec fn pairs_of_bindings(bindings: Seq<KeyBindingV>) -> Seq<KeyCommandV>
    decreases bindings.len(),
{
    if bindings.len() == 0 {
        Seq::empty()
    } else {
        pairs_of_bindings(bindings.drop_last()) + expand_entry(
            bindings.last().key,
            bindings.last().entry,
        )
    }
}

/// The rendered lines of a list of pairs under one flag set, in order.
pub open spec fn lines_of_pairs(pairs: Seq<KeyCommandV>, f: ModeFlags) -> Seq<Seq<char>>
    decreases pairs.len(),
{
    if pairs.len() == 0 {
        Seq::empty()
    } else {
        lines_of_pairs(pairs.drop_last(), f) + binding_lines(
            pairs.last().key,
            pairs.last().command,
            f,
        )
    }
}

/// The label comment of a group, when it carries one.
pub open spec fn label_lines(mk: MapKeySpecV) -> Seq<Seq<char>> {
    match mk.label {
        Some(l) => seq!["\" "@ + l],
        None => Seq::empty(),
    }
}

/// Everything one group contributes to its bucket: its label comment, then
/// every expanded binding's rendered lines.
pub open spec fn group_lines(g: KeyGroupV) -> Seq<Seq<char>> {
    label_lines(g.map_key) + lines_of_pairs(pairs_of_bindings(g.bindings), g.map_key.flags)
}

/// Folds the groups of a document into the buckets, each routed to the
/// bucket of its own file-type scope.
pub open spec fn groups_fold(bs: Seq<BucketV>, groups: Seq<KeyGroupV>) -> Seq<BucketV>
    decreases groups.len(),
{
    if groups.len() == 0 {
        bs
    } else {
        append_to_scope(
            groups_fold(bs, groups.drop_last()),
            groups.last().map_key.file_type,
            group_lines(groups.last()),
        )
    }
}

/// The rendered lines of all autocommands, in order.
pub open spec fn autocmds_lines(acs: Seq<AutoCommandSpecV>) -> Seq<Seq<char>>
    decreases acs.len(),
{
    if acs.len() == 0 {
        Seq::empty()
    } else {
        autocmds_lines(acs.drop_last()) + autocmd_lines(acs.last())
    }
}

/// The plain `set` lines, in order.
pub open spec fn set_lines(names: Seq<Seq<char>>) -> Seq<Seq<char>>
    decreases names.len(),
{
    if names.len() == 0 {
        Seq::empty()
    } else {
        set_lines(names.drop_last()).push("set "@ + names.last())
    }
}

/// The `set name=value` lines, in order.
pub open spec fn set_value_lines(settings: Seq<SettingV>) -> Seq<Seq<char>>
    decreases settings.len(),
{
    if settings.len() == 0 {
        Seq::empty()
    } else {
        set_value_lines(settings.drop_last()).push(
            "set "@ + settings.last().name + seq!['='] + scalar_text(settings.last().value),
        )
    }
}

/// The `let name=value` lines, in order.
pub open spec fn let_lines(settings: Seq<SettingV>) -> Seq<Seq<char>>
    decreases settings.len(),
{
    if settings.len() == 0 {
        Seq::empty()
    } else {
        let_lines(settings.drop_last()).push(
            "let "@ + settings.last().name + seq!['='] + scalar_text(settings.last().value),
        )
    }
}

/// All setting lines of a document: plain settings, then value settings,
/// then variable bindings.
pub open spec fn settings_lines(c: ConfigV) -> Seq<Seq<char>> {
    set_lines(c.set_options) + set_value_lines(c.set_values) + let_lines(c.let_vars)
}

/// How one whole document changes the buckets: header to the global bucket,
/// each group to its scope's bucket, then all autocommand lines and all
/// setting lines to the global bucket.
pub open spec fn document_buckets(bs: Seq<BucketV>, c: ConfigV, filename: Seq<char>) -> Seq<
    BucketV,
> {
    let b1 = append_to_scope(bs, None, header_lines(filename));
    let b2 = groups_fold(b1, c.keys);
    let b3 = append_to_scope(b2, None, autocmds_lines(c.auto_commands));
    append_to_scope(b3, None, settings_lines(c))
}

/// The buckets all documents build up, processed first to last, each one
/// wholly before the next.
pub open spec fn pipeline_buckets(docs: Seq<DocumentV>) -> Seq<BucketV>
    decreases docs.len(),
{
    if docs.len() == 0 {
        Seq::empty()
    } else {
        document_buckets(
            pipeline_buckets(docs.drop_last()),
            docs.last().config,
            docs.last().filename,
        )
    }
}

/// A prefix of a prefix is a prefix.
proof fn lemma_prefix_trans(a: Seq<Seq<char>>, b: Seq<Seq<char>>, c: Seq<Seq<char>>)
    requires
        a.is_prefix_of(b),
        b.is_prefix_of(c),
    ensures
        a.is_prefix_of(c),
{
    assert(a =~= c.subrange(0, a.len() as int));
}

/// Folding groups into the buckets keeps every scope unique and never
/// disturbs lines already collected for any scope.
proof fn lemma_groups_fold_order(bs: Seq<BucketV>, groups: Seq<KeyGroupV>, q: Option<Seq<char>>)
    requires
        wf_buckets(bs),
    ensures
        wf_buckets(groups_fold(bs, groups)),
        lines_of(bs, q).is_prefix_of(lines_of(groups_fold(bs, groups), q)),
    decreases groups.len(),
{
    if groups.len() == 0 {
        assert(lines_of(bs, q) =~= lines_of(bs, q).subrange(0, lines_of(bs, q).len() as int));
    } else {
        lemma_groups_fold_order(bs, groups.drop_last(), q);
        let mid = groups_fold(bs, groups.drop_last());
        let g = groups.last();
        lemma_append_wf(mid, g.map_key.file_type, group_lines(g));
        lemma_bucket_order_preserved(mid, g.map_key.file_type, group_lines(g), q);
        lemma_prefix_trans(lines_of(bs, q), lines_of(mid, q), lines_of(groups_fold(bs, groups), q));
    }
}

/// One whole document only appends: it keeps every scope unique and leaves
/// every scope's already collected lines in place, in order, in front of its
/// own contributions.
pub proof fn lemma_document_order(
    bs: Seq<BucketV>,
    c: ConfigV,
    filename: Seq<char>,
    q: Option<Seq<char>>,
)
    requires
        wf_buckets(bs),
    ensures
        wf_buckets(document_buckets(bs, c, filename)),
        lines_of(bs, q).is_prefix_of(lines_of(document_buckets(bs, c, filename), q)),
{
    let b1 = append_to_scope(bs, None, header_lines(filename));
    lemma_append_wf(bs, None, header_lines(filename));
    lemma_bucket_order_preserved(bs, None, header_lines(filename), q);
    lemma_groups_fold_order(b1, c.keys, q);
    let b2 = groups_fold(b1, c.keys);
    lemma_append_wf(b2, None, autocmds_lines(c.auto_commands));
    lemma_bucket_order_preserved(b2, None, autocmds_lines(c.auto_commands), q);
    let b3 = append_to_scope(b2, None, autocmds_lines(c.auto_commands));
    lemma_append_wf(b3, None, settings_lines(c));
    lemma_bucket_order_preserved(b3, None, settings_lines(c), q);
    lemma_prefix_trans(lines_of(bs, q), lines_of(b1, q), lines_of(b2, q));
    lemma_prefix_trans(lines_of(bs, q), lines_of(b2, q), lines_of(b3, q));
    lemma_prefix_trans(
        lines_of(bs, q),
        lines_of(b3, q),
        lines_of(document_buckets(bs, c, filename), q),
    );
}

/// The buckets the pipeline builds always hold one bucket per scope.
pub proof fn lemma_pipeline_wf(docs: Seq<DocumentV>)
    ensures
        wf_buckets(pipeline_buckets(docs)),
    decreases docs.len(),
{
    if docs.len() == 0 {
    } else {
        lemma_pipeline_wf(docs.drop_last());
        lemma_document_order(
            pipeline_buckets(docs.drop_last()),
            docs.last().config,
            docs.last().filename,
            None,
        );
    }
}

/// Documents contribute in processing order: everything the first documents
/// put into a bucket stands, unchanged and in order, in front of what any
/// later document adds to the same bucket.
pub proof fn lemma_documents_in_order(docs: Seq<DocumentV>, d: DocumentV, q: Option<Seq<char>>)
    ensures
        lines_of(pipeline_buckets(docs), q).is_prefix_of(
            lines_of(pipeline_buckets(docs.push(d)), q),
        ),
{
    lemma_pipeline_wf(docs);
    assert(docs.push(d).drop_last() =~= docs);
    assert(docs.push(d).last() == d);
    lemma_document_order(pipeline_buckets(docs), d.config, d.filename, q);
}

/// Renders everything one group contributes to its bucket.
pub fn group_line_vec(g: &KeyGroup) -> (r: Vec<String>)
    ensures
        r.deep_view() == group_lines(g.deep_view()),
{
    broadcast use crate::text::lemma_deep_view_index;

    let mut lines: Vec<String> = Vec::new();
    match &g.map_key.label {
        Some(l) => {
            let mut line = String::new();
            line.append("\" ");
            line.append(l.as_str());
            push_elem(&mut lines, line);
            proof {
                assert(lines.deep_view() =~= label_lines(g.deep_view().map_key));
            }
        },
        None => {
            proof {
                assert(lines.deep_view() =~= label_lines(g.deep_view().map_key));
            }
        },
    }

    let mut pairs: Vec<KeyCommand> = Vec::new();
    let ghost bv = g.deep_view().bindings;
    let mut i: usize = 0;
    while i < g.bindings.len()
        invariant
            i <= g.bindings@.len(),
            bv == g.deep_view().bindings,
            bv.len() == g.bindings@.len(),
            pairs.deep_view() == pairs_of_bindings(bv.take(i as int)),
        decreases g.bindings@.len() - i,
    {
        let kb = &g.bindings[i];
        proof {
            assert(kb.deep_view() == bv[i as int]);
        }
        let ev = expand(kb.key.as_str(), &kb.entry);
        extend_vec(&mut pairs, ev);
        proof {
            assert(bv.take(i + 1 as int).drop_last() =~= bv.take(i as int));
            assert(bv.take(i + 1 as int).last() == bv[i as int]);
        }
        i += 1;
    }
    proof {
        assert(bv.take(bv.len() as int) =~= bv);
    }

    let ghost pv = pairs_of_bindings(bv);
    let f = g.map_key.flags;
    let mut i: usize = 0;
    while i < pairs.len()
        invariant
            i <= pairs@.len(),
            pairs.deep_view() == pv,
            pairs@.len() == pv.len(),
            f == g.deep_view().map_key.flags,
            lines.deep_view() == label_lines(g.deep_view().map_key) + lines_of_pairs(
                pv.take(i as int),
                f,
            ),
        decreases pairs@.len() - i,
    {
        let p = &pairs[i];
        proof {
            assert(p.deep_view() == pv[i as int]);
        }
        let rb = render_binding(p.key.as_str(), p.command.as_str(), f);
        extend_vec(&mut lines, rb);
        proof {
            assert(pv.take(i + 1 as int).drop_last() =~= pv.take(i as int));
            assert(pv.take(i + 1 as int).last() == pv[i as int]);
        }
        i += 1;
    }
    proof {
        assert(pv.take(pv.len() as int) =~= pv);
    }
    lines
}

/// Renders the three families of setting lines of one document, in order.
pub fn settings_line_vec(c: &Config) -> (r: Vec<String>)
    ensures
        r.deep_view() == settings_lines(c@),
{
    broadcast use crate::text::lemma_deep_view_index;

    let mut lines: Vec<String> = Vec::new();
    let mut i: usize = 0;
    while i < c.set_options.len()
        invariant
            i <= c.set_options@.len(),
            lines.deep_view() == set_lines(c@.set_options.take(i as int)),
        decreases c.set_options@.len() - i,
    {
        let mut line = String::new();
        line.append("set ");
        line.append(c.set_options[i].as_str());
        push_elem(&mut lines, line);
        proof {
            assert(c@.set_options.take(i + 1 as int).drop_last() =~= c@.set_options.take(i as int));
            assert(c@.set_options.take(i + 1 as int).last() == c@.set_options[i as int]);
        }
        i += 1;
    }
    proof {
        assert(c@.set_options.take(c@.set_options.len() as int) =~= c@.set_options);
    }

    let ghost base1 = set_lines(c@.set_options);
    let mut i: usize = 0;
    while i < c.set_values.len()
        invariant
            i <= c.set_values@.len(),
            base1 == set_lines(c@.set_options),
            lines.deep_view() == base1 + set_value_lines(c@.set_values.take(i as int)),
        decreases c.set_values@.len() - i,
    {
        let s = &c.set_values[i];
        proof {
            assert(s.deep_view() == c@.set_values[i as int]);
        }
        let mut line = String::new();
        line.append("set ");
        line.append(s.name.as_str());
        string_push(&mut line, '=');
        let val = render_scalar(&s.value);
        line.append(val.as_str());
        proof {
            assert(line@ =~= "set "@ + s.deep_view().name + seq!['='] + scalar_text(
                s.deep_view().value,
            ));
        }
        push_elem(&mut lines, line);
        proof {
            assert(c@.set_values.take(i + 1 as int).drop_last() =~= c@.set_values.take(i as int));
            assert(c@.set_values.take(i + 1 as int).last() == c@.set_values[i as int]);
            assert(lines.deep_view() =~= base1 + set_value_lines(c@.set_values.take(i + 1 as int)));
        }
        i += 1;
    }
    proof {
        assert(c@.set_values.take(c@.set_values.len() as int) =~= c@.set_values);
    }

    let ghost base2 = base1 + set_value_lines(c@.set_values);
    let mut i: usize = 0;
    while i < c.let_vars.len()
        invariant
            i <= c.let_vars@.len(),
            base2 == set_lines(c@.set_options) + set_value_lines(c@.set_values),
            lines.deep_view() == base2 + let_lines(c@.let_vars.take(i as int)),
        decreases c.let_vars@.len() - i,
    {
        let s = &c.let_vars[i];
        proof {
            assert(s.deep_view() == c@.let_vars[i as int]);
        }
        let mut line = String::new();
        line.append("let ");
        line.append(s.name.as_str());
        string_push(&mut line, '=');
        let val = render_scalar(&s.value);
        line.append(val.as_str());
        proof {
            assert(line@ =~= "let "@ + s.deep_view().name + seq!['='] + scalar_text(
                s.deep_view().value,
            ));
        }
        push_elem(&mut lines, line);
        proof {
            assert(c@.let_vars.take(i + 1 as int).drop_last() =~= c@.let_vars.take(i as int));
            assert(c@.let_vars.take(i + 1 as int).last() == c@.let_vars[i as int]);
            assert(lines.deep_view() =~= base2 + let_lines(c@.let_vars.take(i + 1 as int)));
        }
        i += 1;
    }
    proof {
        assert(c@.let_vars.take(c@.let_vars.len() as int) =~= c@.let_vars);
        assert(lines.deep_view() =~= settings_lines(c@));
    }
    lines
}

/// Processes one whole document into the buckets: header, key groups,
/// autocommands, settings, in that order.
pub fn process_document(b: &mut Buckets, c: &Config, filename: &str)
    ensures
        final(b)@ == document_buckets(old(b)@, c@, filename@),
{
    broadcast use crate::text::lemma_deep_view_index;

    let no_scope: Option<String> = None;

    let mut header: Vec<String> = Vec::new();
    let mut l1 = String::new();
    l1.append("\n\n\" File: ");
    l1.append(filename);
    push_elem(&mut header, l1);
    let mut l2 = String::new();
    l2.append("\n\" Keybindings:");
    push_elem(&mut header, l2);
    proof {
        assert(header.deep_view() =~= header_lines(filename@));
    }
    b.append_lines(&no_scope, header);

    let ghost b1 = append_to_scope(old(b)@, None, header_lines(filename@));
    proof {
        assert(b@ == b1);
    }

    let mut i: usize = 0;
    while i < c.keys.len()
        invariant
            i <= c.keys@.len(),
            b1 == append_to_scope(old(b)@, None, header_lines(filename@)),
            b@ == groups_fold(b1, c@.keys.take(i as int)),
        decreases c.keys@.len() - i,
    {
        let g = &c.keys[i];
        proof {
            assert(g.deep_view() == c@.keys[i as int]);
        }
        let gl = group_line_vec(g);
        b.append_lines(&g.map_key.file_type, gl);
        proof {
            assert(c@.keys.take(i + 1 as int).drop_last() =~= c@.keys.take(i as int));
            assert(c@.keys.take(i + 1 as int).last() == c@.keys[i as int]);
        }
        i += 1;
    }
    proof {
        assert(c@.keys.take(c@.keys.len() as int) =~= c@.keys);
    }
    let ghost b2 = groups_fold(b1, c@.keys);

    let mut ac_lines: Vec<String> = Vec::new();
    let mut i: usize = 0;
    while i < c.auto_commands.len()
        invariant
            i <= c.auto_commands@.len(),
            ac_lines.deep_view() == autocmds_lines(c@.auto_commands.take(i as int)),
        decreases c.auto_commands@.len() - i,
    {
        let a = &c.auto_commands[i];
        proof {
            assert(a@ == c@.auto_commands[i as int]);
        }
        let al = render_auto_command(a);
        extend_vec(&mut ac_lines, al);
        proof {
            assert(c@.auto_commands.take(i + 1 as int).drop_last() =~= c@.auto_commands.take(
                i as int,
            ));
            assert(c@.auto_commands.take(i + 1 as int).last() == c@.auto_commands[i as int]);
        }
        i += 1;
    }
    proof {
        assert(c@.auto_commands.take(c@.auto_commands.len() as int) =~= c@.auto_commands);
    }
    b.append_lines(&no_scope, ac_lines);
    let ghost b3 = append_to_scope(b2, None, autocmds_lines(c@.auto_commands));
    proof {
        assert(b@ == b3);
    }

    let sl = settings_line_vec(c);
    b.append_lines(&no_scope, sl);
    proof {
        assert(b@ == document_buckets(old(b)@, c@, filename@));
    }
}

/// Processes every document, first to last, into one fresh set of buckets.
pub fn compile_documents(docs: &Vec<Document>) -> (r: Buckets)
    ensures
        r@ == pipeline_buckets(docs.deep_view()),
{
    broadcast use crate::text::lemma_deep_view_index;

    let mut b = Buckets::new();
    let mut i: usize = 0;
    while i < docs.len()
        invariant
            i <= docs@.len(),
            b@ == pipeline_buckets(docs.deep_view().take(i as int)),
        decreases docs@.len() - i,
    {
        let d = &docs[i];
        proof {
            assert(d.deep_view() == docs.deep_view()[i as int]);
        }
        process_document(&mut b, &d.config, d.filename.as_str());
        proof {
            assert(docs.deep_view().take(i + 1 as int).drop_last() =~= docs.deep_view().take(
                i as int,
            ));
            assert(docs.deep_view().take(i + 1 as int).last() == docs.deep_view()[i as int]);
        }
        i += 1;
    }
    proof {
        assert(docs.deep_view().take(docs.deep_view().len() as int) =~= docs.deep_view());
    }
    b
}

} // verus!
