//! The binding expander: a mapping entry is either one command for the key
//! itself, or a group of suffix-keyed commands sharing the key as a prefix.

use vstd::prelude::*;

verus! {

/// One suffix-keyed command of a binding group.
pub struct SuffixBinding {
    pub suffix: String,
    pub command: String,
}

/// Mathematical form of a suffix binding.
pub ghost struct SuffixBindingV {
    pub suffix: Seq<char>,
    pub command: Seq<char>,
}

impl DeepView for SuffixBinding {
    type V = SuffixBindingV;

    open spec fn deep_view(&self) -> SuffixBindingV {
        SuffixBindingV { suffix: self.suffix@, command: self.command@ }
    }
}

/// A mapping entry: one command, or a group of suffix-keyed commands.
pub enum BindingEntry {
    Single(String),
    Group(Vec<SuffixBinding>),
}

/// Mathematical form of a binding entry.
pub ghost enum BindingEntryV {
    Single(Seq<char>),
    Group(Seq<SuffixBindingV>),
}

impl DeepView for BindingEntry {
    type V = BindingEntryV;

    open spec fn deep_view(&self) -> BindingEntryV {
        match self {
            BindingEntry::Single(c) => BindingEntryV::Single(c@),
            BindingEntry::Group(subs) => BindingEntryV::Group(subs.deep_view()),
        }
    }
}

/// One flat key-to-command pair.
pub struct KeyCommand {
    pub key: String,
    pub command: String,
}

/// Mathematical form of a key-to-command pair.
pub ghost struct KeyCommandV {
    pub key: Seq<char>,
    pub command: Seq<char>,
}

impl DeepView for KeyCommand {
    type V = KeyCommandV;

    open spec fn deep_view(&self) -> KeyCommandV {
        KeyCommandV { key: self.key@, command: self.command@ }
    }
}

/// The flat pairs one entry expands to: the prefix alone for a single
/// command, or prefix-plus-suffix for every member of a group.
pub open spec fn expand_entry(prefix: Seq<char>, e: BindingEntryV) -> Seq<KeyCommandV> {
    match e {
        BindingEntryV::Single(c) => seq![KeyCommandV { key: prefix, command: c }],
        BindingEntryV::Group(subs) => subs.map_values(
            |sb: SuffixBindingV| KeyCommandV { key: prefix + sb.suffix, command: sb.command },
        ),
    }
}

/// Expands one mapping entry into its flat key-to-command pairs.
pub fn expand(prefix: &str, e: &BindingEntry) -> (r: Vec<KeyCommand>)
    ensures
        r.deep_view() == expand_entry(prefix@, e.deep_view()),
{
    broadcast use crate::text::lemma_deep_view_index;

    let mut r: Vec<KeyCommand> = Vec::new();
    match e {
        BindingEntry::Single(c) => {
            let mut key = String::new();
            key.append(prefix);
            r.push(KeyCommand { key, command: c.clone() });
            proof {
                assert(r.deep_view() =~= expand_entry(prefix@, e.deep_view()));
            }
        },
        BindingEntry::Group(subs) => {
            let mut i: usize = 0;
            while i < subs.len()
                invariant
                    i <= subs@.len(),
                    r@.len() == i,
                    forall|j: int|
                        0 <= j < i ==> r@[j].deep_view() == (KeyCommandV {
                            key: prefix@ + subs@[j].deep_view().suffix,
                            command: subs@[j].deep_view().command,
                        }),
                decreases subs@.len() - i,
            {
                let sb = &subs[i];
                let mut key = String::new();
                key.append(prefix);
                key.append(sb.suffix.as_str());
                r.push(KeyCommand { key, command: sb.command.clone() });
                i += 1;
            }
            proof {
                assert(r.deep_view() =~= expand_entry(prefix@, e.deep_view()));
            }
        },
    }
    r
}

} // verus!
