//! The flag-key grammar: a compact string such as `"nlc_MyLabel"` or
//! `"nf_rust_Comment"` encodes the modes a binding is active in, its behaviour
//! modifiers, an optional file-type scope and an optional label.

use vstd::prelude::*;

use crate::text::chars_to_string;
use crate::text::lower_char;
use crate::text::split_on_underscore;
use crate::text::split_once_underscore;
use crate::text::str_to_chars;
use crate::text::to_lower;

verus! {

/// The set of mode and modifier flags a key string can carry. Insert, Normal
/// and Visual decide which editor modes a binding applies to; Leader, Command
/// and Recursive only alter how its text is rendered.
#[derive(Clone, Copy, PartialEq, Eq, Structural, Debug)]
pub struct ModeFlags {
    pub insert: bool,
    pub normal: bool,
    pub visual: bool,
    pub leader: bool,
    pub command: bool,
    pub recursive: bool,
}

impl ModeFlags {
    /// The empty flag set.
    pub fn none() -> (r: ModeFlags)
        ensures
            r == flags_none(),
    {
        ModeFlags {
            insert: false,
            normal: false,
            visual: false,
            leader: false,
            command: false,
            recursive: false,
        }
    }
}

pub open spec fn flags_none() -> ModeFlags {
    ModeFlags {
        insert: false,
        normal: false,
        visual: false,
        leader: false,
        command: false,
        recursive: false,
    }
}

/// Why a flag-key string was rejected.
#[derive(Clone, Copy, PartialEq, Eq, Structural, Debug)]
pub enum FlagError {
    /// A character of the flag sequence is not one of `invlcrf`
    /// (after lower-casing); carries that character.
    UnsupportedFlag(char),
    /// The `f` flag appeared after a file type was already taken.
    DuplicateFileTypeFlag,
    /// The `f` flag appeared with no label remainder left to take the
    /// file type from.
    MissingFileTypeSource,
}

/// Mathematical form of a parsed key: the flag set, the optional file-type
/// scope and the optional label, over character sequences.
pub ghost struct MapKeySpecV {
    pub flags: ModeFlags,
    pub file_type: Option<Seq<char>>,
    pub label: Option<Seq<char>>,
}

/// A parsed flag-key string.
#[derive(Debug)]
pub struct MapKeySpec {
    pub flags: ModeFlags,
    pub file_type: Option<String>,
    pub label: Option<String>,
}

impl View for MapKeySpec {
    type V = MapKeySpecV;

    open spec fn view(&self) -> MapKeySpecV {
        MapKeySpecV {
            flags: self.flags,
            file_type: self.file_type.deep_view(),
            label: self.label.deep_view(),
        }
    }
}

/// One step of the grammar: folds a single (already lower-cased) flag
/// character into the parse state.
pub open spec fn apply_flag_char(st: MapKeySpecV, c: char) -> Result<MapKeySpecV, FlagError> {
    if c == 'i' {
        Ok(MapKeySpecV { flags: ModeFlags { insert: true, ..st.flags }, ..st })
    } else if c == 'n' {
        Ok(MapKeySpecV { flags: ModeFlags { normal: true, ..st.flags }, ..st })
    } else if c == 'v' {
        Ok(MapKeySpecV { flags: ModeFlags { visual: true, ..st.flags }, ..st })
    } else if c == 'l' {
        Ok(MapKeySpecV { flags: ModeFlags { leader: true, ..st.flags }, ..st })
    } else if c == 'c' {
        Ok(MapKeySpecV { flags: ModeFlags { command: true, ..st.flags }, ..st })
    } else if c == 'r' {
        Ok(MapKeySpecV { flags: ModeFlags { recursive: true, ..st.flags }, ..st })
    } else if c == 'f' {
        match (st.label, st.file_type) {
            (Some(l), None) => {
                let (ft, rest) = split_once_underscore(l);
                Ok(MapKeySpecV { flags: st.flags, file_type: Some(ft), label: rest })
            },
            (_, Some(_)) => Err(FlagError::DuplicateFileTypeFlag),
            (None, None) => Err(FlagError::MissingFileTypeSource),
        }
    } else {
        Err(FlagError::UnsupportedFlag(c))
    }
}

/// Folds the flag characters of `cs` into `st`, left to right, lower-casing
/// each before it is interpreted.
pub open spec fn parse_flag_chars(cs: Seq<char>, st: MapKeySpecV) -> Result<
    MapKeySpecV,
    FlagError,
>
    decreases cs.len(),
{
    if cs.len() == 0 {
        Ok(st)
    } else {
        match apply_flag_char(st, lower_char(cs[0])) {
            Ok(st2) => parse_flag_chars(cs.drop_first(), st2),
            Err(e) => Err(e),
        }
    }
}

/// The whole grammar: split once at the first underscore into the flag
/// sequence and the label remainder, then fold the flag characters.
pub open spec fn parse_spec(s: Seq<char>) -> Result<MapKeySpecV, FlagError> {
    let (fp, label0) = split_once_underscore(s);
    parse_flag_chars(
        fp,
        MapKeySpecV { flags: flags_none(), file_type: None, label: label0 },
    )
}

/// Parses a flag-key string into its modes, modifiers, optional file-type
/// scope and optional label.
pub fn parse_map_key(s: &str) -> (r: Result<MapKeySpec, FlagError>)
    ensures
        match r {
            Ok(k) => parse_spec(s@) == Ok::<MapKeySpecV, FlagError>(k@),
            Err(e) => parse_spec(s@) == Err::<MapKeySpecV, FlagError>(e),
        },
{
    let cs = str_to_chars(s);
    let (fp, label0) = split_on_underscore(&cs);

    let mut flags = ModeFlags::none();
    let mut file_type: Option<Vec<char>> = None;
    let mut label: Option<Vec<char>> = label0;

    let ghost init = MapKeySpecV {
        flags: flags_none(),
        file_type: None,
        label: split_once_underscore(s@).1,
    };
    proof {
        assert(fp@.skip(0) =~= fp@);
        assert(cur_state(flags, file_type, label) == init);
        assert(parse_spec(s@) == parse_flag_chars(fp@, init));
    }

    let mut i: usize = 0;
    while i < fp.len()
        invariant
            i <= fp@.len(),
            split_once_underscore(s@).0 == fp@,
            parse_spec(s@) == parse_flag_chars(fp@, init),
            parse_flag_chars(fp@.skip(i as int), cur_state(flags, file_type, label))
                == parse_flag_chars(fp@, init),
        decreases fp@.len() - i,
    {
        let c = to_lower(fp[i]);
        proof {
            assert(fp@.skip(i as int)[0] == fp@[i as int]);
            assert(fp@.skip(i as int).drop_first() =~= fp@.skip(i + 1 as int));
        }
        if c == 'i' {
            flags.insert = true;
        } else if c == 'n' {
            flags.normal = true;
        } else if c == 'v' {
            flags.visual = true;
        } else if c == 'l' {
            flags.leader = true;
        } else if c == 'c' {
            flags.command = true;
        } else if c == 'r' {
            flags.recursive = true;
        } else if c == 'f' {
            let dup = file_type.is_some();
            if dup {
                return Err(FlagError::DuplicateFileTypeFlag);
            }
            match label {
                Some(l) => {
                    let (ft, rest) = split_on_underscore(&l);
                    file_type = Some(ft);
                    label = rest;
                },
                None => {
                    return Err(FlagError::MissingFileTypeSource);
                },
            }
        } else {
            return Err(FlagError::UnsupportedFlag(c));
        }
        i += 1;
    }
    proof {
        assert(fp@.skip(fp@.len() as int) =~= Seq::<char>::empty());
        assert(parse_flag_chars(fp@.skip(fp@.len() as int), cur_state(flags, file_type, label))
            == Ok::<MapKeySpecV, FlagError>(cur_state(flags, file_type, label)));
    }
    let file_type_s = match &file_type {
        Some(v) => Some(chars_to_string(v)),
        None => None,
    };
    let label_s = match &label {
        Some(v) => Some(chars_to_string(v)),
        None => None,
    };
    let k = MapKeySpec { flags, file_type: file_type_s, label: label_s };
    proof {
        assert(k@ == cur_state(flags, file_type, label));
    }
    Ok(k)
}

/// The contents of an optional character vector, as an optional sequence.
pub open spec fn opt_chars_view(o: Option<Vec<char>>) -> Option<Seq<char>> {
    match o {
        Some(v) => Some(v@),
        None => None,
    }
}

/// The state an executable parse run holds, seen mathematically.
pub open spec fn cur_state(
    flags: ModeFlags,
    file_type: Option<Vec<char>>,
    label: Option<Vec<char>>,
) -> MapKeySpecV {
    MapKeySpecV { flags, file_type: opt_chars_view(file_type), label: opt_chars_view(label) }
}

/// Parsing is deterministic: equal key strings always parse to the same
/// result.
pub proof fn lemma_parse_deterministic(s1: Seq<char>, s2: Seq<char>)
    requires
        s1 == s2,
    ensures
        parse_spec(s1) == parse_spec(s2),
{
}

} // verus!
