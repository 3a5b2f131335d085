//! Character and string primitives shared by the parser and the renderers:
//! lower-casing, splitting on the separator, escaping, whitespace stripping,
//! and joining line sequences.

use vstd::prelude::*;

verus! {

/// The deep view of a vector is, member by member, the deep view of its
/// members.
pub broadcast proof fn lemma_deep_view_index<T: DeepView>(v: Vec<T>, j: int)
    requires
        0 <= j < v@.len(),
    ensures
        v.deep_view().len() == v@.len(),
        #[trigger] v.deep_view()[j] == v@[j].deep_view(),
{
}

/// Moves every member of `src` to the end of `dst`.
pub fn extend_vec<T: DeepView>(dst: &mut Vec<T>, src: Vec<T>)
    ensures
        final(dst)@ == old(dst)@ + src@,
        final(dst).deep_view() == old(dst).deep_view() + src.deep_view(),
{
    broadcast use lemma_deep_view_index;

    let mut src = src;
    let ghost src0 = src;
    dst.append(&mut src);
    proof {
        assert(dst@ == old(dst)@ + src0@);
        assert(dst.deep_view() =~= old(dst).deep_view() + src0.deep_view());
    }
}

/// Appends one member to `dst`.
pub fn push_elem<T: DeepView>(dst: &mut Vec<T>, x: T)
    ensures
        final(dst)@ == old(dst)@.push(x),
        final(dst).deep_view() == old(dst).deep_view().push(x.deep_view()),
{
    broadcast use lemma_deep_view_index;

    let ghost x0 = x;
    dst.push(x);
    proof {
        assert(dst.deep_view() =~= old(dst).deep_view().push(x0.deep_view()));
    }
}

/// Collects the characters of a string slice into a vector.
pub fn str_to_chars(s: &str) -> (r: Vec<char>)
    ensures
        r@ == s@,
{
    let n = s.unicode_len();
    let mut r: Vec<char> = Vec::new();
    let mut i: usize = 0;
    while i < n
        invariant
            i <= n,
            n == s@.len(),
            r@ == s@.subrange(0, i as int),
        decreases n - i,
    {
        r.push(s.get_char(i));
        proof {
            assert(r@ =~= s@.subrange(0, i + 1 as int));
        }
        i += 1;
    }
    proof {
        assert(r@ =~= s@);
    }
    r
}

/// Relies on `String::push`: appends the given character to the end of the string.
#[verifier::external_body]
pub fn string_push(s: &mut String, c: char)
    ensures
        final(s)@ == old(s)@.push(c),
{
    s.push(c)
}

/// Builds a string out of a vector of characters.
pub fn chars_to_string(v: &Vec<char>) -> (r: String)
    ensures
        r@ == v@,
{
    let mut r = String::new();
    let mut i: usize = 0;
    while i < v.len()
        invariant
            i <= v@.len(),
            r@ == v@.subrange(0, i as int),
        decreases v@.len() - i,
    {
        string_push(&mut r, v[i]);
        proof {
            assert(r@ =~= v@.subrange(0, i + 1 as int));
        }
        i += 1;
    }
    proof {
        assert(r@ =~= v@);
    }
    r
}

/// Copies the characters of `v` between `from` (inclusive) and `to` (exclusive).
pub fn chars_range(v: &Vec<char>, from: usize, to: usize) -> (r: Vec<char>)
    requires
        from <= to <= v@.len(),
    ensures
        r@ == v@.subrange(from as int, to as int),
{
    let mut r: Vec<char> = Vec::new();
    let mut i: usize = from;
    while i < to
        invariant
            from <= i <= to <= v@.len(),
            r@ == v@.subrange(from as int, i as int),
        decreases to - i,
    {
        r.push(v[i]);
        proof {
            assert(r@ =~= v@.subrange(from as int, i + 1 as int));
        }
        i += 1;
    }
    r
}

/// ASCII lower-casing of a single character, as `char::to_ascii_lowercase` does it.
pub open spec fn lower_char(c: char) -> char {
    if 'A' <= c && c <= 'Z' {
        (((c as u8) + 32) as u8) as char
    } else {
        c
    }
}

/// Lower-cases one ASCII character.
pub fn to_lower(c: char) -> (r: char)
    ensures
        r == lower_char(c),
{
    if 'A' <= c && c <= 'Z' {
        (((c as u8) + 32) as u8) as char
    } else {
        c
    }
}

/// Index of the first underscore in `s`, or -1 when `s` has none.
pub open spec fn first_underscore(s: Seq<char>) -> int
    decreases s.len(),
{
    if s.len() == 0 {
        -1
    } else if s[0] == '_' {
        0
    } else if first_underscore(s.drop_first()) < 0 {
        -1
    } else {
        1 + first_underscore(s.drop_first())
    }
}

pub proof fn lemma_first_underscore(s: Seq<char>)
    ensures
        first_underscore(s) < 0 ==> forall|j: int| 0 <= j < s.len() ==> s[j] != '_',
        first_underscore(s) >= 0 ==> {
            &&& first_underscore(s) < s.len()
            &&& s[first_underscore(s)] == '_'
            &&& forall|j: int| 0 <= j < first_underscore(s) ==> s[j] != '_'
        },
    decreases s.len(),
{
    if s.len() == 0 {
    } else if s[0] == '_' {
    } else {
        lemma_first_underscore(s.drop_first());
        let t = s.drop_first();
        if first_underscore(t) >= 0 {
            assert forall|j: int| 0 <= j < first_underscore(s) implies s[j] != '_' by {
                if j > 0 {
                    assert(s[j] == t[j - 1]);
                }
            }
        } else {
            assert forall|j: int| 0 <= j < s.len() implies s[j] != '_' by {
                if j > 0 {
                    assert(s[j] == t[j - 1]);
                }
            }
        }
    }
}

/// Splits `s` at its first underscore: the characters before it, and those
/// after it when one exists at all.
pub open spec fn split_once_underscore(s: Seq<char>) -> (Seq<char>, Option<Seq<char>>) {
    let i = first_underscore(s);
    if i >= 0 {
        (s.take(i), Some(s.skip(i + 1)))
    } else {
        (s, None)
    }
}

/// Finds the first underscore in `v` and splits there.
pub fn split_on_underscore(v: &Vec<char>) -> (r: (Vec<char>, Option<Vec<char>>))
    ensures
        r.0@ == split_once_underscore(v@).0,
        match r.1 {
            Some(rest) => split_once_underscore(v@).1 == Some(rest@),
            None => split_once_underscore(v@).1 is None,
        },
{
    let n = v.len();
    let mut i: usize = 0;
    while i < n
        invariant
            i <= n,
            n == v@.len(),
            forall|j: int| 0 <= j < i ==> v@[j] != '_',
        decreases n - i,
    {
        if v[i] == '_' {
            proof {
                lemma_first_underscore(v@);
                assert(first_underscore(v@) == i);
            }
            let left = chars_range(v, 0, i);
            let right = chars_range(v, i + 1, n);
            return (left, Some(right));
        }
        i += 1;
    }
    proof {
        lemma_first_underscore(v@);
        assert(first_underscore(v@) < 0);
    }
    let whole = chars_range(v, 0, n);
    proof {
        assert(whole@ =~= v@);
    }
    (whole, None)
}

/// The characters the output script treats as ASCII whitespace.
pub open spec fn is_ascii_ws(c: char) -> bool {
    c == ' ' || c == '\t' || c == '\n' || c == '\r' || c == '\u{c}'
}

/// `s` with every ASCII whitespace character removed.
pub open spec fn strip_ws(s: Seq<char>) -> Seq<char>
    decreases s.len(),
{
    if s.len() == 0 {
        Seq::empty()
    } else if is_ascii_ws(s.last()) {
        strip_ws(s.drop_last())
    } else {
        strip_ws(s.drop_last()).push(s.last())
    }
}

/// Removes every ASCII whitespace character of `s`, joining what remains.
pub fn strip_whitespace(s: &str) -> (r: String)
    ensures
        r@ == strip_ws(s@),
{
    let cs = str_to_chars(s);
    let mut r = String::new();
    let mut i: usize = 0;
    while i < cs.len()
        invariant
            i <= cs@.len(),
            cs@ == s@,
            r@ == strip_ws(s@.take(i as int)),
        decreases cs@.len() - i,
    {
        let c = cs[i];
        proof {
            assert(s@.take(i + 1 as int).drop_last() =~= s@.take(i as int));
            assert(s@.take(i + 1 as int).last() == s@[i as int]);
        }
        if !(c == ' ' || c == '\t' || c == '\n' || c == '\r' || c == '\u{c}') {
            string_push(&mut r, c);
        }
        i += 1;
    }
    proof {
        assert(s@.take(s@.len() as int) =~= s@);
    }
    r
}

/// `s` with every `|` replaced by `\|`, so that the script parser never reads
/// a literal pipe as a statement separator.
pub open spec fn escape_pipes(s: Seq<char>) -> Seq<char>
    decreases s.len(),
{
    if s.len() == 0 {
        Seq::empty()
    } else if s.last() == '|' {
        escape_pipes(s.drop_last()).push('\\').push('|')
    } else {
        escape_pipes(s.drop_last()).push(s.last())
    }
}

/// Escapes every pipe character of `s` with a backslash.
pub fn escape_pipes_str(s: &str) -> (r: String)
    ensures
        r@ == escape_pipes(s@),
{
    let cs = str_to_chars(s);
    let mut r = String::new();
    let mut i: usize = 0;
    while i < cs.len()
        invariant
            i <= cs@.len(),
            cs@ == s@,
            r@ == escape_pipes(s@.take(i as int)),
        decreases cs@.len() - i,
    {
        let c = cs[i];
        proof {
            assert(s@.take(i + 1 as int).drop_last() =~= s@.take(i as int));
            assert(s@.take(i + 1 as int).last() == s@[i as int]);
        }
        if c == '|' {
            string_push(&mut r, '\\');
            string_push(&mut r, '|');
        } else {
            string_push(&mut r, c);
        }
        i += 1;
    }
    proof {
        assert(s@.take(s@.len() as int) =~= s@);
    }
    r
}

/// Every pipe in an escaped text is preceded by a backslash, so no line that
/// embeds it can be cut at a literal pipe.
pub proof fn lemma_escape_pipes_escaped(s: Seq<char>, i: int)
    requires
        0 <= i < escape_pipes(s).len(),
        escape_pipes(s)[i] == '|',
    ensures
        i > 0 && escape_pipes(s)[i - 1] == '\\',
    decreases s.len(),
{
    if s.len() > 0 {
        let pre = escape_pipes(s.drop_last());
        if i < pre.len() {
            lemma_escape_pipes_escaped(s.drop_last(), i);
        }
    }
}

/// `s` with every single quote replaced by `\'`.
pub open spec fn escape_quotes(s: Seq<char>) -> Seq<char>
    decreases s.len(),
{
    if s.len() == 0 {
        Seq::empty()
    } else if s.last() == '\'' {
        escape_quotes(s.drop_last()).push('\\').push('\'')
    } else {
        escape_quotes(s.drop_last()).push(s.last())
    }
}

/// Escapes every single quote of `s` with a backslash.
pub fn escape_quotes_str(s: &str) -> (r: String)
    ensures
        r@ == escape_quotes(s@),
{
    let cs = str_to_chars(s);
    let mut r = String::new();
    let mut i: usize = 0;
    while i < cs.len()
        invariant
            i <= cs@.len(),
            cs@ == s@,
            r@ == escape_quotes(s@.take(i as int)),
        decreases cs@.len() - i,
    {
        let c = cs[i];
        proof {
            assert(s@.take(i + 1 as int).drop_last() =~= s@.take(i as int));
            assert(s@.take(i + 1 as int).last() == s@[i as int]);
        }
        if c == '\'' {
            string_push(&mut r, '\\');
            string_push(&mut r, '\'');
        } else {
            string_push(&mut r, c);
        }
        i += 1;
    }
    proof {
        assert(s@.take(s@.len() as int) =~= s@);
    }
    r
}

/// The parts joined with `sep` between each two neighbours.
pub open spec fn join_with(parts: Seq<Seq<char>>, sep: Seq<char>) -> Seq<char>
    decreases parts.len(),
{
    if parts.len() == 0 {
        Seq::empty()
    } else if parts.len() == 1 {
        parts[0]
    } else {
        join_with(parts.drop_last(), sep) + sep + parts.last()
    }
}

/// Joins the strings of `parts` with `sep` between each two neighbours.
pub fn join_strings(parts: &Vec<String>, sep: &str) -> (r: String)
    ensures
        r@ == join_with(parts.deep_view(), sep@),
{
    let mut r = String::new();
    let mut i: usize = 0;
    while i < parts.len()
        invariant
            i <= parts@.len(),
            r@ == join_with(parts.deep_view().take(i as int), sep@),
        decreases parts@.len() - i,
    {
        proof {
            assert(parts.deep_view().take(i + 1 as int).drop_last() =~= parts.deep_view().take(
                i as int,
            ));
            assert(parts.deep_view().take(i + 1 as int).last() == parts.deep_view()[i as int]);
            assert(parts.deep_view()[i as int] == parts@[i as int]@);
        }
        if i > 0 {
            r.append(sep);
        }
        r.append(parts[i].as_str());
        i += 1;
    }
    proof {
        assert(parts.deep_view().take(parts.deep_view().len() as int) =~= parts.deep_view());
    }
    r
}

} // verus!
