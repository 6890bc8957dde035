//! Character sequences: the string operations that the parsers and the
//! generators of this crate are stated in.
use vstd::prelude::*;
use vstd::string::*;

verus! {

broadcast use vstd::string::group_string_axioms;

// ---------------------------------------------------------------------------
// Model
// ---------------------------------------------------------------------------

/// The texts of a list of strings.
pub open spec fn texts(v: Seq<String>) -> Seq<Seq<char>> {
    v.map_values(|s: String| s@)
}

/// `pattern` stands in `s` at index `i`.
pub open spec fn occurs_at(s: Seq<char>, pattern: Seq<char>, i: int) -> bool {
    &&& 0 <= i
    &&& i + pattern.len() <= s.len()
    &&& s.subrange(i, i + pattern.len()) == pattern
}

/// `pattern` stands somewhere in `s`.
pub open spec fn occurs_in(s: Seq<char>, pattern: Seq<char>) -> bool {
    exists|i: int| occurs_at(s, pattern, i)
}

/// `s` starts with `prefix`.
pub open spec fn has_prefix(s: Seq<char>, prefix: Seq<char>) -> bool {
    occurs_at(s, prefix, 0)
}

/// The characters that Unicode gives the property White_Space.
pub open spec fn is_space(c: char) -> bool {
    ||| '\u{9}' <= c <= '\u{d}'
    ||| c == '\u{20}'
    ||| c == '\u{85}'
    ||| c == '\u{a0}'
    ||| c == '\u{1680}'
    ||| '\u{2000}' <= c <= '\u{200a}'
    ||| c == '\u{2028}'
    ||| c == '\u{2029}'
    ||| c == '\u{202f}'
    ||| c == '\u{205f}'
    ||| c == '\u{3000}'
}

/// `s` without the white space that it starts with.
pub open spec fn trim_start(s: Seq<char>) -> Seq<char>
    decreases s.len(),
{
    if s.len() > 0 && is_space(s.first()) {
        trim_start(s.drop_first())
    } else {
        s
    }
}

/// `s` without the white space that it ends with.
pub open spec fn trim_end(s: Seq<char>) -> Seq<char>
    decreases s.len(),
{
    if s.len() > 0 && is_space(s.last()) {
        trim_end(s.drop_last())
    } else {
        s
    }
}

/// `s` without white space at either end.
pub open spec fn trimmed(s: Seq<char>) -> Seq<char> {
    trim_end(trim_start(s))
}

/// The pieces of `s` between the occurrences of `sep`: always one more than
/// `sep` occurs.
pub open spec fn split_on(s: Seq<char>, sep: char) -> Seq<Seq<char>>
    decreases s.len(),
{
    if s.len() == 0 {
        seq![Seq::empty()]
    } else {
        let init = split_on(s.drop_last(), sep);
        if s.last() == sep {
            init.push(Seq::empty())
        } else {
            init.drop_last().push(init.last().push(s.last()))
        }
    }
}

/// `parts` with `sep` between neighbours.
pub open spec fn joined(parts: Seq<Seq<char>>, sep: Seq<char>) -> Seq<char>
    decreases parts.len(),
{
    if parts.len() == 0 {
        Seq::empty()
    } else if parts.len() == 1 {
        parts[0]
    } else {
        joined(parts.drop_last(), sep) + sep + parts.last()
    }
}

/// `line` without one carriage return at its end.
pub open spec fn without_cr(line: Seq<char>) -> Seq<char> {
    if line.len() > 0 && line.last() == '\r' {
        line.drop_last()
    } else {
        line
    }
}

/// The lines of `s`: each ends in a line feed, or a carriage return and a line
/// feed, that it does not hold; what follows the last line feed is a line if
/// it is not empty.
pub open spec fn lines_of(s: Seq<char>) -> Seq<Seq<char>> {
    let parts = split_on(s, '\n');
    let ended = parts.drop_last().map_values(|p: Seq<char>| without_cr(p));
    if parts.last().len() == 0 {
        ended
    } else {
        ended.push(parts.last())
    }
}

/// The longest runs of `s` without white space, in order.
pub open spec fn words_of(s: Seq<char>) -> Seq<Seq<char>>
    decreases s.len(),
{
    if s.len() == 0 {
        Seq::empty()
    } else {
        let init = words_of(s.drop_last());
        if is_space(s.last()) {
            init
        } else if s.len() == 1 || is_space(s[s.len() - 2]) {
            init.push(seq![s.last()])
        } else {
            init.drop_last().push(init.last().push(s.last()))
        }
    }
}

/// Each of `lines`, with a line feed after it.
pub open spec fn unlines(lines: Seq<Seq<char>>) -> Seq<char>
    decreases lines.len(),
{
    if lines.len() == 0 {
        Seq::empty()
    } else {
        unlines(lines.drop_last()) + lines.last().push('\n')
    }
}

/// `c` on one line: a line feed and a backslash are written with a backslash
/// before them.
pub open spec fn escaped_char(c: char) -> Seq<char> {
    if c == '\n' {
        seq!['\\', 'n']
    } else if c == '\\' {
        seq!['\\', '\\']
    } else {
        seq![c]
    }
}

/// `s` on one line.
pub open spec fn escaped(s: Seq<char>) -> Seq<char>
    decreases s.len(),
{
    if s.len() == 0 {
        Seq::empty()
    } else {
        escaped_char(s[0]) + escaped(s.drop_first())
    }
}

/// `head` before `tail`, if there is one.
pub open spec fn prepended(head: Seq<char>, tail: Option<Seq<char>>) -> Option<Seq<char>> {
    match tail {
        Some(t) => Some(head + t),
        None => None,
    }
}

/// The text that was put on one line: none, if a backslash stands before
/// anything but an `n` or another one.
pub open spec fn unescaped(s: Seq<char>) -> Option<Seq<char>>
    decreases s.len(),
{
    if s.len() == 0 {
        Some(Seq::empty())
    } else if s[0] != '\\' {
        prepended(seq![s[0]], unescaped(s.skip(1)))
    } else if s.len() > 1 && s[1] == 'n' {
        prepended(seq!['\n'], unescaped(s.skip(2)))
    } else if s.len() > 1 && s[1] == '\\' {
        prepended(seq!['\\'], unescaped(s.skip(2)))
    } else {
        None
    }
}

// ---------------------------------------------------------------------------
// Facts
// ---------------------------------------------------------------------------

/// Adding a string to a list adds its text.
pub broadcast proof fn lemma_texts_push(v: Seq<String>, s: String)
    ensures
        #[trigger] texts(v.push(s)) == texts(v).push(s@),
{
    assert(texts(v.push(s)) =~= texts(v).push(s@));
}

/// There is always at least one piece, and no piece holds the separator.
pub proof fn lemma_split_pieces(s: Seq<char>, sep: char)
    ensures
        split_on(s, sep).len() >= 1,
        forall|i: int|
            0 <= i < split_on(s, sep).len() ==> !(#[trigger] split_on(s, sep)[i]).contains(sep),
    decreases s.len(),
{
    let parts = split_on(s, sep);
    if s.len() > 0 {
        let init = split_on(s.drop_last(), sep);
        lemma_split_pieces(s.drop_last(), sep);
        assert forall|i: int| 0 <= i < parts.len() implies !(#[trigger] parts[i]).contains(sep) by {
            if s.last() != sep && i == parts.len() - 1 {
                let p = init.last();
                assert(!p.contains(sep));
                assert forall|k: int| 0 <= k < parts[i].len() implies parts[i][k] != sep by {
                    if k < p.len() {
                        assert(p[k] == parts[i][k]);
                    }
                }
            } else if i < init.len() {
                assert(parts[i] == init[i]);
            }
        }
    }
}

/// Splitting and joining with the same separator gives the text back.
pub proof fn law_join_undoes_split(s: Seq<char>, sep: char)
    ensures
        joined(split_on(s, sep), seq![sep]) == s,
    decreases s.len(),
{
    if s.len() > 0 {
        let init = split_on(s.drop_last(), sep);
        let parts = split_on(s, sep);
        law_join_undoes_split(s.drop_last(), sep);
        lemma_split_pieces(s.drop_last(), sep);
        if s.last() == sep {
            assert(parts.drop_last() =~= init);
            assert(joined(parts, seq![sep]) =~= s);
        } else {
            assert(parts.drop_last() =~= init.drop_last());
            if init.len() == 1 {
                assert(parts[0] =~= s);
            } else {
                assert(joined(parts, seq![sep]) =~= joined(init, seq![sep]).push(s.last()));
                assert(s =~= s.drop_last().push(s.last()));
            }
        }
    }
}

/// A text without the separator is its own only piece.
pub proof fn lemma_split_single(s: Seq<char>, sep: char)
    requires
        !s.contains(sep),
    ensures
        split_on(s, sep) == seq![s],
    decreases s.len(),
{
    if s.len() > 0 {
        assert(s.last() != sep);
        assert forall|c: char| s.drop_last().contains(c) implies s.contains(c) by {
            let i = choose|i: int| 0 <= i < s.drop_last().len() && s.drop_last()[i] == c;
            assert(s[i] == c);
        }
        lemma_split_single(s.drop_last(), sep);
        assert(s.drop_last().push(s.last()) =~= s);
        assert(split_on(s, sep) =~= seq![s]);
    } else {
        assert(s =~= Seq::empty());
    }
}

/// One separator and a piece more at the end.
pub proof fn lemma_split_last(a: Seq<char>, b: Seq<char>, sep: char)
    requires
        !b.contains(sep),
    ensures
        split_on(a.push(sep) + b, sep) == split_on(a, sep).push(b),
    decreases b.len(),
{
    let s = a.push(sep) + b;
    if b.len() == 0 {
        assert(s =~= a.push(sep));
        assert(s.drop_last() =~= a);
        assert(b =~= Seq::empty());
    } else {
        let b0 = b.drop_last();
        assert(b.last() != sep);
        assert forall|c: char| b0.contains(c) implies b.contains(c) by {
            let i = choose|i: int| 0 <= i < b0.len() && b0[i] == c;
            assert(b[i] == c);
        }
        lemma_split_last(a, b0, sep);
        assert(s.drop_last() =~= a.push(sep) + b0);
        assert(s.last() == b.last());
        assert(b0.push(b.last()) =~= b);
        let init = split_on(s.drop_last(), sep);
        assert(init.drop_last() =~= split_on(a, sep));
        assert(split_on(s, sep) =~= split_on(a, sep).push(b));
    }
}

/// What splitting gives back of a joined list whose parts are free of the
/// separator.
pub proof fn law_split_undoes_join(parts: Seq<Seq<char>>, sep: char)
    requires
        parts.len() >= 1,
        forall|i: int| 0 <= i < parts.len() ==> !(#[trigger] parts[i]).contains(sep),
    ensures
        split_on(joined(parts, seq![sep]), sep) == parts,
    decreases parts.len(),
{
    if parts.len() == 1 {
        lemma_split_single(parts[0], sep);
        assert(parts =~= seq![parts[0]]);
    } else {
        let init = parts.drop_last();
        assert forall|i: int| 0 <= i < init.len() implies !(#[trigger] init[i]).contains(sep) by {
            assert(init[i] == parts[i]);
        }
        law_split_undoes_join(init, sep);
        let a = joined(init, seq![sep]);
        lemma_split_last(a, parts.last(), sep);
        assert(a + seq![sep] + parts.last() =~= a.push(sep) + parts.last());
        assert(parts =~= init.push(parts.last()));
    }
}

/// What splitting at line feeds gives back of lines that hold none.
pub proof fn lemma_split_unlines(lines: Seq<Seq<char>>)
    requires
        forall|i: int| 0 <= i < lines.len() ==> !(#[trigger] lines[i]).contains('\n'),
    ensures
        split_on(unlines(lines), '\n') == lines.push(Seq::empty()),
    decreases lines.len(),
{
    if lines.len() == 0 {
        assert(split_on(unlines(lines), '\n') =~= lines.push(Seq::empty()));
    } else {
        let init = lines.drop_last();
        let line = lines.last();
        let head = unlines(init);
        assert forall|i: int| 0 <= i < init.len() implies !(#[trigger] init[i]).contains('\n') by {
            assert(init[i] == lines[i]);
        }
        lemma_split_unlines(init);
        let s = head + line;
        assert(!line.contains('\n'));
        assert(unlines(lines) =~= s.push('\n'));
        assert(s.push('\n').drop_last() =~= s);
        if init.len() == 0 {
            assert(s =~= line);
            lemma_split_single(line, '\n');
            assert(seq![line] =~= lines);
        } else {
            let a = head.drop_last();
            assert(head.last() == '\n');
            assert(head =~= a.push('\n'));
            lemma_split_last(a, line, '\n');
            assert(split_on(head, '\n') == split_on(a, '\n').push(Seq::empty()));
            assert(split_on(a, '\n') =~= init) by {
                assert(split_on(head, '\n').drop_last() =~= split_on(a, '\n'));
                assert(init.push(Seq::empty()).drop_last() =~= init);
            }
            assert(init.push(line) =~= lines);
        }
    }
}

/// Lines that were written out, each with a line feed after it, are read back,
/// if none holds a line feed or ends in a carriage return.
pub proof fn law_lines_undo_unlines(lines: Seq<Seq<char>>)
    requires
        forall|i: int| 0 <= i < lines.len() ==> !(#[trigger] lines[i]).contains('\n'),
        forall|i: int|
            0 <= i < lines.len() && (#[trigger] lines[i]).len() > 0 ==> lines[i].last() != '\r',
    ensures
        lines_of(unlines(lines)) == lines,
{
    lemma_split_unlines(lines);
    let parts = split_on(unlines(lines), '\n');
    assert(parts.drop_last() =~= lines);
    assert(lines_of(unlines(lines)) =~= lines);
}

/// A text that was put on one line holds no line feed and is read back.
pub proof fn law_unescape_undoes_escape(s: Seq<char>)
    ensures
        unescaped(escaped(s)) == Some(s),
        !escaped(s).contains('\n'),
    decreases s.len(),
{
    if s.len() > 0 {
        let rest = s.drop_first();
        let head = escaped_char(s[0]);
        let all = escaped(s);
        law_unescape_undoes_escape(rest);
        assert(all.skip(head.len() as int) =~= escaped(rest));
        assert(seq![s[0]] + rest =~= s);
        assert forall|i: int| 0 <= i < all.len() implies all[i] != '\n' by {
            if i >= head.len() {
                assert(all[i] == escaped(rest)[i - head.len()]);
            }
        }
    } else {
        assert(s =~= Seq::empty());
    }
}

/// A text starts with `prefix` exactly if it is `prefix` and something behind it.
pub proof fn law_prefix(s: Seq<char>, prefix: Seq<char>, rest: Seq<char>)
    ensures
        has_prefix(prefix + rest, prefix),
        has_prefix(s, prefix) ==> s == prefix + s.skip(prefix.len() as int),
{
    assert((prefix + rest).subrange(0, prefix.len() as int) =~= prefix);
    if has_prefix(s, prefix) {
        assert(s =~= s.subrange(0, prefix.len() as int) + s.skip(prefix.len() as int));
    }
}

/// A pattern stands in a text exactly if the text is something, the pattern and
/// something behind it.
pub proof fn law_occurrence(s: Seq<char>, pattern: Seq<char>, a: Seq<char>, b: Seq<char>)
    ensures
        occurs_in(a + pattern + b, pattern),
        occurs_in(s, pattern) ==> exists|x: Seq<char>, y: Seq<char>|
            s == #[trigger] (x + pattern + y),
{
    let t = a + pattern + b;
    let n = pattern.len();
    assert(t.subrange(a.len() as int, (a.len() + n) as int) =~= pattern);
    assert(occurs_at(t, pattern, a.len() as int));
    if occurs_in(s, pattern) {
        let i = choose|i: int| occurs_at(s, pattern, i);
        let x = s.take(i);
        let y = s.skip(i + n);
        assert(s.subrange(i, i + n) == pattern);
        assert(s =~= x + s.subrange(i, i + n) + y);
        assert(s == x + pattern + y);
    }
}

/// All of `s` is white space.
pub open spec fn all_space(s: Seq<char>) -> bool {
    forall|i: int| 0 <= i < s.len() ==> is_space(#[trigger] s[i])
}

/// Trimming takes the white space around a text off and nothing else.
pub proof fn law_trimming(before: Seq<char>, core: Seq<char>, after: Seq<char>)
    requires
        all_space(before),
        all_space(after),
        core.len() > 0 ==> !is_space(core.first()) && !is_space(core.last()),
    ensures
        trimmed(before + core + after) == core,
{
    if core.len() == 0 {
        let s = before + core + after;
        assert forall|i: int| 0 <= i < s.len() implies is_space(#[trigger] s[i]) by {
            if i < before.len() {
                assert(s[i] == before[i]);
            } else {
                assert(s[i] == after[i - before.len()]);
            }
        }
        lemma_trim_start(s, Seq::empty());
        assert(s + Seq::<char>::empty() =~= s);
        assert(core =~= Seq::empty());
    } else {
        lemma_trim_start(before, core + after);
        assert(before + core + after =~= before + (core + after));
        lemma_trim_end(core, after);
    }
}

proof fn lemma_trim_start(space: Seq<char>, rest: Seq<char>)
    requires
        all_space(space),
        rest.len() > 0 ==> !is_space(rest.first()),
    ensures
        trim_start(space + rest) == rest,
    decreases space.len(),
{
    let s = space + rest;
    if space.len() == 0 {
        assert(s =~= rest);
    } else {
        let less = space.drop_first();
        assert(s.first() == space[0]);
        assert forall|i: int| 0 <= i < less.len() implies is_space(#[trigger] less[i]) by {
            assert(less[i] == space[i + 1]);
        }
        lemma_trim_start(less, rest);
        assert(s.drop_first() =~= less + rest);
    }
}

proof fn lemma_trim_end(rest: Seq<char>, space: Seq<char>)
    requires
        all_space(space),
        rest.len() > 0 ==> !is_space(rest.last()),
    ensures
        trim_end(rest + space) == rest,
    decreases space.len(),
{
    let s = rest + space;
    if space.len() == 0 {
        assert(s =~= rest);
    } else {
        let less = space.drop_last();
        assert(s.last() == space.last());
        assert forall|i: int| 0 <= i < less.len() implies is_space(#[trigger] less[i]) by {
            assert(less[i] == space[i]);
        }
        lemma_trim_end(rest, less);
        assert(s.drop_last() =~= rest + less);
    }
}

/// The words of a text on both sides of white space are those of the one side
/// and those of the other.
pub proof fn law_words_around_space(a: Seq<char>, space: char, b: Seq<char>)
    requires
        is_space(space),
    ensures
        words_of(a.push(space) + b) == words_of(a) + words_of(b),
    decreases b.len(),
{
    let s = a.push(space) + b;
    if b.len() == 0 {
        assert(s.drop_last() =~= a);
        assert(words_of(a) + words_of(b) =~= words_of(a));
    } else {
        let less = b.drop_last();
        law_words_around_space(a, space, less);
        assert(s.drop_last() =~= a.push(space) + less);
        assert(s.last() == b.last());
        let wa = words_of(a);
        let wb = words_of(less);
        if is_space(b.last()) {
        } else if b.len() == 1 {
            assert(s[s.len() - 2] == space);
            assert(less =~= Seq::empty());
            assert(words_of(s) =~= wa + words_of(b));
        } else {
            assert(s[s.len() - 2] == b[b.len() - 2]);
            if is_space(b[b.len() - 2]) {
                assert(words_of(s) =~= wa + words_of(b));
            } else {
                lemma_last_word(less);
                assert((wa + wb).drop_last() =~= wa + wb.drop_last());
                assert(words_of(s) =~= wa + words_of(b));
            }
        }
    }
}

/// A text that does not end in white space has a last word.
proof fn lemma_last_word(s: Seq<char>)
    requires
        s.len() > 0,
        !is_space(s.last()),
    ensures
        words_of(s).len() > 0,
    decreases s.len(),
{
}

/// A text without white space is its own only word; the empty text has none.
pub proof fn law_word_alone(s: Seq<char>)
    requires
        forall|i: int| 0 <= i < s.len() ==> !is_space(#[trigger] s[i]),
    ensures
        words_of(s) == if s.len() == 0 {
            Seq::empty()
        } else {
            seq![s]
        },
    decreases s.len(),
{
    if s.len() > 0 {
        let less = s.drop_last();
        assert forall|i: int| 0 <= i < less.len() implies !is_space(#[trigger] less[i]) by {
            assert(less[i] == s[i]);
        }
        law_word_alone(less);
        if s.len() == 1 {
            assert(s =~= seq![s.last()]);
            assert(words_of(s) =~= seq![s]);
        } else {
            assert(!is_space(s[s.len() - 2]));
            assert(less.push(s.last()) =~= s);
            assert(words_of(s) =~= seq![s]);
        }
    }
}

/// A line ends at its line feed, and with it a carriage return before that; what
/// follows are the other lines.
pub proof fn law_lines_around_end(a: Seq<char>, line: Seq<char>)
    requires
        !line.contains('\n'),
    ensures
        lines_of(a.push('\n') + line) == if line.len() == 0 {
            lines_of(a.push('\n'))
        } else {
            lines_of(a.push('\n')).push(line)
        },
        a.len() == 0 ==> lines_of(line.push('\n')) == seq![without_cr(line)],
        a.len() == 0 ==> lines_of(line.push('\r').push('\n')) == seq![line],
{
    let none = Seq::<char>::empty();
    let s = a.push('\n') + line;
    lemma_split_last(a, line, '\n');
    lemma_split_last(a, none, '\n');
    assert(a.push('\n') + none =~= a.push('\n'));
    let parts = split_on(a, '\n');
    assert(parts.push(line).drop_last() =~= parts);
    assert(parts.push(none).drop_last() =~= parts);
    lemma_split_single(line, '\n');
    lemma_split_last(line, none, '\n');
    assert(line.push('\n') + none =~= line.push('\n'));
    assert(seq![line].push(none).drop_last() =~= seq![line]);
    assert(lines_of(line.push('\n')) =~= seq![without_cr(line)]);
    let cr = line.push('\r');
    assert(!cr.contains('\n')) by {
        if cr.contains('\n') {
            let i = choose|i: int| 0 <= i < cr.len() && cr[i] == '\n';
            assert(i < line.len());
            assert(line[i] == '\n');
        }
    }
    lemma_split_single(cr, '\n');
    lemma_split_last(cr, none, '\n');
    assert(cr.push('\n') + none =~= cr.push('\n'));
    assert(seq![cr].push(none).drop_last() =~= seq![cr]);
    assert(cr.drop_last() =~= line);
    assert(lines_of(cr.push('\n')) =~= seq![line]);
}

/// Lines are written one behind the other, each with one line feed after it.
pub proof fn law_unlines_of_parts(a: Seq<Seq<char>>, line: Seq<char>)
    ensures
        unlines(a.push(line)) == unlines(a) + line + seq!['\n'],
        unlines(Seq::empty()) == Seq::<char>::empty(),
{
    assert(a.push(line).drop_last() =~= a);
    assert(unlines(a) + line.push('\n') =~= unlines(a) + line + seq!['\n']);
}

/// Texts are joined with one separator between neighbours and none elsewhere.
pub proof fn law_join_of_parts(a: Seq<Seq<char>>, part: Seq<char>, sep: Seq<char>)
    ensures
        joined(a.push(part), sep) == if a.len() == 0 {
            part
        } else {
            joined(a, sep) + sep + part
        },
{
    assert(a.push(part).drop_last() =~= a);
}

/// What follows `key` in those of `lines` that start with it, in order.
#[verifier::opaque]
pub open spec fn values_of(lines: Seq<Seq<char>>, key: Seq<char>) -> Seq<Seq<char>>
    decreases lines.len(),
{
    if lines.len() == 0 {
        Seq::empty()
    } else {
        let init = values_of(lines.drop_last(), key);
        if has_prefix(lines.last(), key) {
            init.push(lines.last().skip(key.len() as int))
        } else {
            init
        }
    }
}

/// `key` ends in the first `mark` that it holds.
#[verifier::opaque]
pub open spec fn ends_in_first(key: Seq<char>, mark: char) -> bool {
    &&& key.len() > 0
    &&& key.last() == mark
    &&& forall|i: int| 0 <= i < key.len() - 1 ==> #[trigger] key[i] != mark
}

/// No lines, no values.
pub proof fn lemma_values_empty(key: Seq<char>)
    ensures
        values_of(Seq::empty(), key) == Seq::<Seq<char>>::empty(),
{
    reveal(values_of);
}

/// The values in one list of lines and another.
pub proof fn lemma_values_add(a: Seq<Seq<char>>, b: Seq<Seq<char>>, key: Seq<char>)
    ensures
        values_of(a + b, key) == values_of(a, key) + values_of(b, key),
    decreases b.len(),
{
    reveal(values_of);
    if b.len() == 0 {
        assert(a + b =~= a);
        assert(values_of(a, key) + values_of(b, key) =~= values_of(a, key));
    } else {
        lemma_values_add(a, b.drop_last(), key);
        assert((a + b).drop_last() =~= a + b.drop_last());
        assert((a + b).last() == b.last());
        assert(values_of(a + b, key) =~= values_of(a, key) + values_of(b, key));
    }
}

/// A line more, which starts with its own key.
proof fn lemma_values_own(lines: Seq<Seq<char>>, key: Seq<char>, value: Seq<char>)
    ensures
        values_of(lines.push(key + value), key) == values_of(lines, key).push(value),
{
    reveal(values_of);
    let more = lines.push(key + value);
    assert((key + value).subrange(0, key.len() as int) =~= key);
    assert((key + value).skip(key.len() as int) =~= value);
    assert(more.drop_last() =~= lines);
}

/// A line more, which does not start with the key.
proof fn lemma_values_other(lines: Seq<Seq<char>>, line: Seq<char>, key: Seq<char>)
    requires
        !has_prefix(line, key),
    ensures
        values_of(lines.push(line), key) == values_of(lines, key),
{
    reveal(values_of);
    assert(lines.push(line).drop_last() =~= lines);
}

/// A line more, made with a key that ends in the first mark that it holds: its
/// value counts for that key and for no other such key.
pub proof fn lemma_values_marked(
    lines: Seq<Seq<char>>,
    key: Seq<char>,
    value: Seq<char>,
    other: Seq<char>,
    mark: char,
)
    requires
        ends_in_first(key, mark),
        ends_in_first(other, mark),
    ensures
        values_of(lines.push(key + value), other) == if key == other {
            values_of(lines, other).push(value)
        } else {
            values_of(lines, other)
        },
{
    reveal(ends_in_first);
    let line = key + value;
    if key == other {
        lemma_values_own(lines, key, value);
    } else {
        if has_prefix(line, other) {
            let n = key.len() - 1;
            let m = other.len() - 1;
            let start = line.subrange(0, other.len() as int);
            assert(start[m] == mark && line[m] == mark);
            assert(line[n] == mark);
            if n < m {
                assert(start[n] == line[n]);
            }
            if m < n {
                assert(line[m] == key[m]);
            }
            assert(start =~= key);
        }
        lemma_values_other(lines, line, other);
    }
}

/// A line more, made with a label as long as the one that is looked for.
pub proof fn lemma_values_labelled(
    lines: Seq<Seq<char>>,
    label: Seq<char>,
    value: Seq<char>,
    other: Seq<char>,
)
    requires
        label.len() == other.len(),
    ensures
        values_of(lines.push(label + value), other) == if label == other {
            values_of(lines, other).push(value)
        } else {
            values_of(lines, other)
        },
{
    let line = label + value;
    if label == other {
        lemma_values_own(lines, label, value);
    } else {
        if has_prefix(line, other) {
            assert(line.subrange(0, other.len() as int) =~= label);
        }
        lemma_values_other(lines, line, other);
    }
}

/// A flag: between square brackets a text that holds none.
#[verifier::opaque]
pub open spec fn is_flag(t: Seq<char>) -> bool {
    &&& t.len() >= 2
    &&& t[0] == '['
    &&& t.last() == ']'
    &&& forall|i: int| 0 < i < t.len() - 1 ==> #[trigger] t[i] != '[' && t[i] != ']'
}

/// `a` and `b` are the same text.
#[verifier::opaque]
pub open spec fn same_text(a: Seq<char>, b: Seq<char>) -> bool {
    a == b
}

/// A flag, or nothing.
#[verifier::opaque]
pub open spec fn is_flag_or_none(s: Seq<char>) -> bool {
    s.len() == 0 || is_flag(s)
}

/// A text that the last flag of a row ends, or nothing.
#[verifier::opaque]
pub open spec fn is_flag_row(s: Seq<char>) -> bool {
    s.len() == 0 || s.last() == ']'
}

/// `t` stands somewhere in `s`.
#[verifier::opaque]
pub open spec fn flag_in(s: Seq<char>, t: Seq<char>) -> bool {
    occurs_in(s, t)
}

/// A flag stands in a row of flags with one more behind it, if it stood in the
/// row or is the one behind it.
proof fn lemma_flag_appended(a: Seq<char>, b: Seq<char>, t: Seq<char>)
    requires
        is_flag(t),
        a.len() == 0 || a.last() == ']',
        b.len() == 0 || is_flag(b),
    ensures
        occurs_in(a + b, t) == (occurs_in(a, t) || b == t),
        (a + b).len() == 0 || (a + b).last() == ']',
{
    reveal(is_flag);
    let s = a + b;
    if b.len() == 0 {
        assert(s =~= a);
    }
    if occurs_in(s, t) {
        let i = choose|i: int| occurs_at(s, t, i);
        let at = s.subrange(i, i + t.len());
        if i + t.len() <= a.len() {
            assert(a.subrange(i, i + t.len()) =~= t);
            assert(occurs_at(a, t, i));
        } else if i < a.len() {
            let k = a.len() - 1 - i;
            assert(at[k] == a.last());
            assert(t[k] == ']');
        } else {
            assert(at[0] == b[i - a.len()]);
            assert(i == a.len());
            assert(at[t.len() - 1] == b[t.len() - 1]);
            assert(t.len() == b.len());
            assert(b =~= t);
        }
    }
    if b == t {
        assert(s.subrange(a.len() as int, (a.len() + t.len()) as int) =~= t);
        assert(occurs_at(s, t, a.len() as int));
    }
    if occurs_in(a, t) {
        let i = choose|i: int| occurs_at(a, t, i);
        assert(s.subrange(i, i + t.len()) =~= a.subrange(i, i + t.len()));
        assert(occurs_at(s, t, i));
    }
}

/// A flag stands in another only if it is that one, and not in the empty text.
proof fn lemma_flag_alone(b: Seq<char>, t: Seq<char>)
    requires
        is_flag(t),
        b.len() == 0 || is_flag(b),
    ensures
        occurs_in(b, t) == (b == t),
        b.len() == 0 || b.last() == ']',
{
    reveal(is_flag);
    let none = Seq::<char>::empty();
    if occurs_in(none, t) {
        let i = choose|i: int| occurs_at(none, t, i);
    }
    lemma_flag_appended(none, b, t);
    assert(none + b =~= b);
}

/// What stands in a row of flags with one more behind it.
pub proof fn lemma_row_grows(a: Seq<char>, b: Seq<char>, t: Seq<char>)
    requires
        is_flag(t),
        is_flag_row(a),
        is_flag_or_none(b),
    ensures
        flag_in(a + b, t) == (flag_in(a, t) || same_text(b, t)),
        is_flag_row(a + b),
{
    reveal(is_flag_row);
    reveal(is_flag_or_none);
    reveal(flag_in);
    reveal(same_text);
    lemma_flag_appended(a, b, t);
}

/// What stands in a row of one flag.
pub proof fn lemma_row_starts(b: Seq<char>, t: Seq<char>)
    requires
        is_flag(t),
        is_flag_or_none(b),
    ensures
        flag_in(b, t) == same_text(b, t),
        is_flag_row(b),
{
    reveal(is_flag_row);
    reveal(is_flag_or_none);
    reveal(flag_in);
    reveal(same_text);
    lemma_flag_alone(b, t);
}

// ---------------------------------------------------------------------------
// Operations
// ---------------------------------------------------------------------------

/// The characters of a string slice, in order.
pub fn chars_of(s: &str) -> (res: Vec<char>)
    ensures
        res@ == s@,
{
    let mut res: Vec<char> = Vec::new();
    for c in it: s.chars()
        invariant
            it.seq() == s@,
            res@ == s@.take(it.index()),
    {
        res.push(c);
    }
    assert(s@.take(s@.len() as int) == s@);
    res
}

/// The characters of `s` from index `from` up to index `to`.
pub fn substring(s: &str, from: usize, to: usize) -> (res: String)
    requires
        from <= to <= s@.len(),
    ensures
        res@ == s@.subrange(from as int, to as int),
{
    s.substring_char(from, to).to_owned()
}

/// Whether `pattern` stands in `s` at index `at`.
fn chars_at(s: &Vec<char>, pattern: &Vec<char>, at: usize) -> (res: bool)
    ensures
        res == occurs_at(s@, pattern@, at as int),
{
    let n: usize = s.len();
    let m: usize = pattern.len();
    if m > n || at > n - m {
        return false;
    }
    let mut i: usize = 0;
    while i < m
        invariant
            i <= m,
            m == pattern@.len(),
            n == s@.len(),
            at + m <= n,
            forall|j: int| 0 <= j < i ==> s@[at + j] == pattern@[j],
        decreases m - i,
    {
        if s[at + i] != pattern[i] {
            proof {
                assert(s@.subrange(at as int, at + m)[i as int] != pattern@[i as int]);
            }
            return false;
        }
        i = i + 1;
    }
    assert(s@.subrange(at as int, at + m) =~= pattern@);
    true
}

/// Whether two strings hold the same characters.
pub fn str_eq(a: &str, b: &str) -> (res: bool)
    ensures
        res == (a@ == b@),
{
    let x: Vec<char> = chars_of(a);
    let y: Vec<char> = chars_of(b);
    if x.len() != y.len() {
        return false;
    }
    let res: bool = chars_at(&x, &y, 0);
    assert(x@.subrange(0, x@.len() as int) =~= x@);
    res
}

/// Whether `s` starts with `prefix`.
pub fn starts_with(s: &str, prefix: &str) -> (res: bool)
    ensures
        res == has_prefix(s@, prefix@),
{
    let x: Vec<char> = chars_of(s);
    let y: Vec<char> = chars_of(prefix);
    chars_at(&x, &y, 0)
}

/// What follows `prefix` in `s`, where `s` starts with it.
pub fn strip_prefix(s: &str, prefix: &str) -> (res: Option<String>)
    ensures
        res is Some == has_prefix(s@, prefix@),
        res matches Some(rest) ==> rest@ == s@.skip(prefix@.len() as int),
{
    if starts_with(s, prefix) {
        let n: usize = s.unicode_len();
        let m: usize = prefix.unicode_len();
        let rest: String = substring(s, m, n);
        assert(s@.subrange(m as int, n as int) =~= s@.skip(m as int));
        Some(rest)
    } else {
        None
    }
}

/// Whether `pattern` stands somewhere in `s`.
pub fn contains(s: &str, pattern: &str) -> (res: bool)
    ensures
        res == occurs_in(s@, pattern@),
{
    let x: Vec<char> = chars_of(s);
    let y: Vec<char> = chars_of(pattern);
    let n: usize = x.len();
    let mut i: usize = 0;
    while i < n
        invariant
            i <= n,
            n == x@.len(),
            x@ == s@,
            y@ == pattern@,
            forall|j: int| 0 <= j < i ==> !occurs_at(x@, y@, j),
        decreases n - i,
    {
        if chars_at(&x, &y, i) {
            return true;
        }
        i = i + 1;
    }
    chars_at(&x, &y, n)
}

/// Whether `c` is white space.
pub fn is_space_char(c: char) -> (res: bool)
    ensures
        res == is_space(c),
{
    ('\u{9}' <= c && c <= '\u{d}') || c == '\u{20}' || c == '\u{85}' || c == '\u{a0}' || c
        == '\u{1680}' || ('\u{2000}' <= c && c <= '\u{200a}') || c == '\u{2028}' || c == '\u{2029}'
        || c == '\u{202f}' || c == '\u{205f}' || c == '\u{3000}'
}

/// `s` without white space at either end.
pub fn trim(s: &str) -> (res: String)
    ensures
        res@ == trimmed(s@),
{
    let x: Vec<char> = chars_of(s);
    let n: usize = x.len();
    let mut from: usize = 0;
    assert(s@.skip(0) =~= s@);
    while from < n && is_space_char(x[from])
        invariant
            from <= n,
            n == x@.len(),
            x@ == s@,
            trim_start(s@) == trim_start(s@.skip(from as int)),
        decreases n - from,
    {
        assert(s@.skip(from as int).drop_first() =~= s@.skip(from + 1));
        from = from + 1;
    }
    assert(trim_start(s@) == s@.skip(from as int));
    let mut to: usize = n;
    assert(s@.skip(from as int) =~= s@.subrange(from as int, to as int));
    while to > from && is_space_char(x[to - 1])
        invariant
            from <= to <= n,
            n == x@.len(),
            x@ == s@,
            trimmed(s@) == trim_end(s@.subrange(from as int, to as int)),
        decreases to,
    {
        assert(s@.subrange(from as int, to as int).drop_last() =~= s@.subrange(
            from as int,
            to - 1,
        ));
        to = to - 1;
    }
    substring(s, from, to)
}

/// The pieces of `s` between the occurrences of `sep`.
pub fn split(s: &str, sep: char) -> (res: Vec<String>)
    ensures
        texts(res@) == split_on(s@, sep),
{
    broadcast use lemma_texts_push;

    let x: Vec<char> = chars_of(s);
    let n: usize = x.len();
    let mut res: Vec<String> = Vec::new();
    let mut from: usize = 0;
    let mut i: usize = 0;
    assert(s@.take(0) =~= Seq::empty());
    assert(split_on(s@.take(0), sep).drop_last() =~= texts(res@));
    assert(split_on(s@.take(0), sep).last() =~= s@.subrange(0, 0));
    while i < n
        invariant
            from <= i <= n,
            n == x@.len(),
            x@ == s@,
            split_on(s@.take(i as int), sep).len() >= 1,
            split_on(s@.take(i as int), sep).drop_last() == texts(res@),
            split_on(s@.take(i as int), sep).last() == s@.subrange(from as int, i as int),
        decreases n - i,
    {
        let ghost before = split_on(s@.take(i as int), sep);
        let ghost after = split_on(s@.take(i + 1), sep);
        assert(s@.take(i + 1).drop_last() =~= s@.take(i as int));
        if x[i] == sep {
            assert(after == before.push(Seq::empty()));
            assert(after.drop_last() =~= before);
            assert(before =~= before.drop_last().push(before.last()));
            res.push(substring(s, from, i));
            from = i + 1;
            assert(s@.subrange(from as int, i + 1) =~= Seq::empty());
        } else {
            assert(after.drop_last() =~= before.drop_last());
            assert(s@.subrange(from as int, i + 1) =~= s@.subrange(from as int, i as int).push(
                s@[i as int],
            ));
        }
        i = i + 1;
    }
    let ghost all = split_on(s@, sep);
    assert(s@.take(n as int) =~= s@);
    assert(all =~= all.drop_last().push(all.last()));
    res.push(substring(s, from, n));
    res
}

/// `parts` with `sep` between neighbours.
pub fn join(parts: &Vec<String>, sep: &str) -> (res: String)
    ensures
        res@ == joined(texts(parts@), sep@),
{
    let mut res: String = String::new();
    let n: usize = parts.len();
    let mut i: usize = 0;
    let ghost all = texts(parts@);
    assert(all.take(0).len() == 0);
    while i < n
        invariant
            i <= n,
            n == parts@.len(),
            all == texts(parts@),
            res@ == joined(all.take(i as int), sep@),
        decreases n - i,
    {
        assert(all.take(i + 1).drop_last() =~= all.take(i as int));
        if i > 0 {
            res.append(sep);
        } else {
            assert(res@ =~= Seq::empty());
        }
        res.append(parts[i].as_str());
        assert(all[i as int] == parts@[i as int]@);
        if i == 0 {
            assert(res@ =~= all.take(1)[0]);
        }
        i = i + 1;
    }
    assert(all.take(n as int) =~= all);
    res
}

/// Each of `lines`, with a line feed after it.
pub fn join_lines(lines: &Vec<String>) -> (res: String)
    ensures
        res@ == unlines(texts(lines@)),
{
    let mut res: String = String::new();
    let n: usize = lines.len();
    let mut i: usize = 0;
    let ghost all = texts(lines@);
    proof {
        reveal_strlit("\n");
    }
    assert(all.take(0).len() == 0);
    while i < n
        invariant
            i <= n,
            n == lines@.len(),
            all == texts(lines@),
            "\n"@ =~= seq!['\n'],
            res@ == unlines(all.take(i as int)),
        decreases n - i,
    {
        let ghost before = res@;
        assert(all.take(i + 1).drop_last() =~= all.take(i as int));
        assert(all.take(i + 1).last() == lines@[i as int]@);
        res.append(lines[i].as_str());
        res.append("\n");
        assert(res@ =~= before + lines@[i as int]@.push('\n'));
        i = i + 1;
    }
    assert(all.take(n as int) =~= all);
    res
}

/// The lines of `s`.
pub fn lines(s: &str) -> (res: Vec<String>)
    ensures
        texts(res@) == lines_of(s@),
{
    broadcast use lemma_texts_push;

    let parts: Vec<String> = split(s, '\n');
    proof {
        lemma_split_pieces(s@, '\n');
    }
    let ghost all = split_on(s@, '\n');
    let ghost ended = all.drop_last().map_values(|p: Seq<char>| without_cr(p));
    let n: usize = parts.len();
    let mut res: Vec<String> = Vec::new();
    let mut i: usize = 0;
    assert(texts(res@) =~= ended.take(0));
    while i < n - 1
        invariant
            i <= n - 1,
            n == parts@.len(),
            all == texts(parts@),
            ended == all.drop_last().map_values(|p: Seq<char>| without_cr(p)),
            texts(res@) == ended.take(i as int),
        decreases n - i,
    {
        let p: &str = parts[i].as_str();
        let x: Vec<char> = chars_of(p);
        let m: usize = x.len();
        assert(all[i as int] == p@);
        assert(ended[i as int] == without_cr(p@));
        assert(ended.take(i + 1) =~= ended.take(i as int).push(without_cr(p@)));
        if m > 0 && x[m - 1] == '\r' {
            let line: String = substring(p, 0, m - 1);
            assert(line@ =~= p@.drop_last());
            res.push(line);
        } else {
            res.push(p.to_owned());
        }
        i = i + 1;
    }
    assert(ended.take(n - 1) =~= ended);
    assert(all.last() == parts@[n - 1]@);
    if parts[n - 1].as_str().is_empty() {
        res
    } else {
        res.push(parts[n - 1].clone());
        res
    }
}

/// `s` on one line.
pub fn escape(s: &str) -> (res: String)
    ensures
        res@ == escaped(s@),
{
    let x: Vec<char> = chars_of(s);
    let n: usize = x.len();
    let mut res: String = String::new();
    let mut i: usize = 0;
    proof {
        reveal_strlit("\\n");
        reveal_strlit("\\\\");
        assert("\\n"@ =~= seq!['\\', 'n']);
        assert("\\\\"@ =~= seq!['\\', '\\']);
    }
    assert(s@.skip(0) =~= s@);
    assert(res@ + escaped(s@) =~= escaped(s@));
    while i < n
        invariant
            i <= n,
            n == x@.len(),
            x@ == s@,
            "\\n"@ == seq!['\\', 'n'],
            "\\\\"@ == seq!['\\', '\\'],
            res@ + escaped(s@.skip(i as int)) == escaped(s@),
        decreases n - i,
    {
        let ghost before = res@;
        assert(s@.skip(i as int).drop_first() =~= s@.skip(i + 1));
        if x[i] == '\n' {
            res.append("\\n");
        } else if x[i] == '\\' {
            res.append("\\\\");
        } else {
            let c: String = substring(s, i, i + 1);
            assert(c@ =~= seq![s@[i as int]]);
            res.append(c.as_str());
        }
        assert(res@ =~= before + escaped_char(s@[i as int]));
        assert(res@ + escaped(s@.skip(i + 1)) =~= before + escaped(s@.skip(i as int)));
        i = i + 1;
    }
    assert(res@ + escaped(s@.skip(n as int)) =~= res@);
    res
}

/// The text that was put on one line, if `s` is such a line.
pub fn unescape(s: &str) -> (res: Option<String>)
    ensures
        match unescaped(s@) {
            Some(t) => res matches Some(r) && r@ == t,
            None => res is None,
        },
{
    let x: Vec<char> = chars_of(s);
    let n: usize = x.len();
    let mut res: String = String::new();
    let mut i: usize = 0;
    proof {
        reveal_strlit("\n");
        reveal_strlit("\\");
        assert("\n"@ =~= seq!['\n']);
        assert("\\"@ =~= seq!['\\']);
    }
    assert(s@.skip(0) =~= s@);
    proof {
        if let Some(t) = unescaped(s@) {
            assert(res@ + t =~= t);
        }
    }
    while i < n
        invariant
            i <= n,
            n == x@.len(),
            x@ == s@,
            "\n"@ == seq!['\n'],
            "\\"@ == seq!['\\'],
            prepended(res@, unescaped(s@.skip(i as int))) == unescaped(s@),
        decreases n - i,
    {
        let ghost before = res@;
        let ghost rest = s@.skip(i as int);
        assert(rest.skip(1) =~= s@.skip(i + 1));
        if x[i] != '\\' {
            let c: String = substring(s, i, i + 1);
            assert(c@ =~= seq![s@[i as int]]);
            res.append(c.as_str());
            i = i + 1;
        } else {
            if n - i < 2 {
                return None;
            }
            assert(rest.skip(2) =~= s@.skip(i + 2));
            assert(rest[1] == s@[i + 1]);
            if x[i + 1] == 'n' {
                res.append("\n");
            } else if x[i + 1] == '\\' {
                res.append("\\");
            } else {
                return None;
            }
            i = i + 2;
        }
        proof {
            let added = res@.skip(before.len() as int);
            assert(res@ =~= before + added);
            assert(unescaped(rest) == prepended(added, unescaped(s@.skip(i as int))));
            if let Some(t) = unescaped(s@.skip(i as int)) {
                assert(before + (added + t) =~= res@ + t);
            }
        }
    }
    assert(s@.skip(n as int) =~= Seq::empty());
    assert(res@ + Seq::<char>::empty() =~= res@);
    Some(res)
}

/// The longest runs of `s` without white space, in order.
pub fn words(s: &str) -> (res: Vec<String>)
    ensures
        texts(res@) == words_of(s@),
{
    broadcast use lemma_texts_push;

    let x: Vec<char> = chars_of(s);
    let n: usize = x.len();
    let mut res: Vec<String> = Vec::new();
    let mut from: usize = 0;
    let mut i: usize = 0;
    assert(s@.take(0) =~= Seq::empty());
    assert(texts(res@) =~= words_of(s@.take(0)));
    while i < n
        invariant
            from <= i <= n,
            n == x@.len(),
            x@ == s@,
            from == i <==> (i == 0 || is_space(s@[i - 1])),
            from == i ==> words_of(s@.take(i as int)) == texts(res@),
            from < i ==> words_of(s@.take(i as int)) == texts(res@).push(
                s@.subrange(from as int, i as int),
            ),
        decreases n - i,
    {
        let ghost before = words_of(s@.take(i as int));
        assert(s@.take(i + 1).drop_last() =~= s@.take(i as int));
        if is_space_char(x[i]) {
            if from < i {
                res.push(substring(s, from, i));
            }
            from = i + 1;
        } else {
            assert(s@.subrange(from as int, i + 1) =~= s@.subrange(from as int, i as int).push(
                s@[i as int],
            ));
            if from < i {
                assert(before.drop_last() =~= texts(res@));
            } else {
                assert(s@.subrange(from as int, i + 1) =~= seq![s@[i as int]]);
            }
        }
        i = i + 1;
    }
    assert(s@.take(n as int) =~= s@);
    if from < n {
        res.push(substring(s, from, n));
    }
    res
}

} // verus!
