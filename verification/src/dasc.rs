//! Counting code embedded in a logic program: after `#dasc_start`, lines of
//! declarations `name <- expression`, then a return line (a postfix
//! expression over the declared names), then `#dasc_end`; lines that start
//! with `%` are comments.
use vstd::prelude::*;

use crate::text::{chars_contain, is_white_space, push_char, str_chars, trim, trim_chars, white_space};
use crate::utils::strings_view;

verus! {

/// The first position at or after `i` at which `p` occurs in `s`.
pub open spec fn find_from(s: Seq<char>, p: Seq<char>, i: int) -> Option<int>
    decreases s.len() + 1 - i,
{
    if i < 0 || i + p.len() > s.len() {
        None
    } else if s.subrange(i, i + p.len()) == p {
        Some(i)
    } else {
        find_from(s, p, i + 1)
    }
}

/// What comes before the first occurrence of `p` in `s` (all of `s` when
/// `p` does not occur): the first piece of `s` split at `p`.
pub open spec fn first_piece(s: Seq<char>, p: Seq<char>) -> Seq<char> {
    match find_from(s, p, 0) {
        Some(i) => s.take(i),
        None => s,
    }
}

/// The second piece of `s` split at `p`: between its first and its second
/// occurrence (or the end), when `p` occurs.
pub open spec fn second_piece(s: Seq<char>, p: Seq<char>) -> Option<Seq<char>> {
    match find_from(s, p, 0) {
        Some(i) => Some(first_piece(s.skip(i + p.len()), p)),
        None => None,
    }
}

/// `s` split at each `c`.
pub open spec fn split_char(s: Seq<char>, c: char) -> Seq<Seq<char>>
    decreases s.len(),
{
    if s.len() == 0 {
        seq![Seq::empty()]
    } else {
        let rest = split_char(s.drop_last(), c);
        if s.last() == c {
            rest.push(Seq::empty())
        } else {
            rest.update(rest.len() - 1, rest.last().push(s.last()))
        }
    }
}

/// The runs of characters other than white space in `s`, in order
/// (`str::split_whitespace`).
pub open spec fn words_of(s: Seq<char>) -> Seq<Seq<char>>
    decreases s.len(),
{
    if s.len() == 0 {
        Seq::empty()
    } else {
        let w = words_of(s.drop_last());
        let c = s.last();
        if is_white_space(c) {
            w
        } else if s.len() >= 2 && !is_white_space(s[s.len() - 2]) {
            w.update(w.len() - 1, w.last().push(c))
        } else {
            w.push(seq![c])
        }
    }
}

/// The counting code of a program: what follows its first `#dasc_start`,
/// up to the next one, if it has one.
pub open spec fn dasc_code(src: Seq<char>) -> Option<Seq<char>> {
    second_piece(src, "#dasc_start"@)
}

/// The lines of counting code, without surrounding white space, leaving out
/// empty lines and comments.
pub open spec fn code_lines(code: Seq<char>) -> Seq<Seq<char>> {
    split_char(code, '\n').map_values(|l: Seq<char>| trim(l)).filter(
        |l: Seq<char>| l.len() > 0 && l[0] != '%',
    )
}

/// The lines that hold a `%` (after a line's start, which makes a comment).
pub open spec fn percent_lines(lines: Seq<Seq<char>>) -> Seq<Seq<char>> {
    lines.filter(|l: Seq<char>| l.contains('%'))
}

/// The name that a declaration line declares.
pub open spec fn decl_name(l: Seq<char>) -> Seq<char> {
    trim(first_piece(l, " <- "@))
}

/// The expression that a declaration line gives its name.
pub open spec fn decl_value(l: Seq<char>) -> Seq<char> {
    trim(second_piece(l, " <- "@)->0)
}

/// The declarations of pairs of names and expressions: a later pair
/// replaces an earlier one for the same name.
pub open spec fn pairs_map(s: Seq<(Seq<char>, Seq<char>)>) -> Map<Seq<char>, Seq<char>>
    decreases s.len(),
{
    if s.len() == 0 {
        Map::empty()
    } else {
        pairs_map(s.drop_last()).insert(s.last().0, s.last().1)
    }
}

/// The pairs that declaration lines make.
pub open spec fn decl_pairs(lines: Seq<Seq<char>>) -> Seq<(Seq<char>, Seq<char>)> {
    lines.map_values(|l: Seq<char>| (decl_name(l), decl_value(l)))
}

/// Whether the lines of counting code pass the checks of the syntax: no
/// line holds a `%`, the last is `#dasc_end`, and the one before it (the
/// return line) declares nothing.
pub open spec fn lines_pass(lines: Seq<Seq<char>>) -> bool {
    &&& percent_lines(lines).len() == 0
    &&& lines.last() == "#dasc_end"@
    &&& find_from(lines[lines.len() - 2], "<-"@, 0) is None
}

/// Whether the counting code of `src`, if any, can be read: it has at least
/// two lines, and when it passes the checks each declaration line holds
/// ` <- `.
pub open spec fn dasc_readable(src: Seq<char>) -> bool {
    match dasc_code(src) {
        Some(code) => {
            let lines = code_lines(code);
            &&& lines.len() >= 2
            &&& lines_pass(lines) ==> forall|k: int|
                0 <= k < lines.len() - 2 ==> second_piece(#[trigger] lines[k], " <- "@) is Some
        },
        None => true,
    }
}

/// Why counting code is refused.
#[derive(Debug, PartialEq, Eq)]
pub enum DascError {
    /// A line holds a `%` after its start: the line.
    InvalidSyntax(String),
    /// The last line is not `#dasc_end`.
    Unterminated,
    /// The line before `#dasc_end` is a declaration, not a return line.
    NoReturn,
}

/// Counting code: its declarations, in order (a later one replaces an
/// earlier one of the same name), and the words of its return line, last
/// word first.
#[derive(Debug)]
pub struct Dasc {
    /// The declarations, pairs of a name and an expression.
    pub decl: Vec<(String, String)>,
    /// The words of the return line, last word first.
    pub expr: Vec<String>,
}

/// The pairs of strings as pairs of character sequences.
pub open spec fn string_pairs(s: Seq<(String, String)>) -> Seq<(Seq<char>, Seq<char>)> {
    s.map_values(|p: (String, String)| (p.0@, p.1@))
}

impl Dasc {
    /// The declarations, by name.
    pub open spec fn declarations(&self) -> Map<Seq<char>, Seq<char>> {
        pairs_map(string_pairs(self.decl@))
    }
}

/// Whether `p` occurs in `s` at position `i`.
fn occurs_at(s: &[char], p: &[char], i: usize) -> (r: bool)
    requires
        i + p@.len() <= s@.len(),
    ensures
        r == (s@.subrange(i as int, i + p@.len()) == p@),
{
    let n = s.len();
    let mut j: usize = 0;
    while j < p.len()
        invariant
            n == s@.len(),
            i + p@.len() <= s@.len(),
            j <= p@.len(),
            forall|k: int| 0 <= k < j ==> s@[i + k] == p@[k],
        decreases p@.len() - j,
    {
        if s[i + j] != p[j] {
            assert(s@.subrange(i as int, i + p@.len())[j as int] != p@[j as int]);
            return false;
        }
        j = j + 1;
    }
    assert(s@.subrange(i as int, i + p@.len()) =~= p@);
    true
}

/// The first position at or after `from` at which `p` occurs in `s`.
fn find_chars(s: &[char], p: &[char], from: usize) -> (r: Option<usize>)
    ensures
        match r {
            Some(i) => find_from(s@, p@, from as int) == Some(i as int),
            None => find_from(s@, p@, from as int) is None,
        },
        r matches Some(i) ==> from <= i && i + p@.len() <= s@.len(),
{
    if p.len() > s.len() {
        return None;
    }
    if p.len() == 0 {
        if from <= s.len() {
            assert(s@.subrange(from as int, from as int) =~= p@);
            return Some(from);
        }
        return None;
    }
    let mut i: usize = from;
    while i <= s.len() - p.len()
        invariant
            1 <= p@.len() <= s@.len(),
            from <= i,
            find_from(s@, p@, from as int) == find_from(s@, p@, i as int),
        decreases s@.len() + 1 - i,
    {
        if occurs_at(s, p, i) {
            return Some(i);
        }
        i = i + 1;
    }
    None
}

/// The views of vectors of characters.
pub open spec fn char_vecs(s: Seq<Vec<char>>) -> Seq<Seq<char>> {
    s.map_values(|v: Vec<char>| v@)
}

/// `s` split at each line feed.
fn split_lines(s: &[char]) -> (r: Vec<Vec<char>>)
    ensures
        char_vecs(r@) == split_char(s@, '\n'),
{
    let mut r: Vec<Vec<char>> = Vec::new();
    r.push(Vec::new());
    assert(char_vecs(r@) =~= split_char(s@.subrange(0, 0), '\n'));
    let mut i: usize = 0;
    while i < s.len()
        invariant
            i <= s@.len(),
            r@.len() > 0,
            char_vecs(r@) == split_char(s@.subrange(0, i as int), '\n'),
        decreases s@.len() - i,
    {
        let ghost before = char_vecs(r@);
        proof {
            assert(s@.subrange(0, i + 1).drop_last() =~= s@.subrange(0, i as int));
        }
        if s[i] == '\n' {
            r.push(Vec::new());
            assert(char_vecs(r@) =~= before.push(Seq::empty()));
        } else {
            let mut last = r.pop().unwrap();
            last.push(s[i]);
            r.push(last);
            assert(char_vecs(r@) =~= before.update(before.len() - 1, before.last().push(s@[i as int])));
        }
        i = i + 1;
    }
    assert(s@.subrange(0, s@.len() as int) =~= s@);
    r
}

proof fn lemma_words_nonempty(s: Seq<char>)
    requires
        s.len() > 0,
        !is_white_space(s.last()),
    ensures
        words_of(s).len() > 0,
    decreases s.len(),
{
    if s.len() >= 2 && !is_white_space(s[s.len() - 2]) {
        lemma_words_nonempty(s.drop_last());
    }
}

/// The runs of characters other than white space in `s`, in order.
fn words(s: &[char]) -> (r: Vec<String>)
    ensures
        strings_view(r@) == words_of(s@),
{
    let mut r: Vec<String> = Vec::new();
    let mut i: usize = 0;
    assert(strings_view(r@) =~= words_of(s@.subrange(0, 0)));
    while i < s.len()
        invariant
            i <= s@.len(),
            strings_view(r@) == words_of(s@.subrange(0, i as int)),
        decreases s@.len() - i,
    {
        let ghost pre = s@.subrange(0, i as int);
        let ghost before = strings_view(r@);
        proof {
            assert(s@.subrange(0, i + 1).drop_last() =~= pre);
        }
        let c = s[i];
        if white_space(c) {
        } else if i >= 1 && !white_space(s[i - 1]) {
            proof {
                assert(pre.last() == s@[i - 1]);
                lemma_words_nonempty(pre);
            }
            let mut last = r.pop().unwrap();
            push_char(&mut last, c);
            r.push(last);
            assert(strings_view(r@) =~= before.update(before.len() - 1, before.last().push(c)));
        } else {
            let mut w = String::new();
            push_char(&mut w, c);
            r.push(w);
            assert(strings_view(r@) =~= before.push(seq![c]));
        }
        proof {
            let q = s@.subrange(0, i + 1);
            assert(q.last() == c);
            if i >= 1 {
                assert(q[q.len() - 2] == s@[i - 1]);
            }
        }
        i = i + 1;
    }
    assert(s@.subrange(0, s@.len() as int) =~= s@);
    r
}

/// The characters `v[from..to]`.
fn sub_chars(v: &[char], from: usize, to: usize) -> (r: Vec<char>)
    requires
        from <= to <= v@.len(),
    ensures
        r@ == v@.subrange(from as int, to as int),
{
    let mut r: Vec<char> = Vec::new();
    let mut i: usize = from;
    while i < to
        invariant
            from <= i <= to <= v@.len(),
            r@ == v@.subrange(from as int, i as int),
        decreases to - i,
    {
        r.push(v[i]);
        assert(v@.subrange(from as int, i + 1) =~= v@.subrange(from as int, i as int).push(v@[i as int]));
        i = i + 1;
    }
    r
}

/// The first piece of `s` split at `p`.
fn first_piece_of(s: &[char], p: &[char]) -> (r: Vec<char>)
    ensures
        r@ == first_piece(s@, p@),
{
    match find_chars(s, p, 0) {
        Some(i) => {
            let r = sub_chars(s, 0, i);
            assert(r@ =~= s@.take(i as int));
            r
        },
        None => sub_chars(s, 0, s.len()),
    }
}

/// The outcome that counting code with the lines `lines` (at least two)
/// gives: the first refusal that its checks find, or its declarations and
/// the words of its return line.
pub open spec fn dasc_result(lines: Seq<Seq<char>>, r: Result<Option<Dasc>, DascError>) -> bool {
    if percent_lines(lines).len() > 0 {
        r matches Err(DascError::InvalidSyntax(l)) && l@ == percent_lines(lines)[0]
    } else if lines.last() != "#dasc_end"@ {
        r matches Err(DascError::Unterminated)
    } else if find_from(lines[lines.len() - 2], "<-"@, 0) is Some {
        r matches Err(DascError::NoReturn)
    } else {
        r matches Ok(Some(d)) && string_pairs(d.decl@) == decl_pairs(lines.take(lines.len() - 2))
            && strings_view(d.expr@) == words_of(lines[lines.len() - 2]).reverse()
    }
}

impl Dasc {
    /// Reads the counting code of a program: none when it has no
    /// `#dasc_start`; a refusal when a line holds a `%`, when it does not end
    /// with `#dasc_end`, or when the line before is a declaration.
    pub fn new(src: String) -> (r: Result<Option<Dasc>, DascError>)
        requires
            dasc_readable(src@),
        ensures
            dasc_code(src@) is None ==> r matches Ok(None),
            dasc_code(src@) matches Some(code) ==> dasc_result(code_lines(code), r),
    {
        let v = str_chars(src.as_str());
        let start = str_chars("#dasc_start");
        let i = match find_chars(v.as_slice(), start.as_slice(), 0) {
            Some(i) => i,
            None => {
                return Ok(None);
            },
        };
        let vl = v.len();
        let rest = sub_chars(v.as_slice(), i + start.len(), vl);
        assert(rest@ =~= v@.skip(i + start@.len()));
        let code = first_piece_of(rest.as_slice(), start.as_slice());
        assert(dasc_code(src@) == Some(code@));
        let ghost lines_spec = code_lines(code@);
        let pieces = split_lines(code.as_slice());
        let ghost split = split_char(code@, '\n');
        let ghost trimmed = split.map_values(|l: Seq<char>| trim(l));
        let ghost keep = |l: Seq<char>| l.len() > 0 && l[0] != '%';
        let mut ls: Vec<Vec<char>> = Vec::new();
        let mut k: usize = 0;
        while k < pieces.len()
            invariant
                k <= pieces@.len(),
                char_vecs(pieces@) == split,
                trimmed == split.map_values(|l: Seq<char>| trim(l)),
                keep == (|l: Seq<char>| l.len() > 0 && l[0] != '%'),
                char_vecs(ls@) == trimmed.subrange(0, k as int).filter(keep),
            decreases pieces@.len() - k,
        {
            let t = trim_chars(pieces[k].as_slice());
            proof {
                assert(split[k as int] == pieces@[k as int]@);
                assert(trimmed[k as int] == t@);
                assert(trimmed.subrange(0, k + 1) =~= trimmed.subrange(0, k as int).push(t@));
                crate::navigator::lemma_filter_push(trimmed.subrange(0, k as int), t@, keep);
            }
            if t.len() > 0 && t[0] != '%' {
                ls.push(t);
                assert(char_vecs(ls@) =~= char_vecs(ls@.drop_last()).push(t@));
            }
            k = k + 1;
        }
        proof {
            assert(trimmed.subrange(0, pieces@.len() as int) =~= trimmed);
            assert(char_vecs(ls@) == lines_spec);
        }
        let ghost lines = char_vecs(ls@);
        let n = ls.len();
        // a line with a `%` is refused
        let ghost pct = |l: Seq<char>| l.contains('%');
        let mut j: usize = 0;
        while j < n
            invariant
                j <= n,
                n == ls@.len(),
                lines == char_vecs(ls@),
                pct == (|l: Seq<char>| l.contains('%')),
                lines.take(j as int).filter(pct).len() == 0,
                dasc_code(src@) == Some(code@),
                lines == code_lines(code@),
            decreases n - j,
        {
            proof {
                assert(lines[j as int] == ls@[j as int]@);
                assert(lines.take(j + 1) =~= lines.take(j as int).push(lines[j as int]));
                crate::navigator::lemma_filter_push(lines.take(j as int), lines[j as int], pct);
            }
            if chars_contain(ls[j].as_slice(), '%') {
                proof {
                    assert(lines =~= lines.take(j + 1) + lines.skip(j + 1));
                    Seq::filter_distributes_over_add(lines.take(j + 1), lines.skip(j + 1), pct);
                    assert(lines.take(j as int).filter(pct) =~= Seq::<Seq<char>>::empty());
                    assert(lines.take(j + 1).filter(pct) =~= seq![lines[j as int]]);
                    assert(percent_lines(lines) == lines.filter(pct));
                }
                return Err(DascError::InvalidSyntax(crate::text::chars_to_string(ls[j].as_slice())));
            }
            j = j + 1;
        }
        proof {
            assert(lines.take(n as int) =~= lines);
            assert(percent_lines(lines) == lines.filter(pct));
        }
        let end = str_chars("#dasc_end");
        proof {
            assert(lines[n - 1] == ls@[n - 1]@);
            assert(lines.last() == lines[n - 1]);
        }
        if !crate::text::chars_eq(ls[n - 1].as_slice(), end.as_slice()) {
            return Err(DascError::Unterminated);
        }
        let arrow = str_chars("<-");
        proof {
            assert(lines[n - 2] == ls@[n - 2]@);
        }
        if find_chars(ls[n - 2].as_slice(), arrow.as_slice(), 0).is_some() {
            return Err(DascError::NoReturn);
        }
        // declarations
        let sep = str_chars(" <- ");
        let mut decl: Vec<(String, String)> = Vec::new();
        let mut k: usize = 0;
        while k < n - 2
            invariant
                k <= n - 2,
                n == ls@.len(),
                n >= 2,
                lines == char_vecs(ls@),
                sep@ == " <- "@,
                lines_pass(lines),
                forall|q: int| 0 <= q < lines.len() - 2 ==> second_piece(#[trigger] lines[q], " <- "@) is Some,
                string_pairs(decl@) == decl_pairs(lines.take(k as int)),
            decreases n - 2 - k,
        {
            let line = ls[k].as_slice();
            proof {
                assert(lines[k as int] == ls@[k as int]@);
                assert(second_piece(lines[k as int], " <- "@) is Some);
            }
            let p = match find_chars(line, sep.as_slice(), 0) {
                Some(p) => p,
                None => 0,
            };
            let name_chars = trim_chars(sub_chars(line, 0, p).as_slice());
            let ll = line.len();
            let rest = sub_chars(line, p + sep.len(), ll);
            let value_chars = trim_chars(first_piece_of(rest.as_slice(), sep.as_slice()).as_slice());
            proof {
                assert(line@.take(p as int) =~= line@.subrange(0, p as int));
                assert(rest@ =~= line@.skip(p + sep@.len()));
                assert(name_chars@ == decl_name(lines[k as int]));
                assert(value_chars@ == decl_value(lines[k as int]));
            }
            let name = crate::text::chars_to_string(name_chars.as_slice());
            let value = crate::text::chars_to_string(value_chars.as_slice());
            let ghost old_decl = decl@;
            decl.push((name, value));
            proof {
                assert(lines.take(k + 1) =~= lines.take(k as int).push(lines[k as int]));
                assert(string_pairs(decl@) =~= string_pairs(old_decl).push((name_chars@, value_chars@)));
                assert(decl_pairs(lines.take(k as int).push(lines[k as int])) =~= decl_pairs(
                    lines.take(k as int),
                ).push((decl_name(lines[k as int]), decl_value(lines[k as int]))));
                assert(string_pairs(decl@) =~= decl_pairs(lines.take(k + 1)));
            }
            k = k + 1;
        }
        // the return line, last word first
        let ws = words(ls[n - 2].as_slice());
        let mut expr: Vec<String> = Vec::new();
        let mut m: usize = ws.len();
        while m > 0
            invariant
                m <= ws@.len(),
                strings_view(expr@) == strings_view(ws@).reverse().take((ws@.len() - m) as int),
            decreases m,
        {
            let t = crate::text::copy_string(&ws[m - 1]);
            expr.push(t);
            proof {
                let rv = strings_view(ws@).reverse();
                assert(rv[(ws@.len() - m) as int] == strings_view(ws@)[m - 1]);
                assert(strings_view(ws@)[m - 1] == ws@[m - 1]@);
                assert(rv.take((ws@.len() - m + 1) as int) =~= rv.take((ws@.len() - m) as int).push(t@));
                assert(strings_view(expr@) =~= strings_view(expr@.drop_last()).push(t@));
            }
            m = m - 1;
        }
        assert(strings_view(ws@).reverse().take(ws@.len() as int) =~= strings_view(ws@).reverse());
        Ok(Some(Dasc { decl, expr }))
    }
}

impl Dasc {
    /// The expression declared for `name`, if any (the last declaration of
    /// it).
    pub fn declaration(&self, name: &str) -> (r: Option<String>)
        ensures
            r is Some <==> self.declarations().contains_key(name@),
            r matches Some(v) ==> v@ == self.declarations()[name@],
    {
        let ghost sp = string_pairs(self.decl@);
        let mut i: usize = self.decl.len();
        assert(sp.take(i as int) =~= sp);
        while i > 0
            invariant
                i <= self.decl@.len(),
                sp == string_pairs(self.decl@),
                pairs_map(sp).contains_key(name@) == pairs_map(sp.take(i as int)).contains_key(name@),
                pairs_map(sp).contains_key(name@) ==> pairs_map(sp)[name@] == pairs_map(
                    sp.take(i as int),
                )[name@],
            decreases i,
        {
            proof {
                assert(sp.take(i as int).drop_last() =~= sp.take(i - 1));
                assert(sp.take(i as int).last() == (self.decl@[i - 1].0@, self.decl@[i - 1].1@));
            }
            if crate::text::str_eq(self.decl[i - 1].0.as_str(), name) {
                return Some(crate::text::copy_string(&self.decl[i - 1].1));
            }
            i = i - 1;
        }
        assert(sp.take(0) =~= Seq::<(Seq<char>, Seq<char>)>::empty());
        None
    }
}

} // verus!
