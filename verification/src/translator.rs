//! Reading atoms written by the user, such as `set_obj_cell(1,1)`, `-a`,
//! `p("x",c,-3)`, into symbols.
//!
//! An atom is a name, optionally followed by arguments in round brackets,
//! separated by commas. A name is an identifier: underscores, then a
//! lower-case letter, then letters, digits, underscores and primes. An
//! argument is an integer (an optional `-` and decimal digits), a string in
//! double quotes (without double quotes inside) or a constant (an optional
//! `-` and an identifier), possibly after white space; that white space stays
//! part of the argument's text, so `p(1, 2)` reads as `p` of the number 1 and
//! the constant ` 2`, not as `p(1,2)`.
use vstd::prelude::*;

use crate::symbol::{args_view, Symbol, SymbolView};
use crate::text::{
    all_digits, chars_to_string, is_white_space, leading_ws, parse_i32, parse_i32_spec,
    subrange_to_string, str_chars, trim, trim_chars,
};

verus! {

/// Whether `c` is a lower-case ASCII letter.
pub open spec fn is_lower(c: char) -> bool {
    'a' <= c <= 'z'
}

/// Whether `c` may follow the first letter of an identifier.
pub open spec fn is_ident_char(c: char) -> bool {
    ('a' <= c <= 'z') || ('A' <= c <= 'Z') || ('0' <= c <= '9') || c == '_' || c == '\''
}

/// Number of leading underscores of `s`.
pub open spec fn leading_underscores(s: Seq<char>) -> nat
    decreases s.len(),
{
    if s.len() > 0 && s[0] == '_' {
        1 + leading_underscores(s.drop_first())
    } else {
        0
    }
}

/// Whether `s` is an identifier: underscores, a lower-case letter, then
/// letters, digits, underscores and primes.
pub open spec fn is_identifier(s: Seq<char>) -> bool {
    let k = leading_underscores(s);
    k < s.len() && is_lower(s[k as int]) && forall|j: int|
        k < j < s.len() ==> is_ident_char(#[trigger] s[j])
}

/// Whether `s` is a string constant: text without double quotes between two
/// double quotes.
pub open spec fn is_quoted(s: Seq<char>) -> bool {
    s.len() >= 2 && s[0] == '"' && s.last() == '"' && forall|j: int|
        0 < j < s.len() - 1 ==> #[trigger] s[j] != '"'
}

/// `s` without a leading `-`.
pub open spec fn unsigned_part(s: Seq<char>) -> Seq<char> {
    if s.len() > 0 && s[0] == '-' {
        s.drop_first()
    } else {
        s
    }
}

/// Whether `s` is an argument of an atom: an integer, a string constant or a
/// constant, integers and constants with an optional `-`.
pub open spec fn is_term(s: Seq<char>) -> bool {
    all_digits(unsigned_part(s)) || is_quoted(s) || is_identifier(unsigned_part(s))
}

/// Whether `s` is an argument of an atom: a term after white space.
pub open spec fn is_arg(s: Seq<char>) -> bool {
    is_term(s.skip(leading_ws(s) as int))
}

/// The pieces of `s` between its commas.
pub open spec fn split_commas(s: Seq<char>) -> Seq<Seq<char>>
    decreases s.len(),
{
    if s.len() == 0 {
        seq![Seq::empty()]
    } else if s.last() == ',' {
        split_commas(s.drop_last()).push(Seq::empty())
    } else {
        let r = split_commas(s.drop_last());
        r.update(r.len() - 1, r.last().push(s.last()))
    }
}

/// Position of the first `(` of `s`, or its length when it has none.
pub open spec fn first_paren(s: Seq<char>) -> nat
    decreases s.len(),
{
    if s.len() == 0 {
        0
    } else if s[0] == '(' {
        0
    } else {
        1 + first_paren(s.drop_first())
    }
}

/// The name and the argument texts of an atom text, when it is one.
pub open spec fn atom_parts(e: Seq<char>) -> Option<(Seq<char>, Seq<Seq<char>>)> {
    let p = first_paren(e);
    if p == e.len() {
        if is_identifier(e) {
            Some((e, Seq::empty()))
        } else {
            None
        }
    } else {
        let name = e.subrange(0, p as int);
        let inner = e.subrange(p as int + 1, e.len() - 1);
        let args = split_commas(inner);
        if e.len() >= p as int + 2 && e.last() == ')' && is_identifier(name) && forall|i: int|
            0 <= i < args.len() ==> is_arg(#[trigger] args[i]) {
            Some((name, args))
        } else {
            None
        }
    }
}

/// Number of `(` and `,` in `s`.
pub open spec fn separators(s: Seq<char>) -> nat
    decreases s.len(),
{
    if s.len() == 0 {
        0
    } else {
        separators(s.drop_last()) + if s.last() == '(' || s.last() == ',' {
            1nat
        } else {
            0nat
        }
    }
}

/// The symbol an argument text stands for: a number, when what follows an
/// optional `-` reads as an `i32` (then negated by the `-`); a string
/// constant, when it starts with a double quote; otherwise the constant of
/// that name, negated by a leading `-`.
pub open spec fn arg_symbol(t: Seq<char>) -> SymbolView {
    let positive = !(t.len() > 0 && t[0] == '-');
    let s = if positive {
        t
    } else {
        t.drop_first()
    };
    match parse_i32_spec(s) {
        Some(v) => SymbolView::Number(if positive {
            v as int
        } else {
            0 - v
        }),
        None => if s.len() > 0 && s[0] == '"' {
            SymbolView::Str(s.subrange(1, s.len() - 1))
        } else {
            SymbolView::Function(s, Seq::empty(), positive)
        },
    }
}

/// Whether the text starts, after white space, with one of `prefixes`.
pub open spec fn has_prefix(text: Seq<char>, prefixes: Seq<char>) -> bool {
    trim(text).len() > 0 && prefixes.contains(trim(text)[0])
}

/// What an atom text stands for. The text is read without surrounding white
/// space; a leading character of `prefixes` (as `~`) makes the atom negated.
/// The text must hold exactly one `(` or `,` per argument.
pub open spec fn parse_atom(text: Seq<char>, prefixes: Seq<char>) -> Option<SymbolView> {
    let positive = !has_prefix(text, prefixes);
    let e = if positive {
        trim(text)
    } else {
        trim(text).drop_first()
    };
    match atom_parts(e) {
        Some((name, args)) => if args.len() != separators(text) {
            None
        } else if args.len() == 0 {
            Some(SymbolView::Function(name, Seq::empty(), positive))
        } else {
            Some(SymbolView::Function(name, args.map_values(|a: Seq<char>| arg_symbol(a)), positive))
        },
        None => None,
    }
}

/// Text that is meant to name an atom.
#[derive(Debug, Clone)]
pub struct Atom<'a>(pub &'a str);

fn is_lower_char(c: char) -> (r: bool)
    ensures
        r == is_lower(c),
{
    'a' <= c && c <= 'z'
}

fn ident_char(c: char) -> (r: bool)
    ensures
        r == is_ident_char(c),
{
    ('a' <= c && c <= 'z') || ('A' <= c && c <= 'Z') || ('0' <= c && c <= '9') || c == '_' || c
        == '\''
}

proof fn lemma_leading_underscores(s: Seq<char>, i: int)
    requires
        0 <= i <= s.len(),
        forall|j: int| 0 <= j < i ==> #[trigger] s[j] == '_',
        i == s.len() || s[i] != '_',
    ensures
        leading_underscores(s) == i,
    decreases i,
{
    if i > 0 {
        lemma_leading_underscores(s.drop_first(), i - 1);
    }
}

/// Whether `s[from..to]` is an identifier.
#[verifier::loop_isolation(false)]
fn identifier(s: &[char], from: usize, to: usize) -> (r: bool)
    requires
        from <= to <= s@.len(),
    ensures
        r == is_identifier(s@.subrange(from as int, to as int)),
{
    let ghost t = s@.subrange(from as int, to as int);
    let mut i = from;
    while i < to && s[i] == '_'
        invariant
            from <= i <= to,
            forall|j: int| 0 <= j < i - from ==> #[trigger] t[j] == '_',
        decreases to - i,
    {
        i = i + 1;
    }
    proof {
        lemma_leading_underscores(t, i - from);
    }
    if i == to || !is_lower_char(s[i]) {
        return false;
    }
    let mut j = i + 1;
    while j < to
        invariant
            i < j <= to,
            forall|k: int| (i - from) < k < (j - from) ==> is_ident_char(#[trigger] t[k]),
        decreases to - j,
    {
        if !ident_char(s[j]) {
            assert(t[j - from] == s@[j as int]);
            return false;
        }
        j = j + 1;
    }
    true
}

/// Whether `s[from..to]` is a run of decimal digits.
fn digits(s: &[char], from: usize, to: usize) -> (r: bool)
    requires
        from <= to <= s@.len(),
    ensures
        r == all_digits(s@.subrange(from as int, to as int)),
{
    if from == to {
        return false;
    }
    let mut i = from;
    while i < to
        invariant
            from <= i <= to <= s@.len(),
            forall|j: int| from <= j < i ==> crate::text::is_digit(#[trigger] s@[j]),
        decreases to - i,
    {
        if !('0' <= s[i] && s[i] <= '9') {
            assert(s@.subrange(from as int, to as int)[i - from] == s@[i as int]);
            return false;
        }
        i = i + 1;
    }
    assert forall|j: int| 0 <= j < to - from implies crate::text::is_digit(
        #[trigger] s@.subrange(from as int, to as int)[j],
    ) by {
        assert(s@.subrange(from as int, to as int)[j] == s@[from + j]);
    }
    true
}

/// Whether `s[from..to]` is an argument of an atom.
#[verifier::loop_isolation(false)]
fn term(s: &[char], from: usize, to: usize) -> (r: bool)
    requires
        from <= to <= s@.len(),
    ensures
        r == is_term(s@.subrange(from as int, to as int)),
{
    let ghost t = s@.subrange(from as int, to as int);
    let start = if from < to && s[from] == '-' {
        from + 1
    } else {
        from
    };
    assert(unsigned_part(t) =~= s@.subrange(start as int, to as int));
    if digits(s, start, to) {
        return true;
    }
    if identifier(s, start, to) {
        return true;
    }
    // a string constant
    if to - from < 2 || s[from] != '"' || s[to - 1] != '"' {
        return false;
    }
    let mut i = from + 1;
    while i < to - 1
        invariant
            from < i <= to - 1,
            forall|j: int| from < j < i ==> #[trigger] s@[j] != '"',
        decreases to - i,
    {
        if s[i] == '"' {
            assert(t[i - from] == '"');
            return false;
        }
        i = i + 1;
    }
    assert forall|j: int| 0 < j < t.len() - 1 implies #[trigger] t[j] != '"' by {
        assert(t[j] == s@[from + j]);
    }
    true
}

/// Whether `s[from..to]` is an argument of an atom: a term after white
/// space.
fn arg(s: &[char], from: usize, to: usize) -> (r: bool)
    requires
        from <= to <= s@.len(),
    ensures
        r == is_arg(s@.subrange(from as int, to as int)),
{
    let ghost t = s@.subrange(from as int, to as int);
    let mut i = from;
    while i < to && crate::text::white_space(s[i])
        invariant
            from <= i <= to <= s@.len(),
            t == s@.subrange(from as int, to as int),
            forall|j: int| 0 <= j < i - from ==> is_white_space(#[trigger] t[j]),
        decreases to - i,
    {
        assert(t[i - from] == s@[i as int]);
        i = i + 1;
    }
    proof {
        if i < to {
            assert(t[i - from] == s@[i as int]);
        }
        crate::text::lemma_leading_ws(t, i - from);
        assert(t.skip(i - from) =~= s@.subrange(i as int, to as int));
    }
    term(s, i, to)
}

/// The symbol an argument text `s[from..to]` stands for.
fn arg_to_symbol(s: &[char], from: usize, to: usize) -> (r: Symbol)
    requires
        from <= to <= s@.len(),
        is_arg(s@.subrange(from as int, to as int)),
    ensures
        r@ == arg_symbol(s@.subrange(from as int, to as int)),
{
    let ghost t = s@.subrange(from as int, to as int);
    proof {
        // an argument that starts with no white space is a term
        if t.len() > 0 && !is_white_space(t[0]) {
            assert(leading_ws(t) == 0);
            assert(t.skip(0) =~= t);
        }
    }
    let positive = !(from < to && s[from] == '-');
    let start = if positive {
        from
    } else {
        from + 1
    };
    let v: Vec<char> = crate::text::str_chars(subrange_to_string(s, start, to).as_str());
    assert(v@ =~= if positive { t } else { t.drop_first() });
    match parse_i32(v.as_slice(), 0) {
        Some(n) => {
            assert(v@.skip(0) =~= v@);
            if positive {
                Symbol::Number(n)
            } else {
                // the digits hold no sign, so the number is not negative
                proof {
                    lemma_unsigned_parse_nonneg(v@);
                }
                Symbol::Number(0 - n)
            }
        },
        None => {
            assert(v@.skip(0) =~= v@);
            if v.len() > 0 && v[0] == '"' {
                // a string constant: the grammar puts a closing quote after the opening one
                proof {
                    if positive {
                        assert(t == v@);
                        if !is_quoted(t) {
                            assert(all_digits(unsigned_part(t)) || is_identifier(unsigned_part(t)));
                            assert(unsigned_part(t) == t);
                            assert(!crate::text::is_digit(t[0]));
                            assert(!is_lower(t[0]) && t[0] != '_');
                            assert(leading_underscores(t) == 0);
                        }
                    } else {
                        assert(unsigned_part(t) == v@);
                        assert(!is_quoted(t));
                        assert(!crate::text::is_digit(v@[0]));
                        assert(leading_underscores(v@) == 0);
                    }
                }
                let inner = subrange_to_string(v.as_slice(), 1, v.len() - 1);
                Symbol::Str(inner)
            } else {
                let name = chars_to_string(v.as_slice());
                let args: Vec<Symbol> = Vec::new();
                assert(args_view(args@) =~= Seq::<SymbolView>::empty());
                Symbol::Function(name, args, positive)
            }
        },
    }
}

/// A decimal number without a sign is not negative.
proof fn lemma_unsigned_parse_nonneg(v: Seq<char>)
    requires
        parse_i32_spec(v) is Some,
        !(v.len() > 0 && v[0] == '-'),
    ensures
        parse_i32_spec(v)->0 >= 0,
{
}

proof fn lemma_split_commas_push(s: Seq<char>, c: char)
    ensures
        split_commas(s.push(c)) == if c == ',' {
            split_commas(s).push(Seq::empty())
        } else {
            split_commas(s).update(
                split_commas(s).len() - 1,
                split_commas(s).last().push(c),
            )
        },
{
    assert(s.push(c).drop_last() =~= s);
}

proof fn lemma_split_commas_nonempty(s: Seq<char>)
    ensures
        split_commas(s).len() >= 1,
    decreases s.len(),
{
    if s.len() > 0 {
        lemma_split_commas_nonempty(s.drop_last());
    }
}

proof fn lemma_separators_push(s: Seq<char>, c: char)
    ensures
        separators(s.push(c)) == separators(s) + if c == '(' || c == ',' {
            1nat
        } else {
            0nat
        },
{
    assert(s.push(c).drop_last() =~= s);
}

/// The pieces between the commas of `s[from..to]`, as `(start, end)` bounds.
fn comma_pieces(s: &[char], from: usize, to: usize) -> (r: Vec<(usize, usize)>)
    requires
        from <= to <= s@.len(),
    ensures
        r@.len() == split_commas(s@.subrange(from as int, to as int)).len(),
        forall|i: int|
            0 <= i < r@.len() ==> from <= (#[trigger] r@[i]).0 <= r@[i].1 <= to && s@.subrange(
                r@[i].0 as int,
                r@[i].1 as int,
            ) == split_commas(s@.subrange(from as int, to as int))[i],
{
    let mut r: Vec<(usize, usize)> = Vec::new();
    let mut start = from;
    let mut i = from;
    proof {
        assert(s@.subrange(from as int, from as int) =~= Seq::<char>::empty());
    }
    while i < to
        invariant
            from <= start <= i <= to <= s@.len(),
            r@.len() + 1 == split_commas(s@.subrange(from as int, i as int)).len(),
            forall|k: int|
                0 <= k < r@.len() ==> from <= (#[trigger] r@[k]).0 <= r@[k].1 <= i && s@.subrange(
                    r@[k].0 as int,
                    r@[k].1 as int,
                ) == split_commas(s@.subrange(from as int, i as int))[k],
            s@.subrange(start as int, i as int) == split_commas(
                s@.subrange(from as int, i as int),
            ).last(),
        decreases to - i,
    {
        let ghost before = s@.subrange(from as int, i as int);
        proof {
            assert(s@.subrange(from as int, i + 1) =~= before.push(s@[i as int]));
            lemma_split_commas_push(before, s@[i as int]);
            lemma_split_commas_nonempty(before);
        }
        if s[i] == ',' {
            r.push((start, i));
            start = i + 1;
            assert(s@.subrange(start as int, i + 1) =~= Seq::<char>::empty());
        } else {
            assert(s@.subrange(start as int, i + 1) =~= s@.subrange(start as int, i as int).push(
                s@[i as int],
            ));
        }
        i = i + 1;
    }
    r.push((start, to));
    r
}

impl<'a> Atom<'a> {
    /// The symbol that the text names, if it is an atom; a leading character
    /// of `prefixes` (after white space) negates it.
    #[verifier::loop_isolation(false)]
    pub fn parse(&self, prefixes: &[char]) -> (r: Option<Symbol>)
        requires
            has_prefix(self.0@, prefixes@) ==> (trim(self.0@)[0] as u32) < 0x80,
        ensures
            match r {
                Some(sym) => parse_atom(self.0@, prefixes@) == Some(sym@),
                None => parse_atom(self.0@, prefixes@) is None,
            },
    {
        let raw = str_chars(self.0);
        let t = trim_chars(raw.as_slice());
        let positive = !(t.len() > 0 && crate::text::chars_contain(prefixes, t[0]));
        let from: usize = if positive {
            0
        } else {
            1
        };
        let ghost e = t@.subrange(from as int, t@.len() as int);
        assert(e =~= if positive { trim(self.0@) } else { trim(self.0@).drop_first() });
        let n_sep = count_separators(raw.as_slice());
        // position of the first `(`
        let mut p = from;
        while p < t.len() && t[p] != '('
            invariant
                from <= p <= t@.len(),
                e == t@.subrange(from as int, t@.len() as int),
                forall|j: int| from <= j < p ==> #[trigger] t@[j] != '(',
            decreases t@.len() - p,
        {
            p = p + 1;
        }
        proof {
            lemma_first_paren(e, p - from);
        }
        if p == t.len() {
            // a name without arguments
            if !identifier(t.as_slice(), from, t.len()) {
                return None;
            }
            if n_sep != 0 {
                return None;
            }
            let name = subrange_to_string(t.as_slice(), from, t.len());
            let args: Vec<Symbol> = Vec::new();
            assert(args_view(args@) =~= Seq::<SymbolView>::empty());
            return Some(Symbol::Function(name, args, positive));
        }
        // `name(arg,...,arg)`
        if t.len() - p < 2 || t[t.len() - 1] != ')' || !identifier(t.as_slice(), from, p) {
            proof {
                if t@.len() >= p + 2 {
                    assert(e.last() == t@[t@.len() - 1]);
                    assert(e.subrange(0, (p - from) as int) =~= t@.subrange(from as int, p as int));
                }
            }
            return None;
        }
        proof {
            assert(e.subrange(0, (p - from) as int) =~= t@.subrange(from as int, p as int));
            assert(e.subrange((p - from) + 1, e.len() - 1) =~= t@.subrange(p + 1, t@.len() - 1));
        }
        let ghost inner = t@.subrange(p + 1, t@.len() - 1);
        let pieces = comma_pieces(t.as_slice(), p + 1, t.len() - 1);
        let mut k: usize = 0;
        while k < pieces.len()
            invariant
                k <= pieces@.len(),
                pieces@.len() == split_commas(inner).len(),
                inner == t@.subrange(p + 1, t@.len() - 1),
                forall|i: int|
                    0 <= i < pieces@.len() ==> (#[trigger] pieces@[i]).0 <= pieces@[i].1
                        <= t@.len() && t@.subrange(pieces@[i].0 as int, pieces@[i].1 as int)
                        == split_commas(inner)[i],
                forall|i: int| 0 <= i < k ==> is_arg(#[trigger] split_commas(inner)[i]),
            decreases pieces@.len() - k,
        {
            let (a, b) = pieces[k];
            if !arg(t.as_slice(), a, b) {
                return None;
            }
            k = k + 1;
        }
        if pieces.len() != n_sep {
            return None;
        }
        let name = subrange_to_string(t.as_slice(), from, p);
        let mut args: Vec<Symbol> = Vec::new();
        let mut k: usize = 0;
        while k < pieces.len()
            invariant
                k <= pieces@.len(),
                pieces@.len() == split_commas(inner).len(),
                forall|i: int|
                    0 <= i < pieces@.len() ==> (#[trigger] pieces@[i]).0 <= pieces@[i].1
                        <= t@.len() && t@.subrange(pieces@[i].0 as int, pieces@[i].1 as int)
                        == split_commas(inner)[i],
                forall|i: int| 0 <= i < pieces@.len() ==> is_arg(#[trigger] split_commas(inner)[i]),
                args@.len() == k,
                forall|i: int|
                    0 <= i < k ==> (#[trigger] args@[i])@ == arg_symbol(split_commas(inner)[i]),
            decreases pieces@.len() - k,
        {
            let (a, b) = pieces[k];
            args.push(arg_to_symbol(t.as_slice(), a, b));
            k = k + 1;
        }
        proof {
            lemma_split_commas_nonempty(inner);
            assert(args_view(args@) =~= split_commas(inner).map_values(
                |x: Seq<char>| arg_symbol(x),
            ));
        }
        Some(Symbol::Function(name, args, positive))
    }
}

proof fn lemma_first_paren(e: Seq<char>, q: int)
    requires
        0 <= q <= e.len(),
        forall|j: int| 0 <= j < q ==> #[trigger] e[j] != '(',
        q == e.len() || e[q] == '(',
    ensures
        first_paren(e) == q,
    decreases q,
{
    if q > 0 {
        lemma_first_paren(e.drop_first(), q - 1);
    }
}

/// Number of `(` and `,` among `s`.
fn count_separators(s: &[char]) -> (r: usize)
    ensures
        r == separators(s@),
{
    let mut n: usize = 0;
    let mut i: usize = 0;
    while i < s.len()
        invariant
            i <= s@.len(),
            n == separators(s@.subrange(0, i as int)),
            n <= i,
        decreases s@.len() - i,
    {
        proof {
            assert(s@.subrange(0, i + 1) =~= s@.subrange(0, i as int).push(s@[i as int]));
            lemma_separators_push(s@.subrange(0, i as int), s@[i as int]);
        }
        if s[i] == '(' || s[i] == ',' {
            n = n + 1;
        }
        i = i + 1;
    }
    assert(s@.subrange(0, s@.len() as int) =~= s@);
    n
}

} // verus!
