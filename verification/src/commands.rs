//! The words of the command line and of the interactive prompt: navigation
//! modes and their weights, the number of answer sets to show, and the
//! facet lists and routes that commands and queries name.
use vstd::prelude::*;

use crate::navigator::{Mode, Weight};
use crate::text::{
    char_index_of_byte, decimal, is_char_boundary, parse_u8, parse_u8_spec, parse_usize,
    parse_usize_spec, push_char, push_decimal, push_str, skip_bytes, str_chars, str_eq,
};
use crate::navigator::lemma_filter_push;
use crate::symbol::Symbol;
use crate::utils::{strings_view, text_symbol, Route, ToSymbol};

verus! {

/// The value of an optional word.
pub open spec fn word(a: Option<&str>) -> Option<Seq<char>> {
    match a {
        Some(s) => Some(s@),
        None => None,
    }
}

/// Whether the optional word `a` is `t`.
pub open spec fn is_word(a: Option<Seq<char>>, t: Seq<char>) -> bool {
    a == Some(t)
}

/// Whether `a` is `t` and no second word follows.
pub open spec fn alone(a: Option<Seq<char>>, b: Option<Seq<char>>, t: Seq<char>) -> bool {
    is_word(a, t) && b is None
}

/// Whether `a` is `s` and `b` is `t`.
pub open spec fn pair(a: Option<Seq<char>>, b: Option<Seq<char>>, s: Seq<char>, t: Seq<char>) -> bool {
    is_word(a, s) && is_word(b, t)
}

/// The mode that a word names, with the weight `w`: `--goal-oriented` (or
/// `--go`), `--strictly-goal-oriented` (or `--sgo`), `--explore` (or
/// `--expl`).
pub open spec fn mode_named(t: Seq<char>, w: Weight) -> Option<Mode> {
    if t == "--goal-oriented"@ || t == "--go"@ {
        Some(Mode::GoalOriented(w))
    } else if t == "--strictly-goal-oriented"@ || t == "--sgo"@ {
        Some(Mode::StrictlyGoalOriented(w))
    } else if t == "--explore"@ || t == "--expl"@ {
        Some(Mode::Explore(w))
    } else {
        None
    }
}

/// The weight that a word names: `--absolute` (or `--abs`),
/// `--facet-counting` (or `--fc`).
pub open spec fn weight_named(t: Seq<char>) -> Option<Weight> {
    if t == "--absolute"@ || t == "--abs"@ {
        Some(Weight::Absolute)
    } else if t == "--facet-counting"@ || t == "--fc"@ {
        Some(Weight::FacetCounting)
    } else {
        None
    }
}

/// The mode and weight that two words select. The long and the short
/// spelling of a mode or weight are the same; with no mode the mode is
/// goal-oriented, with no weight the weight is facet-counting. A mode word
/// followed by `--U` selects the information weight, and `--! kn` selects the
/// numbered mode `n` (the number after the first two bytes of the second
/// word).
pub open spec fn mode_of(a: Option<Seq<char>>, b: Option<Seq<char>>) -> Option<Mode> {
    match (a, b) {
        (None, None) => Some(Mode::GoalOriented(Weight::FacetCounting)),
        (Some(x), None) => match mode_named(x, Weight::FacetCounting) {
            Some(m) => Some(m),
            None => match weight_named(x) {
                Some(w) => Some(Mode::GoalOriented(w)),
                None => None,
            },
        },
        (Some(x), Some(y)) => if x == "--!"@ {
            match parse_u8_spec(skip_bytes(y, 2)) {
                Some(n) => Some(Mode::Io(n)),
                None => None,
            }
        } else if y == "--U"@ {
            mode_named(x, Weight::Information)
        } else {
            match weight_named(y) {
                Some(w) => mode_named(x, w),
                None => None,
            }
        },
        (None, Some(_)) => None,
    }
}

/// Each documented spelling of a mode names that mode, and of a weight that
/// weight; no word names both a mode and a weight.
pub proof fn lemma_mode_spellings(w: Weight)
    ensures
        mode_named("--goal-oriented"@, w) == Some(Mode::GoalOriented(w)),
        weight_named("--goal-oriented"@) is None,
        mode_named("--go"@, w) == Some(Mode::GoalOriented(w)),
        weight_named("--go"@) is None,
        mode_named("--strictly-goal-oriented"@, w) == Some(Mode::StrictlyGoalOriented(w)),
        weight_named("--strictly-goal-oriented"@) is None,
        mode_named("--sgo"@, w) == Some(Mode::StrictlyGoalOriented(w)),
        weight_named("--sgo"@) is None,
        mode_named("--explore"@, w) == Some(Mode::Explore(w)),
        weight_named("--explore"@) is None,
        mode_named("--expl"@, w) == Some(Mode::Explore(w)),
        weight_named("--expl"@) is None,
        weight_named("--absolute"@) == Some(Weight::Absolute),
        mode_named("--absolute"@, w) is None,
        weight_named("--abs"@) == Some(Weight::Absolute),
        mode_named("--abs"@, w) is None,
        weight_named("--facet-counting"@) == Some(Weight::FacetCounting),
        mode_named("--facet-counting"@, w) is None,
        weight_named("--fc"@) == Some(Weight::FacetCounting),
        mode_named("--fc"@, w) is None,
{
    reveal_strlit("--goal-oriented");
    reveal_strlit("--go");
    reveal_strlit("--strictly-goal-oriented");
    reveal_strlit("--sgo");
    reveal_strlit("--explore");
    reveal_strlit("--expl");
    reveal_strlit("--absolute");
    reveal_strlit("--abs");
    reveal_strlit("--facet-counting");
    reveal_strlit("--fc");
    lemma_lengths_differ("--goal-oriented"@, "--go"@);
    lemma_lengths_differ("--goal-oriented"@, "--strictly-goal-oriented"@);
    lemma_lengths_differ("--goal-oriented"@, "--sgo"@);
    lemma_lengths_differ("--goal-oriented"@, "--explore"@);
    lemma_lengths_differ("--goal-oriented"@, "--expl"@);
    lemma_lengths_differ("--goal-oriented"@, "--absolute"@);
    lemma_lengths_differ("--goal-oriented"@, "--abs"@);
    lemma_lengths_differ("--goal-oriented"@, "--facet-counting"@);
    lemma_lengths_differ("--goal-oriented"@, "--fc"@);
    lemma_lengths_differ("--go"@, "--goal-oriented"@);
    lemma_lengths_differ("--go"@, "--strictly-goal-oriented"@);
    lemma_lengths_differ("--go"@, "--sgo"@);
    lemma_lengths_differ("--go"@, "--explore"@);
    lemma_lengths_differ("--go"@, "--expl"@);
    lemma_lengths_differ("--go"@, "--absolute"@);
    lemma_lengths_differ("--go"@, "--abs"@);
    lemma_lengths_differ("--go"@, "--facet-counting"@);
    lemma_chars_differ("--go"@, "--fc"@, 2);
    lemma_lengths_differ("--strictly-goal-oriented"@, "--goal-oriented"@);
    lemma_lengths_differ("--strictly-goal-oriented"@, "--go"@);
    lemma_lengths_differ("--strictly-goal-oriented"@, "--sgo"@);
    lemma_lengths_differ("--strictly-goal-oriented"@, "--explore"@);
    lemma_lengths_differ("--strictly-goal-oriented"@, "--expl"@);
    lemma_lengths_differ("--strictly-goal-oriented"@, "--absolute"@);
    lemma_lengths_differ("--strictly-goal-oriented"@, "--abs"@);
    lemma_lengths_differ("--strictly-goal-oriented"@, "--facet-counting"@);
    lemma_lengths_differ("--strictly-goal-oriented"@, "--fc"@);
    lemma_lengths_differ("--sgo"@, "--goal-oriented"@);
    lemma_lengths_differ("--sgo"@, "--go"@);
    lemma_lengths_differ("--sgo"@, "--strictly-goal-oriented"@);
    lemma_lengths_differ("--sgo"@, "--explore"@);
    lemma_lengths_differ("--sgo"@, "--expl"@);
    lemma_lengths_differ("--sgo"@, "--absolute"@);
    lemma_chars_differ("--sgo"@, "--abs"@, 2);
    lemma_lengths_differ("--sgo"@, "--facet-counting"@);
    lemma_lengths_differ("--sgo"@, "--fc"@);
    lemma_lengths_differ("--explore"@, "--goal-oriented"@);
    lemma_lengths_differ("--explore"@, "--go"@);
    lemma_lengths_differ("--explore"@, "--strictly-goal-oriented"@);
    lemma_lengths_differ("--explore"@, "--sgo"@);
    lemma_lengths_differ("--explore"@, "--expl"@);
    lemma_lengths_differ("--explore"@, "--absolute"@);
    lemma_lengths_differ("--explore"@, "--abs"@);
    lemma_lengths_differ("--explore"@, "--facet-counting"@);
    lemma_lengths_differ("--explore"@, "--fc"@);
    lemma_lengths_differ("--expl"@, "--goal-oriented"@);
    lemma_lengths_differ("--expl"@, "--go"@);
    lemma_lengths_differ("--expl"@, "--strictly-goal-oriented"@);
    lemma_lengths_differ("--expl"@, "--sgo"@);
    lemma_lengths_differ("--expl"@, "--explore"@);
    lemma_lengths_differ("--expl"@, "--absolute"@);
    lemma_lengths_differ("--expl"@, "--abs"@);
    lemma_lengths_differ("--expl"@, "--facet-counting"@);
    lemma_lengths_differ("--expl"@, "--fc"@);
    lemma_lengths_differ("--absolute"@, "--goal-oriented"@);
    lemma_lengths_differ("--absolute"@, "--go"@);
    lemma_lengths_differ("--absolute"@, "--strictly-goal-oriented"@);
    lemma_lengths_differ("--absolute"@, "--sgo"@);
    lemma_lengths_differ("--absolute"@, "--explore"@);
    lemma_lengths_differ("--absolute"@, "--expl"@);
    lemma_lengths_differ("--absolute"@, "--abs"@);
    lemma_lengths_differ("--absolute"@, "--facet-counting"@);
    lemma_lengths_differ("--absolute"@, "--fc"@);
    lemma_lengths_differ("--abs"@, "--goal-oriented"@);
    lemma_lengths_differ("--abs"@, "--go"@);
    lemma_lengths_differ("--abs"@, "--strictly-goal-oriented"@);
    lemma_chars_differ("--abs"@, "--sgo"@, 2);
    lemma_lengths_differ("--abs"@, "--explore"@);
    lemma_lengths_differ("--abs"@, "--expl"@);
    lemma_lengths_differ("--abs"@, "--absolute"@);
    lemma_lengths_differ("--abs"@, "--facet-counting"@);
    lemma_lengths_differ("--abs"@, "--fc"@);
    lemma_lengths_differ("--facet-counting"@, "--goal-oriented"@);
    lemma_lengths_differ("--facet-counting"@, "--go"@);
    lemma_lengths_differ("--facet-counting"@, "--strictly-goal-oriented"@);
    lemma_lengths_differ("--facet-counting"@, "--sgo"@);
    lemma_lengths_differ("--facet-counting"@, "--explore"@);
    lemma_lengths_differ("--facet-counting"@, "--expl"@);
    lemma_lengths_differ("--facet-counting"@, "--absolute"@);
    lemma_lengths_differ("--facet-counting"@, "--abs"@);
    lemma_lengths_differ("--facet-counting"@, "--fc"@);
    lemma_lengths_differ("--fc"@, "--goal-oriented"@);
    lemma_chars_differ("--fc"@, "--go"@, 2);
    lemma_lengths_differ("--fc"@, "--strictly-goal-oriented"@);
    lemma_lengths_differ("--fc"@, "--sgo"@);
    lemma_lengths_differ("--fc"@, "--explore"@);
    lemma_lengths_differ("--fc"@, "--expl"@);
    lemma_lengths_differ("--fc"@, "--absolute"@);
    lemma_lengths_differ("--fc"@, "--abs"@);
    lemma_lengths_differ("--fc"@, "--facet-counting"@);
}

/// Whether the two words can be read: a numbered mode needs a number after
/// the first two bytes of its second word.
pub open spec fn mode_words_readable(a: Option<Seq<char>>, b: Option<Seq<char>>) -> bool {
    is_word(a, "--!"@) && b is Some ==> is_char_boundary(b->0, 2) && parse_u8_spec(
        skip_bytes(b->0, 2),
    ) is Some
}

/// Whether the optional word `a` is `t`.
fn word_is(a: Option<&str>, t: &str) -> (r: bool)
    ensures
        r == is_word(word(a), t@),
{
    match a {
        Some(s) => crate::text::str_eq(s, t),
        None => false,
    }
}

/// The mode that the word `t` names, with the weight `w`.
fn named_mode(t: &str, w: Weight) -> (r: Option<Mode>)
    ensures
        r == mode_named(t@, w),
{
    if str_eq(t, "--goal-oriented") || str_eq(t, "--go") {
        Some(Mode::GoalOriented(w))
    } else if str_eq(t, "--strictly-goal-oriented") || str_eq(t, "--sgo") {
        Some(Mode::StrictlyGoalOriented(w))
    } else if str_eq(t, "--explore") || str_eq(t, "--expl") {
        Some(Mode::Explore(w))
    } else {
        None
    }
}

/// The weight that the word `t` names.
fn named_weight(t: &str) -> (r: Option<Weight>)
    ensures
        r == weight_named(t@),
{
    if str_eq(t, "--absolute") || str_eq(t, "--abs") {
        Some(Weight::Absolute)
    } else if str_eq(t, "--facet-counting") || str_eq(t, "--fc") {
        Some(Weight::FacetCounting)
    } else {
        None
    }
}

/// The mode and weight that two words select, if any.
pub fn parse_mode(input: (Option<&str>, Option<&str>)) -> (r: Option<Mode>)
    requires
        mode_words_readable(word(input.0), word(input.1)),
    ensures
        r == mode_of(word(input.0), word(input.1)),
{
    let (a, b) = input;
    match (a, b) {
        (None, None) => Some(Mode::GoalOriented(Weight::FacetCounting)),
        (Some(x), None) => match named_mode(x, Weight::FacetCounting) {
            Some(m) => Some(m),
            None => match named_weight(x) {
                Some(w) => Some(Mode::GoalOriented(w)),
                None => None,
            },
        },
        (Some(x), Some(y)) => {
            if str_eq(x, "--!") {
                let v = str_chars(y);
                match char_index_of_byte(v.as_slice(), 2) {
                    Some(k) => match parse_u8(v.as_slice(), k) {
                        Some(n) => Some(Mode::Io(n)),
                        None => None,
                    },
                    None => None,
                }
            } else if str_eq(y, "--U") {
                named_mode(x, Weight::Information)
            } else {
                match named_weight(y) {
                    Some(w) => named_mode(x, w),
                    None => None,
                }
            }
        },
        (None, Some(_)) => None,
    }
}

/// Whether a command-line word asks for a number of answer sets: from its
/// third byte on it reads `n...` (as in `--n=5`).
pub open spec fn is_count_word(s: Seq<char>) -> bool {
    let t = skip_bytes(s, 2);
    t.len() > 0 && t[0] == 'n'
}

/// The words that ask for a number of answer sets, in order.
pub open spec fn count_words(words: Seq<Seq<char>>) -> Seq<Seq<char>> {
    words.filter(|s: Seq<char>| is_count_word(s))
}

/// The other words, in order.
pub open spec fn mode_words(words: Seq<Seq<char>>) -> Seq<Seq<char>> {
    words.filter(|s: Seq<char>| !is_count_word(s))
}

/// The `k`-th word of `words`, if there is one.
pub open spec fn nth_word(words: Seq<Seq<char>>, k: int) -> Option<Seq<char>> {
    if 0 <= k < words.len() {
        Some(words[k])
    } else {
        None
    }
}

/// The number of answer sets to show: the number after the fourth byte of
/// the first word that asks for one, 3 when there is no such word or it holds
/// no number.
pub open spec fn count_of(words: Seq<Seq<char>>) -> usize {
    let ns = count_words(words);
    if ns.len() > 0 {
        match parse_usize_spec(skip_bytes(ns[0], 4)) {
            Some(n) => n,
            None => 3,
        }
    } else {
        3
    }
}

/// The mode (from the first two words that ask for no number) and the
/// number of answer sets that the command-line words select.
pub open spec fn args_of(words: Seq<Seq<char>>) -> Option<(Mode, usize)> {
    let xs = mode_words(words);
    match mode_of(nth_word(xs, 0), nth_word(xs, 1)) {
        Some(m) => Some((m, count_of(words))),
        None => None,
    }
}

/// Whether the command-line words can be read: each has at least two bytes
/// (and a character boundary there), the first that asks for a number has a
/// boundary at its fourth byte, and the mode words can be read.
pub open spec fn args_readable(words: Seq<Seq<char>>) -> bool {
    let xs = mode_words(words);
    &&& forall|i: int| 0 <= i < words.len() ==> is_char_boundary(#[trigger] words[i], 2)
    &&& count_words(words).len() > 0 ==> is_char_boundary(count_words(words)[0], 4)
    &&& mode_words_readable(nth_word(xs, 0), nth_word(xs, 1))
}

/// The mode and the number of answer sets that the command-line words
/// (after the program's path) select; `None` when they name no mode.
pub fn parse_args(args: Vec<String>) -> (r: Option<(Mode, usize)>)
    requires
        args_readable(strings_view(args@)),
    ensures
        r == args_of(strings_view(args@)),
{
    let ghost words = strings_view(args@);
    let ghost pc = |s: Seq<char>| is_count_word(s);
    let ghost pm = |s: Seq<char>| !is_count_word(s);
    let mut counts: Vec<String> = Vec::new();
    let mut others: Vec<String> = Vec::new();
    let mut i: usize = 0;
    proof {
        assert(words.subrange(0, 0) =~= Seq::<Seq<char>>::empty());
        assert(strings_view(counts@) =~= Seq::<Seq<char>>::empty().filter(pc));
        assert(strings_view(others@) =~= Seq::<Seq<char>>::empty().filter(pm));
    }
    while i < args.len()
        invariant
            i <= args@.len(),
            words == strings_view(args@),
            pc == (|s: Seq<char>| is_count_word(s)),
            pm == (|s: Seq<char>| !is_count_word(s)),
            forall|j: int| 0 <= j < words.len() ==> is_char_boundary(#[trigger] words[j], 2),
            strings_view(counts@) == words.subrange(0, i as int).filter(pc),
            strings_view(others@) == words.subrange(0, i as int).filter(pm),
        decreases args@.len() - i,
    {
        let v = str_chars(args[i].as_str());
        proof {
            assert(words[i as int] == args@[i as int]@);
        }
        let is_count = match char_index_of_byte(v.as_slice(), 2) {
            Some(k) => k < v.len() && v[k] == 'n',
            None => false,
        };
        proof {
            let w = words[i as int];
            assert(is_char_boundary(w, 2));
            assert(words.subrange(0, i + 1) =~= words.subrange(0, i as int).push(w));
            lemma_filter_push(words.subrange(0, i as int), w, pc);
            lemma_filter_push(words.subrange(0, i as int), w, pm);
            assert(is_count == is_count_word(w));
        }
        let t = crate::text::copy_string(&args[i]);
        if is_count {
            counts.push(t);
            assert(strings_view(counts@) =~= strings_view(counts@.drop_last()).push(t@));
        } else {
            others.push(t);
            assert(strings_view(others@) =~= strings_view(others@.drop_last()).push(t@));
        }
        i = i + 1;
    }
    proof {
        assert(words.subrange(0, args@.len() as int) =~= words);
        assert(count_words(words) == words.filter(pc));
        assert(mode_words(words) == words.filter(pm));
    }
    let n: usize = if counts.len() > 0 {
        let v = str_chars(counts[0].as_str());
        proof {
            assert(strings_view(counts@)[0] == counts@[0]@);
        }
        match char_index_of_byte(v.as_slice(), 4) {
            Some(k) => match parse_usize(v.as_slice(), k) {
                Some(x) => x,
                None => 3,
            },
            None => 3,
        }
    } else {
        3
    };
    let a: Option<&str> = if others.len() > 0 {
        Some(others[0].as_str())
    } else {
        None
    };
    let b: Option<&str> = if others.len() > 1 {
        Some(others[1].as_str())
    } else {
        None
    };
    proof {
        if others@.len() > 0 {
            assert(strings_view(others@)[0] == others@[0]@);
        }
        if others@.len() > 1 {
            assert(strings_view(others@)[1] == others@[1]@);
        }
        assert(word(a) == nth_word(mode_words(words), 0));
        assert(word(b) == nth_word(mode_words(words), 1));
    }
    match parse_mode((a, b)) {
        Some(m) => Some((m, n)),
        None => None,
    }
}

/// The characters of `s` other than `<` and `>`.
pub open spec fn strip_angles(s: Seq<char>) -> Seq<char> {
    s.filter(|c: char| c != '<' && c != '>')
}

/// The characters of `s` other than `(` and `)`.
pub open spec fn strip_parens(s: Seq<char>) -> Seq<char> {
    s.filter(|c: char| c != '(' && c != ')')
}

/// `s` with each `_` replaced by `d`.
pub open spec fn replace_underscores(s: Seq<char>, d: Seq<char>) -> Seq<char>
    decreases s.len(),
{
    if s.len() == 0 {
        Seq::empty()
    } else {
        replace_underscores(s.drop_last(), d) + if s.last() == '_' {
            d
        } else {
            seq![s.last()]
        }
    }
}

/// `s` without the characters for which `keep` fails.
fn filtered_chars(s: &str, ghost_keep: Ghost<spec_fn(char) -> bool>, angles: bool) -> (r: String)
    requires
        angles ==> ghost_keep@ == (|c: char| c != '<' && c != '>'),
        !angles ==> ghost_keep@ == (|c: char| c != '(' && c != ')'),
    ensures
        r@ == s@.filter(ghost_keep@),
{
    let v = str_chars(s);
    let mut r = String::new();
    let mut i: usize = 0;
    while i < v.len()
        invariant
            i <= v@.len(),
            v@ == s@,
            angles ==> ghost_keep@ == (|c: char| c != '<' && c != '>'),
            !angles ==> ghost_keep@ == (|c: char| c != '(' && c != ')'),
            r@ == v@.subrange(0, i as int).filter(ghost_keep@),
        decreases v@.len() - i,
    {
        let c = v[i];
        proof {
            assert(v@.subrange(0, i + 1) =~= v@.subrange(0, i as int).push(c));
            lemma_filter_push(v@.subrange(0, i as int), c, ghost_keep@);
        }
        let keep = if angles {
            c != '<' && c != '>'
        } else {
            c != '(' && c != ')'
        };
        if keep {
            crate::text::push_char(&mut r, c);
        }
        i = i + 1;
    }
    assert(v@.subrange(0, v@.len() as int) =~= v@);
    r
}

/// The route a route query names.
pub enum RouteQuery {
    /// The current route (no words).
    Current,
    /// A route written out, `< f1 ... fn >`: its facets.
    Given(Vec<String>),
    /// The current route extended by some facets, `+ f1 ... fn`.
    Extended(Route),
    /// Words that name no route: the first of them.
    Invalid(String),
}

/// The facets of a written-out route: the words after the first, then the
/// first, each without `<` and `>`, leaving out those that are left empty.
pub open spec fn given_facets(words: Seq<Seq<char>>) -> Seq<Seq<char>> {
    (words.drop_first() + seq![words[0]]).map_values(|w: Seq<char>| strip_angles(w)).filter(
        |f: Seq<char>| f.len() > 0,
    )
}

/// Reads the words of a route query (`?rs`, `?rms`) on the current route
/// `route`: none names the current route; a first word that starts with `<`
/// a route written out; one that starts with `+` the current route extended
/// by the words after it; any other first word is refused.
pub fn route_query(route: &Route, words: &[String]) -> (r: RouteQuery)
    ensures
        words@.len() == 0 ==> r is Current,
        words@.len() > 0 && words@[0]@.len() > 0 && words@[0]@[0] == '<' ==> (r matches RouteQuery::Given(
            fs,
        ) && strings_view(fs@) == given_facets(strings_view(words@))),
        words@.len() > 0 && words@[0]@.len() > 0 && words@[0]@[0] == '+' ==> (r matches RouteQuery::Extended(
            x,
        ) && x@ == route@ + strings_view(words@).drop_first()),
        words@.len() > 0 && !(words@[0]@.len() > 0 && (words@[0]@[0] == '<' || words@[0]@[0]
            == '+')) ==> (r matches RouteQuery::Invalid(w) && w@ == words@[0]@),
{
    if words.len() == 0 {
        return RouteQuery::Current;
    }
    let first = str_chars(words[0].as_str());
    let ghost ws = strings_view(words@);
    proof {
        assert(ws[0] == words@[0]@);
    }
    if first.len() > 0 && first[0] == '<' {
        let ghost order = ws.drop_first() + seq![ws[0]];
        let ghost stripped = order.map_values(|w: Seq<char>| strip_angles(w));
        let ghost nonempty = |f: Seq<char>| f.len() > 0;
        let mut fs: Vec<String> = Vec::new();
        let mut k: usize = 0;
        while k < words.len()
            invariant
                1 <= words@.len(),
                k <= words@.len(),
                ws == strings_view(words@),
                order == ws.drop_first() + seq![ws[0]],
                stripped == order.map_values(|w: Seq<char>| strip_angles(w)),
                nonempty == (|f: Seq<char>| f.len() > 0),
                strings_view(fs@) == stripped.subrange(0, k as int).filter(nonempty),
            decreases words@.len() - k,
        {
            let j = if k + 1 < words.len() {
                k + 1
            } else {
                0
            };
            let w = filtered_chars(words[j].as_str(), Ghost(|c: char| c != '<' && c != '>'), true);
            proof {
                assert(ws[j as int] == words@[j as int]@);
                assert(order[k as int] == ws[j as int]);
                assert(stripped[k as int] == strip_angles(order[k as int]));
                assert(w@ == stripped[k as int]);
                assert(stripped.subrange(0, k + 1) =~= stripped.subrange(0, k as int).push(w@));
                lemma_filter_push(stripped.subrange(0, k as int), w@, nonempty);
            }
            if w.unicode_len() > 0 {
                fs.push(w);
                assert(strings_view(fs@) =~= strings_view(fs@.drop_last()).push(w@));
            }
            k = k + 1;
        }
        assert(stripped.subrange(0, words@.len() as int) =~= stripped);
        RouteQuery::Given(fs)
    } else if first.len() > 0 && first[0] == '+' {
        let mut x = Route(crate::utils::copy_strings(&route.0));
        let mut k: usize = 1;
        while k < words.len()
            invariant
                1 <= k <= words@.len(),
                ws == strings_view(words@),
                x@ == route@ + ws.subrange(1, k as int),
            decreases words@.len() - k,
        {
            let t = crate::text::copy_string(&words[k]);
            x.activate(t);
            proof {
                assert(ws[k as int] == words@[k as int]@);
                assert(ws.subrange(1, k + 1) =~= ws.subrange(1, k as int).push(ws[k as int]));
            }
            k = k + 1;
        }
        assert(ws.subrange(1, words@.len() as int) =~= ws.drop_first());
        RouteQuery::Extended(x)
    } else {
        RouteQuery::Invalid(crate::text::copy_string(&words[0]))
    }
}

/// Whether `w` is one of the selectors of a facet range: `*~`, `r*~`, `*`,
/// `r*`.
pub open spec fn is_selector(w: Seq<char>) -> bool {
    w == "*~"@ || w == "r*~"@ || w == "*"@ || w == "r*"@
}

/// The upper bound of a facet range (its third word).
pub open spec fn upper_of(words: Seq<Seq<char>>) -> usize {
    parse_usize_spec(words[2])->0
}

/// The lower bound of a facet range: its fourth word, or 0 when there is
/// none or it holds no number.
pub open spec fn lower_of(words: Seq<Seq<char>>) -> usize {
    if words.len() > 3 {
        match parse_usize_spec(words[3]) {
            Some(l) => l,
            None => 0,
        }
    } else {
        0
    }
}

/// Whether the words of a facet range can be read: a selector, an atom
/// name, and an upper bound below the largest `usize`.
pub open spec fn range_readable(words: Seq<Seq<char>>) -> bool {
    &&& words.len() >= 3
    &&& is_selector(words[0])
    &&& parse_usize_spec(words[2]) is Some
    &&& upper_of(words) < usize::MAX
}

/// The facet that a selector makes of the atom name `p` and the number `i`:
/// `*` gives `p(i)` (parentheses in `p` left out), `r*` gives `p` with each
/// `_` replaced by `i`; `*~` and `r*~` give the exclusive facets of these.
pub open spec fn range_facet(selector: Seq<char>, p: Seq<char>, i: nat) -> Seq<char> {
    if selector == "*~"@ {
        seq!['~'] + strip_parens(p) + seq!['('] + decimal(i) + seq![')']
    } else if selector == "r*~"@ {
        seq!['~'] + replace_underscores(p, decimal(i))
    } else if selector == "*"@ {
        strip_parens(p) + seq!['('] + decimal(i) + seq![')']
    } else {
        replace_underscores(p, decimal(i))
    }
}

/// The facets of a facet range, for each number from the lower to the upper
/// bound.
pub open spec fn range_facets(words: Seq<Seq<char>>) -> Seq<Seq<char>> {
    let l = lower_of(words);
    let u = upper_of(words);
    Seq::new(
        if l <= u {
            (u - l + 1) as nat
        } else {
            0
        },
        |k: int| range_facet(words[0], words[1], (l + k) as nat),
    )
}

/// Appends `p` to `s`, each `_` replaced by the decimal notation of `i`.
fn push_replaced(s: &mut String, p: &[char], i: u64)
    ensures
        final(s)@ == old(s)@ + replace_underscores(p@, decimal(i as nat)),
{
    let mut j: usize = 0;
    assert(p@.subrange(0, 0) =~= Seq::<char>::empty());
    assert(old(s)@ + replace_underscores(Seq::<char>::empty(), decimal(i as nat)) =~= old(s)@);
    while j < p.len()
        invariant
            j <= p@.len(),
            s@ == old(s)@ + replace_underscores(p@.subrange(0, j as int), decimal(i as nat)),
        decreases p@.len() - j,
    {
        let ghost before = s@;
        if p[j] == '_' {
            push_decimal(s, i);
        } else {
            push_char(s, p[j]);
        }
        proof {
            let q = p@.subrange(0, j + 1);
            assert(q.drop_last() =~= p@.subrange(0, j as int));
            assert(q.last() == p@[j as int]);
            assert(s@ =~= old(s)@ + replace_underscores(q, decimal(i as nat)));
        }
        j = j + 1;
    }
    assert(p@.subrange(0, p@.len() as int) =~= p@);
}

/// The facets of a facet range (`:a *~ p u l` and the like).
pub fn range_targets(words: &[String]) -> (r: Vec<String>)
    requires
        range_readable(strings_view(words@)),
    ensures
        strings_view(r@) == range_facets(strings_view(words@)),
{
    let ghost ws = strings_view(words@);
    proof {
        assert(ws[0] == words@[0]@);
        assert(ws[1] == words@[1]@);
        assert(ws[2] == words@[2]@);
        if words@.len() > 3 {
            assert(ws[3] == words@[3]@);
        }
    }
    let sel = words[0].as_str();
    let negated = crate::text::str_eq(sel, "*~") || crate::text::str_eq(sel, "r*~");
    let replacing = crate::text::str_eq(sel, "r*~") || crate::text::str_eq(sel, "r*");
    let plain = crate::text::str_eq(sel, "*~") || crate::text::str_eq(sel, "*");
    let name = str_chars(words[1].as_str());
    let stripped = filtered_chars(words[1].as_str(), Ghost(|c: char| c != '(' && c != ')'), false);
    let uw = str_chars(words[2].as_str());
    let u: usize = match parse_usize(uw.as_slice(), 0) {
        Some(x) => x,
        None => 0,
    };
    assert(uw@.skip(0) =~= uw@);
    let l: usize = if words.len() > 3 {
        let lw = str_chars(words[3].as_str());
        assert(lw@.skip(0) =~= lw@);
        match parse_usize(lw.as_slice(), 0) {
            Some(x) => x,
            None => 0,
        }
    } else {
        0
    };
    let ghost target = range_facets(ws);
    let mut r: Vec<String> = Vec::new();
    let mut i: usize = l;
    while i < u + 1
        invariant
            l <= i,
            l == lower_of(ws),
            u == upper_of(ws),
            u < usize::MAX,
            i <= u + 1 || i == l,
            ws == strings_view(words@),
            target == range_facets(ws),
            name@ == ws[1],
            stripped@ == strip_parens(ws[1]),
            is_selector(ws[0]),
            negated == (ws[0] == "*~"@ || ws[0] == "r*~"@),
            replacing == (ws[0] == "r*~"@ || ws[0] == "r*"@),
            plain == (ws[0] == "*~"@ || ws[0] == "*"@),
            r@.len() == i - l,
            forall|k: int| 0 <= k < r@.len() ==> #[trigger] r@[k]@ == target[k],
        decreases u + 1 - i,
    {
        let mut t = String::new();
        if negated {
            push_char(&mut t, '~');
        }
        if replacing {
            push_replaced(&mut t, name.as_slice(), i as u64);
        } else {
            push_str(&mut t, stripped.as_str());
            push_char(&mut t, '(');
            push_decimal(&mut t, i as u64);
            push_char(&mut t, ')');
        }
        proof {
            reveal_strlit("*~");
            reveal_strlit("r*~");
            reveal_strlit("*");
            reveal_strlit("r*");
            assert("*~"@.len() == 2 && "*~"@[0] == '*' && "*~"@[1] == '~');
            assert("r*~"@.len() == 3 && "r*~"@[0] == 'r');
            assert("*"@.len() == 1 && "*"@[0] == '*');
            assert("r*"@.len() == 2 && "r*"@[0] == 'r' && "r*"@[1] == '*');
            assert(target[i - l] == range_facet(ws[0], ws[1], i as nat));
            if ws[0] == "*~"@ {
                assert(t@ =~= range_facet(ws[0], ws[1], i as nat));
            } else if ws[0] == "r*~"@ {
                assert(t@ =~= range_facet(ws[0], ws[1], i as nat));
            } else if ws[0] == "*"@ {
                assert(t@ =~= range_facet(ws[0], ws[1], i as nat));
            } else {
                assert(t@ =~= range_facet(ws[0], ws[1], i as nat));
            }
        }
        r.push(t);
        i = i + 1;
    }
    assert(strings_view(r@) =~= target);
    r
}

/// The constants that name the facets of a facet range (`:d *~ p u l` and
/// `:d * p u l`).
pub fn range_symbols(words: &[String]) -> (r: Vec<Symbol>)
    requires
        range_readable(strings_view(words@)),
        strings_view(words@)[0] == "*~"@ || strings_view(words@)[0] == "*"@,
    ensures
        r@.len() == range_facets(strings_view(words@)).len(),
        forall|k: int|
            0 <= k < r@.len() ==> #[trigger] r@[k]@ == text_symbol(
                range_facets(strings_view(words@))[k],
            ),
{
    let facets = range_targets(words);
    let ghost fs = range_facets(strings_view(words@));
    let mut r: Vec<Symbol> = Vec::new();
    let mut k: usize = 0;
    while k < facets.len()
        invariant
            k <= facets@.len(),
            strings_view(facets@) == fs,
            r@.len() == k,
            forall|j: int| 0 <= j < k ==> #[trigger] r@[j]@ == text_symbol(fs[j]),
        decreases facets@.len() - k,
    {
        let sym = facets[k].symbol();
        proof {
            assert(strings_view(facets@)[k as int] == facets@[k as int]@);
        }
        r.push(sym);
        k = k + 1;
    }
    r
}

/// The commands and queries of the interactive prompt.
#[derive(Debug, Clone, Copy, PartialEq, Eq, Structural)]
pub enum Command {
    /// Shows the manual, or the entry of one command or query. (`--manual`, `:man`)
    Manual,
    /// Shows the logic program. (`--source`, `:src`)
    Source,
    /// Shows the current facets. (`--facets`, `:fs`)
    Facets,
    /// Shows the number of current facets. (`--facets-count`, `:fc`)
    FacetsCount,
    /// Shows the initial facets. (`--initial-facets`, `:ifs`)
    InitialFacets,
    /// Shows the number of initial facets. (`--initial-facets-count`, `:ifc`)
    InitialFacetsCount,
    /// Activates facets. (`--activate`, `:a`)
    Activate,
    /// Deactivates facets. (`--deactivate`, `:d`)
    Deactivate,
    /// Empties the route. (`--clear-route`, `:cr`)
    ClearRoute,
    /// Takes random safe steps. (`--random-safe-steps`, `:rss`)
    RandomSafeSteps,
    /// Walks at random until the route is maximal safe. (`--random-safe-walk`, `:rsw`)
    RandomSafeWalk,
    /// Offers filtered facets and activates the chosen one. (`--step`, `:s`)
    Step,
    /// Offers filtered facets, activates the chosen one and shows some answer sets. (`--step-n`, `:sn`)
    StepN,
    /// Shows all answer sets on the route. (`--navigate`, `:n`)
    Navigate,
    /// Shows some answer sets on the route. (`--navigate-n-models`, `:nn`)
    NavigateN,
    /// Activates a facet whose zoom is at least a bound. (`--find-facet-with-zoom-higher-than-and-activate`, `:zha`)
    ZoomHigherActivate,
    /// Activates a facet whose zoom is at most a bound. (`--find-facet-with-zoom-lower-than-and-activate`, `:zla`)
    ZoomLowerActivate,
    /// Switches the navigation mode. (`--switch-mode`, `:sm`)
    SwitchMode,
    /// Shows weights. (`?-weight`, `?w`)
    Weight,
    /// Shows zooms. (`?-zoom`, `?z`)
    Zoom,
    /// Tells whether a route is safe. (`?-route-safe`, `?rs`)
    RouteSafe,
    /// Tells whether a route is maximal safe. (`?-route-maximal-safe`, `?rms`)
    RouteMaximalSafe,
    /// Finds a facet whose zoom is at least a bound. (`?-zoom-higher-than`, `?zh`)
    ZoomHigherThan,
    /// Finds a facet whose zoom is at most a bound. (`?-zoom-lower-than`, `?zl`)
    ZoomLowerThan,
    /// Shows the navigation mode. (`--mode`, `:m`)
    ShowMode,
    /// Ends the session. (`--quit`, `:q`)
    Quit,
}

/// The command or query that the first word of a prompt line names.
pub open spec fn command_named(w: Seq<char>) -> Option<Command> {
    if w == "--manual"@ || w == ":man"@ {
        Some(Command::Manual)
    } else if w == "--source"@ || w == ":src"@ {
        Some(Command::Source)
    } else if w == "--facets"@ || w == ":fs"@ {
        Some(Command::Facets)
    } else if w == "--facets-count"@ || w == ":fc"@ {
        Some(Command::FacetsCount)
    } else if w == "--initial-facets"@ || w == ":ifs"@ {
        Some(Command::InitialFacets)
    } else if w == "--initial-facets-count"@ || w == ":ifc"@ {
        Some(Command::InitialFacetsCount)
    } else if w == "--activate"@ || w == ":a"@ {
        Some(Command::Activate)
    } else if w == "--deactivate"@ || w == ":d"@ {
        Some(Command::Deactivate)
    } else if w == "--clear-route"@ || w == ":cr"@ {
        Some(Command::ClearRoute)
    } else if w == "--random-safe-steps"@ || w == ":rss"@ {
        Some(Command::RandomSafeSteps)
    } else if w == "--random-safe-walk"@ || w == ":rsw"@ {
        Some(Command::RandomSafeWalk)
    } else if w == "--step"@ || w == ":s"@ {
        Some(Command::Step)
    } else if w == "--step-n"@ || w == ":sn"@ {
        Some(Command::StepN)
    } else if w == "--navigate"@ || w == ":n"@ {
        Some(Command::Navigate)
    } else if w == "--navigate-n-models"@ || w == ":nn"@ {
        Some(Command::NavigateN)
    } else if w == "--find-facet-with-zoom-higher-than-and-activate"@ || w == ":zha"@ {
        Some(Command::ZoomHigherActivate)
    } else if w == "--find-facet-with-zoom-lower-than-and-activate"@ || w == ":zla"@ {
        Some(Command::ZoomLowerActivate)
    } else if w == "--switch-mode"@ || w == ":sm"@ {
        Some(Command::SwitchMode)
    } else if w == "?-weight"@ || w == "?w"@ {
        Some(Command::Weight)
    } else if w == "?-zoom"@ || w == "?z"@ {
        Some(Command::Zoom)
    } else if w == "?-route-safe"@ || w == "?rs"@ {
        Some(Command::RouteSafe)
    } else if w == "?-route-maximal-safe"@ || w == "?rms"@ {
        Some(Command::RouteMaximalSafe)
    } else if w == "?-zoom-higher-than"@ || w == "?zh"@ {
        Some(Command::ZoomHigherThan)
    } else if w == "?-zoom-lower-than"@ || w == "?zl"@ {
        Some(Command::ZoomLowerThan)
    } else if w == "--mode"@ || w == ":m"@ {
        Some(Command::ShowMode)
    } else if w == "--quit"@ || w == ":q"@ {
        Some(Command::Quit)
    } else {
        None
    }
}

/// The long and the short spelling of each command or query, as the
/// prompt's manual documents them.
pub open spec fn spellings(c: Command) -> (Seq<char>, Seq<char>) {
    match c {
        Command::Manual => ("--manual"@, ":man"@),
        Command::Source => ("--source"@, ":src"@),
        Command::Facets => ("--facets"@, ":fs"@),
        Command::FacetsCount => ("--facets-count"@, ":fc"@),
        Command::InitialFacets => ("--initial-facets"@, ":ifs"@),
        Command::InitialFacetsCount => ("--initial-facets-count"@, ":ifc"@),
        Command::Activate => ("--activate"@, ":a"@),
        Command::Deactivate => ("--deactivate"@, ":d"@),
        Command::ClearRoute => ("--clear-route"@, ":cr"@),
        Command::RandomSafeSteps => ("--random-safe-steps"@, ":rss"@),
        Command::RandomSafeWalk => ("--random-safe-walk"@, ":rsw"@),
        Command::Step => ("--step"@, ":s"@),
        Command::StepN => ("--step-n"@, ":sn"@),
        Command::Navigate => ("--navigate"@, ":n"@),
        Command::NavigateN => ("--navigate-n-models"@, ":nn"@),
        Command::ZoomHigherActivate => ("--find-facet-with-zoom-higher-than-and-activate"@, ":zha"@),
        Command::ZoomLowerActivate => ("--find-facet-with-zoom-lower-than-and-activate"@, ":zla"@),
        Command::SwitchMode => ("--switch-mode"@, ":sm"@),
        Command::Weight => ("?-weight"@, "?w"@),
        Command::Zoom => ("?-zoom"@, "?z"@),
        Command::RouteSafe => ("?-route-safe"@, "?rs"@),
        Command::RouteMaximalSafe => ("?-route-maximal-safe"@, "?rms"@),
        Command::ZoomHigherThan => ("?-zoom-higher-than"@, "?zh"@),
        Command::ZoomLowerThan => ("?-zoom-lower-than"@, "?zl"@),
        Command::ShowMode => ("--mode"@, ":m"@),
        Command::Quit => ("--quit"@, ":q"@),
    }
}

/// Each command or query is named by both of its documented spellings.
pub proof fn lemma_command_spellings(c: Command)
    ensures
        command_named(spellings(c).0) == Some(c),
        command_named(spellings(c).1) == Some(c),
{
    reveal_strlit("--manual");
    reveal_strlit(":man");
    reveal_strlit("--source");
    reveal_strlit(":src");
    reveal_strlit("--facets");
    reveal_strlit(":fs");
    reveal_strlit("--facets-count");
    reveal_strlit(":fc");
    reveal_strlit("--initial-facets");
    reveal_strlit(":ifs");
    reveal_strlit("--initial-facets-count");
    reveal_strlit(":ifc");
    reveal_strlit("--activate");
    reveal_strlit(":a");
    reveal_strlit("--deactivate");
    reveal_strlit(":d");
    reveal_strlit("--clear-route");
    reveal_strlit(":cr");
    reveal_strlit("--random-safe-steps");
    reveal_strlit(":rss");
    reveal_strlit("--random-safe-walk");
    reveal_strlit(":rsw");
    reveal_strlit("--step");
    reveal_strlit(":s");
    reveal_strlit("--step-n");
    reveal_strlit(":sn");
    reveal_strlit("--navigate");
    reveal_strlit(":n");
    reveal_strlit("--navigate-n-models");
    reveal_strlit(":nn");
    reveal_strlit("--find-facet-with-zoom-higher-than-and-activate");
    reveal_strlit(":zha");
    reveal_strlit("--find-facet-with-zoom-lower-than-and-activate");
    reveal_strlit(":zla");
    reveal_strlit("--switch-mode");
    reveal_strlit(":sm");
    reveal_strlit("?-weight");
    reveal_strlit("?w");
    reveal_strlit("?-zoom");
    reveal_strlit("?z");
    reveal_strlit("?-route-safe");
    reveal_strlit("?rs");
    reveal_strlit("?-route-maximal-safe");
    reveal_strlit("?rms");
    reveal_strlit("?-zoom-higher-than");
    reveal_strlit("?zh");
    reveal_strlit("?-zoom-lower-than");
    reveal_strlit("?zl");
    reveal_strlit("--mode");
    reveal_strlit(":m");
    reveal_strlit("--quit");
    reveal_strlit(":q");
    match c {
        Command::Manual => {

        },
        Command::Source => {
            lemma_chars_differ("--source"@, "--manual"@, 2);
            lemma_lengths_differ("--source"@, ":man"@);
            lemma_lengths_differ(":src"@, "--manual"@);
            lemma_chars_differ(":src"@, ":man"@, 1);
        },
        Command::Facets => {
            lemma_chars_differ("--facets"@, "--manual"@, 2);
            lemma_lengths_differ("--facets"@, ":man"@);
            lemma_chars_differ("--facets"@, "--source"@, 2);
            lemma_lengths_differ("--facets"@, ":src"@);
            lemma_lengths_differ(":fs"@, "--manual"@);
            lemma_lengths_differ(":fs"@, ":man"@);
            lemma_lengths_differ(":fs"@, "--source"@);
            lemma_lengths_differ(":fs"@, ":src"@);
        },
        Command::FacetsCount => {
            lemma_lengths_differ("--facets-count"@, "--manual"@);
            lemma_lengths_differ("--facets-count"@, ":man"@);
            lemma_lengths_differ("--facets-count"@, "--source"@);
            lemma_lengths_differ("--facets-count"@, ":src"@);
            lemma_lengths_differ("--facets-count"@, "--facets"@);
            lemma_lengths_differ("--facets-count"@, ":fs"@);
            lemma_lengths_differ(":fc"@, "--manual"@);
            lemma_lengths_differ(":fc"@, ":man"@);
            lemma_lengths_differ(":fc"@, "--source"@);
            lemma_lengths_differ(":fc"@, ":src"@);
            lemma_lengths_differ(":fc"@, "--facets"@);
            lemma_chars_differ(":fc"@, ":fs"@, 2);
        },
        Command::InitialFacets => {
            lemma_lengths_differ("--initial-facets"@, "--manual"@);
            lemma_lengths_differ("--initial-facets"@, ":man"@);
            lemma_lengths_differ("--initial-facets"@, "--source"@);
            lemma_lengths_differ("--initial-facets"@, ":src"@);
            lemma_lengths_differ("--initial-facets"@, "--facets"@);
            lemma_lengths_differ("--initial-facets"@, ":fs"@);
            lemma_lengths_differ("--initial-facets"@, "--facets-count"@);
            lemma_lengths_differ("--initial-facets"@, ":fc"@);
            lemma_lengths_differ(":ifs"@, "--manual"@);
            lemma_chars_differ(":ifs"@, ":man"@, 1);
            lemma_lengths_differ(":ifs"@, "--source"@);
            lemma_chars_differ(":ifs"@, ":src"@, 1);
            lemma_lengths_differ(":ifs"@, "--facets"@);
            lemma_lengths_differ(":ifs"@, ":fs"@);
            lemma_lengths_differ(":ifs"@, "--facets-count"@);
            lemma_lengths_differ(":ifs"@, ":fc"@);
        },
        Command::InitialFacetsCount => {
            lemma_lengths_differ("--initial-facets-count"@, "--manual"@);
            lemma_lengths_differ("--initial-facets-count"@, ":man"@);
            lemma_lengths_differ("--initial-facets-count"@, "--source"@);
            lemma_lengths_differ("--initial-facets-count"@, ":src"@);
            lemma_lengths_differ("--initial-facets-count"@, "--facets"@);
            lemma_lengths_differ("--initial-facets-count"@, ":fs"@);
            lemma_lengths_differ("--initial-facets-count"@, "--facets-count"@);
            lemma_lengths_differ("--initial-facets-count"@, ":fc"@);
            lemma_lengths_differ("--initial-facets-count"@, "--initial-facets"@);
            lemma_lengths_differ("--initial-facets-count"@, ":ifs"@);
            lemma_lengths_differ(":ifc"@, "--manual"@);
            lemma_chars_differ(":ifc"@, ":man"@, 1);
            lemma_lengths_differ(":ifc"@, "--source"@);
            lemma_chars_differ(":ifc"@, ":src"@, 1);
            lemma_lengths_differ(":ifc"@, "--facets"@);
            lemma_lengths_differ(":ifc"@, ":fs"@);
            lemma_lengths_differ(":ifc"@, "--facets-count"@);
            lemma_lengths_differ(":ifc"@, ":fc"@);
            lemma_lengths_differ(":ifc"@, "--initial-facets"@);
            lemma_chars_differ(":ifc"@, ":ifs"@, 3);
        },
        Command::Activate => {
            lemma_lengths_differ("--activate"@, "--manual"@);
            lemma_lengths_differ("--activate"@, ":man"@);
            lemma_lengths_differ("--activate"@, "--source"@);
            lemma_lengths_differ("--activate"@, ":src"@);
            lemma_lengths_differ("--activate"@, "--facets"@);
            lemma_lengths_differ("--activate"@, ":fs"@);
            lemma_lengths_differ("--activate"@, "--facets-count"@);
            lemma_lengths_differ("--activate"@, ":fc"@);
            lemma_lengths_differ("--activate"@, "--initial-facets"@);
            lemma_lengths_differ("--activate"@, ":ifs"@);
            lemma_lengths_differ("--activate"@, "--initial-facets-count"@);
            lemma_lengths_differ("--activate"@, ":ifc"@);
            lemma_lengths_differ(":a"@, "--manual"@);
            lemma_lengths_differ(":a"@, ":man"@);
            lemma_lengths_differ(":a"@, "--source"@);
            lemma_lengths_differ(":a"@, ":src"@);
            lemma_lengths_differ(":a"@, "--facets"@);
            lemma_lengths_differ(":a"@, ":fs"@);
            lemma_lengths_differ(":a"@, "--facets-count"@);
            lemma_lengths_differ(":a"@, ":fc"@);
            lemma_lengths_differ(":a"@, "--initial-facets"@);
            lemma_lengths_differ(":a"@, ":ifs"@);
            lemma_lengths_differ(":a"@, "--initial-facets-count"@);
            lemma_lengths_differ(":a"@, ":ifc"@);
        },
        Command::Deactivate => {
            lemma_lengths_differ("--deactivate"@, "--manual"@);
            lemma_lengths_differ("--deactivate"@, ":man"@);
            lemma_lengths_differ("--deactivate"@, "--source"@);
            lemma_lengths_differ("--deactivate"@, ":src"@);
            lemma_lengths_differ("--deactivate"@, "--facets"@);
            lemma_lengths_differ("--deactivate"@, ":fs"@);
            lemma_lengths_differ("--deactivate"@, "--facets-count"@);
            lemma_lengths_differ("--deactivate"@, ":fc"@);
            lemma_lengths_differ("--deactivate"@, "--initial-facets"@);
            lemma_lengths_differ("--deactivate"@, ":ifs"@);
            lemma_lengths_differ("--deactivate"@, "--initial-facets-count"@);
            lemma_lengths_differ("--deactivate"@, ":ifc"@);
            lemma_lengths_differ("--deactivate"@, "--activate"@);
            lemma_lengths_differ("--deactivate"@, ":a"@);
            lemma_lengths_differ(":d"@, "--manual"@);
            lemma_lengths_differ(":d"@, ":man"@);
            lemma_lengths_differ(":d"@, "--source"@);
            lemma_lengths_differ(":d"@, ":src"@);
            lemma_lengths_differ(":d"@, "--facets"@);
            lemma_lengths_differ(":d"@, ":fs"@);
            lemma_lengths_differ(":d"@, "--facets-count"@);
            lemma_lengths_differ(":d"@, ":fc"@);
            lemma_lengths_differ(":d"@, "--initial-facets"@);
            lemma_lengths_differ(":d"@, ":ifs"@);
            lemma_lengths_differ(":d"@, "--initial-facets-count"@);
            lemma_lengths_differ(":d"@, ":ifc"@);
            lemma_lengths_differ(":d"@, "--activate"@);
            lemma_chars_differ(":d"@, ":a"@, 1);
        },
        Command::ClearRoute => {
            lemma_lengths_differ("--clear-route"@, "--manual"@);
            lemma_lengths_differ("--clear-route"@, ":man"@);
            lemma_lengths_differ("--clear-route"@, "--source"@);
            lemma_lengths_differ("--clear-route"@, ":src"@);
            lemma_lengths_differ("--clear-route"@, "--facets"@);
            lemma_lengths_differ("--clear-route"@, ":fs"@);
            lemma_lengths_differ("--clear-route"@, "--facets-count"@);
            lemma_lengths_differ("--clear-route"@, ":fc"@);
            lemma_lengths_differ("--clear-route"@, "--initial-facets"@);
            lemma_lengths_differ("--clear-route"@, ":ifs"@);
            lemma_lengths_differ("--clear-route"@, "--initial-facets-count"@);
            lemma_lengths_differ("--clear-route"@, ":ifc"@);
            lemma_lengths_differ("--clear-route"@, "--activate"@);
            lemma_lengths_differ("--clear-route"@, ":a"@);
            lemma_lengths_differ("--clear-route"@, "--deactivate"@);
            lemma_lengths_differ("--clear-route"@, ":d"@);
            lemma_lengths_differ(":cr"@, "--manual"@);
            lemma_lengths_differ(":cr"@, ":man"@);
            lemma_lengths_differ(":cr"@, "--source"@);
            lemma_lengths_differ(":cr"@, ":src"@);
            lemma_lengths_differ(":cr"@, "--facets"@);
            lemma_chars_differ(":cr"@, ":fs"@, 1);
            lemma_lengths_differ(":cr"@, "--facets-count"@);
            lemma_chars_differ(":cr"@, ":fc"@, 1);
            lemma_lengths_differ(":cr"@, "--initial-facets"@);
            lemma_lengths_differ(":cr"@, ":ifs"@);
            lemma_lengths_differ(":cr"@, "--initial-facets-count"@);
            lemma_lengths_differ(":cr"@, ":ifc"@);
            lemma_lengths_differ(":cr"@, "--activate"@);
            lemma_lengths_differ(":cr"@, ":a"@);
            lemma_lengths_differ(":cr"@, "--deactivate"@);
            lemma_lengths_differ(":cr"@, ":d"@);
        },
        Command::RandomSafeSteps => {
            lemma_lengths_differ("--random-safe-steps"@, "--manual"@);
            lemma_lengths_differ("--random-safe-steps"@, ":man"@);
            lemma_lengths_differ("--random-safe-steps"@, "--source"@);
            lemma_lengths_differ("--random-safe-steps"@, ":src"@);
            lemma_lengths_differ("--random-safe-steps"@, "--facets"@);
            lemma_lengths_differ("--random-safe-steps"@, ":fs"@);
            lemma_lengths_differ("--random-safe-steps"@, "--facets-count"@);
            lemma_lengths_differ("--random-safe-steps"@, ":fc"@);
            lemma_lengths_differ("--random-safe-steps"@, "--initial-facets"@);
            lemma_lengths_differ("--random-safe-steps"@, ":ifs"@);
            lemma_lengths_differ("--random-safe-steps"@, "--initial-facets-count"@);
            lemma_lengths_differ("--random-safe-steps"@, ":ifc"@);
            lemma_lengths_differ("--random-safe-steps"@, "--activate"@);
            lemma_lengths_differ("--random-safe-steps"@, ":a"@);
            lemma_lengths_differ("--random-safe-steps"@, "--deactivate"@);
            lemma_lengths_differ("--random-safe-steps"@, ":d"@);
            lemma_lengths_differ("--random-safe-steps"@, "--clear-route"@);
            lemma_lengths_differ("--random-safe-steps"@, ":cr"@);
            lemma_lengths_differ(":rss"@, "--manual"@);
            lemma_chars_differ(":rss"@, ":man"@, 1);
            lemma_lengths_differ(":rss"@, "--source"@);
            lemma_chars_differ(":rss"@, ":src"@, 1);
            lemma_lengths_differ(":rss"@, "--facets"@);
            lemma_lengths_differ(":rss"@, ":fs"@);
            lemma_lengths_differ(":rss"@, "--facets-count"@);
            lemma_lengths_differ(":rss"@, ":fc"@);
            lemma_lengths_differ(":rss"@, "--initial-facets"@);
            lemma_chars_differ(":rss"@, ":ifs"@, 1);
            lemma_lengths_differ(":rss"@, "--initial-facets-count"@);
            lemma_chars_differ(":rss"@, ":ifc"@, 1);
            lemma_lengths_differ(":rss"@, "--activate"@);
            lemma_lengths_differ(":rss"@, ":a"@);
            lemma_lengths_differ(":rss"@, "--deactivate"@);
            lemma_lengths_differ(":rss"@, ":d"@);
            lemma_lengths_differ(":rss"@, "--clear-route"@);
            lemma_lengths_differ(":rss"@, ":cr"@);
        },
        Command::RandomSafeWalk => {
            lemma_lengths_differ("--random-safe-walk"@, "--manual"@);
            lemma_lengths_differ("--random-safe-walk"@, ":man"@);
            lemma_lengths_differ("--random-safe-walk"@, "--source"@);
            lemma_lengths_differ("--random-safe-walk"@, ":src"@);
            lemma_lengths_differ("--random-safe-walk"@, "--facets"@);
            lemma_lengths_differ("--random-safe-walk"@, ":fs"@);
            lemma_lengths_differ("--random-safe-walk"@, "--facets-count"@);
            lemma_lengths_differ("--random-safe-walk"@, ":fc"@);
            lemma_lengths_differ("--random-safe-walk"@, "--initial-facets"@);
            lemma_lengths_differ("--random-safe-walk"@, ":ifs"@);
            lemma_lengths_differ("--random-safe-walk"@, "--initial-facets-count"@);
            lemma_lengths_differ("--random-safe-walk"@, ":ifc"@);
            lemma_lengths_differ("--random-safe-walk"@, "--activate"@);
            lemma_lengths_differ("--random-safe-walk"@, ":a"@);
            lemma_lengths_differ("--random-safe-walk"@, "--deactivate"@);
            lemma_lengths_differ("--random-safe-walk"@, ":d"@);
            lemma_lengths_differ("--random-safe-walk"@, "--clear-route"@);
            lemma_lengths_differ("--random-safe-walk"@, ":cr"@);
            lemma_lengths_differ("--random-safe-walk"@, "--random-safe-steps"@);
            lemma_lengths_differ("--random-safe-walk"@, ":rss"@);
            lemma_lengths_differ(":rsw"@, "--manual"@);
            lemma_chars_differ(":rsw"@, ":man"@, 1);
            lemma_lengths_differ(":rsw"@, "--source"@);
            lemma_chars_differ(":rsw"@, ":src"@, 1);
            lemma_lengths_differ(":rsw"@, "--facets"@);
            lemma_lengths_differ(":rsw"@, ":fs"@);
            lemma_lengths_differ(":rsw"@, "--facets-count"@);
            lemma_lengths_differ(":rsw"@, ":fc"@);
            lemma_lengths_differ(":rsw"@, "--initial-facets"@);
            lemma_chars_differ(":rsw"@, ":ifs"@, 1);
            lemma_lengths_differ(":rsw"@, "--initial-facets-count"@);
            lemma_chars_differ(":rsw"@, ":ifc"@, 1);
            lemma_lengths_differ(":rsw"@, "--activate"@);
            lemma_lengths_differ(":rsw"@, ":a"@);
            lemma_lengths_differ(":rsw"@, "--deactivate"@);
            lemma_lengths_differ(":rsw"@, ":d"@);
            lemma_lengths_differ(":rsw"@, "--clear-route"@);
            lemma_lengths_differ(":rsw"@, ":cr"@);
            lemma_lengths_differ(":rsw"@, "--random-safe-steps"@);
            lemma_chars_differ(":rsw"@, ":rss"@, 3);
        },
        Command::Step => {
            lemma_lengths_differ("--step"@, "--manual"@);
            lemma_lengths_differ("--step"@, ":man"@);
            lemma_lengths_differ("--step"@, "--source"@);
            lemma_lengths_differ("--step"@, ":src"@);
            lemma_lengths_differ("--step"@, "--facets"@);
            lemma_lengths_differ("--step"@, ":fs"@);
            lemma_lengths_differ("--step"@, "--facets-count"@);
            lemma_lengths_differ("--step"@, ":fc"@);
            lemma_lengths_differ("--step"@, "--initial-facets"@);
            lemma_lengths_differ("--step"@, ":ifs"@);
            lemma_lengths_differ("--step"@, "--initial-facets-count"@);
            lemma_lengths_differ("--step"@, ":ifc"@);
            lemma_lengths_differ("--step"@, "--activate"@);
            lemma_lengths_differ("--step"@, ":a"@);
            lemma_lengths_differ("--step"@, "--deactivate"@);
            lemma_lengths_differ("--step"@, ":d"@);
            lemma_lengths_differ("--step"@, "--clear-route"@);
            lemma_lengths_differ("--step"@, ":cr"@);
            lemma_lengths_differ("--step"@, "--random-safe-steps"@);
            lemma_lengths_differ("--step"@, ":rss"@);
            lemma_lengths_differ("--step"@, "--random-safe-walk"@);
            lemma_lengths_differ("--step"@, ":rsw"@);
            lemma_lengths_differ(":s"@, "--manual"@);
            lemma_lengths_differ(":s"@, ":man"@);
            lemma_lengths_differ(":s"@, "--source"@);
            lemma_lengths_differ(":s"@, ":src"@);
            lemma_lengths_differ(":s"@, "--facets"@);
            lemma_lengths_differ(":s"@, ":fs"@);
            lemma_lengths_differ(":s"@, "--facets-count"@);
            lemma_lengths_differ(":s"@, ":fc"@);
            lemma_lengths_differ(":s"@, "--initial-facets"@);
            lemma_lengths_differ(":s"@, ":ifs"@);
            lemma_lengths_differ(":s"@, "--initial-facets-count"@);
            lemma_lengths_differ(":s"@, ":ifc"@);
            lemma_lengths_differ(":s"@, "--activate"@);
            lemma_chars_differ(":s"@, ":a"@, 1);
            lemma_lengths_differ(":s"@, "--deactivate"@);
            lemma_chars_differ(":s"@, ":d"@, 1);
            lemma_lengths_differ(":s"@, "--clear-route"@);
            lemma_lengths_differ(":s"@, ":cr"@);
            lemma_lengths_differ(":s"@, "--random-safe-steps"@);
            lemma_lengths_differ(":s"@, ":rss"@);
            lemma_lengths_differ(":s"@, "--random-safe-walk"@);
            lemma_lengths_differ(":s"@, ":rsw"@);
        },
        Command::StepN => {
            lemma_chars_differ("--step-n"@, "--manual"@, 2);
            lemma_lengths_differ("--step-n"@, ":man"@);
            lemma_chars_differ("--step-n"@, "--source"@, 3);
            lemma_lengths_differ("--step-n"@, ":src"@);
            lemma_chars_differ("--step-n"@, "--facets"@, 2);
            lemma_lengths_differ("--step-n"@, ":fs"@);
            lemma_lengths_differ("--step-n"@, "--facets-count"@);
            lemma_lengths_differ("--step-n"@, ":fc"@);
            lemma_lengths_differ("--step-n"@, "--initial-facets"@);
            lemma_lengths_differ("--step-n"@, ":ifs"@);
            lemma_lengths_differ("--step-n"@, "--initial-facets-count"@);
            lemma_lengths_differ("--step-n"@, ":ifc"@);
            lemma_lengths_differ("--step-n"@, "--activate"@);
            lemma_lengths_differ("--step-n"@, ":a"@);
            lemma_lengths_differ("--step-n"@, "--deactivate"@);
            lemma_lengths_differ("--step-n"@, ":d"@);
            lemma_lengths_differ("--step-n"@, "--clear-route"@);
            lemma_lengths_differ("--step-n"@, ":cr"@);
            lemma_lengths_differ("--step-n"@, "--random-safe-steps"@);
            lemma_lengths_differ("--step-n"@, ":rss"@);
            lemma_lengths_differ("--step-n"@, "--random-safe-walk"@);
            lemma_lengths_differ("--step-n"@, ":rsw"@);
            lemma_lengths_differ("--step-n"@, "--step"@);
            lemma_lengths_differ("--step-n"@, ":s"@);
            lemma_lengths_differ(":sn"@, "--manual"@);
            lemma_lengths_differ(":sn"@, ":man"@);
            lemma_lengths_differ(":sn"@, "--source"@);
            lemma_lengths_differ(":sn"@, ":src"@);
            lemma_lengths_differ(":sn"@, "--facets"@);
            lemma_chars_differ(":sn"@, ":fs"@, 1);
            lemma_lengths_differ(":sn"@, "--facets-count"@);
            lemma_chars_differ(":sn"@, ":fc"@, 1);
            lemma_lengths_differ(":sn"@, "--initial-facets"@);
            lemma_lengths_differ(":sn"@, ":ifs"@);
            lemma_lengths_differ(":sn"@, "--initial-facets-count"@);
            lemma_lengths_differ(":sn"@, ":ifc"@);
            lemma_lengths_differ(":sn"@, "--activate"@);
            lemma_lengths_differ(":sn"@, ":a"@);
            lemma_lengths_differ(":sn"@, "--deactivate"@);
            lemma_lengths_differ(":sn"@, ":d"@);
            lemma_lengths_differ(":sn"@, "--clear-route"@);
            lemma_chars_differ(":sn"@, ":cr"@, 1);
            lemma_lengths_differ(":sn"@, "--random-safe-steps"@);
            lemma_lengths_differ(":sn"@, ":rss"@);
            lemma_lengths_differ(":sn"@, "--random-safe-walk"@);
            lemma_lengths_differ(":sn"@, ":rsw"@);
            lemma_lengths_differ(":sn"@, "--step"@);
            lemma_lengths_differ(":sn"@, ":s"@);
        },
        Command::Navigate => {
            lemma_lengths_differ("--navigate"@, "--manual"@);
            lemma_lengths_differ("--navigate"@, ":man"@);
            lemma_lengths_differ("--navigate"@, "--source"@);
            lemma_lengths_differ("--navigate"@, ":src"@);
            lemma_lengths_differ("--navigate"@, "--facets"@);
            lemma_lengths_differ("--navigate"@, ":fs"@);
            lemma_lengths_differ("--navigate"@, "--facets-count"@);
            lemma_lengths_differ("--navigate"@, ":fc"@);
            lemma_lengths_differ("--navigate"@, "--initial-facets"@);
            lemma_lengths_differ("--navigate"@, ":ifs"@);
            lemma_lengths_differ("--navigate"@, "--initial-facets-count"@);
            lemma_lengths_differ("--navigate"@, ":ifc"@);
            lemma_chars_differ("--navigate"@, "--activate"@, 2);
            lemma_lengths_differ("--navigate"@, ":a"@);
            lemma_lengths_differ("--navigate"@, "--deactivate"@);
            lemma_lengths_differ("--navigate"@, ":d"@);
            lemma_lengths_differ("--navigate"@, "--clear-route"@);
            lemma_lengths_differ("--navigate"@, ":cr"@);
            lemma_lengths_differ("--navigate"@, "--random-safe-steps"@);
            lemma_lengths_differ("--navigate"@, ":rss"@);
            lemma_lengths_differ("--navigate"@, "--random-safe-walk"@);
            lemma_lengths_differ("--navigate"@, ":rsw"@);
            lemma_lengths_differ("--navigate"@, "--step"@);
            lemma_lengths_differ("--navigate"@, ":s"@);
            lemma_lengths_differ("--navigate"@, "--step-n"@);
            lemma_lengths_differ("--navigate"@, ":sn"@);
            lemma_lengths_differ(":n"@, "--manual"@);
            lemma_lengths_differ(":n"@, ":man"@);
            lemma_lengths_differ(":n"@, "--source"@);
            lemma_lengths_differ(":n"@, ":src"@);
            lemma_lengths_differ(":n"@, "--facets"@);
            lemma_lengths_differ(":n"@, ":fs"@);
            lemma_lengths_differ(":n"@, "--facets-count"@);
            lemma_lengths_differ(":n"@, ":fc"@);
            lemma_lengths_differ(":n"@, "--initial-facets"@);
            lemma_lengths_differ(":n"@, ":ifs"@);
            lemma_lengths_differ(":n"@, "--initial-facets-count"@);
            lemma_lengths_differ(":n"@, ":ifc"@);
            lemma_lengths_differ(":n"@, "--activate"@);
            lemma_chars_differ(":n"@, ":a"@, 1);
            lemma_lengths_differ(":n"@, "--deactivate"@);
            lemma_chars_differ(":n"@, ":d"@, 1);
            lemma_lengths_differ(":n"@, "--clear-route"@);
            lemma_lengths_differ(":n"@, ":cr"@);
            lemma_lengths_differ(":n"@, "--random-safe-steps"@);
            lemma_lengths_differ(":n"@, ":rss"@);
            lemma_lengths_differ(":n"@, "--random-safe-walk"@);
            lemma_lengths_differ(":n"@, ":rsw"@);
            lemma_lengths_differ(":n"@, "--step"@);
            lemma_chars_differ(":n"@, ":s"@, 1);
            lemma_lengths_differ(":n"@, "--step-n"@);
            lemma_lengths_differ(":n"@, ":sn"@);
        },
        Command::NavigateN => {
            lemma_lengths_differ("--navigate-n-models"@, "--manual"@);
            lemma_lengths_differ("--navigate-n-models"@, ":man"@);
            lemma_lengths_differ("--navigate-n-models"@, "--source"@);
            lemma_lengths_differ("--navigate-n-models"@, ":src"@);
            lemma_lengths_differ("--navigate-n-models"@, "--facets"@);
            lemma_lengths_differ("--navigate-n-models"@, ":fs"@);
            lemma_lengths_differ("--navigate-n-models"@, "--facets-count"@);
            lemma_lengths_differ("--navigate-n-models"@, ":fc"@);
            lemma_lengths_differ("--navigate-n-models"@, "--initial-facets"@);
            lemma_lengths_differ("--navigate-n-models"@, ":ifs"@);
            lemma_lengths_differ("--navigate-n-models"@, "--initial-facets-count"@);
            lemma_lengths_differ("--navigate-n-models"@, ":ifc"@);
            lemma_lengths_differ("--navigate-n-models"@, "--activate"@);
            lemma_lengths_differ("--navigate-n-models"@, ":a"@);
            lemma_lengths_differ("--navigate-n-models"@, "--deactivate"@);
            lemma_lengths_differ("--navigate-n-models"@, ":d"@);
            lemma_lengths_differ("--navigate-n-models"@, "--clear-route"@);
            lemma_lengths_differ("--navigate-n-models"@, ":cr"@);
            lemma_chars_differ("--navigate-n-models"@, "--random-safe-steps"@, 2);
            lemma_lengths_differ("--navigate-n-models"@, ":rss"@);
            lemma_lengths_differ("--navigate-n-models"@, "--random-safe-walk"@);
            lemma_lengths_differ("--navigate-n-models"@, ":rsw"@);
            lemma_lengths_differ("--navigate-n-models"@, "--step"@);
            lemma_lengths_differ("--navigate-n-models"@, ":s"@);
            lemma_lengths_differ("--navigate-n-models"@, "--step-n"@);
            lemma_lengths_differ("--navigate-n-models"@, ":sn"@);
            lemma_lengths_differ("--navigate-n-models"@, "--navigate"@);
            lemma_lengths_differ("--navigate-n-models"@, ":n"@);
            lemma_lengths_differ(":nn"@, "--manual"@);
            lemma_lengths_differ(":nn"@, ":man"@);
            lemma_lengths_differ(":nn"@, "--source"@);
            lemma_lengths_differ(":nn"@, ":src"@);
            lemma_lengths_differ(":nn"@, "--facets"@);
            lemma_chars_differ(":nn"@, ":fs"@, 1);
            lemma_lengths_differ(":nn"@, "--facets-count"@);
            lemma_chars_differ(":nn"@, ":fc"@, 1);
            lemma_lengths_differ(":nn"@, "--initial-facets"@);
            lemma_lengths_differ(":nn"@, ":ifs"@);
            lemma_lengths_differ(":nn"@, "--initial-facets-count"@);
            lemma_lengths_differ(":nn"@, ":ifc"@);
            lemma_lengths_differ(":nn"@, "--activate"@);
            lemma_lengths_differ(":nn"@, ":a"@);
            lemma_lengths_differ(":nn"@, "--deactivate"@);
            lemma_lengths_differ(":nn"@, ":d"@);
            lemma_lengths_differ(":nn"@, "--clear-route"@);
            lemma_chars_differ(":nn"@, ":cr"@, 1);
            lemma_lengths_differ(":nn"@, "--random-safe-steps"@);
            lemma_lengths_differ(":nn"@, ":rss"@);
            lemma_lengths_differ(":nn"@, "--random-safe-walk"@);
            lemma_lengths_differ(":nn"@, ":rsw"@);
            lemma_lengths_differ(":nn"@, "--step"@);
            lemma_lengths_differ(":nn"@, ":s"@);
            lemma_lengths_differ(":nn"@, "--step-n"@);
            lemma_chars_differ(":nn"@, ":sn"@, 1);
            lemma_lengths_differ(":nn"@, "--navigate"@);
            lemma_lengths_differ(":nn"@, ":n"@);
        },
        Command::ZoomHigherActivate => {
            lemma_lengths_differ("--find-facet-with-zoom-higher-than-and-activate"@, "--manual"@);
            lemma_lengths_differ("--find-facet-with-zoom-higher-than-and-activate"@, ":man"@);
            lemma_lengths_differ("--find-facet-with-zoom-higher-than-and-activate"@, "--source"@);
            lemma_lengths_differ("--find-facet-with-zoom-higher-than-and-activate"@, ":src"@);
            lemma_lengths_differ("--find-facet-with-zoom-higher-than-and-activate"@, "--facets"@);
            lemma_lengths_differ("--find-facet-with-zoom-higher-than-and-activate"@, ":fs"@);
            lemma_lengths_differ("--find-facet-with-zoom-higher-than-and-activate"@, "--facets-count"@);
            lemma_lengths_differ("--find-facet-with-zoom-higher-than-and-activate"@, ":fc"@);
            lemma_lengths_differ("--find-facet-with-zoom-higher-than-and-activate"@, "--initial-facets"@);
            lemma_lengths_differ("--find-facet-with-zoom-higher-than-and-activate"@, ":ifs"@);
            lemma_lengths_differ("--find-facet-with-zoom-higher-than-and-activate"@, "--initial-facets-count"@);
            lemma_lengths_differ("--find-facet-with-zoom-higher-than-and-activate"@, ":ifc"@);
            lemma_lengths_differ("--find-facet-with-zoom-higher-than-and-activate"@, "--activate"@);
            lemma_lengths_differ("--find-facet-with-zoom-higher-than-and-activate"@, ":a"@);
            lemma_lengths_differ("--find-facet-with-zoom-higher-than-and-activate"@, "--deactivate"@);
            lemma_lengths_differ("--find-facet-with-zoom-higher-than-and-activate"@, ":d"@);
            lemma_lengths_differ("--find-facet-with-zoom-higher-than-and-activate"@, "--clear-route"@);
            lemma_lengths_differ("--find-facet-with-zoom-higher-than-and-activate"@, ":cr"@);
            lemma_lengths_differ("--find-facet-with-zoom-higher-than-and-activate"@, "--random-safe-steps"@);
            lemma_lengths_differ("--find-facet-with-zoom-higher-than-and-activate"@, ":rss"@);
            lemma_lengths_differ("--find-facet-with-zoom-higher-than-and-activate"@, "--random-safe-walk"@);
            lemma_lengths_differ("--find-facet-with-zoom-higher-than-and-activate"@, ":rsw"@);
            lemma_lengths_differ("--find-facet-with-zoom-higher-than-and-activate"@, "--step"@);
            lemma_lengths_differ("--find-facet-with-zoom-higher-than-and-activate"@, ":s"@);
            lemma_lengths_differ("--find-facet-with-zoom-higher-than-and-activate"@, "--step-n"@);
            lemma_lengths_differ("--find-facet-with-zoom-higher-than-and-activate"@, ":sn"@);
            lemma_lengths_differ("--find-facet-with-zoom-higher-than-and-activate"@, "--navigate"@);
            lemma_lengths_differ("--find-facet-with-zoom-higher-than-and-activate"@, ":n"@);
            lemma_lengths_differ("--find-facet-with-zoom-higher-than-and-activate"@, "--navigate-n-models"@);
            lemma_lengths_differ("--find-facet-with-zoom-higher-than-and-activate"@, ":nn"@);
            lemma_lengths_differ(":zha"@, "--manual"@);
            lemma_chars_differ(":zha"@, ":man"@, 1);
            lemma_lengths_differ(":zha"@, "--source"@);
            lemma_chars_differ(":zha"@, ":src"@, 1);
            lemma_lengths_differ(":zha"@, "--facets"@);
            lemma_lengths_differ(":zha"@, ":fs"@);
            lemma_lengths_differ(":zha"@, "--facets-count"@);
            lemma_lengths_differ(":zha"@, ":fc"@);
            lemma_lengths_differ(":zha"@, "--initial-facets"@);
            lemma_chars_differ(":zha"@, ":ifs"@, 1);
            lemma_lengths_differ(":zha"@, "--initial-facets-count"@);
            lemma_chars_differ(":zha"@, ":ifc"@, 1);
            lemma_lengths_differ(":zha"@, "--activate"@);
            lemma_lengths_differ(":zha"@, ":a"@);
            lemma_lengths_differ(":zha"@, "--deactivate"@);
            lemma_lengths_differ(":zha"@, ":d"@);
            lemma_lengths_differ(":zha"@, "--clear-route"@);
            lemma_lengths_differ(":zha"@, ":cr"@);
            lemma_lengths_differ(":zha"@, "--random-safe-steps"@);
            lemma_chars_differ(":zha"@, ":rss"@, 1);
            lemma_lengths_differ(":zha"@, "--random-safe-walk"@);
            lemma_chars_differ(":zha"@, ":rsw"@, 1);
            lemma_lengths_differ(":zha"@, "--step"@);
            lemma_lengths_differ(":zha"@, ":s"@);
            lemma_lengths_differ(":zha"@, "--step-n"@);
            lemma_lengths_differ(":zha"@, ":sn"@);
            lemma_lengths_differ(":zha"@, "--navigate"@);
            lemma_lengths_differ(":zha"@, ":n"@);
            lemma_lengths_differ(":zha"@, "--navigate-n-models"@);
            lemma_lengths_differ(":zha"@, ":nn"@);
        },
        Command::ZoomLowerActivate => {
            lemma_lengths_differ("--find-facet-with-zoom-lower-than-and-activate"@, "--manual"@);
            lemma_lengths_differ("--find-facet-with-zoom-lower-than-and-activate"@, ":man"@);
            lemma_lengths_differ("--find-facet-with-zoom-lower-than-and-activate"@, "--source"@);
            lemma_lengths_differ("--find-facet-with-zoom-lower-than-and-activate"@, ":src"@);
            lemma_lengths_differ("--find-facet-with-zoom-lower-than-and-activate"@, "--facets"@);
            lemma_lengths_differ("--find-facet-with-zoom-lower-than-and-activate"@, ":fs"@);
            lemma_lengths_differ("--find-facet-with-zoom-lower-than-and-activate"@, "--facets-count"@);
            lemma_lengths_differ("--find-facet-with-zoom-lower-than-and-activate"@, ":fc"@);
            lemma_lengths_differ("--find-facet-with-zoom-lower-than-and-activate"@, "--initial-facets"@);
            lemma_lengths_differ("--find-facet-with-zoom-lower-than-and-activate"@, ":ifs"@);
            lemma_lengths_differ("--find-facet-with-zoom-lower-than-and-activate"@, "--initial-facets-count"@);
            lemma_lengths_differ("--find-facet-with-zoom-lower-than-and-activate"@, ":ifc"@);
            lemma_lengths_differ("--find-facet-with-zoom-lower-than-and-activate"@, "--activate"@);
            lemma_lengths_differ("--find-facet-with-zoom-lower-than-and-activate"@, ":a"@);
            lemma_lengths_differ("--find-facet-with-zoom-lower-than-and-activate"@, "--deactivate"@);
            lemma_lengths_differ("--find-facet-with-zoom-lower-than-and-activate"@, ":d"@);
            lemma_lengths_differ("--find-facet-with-zoom-lower-than-and-activate"@, "--clear-route"@);
            lemma_lengths_differ("--find-facet-with-zoom-lower-than-and-activate"@, ":cr"@);
            lemma_lengths_differ("--find-facet-with-zoom-lower-than-and-activate"@, "--random-safe-steps"@);
            lemma_lengths_differ("--find-facet-with-zoom-lower-than-and-activate"@, ":rss"@);
            lemma_lengths_differ("--find-facet-with-zoom-lower-than-and-activate"@, "--random-safe-walk"@);
            lemma_lengths_differ("--find-facet-with-zoom-lower-than-and-activate"@, ":rsw"@);
            lemma_lengths_differ("--find-facet-with-zoom-lower-than-and-activate"@, "--step"@);
            lemma_lengths_differ("--find-facet-with-zoom-lower-than-and-activate"@, ":s"@);
            lemma_lengths_differ("--find-facet-with-zoom-lower-than-and-activate"@, "--step-n"@);
            lemma_lengths_differ("--find-facet-with-zoom-lower-than-and-activate"@, ":sn"@);
            lemma_lengths_differ("--find-facet-with-zoom-lower-than-and-activate"@, "--navigate"@);
            lemma_lengths_differ("--find-facet-with-zoom-lower-than-and-activate"@, ":n"@);
            lemma_lengths_differ("--find-facet-with-zoom-lower-than-and-activate"@, "--navigate-n-models"@);
            lemma_lengths_differ("--find-facet-with-zoom-lower-than-and-activate"@, ":nn"@);
            lemma_lengths_differ("--find-facet-with-zoom-lower-than-and-activate"@, "--find-facet-with-zoom-higher-than-and-activate"@);
            lemma_lengths_differ("--find-facet-with-zoom-lower-than-and-activate"@, ":zha"@);
            lemma_lengths_differ(":zla"@, "--manual"@);
            lemma_chars_differ(":zla"@, ":man"@, 1);
            lemma_lengths_differ(":zla"@, "--source"@);
            lemma_chars_differ(":zla"@, ":src"@, 1);
            lemma_lengths_differ(":zla"@, "--facets"@);
            lemma_lengths_differ(":zla"@, ":fs"@);
            lemma_lengths_differ(":zla"@, "--facets-count"@);
            lemma_lengths_differ(":zla"@, ":fc"@);
            lemma_lengths_differ(":zla"@, "--initial-facets"@);
            lemma_chars_differ(":zla"@, ":ifs"@, 1);
            lemma_lengths_differ(":zla"@, "--initial-facets-count"@);
            lemma_chars_differ(":zla"@, ":ifc"@, 1);
            lemma_lengths_differ(":zla"@, "--activate"@);
            lemma_lengths_differ(":zla"@, ":a"@);
            lemma_lengths_differ(":zla"@, "--deactivate"@);
            lemma_lengths_differ(":zla"@, ":d"@);
            lemma_lengths_differ(":zla"@, "--clear-route"@);
            lemma_lengths_differ(":zla"@, ":cr"@);
            lemma_lengths_differ(":zla"@, "--random-safe-steps"@);
            lemma_chars_differ(":zla"@, ":rss"@, 1);
            lemma_lengths_differ(":zla"@, "--random-safe-walk"@);
            lemma_chars_differ(":zla"@, ":rsw"@, 1);
            lemma_lengths_differ(":zla"@, "--step"@);
            lemma_lengths_differ(":zla"@, ":s"@);
            lemma_lengths_differ(":zla"@, "--step-n"@);
            lemma_lengths_differ(":zla"@, ":sn"@);
            lemma_lengths_differ(":zla"@, "--navigate"@);
            lemma_lengths_differ(":zla"@, ":n"@);
            lemma_lengths_differ(":zla"@, "--navigate-n-models"@);
            lemma_lengths_differ(":zla"@, ":nn"@);
            lemma_lengths_differ(":zla"@, "--find-facet-with-zoom-higher-than-and-activate"@);
            lemma_chars_differ(":zla"@, ":zha"@, 2);
        },
        Command::SwitchMode => {
            lemma_lengths_differ("--switch-mode"@, "--manual"@);
            lemma_lengths_differ("--switch-mode"@, ":man"@);
            lemma_lengths_differ("--switch-mode"@, "--source"@);
            lemma_lengths_differ("--switch-mode"@, ":src"@);
            lemma_lengths_differ("--switch-mode"@, "--facets"@);
            lemma_lengths_differ("--switch-mode"@, ":fs"@);
            lemma_lengths_differ("--switch-mode"@, "--facets-count"@);
            lemma_lengths_differ("--switch-mode"@, ":fc"@);
            lemma_lengths_differ("--switch-mode"@, "--initial-facets"@);
            lemma_lengths_differ("--switch-mode"@, ":ifs"@);
            lemma_lengths_differ("--switch-mode"@, "--initial-facets-count"@);
            lemma_lengths_differ("--switch-mode"@, ":ifc"@);
            lemma_lengths_differ("--switch-mode"@, "--activate"@);
            lemma_lengths_differ("--switch-mode"@, ":a"@);
            lemma_lengths_differ("--switch-mode"@, "--deactivate"@);
            lemma_lengths_differ("--switch-mode"@, ":d"@);
            lemma_chars_differ("--switch-mode"@, "--clear-route"@, 2);
            lemma_lengths_differ("--switch-mode"@, ":cr"@);
            lemma_lengths_differ("--switch-mode"@, "--random-safe-steps"@);
            lemma_lengths_differ("--switch-mode"@, ":rss"@);
            lemma_lengths_differ("--switch-mode"@, "--random-safe-walk"@);
            lemma_lengths_differ("--switch-mode"@, ":rsw"@);
            lemma_lengths_differ("--switch-mode"@, "--step"@);
            lemma_lengths_differ("--switch-mode"@, ":s"@);
            lemma_lengths_differ("--switch-mode"@, "--step-n"@);
            lemma_lengths_differ("--switch-mode"@, ":sn"@);
            lemma_lengths_differ("--switch-mode"@, "--navigate"@);
            lemma_lengths_differ("--switch-mode"@, ":n"@);
            lemma_lengths_differ("--switch-mode"@, "--navigate-n-models"@);
            lemma_lengths_differ("--switch-mode"@, ":nn"@);
            lemma_lengths_differ("--switch-mode"@, "--find-facet-with-zoom-higher-than-and-activate"@);
            lemma_lengths_differ("--switch-mode"@, ":zha"@);
            lemma_lengths_differ("--switch-mode"@, "--find-facet-with-zoom-lower-than-and-activate"@);
            lemma_lengths_differ("--switch-mode"@, ":zla"@);
            lemma_lengths_differ(":sm"@, "--manual"@);
            lemma_lengths_differ(":sm"@, ":man"@);
            lemma_lengths_differ(":sm"@, "--source"@);
            lemma_lengths_differ(":sm"@, ":src"@);
            lemma_lengths_differ(":sm"@, "--facets"@);
            lemma_chars_differ(":sm"@, ":fs"@, 1);
            lemma_lengths_differ(":sm"@, "--facets-count"@);
            lemma_chars_differ(":sm"@, ":fc"@, 1);
            lemma_lengths_differ(":sm"@, "--initial-facets"@);
            lemma_lengths_differ(":sm"@, ":ifs"@);
            lemma_lengths_differ(":sm"@, "--initial-facets-count"@);
            lemma_lengths_differ(":sm"@, ":ifc"@);
            lemma_lengths_differ(":sm"@, "--activate"@);
            lemma_lengths_differ(":sm"@, ":a"@);
            lemma_lengths_differ(":sm"@, "--deactivate"@);
            lemma_lengths_differ(":sm"@, ":d"@);
            lemma_lengths_differ(":sm"@, "--clear-route"@);
            lemma_chars_differ(":sm"@, ":cr"@, 1);
            lemma_lengths_differ(":sm"@, "--random-safe-steps"@);
            lemma_lengths_differ(":sm"@, ":rss"@);
            lemma_lengths_differ(":sm"@, "--random-safe-walk"@);
            lemma_lengths_differ(":sm"@, ":rsw"@);
            lemma_lengths_differ(":sm"@, "--step"@);
            lemma_lengths_differ(":sm"@, ":s"@);
            lemma_lengths_differ(":sm"@, "--step-n"@);
            lemma_chars_differ(":sm"@, ":sn"@, 2);
            lemma_lengths_differ(":sm"@, "--navigate"@);
            lemma_lengths_differ(":sm"@, ":n"@);
            lemma_lengths_differ(":sm"@, "--navigate-n-models"@);
            lemma_chars_differ(":sm"@, ":nn"@, 1);
            lemma_lengths_differ(":sm"@, "--find-facet-with-zoom-higher-than-and-activate"@);
            lemma_lengths_differ(":sm"@, ":zha"@);
            lemma_lengths_differ(":sm"@, "--find-facet-with-zoom-lower-than-and-activate"@);
            lemma_lengths_differ(":sm"@, ":zla"@);
        },
        Command::Weight => {
            lemma_chars_differ("?-weight"@, "--manual"@, 0);
            lemma_lengths_differ("?-weight"@, ":man"@);
            lemma_chars_differ("?-weight"@, "--source"@, 0);
            lemma_lengths_differ("?-weight"@, ":src"@);
            lemma_chars_differ("?-weight"@, "--facets"@, 0);
            lemma_lengths_differ("?-weight"@, ":fs"@);
            lemma_lengths_differ("?-weight"@, "--facets-count"@);
            lemma_lengths_differ("?-weight"@, ":fc"@);
            lemma_lengths_differ("?-weight"@, "--initial-facets"@);
            lemma_lengths_differ("?-weight"@, ":ifs"@);
            lemma_lengths_differ("?-weight"@, "--initial-facets-count"@);
            lemma_lengths_differ("?-weight"@, ":ifc"@);
            lemma_lengths_differ("?-weight"@, "--activate"@);
            lemma_lengths_differ("?-weight"@, ":a"@);
            lemma_lengths_differ("?-weight"@, "--deactivate"@);
            lemma_lengths_differ("?-weight"@, ":d"@);
            lemma_lengths_differ("?-weight"@, "--clear-route"@);
            lemma_lengths_differ("?-weight"@, ":cr"@);
            lemma_lengths_differ("?-weight"@, "--random-safe-steps"@);
            lemma_lengths_differ("?-weight"@, ":rss"@);
            lemma_lengths_differ("?-weight"@, "--random-safe-walk"@);
            lemma_lengths_differ("?-weight"@, ":rsw"@);
            lemma_lengths_differ("?-weight"@, "--step"@);
            lemma_lengths_differ("?-weight"@, ":s"@);
            lemma_chars_differ("?-weight"@, "--step-n"@, 0);
            lemma_lengths_differ("?-weight"@, ":sn"@);
            lemma_lengths_differ("?-weight"@, "--navigate"@);
            lemma_lengths_differ("?-weight"@, ":n"@);
            lemma_lengths_differ("?-weight"@, "--navigate-n-models"@);
            lemma_lengths_differ("?-weight"@, ":nn"@);
            lemma_lengths_differ("?-weight"@, "--find-facet-with-zoom-higher-than-and-activate"@);
            lemma_lengths_differ("?-weight"@, ":zha"@);
            lemma_lengths_differ("?-weight"@, "--find-facet-with-zoom-lower-than-and-activate"@);
            lemma_lengths_differ("?-weight"@, ":zla"@);
            lemma_lengths_differ("?-weight"@, "--switch-mode"@);
            lemma_lengths_differ("?-weight"@, ":sm"@);
            lemma_lengths_differ("?w"@, "--manual"@);
            lemma_lengths_differ("?w"@, ":man"@);
            lemma_lengths_differ("?w"@, "--source"@);
            lemma_lengths_differ("?w"@, ":src"@);
            lemma_lengths_differ("?w"@, "--facets"@);
            lemma_lengths_differ("?w"@, ":fs"@);
            lemma_lengths_differ("?w"@, "--facets-count"@);
            lemma_lengths_differ("?w"@, ":fc"@);
            lemma_lengths_differ("?w"@, "--initial-facets"@);
            lemma_lengths_differ("?w"@, ":ifs"@);
            lemma_lengths_differ("?w"@, "--initial-facets-count"@);
            lemma_lengths_differ("?w"@, ":ifc"@);
            lemma_lengths_differ("?w"@, "--activate"@);
            lemma_chars_differ("?w"@, ":a"@, 0);
            lemma_lengths_differ("?w"@, "--deactivate"@);
            lemma_chars_differ("?w"@, ":d"@, 0);
            lemma_lengths_differ("?w"@, "--clear-route"@);
            lemma_lengths_differ("?w"@, ":cr"@);
            lemma_lengths_differ("?w"@, "--random-safe-steps"@);
            lemma_lengths_differ("?w"@, ":rss"@);
            lemma_lengths_differ("?w"@, "--random-safe-walk"@);
            lemma_lengths_differ("?w"@, ":rsw"@);
            lemma_lengths_differ("?w"@, "--step"@);
            lemma_chars_differ("?w"@, ":s"@, 0);
            lemma_lengths_differ("?w"@, "--step-n"@);
            lemma_lengths_differ("?w"@, ":sn"@);
            lemma_lengths_differ("?w"@, "--navigate"@);
            lemma_chars_differ("?w"@, ":n"@, 0);
            lemma_lengths_differ("?w"@, "--navigate-n-models"@);
            lemma_lengths_differ("?w"@, ":nn"@);
            lemma_lengths_differ("?w"@, "--find-facet-with-zoom-higher-than-and-activate"@);
            lemma_lengths_differ("?w"@, ":zha"@);
            lemma_lengths_differ("?w"@, "--find-facet-with-zoom-lower-than-and-activate"@);
            lemma_lengths_differ("?w"@, ":zla"@);
            lemma_lengths_differ("?w"@, "--switch-mode"@);
            lemma_lengths_differ("?w"@, ":sm"@);
        },
        Command::Zoom => {
            lemma_lengths_differ("?-zoom"@, "--manual"@);
            lemma_lengths_differ("?-zoom"@, ":man"@);
            lemma_lengths_differ("?-zoom"@, "--source"@);
            lemma_lengths_differ("?-zoom"@, ":src"@);
            lemma_lengths_differ("?-zoom"@, "--facets"@);
            lemma_lengths_differ("?-zoom"@, ":fs"@);
            lemma_lengths_differ("?-zoom"@, "--facets-count"@);
            lemma_lengths_differ("?-zoom"@, ":fc"@);
            lemma_lengths_differ("?-zoom"@, "--initial-facets"@);
            lemma_lengths_differ("?-zoom"@, ":ifs"@);
            lemma_lengths_differ("?-zoom"@, "--initial-facets-count"@);
            lemma_lengths_differ("?-zoom"@, ":ifc"@);
            lemma_lengths_differ("?-zoom"@, "--activate"@);
            lemma_lengths_differ("?-zoom"@, ":a"@);
            lemma_lengths_differ("?-zoom"@, "--deactivate"@);
            lemma_lengths_differ("?-zoom"@, ":d"@);
            lemma_lengths_differ("?-zoom"@, "--clear-route"@);
            lemma_lengths_differ("?-zoom"@, ":cr"@);
            lemma_lengths_differ("?-zoom"@, "--random-safe-steps"@);
            lemma_lengths_differ("?-zoom"@, ":rss"@);
            lemma_lengths_differ("?-zoom"@, "--random-safe-walk"@);
            lemma_lengths_differ("?-zoom"@, ":rsw"@);
            lemma_chars_differ("?-zoom"@, "--step"@, 0);
            lemma_lengths_differ("?-zoom"@, ":s"@);
            lemma_lengths_differ("?-zoom"@, "--step-n"@);
            lemma_lengths_differ("?-zoom"@, ":sn"@);
            lemma_lengths_differ("?-zoom"@, "--navigate"@);
            lemma_lengths_differ("?-zoom"@, ":n"@);
            lemma_lengths_differ("?-zoom"@, "--navigate-n-models"@);
            lemma_lengths_differ("?-zoom"@, ":nn"@);
            lemma_lengths_differ("?-zoom"@, "--find-facet-with-zoom-higher-than-and-activate"@);
            lemma_lengths_differ("?-zoom"@, ":zha"@);
            lemma_lengths_differ("?-zoom"@, "--find-facet-with-zoom-lower-than-and-activate"@);
            lemma_lengths_differ("?-zoom"@, ":zla"@);
            lemma_lengths_differ("?-zoom"@, "--switch-mode"@);
            lemma_lengths_differ("?-zoom"@, ":sm"@);
            lemma_lengths_differ("?-zoom"@, "?-weight"@);
            lemma_lengths_differ("?-zoom"@, "?w"@);
            lemma_lengths_differ("?z"@, "--manual"@);
            lemma_lengths_differ("?z"@, ":man"@);
            lemma_lengths_differ("?z"@, "--source"@);
            lemma_lengths_differ("?z"@, ":src"@);
            lemma_lengths_differ("?z"@, "--facets"@);
            lemma_lengths_differ("?z"@, ":fs"@);
            lemma_lengths_differ("?z"@, "--facets-count"@);
            lemma_lengths_differ("?z"@, ":fc"@);
            lemma_lengths_differ("?z"@, "--initial-facets"@);
            lemma_lengths_differ("?z"@, ":ifs"@);
            lemma_lengths_differ("?z"@, "--initial-facets-count"@);
            lemma_lengths_differ("?z"@, ":ifc"@);
            lemma_lengths_differ("?z"@, "--activate"@);
            lemma_chars_differ("?z"@, ":a"@, 0);
            lemma_lengths_differ("?z"@, "--deactivate"@);
            lemma_chars_differ("?z"@, ":d"@, 0);
            lemma_lengths_differ("?z"@, "--clear-route"@);
            lemma_lengths_differ("?z"@, ":cr"@);
            lemma_lengths_differ("?z"@, "--random-safe-steps"@);
            lemma_lengths_differ("?z"@, ":rss"@);
            lemma_lengths_differ("?z"@, "--random-safe-walk"@);
            lemma_lengths_differ("?z"@, ":rsw"@);
            lemma_lengths_differ("?z"@, "--step"@);
            lemma_chars_differ("?z"@, ":s"@, 0);
            lemma_lengths_differ("?z"@, "--step-n"@);
            lemma_lengths_differ("?z"@, ":sn"@);
            lemma_lengths_differ("?z"@, "--navigate"@);
            lemma_chars_differ("?z"@, ":n"@, 0);
            lemma_lengths_differ("?z"@, "--navigate-n-models"@);
            lemma_lengths_differ("?z"@, ":nn"@);
            lemma_lengths_differ("?z"@, "--find-facet-with-zoom-higher-than-and-activate"@);
            lemma_lengths_differ("?z"@, ":zha"@);
            lemma_lengths_differ("?z"@, "--find-facet-with-zoom-lower-than-and-activate"@);
            lemma_lengths_differ("?z"@, ":zla"@);
            lemma_lengths_differ("?z"@, "--switch-mode"@);
            lemma_lengths_differ("?z"@, ":sm"@);
            lemma_lengths_differ("?z"@, "?-weight"@);
            lemma_chars_differ("?z"@, "?w"@, 1);
        },
        Command::RouteSafe => {
            lemma_lengths_differ("?-route-safe"@, "--manual"@);
            lemma_lengths_differ("?-route-safe"@, ":man"@);
            lemma_lengths_differ("?-route-safe"@, "--source"@);
            lemma_lengths_differ("?-route-safe"@, ":src"@);
            lemma_lengths_differ("?-route-safe"@, "--facets"@);
            lemma_lengths_differ("?-route-safe"@, ":fs"@);
            lemma_lengths_differ("?-route-safe"@, "--facets-count"@);
            lemma_lengths_differ("?-route-safe"@, ":fc"@);
            lemma_lengths_differ("?-route-safe"@, "--initial-facets"@);
            lemma_lengths_differ("?-route-safe"@, ":ifs"@);
            lemma_lengths_differ("?-route-safe"@, "--initial-facets-count"@);
            lemma_lengths_differ("?-route-safe"@, ":ifc"@);
            lemma_lengths_differ("?-route-safe"@, "--activate"@);
            lemma_lengths_differ("?-route-safe"@, ":a"@);
            lemma_chars_differ("?-route-safe"@, "--deactivate"@, 0);
            lemma_lengths_differ("?-route-safe"@, ":d"@);
            lemma_lengths_differ("?-route-safe"@, "--clear-route"@);
            lemma_lengths_differ("?-route-safe"@, ":cr"@);
            lemma_lengths_differ("?-route-safe"@, "--random-safe-steps"@);
            lemma_lengths_differ("?-route-safe"@, ":rss"@);
            lemma_lengths_differ("?-route-safe"@, "--random-safe-walk"@);
            lemma_lengths_differ("?-route-safe"@, ":rsw"@);
            lemma_lengths_differ("?-route-safe"@, "--step"@);
            lemma_lengths_differ("?-route-safe"@, ":s"@);
            lemma_lengths_differ("?-route-safe"@, "--step-n"@);
            lemma_lengths_differ("?-route-safe"@, ":sn"@);
            lemma_lengths_differ("?-route-safe"@, "--navigate"@);
            lemma_lengths_differ("?-route-safe"@, ":n"@);
            lemma_lengths_differ("?-route-safe"@, "--navigate-n-models"@);
            lemma_lengths_differ("?-route-safe"@, ":nn"@);
            lemma_lengths_differ("?-route-safe"@, "--find-facet-with-zoom-higher-than-and-activate"@);
            lemma_lengths_differ("?-route-safe"@, ":zha"@);
            lemma_lengths_differ("?-route-safe"@, "--find-facet-with-zoom-lower-than-and-activate"@);
            lemma_lengths_differ("?-route-safe"@, ":zla"@);
            lemma_lengths_differ("?-route-safe"@, "--switch-mode"@);
            lemma_lengths_differ("?-route-safe"@, ":sm"@);
            lemma_lengths_differ("?-route-safe"@, "?-weight"@);
            lemma_lengths_differ("?-route-safe"@, "?w"@);
            lemma_lengths_differ("?-route-safe"@, "?-zoom"@);
            lemma_lengths_differ("?-route-safe"@, "?z"@);
            lemma_lengths_differ("?rs"@, "--manual"@);
            lemma_lengths_differ("?rs"@, ":man"@);
            lemma_lengths_differ("?rs"@, "--source"@);
            lemma_lengths_differ("?rs"@, ":src"@);
            lemma_lengths_differ("?rs"@, "--facets"@);
            lemma_chars_differ("?rs"@, ":fs"@, 0);
            lemma_lengths_differ("?rs"@, "--facets-count"@);
            lemma_chars_differ("?rs"@, ":fc"@, 0);
            lemma_lengths_differ("?rs"@, "--initial-facets"@);
            lemma_lengths_differ("?rs"@, ":ifs"@);
            lemma_lengths_differ("?rs"@, "--initial-facets-count"@);
            lemma_lengths_differ("?rs"@, ":ifc"@);
            lemma_lengths_differ("?rs"@, "--activate"@);
            lemma_lengths_differ("?rs"@, ":a"@);
            lemma_lengths_differ("?rs"@, "--deactivate"@);
            lemma_lengths_differ("?rs"@, ":d"@);
            lemma_lengths_differ("?rs"@, "--clear-route"@);
            lemma_chars_differ("?rs"@, ":cr"@, 0);
            lemma_lengths_differ("?rs"@, "--random-safe-steps"@);
            lemma_lengths_differ("?rs"@, ":rss"@);
            lemma_lengths_differ("?rs"@, "--random-safe-walk"@);
            lemma_lengths_differ("?rs"@, ":rsw"@);
            lemma_lengths_differ("?rs"@, "--step"@);
            lemma_lengths_differ("?rs"@, ":s"@);
            lemma_lengths_differ("?rs"@, "--step-n"@);
            lemma_chars_differ("?rs"@, ":sn"@, 0);
            lemma_lengths_differ("?rs"@, "--navigate"@);
            lemma_lengths_differ("?rs"@, ":n"@);
            lemma_lengths_differ("?rs"@, "--navigate-n-models"@);
            lemma_chars_differ("?rs"@, ":nn"@, 0);
            lemma_lengths_differ("?rs"@, "--find-facet-with-zoom-higher-than-and-activate"@);
            lemma_lengths_differ("?rs"@, ":zha"@);
            lemma_lengths_differ("?rs"@, "--find-facet-with-zoom-lower-than-and-activate"@);
            lemma_lengths_differ("?rs"@, ":zla"@);
            lemma_lengths_differ("?rs"@, "--switch-mode"@);
            lemma_chars_differ("?rs"@, ":sm"@, 0);
            lemma_lengths_differ("?rs"@, "?-weight"@);
            lemma_lengths_differ("?rs"@, "?w"@);
            lemma_lengths_differ("?rs"@, "?-zoom"@);
            lemma_lengths_differ("?rs"@, "?z"@);
        },
        Command::RouteMaximalSafe => {
            lemma_lengths_differ("?-route-maximal-safe"@, "--manual"@);
            lemma_lengths_differ("?-route-maximal-safe"@, ":man"@);
            lemma_lengths_differ("?-route-maximal-safe"@, "--source"@);
            lemma_lengths_differ("?-route-maximal-safe"@, ":src"@);
            lemma_lengths_differ("?-route-maximal-safe"@, "--facets"@);
            lemma_lengths_differ("?-route-maximal-safe"@, ":fs"@);
            lemma_lengths_differ("?-route-maximal-safe"@, "--facets-count"@);
            lemma_lengths_differ("?-route-maximal-safe"@, ":fc"@);
            lemma_lengths_differ("?-route-maximal-safe"@, "--initial-facets"@);
            lemma_lengths_differ("?-route-maximal-safe"@, ":ifs"@);
            lemma_lengths_differ("?-route-maximal-safe"@, "--initial-facets-count"@);
            lemma_lengths_differ("?-route-maximal-safe"@, ":ifc"@);
            lemma_lengths_differ("?-route-maximal-safe"@, "--activate"@);
            lemma_lengths_differ("?-route-maximal-safe"@, ":a"@);
            lemma_lengths_differ("?-route-maximal-safe"@, "--deactivate"@);
            lemma_lengths_differ("?-route-maximal-safe"@, ":d"@);
            lemma_lengths_differ("?-route-maximal-safe"@, "--clear-route"@);
            lemma_lengths_differ("?-route-maximal-safe"@, ":cr"@);
            lemma_lengths_differ("?-route-maximal-safe"@, "--random-safe-steps"@);
            lemma_lengths_differ("?-route-maximal-safe"@, ":rss"@);
            lemma_lengths_differ("?-route-maximal-safe"@, "--random-safe-walk"@);
            lemma_lengths_differ("?-route-maximal-safe"@, ":rsw"@);
            lemma_lengths_differ("?-route-maximal-safe"@, "--step"@);
            lemma_lengths_differ("?-route-maximal-safe"@, ":s"@);
            lemma_lengths_differ("?-route-maximal-safe"@, "--step-n"@);
            lemma_lengths_differ("?-route-maximal-safe"@, ":sn"@);
            lemma_lengths_differ("?-route-maximal-safe"@, "--navigate"@);
            lemma_lengths_differ("?-route-maximal-safe"@, ":n"@);
            lemma_lengths_differ("?-route-maximal-safe"@, "--navigate-n-models"@);
            lemma_lengths_differ("?-route-maximal-safe"@, ":nn"@);
            lemma_lengths_differ("?-route-maximal-safe"@, "--find-facet-with-zoom-higher-than-and-activate"@);
            lemma_lengths_differ("?-route-maximal-safe"@, ":zha"@);
            lemma_lengths_differ("?-route-maximal-safe"@, "--find-facet-with-zoom-lower-than-and-activate"@);
            lemma_lengths_differ("?-route-maximal-safe"@, ":zla"@);
            lemma_lengths_differ("?-route-maximal-safe"@, "--switch-mode"@);
            lemma_lengths_differ("?-route-maximal-safe"@, ":sm"@);
            lemma_lengths_differ("?-route-maximal-safe"@, "?-weight"@);
            lemma_lengths_differ("?-route-maximal-safe"@, "?w"@);
            lemma_lengths_differ("?-route-maximal-safe"@, "?-zoom"@);
            lemma_lengths_differ("?-route-maximal-safe"@, "?z"@);
            lemma_lengths_differ("?-route-maximal-safe"@, "?-route-safe"@);
            lemma_lengths_differ("?-route-maximal-safe"@, "?rs"@);
            lemma_lengths_differ("?rms"@, "--manual"@);
            lemma_chars_differ("?rms"@, ":man"@, 0);
            lemma_lengths_differ("?rms"@, "--source"@);
            lemma_chars_differ("?rms"@, ":src"@, 0);
            lemma_lengths_differ("?rms"@, "--facets"@);
            lemma_lengths_differ("?rms"@, ":fs"@);
            lemma_lengths_differ("?rms"@, "--facets-count"@);
            lemma_lengths_differ("?rms"@, ":fc"@);
            lemma_lengths_differ("?rms"@, "--initial-facets"@);
            lemma_chars_differ("?rms"@, ":ifs"@, 0);
            lemma_lengths_differ("?rms"@, "--initial-facets-count"@);
            lemma_chars_differ("?rms"@, ":ifc"@, 0);
            lemma_lengths_differ("?rms"@, "--activate"@);
            lemma_lengths_differ("?rms"@, ":a"@);
            lemma_lengths_differ("?rms"@, "--deactivate"@);
            lemma_lengths_differ("?rms"@, ":d"@);
            lemma_lengths_differ("?rms"@, "--clear-route"@);
            lemma_lengths_differ("?rms"@, ":cr"@);
            lemma_lengths_differ("?rms"@, "--random-safe-steps"@);
            lemma_chars_differ("?rms"@, ":rss"@, 0);
            lemma_lengths_differ("?rms"@, "--random-safe-walk"@);
            lemma_chars_differ("?rms"@, ":rsw"@, 0);
            lemma_lengths_differ("?rms"@, "--step"@);
            lemma_lengths_differ("?rms"@, ":s"@);
            lemma_lengths_differ("?rms"@, "--step-n"@);
            lemma_lengths_differ("?rms"@, ":sn"@);
            lemma_lengths_differ("?rms"@, "--navigate"@);
            lemma_lengths_differ("?rms"@, ":n"@);
            lemma_lengths_differ("?rms"@, "--navigate-n-models"@);
            lemma_lengths_differ("?rms"@, ":nn"@);
            lemma_lengths_differ("?rms"@, "--find-facet-with-zoom-higher-than-and-activate"@);
            lemma_chars_differ("?rms"@, ":zha"@, 0);
            lemma_lengths_differ("?rms"@, "--find-facet-with-zoom-lower-than-and-activate"@);
            lemma_chars_differ("?rms"@, ":zla"@, 0);
            lemma_lengths_differ("?rms"@, "--switch-mode"@);
            lemma_lengths_differ("?rms"@, ":sm"@);
            lemma_lengths_differ("?rms"@, "?-weight"@);
            lemma_lengths_differ("?rms"@, "?w"@);
            lemma_lengths_differ("?rms"@, "?-zoom"@);
            lemma_lengths_differ("?rms"@, "?z"@);
            lemma_lengths_differ("?rms"@, "?-route-safe"@);
            lemma_lengths_differ("?rms"@, "?rs"@);
        },
        Command::ZoomHigherThan => {
            lemma_lengths_differ("?-zoom-higher-than"@, "--manual"@);
            lemma_lengths_differ("?-zoom-higher-than"@, ":man"@);
            lemma_lengths_differ("?-zoom-higher-than"@, "--source"@);
            lemma_lengths_differ("?-zoom-higher-than"@, ":src"@);
            lemma_lengths_differ("?-zoom-higher-than"@, "--facets"@);
            lemma_lengths_differ("?-zoom-higher-than"@, ":fs"@);
            lemma_lengths_differ("?-zoom-higher-than"@, "--facets-count"@);
            lemma_lengths_differ("?-zoom-higher-than"@, ":fc"@);
            lemma_lengths_differ("?-zoom-higher-than"@, "--initial-facets"@);
            lemma_lengths_differ("?-zoom-higher-than"@, ":ifs"@);
            lemma_lengths_differ("?-zoom-higher-than"@, "--initial-facets-count"@);
            lemma_lengths_differ("?-zoom-higher-than"@, ":ifc"@);
            lemma_lengths_differ("?-zoom-higher-than"@, "--activate"@);
            lemma_lengths_differ("?-zoom-higher-than"@, ":a"@);
            lemma_lengths_differ("?-zoom-higher-than"@, "--deactivate"@);
            lemma_lengths_differ("?-zoom-higher-than"@, ":d"@);
            lemma_lengths_differ("?-zoom-higher-than"@, "--clear-route"@);
            lemma_lengths_differ("?-zoom-higher-than"@, ":cr"@);
            lemma_lengths_differ("?-zoom-higher-than"@, "--random-safe-steps"@);
            lemma_lengths_differ("?-zoom-higher-than"@, ":rss"@);
            lemma_chars_differ("?-zoom-higher-than"@, "--random-safe-walk"@, 0);
            lemma_lengths_differ("?-zoom-higher-than"@, ":rsw"@);
            lemma_lengths_differ("?-zoom-higher-than"@, "--step"@);
            lemma_lengths_differ("?-zoom-higher-than"@, ":s"@);
            lemma_lengths_differ("?-zoom-higher-than"@, "--step-n"@);
            lemma_lengths_differ("?-zoom-higher-than"@, ":sn"@);
            lemma_lengths_differ("?-zoom-higher-than"@, "--navigate"@);
            lemma_lengths_differ("?-zoom-higher-than"@, ":n"@);
            lemma_lengths_differ("?-zoom-higher-than"@, "--navigate-n-models"@);
            lemma_lengths_differ("?-zoom-higher-than"@, ":nn"@);
            lemma_lengths_differ("?-zoom-higher-than"@, "--find-facet-with-zoom-higher-than-and-activate"@);
            lemma_lengths_differ("?-zoom-higher-than"@, ":zha"@);
            lemma_lengths_differ("?-zoom-higher-than"@, "--find-facet-with-zoom-lower-than-and-activate"@);
            lemma_lengths_differ("?-zoom-higher-than"@, ":zla"@);
            lemma_lengths_differ("?-zoom-higher-than"@, "--switch-mode"@);
            lemma_lengths_differ("?-zoom-higher-than"@, ":sm"@);
            lemma_lengths_differ("?-zoom-higher-than"@, "?-weight"@);
            lemma_lengths_differ("?-zoom-higher-than"@, "?w"@);
            lemma_lengths_differ("?-zoom-higher-than"@, "?-zoom"@);
            lemma_lengths_differ("?-zoom-higher-than"@, "?z"@);
            lemma_lengths_differ("?-zoom-higher-than"@, "?-route-safe"@);
            lemma_lengths_differ("?-zoom-higher-than"@, "?rs"@);
            lemma_lengths_differ("?-zoom-higher-than"@, "?-route-maximal-safe"@);
            lemma_lengths_differ("?-zoom-higher-than"@, "?rms"@);
            lemma_lengths_differ("?zh"@, "--manual"@);
            lemma_lengths_differ("?zh"@, ":man"@);
            lemma_lengths_differ("?zh"@, "--source"@);
            lemma_lengths_differ("?zh"@, ":src"@);
            lemma_lengths_differ("?zh"@, "--facets"@);
            lemma_chars_differ("?zh"@, ":fs"@, 0);
            lemma_lengths_differ("?zh"@, "--facets-count"@);
            lemma_chars_differ("?zh"@, ":fc"@, 0);
            lemma_lengths_differ("?zh"@, "--initial-facets"@);
            lemma_lengths_differ("?zh"@, ":ifs"@);
            lemma_lengths_differ("?zh"@, "--initial-facets-count"@);
            lemma_lengths_differ("?zh"@, ":ifc"@);
            lemma_lengths_differ("?zh"@, "--activate"@);
            lemma_lengths_differ("?zh"@, ":a"@);
            lemma_lengths_differ("?zh"@, "--deactivate"@);
            lemma_lengths_differ("?zh"@, ":d"@);
            lemma_lengths_differ("?zh"@, "--clear-route"@);
            lemma_chars_differ("?zh"@, ":cr"@, 0);
            lemma_lengths_differ("?zh"@, "--random-safe-steps"@);
            lemma_lengths_differ("?zh"@, ":rss"@);
            lemma_lengths_differ("?zh"@, "--random-safe-walk"@);
            lemma_lengths_differ("?zh"@, ":rsw"@);
            lemma_lengths_differ("?zh"@, "--step"@);
            lemma_lengths_differ("?zh"@, ":s"@);
            lemma_lengths_differ("?zh"@, "--step-n"@);
            lemma_chars_differ("?zh"@, ":sn"@, 0);
            lemma_lengths_differ("?zh"@, "--navigate"@);
            lemma_lengths_differ("?zh"@, ":n"@);
            lemma_lengths_differ("?zh"@, "--navigate-n-models"@);
            lemma_chars_differ("?zh"@, ":nn"@, 0);
            lemma_lengths_differ("?zh"@, "--find-facet-with-zoom-higher-than-and-activate"@);
            lemma_lengths_differ("?zh"@, ":zha"@);
            lemma_lengths_differ("?zh"@, "--find-facet-with-zoom-lower-than-and-activate"@);
            lemma_lengths_differ("?zh"@, ":zla"@);
            lemma_lengths_differ("?zh"@, "--switch-mode"@);
            lemma_chars_differ("?zh"@, ":sm"@, 0);
            lemma_lengths_differ("?zh"@, "?-weight"@);
            lemma_lengths_differ("?zh"@, "?w"@);
            lemma_lengths_differ("?zh"@, "?-zoom"@);
            lemma_lengths_differ("?zh"@, "?z"@);
            lemma_lengths_differ("?zh"@, "?-route-safe"@);
            lemma_chars_differ("?zh"@, "?rs"@, 1);
            lemma_lengths_differ("?zh"@, "?-route-maximal-safe"@);
            lemma_lengths_differ("?zh"@, "?rms"@);
        },
        Command::ZoomLowerThan => {
            lemma_lengths_differ("?-zoom-lower-than"@, "--manual"@);
            lemma_lengths_differ("?-zoom-lower-than"@, ":man"@);
            lemma_lengths_differ("?-zoom-lower-than"@, "--source"@);
            lemma_lengths_differ("?-zoom-lower-than"@, ":src"@);
            lemma_lengths_differ("?-zoom-lower-than"@, "--facets"@);
            lemma_lengths_differ("?-zoom-lower-than"@, ":fs"@);
            lemma_lengths_differ("?-zoom-lower-than"@, "--facets-count"@);
            lemma_lengths_differ("?-zoom-lower-than"@, ":fc"@);
            lemma_lengths_differ("?-zoom-lower-than"@, "--initial-facets"@);
            lemma_lengths_differ("?-zoom-lower-than"@, ":ifs"@);
            lemma_lengths_differ("?-zoom-lower-than"@, "--initial-facets-count"@);
            lemma_lengths_differ("?-zoom-lower-than"@, ":ifc"@);
            lemma_lengths_differ("?-zoom-lower-than"@, "--activate"@);
            lemma_lengths_differ("?-zoom-lower-than"@, ":a"@);
            lemma_lengths_differ("?-zoom-lower-than"@, "--deactivate"@);
            lemma_lengths_differ("?-zoom-lower-than"@, ":d"@);
            lemma_lengths_differ("?-zoom-lower-than"@, "--clear-route"@);
            lemma_lengths_differ("?-zoom-lower-than"@, ":cr"@);
            lemma_lengths_differ("?-zoom-lower-than"@, "--random-safe-steps"@);
            lemma_lengths_differ("?-zoom-lower-than"@, ":rss"@);
            lemma_lengths_differ("?-zoom-lower-than"@, "--random-safe-walk"@);
            lemma_lengths_differ("?-zoom-lower-than"@, ":rsw"@);
            lemma_lengths_differ("?-zoom-lower-than"@, "--step"@);
            lemma_lengths_differ("?-zoom-lower-than"@, ":s"@);
            lemma_lengths_differ("?-zoom-lower-than"@, "--step-n"@);
            lemma_lengths_differ("?-zoom-lower-than"@, ":sn"@);
            lemma_lengths_differ("?-zoom-lower-than"@, "--navigate"@);
            lemma_lengths_differ("?-zoom-lower-than"@, ":n"@);
            lemma_lengths_differ("?-zoom-lower-than"@, "--navigate-n-models"@);
            lemma_lengths_differ("?-zoom-lower-than"@, ":nn"@);
            lemma_lengths_differ("?-zoom-lower-than"@, "--find-facet-with-zoom-higher-than-and-activate"@);
            lemma_lengths_differ("?-zoom-lower-than"@, ":zha"@);
            lemma_lengths_differ("?-zoom-lower-than"@, "--find-facet-with-zoom-lower-than-and-activate"@);
            lemma_lengths_differ("?-zoom-lower-than"@, ":zla"@);
            lemma_lengths_differ("?-zoom-lower-than"@, "--switch-mode"@);
            lemma_lengths_differ("?-zoom-lower-than"@, ":sm"@);
            lemma_lengths_differ("?-zoom-lower-than"@, "?-weight"@);
            lemma_lengths_differ("?-zoom-lower-than"@, "?w"@);
            lemma_lengths_differ("?-zoom-lower-than"@, "?-zoom"@);
            lemma_lengths_differ("?-zoom-lower-than"@, "?z"@);
            lemma_lengths_differ("?-zoom-lower-than"@, "?-route-safe"@);
            lemma_lengths_differ("?-zoom-lower-than"@, "?rs"@);
            lemma_lengths_differ("?-zoom-lower-than"@, "?-route-maximal-safe"@);
            lemma_lengths_differ("?-zoom-lower-than"@, "?rms"@);
            lemma_lengths_differ("?-zoom-lower-than"@, "?-zoom-higher-than"@);
            lemma_lengths_differ("?-zoom-lower-than"@, "?zh"@);
            lemma_lengths_differ("?zl"@, "--manual"@);
            lemma_lengths_differ("?zl"@, ":man"@);
            lemma_lengths_differ("?zl"@, "--source"@);
            lemma_lengths_differ("?zl"@, ":src"@);
            lemma_lengths_differ("?zl"@, "--facets"@);
            lemma_chars_differ("?zl"@, ":fs"@, 0);
            lemma_lengths_differ("?zl"@, "--facets-count"@);
            lemma_chars_differ("?zl"@, ":fc"@, 0);
            lemma_lengths_differ("?zl"@, "--initial-facets"@);
            lemma_lengths_differ("?zl"@, ":ifs"@);
            lemma_lengths_differ("?zl"@, "--initial-facets-count"@);
            lemma_lengths_differ("?zl"@, ":ifc"@);
            lemma_lengths_differ("?zl"@, "--activate"@);
            lemma_lengths_differ("?zl"@, ":a"@);
            lemma_lengths_differ("?zl"@, "--deactivate"@);
            lemma_lengths_differ("?zl"@, ":d"@);
            lemma_lengths_differ("?zl"@, "--clear-route"@);
            lemma_chars_differ("?zl"@, ":cr"@, 0);
            lemma_lengths_differ("?zl"@, "--random-safe-steps"@);
            lemma_lengths_differ("?zl"@, ":rss"@);
            lemma_lengths_differ("?zl"@, "--random-safe-walk"@);
            lemma_lengths_differ("?zl"@, ":rsw"@);
            lemma_lengths_differ("?zl"@, "--step"@);
            lemma_lengths_differ("?zl"@, ":s"@);
            lemma_lengths_differ("?zl"@, "--step-n"@);
            lemma_chars_differ("?zl"@, ":sn"@, 0);
            lemma_lengths_differ("?zl"@, "--navigate"@);
            lemma_lengths_differ("?zl"@, ":n"@);
            lemma_lengths_differ("?zl"@, "--navigate-n-models"@);
            lemma_chars_differ("?zl"@, ":nn"@, 0);
            lemma_lengths_differ("?zl"@, "--find-facet-with-zoom-higher-than-and-activate"@);
            lemma_lengths_differ("?zl"@, ":zha"@);
            lemma_lengths_differ("?zl"@, "--find-facet-with-zoom-lower-than-and-activate"@);
            lemma_lengths_differ("?zl"@, ":zla"@);
            lemma_lengths_differ("?zl"@, "--switch-mode"@);
            lemma_chars_differ("?zl"@, ":sm"@, 0);
            lemma_lengths_differ("?zl"@, "?-weight"@);
            lemma_lengths_differ("?zl"@, "?w"@);
            lemma_lengths_differ("?zl"@, "?-zoom"@);
            lemma_lengths_differ("?zl"@, "?z"@);
            lemma_lengths_differ("?zl"@, "?-route-safe"@);
            lemma_chars_differ("?zl"@, "?rs"@, 1);
            lemma_lengths_differ("?zl"@, "?-route-maximal-safe"@);
            lemma_lengths_differ("?zl"@, "?rms"@);
            lemma_lengths_differ("?zl"@, "?-zoom-higher-than"@);
            lemma_chars_differ("?zl"@, "?zh"@, 2);
        },
        Command::ShowMode => {
            lemma_lengths_differ("--mode"@, "--manual"@);
            lemma_lengths_differ("--mode"@, ":man"@);
            lemma_lengths_differ("--mode"@, "--source"@);
            lemma_lengths_differ("--mode"@, ":src"@);
            lemma_lengths_differ("--mode"@, "--facets"@);
            lemma_lengths_differ("--mode"@, ":fs"@);
            lemma_lengths_differ("--mode"@, "--facets-count"@);
            lemma_lengths_differ("--mode"@, ":fc"@);
            lemma_lengths_differ("--mode"@, "--initial-facets"@);
            lemma_lengths_differ("--mode"@, ":ifs"@);
            lemma_lengths_differ("--mode"@, "--initial-facets-count"@);
            lemma_lengths_differ("--mode"@, ":ifc"@);
            lemma_lengths_differ("--mode"@, "--activate"@);
            lemma_lengths_differ("--mode"@, ":a"@);
            lemma_lengths_differ("--mode"@, "--deactivate"@);
            lemma_lengths_differ("--mode"@, ":d"@);
            lemma_lengths_differ("--mode"@, "--clear-route"@);
            lemma_lengths_differ("--mode"@, ":cr"@);
            lemma_lengths_differ("--mode"@, "--random-safe-steps"@);
            lemma_lengths_differ("--mode"@, ":rss"@);
            lemma_lengths_differ("--mode"@, "--random-safe-walk"@);
            lemma_lengths_differ("--mode"@, ":rsw"@);
            lemma_chars_differ("--mode"@, "--step"@, 2);
            lemma_lengths_differ("--mode"@, ":s"@);
            lemma_lengths_differ("--mode"@, "--step-n"@);
            lemma_lengths_differ("--mode"@, ":sn"@);
            lemma_lengths_differ("--mode"@, "--navigate"@);
            lemma_lengths_differ("--mode"@, ":n"@);
            lemma_lengths_differ("--mode"@, "--navigate-n-models"@);
            lemma_lengths_differ("--mode"@, ":nn"@);
            lemma_lengths_differ("--mode"@, "--find-facet-with-zoom-higher-than-and-activate"@);
            lemma_lengths_differ("--mode"@, ":zha"@);
            lemma_lengths_differ("--mode"@, "--find-facet-with-zoom-lower-than-and-activate"@);
            lemma_lengths_differ("--mode"@, ":zla"@);
            lemma_lengths_differ("--mode"@, "--switch-mode"@);
            lemma_lengths_differ("--mode"@, ":sm"@);
            lemma_lengths_differ("--mode"@, "?-weight"@);
            lemma_lengths_differ("--mode"@, "?w"@);
            lemma_chars_differ("--mode"@, "?-zoom"@, 0);
            lemma_lengths_differ("--mode"@, "?z"@);
            lemma_lengths_differ("--mode"@, "?-route-safe"@);
            lemma_lengths_differ("--mode"@, "?rs"@);
            lemma_lengths_differ("--mode"@, "?-route-maximal-safe"@);
            lemma_lengths_differ("--mode"@, "?rms"@);
            lemma_lengths_differ("--mode"@, "?-zoom-higher-than"@);
            lemma_lengths_differ("--mode"@, "?zh"@);
            lemma_lengths_differ("--mode"@, "?-zoom-lower-than"@);
            lemma_lengths_differ("--mode"@, "?zl"@);
            lemma_lengths_differ(":m"@, "--manual"@);
            lemma_lengths_differ(":m"@, ":man"@);
            lemma_lengths_differ(":m"@, "--source"@);
            lemma_lengths_differ(":m"@, ":src"@);
            lemma_lengths_differ(":m"@, "--facets"@);
            lemma_lengths_differ(":m"@, ":fs"@);
            lemma_lengths_differ(":m"@, "--facets-count"@);
            lemma_lengths_differ(":m"@, ":fc"@);
            lemma_lengths_differ(":m"@, "--initial-facets"@);
            lemma_lengths_differ(":m"@, ":ifs"@);
            lemma_lengths_differ(":m"@, "--initial-facets-count"@);
            lemma_lengths_differ(":m"@, ":ifc"@);
            lemma_lengths_differ(":m"@, "--activate"@);
            lemma_chars_differ(":m"@, ":a"@, 1);
            lemma_lengths_differ(":m"@, "--deactivate"@);
            lemma_chars_differ(":m"@, ":d"@, 1);
            lemma_lengths_differ(":m"@, "--clear-route"@);
            lemma_lengths_differ(":m"@, ":cr"@);
            lemma_lengths_differ(":m"@, "--random-safe-steps"@);
            lemma_lengths_differ(":m"@, ":rss"@);
            lemma_lengths_differ(":m"@, "--random-safe-walk"@);
            lemma_lengths_differ(":m"@, ":rsw"@);
            lemma_lengths_differ(":m"@, "--step"@);
            lemma_chars_differ(":m"@, ":s"@, 1);
            lemma_lengths_differ(":m"@, "--step-n"@);
            lemma_lengths_differ(":m"@, ":sn"@);
            lemma_lengths_differ(":m"@, "--navigate"@);
            lemma_chars_differ(":m"@, ":n"@, 1);
            lemma_lengths_differ(":m"@, "--navigate-n-models"@);
            lemma_lengths_differ(":m"@, ":nn"@);
            lemma_lengths_differ(":m"@, "--find-facet-with-zoom-higher-than-and-activate"@);
            lemma_lengths_differ(":m"@, ":zha"@);
            lemma_lengths_differ(":m"@, "--find-facet-with-zoom-lower-than-and-activate"@);
            lemma_lengths_differ(":m"@, ":zla"@);
            lemma_lengths_differ(":m"@, "--switch-mode"@);
            lemma_lengths_differ(":m"@, ":sm"@);
            lemma_lengths_differ(":m"@, "?-weight"@);
            lemma_chars_differ(":m"@, "?w"@, 0);
            lemma_lengths_differ(":m"@, "?-zoom"@);
            lemma_chars_differ(":m"@, "?z"@, 0);
            lemma_lengths_differ(":m"@, "?-route-safe"@);
            lemma_lengths_differ(":m"@, "?rs"@);
            lemma_lengths_differ(":m"@, "?-route-maximal-safe"@);
            lemma_lengths_differ(":m"@, "?rms"@);
            lemma_lengths_differ(":m"@, "?-zoom-higher-than"@);
            lemma_lengths_differ(":m"@, "?zh"@);
            lemma_lengths_differ(":m"@, "?-zoom-lower-than"@);
            lemma_lengths_differ(":m"@, "?zl"@);
        },
        Command::Quit => {
            lemma_lengths_differ("--quit"@, "--manual"@);
            lemma_lengths_differ("--quit"@, ":man"@);
            lemma_lengths_differ("--quit"@, "--source"@);
            lemma_lengths_differ("--quit"@, ":src"@);
            lemma_lengths_differ("--quit"@, "--facets"@);
            lemma_lengths_differ("--quit"@, ":fs"@);
            lemma_lengths_differ("--quit"@, "--facets-count"@);
            lemma_lengths_differ("--quit"@, ":fc"@);
            lemma_lengths_differ("--quit"@, "--initial-facets"@);
            lemma_lengths_differ("--quit"@, ":ifs"@);
            lemma_lengths_differ("--quit"@, "--initial-facets-count"@);
            lemma_lengths_differ("--quit"@, ":ifc"@);
            lemma_lengths_differ("--quit"@, "--activate"@);
            lemma_lengths_differ("--quit"@, ":a"@);
            lemma_lengths_differ("--quit"@, "--deactivate"@);
            lemma_lengths_differ("--quit"@, ":d"@);
            lemma_lengths_differ("--quit"@, "--clear-route"@);
            lemma_lengths_differ("--quit"@, ":cr"@);
            lemma_lengths_differ("--quit"@, "--random-safe-steps"@);
            lemma_lengths_differ("--quit"@, ":rss"@);
            lemma_lengths_differ("--quit"@, "--random-safe-walk"@);
            lemma_lengths_differ("--quit"@, ":rsw"@);
            lemma_chars_differ("--quit"@, "--step"@, 2);
            lemma_lengths_differ("--quit"@, ":s"@);
            lemma_lengths_differ("--quit"@, "--step-n"@);
            lemma_lengths_differ("--quit"@, ":sn"@);
            lemma_lengths_differ("--quit"@, "--navigate"@);
            lemma_lengths_differ("--quit"@, ":n"@);
            lemma_lengths_differ("--quit"@, "--navigate-n-models"@);
            lemma_lengths_differ("--quit"@, ":nn"@);
            lemma_lengths_differ("--quit"@, "--find-facet-with-zoom-higher-than-and-activate"@);
            lemma_lengths_differ("--quit"@, ":zha"@);
            lemma_lengths_differ("--quit"@, "--find-facet-with-zoom-lower-than-and-activate"@);
            lemma_lengths_differ("--quit"@, ":zla"@);
            lemma_lengths_differ("--quit"@, "--switch-mode"@);
            lemma_lengths_differ("--quit"@, ":sm"@);
            lemma_lengths_differ("--quit"@, "?-weight"@);
            lemma_lengths_differ("--quit"@, "?w"@);
            lemma_chars_differ("--quit"@, "?-zoom"@, 0);
            lemma_lengths_differ("--quit"@, "?z"@);
            lemma_lengths_differ("--quit"@, "?-route-safe"@);
            lemma_lengths_differ("--quit"@, "?rs"@);
            lemma_lengths_differ("--quit"@, "?-route-maximal-safe"@);
            lemma_lengths_differ("--quit"@, "?rms"@);
            lemma_lengths_differ("--quit"@, "?-zoom-higher-than"@);
            lemma_lengths_differ("--quit"@, "?zh"@);
            lemma_lengths_differ("--quit"@, "?-zoom-lower-than"@);
            lemma_lengths_differ("--quit"@, "?zl"@);
            lemma_chars_differ("--quit"@, "--mode"@, 2);
            lemma_lengths_differ("--quit"@, ":m"@);
            lemma_lengths_differ(":q"@, "--manual"@);
            lemma_lengths_differ(":q"@, ":man"@);
            lemma_lengths_differ(":q"@, "--source"@);
            lemma_lengths_differ(":q"@, ":src"@);
            lemma_lengths_differ(":q"@, "--facets"@);
            lemma_lengths_differ(":q"@, ":fs"@);
            lemma_lengths_differ(":q"@, "--facets-count"@);
            lemma_lengths_differ(":q"@, ":fc"@);
            lemma_lengths_differ(":q"@, "--initial-facets"@);
            lemma_lengths_differ(":q"@, ":ifs"@);
            lemma_lengths_differ(":q"@, "--initial-facets-count"@);
            lemma_lengths_differ(":q"@, ":ifc"@);
            lemma_lengths_differ(":q"@, "--activate"@);
            lemma_chars_differ(":q"@, ":a"@, 1);
            lemma_lengths_differ(":q"@, "--deactivate"@);
            lemma_chars_differ(":q"@, ":d"@, 1);
            lemma_lengths_differ(":q"@, "--clear-route"@);
            lemma_lengths_differ(":q"@, ":cr"@);
            lemma_lengths_differ(":q"@, "--random-safe-steps"@);
            lemma_lengths_differ(":q"@, ":rss"@);
            lemma_lengths_differ(":q"@, "--random-safe-walk"@);
            lemma_lengths_differ(":q"@, ":rsw"@);
            lemma_lengths_differ(":q"@, "--step"@);
            lemma_chars_differ(":q"@, ":s"@, 1);
            lemma_lengths_differ(":q"@, "--step-n"@);
            lemma_lengths_differ(":q"@, ":sn"@);
            lemma_lengths_differ(":q"@, "--navigate"@);
            lemma_chars_differ(":q"@, ":n"@, 1);
            lemma_lengths_differ(":q"@, "--navigate-n-models"@);
            lemma_lengths_differ(":q"@, ":nn"@);
            lemma_lengths_differ(":q"@, "--find-facet-with-zoom-higher-than-and-activate"@);
            lemma_lengths_differ(":q"@, ":zha"@);
            lemma_lengths_differ(":q"@, "--find-facet-with-zoom-lower-than-and-activate"@);
            lemma_lengths_differ(":q"@, ":zla"@);
            lemma_lengths_differ(":q"@, "--switch-mode"@);
            lemma_lengths_differ(":q"@, ":sm"@);
            lemma_lengths_differ(":q"@, "?-weight"@);
            lemma_chars_differ(":q"@, "?w"@, 0);
            lemma_lengths_differ(":q"@, "?-zoom"@);
            lemma_chars_differ(":q"@, "?z"@, 0);
            lemma_lengths_differ(":q"@, "?-route-safe"@);
            lemma_lengths_differ(":q"@, "?rs"@);
            lemma_lengths_differ(":q"@, "?-route-maximal-safe"@);
            lemma_lengths_differ(":q"@, "?rms"@);
            lemma_lengths_differ(":q"@, "?-zoom-higher-than"@);
            lemma_lengths_differ(":q"@, "?zh"@);
            lemma_lengths_differ(":q"@, "?-zoom-lower-than"@);
            lemma_lengths_differ(":q"@, "?zl"@);
            lemma_lengths_differ(":q"@, "--mode"@);
            lemma_chars_differ(":q"@, ":m"@, 1);
        },
    }
}

/// Texts of different lengths differ.
proof fn lemma_lengths_differ(a: Seq<char>, b: Seq<char>)
    requires
        a.len() != b.len(),
    ensures
        a != b,
{
}

/// Texts that differ at a position differ.
proof fn lemma_chars_differ(a: Seq<char>, b: Seq<char>, i: int)
    requires
        0 <= i < a.len(),
        i < b.len(),
        a[i] != b[i],
    ensures
        a != b,
{
}

/// The command or query that the first word of a prompt line names, if
/// any.
pub fn command_of(w: &str) -> (r: Option<Command>)
    ensures
        r == command_named(w@),
        forall|c: Command| (w@ == #[trigger] spellings(c).0 || w@ == spellings(c).1) ==> r == Some(c),
        r matches Some(c) ==> (w@ == spellings(c).0 || w@ == spellings(c).1),
{
    proof {
        assert forall|c: Command| (w@ == #[trigger] spellings(c).0 || w@ == spellings(c).1) implies command_named(w@) == Some(c) by {
            lemma_command_spellings(c);
        }
    }
    if str_eq(w, "--manual") || str_eq(w, ":man") {
        Some(Command::Manual)
    } else if str_eq(w, "--source") || str_eq(w, ":src") {
        Some(Command::Source)
    } else if str_eq(w, "--facets") || str_eq(w, ":fs") {
        Some(Command::Facets)
    } else if str_eq(w, "--facets-count") || str_eq(w, ":fc") {
        Some(Command::FacetsCount)
    } else if str_eq(w, "--initial-facets") || str_eq(w, ":ifs") {
        Some(Command::InitialFacets)
    } else if str_eq(w, "--initial-facets-count") || str_eq(w, ":ifc") {
        Some(Command::InitialFacetsCount)
    } else if str_eq(w, "--activate") || str_eq(w, ":a") {
        Some(Command::Activate)
    } else if str_eq(w, "--deactivate") || str_eq(w, ":d") {
        Some(Command::Deactivate)
    } else if str_eq(w, "--clear-route") || str_eq(w, ":cr") {
        Some(Command::ClearRoute)
    } else if str_eq(w, "--random-safe-steps") || str_eq(w, ":rss") {
        Some(Command::RandomSafeSteps)
    } else if str_eq(w, "--random-safe-walk") || str_eq(w, ":rsw") {
        Some(Command::RandomSafeWalk)
    } else if str_eq(w, "--step") || str_eq(w, ":s") {
        Some(Command::Step)
    } else if str_eq(w, "--step-n") || str_eq(w, ":sn") {
        Some(Command::StepN)
    } else if str_eq(w, "--navigate") || str_eq(w, ":n") {
        Some(Command::Navigate)
    } else if str_eq(w, "--navigate-n-models") || str_eq(w, ":nn") {
        Some(Command::NavigateN)
    } else if str_eq(w, "--find-facet-with-zoom-higher-than-and-activate") || str_eq(w, ":zha") {
        Some(Command::ZoomHigherActivate)
    } else if str_eq(w, "--find-facet-with-zoom-lower-than-and-activate") || str_eq(w, ":zla") {
        Some(Command::ZoomLowerActivate)
    } else if str_eq(w, "--switch-mode") || str_eq(w, ":sm") {
        Some(Command::SwitchMode)
    } else if str_eq(w, "?-weight") || str_eq(w, "?w") {
        Some(Command::Weight)
    } else if str_eq(w, "?-zoom") || str_eq(w, "?z") {
        Some(Command::Zoom)
    } else if str_eq(w, "?-route-safe") || str_eq(w, "?rs") {
        Some(Command::RouteSafe)
    } else if str_eq(w, "?-route-maximal-safe") || str_eq(w, "?rms") {
        Some(Command::RouteMaximalSafe)
    } else if str_eq(w, "?-zoom-higher-than") || str_eq(w, "?zh") {
        Some(Command::ZoomHigherThan)
    } else if str_eq(w, "?-zoom-lower-than") || str_eq(w, "?zl") {
        Some(Command::ZoomLowerThan)
    } else if str_eq(w, "--mode") || str_eq(w, ":m") {
        Some(Command::ShowMode)
    } else if str_eq(w, "--quit") || str_eq(w, ":q") {
        Some(Command::Quit)
    } else {
        None
    }
}

} // verus!
