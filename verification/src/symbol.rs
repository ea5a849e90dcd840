//! Symbols of answer set programs: numbers, strings and (possibly negated)
//! function terms, and the way they are written.
use vstd::prelude::*;

use crate::text::{push_char, push_signed_decimal, push_str, signed_decimal, copy_string};

verus! {

/// A ground symbol of an answer set program.
#[derive(Debug, PartialEq, Eq)]
pub enum Symbol {
    /// An integer.
    Number(i32),
    /// A string constant.
    Str(String),
    /// A function term `name(arguments)`, classically negated when the flag
    /// is `false`; a constant is a function without arguments, a tuple a
    /// function with the empty name.
    Function(String, Vec<Symbol>, bool),
    /// The smallest symbol, `#inf`.
    Infimum,
    /// The largest symbol, `#sup`.
    Supremum,
}

/// The mathematical value of a [`Symbol`].
pub enum SymbolView {
    Number(int),
    Str(Seq<char>),
    Function(Seq<char>, Seq<SymbolView>, bool),
    Infimum,
    Supremum,
}

/// The values of a sequence of symbols.
pub open spec fn args_view(args: Seq<Symbol>) -> Seq<SymbolView>
    decreases args,
{
    Seq::new(
        args.len(),
        |i: int|
            if 0 <= i < args.len() {
                symbol_view(args[i])
            } else {
                SymbolView::Infimum
            },
    )
}

/// The value of a symbol.
pub open spec fn symbol_view(s: Symbol) -> SymbolView
    decreases s,
{
    match s {
        Symbol::Number(n) => SymbolView::Number(n as int),
        Symbol::Str(t) => SymbolView::Str(t@),
        Symbol::Function(n, args, p) => SymbolView::Function(n@, args_view(args@), p),
        Symbol::Infimum => SymbolView::Infimum,
        Symbol::Supremum => SymbolView::Supremum,
    }
}

impl View for Symbol {
    type V = SymbolView;

    open spec fn view(&self) -> SymbolView {
        symbol_view(*self)
    }
}

/// `t` with `\`, `"` and line feeds escaped by a backslash.
pub open spec fn escape(t: Seq<char>) -> Seq<char>
    decreases t.len(),
{
    if t.len() == 0 {
        Seq::empty()
    } else {
        let c = t.last();
        escape(t.drop_last()) + (if c == '\n' {
            seq!['\\', 'n']
        } else if c == '\\' {
            seq!['\\', '\\']
        } else if c == '"' {
            seq!['\\', '"']
        } else {
            seq![c]
        })
    }
}

/// The arguments of a function term written one after the other, separated
/// by commas.
pub open spec fn show_args(args: Seq<SymbolView>) -> Seq<char>
    decreases args,
{
    if args.len() == 0 {
        Seq::empty()
    } else if args.len() == 1 {
        show(args[0])
    } else {
        show_args(args.drop_last()) + seq![','] + show(args.last())
    }
}

/// How a symbol is written: numbers in decimal, strings in double quotes
/// with escapes, `-` before a negated function term, arguments in round
/// brackets (a tuple of one element with a trailing comma), `#inf` and `#sup`.
pub open spec fn show(v: SymbolView) -> Seq<char>
    decreases v,
{
    match v {
        SymbolView::Number(n) => signed_decimal(n),
        SymbolView::Str(t) => seq!['"'] + escape(t) + seq!['"'],
        SymbolView::Function(name, args, positive) => {
            let sign = if positive {
                Seq::<char>::empty()
            } else {
                seq!['-']
            };
            if args.len() == 0 && name.len() > 0 {
                sign + name
            } else if name.len() == 0 && args.len() == 1 {
                sign + seq!['('] + show_args(args) + seq![',', ')']
            } else {
                sign + name + seq!['('] + show_args(args) + seq![')']
            }
        },
        SymbolView::Infimum => seq!['#', 'i', 'n', 'f'],
        SymbolView::Supremum => seq!['#', 's', 'u', 'p'],
    }
}

/// Appends `t` to `s`, escaping `\`, `"` and line feeds.
fn push_escaped(s: &mut String, t: &String)
    ensures
        final(s)@ == old(s)@ + escape(t@),
{
    let v = crate::text::str_chars(t.as_str());
    let mut i: usize = 0;
    while i < v.len()
        invariant
            i <= v@.len(),
            v@ == t@,
            s@ == old(s)@ + escape(v@.subrange(0, i as int)),
        decreases v@.len() - i,
    {
        let c = v[i];
        let ghost before = s@;
        if c == '\n' {
            push_char(s, '\\');
            push_char(s, 'n');
        } else if c == '\\' {
            push_char(s, '\\');
            push_char(s, '\\');
        } else if c == '"' {
            push_char(s, '\\');
            push_char(s, '"');
        } else {
            push_char(s, c);
        }
        proof {
            let p = v@.subrange(0, i + 1);
            assert(p.drop_last() =~= v@.subrange(0, i as int));
            assert(p.last() == c);
            assert(s@ =~= old(s)@ + escape(p));
        }
        i = i + 1;
    }
    assert(v@.subrange(0, v@.len() as int) =~= v@);
}

proof fn lemma_show_args_push(args: Seq<SymbolView>, a: SymbolView)
    ensures
        show_args(args.push(a)) == if args.len() == 0 {
            show(a)
        } else {
            show_args(args) + seq![','] + show(a)
        },
{
    assert(args.push(a).drop_last() =~= args);
    if args.len() == 0 {
        assert(args.push(a)[0] == a);
    }
}

/// Appends the written form of `sym` to `s`.
pub fn push_symbol(s: &mut String, sym: &Symbol)
    ensures
        final(s)@ == old(s)@ + show(sym@),
    decreases sym,
{
    match sym {
        Symbol::Number(n) => {
            push_signed_decimal(s, *n);
        },
        Symbol::Str(t) => {
            push_char(s, '"');
            push_escaped(s, t);
            push_char(s, '"');
            assert(s@ =~= old(s)@ + (seq!['"'] + escape(t@) + seq!['"']));
        },
        Symbol::Function(name, args, positive) => {
            let ghost nv = name@;
            let ghost av = args_view(args@);
            if !*positive {
                push_char(s, '-');
            }
            let ghost sign = if *positive {
                Seq::<char>::empty()
            } else {
                seq!['-']
            };
            assert(s@ =~= old(s)@ + sign);
            let nonempty_name = !name.as_str().is_empty();
            if args.len() == 0 && nonempty_name {
                push_str(s, name.as_str());
                assert(s@ =~= old(s)@ + show(sym@));
            } else {
                push_str(s, name.as_str());
                push_char(s, '(');
                let ghost start = s@;
                let mut i: usize = 0;
                while i < args.len()
                    invariant
                        i <= args@.len(),
                        *sym == Symbol::Function(*name, *args, *positive),
                        av == args_view(args@),
                        s@ == start + show_args(av.subrange(0, i as int)),
                    decreases args@.len() - i,
                {
                    proof {
                        assert(*sym == Symbol::Function(*name, *args, *positive));
                        assert(decreases_to!(*sym => (*sym)->Function_1));
                        assert(decreases_to!(*args => args@));
                        assert(decreases_to!(args@ => args@[i as int]));
                    }
                    if i > 0 {
                        push_char(s, ',');
                    }
                    push_symbol(s, &args[i]);
                    proof {
                        assert(av.subrange(0, i + 1) =~= av.subrange(0, i as int).push(
                            av[i as int],
                        ));
                        lemma_show_args_push(av.subrange(0, i as int), av[i as int]);
                        assert(s@ =~= start + show_args(av.subrange(0, i + 1)));
                    }
                    i = i + 1;
                }
                assert(av.subrange(0, args@.len() as int) =~= av);
                if !nonempty_name && args.len() == 1 {
                    push_char(s, ',');
                }
                push_char(s, ')');
                assert(s@ =~= old(s)@ + show(sym@));
            }
        },
        Symbol::Infimum => {
            push_char(s, '#');
            push_char(s, 'i');
            push_char(s, 'n');
            push_char(s, 'f');
            assert(s@ =~= old(s)@ + show(sym@));
        },
        Symbol::Supremum => {
            push_char(s, '#');
            push_char(s, 's');
            push_char(s, 'u');
            push_char(s, 'p');
            assert(s@ =~= old(s)@ + show(sym@));
        },
    }
}

/// The written form of `sym`.
pub fn symbol_to_string(sym: &Symbol) -> (r: String)
    ensures
        r@ == show(sym@),
{
    let mut s = String::new();
    push_symbol(&mut s, sym);
    assert(s@ =~= show(sym@));
    s
}

/// Whether two symbols are the same symbol.
pub fn symbol_eq(a: &Symbol, b: &Symbol) -> (r: bool)
    ensures
        r == (a@ == b@),
    decreases a,
{
    match a {
        Symbol::Number(x) => match b {
            Symbol::Number(y) => *x == *y,
            _ => false,
        },
        Symbol::Str(x) => match b {
            Symbol::Str(y) => *x == *y,
            _ => false,
        },
        Symbol::Infimum => match b {
            Symbol::Infimum => true,
            _ => false,
        },
        Symbol::Supremum => match b {
            Symbol::Supremum => true,
            _ => false,
        },
        Symbol::Function(n1, a1, p1) => match b {
            Symbol::Function(n2, a2, p2) => {
                if *n1 != *n2 || *p1 != *p2 {
                    return false;
                }
                if a1.len() != a2.len() {
                    assert(args_view(a1@).len() != args_view(a2@).len());
                    return false;
                }
                let mut i: usize = 0;
                while i < a1.len()
                    invariant
                        i <= a1@.len(),
                        a1@.len() == a2@.len(),
                        *a == Symbol::Function(*n1, *a1, *p1),
                        *b == Symbol::Function(*n2, *a2, *p2),
                        n1@ == n2@,
                        *p1 == *p2,
                        forall|j: int| 0 <= j < i ==> symbol_view(a1@[j]) == symbol_view(a2@[j]),
                    decreases a1@.len() - i,
                {
                    proof {
                        assert(*a == Symbol::Function(*n1, *a1, *p1));
                        assert(decreases_to!(*a => (*a)->Function_1));
                        assert(decreases_to!(*a1 => a1@));
                        assert(decreases_to!(a1@ => a1@[i as int]));
                    }
                    if !symbol_eq(&a1[i], &a2[i]) {
                        assert(args_view(a1@)[i as int] != args_view(a2@)[i as int]);
                        return false;
                    }
                    i = i + 1;
                }
                assert(args_view(a1@) =~= args_view(a2@));
                true
            },
            _ => false,
        },
    }
}

/// A copy of a symbol.
pub fn copy_symbol(a: &Symbol) -> (r: Symbol)
    ensures
        r@ == a@,
    decreases a,
{
    match a {
        Symbol::Number(x) => Symbol::Number(*x),
        Symbol::Str(x) => Symbol::Str(copy_string(x)),
        Symbol::Infimum => Symbol::Infimum,
        Symbol::Supremum => Symbol::Supremum,
        Symbol::Function(n, args, p) => {
            let mut v: Vec<Symbol> = Vec::new();
            let mut i: usize = 0;
            while i < args.len()
                invariant
                    i <= args@.len(),
                    *a == Symbol::Function(*n, *args, *p),
                    v@.len() == i,
                    forall|j: int| 0 <= j < i ==> symbol_view(#[trigger] v@[j]) == symbol_view(args@[j]),
                decreases args@.len() - i,
            {
                proof {
                    assert(*a == Symbol::Function(*n, *args, *p));
                    assert(decreases_to!(*a => (*a)->Function_1));
                    assert(decreases_to!(*args => args@));
                    assert(decreases_to!(args@ => args@[i as int]));
                }
                let c = copy_symbol(&args[i]);
                v.push(c);
                i = i + 1;
            }
            assert(args_view(v@) =~= args_view(args@));
            Symbol::Function(copy_string(n), v, *p)
        },
    }
}

/// A copy of a sequence of symbols.
pub fn copy_symbols(a: &[Symbol]) -> (r: Vec<Symbol>)
    ensures
        args_view(r@) == args_view(a@),
{
    let mut v: Vec<Symbol> = Vec::new();
    let mut i: usize = 0;
    while i < a.len()
        invariant
            i <= a@.len(),
            v@.len() == i,
            forall|j: int| 0 <= j < i ==> symbol_view(#[trigger] v@[j]) == symbol_view(a@[j]),
        decreases a@.len() - i,
    {
        v.push(copy_symbol(&a[i]));
        i = i + 1;
    }
    assert(args_view(v@) =~= args_view(a@));
    v
}

impl Symbol {
    /// The constant `name`, negated when `positive` is false.
    pub fn create_id(name: &str, positive: bool) -> (r: Symbol)
        ensures
            r@ == SymbolView::Function(name@, Seq::empty(), positive),
    {
        let mut s = String::new();
        push_str(&mut s, name);
        let args: Vec<Symbol> = Vec::new();
        assert(args_view(args@) =~= Seq::<SymbolView>::empty());
        assert(s@ =~= name@);
        Symbol::Function(s, args, positive)
    }

    /// The number `n`.
    pub fn create_number(n: i32) -> (r: Symbol)
        ensures
            r@ == SymbolView::Number(n as int),
    {
        Symbol::Number(n)
    }

    /// The string constant `t`.
    pub fn create_string(t: &str) -> (r: Symbol)
        ensures
            r@ == SymbolView::Str(t@),
    {
        let mut s = String::new();
        push_str(&mut s, t);
        assert(s@ =~= t@);
        Symbol::Str(s)
    }

    /// The function term `name(arguments)`, negated when `positive` is false.
    pub fn create_function(name: &str, arguments: &[Symbol], positive: bool) -> (r: Symbol)
        ensures
            r@ == SymbolView::Function(name@, args_view(arguments@), positive),
    {
        let mut s = String::new();
        push_str(&mut s, name);
        assert(s@ =~= name@);
        Symbol::Function(s, copy_symbols(arguments), positive)
    }
}

} // verus!
