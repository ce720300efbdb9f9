//! Plain-text notes: LaTeX-style notation turned into Unicode, or into
//! ASCII where the calculator font lacks the symbol.

use vstd::prelude::*;
use vstd::string::StrSliceExecFns;
use crate::xml::{str_chars, string_of_chars};

verus! {

/// Each command with its replacement.
pub const LATEX_TABLE: [(&'static str, &'static str); 167] = [
    ("\\alpha", "α"),
    ("\\beta", "β"),
    ("\\gamma", "γ"),
    ("\\delta", "δ"),
    ("\\epsilon", "ε"),
    ("\\varepsilon", "ε"),
    ("\\zeta", "ζ"),
    ("\\eta", "η"),
    ("\\theta", "θ"),
    ("\\vartheta", "ϑ"),
    ("\\iota", "ι"),
    ("\\kappa", "κ"),
    ("\\lambda", "λ"),
    ("\\mu", "μ"),
    ("\\nu", "ν"),
    ("\\xi", "ξ"),
    ("\\pi", "π"),
    ("\\varpi", "ϖ"),
    ("\\rho", "ρ"),
    ("\\varrho", "ϱ"),
    ("\\sigma", "σ"),
    ("\\varsigma", "ς"),
    ("\\tau", "τ"),
    ("\\upsilon", "υ"),
    ("\\phi", "φ"),
    ("\\varphi", "ϕ"),
    ("\\chi", "χ"),
    ("\\psi", "ψ"),
    ("\\omega", "ω"),
    ("\\Gamma", "Gamma"),
    ("\\Delta", "Delta"),
    ("\\Theta", "Theta"),
    ("\\Lambda", "Lambda"),
    ("\\Xi", "Xi"),
    ("\\Pi", "Pi"),
    ("\\Sigma", "Sigma"),
    ("\\Upsilon", "Upsilon"),
    ("\\Phi", "Phi"),
    ("\\Psi", "Psi"),
    ("\\Omega", "Omega"),
    ("\\times", "×"),
    ("\\div", "÷"),
    ("\\cdot", "·"),
    ("\\pm", "±"),
    ("\\mp", "∓"),
    ("\\ast", "∗"),
    ("\\star", "⋆"),
    ("\\circ", "∘"),
    ("\\bullet", "•"),
    ("\\leq", "≤"),
    ("\\le", "≤"),
    ("\\geq", "≥"),
    ("\\ge", "≥"),
    ("\\neq", "≠"),
    ("\\ne", "≠"),
    ("\\approx", "≈"),
    ("\\equiv", "≡"),
    ("\\sim", "∼"),
    ("\\simeq", "≃"),
    ("\\cong", "≅"),
    ("\\propto", "∝"),
    ("\\ll", "≪"),
    ("\\gg", "≫"),
    ("\\subset", "<"),
    ("\\supset", ">"),
    ("\\subseteq", "<="),
    ("\\supseteq", ">="),
    ("\\in", "in"),
    ("\\notin", "not in"),
    ("\\ni", "ni"),
    ("\\perp", "_|_"),
    ("\\parallel", "||"),
    ("\\leftarrow", "<-"),
    ("\\rightarrow", "->"),
    ("\\to", "->"),
    ("\\uparrow", "^"),
    ("\\downarrow", "v"),
    ("\\leftrightarrow", "<->"),
    ("\\Leftarrow", "<="),
    ("\\Rightarrow", "=>"),
    ("\\implies", "=>"),
    ("\\Leftrightarrow", "<=>"),
    ("\\iff", "<=>"),
    ("\\mapsto", "|->"),
    ("\\sum", "SUM"),
    ("\\prod", "PROD"),
    ("\\coprod", "COPROD"),
    ("\\int", "INT"),
    ("\\oint", "OINT"),
    ("\\iint", "IINT"),
    ("\\iiint", "IIINT"),
    ("\\bigcup", "UNION"),
    ("\\bigcap", "INTERSECT"),
    ("\\bigoplus", "OPLUS"),
    ("\\bigotimes", "OTIMES"),
    ("\\infty", "inf"),
    ("\\partial", "d"),
    ("\\nabla", "nabla"),
    ("\\forall", "forall"),
    ("\\exists", "exists"),
    ("\\nexists", "!exists"),
    ("\\emptyset", "{}"),
    ("\\varnothing", "{}"),
    ("\\neg", "NOT"),
    ("\\lnot", "NOT"),
    ("\\land", "AND"),
    ("\\wedge", "AND"),
    ("\\lor", "OR"),
    ("\\vee", "OR"),
    ("\\cap", "n"),
    ("\\cup", "U"),
    ("\\setminus", "\\"),
    ("\\angle", "<"),
    ("\\triangle", "^"),
    ("\\square", "[]"),
    ("\\diamond", "<>"),
    ("\\clubsuit", "club"),
    ("\\diamondsuit", "diamond"),
    ("\\heartsuit", "heart"),
    ("\\spadesuit", "spade"),
    ("\\aleph", "aleph"),
    ("\\wp", "P"),
    ("\\Re", "Re"),
    ("\\Im", "Im"),
    ("\\hbar", "hbar"),
    ("\\ell", "l"),
    ("\\prime", "'"),
    ("\\degree", "deg"),
    ("\\deg", "deg"),
    ("\\sqrt", "√"),
    ("\\cbrt", "∛"),
    ("\\frac12", "½"),
    ("\\frac13", "⅓"),
    ("\\frac23", "⅔"),
    ("\\frac14", "¼"),
    ("\\frac34", "¾"),
    ("\\frac15", "⅕"),
    ("\\frac25", "⅖"),
    ("\\frac35", "⅗"),
    ("\\frac45", "⅘"),
    ("\\frac16", "⅙"),
    ("\\frac56", "⅚"),
    ("\\frac18", "⅛"),
    ("\\frac38", "⅜"),
    ("\\frac58", "⅝"),
    ("\\frac78", "⅞"),
    ("\\,", " "),
    ("\\;", " "),
    ("\\:", " "),
    ("\\!", ""),
    ("\\quad", "  "),
    ("\\qquad", "    "),
    ("\\ldots", "…"),
    ("\\cdots", "⋯"),
    ("\\vdots", "⋮"),
    ("\\ddots", "⋱"),
    ("\\langle", "⟨"),
    ("\\rangle", "⟩"),
    ("\\lceil", "⌈"),
    ("\\rceil", "⌉"),
    ("\\lfloor", "⌊"),
    ("\\rfloor", "⌋"),
    ("\\lvert", "|"),
    ("\\rvert", "|"),
    ("\\|", "‖"),
    ("\\lVert", "‖"),
    ("\\rVert", "‖"),
];

/// The replacement of the first entry of `t` whose command is `cmd`.
pub open spec fn lookup(t: Seq<(&str, &str)>, cmd: Seq<char>) -> Option<Seq<char>>
    decreases t.len(),
{
    if t.len() == 0 {
        None
    } else if t[0].0@ == cmd {
        Some(t[0].1@)
    } else {
        lookup(t.drop_first(), cmd)
    }
}

/// The replacement of a command, if the table has it.
pub open spec fn latex_symbol(cmd: Seq<char>) -> Option<Seq<char>> {
    lookup(LATEX_TABLE@, cmd)
}

/// Superscript forms of the characters that have one.
pub open spec fn superscript(c: char) -> Option<char> {
    match c {
        '0' => Some('⁰'),
        '1' => Some('¹'),
        '2' => Some('²'),
        '3' => Some('³'),
        '4' => Some('⁴'),
        '5' => Some('⁵'),
        '6' => Some('⁶'),
        '7' => Some('⁷'),
        '8' => Some('⁸'),
        '9' => Some('⁹'),
        '+' => Some('⁺'),
        '-' => Some('⁻'),
        '=' => Some('⁼'),
        '(' => Some('⁽'),
        ')' => Some('⁾'),
        'n' => Some('ⁿ'),
        'i' => Some('ⁱ'),
        'x' => Some('ˣ'),
        'y' => Some('ʸ'),
        _ => None,
    }
}

/// Subscript forms of the characters that have one.
pub open spec fn subscript(c: char) -> Option<char> {
    match c {
        '0' => Some('₀'),
        '1' => Some('₁'),
        '2' => Some('₂'),
        '3' => Some('₃'),
        '4' => Some('₄'),
        '5' => Some('₅'),
        '6' => Some('₆'),
        '7' => Some('₇'),
        '8' => Some('₈'),
        '9' => Some('₉'),
        '+' => Some('₊'),
        '-' => Some('₋'),
        '=' => Some('₌'),
        '(' => Some('₍'),
        ')' => Some('₎'),
        'a' => Some('ₐ'),
        'e' => Some('ₑ'),
        'h' => Some('ₕ'),
        'i' => Some('ᵢ'),
        'j' => Some('ⱼ'),
        'k' => Some('ₖ'),
        'l' => Some('ₗ'),
        'm' => Some('ₘ'),
        'n' => Some('ₙ'),
        'o' => Some('ₒ'),
        'p' => Some('ₚ'),
        'r' => Some('ᵣ'),
        's' => Some('ₛ'),
        't' => Some('ₜ'),
        'u' => Some('ᵤ'),
        'v' => Some('ᵥ'),
        'x' => Some('ₓ'),
        _ => None,
    }
}

fn superscript_of(c: char) -> (r: Option<char>)
    ensures
        r == superscript(c),
{
    match c {
        '0' => Some('⁰'),
        '1' => Some('¹'),
        '2' => Some('²'),
        '3' => Some('³'),
        '4' => Some('⁴'),
        '5' => Some('⁵'),
        '6' => Some('⁶'),
        '7' => Some('⁷'),
        '8' => Some('⁸'),
        '9' => Some('⁹'),
        '+' => Some('⁺'),
        '-' => Some('⁻'),
        '=' => Some('⁼'),
        '(' => Some('⁽'),
        ')' => Some('⁾'),
        'n' => Some('ⁿ'),
        'i' => Some('ⁱ'),
        'x' => Some('ˣ'),
        'y' => Some('ʸ'),
        _ => None,
    }
}

fn subscript_of(c: char) -> (r: Option<char>)
    ensures
        r == subscript(c),
{
    match c {
        '0' => Some('₀'),
        '1' => Some('₁'),
        '2' => Some('₂'),
        '3' => Some('₃'),
        '4' => Some('₄'),
        '5' => Some('₅'),
        '6' => Some('₆'),
        '7' => Some('₇'),
        '8' => Some('₈'),
        '9' => Some('₉'),
        '+' => Some('₊'),
        '-' => Some('₋'),
        '=' => Some('₌'),
        '(' => Some('₍'),
        ')' => Some('₎'),
        'a' => Some('ₐ'),
        'e' => Some('ₑ'),
        'h' => Some('ₕ'),
        'i' => Some('ᵢ'),
        'j' => Some('ⱼ'),
        'k' => Some('ₖ'),
        'l' => Some('ₗ'),
        'm' => Some('ₘ'),
        'n' => Some('ₙ'),
        'o' => Some('ₒ'),
        'p' => Some('ₚ'),
        'r' => Some('ᵣ'),
        's' => Some('ₛ'),
        't' => Some('ₜ'),
        'u' => Some('ᵤ'),
        'v' => Some('ᵥ'),
        'x' => Some('ₓ'),
        _ => None,
    }
}

pub open spec fn is_ascii_letter(c: char) -> bool {
    ('a' <= c && c <= 'z') || ('A' <= c && c <= 'Z')
}

/// The end of the run of ASCII letters that starts at `i`.
pub open spec fn letters_end(cs: Seq<char>, i: int) -> int
    decreases cs.len() - i,
{
    if 0 <= i < cs.len() && is_ascii_letter(cs[i]) {
        letters_end(cs, i + 1)
    } else {
        i
    }
}

/// The command that starts with the backslash at `start`, with the number
/// of characters it takes: the backslash and the letters after it
/// (`\frac` also takes the two characters after it, when the table has that
/// fraction); failing that, the backslash and the one character after it.
pub open spec fn command_match(cs: Seq<char>, start: int) -> Option<(Seq<char>, int)> {
    let e = letters_end(cs, start + 1);
    if cs.subrange(start, e) == "\\frac"@ && e + 1 < cs.len() && latex_symbol(
        cs.subrange(start, e + 2),
    ) is Some {
        Some((latex_symbol(cs.subrange(start, e + 2))->0, e + 2 - start))
    } else if latex_symbol(cs.subrange(start, e)) is Some {
        Some((latex_symbol(cs.subrange(start, e))->0, e - start))
    } else if start + 1 < cs.len() && latex_symbol(cs.subrange(start, start + 2)) is Some {
        Some((latex_symbol(cs.subrange(start, start + 2))->0, 2))
    } else {
        None
    }
}

proof fn lemma_letters_end(cs: Seq<char>, i: int)
    requires
        0 <= i <= cs.len(),
    ensures
        i <= letters_end(cs, i) <= cs.len(),
    decreases cs.len() - i,
{
    if i < cs.len() && is_ascii_letter(cs[i]) {
        lemma_letters_end(cs, i + 1);
    }
}

fn is_letter(c: char) -> (r: bool)
    ensures
        r == is_ascii_letter(c),
{
    ('a' <= c && c <= 'z') || ('A' <= c && c <= 'Z')
}

/// Whether `s` is exactly the characters `cs[lo..hi]`.
fn str_matches(s: &str, cs: &Vec<char>, lo: usize, hi: usize) -> (r: bool)
    requires
        lo <= hi <= cs@.len(),
    ensures
        r == (s@ == cs@.subrange(lo as int, hi as int)),
{
    let n = s.unicode_len();
    if n != hi - lo {
        assert(s@.len() != cs@.subrange(lo as int, hi as int).len());
        return false;
    }
    let mut k: usize = 0;
    while k < n
        invariant
            n == s@.len(),
            n == hi - lo,
            lo <= hi <= cs@.len(),
            k <= n,
            forall|m: int| 0 <= m < k ==> s@[m] == cs@[lo + m],
        decreases n - k,
    {
        if s.get_char(k) != cs[lo + k] {
            assert(s@[k as int] != cs@.subrange(lo as int, hi as int)[k as int]);
            return false;
        }
        k += 1;
    }
    assert(s@ =~= cs@.subrange(lo as int, hi as int));
    true
}

/// Looks the command `cs[lo..hi]` up in the table.
fn lookup_command(cs: &Vec<char>, lo: usize, hi: usize) -> (r: Option<&'static str>)
    requires
        lo <= hi <= cs@.len(),
    ensures
        match r {
            Some(s) => latex_symbol(cs@.subrange(lo as int, hi as int)) == Some(s@),
            None => latex_symbol(cs@.subrange(lo as int, hi as int)) is None,
        },
{
    let ghost cmd = cs@.subrange(lo as int, hi as int);
    let ghost t = LATEX_TABLE@;
    let count: usize = 167;
    let mut k: usize = 0;
    assert(t.subrange(0, 167) =~= t);
    while k < count
        invariant
            count == 167,
            t == LATEX_TABLE@,
            t.len() == 167,
            k <= count,
            lo <= hi <= cs@.len(),
            cmd == cs@.subrange(lo as int, hi as int),
            lookup(t, cmd) == lookup(t.subrange(k as int, 167), cmd),
        decreases count - k,
    {
        let entry = LATEX_TABLE[k];
        assert(t.subrange(k as int, 167)[0] == entry);
        if str_matches(entry.0, cs, lo, hi) {
            return Some(entry.1);
        }
        assert(t.subrange(k as int, 167).drop_first() =~= t.subrange(k + 1, 167));
        k += 1;
    }
    None
}

/// Matches the command whose backslash stands at `start`; gives its
/// replacement and how many characters it takes.
pub fn try_match_command(chars: &Vec<char>, start: usize) -> (r: Option<(&'static str, usize)>)
    requires
        start < chars@.len(),
    ensures
        match r {
            Some((s, n)) => command_match(chars@, start as int) == Some((s@, n as int)) && 1 <= n
                <= chars@.len() - start,
            None => command_match(chars@, start as int) is None,
        },
{
    let n = chars.len();
    let mut i = start + 1;
    proof {
        lemma_letters_end(chars@, start + 1);
    }
    while i < n && is_letter(chars[i])
        invariant
            start + 1 <= i <= n,
            n == chars@.len(),
            letters_end(chars@, start + 1) == letters_end(chars@, i as int),
        decreases n - i,
    {
        i += 1;
    }
    assert(letters_end(chars@, i as int) == i);
    if n - i > 1 && str_matches("\\frac", chars, start, i) {
        match lookup_command(chars, start, i + 2) {
            Some(rep) => {
                return Some((rep, i + 2 - start));
            },
            None => {},
        }
    }
    match lookup_command(chars, start, i) {
        Some(rep) => {
            return Some((rep, i - start));
        },
        None => {},
    }
    if start + 1 < n {
        match lookup_command(chars, start, start + 2) {
            Some(rep) => {
                return Some((rep, 2));
            },
            None => {},
        }
    }
    None
}

/// The raised (`sup`) or lowered form of a character, if it has one.
pub open spec fn script_char(c: char, sup: bool) -> Option<char> {
    if sup {
        superscript(c)
    } else {
        subscript(c)
    }
}

/// The first `}` at or after `i`, or the end.
pub open spec fn brace_end(cs: Seq<char>, i: int) -> int
    decreases cs.len() - i,
{
    if 0 <= i < cs.len() && cs[i] != '}' {
        brace_end(cs, i + 1)
    } else {
        i
    }
}

pub open spec fn all_convert(s: Seq<char>, sup: bool) -> bool {
    forall|k: int| 0 <= k < s.len() ==> (#[trigger] script_char(s[k], sup)) is Some
}

pub open spec fn converted(s: Seq<char>, sup: bool) -> Seq<char> {
    Seq::new(s.len(), |k: int| script_char(s[k], sup)->0)
}

pub open spec fn parenthesized(s: Seq<char>) -> Seq<char> {
    seq!['('] + s + seq![')']
}

/// What follows a `^` (`sup`) or `_` at `start`: a braced group, or one
/// character. It is raised or lowered when every character of it can be;
/// otherwise it is kept, in parentheses. No result at the end of the text,
/// for an unclosed brace, or for an empty group. The count is the number of
/// characters taken.
pub open spec fn script_conv(cs: Seq<char>, start: int, sup: bool) -> Option<(Seq<char>, int)> {
    if start < 0 || start >= cs.len() {
        None
    } else if cs[start] == '{' {
        let close = brace_end(cs, start + 1);
        let inner = cs.subrange(start + 1, close);
        if close >= cs.len() || inner.len() == 0 {
            None
        } else if all_convert(inner, sup) {
            Some((converted(inner, sup), close - start + 1))
        } else {
            Some((parenthesized(inner), close - start + 1))
        }
    } else {
        match script_char(cs[start], sup) {
            Some(x) => Some((seq![x], 1)),
            None => Some((parenthesized(seq![cs[start]]), 1)),
        }
    }
}

proof fn lemma_brace_end(cs: Seq<char>, i: int)
    requires
        0 <= i <= cs.len(),
    ensures
        i <= brace_end(cs, i) <= cs.len(),
        brace_end(cs, i) < cs.len() ==> cs[brace_end(cs, i)] == '}',
    decreases cs.len() - i,
{
    if i < cs.len() && cs[i] != '}' {
        lemma_brace_end(cs, i + 1);
    }
}

fn script_char_of(c: char, sup: bool) -> (r: Option<char>)
    ensures
        r == script_char(c, sup),
{
    if sup {
        superscript_of(c)
    } else {
        subscript_of(c)
    }
}

fn parenthesize(cs: &Vec<char>, lo: usize, hi: usize) -> (r: Vec<char>)
    requires
        lo <= hi <= cs@.len(),
    ensures
        r@ == parenthesized(cs@.subrange(lo as int, hi as int)),
{
    let mut out: Vec<char> = Vec::new();
    out.push('(');
    let mut k = lo;
    while k < hi
        invariant
            lo <= k <= hi,
            hi <= cs@.len(),
            out@ == seq!['('] + cs@.subrange(lo as int, k as int),
        decreases hi - k,
    {
        out.push(cs[k]);
        assert(out@ =~= seq!['('] + cs@.subrange(lo as int, k + 1));
        k += 1;
    }
    out.push(')');
    assert(out@ =~= parenthesized(cs@.subrange(lo as int, hi as int)));
    out
}

/// Converts what follows a `^` (`superscript`) or `_` at `start`; gives the
/// converted text and how many characters it takes.
pub fn convert_script(chars: &Vec<char>, start: usize, superscript: bool) -> (r: Option<(Vec<char>, usize)>)
    ensures
        match r {
            Some((v, n)) => script_conv(chars@, start as int, superscript) == Some((v@, n as int))
                && 1 <= n <= chars@.len() - start,
            None => script_conv(chars@, start as int, superscript) is None,
        },
{
    let n = chars.len();
    if start >= n {
        return None;
    }
    if chars[start] == '{' {
        let mut close = start + 1;
        proof {
            lemma_brace_end(chars@, start + 1);
        }
        while close < n && chars[close] != '}'
            invariant
                start + 1 <= close <= n,
                n == chars@.len(),
                brace_end(chars@, start + 1) == brace_end(chars@, close as int),
            decreases n - close,
        {
            close += 1;
        }
        assert(brace_end(chars@, close as int) == close);
        if close >= n || close == start + 1 {
            return None;
        }
        let ghost inner = chars@.subrange(start + 1, close as int);
        let mut all_converted = true;
        let mut result: Vec<char> = Vec::new();
        let mut k = start + 1;
        while k < close
            invariant
                start + 1 <= k <= close,
                close < n,
                n == chars@.len(),
                inner == chars@.subrange(start + 1, close as int),
                all_converted == all_convert(chars@.subrange(start + 1, k as int), superscript),
                all_converted ==> result@ == converted(
                    chars@.subrange(start + 1, k as int),
                    superscript,
                ),
            decreases close - k,
        {
            let ghost prev = chars@.subrange(start + 1, k as int);
            let ghost next = chars@.subrange(start + 1, k + 1);
            assert(next == prev.push(chars@[k as int]));
            match script_char_of(chars[k], superscript) {
                Some(c) => {
                    result.push(c);
                    proof {
                        if all_convert(prev, superscript) {
                            assert forall|m: int| 0 <= m < next.len() implies (#[trigger] script_char(
                                next[m],
                                superscript,
                            )) is Some by {
                                if m < prev.len() {
                                    assert(next[m] == prev[m]);
                                }
                            }
                            assert(result@ =~= converted(next, superscript));
                        } else {
                            let m = choose|m: int|
                                0 <= m < prev.len() && !((#[trigger] script_char(
                                    prev[m],
                                    superscript,
                                )) is Some);
                            assert(next[m] == prev[m]);
                        }
                    }
                },
                None => {
                    all_converted = false;
                    assert(next[prev.len() as int] == chars@[k as int]);
                    assert(!(script_char(next[prev.len() as int], superscript) is Some));
                },
            }
            k += 1;
        }
        if all_converted {
            Some((result, close - start + 1))
        } else {
            Some((parenthesize(chars, start + 1, close), close - start + 1))
        }
    } else {
        match script_char_of(chars[start], superscript) {
            Some(c) => {
                let mut v: Vec<char> = Vec::new();
                v.push(c);
                assert(v@ =~= seq![c]);
                Some((v, 1))
            },
            None => {
                let p = parenthesize(chars, start, start + 1);
                assert(chars@.subrange(start as int, start + 1) =~= seq![chars@[start as int]]);
                Some((p, 1))
            },
        }
    }
}

/// The text of a match, or nothing.
pub open spec fn matched_text(m: Option<(Seq<char>, int)>) -> Seq<char> {
    match m {
        Some((t, _)) => t,
        None => Seq::empty(),
    }
}

/// The number of characters a match takes, or 0.
pub open spec fn matched_len(m: Option<(Seq<char>, int)>) -> int {
    match m {
        Some((_, n)) => n,
        None => 0,
    }
}

/// The conversion of `cs` from position `i` on: commands replaced, `^` and
/// `_` scripts raised or lowered, every other character kept.
pub open spec fn latex_from(cs: Seq<char>, i: int) -> Seq<char>
    decreases cs.len() - i,
{
    if i < 0 || i >= cs.len() {
        Seq::empty()
    } else {
        let cm = command_match(cs, i);
        let sp = script_conv(cs, i + 1, true);
        let sb = script_conv(cs, i + 1, false);
        if cs[i] == '\\' && 1 <= matched_len(cm) <= cs.len() - i {
            matched_text(cm) + latex_from(cs, i + matched_len(cm))
        } else if cs[i] == '^' && 1 <= matched_len(sp) < cs.len() - i {
            matched_text(sp) + latex_from(cs, i + 1 + matched_len(sp))
        } else if cs[i] == '_' && 1 <= matched_len(sb) < cs.len() - i {
            matched_text(sb) + latex_from(cs, i + 1 + matched_len(sb))
        } else {
            seq![cs[i]] + latex_from(cs, i + 1)
        }
    }
}

/// The conversion of a whole text.
pub open spec fn latex_text(s: Seq<char>) -> Seq<char> {
    latex_from(s, 0)
}

/// Converts LaTeX-style notation to Unicode: table commands (Greek letters,
/// operators, relations, arrows, symbols, simple fractions) are replaced,
/// `^` and `_` followed by a character or a braced group are raised or
/// lowered; everything else is kept.
pub fn latex_to_unicode(input: &str) -> (r: String)
    ensures
        r@ == latex_text(input@),
{
    let chars = str_chars(input);
    let n = chars.len();
    let mut out: Vec<char> = Vec::new();
    let mut i: usize = 0;
    while i < n
        invariant
            n == chars@.len(),
            chars@ == input@,
            i <= n,
            out@ + latex_from(chars@, i as int) == latex_text(input@),
        decreases n - i,
    {
        let ghost before = out@;
        let ghost rest = latex_from(chars@, i as int);
        let c = chars[i];
        let mut step: usize = 0;
        if c == '\\' {
            match try_match_command(&chars, i) {
                Some((replacement, consumed)) => {
                    let mut rep = str_chars(replacement);
                    out.append(&mut rep);
                    step = consumed;
                },
                None => {},
            }
        } else if c == '^' || c == '_' {
            match convert_script(&chars, i + 1, c == '^') {
                Some((conv, consumed)) => {
                    let mut conv = conv;
                    out.append(&mut conv);
                    step = consumed + 1;
                },
                None => {},
            }
        }
        if step == 0 {
            out.push(c);
            step = 1;
        }
        assert(out@ + latex_from(chars@, (i + step) as int) =~= before + rest);
        i += step;
    }
    string_of_chars(&out)
}

} // verus!
