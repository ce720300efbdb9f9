use luna_rs::math_render::latex_to_unicode;

#[test]
fn test_greek_letters() {
    assert_eq!(latex_to_unicode("\\alpha + \\beta = \\gamma"), "α + β = γ");
    assert_eq!(latex_to_unicode("\\Sigma\\Omega"), "SigmaOmega");
    assert_eq!(latex_to_unicode("\\Delta x"), "Delta x");
}

#[test]
fn test_operators() {
    assert_eq!(latex_to_unicode("a \\times b"), "a × b");
    assert_eq!(latex_to_unicode("x \\leq y \\leq z"), "x ≤ y ≤ z");
    assert_eq!(latex_to_unicode("a \\neq b"), "a ≠ b");
}

#[test]
fn test_superscripts() {
    assert_eq!(latex_to_unicode("x^2"), "x²");
    assert_eq!(latex_to_unicode("x^{10}"), "x¹⁰");
    assert_eq!(latex_to_unicode("x^2 + y^2 = z^2"), "x² + y² = z²");
    assert_eq!(latex_to_unicode("e^i\\pi"), "eⁱπ");
}

#[test]
fn test_subscripts() {
    assert_eq!(latex_to_unicode("x_1"), "x₁");
    assert_eq!(latex_to_unicode("x_{12}"), "x₁₂");
    assert_eq!(latex_to_unicode("H_2O"), "H₂O");
    assert_eq!(latex_to_unicode("a_n"), "aₙ");
}

#[test]
fn test_symbols() {
    assert_eq!(latex_to_unicode("\\infty"), "inf");
    assert_eq!(latex_to_unicode("\\sum_{i=0}^{n}"), "SUMᵢ₌₀ⁿ");
    assert_eq!(latex_to_unicode("\\int f(x) dx"), "INT f(x) dx");
    assert_eq!(latex_to_unicode("\\partial f"), "d f");
    assert_eq!(latex_to_unicode("\\nabla"), "nabla");
}

#[test]
fn test_fractions() {
    assert_eq!(latex_to_unicode("\\frac12 + \\frac14 = \\frac34"), "½ + ¼ = ¾");
}

#[test]
fn test_arrows() {
    assert_eq!(latex_to_unicode("a \\rightarrow b"), "a -> b");
    assert_eq!(latex_to_unicode("A \\Rightarrow B"), "A => B");
    assert_eq!(latex_to_unicode("P \\iff Q"), "P <=> Q");
    assert_eq!(latex_to_unicode("x \\to y"), "x -> y");
}

#[test]
fn test_mixed() {
    assert_eq!(latex_to_unicode("E = mc^2"), "E = mc²");
    assert_eq!(
        latex_to_unicode("\\forall x \\in \\mathbb{R}: x^2 \\geq 0"),
        "forall x in \\mathbb{R}: x² ≥ 0"
    );
}

#[test]
fn test_no_latex() {
    assert_eq!(latex_to_unicode("Hello World"), "Hello World");
    assert_eq!(latex_to_unicode("2 + 2 = 4"), "2 + 2 = 4");
}

#[test]
fn test_partial_match() {
    assert_eq!(latex_to_unicode("\\unknown"), "\\unknown");
}

#[test]
fn unconvertible_scripts_are_parenthesized() {
    assert_eq!(latex_to_unicode("x^{ab}"), "x(ab)");
    assert_eq!(latex_to_unicode("x_q"), "x(q)");
}

#[test]
fn empty_or_unclosed_groups_are_kept() {
    assert_eq!(latex_to_unicode("x^{}"), "x^{}");
    assert_eq!(latex_to_unicode("x_{12"), "x_{12");
    assert_eq!(latex_to_unicode("x^"), "x^");
    assert_eq!(latex_to_unicode(""), "");
}

#[test]
fn special_one_character_commands() {
    assert_eq!(latex_to_unicode("a\\,b"), "a b");
    assert_eq!(latex_to_unicode("a\\!b"), "ab");
    assert_eq!(latex_to_unicode("a \\setminus b"), "a \\ b");
}

#[test]
fn fraction_not_in_table_falls_back() {
    assert_eq!(latex_to_unicode("\\frac79"), "\\frac79");
    assert_eq!(latex_to_unicode("\\sqrt2"), "√2");
}
