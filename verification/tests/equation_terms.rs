use playground::equation::{
    get_power, get_term_number, polynomial_terms, quadratic_terms, TermError,
};

fn chars(s: &str) -> Vec<char> {
    s.chars().collect()
}

fn poly(expr: &str) -> Vec<(i32, String, bool)> {
    polynomial_terms(expr)
        .unwrap()
        .into_iter()
        .map(|t| (t.power, t.coefficient, t.negative))
        .collect()
}

#[test]
fn polynomial_terms_in_order() {
    assert_eq!(
        poly("x^2 - 2x + 3x - 24"),
        vec![
            (2, "1".to_string(), false),
            (1, "2".to_string(), true),
            (1, "3".to_string(), false),
            (0, "24".to_string(), true),
        ]
    );
}

#[test]
fn polynomial_terms_with_coefficients() {
    assert_eq!(
        poly("y^3 + y^2 + 6 - 7y"),
        vec![
            (3, "1".to_string(), false),
            (2, "1".to_string(), false),
            (0, "6".to_string(), false),
            (1, "7".to_string(), true),
        ]
    );
    assert_eq!(poly("5x^4"), vec![(4, "5".to_string(), false)]);
}

#[test]
fn polynomial_without_terms() {
    assert!(polynomial_terms("").unwrap().is_empty());
    assert!(polynomial_terms("+ - ^").unwrap().is_empty());
}

#[test]
fn power_parse_failure_is_reported() {
    assert_eq!(get_power(&chars("x^a")), None);
    assert_eq!(TermError::Parse.message(), "Parse error");
}

#[test]
fn power_of_a_term() {
    assert_eq!(get_power(&chars("x^7")), Some(7));
    assert_eq!(get_power(&chars("-3x^2")), Some(2));
    // With no `^` the slice starts at byte 1 and ends at the character count.
    assert_eq!(get_power(&chars("x9")), Some(9));
}

#[test]
fn coefficient_text_of_terms() {
    let (text, negative) = get_term_number(&chars("- 12x"), false);
    assert_eq!(text.iter().collect::<String>(), "12");
    assert!(negative);
    // No digit: the slice from 0 to the letter is "+ ", which is kept as it is.
    let (text, negative) = get_term_number(&chars("+ x"), false);
    assert_eq!(text.iter().collect::<String>(), "+ ");
    assert!(!negative);
    // A constant is cut up to its trimmed length.
    let (text, _) = get_term_number(&chars("+ 24"), true);
    assert_eq!(text.iter().collect::<String>(), "24");
    // An invalid range falls back to "1".
    let (text, _) = get_term_number(&chars("x^2"), false);
    assert_eq!(text.iter().collect::<String>(), "1");
}

#[test]
fn coefficient_text_with_wide_characters() {
    // 'é' takes two bytes: the digit starts at byte 2, the letter at byte 3.
    let (text, _) = get_term_number(&chars("é5x"), false);
    assert_eq!(text.iter().collect::<String>(), "5");
    let expected = "é5x".get(2..3).unwrap();
    assert_eq!(expected, "5");
}

#[test]
fn quadratic_terms_in_order() {
    let terms: Vec<(u8, String, bool)> = quadratic_terms("3x^2 - 2x + 1")
        .unwrap()
        .into_iter()
        .map(|t| (t.degree, t.coefficient, t.negative))
        .collect();
    assert_eq!(
        terms,
        vec![
            (2, "3".to_string(), false),
            (1, "2".to_string(), true),
            (0, "1".to_string(), false),
        ]
    );
}

#[test]
fn quadratic_square_term_without_coefficient() {
    let terms = quadratic_terms("x^2 - 4").unwrap();
    assert_eq!(terms.len(), 2);
    assert_eq!(terms[0].degree, 2);
    assert_eq!(terms[0].coefficient, "1");
    assert_eq!(terms[1].degree, 0);
    assert_eq!(terms[1].coefficient, "4");
    assert!(terms[1].negative);
}
