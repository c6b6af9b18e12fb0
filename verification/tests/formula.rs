use eustress_engine::formula::{parse_formula, Expr};

fn num(d: &str, u: &str) -> Box<Expr> {
    Box::new(Expr::Number { digits: d.to_string(), unit: u.to_string() })
}

#[test]
fn precedence_and_grouping() {
    assert_eq!(
        parse_formula("2*(3+4)"),
        Some(Expr::Multiply(num("2", ""), Box::new(Expr::Add(num("3", ""), num("4", "")))))
    );
    assert_eq!(
        parse_formula(" 1 - 2 - 3 "),
        Some(Expr::Subtract(Box::new(Expr::Subtract(num("1", ""), num("2", ""))), num("3", "")))
    );
    assert_eq!(
        parse_formula("2^3*4"),
        Some(Expr::Multiply(Box::new(Expr::Power(num("2", ""), num("3", ""))), num("4", "")))
    );
    assert_eq!(parse_formula("-5"), Some(Expr::Negate(num("5", ""))));
}

#[test]
fn units_names_calls_and_references() {
    assert_eq!(parse_formula("12.5CM"), Some(Expr::Number { digits: "12.5".to_string(), unit: "cm".to_string() }));
    assert_eq!(parse_formula("90°"), Some(Expr::Number { digits: "90".to_string(), unit: "°".to_string() }));
    assert_eq!(parse_formula("PI"), Some(Expr::Constant("pi".to_string())));
    assert_eq!(
        parse_formula("max(1, 2)"),
        Some(Expr::Call { name: "max".to_string(), first: num("1", ""), second: Some(num("2", "")) })
    );
    assert_eq!(
        parse_formula("Sin (.5)"),
        Some(Expr::Call { name: "sin".to_string(), first: num(".5", ""), second: None })
    );
    assert_eq!(parse_formula("Other.Size.y"), Some(Expr::Reference("other.size.y".to_string())));
    assert_eq!(parse_formula("other .x"), Some(Expr::Reference("other.x".to_string())));
}

#[test]
fn malformed_formulas_are_refused() {
    assert_eq!(parse_formula(""), None);
    assert_eq!(parse_formula("   "), None);
    assert_eq!(parse_formula("1.2.3"), None);
    assert_eq!(parse_formula("."), None);
    assert_eq!(parse_formula("--5"), None);
    assert_eq!(parse_formula("2^3^2"), None);
    assert_eq!(parse_formula("(1+2"), None);
    assert_eq!(parse_formula("1+"), None);
    assert_eq!(parse_formula("max(1,)"), None);
    assert_eq!(parse_formula("a."), None);
    assert_eq!(parse_formula("1 2"), None);
    assert_eq!(parse_formula("+1"), None);
}
