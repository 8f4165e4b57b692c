use scout_audit::report::{
    capitalize, generate_summary_context, sanitize_category_name, summarize_findings, Category,
    Report, ReportFinding, Vulnerability,
};

fn category(id: &str, name: &str, severities: &[&str]) -> Category {
    Category {
        id: id.to_string(),
        name: name.to_string(),
        vulnerabilities: severities
            .iter()
            .map(|s| Vulnerability { id: format!("{id}-v"), severity: s.to_string() })
            .collect(),
    }
}

fn finding(cat: &str) -> ReportFinding {
    ReportFinding { category_id: cat.to_string(), unit: "u".to_string(), message: "m".to_string() }
}

#[test]
fn summary_counts_per_category() {
    let report = Report {
        date: "2024-01-01".to_string(),
        categories: vec![
            category("arith", "Arithmetic Issues", &["critical", "minor"]),
            category("auth", "Authorization", &["medium"]),
            category("empty", "Nothing Here", &[]),
        ],
        findings: vec![finding("auth"), finding("arith"), finding("auth"), finding("auth")],
    };
    let s = generate_summary_context(&report);
    assert_eq!(s.date, "2024-01-01");
    assert_eq!(s.categories.len(), 2);
    assert_eq!(s.categories[0].name, "Arithmetic Issues");
    assert_eq!(s.categories[0].link, "arithmetic-issues");
    assert_eq!(s.categories[0].results_count, 1);
    assert_eq!(s.categories[0].severity, "Critical");
    assert_eq!(s.categories[1].results_count, 3);
    assert_eq!(s.categories[1].severity, "Medium");
    let total: usize = s.categories.iter().map(|c| c.results_count).sum();
    assert_eq!(total, report.findings.len());
}

#[test]
fn category_without_descriptor_has_empty_severity() {
    let cats = vec![category("c", "C", &[])];
    let r = summarize_findings(&cats, &vec![finding("c"), finding("d")]);
    assert_eq!(r, vec![(1, String::new())]);
}

#[test]
fn findings_of_unknown_categories_are_not_counted() {
    let report = Report {
        date: String::new(),
        categories: vec![category("a", "A", &["low"])],
        findings: vec![finding("zzz")],
    };
    assert!(generate_summary_context(&report).categories.is_empty());
}

#[test]
fn capitalize_first_letter() {
    assert_eq!(capitalize("critical"), "Critical");
    assert_eq!(capitalize(""), "");
    assert_eq!(capitalize("éa"), "Éa");
}

#[test]
fn category_anchor() {
    assert_eq!(sanitize_category_name("Best Practices"), "best-practices");
    assert_eq!(sanitize_category_name("DoS"), "dos");
}
