use jango::errors::PipelineError;
use jango::pipeline::render_template_with_args;
use jango::pipeline::render_template_with_md;
use jango::text::escape_html;
use jango::text::fmt_i64;
use jango::values::MetadataValue;
use jango::values::Table;

fn table_of(entries: Vec<(&str, MetadataValue)>) -> Table {
    let mut t = Table::new();
    for (k, v) in entries {
        t.entries.push((k.to_string(), v));
    }
    t
}

#[test]
fn escape_html_escapes_every_special_character() {
    assert_eq!(escape_html("&<>\"'/"), "&amp;&lt;&gt;&quot;&#x27;&#x2F;");
    assert_eq!(escape_html("plain text"), "plain text");
    assert_eq!(escape_html(""), "");
    assert_eq!(escape_html("<h1>x</h1>"), "&lt;h1&gt;x&lt;&#x2F;h1&gt;");
}

#[test]
fn fmt_i64_renders_decimal_text() {
    assert_eq!(fmt_i64(0), "0");
    assert_eq!(fmt_i64(42), "42");
    assert_eq!(fmt_i64(-7), "-7");
    assert_eq!(fmt_i64(1000), "1000");
    assert_eq!(fmt_i64(i64::MAX), "9223372036854775807");
    assert_eq!(fmt_i64(i64::MIN), "-9223372036854775808");
}

#[test]
fn string_literals_concatenate_in_all_quote_styles() {
    let result = render_template_with_args("{{ 'a' ~ `b` ~ \"c\" }}", None, false);
    assert_eq!(result.expect("Failed to render template"), "abc");
}

#[test]
fn numbers_render_as_decimal_text() {
    let table = table_of(vec![("n", MetadataValue::Number(42))]);
    let result = render_template_with_md("n = {{ n }}", &table, "", false);
    assert_eq!(result.expect("Failed to render template"), "n = 42");
}

#[test]
fn booleans_and_null_render_canonically() {
    let table = table_of(vec![
        ("yes", MetadataValue::Boolean(true)),
        ("no", MetadataValue::Boolean(false)),
        ("nothing", MetadataValue::Null),
    ]);
    let result = render_template_with_md("{{ yes }}|{{ no }}|{{ nothing }}|", &table, "", false);
    assert_eq!(result.expect("Failed to render template"), "true|false||");
}

#[test]
fn sequences_and_tables_render_bracketed() {
    let table = table_of(vec![
        (
            "items",
            MetadataValue::Sequence(vec![
                MetadataValue::Number(1),
                MetadataValue::Text("two".to_string()),
            ]),
        ),
        (
            "pair",
            MetadataValue::Table(vec![
                ("a".to_string(), MetadataValue::Number(1)),
                ("b".to_string(), MetadataValue::Boolean(false)),
            ]),
        ),
    ]);
    let result = render_template_with_md("{{ items }} {{ pair }}", &table, "", false);
    assert_eq!(result.expect("Failed to render template"), "[1, two] {a: 1, b: false}");
}

#[test]
fn conditional_selects_the_right_arm() {
    let on = table_of(vec![("flag", MetadataValue::Boolean(true))]);
    let off = table_of(vec![("flag", MetadataValue::Boolean(false))]);
    let template = "{% if flag %}yes{% else %}no{% endif %}";
    assert_eq!(
        render_template_with_md(template, &on, "", false).expect("Failed to render template"),
        "yes"
    );
    assert_eq!(
        render_template_with_md(template, &off, "", false).expect("Failed to render template"),
        "no"
    );
}

#[test]
fn conditional_without_else_renders_nothing_when_false() {
    let table = table_of(vec![("flag", MetadataValue::Text(String::new()))]);
    let template = "a{% if flag %}b{% endif %}c";
    assert_eq!(
        render_template_with_md(template, &table, "", false).expect("Failed to render template"),
        "ac"
    );
}

#[test]
fn iteration_renders_the_body_per_element() {
    let table = table_of(vec![(
        "items",
        MetadataValue::Sequence(vec![
            MetadataValue::Number(1),
            MetadataValue::Number(2),
            MetadataValue::Number(3),
        ]),
    )]);
    let template = "{% for x in items %}[{{ x }}]{% endfor %}";
    assert_eq!(
        render_template_with_md(template, &table, "", false).expect("Failed to render template"),
        "[1][2][3]"
    );
}

#[test]
fn iteration_binder_shadows_and_restores() {
    let table = table_of(vec![
        ("x", MetadataValue::Text("outer".to_string())),
        (
            "items",
            MetadataValue::Sequence(vec![MetadataValue::Text("inner".to_string())]),
        ),
    ]);
    let template = "{% for x in items %}{{ x }}{% endfor %}-{{ x }}";
    assert_eq!(
        render_template_with_md(template, &table, "", false).expect("Failed to render template"),
        "inner-outer"
    );
}

#[test]
fn iterating_a_scalar_is_a_render_error() {
    let table = table_of(vec![("n", MetadataValue::Number(3))]);
    let result = render_template_with_md("{% for x in n %}{{ x }}{% endfor %}", &table, "", false);
    assert!(matches!(result, Err(PipelineError::TemplateRenderError(_))));
}

#[test]
fn unclosed_interpolation_is_a_syntax_error() {
    let result = render_template_with_args("<body>{{ content", None, false);
    assert!(matches!(result, Err(PipelineError::TemplateSyntaxError(_))));
}

#[test]
fn unknown_tag_is_a_syntax_error() {
    let result = render_template_with_args("{% bogus %}", None, false);
    assert!(matches!(result, Err(PipelineError::TemplateSyntaxError(_))));
}

#[test]
fn unclosed_block_is_a_syntax_error() {
    let data = vec![("flag".to_string(), "x".to_string())];
    let result = render_template_with_args("{% if flag %}yes", Some(data.as_slice()), false);
    assert!(matches!(result, Err(PipelineError::TemplateSyntaxError(_))));
}

#[test]
fn stray_closing_tag_is_a_syntax_error() {
    let result = render_template_with_args("text{% endif %}", None, false);
    assert!(matches!(result, Err(PipelineError::TemplateSyntaxError(_))));
}

#[test]
fn lone_braces_are_literal_text() {
    let result = render_template_with_args("a { b } c {d}", None, false);
    assert_eq!(result.expect("Failed to render template"), "a { b } c {d}");
}

#[test]
fn later_pairs_shadow_earlier_ones() {
    let data = vec![
        ("content".to_string(), "first".to_string()),
        ("content".to_string(), "second".to_string()),
    ];
    let result = render_template_with_args("{{ content }}", Some(data.as_slice()), false);
    assert_eq!(result.expect("Failed to render template"), "second");
}

#[test]
fn floats_and_dates_decode_to_their_canonical_text() {
    let table = jango::decoding::parse_md_frontmatter("pi = 3.25\nwhen = 2024-04-03")
        .expect("Failed to parse frontmatter");
    assert_eq!(table.get("pi").and_then(|v| v.as_str()), Some("3.25"));
    assert_eq!(table.get("when").and_then(|v| v.as_str()), Some("2024-04-03"));
}

#[test]
fn nested_toml_values_decode_structurally() {
    let table = jango::decoding::parse_md_frontmatter("nums = [1, 2]\n[inner]\nkey = \"v\"")
        .expect("Failed to parse frontmatter");
    match table.get("nums") {
        Some(MetadataValue::Sequence(vs)) => {
            assert_eq!(vs.len(), 2);
            assert!(matches!(vs[0], MetadataValue::Number(1)));
        }
        other => panic!("expected a sequence, got {other:?}"),
    }
    match table.get("inner") {
        Some(MetadataValue::Table(es)) => {
            assert_eq!(es.len(), 1);
            assert_eq!(es[0].0, "key");
        }
        other => panic!("expected a table, got {other:?}"),
    }
}

#[test]
fn error_messages_name_their_stage() {
    let err = PipelineError::FrontmatterMissing;
    assert_eq!(err.message(), "frontmatter not present");
    let err = PipelineError::TemplateRenderError("undefined variable `x`".to_string());
    assert_eq!(err.message(), "failed to render template: undefined variable `x`");
}

#[test]
fn default_options_follow_the_inline_flag() {
    let strict = jango::conversion::default_md_options(false);
    assert!(strict.parse.frontmatter);
    assert!(!strict.parse.html_flow);
    assert!(!strict.parse.html_text);
    assert!(!strict.allow_dangerous_html);

    let open = jango::conversion::default_md_options(true);
    assert!(open.parse.frontmatter);
    assert!(open.parse.html_flow);
    assert!(open.parse.html_text);
    assert!(open.allow_dangerous_html);
}

#[test]
fn inline_html_flag_controls_raw_markup() {
    let body = "text <em>raw</em> text";
    let strict = jango::conversion::parse_md_content(body, false);
    assert!(!strict.contains("<em>raw</em>"));
    let open = jango::conversion::parse_md_content(body, true);
    assert!(open.contains("<em>raw</em>"));
}

#[test]
fn split_pair_splits_at_the_first_equals_sign() {
    assert_eq!(
        jango::arguments::split_pair("key=value"),
        Some(("key".to_string(), "value".to_string()))
    );
    assert_eq!(
        jango::arguments::split_pair("a=b=c"),
        Some(("a".to_string(), "b=c".to_string()))
    );
    assert_eq!(jango::arguments::split_pair("=v"), Some(("".to_string(), "v".to_string())));
}

#[test]
fn split_pair_rejects_text_without_equals_sign() {
    assert_eq!(jango::arguments::split_pair("no separator"), None);
    assert_eq!(jango::arguments::split_pair(""), None);
}
