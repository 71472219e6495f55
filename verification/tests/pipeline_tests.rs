use jango::decoding::parse_md_frontmatter;
use jango::conversion::parse_md_content;
use jango::errors::PipelineError;
use jango::extraction::extract_md_frontmatter;
use jango::pipeline::process_md_file;
use jango::pipeline::render_template_with_args;
use jango::pipeline::render_template_with_md;

#[test]
fn render_template_with_args_works_with_no_input() {
    let template = r#"<body>{{ "Hello, " ~ "world" ~ `!`}}</body>"#;

    let result = render_template_with_args(template, None, false);
    assert!(result.is_ok());

    let output = result.expect("Failed to render template");
    assert_eq!(output, "<body>Hello, world!</body>");
}

#[test]
fn render_template_with_args_fails_without_necessary_input() {
    let template = "<body>{{ content }}</body>";

    let result = render_template_with_args(template, None, false);
    assert!(result.is_err());
}

#[test]
fn mod_extract_frontmatter_works_with_empty_frontmatter() {
    let input = "+++\n+++\n\n# This is a heading\n\nThis is a paragraph";

    let result = extract_md_frontmatter(input);
    assert!(result.is_ok());
}

#[test]
fn mod_extract_frontmatter_errors_when_no_frontmatter_is_present() {
    let input = "# This is a title\n\nThis is a paragraph";

    let result = extract_md_frontmatter(input);
    assert!(result.is_err());
}

#[test]
fn mod_extract_frontmatter_errors_on_empty_input() {
    let input = "";

    let result = extract_md_frontmatter(input);
    assert!(result.is_err());
}

#[test]
fn mod_parse_frontmatter_works_with_valid_toml() {
    let input = "title = \"This is for a test\"\nvalid = true";

    let result = parse_md_frontmatter(input);
    assert!(result.is_ok());

    let result = result.expect("Failed to parse frontmatter");
    assert_eq!(result.get("title").and_then(|v| v.as_str()), Some("This is for a test"));
    assert_eq!(result.get("valid").and_then(|v| v.as_bool()), Some(true));
}

#[test]
fn mod_parse_frontmatter_works_with_empty_frontmatter() {
    let input = "";

    let result = parse_md_frontmatter(input);
    assert!(result.is_ok());
}

#[test]
fn mod_parse_frontmatter_errors_with_invalid_toml() {
    let input = "This is for a test\nvalid = false";

    let result = parse_md_frontmatter(input);
    assert!(result.is_err());
}

#[test]
fn mod_parse_contents_works_with_simple_markdown() {
    let input = "# This is a title\n\nThis is a paragraph with a **bold** word.";

    let result = parse_md_content(input, false);
    assert_eq!(
        result,
        "<h1>This is a title</h1>\n<p>This is a paragraph \
        with a <strong>bold</strong> word.</p>"
    );
}

#[test]
fn mod_process_md_file_works_on_a_file_with_an_empty_frontmatter() {
    let input = "+++\n+++\n# This is a heading\n\nThis is a paragraph";

    let result = process_md_file(input, false);
    assert!(result.is_ok());

    let (_, content) = result.expect("Failed to parse markdown input");
    assert_eq!(content, "<h1>This is a heading</h1>\n<p>This is a paragraph</p>");
}

#[test]
fn mod_process_md_file_errors_with_empty_input() {
    let input = "";

    let result = process_md_file(input, false);
    assert!(result.is_err());
}

#[test]
fn mod_process_md_file_errors_when_frontmatter_is_not_present() {
    let input = "# This is a heading\n\nThis is a paragraph";

    let result = process_md_file(input, false);
    assert!(result.is_err());
}

#[test]
fn extraction_extract_frontmatter_works_with_empty_frontmatter() {
    let input = "+++\n+++\n\n# This is a heading\n\nThis is a paragraph";

    let result = extract_md_frontmatter(input);
    assert!(result.is_ok());
}

#[test]
fn extraction_extract_frontmatter_errors_when_no_frontmatter_is_present() {
    let input = "# This is a title\n\nThis is a paragraph";

    let result = extract_md_frontmatter(input);
    assert!(result.is_err());
}

#[test]
fn extraction_extract_frontmatter_errors_on_empty_input() {
    let input = "";

    let result = extract_md_frontmatter(input);
    assert!(result.is_err());
}

#[test]
fn parsing_parse_frontmatter_works_with_valid_toml() {
    let input = "title = \"This is for a test\"\nvalid = true";

    let result = parse_md_frontmatter(input);
    assert!(result.is_ok());

    let result = result.expect("Failed to parse frontmatter");
    assert_eq!(result.get("title").and_then(|v| v.as_str()), Some("This is for a test"));
    assert_eq!(result.get("valid").and_then(|v| v.as_bool()), Some(true));
}

#[test]
fn parsing_parse_frontmatter_works_with_empty_frontmatter() {
    let input = "";

    let result = parse_md_frontmatter(input);
    assert!(result.is_ok());
}

#[test]
fn parsing_parse_frontmatter_errors_with_invalid_toml() {
    let input = "This is for a test\nvalid = false";

    let result = parse_md_frontmatter(input);
    assert!(result.is_err());
}

#[test]
fn parsing_parse_contents_works_with_simple_markdown() {
    let input = "# This is a title\n\nThis is a paragraph with a **bold** word.";

    let result = parse_md_content(input, false);
    assert_eq!(
        result,
        "<h1>This is a title</h1>\n<p>This is a paragraph \
        with a <strong>bold</strong> word.</p>"
    );
}

#[test]
fn processing_process_md_file_works_on_a_file_with_an_empty_frontmatter() {
    let input = "+++\n+++\n# This is a heading\n\nThis is a paragraph";

    let result = process_md_file(input, false);
    assert!(result.is_ok());

    let (_, content) = result.expect("Failed to parse markdown input");
    assert_eq!(content, "<h1>This is a heading</h1>\n<p>This is a paragraph</p>");
}

#[test]
fn processing_process_md_file_errors_with_empty_input() {
    let input = "";

    let result = process_md_file(input, false);
    assert!(result.is_err());
}

#[test]
fn processing_process_md_file_errors_when_frontmatter_is_not_present() {
    let input = "# This is a heading\n\nThis is a paragraph";

    let result = process_md_file(input, false);
    assert!(result.is_err());
}

#[test]
fn plain_substitution_keeps_value_verbatim() {
    let data = vec![("content".to_string(), "hello there".to_string())];
    let result = render_template_with_args("<body>{{content}}</body>", Some(data.as_slice()), false);
    assert_eq!(result.expect("Failed to render template"), "<body>hello there</body>");
}

#[test]
fn escaped_substitution_escapes_markup() {
    let data = vec![("content".to_string(), "<h1>x</h1>".to_string())];
    let result = render_template_with_args("<body>{{content}}</body>", Some(data.as_slice()), true);
    assert_eq!(
        result.expect("Failed to render template"),
        "<body>&lt;h1&gt;x&lt;&#x2F;h1&gt;</body>"
    );
}

#[test]
fn conversion_is_deterministic() {
    let body = "# Heading\n\nSome *text* with a [link](https://example.com).";
    let first = parse_md_content(body, false);
    let second = parse_md_content(body, false);
    assert_eq!(first, second);
    let third = parse_md_content(body, true);
    let fourth = parse_md_content(body, true);
    assert_eq!(third, fourth);
}

#[test]
fn frontmatter_missing_even_with_fences_in_body() {
    let input = "intro\n+++\ntitle = \"x\"\n+++\nbody";
    let result = extract_md_frontmatter(input);
    assert!(matches!(result, Err(PipelineError::FrontmatterMissing)));
}

#[test]
fn frontmatter_missing_when_fence_is_unclosed() {
    let input = "+++\ntitle = \"x\"\nno closing fence";
    let result = extract_md_frontmatter(input);
    assert!(matches!(result, Err(PipelineError::FrontmatterMissing)));
}

#[test]
fn yaml_frontmatter_is_a_type_mismatch() {
    let input = "---\ntitle: x\n---\n# Heading";
    let result = extract_md_frontmatter(input);
    assert!(matches!(result, Err(PipelineError::FrontmatterTypeMismatch)));

    let processed = process_md_file(input, false);
    assert!(matches!(processed, Err(PipelineError::FrontmatterTypeMismatch)));
}

#[test]
fn empty_frontmatter_decodes_to_empty_table() {
    let result = parse_md_frontmatter("");
    let table = result.expect("An empty block must decode");
    assert_eq!(table.len(), 0);
}

#[test]
fn invalid_toml_reports_a_parse_error() {
    let result = process_md_file("+++\nnot toml at all\n+++\nbody", false);
    assert!(matches!(result, Err(PipelineError::MetadataParseError(_))));
}

#[test]
fn unbound_variable_is_a_render_error() {
    let table = jango::values::Table::new();
    let result = render_template_with_md("<p>{{ missing }}</p>", &table, "the body", false);
    match result {
        Err(PipelineError::TemplateRenderError(name)) => {
            assert_eq!(name, "undefined variable `missing`");
        }
        other => panic!("expected a render error, got {other:?}"),
    }
}

#[test]
fn injected_content_overwrites_frontmatter_key() {
    let mut table = jango::values::Table::new();
    table.entries.push((
        "content".to_string(),
        jango::values::MetadataValue::Text("from the frontmatter".to_string()),
    ));
    let result = render_template_with_md("{{ content }}", &table, "from the body", false);
    assert_eq!(result.expect("Failed to render template"), "from the body");
}

#[test]
fn end_to_end_markdown_rendering() {
    let template = "<html><head><title>{{title}}</title></head><body>{{content}}</body></html>";
    let document = "+++\ntitle = \"Test\"\n+++\n# Heading";

    let (frontmatter, content) = process_md_file(document, false).expect("processing must work");
    let output = render_template_with_md(template, &frontmatter, &content, false)
        .expect("rendering must work");

    assert!(output.contains("<title>Test</title>"));
    assert!(output.contains("<body><h1>Heading</h1></body>"));
}
