use nmd::chapter_modifier::ChapterModifier;
use nmd::codex::Codex;
use nmd::codex_configuration::CodexConfiguration;
use nmd::loader::Loader;
use nmd::modifier::ModifiersBucket;
use nmd::output_format::OutputFormat;
use nmd::paragraph_modifier::ParagraphModifier;
use nmd::parser::Parser;
use nmd::parsing::ParsingConfiguration;
use nmd::parsing_rule::ReplacementRule;
use nmd::standard_chapter_modifier::StandardChapterModifier;
use nmd::standard_paragraph_modifier::StandardParagraphModifier;
use nmd::standard_text_modifier::StandardTextModifier;
use nmd::text_modifier::TextModifier;

#[test]
fn html_support() {
    match OutputFormat::from_str("html") {
        Ok(format) => assert_eq!(format, OutputFormat::Html),
        Err(err) => panic!("{:?}", err),
    }
}

#[test]
fn unsupported_format() {
    assert!(OutputFormat::from_str("htm").is_err())
}

#[test]
fn chapters_from_str() {
    let codex = Codex::of_html(CodexConfiguration::default());

    let content: String = r#"
# title 1a

paragraph 1a

## title 2a

paragraph 2a

# title 1b

paragraph 1b
"#
    .trim()
    .to_string();

    let loader = Loader::new();

    let document = loader.load_document_from_str(&codex, "test", &content).unwrap();

    assert_eq!(document.preamble().len(), 0);

    assert_eq!(document.chapters().len(), 3);
}

#[test]
fn paragraphs_from_str() {
    let content = "paragraph1\n\nparagraph2a\nparagraph2b\n\nparagraph3";

    let codex = Codex::of_html(CodexConfiguration::default());

    let loader = Loader::new();

    let paragraphs = loader.load_paragraphs_from_str(&codex, content).unwrap();

    assert_eq!(paragraphs.len(), 3)
}

#[test]
fn codex_split_str_in_paragraphs() {
    let codex: Codex = Codex::of_html(CodexConfiguration::default());

    let nmd_text = r#"
```python

print("hello world")

```

`print("hello world)`
"#
    .trim();

    let paragraphs = Loader::new().load_paragraphs_from_str(&codex, nmd_text).unwrap();

    assert_eq!(paragraphs.len(), 2)
}

#[test]
fn id() {
    let s = "my $string<-_778ks";

    let id = Codex::create_id(s);

    assert_eq!(id, "my-string-_778ks");
}

#[test]
fn is_heading() {
    let content = "#6 title 6";

    assert!(ChapterModifier::heading_level(content).is_some());

    let content = "### title 3";

    assert!(ChapterModifier::heading_level(content).is_some());

    let content = "text";

    assert!(ChapterModifier::heading_level(content).is_none())
}

#[test]
fn parse_text() {
    let codex = &Codex::of_html(CodexConfiguration::default());
    let content = "Text **bold text** `a **bold text** which must be not parsed`";
    let parsing_configuration = ParsingConfiguration::default();
    let excluded_modifiers = ModifiersBucket::Nothing;

    let outcome =
        Parser::parse_text_excluding_modifiers(codex, content, excluded_modifiers, &parsing_configuration).unwrap();

    assert_eq!(
        outcome.parsed_content(),
        r#"Text <strong class="bold">bold text</strong> <code class="language-markup inline-code">a **bold text** which must be not parsed</code>"#
    )
}

#[test]
fn bold_parsing() {
    // valid pattern with a valid text modifier
    let parsing_rule = ReplacementRule::new(
        StandardTextModifier::BoldStarVersion.modifier_pattern(),
        String::from("<strong>$1</strong>"),
    );

    let text_to_parse = r"A piece of **bold text**";
    let parsing_configuration = ParsingConfiguration::default();

    let parsed_text = parsing_rule.parse(text_to_parse, &parsing_configuration).unwrap();

    assert_eq!(parsed_text.parsed_content(), r"A piece of <strong>bold text</strong>");

    // without text modifier
    let text_to_parse = r"A piece of text without bold text";

    let parsed_text = parsing_rule.parse(text_to_parse, &parsing_configuration).unwrap();

    assert_eq!(parsed_text.parsed_content(), r"A piece of text without bold text");
}

#[test]
fn heading_parsing() {
    let parsing_configuration = ParsingConfiguration::default();

    let parsing_rule = ReplacementRule::new(
        StandardChapterModifier::HeadingGeneralExtendedVersion(6).modifier_pattern(),
        String::from("<h6>$1</h6>"),
    );

    let text_to_parse = r"###### title 6";

    let parsed_text = parsing_rule.parse(text_to_parse, &parsing_configuration).unwrap();

    assert_eq!(parsed_text.parsed_content(), r"<h6>title 6</h6>");
}

#[test]
fn code_block() {
    let parsing_configuration = ParsingConfiguration::default();

    let parsing_rule = ReplacementRule::new(
        StandardParagraphModifier::CodeBlock.modifier_pattern(),
        String::from(r#"<pre><code class="language-$1 codeblock">$2</code></pre>"#),
    );

    let text_to_parse = r#"
```python

print("hello world")

```
"#;

    let parsed_text = parsing_rule.parse(text_to_parse, &parsing_configuration).unwrap();

    assert_eq!(
        parsed_text.parsed_content(),
        "\n<pre><code class=\"language-python codeblock\">print(\"hello world\")</code></pre>\n"
    );
}

#[test]
fn focus_block() {
    let parsing_configuration = ParsingConfiguration::default();

    let parsing_rule = ReplacementRule::new(
        StandardParagraphModifier::FocusBlock.modifier_pattern(),
        String::from(r#"<div class="focus-block focus-block-$1">$2</div>"#),
    )
    .with_newline_fix(r"<br>".to_string());

    let text_to_parse = r#"
# title 1

::: warning
new
warning

multiline
:::


"#;

    let parsed_text = parsing_rule.parse(text_to_parse, &parsing_configuration).unwrap();
    let parsed_text = parsed_text.parsed_content();

    assert_ne!(parsed_text, text_to_parse);
}

#[test]
fn match_list() {
    let regex = regex::Regex::new(StandardParagraphModifier::List.modifier_pattern_with_paragraph_separator().as_str())
        .unwrap();

    let list = ["\n", "\n", "- [Element 1](#element-1)", "- [Element 2](#element-2)", "\n", "\n"].concat();

    assert!(regex.is_match(&list));
}

#[test]
fn parsing() {
    let nmd_text = r#"
- element 1
- element 2
    - element 2.1
        - element 2.1.1a
        | element 2.1.1b
        - element 2.1.2
        - element 2.1.3
    - element 2.2
- element 3
"#
    .trim();

    let rule = nmd::parsing_rule::HtmlListRule::new();

    let _outcome = rule.parse(nmd_text, &ParsingConfiguration::default()).unwrap();
}

#[test]
fn heading_levels_of_numbered_headings() {
    assert_eq!(ChapterModifier::heading_level("###### six"), Some(6));
    assert_eq!(ChapterModifier::heading_level("#2 two"), Some(2));
    assert!(ChapterModifier::str_is_heading("# one"));
    assert!(!ChapterModifier::str_is_heading("#- relative"));
    assert_eq!(ChapterModifier::ordered().len(), 12);
}

#[test]
fn an_artifact_converts_into_its_content() {
    let artifact = nmd::configuration::Artifact::new("<p>x</p>".to_string());
    let content: String = artifact.into();
    assert_eq!(content, "<p>x</p>");
}

#[test]
fn first_syntax_modifiers_keep_their_patterns() {
    assert_eq!(TextModifier::ordered().len(), 27);
    assert_eq!(TextModifier::ordered()[0], TextModifier::Todo);
    assert_eq!(TextModifier::BoldStarVersion.search_pattern(), r"\*\*(.*?)\*\*");
    assert_eq!(ParagraphModifier::ordered_paragraph_modifiers().len(), 18);

    let image = regex::Regex::new(&ParagraphModifier::Image.search_pattern()).unwrap();
    assert!(image.is_match("\n\n![a](b.png)\n\n"));
}
