use nmd::assembler::{
    assemble_document, AssemblerError, HtmlAssembler, HtmlAssets, StyleSource, LOCAL_MATH_RENDERING,
    REMOTE_MATH_RENDERING,
};
use nmd::chapter::{Chapter, Heading, Paragraph};
use nmd::codex::Codex;
use nmd::codex_configuration::CodexConfiguration;
use nmd::compiler::{load_error_text_of, Compiler};
use nmd::configuration::{
    ArtifactError, ArtifactsCollection, AssemblerConfiguration, CompilationConfiguration,
    DossierConfiguration, DossierConfigurationCompilation, DossierConfigurationStyle,
    DossierConfigurationTableOfContents, Theme, ThemeError,
};
use nmd::document::Document;
use nmd::document_parsing::Dossier;
use nmd::loader::{LoadError, Loader};
use nmd::modifier::ModifiersBucket;
use nmd::output_format::OutputFormat;
use nmd::parser::Parser;
use nmd::parsing::{ParsingConfiguration, ParsingError};
use nmd::parsing_rule::ReplacementRule;
use nmd::resource::ResourceError;

fn parsed_paragraph(content: &str, parsed: &str) -> Paragraph {
    let mut p = Paragraph::new(content.to_string(), "common-paragraph".to_string());
    p.set_parsed_content(Some(parsed.to_string()));
    p
}

fn parsed_document(name: &str) -> Document {
    let mut heading = Heading::new(1, "Title".to_string());
    heading.set_parsed_content(Some("<h1>Title</h1>".to_string()));
    let chapter = Chapter::new(heading, Vec::new(), vec![parsed_paragraph("b", "<p>b</p>")]);
    Document::new(name.to_string(), vec![parsed_paragraph("a", "<p>a</p>")], vec![chapter])
}

fn dossier_configuration(name: &str, paths: Vec<String>) -> DossierConfiguration {
    DossierConfiguration::new(
        ".".to_string(),
        name.to_string(),
        DossierConfigurationTableOfContents::default(),
        paths,
        DossierConfigurationStyle::default(),
        Vec::new(),
        DossierConfigurationCompilation::default(),
    )
}

fn assets() -> HtmlAssets {
    HtmlAssets {
        emoji_css: "E".to_string(),
        katex_css: "K".to_string(),
        katex_fonts_css: "F".to_string(),
        katex_js: "KJ".to_string(),
        auto_render_js: "AR".to_string(),
        light_code_css: "LC".to_string(),
        light_code_js: "LJ".to_string(),
        dark_code_css: "DC".to_string(),
        dark_code_js: "DJ".to_string(),
        light_theme_css: "LT".to_string(),
        dark_theme_css: "DT".to_string(),
    }
}

#[test]
fn document_is_assembled_in_order() {
    let artifact = assemble_document(&parsed_document("d")).unwrap();

    assert_eq!(artifact.content(), "<p>a</p><h1>Title</h1><p>b</p>");
}

#[test]
fn document_not_parsed_is_not_assembled() {
    let document = Document::new(
        "d".to_string(),
        vec![Paragraph::new("a".to_string(), "common-paragraph".to_string())],
        Vec::new(),
    );

    assert!(matches!(assemble_document(&document), Err(AssemblerError::ParsedContentNotFound)));
}

#[test]
fn dossier_without_documents_is_not_assembled() {
    let assembler = HtmlAssembler::new(AssemblerConfiguration::default());
    let dossier = Dossier::new(dossier_configuration("D", vec!["./d.nmd".to_string()]), Vec::new());

    match assembler.assemble_dossier(&dossier, &Vec::new()) {
        Err(AssemblerError::TooFewElements(m)) => assert_eq!(m, "there are no documents"),
        other => panic!("{:?}", other),
    }
}

#[test]
fn dossier_page_with_embedded_addons() {
    let mut assembler = HtmlAssembler::new(AssemblerConfiguration::default());
    assembler.set_assets(assets());
    let dossier = Dossier::new(
        dossier_configuration("D", vec!["./d.nmd".to_string()]),
        vec![parsed_document("d")],
    );
    let styles = vec![
        StyleSource::Embedded("p{}".to_string()),
        StyleSource::Linked("https://x/s.css".to_string()),
    ];

    let artifact = assembler.assemble_dossier(&dossier, &styles).unwrap();

    let expected = format!(
        "{}{}{}{}{}{}",
        "<!DOCTYPE html><html><head><title>D</title><meta charset=\"utf-8\">",
        "<style>E</style><style>K</style><style>F</style><script>KJ</script><script>AR</script>",
        format!("<script>{}</script>", LOCAL_MATH_RENDERING),
        "<style>LC</style><script>LJ</script><style>LT</style>",
        "<style>p{}</style><script src=\"https://x/s.css\" crossorigin=\"anonymous\"></script>",
        "</head><body><section><p>a</p><h1>Title</h1><p>b</p></section></body></html>",
    );
    assert_eq!(artifact.content(), &expected);
}

#[test]
fn dossier_page_with_remote_addons() {
    let configuration = AssemblerConfiguration::new(Theme::Dark, true, false, false, false);
    let assembler = HtmlAssembler::new(configuration);
    let dossier = Dossier::new(
        dossier_configuration("D", vec!["./d.nmd".to_string()]),
        vec![parsed_document("d1"), parsed_document("d2")],
    );

    let artifact = assembler.assemble_dossier(&dossier, &Vec::new()).unwrap();
    let content = artifact.content();

    assert!(content.starts_with("<!DOCTYPE html><html><head><title>D</title><meta charset=\"utf-8\"><script src=\"https://cdnjs.cloudflare.com/ajax/libs/prism/1.29.0/components/prism-core.min.js\" crossorigin=\"anonymous\"></script>"));
    assert!(content.contains("<link href=\"https://cdnjs.cloudflare.com/ajax/libs/prism/1.29.0/themes/prism-okaidia.css\" rel=\"stylesheet\">"));
    assert!(content.contains("<link href=\"https://cdn.jsdelivr.net/npm/katex@0.16.9/dist/katex.min.css\" rel=\"stylesheet\" integrity=\"sha384-n8MVd4RsNIU0tAv4ct0nTaAbDJwPJzDEaqSD1odI+WdtXRGWt2kTvGFasHpSy3SV\" crossorigin=\"anonymous\">"));
    assert!(content.contains(&format!("<script>{}</script><style></style></head>", REMOTE_MATH_RENDERING)));
    assert_eq!(content.matches("<section>").count(), 2);
    assert!(content.ends_with("</section></body></html>"));
}

#[test]
fn dossier_without_documents_is_not_loaded() {
    let codex = Codex::of_html(CodexConfiguration::default());
    let loader = Loader::new();

    match loader.load_dossier_from_documents(&codex, dossier_configuration("D", Vec::new()), Vec::new()) {
        Err(LoadError::ResourceError(ResourceError::InvalidResourceVerbose(m))) => {
            assert_eq!(m, "there are no documents")
        },
        other => panic!("{:?}", other),
    }
}

#[test]
fn dossier_without_name_is_not_loaded() {
    let codex = Codex::of_html(CodexConfiguration::default());
    let loader = Loader::new();
    let configuration = dossier_configuration("", vec!["./d.nmd".to_string()]);

    match loader.load_dossier_from_documents(&codex, configuration, Vec::new()) {
        Err(LoadError::ResourceError(ResourceError::InvalidResourceVerbose(m))) => {
            assert_eq!(m, "there is no name")
        },
        other => panic!("{:?}", other),
    }
}

#[test]
fn dossier_fails_on_first_unreadable_document() {
    let codex = Codex::of_html(CodexConfiguration::default());
    let loader = Loader::new();
    let configuration =
        dossier_configuration("D", vec!["./a.nmd".to_string(), "./b.nmd".to_string()]);
    let read = vec![
        Ok(("a.nmd".to_string(), "text".to_string())),
        Err(LoadError::IoError("b.nmd unreadable".to_string())),
    ];

    match loader.load_dossier_from_documents(&codex, configuration, read) {
        Err(LoadError::IoError(m)) => assert_eq!(m, "b.nmd unreadable"),
        other => panic!("{:?}", other),
    }
}

#[test]
fn dossier_documents_are_named_after_their_files() {
    let codex = Codex::of_html(CodexConfiguration::default());
    let loader = Loader::new();
    let configuration =
        dossier_configuration("D", vec!["./docs/a.nmd".to_string(), "./docs/b.nmd".to_string()]);
    let read = vec![
        ("./docs/a.nmd".to_string(), Ok("# A\n\nfirst".to_string())),
        ("./docs/b.nmd".to_string(), Ok("second".to_string())),
    ];

    let dossier = loader.load_dossier_from_dossier_configuration(&codex, configuration, read).unwrap();

    assert_eq!(dossier.name(), "D");
    assert_eq!(dossier.documents().len(), 2);
    assert_eq!(dossier.documents()[0].name(), "a.nmd");
    assert_eq!(dossier.documents()[0].chapters().len(), 1);
    assert_eq!(dossier.documents()[1].name(), "b.nmd");
    assert_eq!(dossier.documents()[1].preamble().len(), 1);
}

#[test]
fn only_chosen_documents_are_kept() {
    let loader = Loader::new();
    let mut configuration = dossier_configuration(
        "D",
        vec!["./a/d1.nmd".to_string(), "./b/d2.nmd".to_string(), "./c/d3.nmd".to_string()],
    );

    loader
        .keep_only_documents(&mut configuration, &vec!["d3.nmd".to_string(), "d1.nmd".to_string()])
        .unwrap();

    assert_eq!(
        configuration.raw_documents_paths(),
        &vec!["./a/d1.nmd".to_string(), "./c/d3.nmd".to_string()]
    );
}

#[test]
fn dossier_is_compiled_into_one_page() {
    let codex = Codex::of_html(CodexConfiguration::default());
    let loader = Loader::new();
    let configuration = dossier_configuration("Test", vec!["./d1.nmd".to_string()]);
    let read = vec![Ok(("d1.nmd".to_string(), "# Title\n\nSome **bold** text".to_string()))];
    let mut dossier = loader.load_dossier_from_documents(&codex, configuration, read).unwrap();

    let artifact = Compiler::compile_dossier(
        CompilationConfiguration::default(),
        &codex,
        &mut dossier,
        HtmlAssets::new(),
        &Vec::new(),
    )
    .unwrap();
    let content = artifact.content();

    assert!(content.starts_with("<!DOCTYPE html><html><head><title>Test</title>"));
    assert_eq!(content.matches("<section>").count(), 1);
    assert!(content.contains(r#"<strong class="bold">bold</strong>"#));
    assert!(content.contains("Title"));
}

#[test]
fn document_is_compiled_on_its_own() {
    let codex = Codex::of_html(CodexConfiguration::default());
    let mut document =
        Loader::new().load_document_from_str(&codex, "d", "Some **bold** text").unwrap();

    let artifact =
        Compiler::compile_document(CompilationConfiguration::default(), &codex, &mut document).unwrap();

    assert!(!artifact.content().starts_with("<!DOCTYPE"));
    assert!(artifact.content().contains(r#"<strong class="bold">bold</strong>"#));
}

#[test]
fn io_error_clones_as_elaboration_error() {
    let e = LoadError::IoError("disk".to_string());

    match e.clone() {
        LoadError::ElaborationError(m) => assert_eq!(m, "disk"),
        other => panic!("{:?}", other),
    }
    assert_eq!(
        load_error_text_of(&LoadError::ElaborationError("x".to_string())),
        "elaboration error: x"
    );
}

#[test]
fn identifier_of_identifier_is_unchanged() {
    let once = Codex::create_id("A title, with: symbols & spaces");

    assert_eq!(once, "A-title-with-symbols--spaces");
    assert_eq!(Codex::create_id(&once), once);
}

#[test]
fn blank_text_has_no_paragraphs() {
    let codex = Codex::of_html(CodexConfiguration::default());

    let paragraphs = Loader::new().load_paragraphs_from_str(&codex, "  \n\t \n").unwrap();

    assert!(paragraphs.is_empty());
}

#[test]
fn paragraphs_come_in_order() {
    let codex = Codex::of_html(CodexConfiguration::default());

    let paragraphs = Loader::new().load_paragraphs_from_str(&codex, "first\n\nsecond\n\nthird").unwrap();

    let contents: Vec<&str> = paragraphs.iter().map(|p| p.content().trim()).collect();
    assert_eq!(contents, vec!["first", "second", "third"]);
}

#[test]
fn excluding_every_modifier_keeps_the_text() {
    let codex = Codex::of_html(CodexConfiguration::default());
    let content = "Some **bold** and *italic* text";

    let outcome = Parser::parse_text_excluding_modifiers(
        &codex,
        content,
        ModifiersBucket::All,
        &ParsingConfiguration::default(),
    )
    .unwrap();

    assert_eq!(outcome.parsed_content(), content);
}

#[test]
fn text_without_markup_is_kept() {
    let codex = Codex::of_html(CodexConfiguration::default());
    let content = "just some plain words";

    let outcome = Parser::parse_text(&codex, content, &ParsingConfiguration::default()).unwrap();

    assert_eq!(outcome.parsed_content(), content);
}

#[test]
fn first_setting_wins() {
    let mut compilation = CompilationConfiguration::default();
    compilation.embed_local_image = Some(false);
    let mut first = dossier_configuration("D", Vec::new());
    first.compilation.embed_local_image = true;
    first.compilation.parallelization = false;
    let mut second = dossier_configuration("E", Vec::new());
    second.compilation.parallelization = true;

    compilation.merge_dossier_configuration(&first);
    assert_eq!(compilation.embed_local_image, Some(false));
    assert_eq!(compilation.parallelization, Some(false));

    compilation.merge_dossier_configuration(&second);
    compilation.fill_with_default();
    assert_eq!(compilation.embed_local_image, Some(false));
    assert_eq!(compilation.parallelization, Some(false));
    assert_eq!(compilation.theme, Some(Theme::Light));
}

#[test]
fn defaults_fill_unset_options() {
    let mut compilation = CompilationConfiguration::default();

    compilation.fill_with_default();

    assert_eq!(compilation.embed_local_image, Some(true));
    assert_eq!(compilation.embed_remote_image, Some(false));
    assert_eq!(compilation.compress_embed_image, Some(false));
    assert_eq!(compilation.strict_image_src_check, Some(true));
    assert_eq!(compilation.parallelization, Some(true));
    assert_eq!(compilation.use_remote_addons, Some(false));
}

#[test]
fn unknown_theme() {
    match Theme::from_str("Sepia") {
        Err(ThemeError::Unknown(name)) => assert_eq!(name, "Sepia"),
        other => panic!("{:?}", other),
    }
    assert_eq!(Theme::from_str("DARK").unwrap(), Theme::Dark);
}

#[test]
fn format_name_in_any_case() {
    assert_eq!(OutputFormat::from_str("HTML").unwrap(), OutputFormat::Html);
    assert_eq!(OutputFormat::Html.get_extension(), "html");
}

#[test]
fn invalid_pattern_is_an_error() {
    let rule = ReplacementRule::new("(unclosed".to_string(), "x".to_string());

    match rule.parse("text", &ParsingConfiguration::default()) {
        Err(ParsingError::InvalidPattern(p)) => assert_eq!(p, "(unclosed"),
        other => panic!("{:?}", other),
    }
}

#[test]
fn artifacts_need_a_directory() {
    assert!(matches!(
        ArtifactsCollection::new("out.html".to_string(), false),
        Err(ArtifactError::OutputPathNotDir)
    ));
    assert!(ArtifactsCollection::new("out".to_string(), true).is_ok());
}

#[test]
fn bibliography_title_is_parsed_into_its_section() {
    let codex = Codex::of_html(CodexConfiguration::default());
    let mut bibliography = nmd::configuration::Bibliography::new("My **sources**".to_string(), Vec::new());

    bibliography.standard_parse(&codex, &ParsingConfiguration::default()).unwrap();

    assert_eq!(
        bibliography.parsed_content.unwrap(),
        r#"<section class="bibliography"><span class="bibliography-title">My <strong class="bold">sources</strong></span><ul class="bibliography-body"></ul></section>"#
    );
}

#[test]
fn bare_document_names_cannot_be_resolved() {
    let resolvable = dossier_configuration("D", vec!["./a.nmd".to_string(), "/abs/b.nmd".to_string()]);
    let bare = dossier_configuration("D", vec!["./a.nmd".to_string(), "b.nmd".to_string()]);

    assert!(resolvable.documents_paths_resolvable());
    assert_eq!(resolvable.documents_paths(), vec!["./a.nmd".to_string(), "/abs/b.nmd".to_string()]);
    assert!(!bare.documents_paths_resolvable());
}

#[test]
fn quotes_must_hold_only_quote_lines() {
    let codex = Codex::of_html(CodexConfiguration::default());
    let typed = Paragraph::new("> [!note]\n> a quote".to_string(), "extended-block-quote".to_string());
    let good = Document::new("d".to_string(), vec![typed], Vec::new());
    let plain = Loader::new().load_document_from_str(&codex, "d", "just text").unwrap();
    let quote = Paragraph::new("> first\nsecond".to_string(), "extended-block-quote".to_string());
    let bad = Document::new("d".to_string(), vec![quote], Vec::new());

    assert!(Compiler::document_compilable(&codex, &good));
    assert!(Compiler::document_compilable(&codex, &plain));
    assert!(!Compiler::document_compilable(&codex, &bad));
}

#[test]
fn document_is_named_after_its_file() {
    let codex = Codex::of_html(CodexConfiguration::default());
    let loader = Loader::new();

    let document = loader
        .load_document_from_path(&codex, "dir/sub/chapter.nmd", Ok("text".to_string()))
        .unwrap();
    assert_eq!(document.name(), "chapter.nmd");

    match loader.load_document_from_path(&codex, "x.nmd", Err(LoadError::IoError("gone".to_string()))) {
        Err(LoadError::IoError(m)) => assert_eq!(m, "gone"),
        other => panic!("{:?}", other),
    }

    match loader.load_document_from_path(&codex, "dir/..", Ok("text".to_string())) {
        Err(LoadError::ResourceError(ResourceError::InvalidResourceVerbose(p))) => assert_eq!(p, "dir/.."),
        other => panic!("{:?}", other),
    }
}

#[test]
fn headings_inside_code_blocks_open_no_chapter() {
    let codex = Codex::of_html(CodexConfiguration::default());
    let content = "# A\n\nfirst\n\n```python\n# not a heading\n```\n\n# B\n\nsecond";

    let document = Loader::new().load_document_from_str(&codex, "d", content).unwrap();

    let titles: Vec<&str> = document.chapters().iter().map(|c| c.heading().title().as_str()).collect();
    assert_eq!(titles, vec!["A", "B"]);
}
