use nmd::assembler::HtmlAssets;
use nmd::builder::{Builder, BuilderConfiguration, CompilableResourceType};
use nmd::codex::Codex;
use nmd::codex_configuration::CodexConfiguration;
use nmd::configuration::{
    DossierConfiguration, DossierConfigurationCompilation, DossierConfigurationStyle,
    DossierConfigurationTableOfContents, Theme,
};
use nmd::loader::Loader;

fn dossier_configuration(name: &str, paths: Vec<String>) -> DossierConfiguration {
    DossierConfiguration::new(
        ".".to_string(),
        name.to_string(),
        DossierConfigurationTableOfContents::default(),
        paths,
        DossierConfigurationStyle::default(),
        vec![("k".to_string(), "v".to_string())],
        DossierConfigurationCompilation::default(),
    )
}

#[test]
fn input_kind_follows_the_input() {
    let dossier = BuilderConfiguration::new("docs".to_string(), true, "out".to_string());
    let file = BuilderConfiguration::new("a.nmd".to_string(), false, "a.html".to_string());

    assert_eq!(dossier.resource_type, CompilableResourceType::Dossier);
    assert_eq!(file.resource_type, CompilableResourceType::File);
    assert_eq!(file.output_location, "a.html");
    assert_eq!(BuilderConfiguration::default().resource_type, CompilableResourceType::Unknown);
}

#[test]
fn build_options_become_the_compilation() {
    let mut builder = BuilderConfiguration::new("in".to_string(), true, "out".to_string());
    builder.embed_local_image = Some(true);
    builder.parallelization = Some(false);
    builder.use_remote_addons = Some(true);
    builder.fast_draft = Some(true);
    builder.theme = Some(Theme::Dark);

    let compilation = builder.generate_compilation_configuration();

    assert_eq!(compilation.input_location, "in");
    assert_eq!(compilation.output_location, "out");
    assert_eq!(compilation.embed_local_image, Some(true));
    assert_eq!(compilation.embed_remote_image, None);
    assert_eq!(compilation.parallelization, Some(false));
    assert_eq!(compilation.use_remote_addons, None);
    assert!(compilation.fast_draft);
    assert_eq!(compilation.theme, Some(Theme::Dark));
}

#[test]
fn build_options_come_from_the_dossier_when_unset() {
    let mut builder = BuilderConfiguration::default();
    builder.compress_embed_image = Some(false);

    builder.merge_dossier_configuration(&dossier_configuration("D", Vec::new()));

    assert_eq!(builder.compress_embed_image, Some(false));
    assert_eq!(builder.embed_local_image, Some(true));
    assert_eq!(builder.use_remote_addons, Some(false));
    assert_eq!(builder.theme, Some(Theme::Light));
    assert_eq!(builder.references, Some(vec![("k".to_string(), "v".to_string())]));
    assert_eq!(builder.bibliography.as_ref().map(|b| b.title.clone()), Some("Bibliography".to_string()));
}

#[test]
fn build_defaults() {
    let mut builder = BuilderConfiguration::default();
    builder.parallelization = Some(true);

    builder.fill_with_default();

    assert_eq!(builder.embed_local_image, Some(false));
    assert_eq!(builder.embed_remote_image, Some(false));
    assert_eq!(builder.compress_embed_image, Some(false));
    assert_eq!(builder.use_remote_addons, Some(false));
    assert_eq!(builder.parallelization, Some(true));
    assert_eq!(builder.strict_image_src_check, Some(true));
    assert_eq!(builder.references, Some(Vec::new()));
    assert_eq!(builder.theme, Some(Theme::Light));
}

#[test]
fn dossier_is_built_in_the_build_theme() {
    let codex = Codex::of_html(CodexConfiguration::default());
    let read = vec![Ok(("d.nmd".to_string(), "# Title\n\ntext".to_string()))];
    let mut dossier = Loader::new()
        .load_dossier_from_documents(&codex, dossier_configuration("Built", vec!["./d.nmd".to_string()]), read)
        .unwrap();
    let mut builder = BuilderConfiguration::default();
    builder.theme = Some(Theme::Dark);
    let mut assets = HtmlAssets::new();
    assets.dark_theme_css = "DARK".to_string();
    assets.light_theme_css = "LIGHT".to_string();

    let artifact = Builder::build_dossier(&mut dossier, &builder, &codex, assets, &Vec::new()).unwrap();

    assert!(artifact.content().contains("<style>DARK</style>"));
    assert!(!artifact.content().contains("LIGHT"));
    assert!(artifact.content().contains("<title>Built</title>"));
}

#[test]
fn document_is_built_on_its_own() {
    let codex = Codex::of_html(CodexConfiguration::default());
    let mut document = Loader::new().load_document_from_str(&codex, "d", "plain text").unwrap();

    let artifact = Builder::build_document(&mut document, &BuilderConfiguration::default(), &codex).unwrap();

    assert!(artifact.content().contains("plain text"));
}
