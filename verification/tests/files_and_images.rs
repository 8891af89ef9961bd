use nmd::builder::default_output_location;
use nmd::codex::Codex;
use nmd::codex_configuration::CodexConfiguration;
use nmd::configuration::{
    DossierConfiguration, DossierConfigurationCompilation, DossierConfigurationStyle,
    DossierConfigurationTableOfContents,
};
use nmd::image_rule::{image_references, HtmlImageRule, ImageSource};
use nmd::loader::{LoadError, Loader};
use nmd::parsing::{ParsingConfiguration, ParsingError};
use nmd::resource::ResourceError;
use nmd::watching::files_to_reload;

fn configuration_at(root: &str, paths: Vec<String>) -> DossierConfiguration {
    DossierConfiguration::new(
        root.to_string(),
        "Dossier".to_string(),
        DossierConfigurationTableOfContents::default(),
        paths,
        DossierConfigurationStyle::default(),
        Vec::new(),
        DossierConfigurationCompilation::default(),
    )
}

#[test]
fn apply_root_path() {
    let nmd_dossier_path = "/project/test-resources/nmd-test-dossier-1";
    let configuration = configuration_at(nmd_dossier_path, vec!["./d1.nmd".to_string()]);

    assert_eq!(
        configuration.documents_paths()[0],
        format!("{}/{}", nmd_dossier_path, "d1.nmd")
    );
}

#[test]
fn a_document_is_named_after_its_file() {
    let codex = Codex::of_html(CodexConfiguration::default());
    let loader = Loader::new();

    let plain = loader
        .load_document_from_path(&codex, "d1.nmd", Ok("# Title\n\ntext".to_string()))
        .unwrap();
    assert_eq!(plain.name(), "d1.nmd");

    let nested = loader
        .load_document_from_path(&codex, "./docs/d2.nmd", Ok("text".to_string()))
        .unwrap();
    assert_eq!(nested.name(), "d2.nmd");
}

#[test]
fn a_path_without_file_name_is_an_invalid_resource() {
    let codex = Codex::of_html(CodexConfiguration::default());
    let loader = Loader::new();

    match loader.load_document_from_path(&codex, "..", Ok("text".to_string())) {
        Err(LoadError::ResourceError(ResourceError::InvalidResourceVerbose(p))) => assert_eq!(p, ".."),
        _ => panic!("a path ending in .. has no file name"),
    }
}

#[test]
fn a_read_error_is_handed_on() {
    let codex = Codex::of_html(CodexConfiguration::default());
    let loader = Loader::new();

    match loader.load_document_from_path(&codex, "d1.nmd", Err(LoadError::IoError("denied".to_string()))) {
        Err(LoadError::IoError(t)) => assert_eq!(t, "denied"),
        _ => panic!("the read error must come back"),
    }
}

#[test]
fn dossier_documents_take_their_file_names() {
    let codex = Codex::of_html(CodexConfiguration::default());
    let loader = Loader::new();
    let configuration = configuration_at(".", vec!["a.nmd".to_string(), "./b/c.nmd".to_string()]);
    let read = vec![
        ("a.nmd".to_string(), Ok("first".to_string())),
        ("./b/c.nmd".to_string(), Ok("second".to_string())),
    ];

    let dossier = loader
        .load_dossier_from_dossier_configuration(&codex, configuration, read)
        .unwrap();

    assert_eq!(dossier.documents().len(), 2);
    assert_eq!(dossier.documents()[0].name(), "a.nmd");
    assert_eq!(dossier.documents()[1].name(), "c.nmd");
}

#[test]
fn plain_document_names_select_documents() {
    let loader = Loader::new();
    let mut configuration = configuration_at(
        ".",
        vec!["d1.nmd".to_string(), "d2.nmd".to_string(), "d3.nmd".to_string()],
    );

    loader
        .keep_only_documents(&mut configuration, &vec!["d2.nmd".to_string()])
        .unwrap();

    assert_eq!(configuration.raw_documents_paths(), &vec!["d2.nmd".to_string()]);
}

#[test]
fn changed_documents_are_reloaded_and_configuration_reloads_all() {
    let documents = vec!["d1.nmd".to_string(), "d2.nmd".to_string()];

    assert_eq!(
        files_to_reload(&vec!["d2.nmd".to_string(), "other.txt".to_string()], &documents),
        Some(vec!["d2.nmd".to_string()])
    );
    assert_eq!(
        files_to_reload(&vec!["d1.nmd".to_string(), "nmd.yml".to_string()], &documents),
        None
    );
    assert_eq!(files_to_reload(&Vec::new(), &documents), Some(Vec::new()));
}

fn figure(id: &str, src: &str, label: &str) -> String {
    format!(
        "<figure class=\"figure\" id=\"{}\">\n                    <img src=\"{}\" alt=\"{}\" class=\"image\" />\n                    <figcaption class=\"image-caption\">{}</figcaption>\n                </figure>",
        id, src, label, label
    )
}

#[test]
fn a_remote_image_is_linked() {
    let rule = HtmlImageRule::new();
    let configuration = ParsingConfiguration::default();

    let outcome = rule
        .parse("see ![My image](https://example.com/i.png) here", &configuration)
        .unwrap();

    assert_eq!(
        outcome.parsed_content(),
        &format!("see {} here", figure("My-image", "https://example.com/i.png", "My image"))
    );
}

#[test]
fn embedding_a_remote_image_is_refused() {
    let rule = HtmlImageRule::new();
    let mut configuration = ParsingConfiguration::default();
    configuration.embed_remote_image = true;

    match rule.parse("![a](https://example.com/i.png)", &configuration) {
        Err(ParsingError::InvalidSource(s)) => assert_eq!(s, "https://example.com/i.png"),
        _ => panic!("embedding a remote image is not supported"),
    }
}

#[test]
fn a_local_image_found_is_embedded() {
    let rule = HtmlImageRule::with_sources(vec![(
        "images/logo.png".to_string(),
        ImageSource::Embedded("AAAA".to_string()),
    )]);
    let configuration = ParsingConfiguration::default();

    let outcome = rule.parse("![logo](images/logo.png)", &configuration).unwrap();

    assert_eq!(
        outcome.parsed_content(),
        &figure("logo", "data:image/png;base64,AAAA", "logo")
    );
}

#[test]
fn a_local_image_not_found_is_linked_or_refused() {
    let rule = HtmlImageRule::with_sources(vec![("missing.png".to_string(), ImageSource::NotFound)]);
    let mut configuration = ParsingConfiguration::default();
    configuration.strict_image_src_check = false;

    let outcome = rule.parse("![x](missing.png)", &configuration).unwrap();
    assert_eq!(outcome.parsed_content(), &figure("x", "missing.png", "x"));

    configuration.strict_image_src_check = true;
    match rule.parse("![x](missing.png)", &configuration) {
        Err(ParsingError::InvalidSource(s)) => assert_eq!(s, "missing.png"),
        _ => panic!("a missing image is refused under strict checks"),
    }
}

#[test]
fn text_without_images_is_kept() {
    let rule = HtmlImageRule::new();
    let configuration = ParsingConfiguration::default();

    let outcome = rule.parse("no image, just [a link](x)", &configuration).unwrap();

    assert_eq!(outcome.parsed_content(), "no image, just [a link](x)");
}

#[test]
fn local_image_references_are_listed_in_order() {
    let refs = image_references("![a](one.png) ![b](https://x.org/b.png) ![c](two.png)").unwrap();

    assert_eq!(refs, vec![Some("one.png".to_string()), None, Some("two.png".to_string())]);
}

#[test]
fn output_goes_beside_a_file_or_into_a_dossier() {
    assert_eq!(
        default_output_location("docs/readme.nmd", false, false, "readme", "docs", "html"),
        "docs/readme.html"
    );
    assert_eq!(
        default_output_location("dossier", true, true, "dossier", "", "html"),
        "dossier"
    );
    assert_eq!(
        default_output_location("dir", false, true, "dir", "", "html"),
        "dir/dir.html"
    );
}

#[test]
fn a_windows_relative_reference_is_read_as_relative() {
    let mut manager = nmd::configuration::DossierConfigurationRawReferenceManager::new();
    manager.set_root_path_with_separator("/root".to_string(), "\\".to_string());

    assert!(manager.not_unix_like_os);
    assert_eq!(manager.parse_raw_reference(".\\d1.nmd", None), "/root/d1.nmd");
    assert_eq!(manager.parse_raw_reference("./d2.nmd", None), "/root/d2.nmd");

    manager.set_root_path_with_separator("/root".to_string(), "/".to_string());
    assert!(!manager.not_unix_like_os);
    assert_eq!(manager.parse_raw_reference(".\\d1.nmd", None), ".\\d1.nmd");
}

#[test]
fn bytes_are_encoded_in_base64() {
    assert_eq!(nmd::encoding::to_base64(&b"Man".to_vec()), "TWFu");
    assert_eq!(nmd::encoding::to_base64(&b"Ma".to_vec()), "TWE=");
    assert_eq!(nmd::encoding::to_base64(&b"M".to_vec()), "TQ==");
    assert_eq!(nmd::encoding::to_base64(&Vec::new()), "");
    assert_eq!(nmd::encoding::to_base64(&vec![0xff, 0xfe, 0x00, 0x10]), "//4AEA==");
    match ImageSource::from_bytes(&b"hi".to_vec()) {
        ImageSource::Embedded(d) => assert_eq!(d, "aGk="),
        ImageSource::NotFound => panic!("bytes read are embedded"),
    }
}

#[test]
fn an_image_paragraph_is_compiled_into_a_figure() {
    let images = vec![("logo.png".to_string(), ImageSource::Embedded("AAAA".to_string()))];
    let codex = Codex::of_html_with_images(CodexConfiguration::default(), &images);
    let loader = Loader::new();
    let mut document = loader
        .load_document_from_str(&codex, "d.nmd", "![logo](logo.png)\n\nSome text")
        .unwrap();

    assert!(nmd::compiler::Compiler::document_compilable(&codex, &document));
    let artifact = nmd::compiler::Compiler::compile_document(
        nmd::configuration::CompilationConfiguration::default(),
        &codex,
        &mut document,
    )
    .unwrap();

    assert!(artifact.content().contains(&figure("logo", "data:image/png;base64,AAAA", "logo")));
    assert!(!artifact.content().contains("class=\"link\""));
}

#[test]
fn an_image_not_read_is_linked_in_a_lenient_build() {
    let codex = Codex::of_html(CodexConfiguration::default());
    let loader = Loader::new();
    let mut document = loader.load_document_from_str(&codex, "d.nmd", "![logo](logo.png)").unwrap();
    let mut compilation = nmd::configuration::CompilationConfiguration::default();
    compilation.strict_image_src_check = Some(false);

    let artifact = nmd::compiler::Compiler::compile_document(compilation, &codex, &mut document).unwrap();

    assert!(artifact.content().contains(&figure("logo", "logo.png", "logo")));
}
