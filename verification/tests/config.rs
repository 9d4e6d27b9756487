use crumpet::config::{
    Config, PullRequestConfig, PullRequestTemplateSource, SourceIdentifier, TemplateConfig,
};
use crumpet::fs::paths::PathBuf;
use semver::Version;

fn template_file(path: &str) -> PullRequestTemplateSource {
    PullRequestTemplateSource::File(PathBuf::from_str(path))
}

/// Writes a configuration out the way a configuration file holds it and reads it back,
/// with the file system reporting that template file paths name files.
fn write_and_read(config: &Config) -> Config {
    let source = SourceIdentifier::parse(&config.template.source.to_url_string()).unwrap();
    let pull_request = config.pull_request.as_ref().map(|pr| {
        let read = |s: &PullRequestTemplateSource| {
            let text = s.serialize_str().unwrap();
            let is_file = match s {
                PullRequestTemplateSource::File(_) => Some(true),
                PullRequestTemplateSource::Template(_) => None,
            };
            PullRequestTemplateSource::from_config_str(text, is_file).unwrap()
        };
        PullRequestConfig::new(
            pr.enabled(),
            pr.draft(),
            read(pr.title()),
            read(pr.body()),
            pr.labels().clone(),
            pr.assignees().clone(),
        )
    });
    Config {
        version: config.version.clone(),
        template: TemplateConfig { source, reference: config.template.reference.clone() },
        pull_request,
    }
}

#[test]
fn roundtrip() {
    let original = Config {
        version: Version::new(0, 0, 1),
        template: TemplateConfig {
            source: SourceIdentifier::parse("https://github.com/my-org/my-template").unwrap(),
            reference: Some(String::from("abcdef0")),
        },
        pull_request: Some(PullRequestConfig::new(
            true,
            false,
            template_file("../../fixtures/file_01.tera"),
            PullRequestTemplateSource::Template("chore: Update templated files ({{ ref }})".into()),
            Some(vec!["size/s".into()]),
            None,
        )),
    };

    if let Some(warnings) = original.validate().expect("valid config") {
        assert!(warnings.is_empty())
    }

    let copy = write_and_read(&original);

    println!("{copy:?}");

    assert_eq!(original, copy);
}

#[test]
fn warnings() {
    let original = Config {
        version: Version::new(0, 0, 1),
        template: TemplateConfig {
            source: SourceIdentifier::parse("../Cargo.toml").unwrap(),
            reference: Some(String::from("abcdef0")),
        },
        pull_request: Some(PullRequestConfig::new(
            true,
            false,
            template_file("../../fixtures/file_01.tera"),
            PullRequestTemplateSource::Template("chore: Update templated files ({{ ref }})".into()),
            Some(vec!["size/s".into()]),
            None,
        )),
    };

    if let Some(warnings) = original.validate().expect("valid config") {
        assert!(!warnings.is_empty());

        for warning in warnings.inner() {
            println!("warning: {warning}");
        }
    }

    let copy = write_and_read(&original);

    println!("{copy:?}");

    assert_eq!(original, copy);
}

#[test]
fn path() {
    let url = SourceIdentifier::parse("../Cargo.toml").unwrap();
    println!("{url:?}");
}
