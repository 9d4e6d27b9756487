# crumpet

Keeps repositories in line with a shared template. This crate is a Verus-verified library
with a thin command-line program around it.

- `src/cli.rs`: the commands the tool accepts and running them.
- `src/config/`: the configuration file's model (`Config`, `TemplateConfig`,
  `PullRequestConfig`, `SourceIdentifier`, `PullRequestTemplateSource`), its validation and
  warnings, and the conversion of its fields to and from their text form.
- `src/fs/`: paths held as their bytes (Unix conventions) and compared by their components, making them absolute, joining
  them, reading them as text, and the glob pattern that finds template files.
- `app/`: `main`, the clap and serde front ends, globbing and file reading.
- `tests/`: tests run against the compiled library.
