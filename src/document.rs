//! Documents: a single file rendered from the whole plan (a markdown test plan by default).
use vstd::prelude::*;
use crate::error::PolyError;
use crate::paths::join_path;
use crate::text::{copy_text, same_text};

verus! {

#[derive(Clone, Debug)]
pub struct DocumentConfig {
    pub out_file: String,
    pub template: Option<String>,
}

/// A document to render: where it goes and where its template comes from.
#[derive(Clone, Debug)]
pub struct Document {
    pub out_file: String,
    pub template: TemplateSource,
}

/// Where the template of a document comes from.
#[derive(Clone, Debug)]
pub enum TemplateSource {
    /// The template text itself.
    Text(String),
    /// The path of a file that holds it.
    File(String),
}

pub open spec fn markdown_template() -> Seq<char> {
    "# {{ name }}\n{% for suite in suites %}\n\n## Suite: {{ suite.name }}\n{% for group in suite.groups %}\n\n### Group: {{ group.name }}\n{% if group.desc %}\n\n{{ group.desc }}\n{% endif %}\n\n{% for test in group.tests %}\n- **{{ test.name }}**{% if test.desc %}: {{ test.desc }}{% endif %}\n\n{% endfor %}\n{% endfor %}\n{% endfor %}\n"@
}

impl Document {
    /// The document `id`: `markdown` has a built-in template, which the
    /// configured template text replaces; any other document must name the
    /// file of its template, relative to `config_root`.
    pub fn from_config(config: &DocumentConfig, id: &str, config_root: &str) -> (r: Result<Document, PolyError>)
        ensures
            id@ == "markdown"@ ==> r is Ok && (r->Ok_0.template matches TemplateSource::Text(t) && t@ == match config.template {
                Some(t) => t@,
                None => markdown_template(),
            }),
            id@ != "markdown"@ ==> (r is Ok <==> config.template is Some),
            id@ != "markdown"@ && r is Ok ==> r->Ok_0.template is File,
            r is Err ==> r->Err_0 is DocumentTemplateMissing,
    {
        let out_file = join_path(config_root, config.out_file.as_str());
        if same_text(id, "markdown") {
            let template = match &config.template {
                Some(t) => copy_text(t.as_str()),
                None => String::from_str("# {{ name }}\n{% for suite in suites %}\n\n## Suite: {{ suite.name }}\n{% for group in suite.groups %}\n\n### Group: {{ group.name }}\n{% if group.desc %}\n\n{{ group.desc }}\n{% endif %}\n\n{% for test in group.tests %}\n- **{{ test.name }}**{% if test.desc %}: {{ test.desc }}{% endif %}\n\n{% endfor %}\n{% endfor %}\n{% endfor %}\n"),
            };
            Ok(Document { out_file, template: TemplateSource::Text(template) })
        } else {
            match &config.template {
                Some(t) => Ok(Document { out_file, template: TemplateSource::File(join_path(config_root, t.as_str())) }),
                None => Err(PolyError::DocumentTemplateMissing { id: copy_text(id) }),
            }
        }
    }
}

} // verus!
