use vstd::prelude::*;
use vstd::string::*;

verus! {

#[verifier::external_type_specification]
#[verifier::external_body]
pub struct ExValue(serde_json::Value);

#[verifier::external_type_specification]
#[verifier::external_body]
pub struct ExHandlebars<'reg>(handlebars::Handlebars<'reg>);

/// Why a template could not be had or rendered.
#[derive(Clone, Debug, PartialEq, Eq)]
pub enum TemplateError {
    NotFound(String),
    RenderError(String),
}

/// An e-mail template: a subject, and a body with named placeholders.
#[derive(Clone, Debug, PartialEq, Eq)]
pub struct EmailTemplate {
    pub id: String,
    pub subject: String,
    pub body: String,
}

/// Templates kept as `<id>.json` files under one directory.
pub struct FileEmailTemplateRepository {
    pub templates_path: String,
}

impl FileEmailTemplateRepository {
    pub fn new(templates_path: String) -> (r: Self)
        ensures
            r.templates_path@ == templates_path@,
    {
        Self { templates_path }
    }

    /// The file that holds the template `id`: `<templates_path>/<id>.json`.
    pub fn template_path(&self, id: &str) -> (r: String)
        ensures
            r@ == self.templates_path@ + seq!['/'] + id@ + seq!['.', 'j', 's', 'o', 'n'],
    {
        let mut p = self.templates_path.clone();
        let slash = "/";
        let ext = ".json";
        proof {
            reveal_strlit("/");
            reveal_strlit(".json");
        }
        p.append(slash);
        p.append(id);
        p.append(ext);
        p
    }
}

/// What handlebars makes of a template text and its data with a registry
/// in strict mode and otherwise default settings: the rendered text, or the
/// message of the error.
pub uninterp spec fn rendered_of(body: Seq<char>, data: serde_json::Value) -> Result<Seq<char>, Seq<char>>;

/// Relies on handlebars' `Handlebars::new`: a registry with no templates or
/// helpers registered and the default settings.
#[verifier::external_body]
fn new_registry() -> (r: handlebars::Handlebars<'static>) {
    handlebars::Handlebars::new()
}

/// Relies on handlebars' `Handlebars::set_strict_mode`: a placeholder with no
/// value in the data becomes an error instead of empty text.
#[verifier::external_body]
fn enable_strict_mode(registry: &mut handlebars::Handlebars<'static>) {
    registry.set_strict_mode(true)
}

/// Renders template bodies: named placeholders filled from a record's
/// metadata, with no code run from a template. A placeholder that the
/// metadata does not fill is an error. The registry is private and built
/// only by `new`, in strict mode.
pub struct EmailTemplateEngine {
    handlebars: handlebars::Handlebars<'static>,
}

/// Relies on handlebars' `Handlebars::render_template`, on the strict
/// registry of an engine: the result depends on the template text and the
/// data alone; an error is kept as its message.
#[verifier::external_body]
fn render_with(
    engine: &EmailTemplateEngine,
    body: &str,
    data: &serde_json::Value,
) -> (r: Result<String, String>)
    ensures
        match r {
            Ok(t) => rendered_of(body@, *data) == Ok::<Seq<char>, Seq<char>>(t@),
            Err(m) => rendered_of(body@, *data) == Err::<Seq<char>, Seq<char>>(m@),
        },
{
    match engine.handlebars.render_template(body, data) {
        Ok(text) => Ok(text),
        Err(e) => Err(e.to_string()),
    }
}

/// The result of a render as the engine reports it: the text, or a render
/// error with the renderer's message.
pub open spec fn render_spec(body: Seq<char>, data: serde_json::Value, r: Result<String, TemplateError>) -> bool {
    match rendered_of(body, data) {
        Ok(t) => r matches Ok(s) && s@ == t,
        Err(m) => r matches Err(TemplateError::RenderError(e)) && e@ == m,
    }
}

impl EmailTemplateEngine {
    /// An engine over a strict registry, the only one that renders here.
    pub fn new() -> (r: Self) {
        let mut handlebars = new_registry();
        enable_strict_mode(&mut handlebars);
        Self { handlebars }
    }

    /// Renders the body of `template` with `metadata` as its variables. A
    /// failure is always a render error, never a missing template.
    pub fn render(&self, template: &EmailTemplate, metadata: &serde_json::Value) -> (r: Result<
        String,
        TemplateError,
    >)
        ensures
            render_spec(template.body@, *metadata, r),
    {
        match render_with(self, template.body.as_str(), metadata) {
            Ok(s) => Ok(s),
            Err(m) => Err(TemplateError::RenderError(m)),
        }
    }
}

} // verus!
