//! The named templates an alert body can be rendered from, and the
//! boundary to the template engine that renders them.

use vstd::prelude::*;

use crate::RenderError;

verus! {

#[verifier::external_type_specification]
#[verifier::external_body]
pub struct ExTera(tera::Tera);

#[verifier::external_type_specification]
#[verifier::external_body]
pub struct ExTeraError(tera::Error);

/// Relies on tera::Tera::render: renders the named template with a
/// context carrying the alert level under the `alert_level` key the
/// template reads. The result depends on the templates the engine was
/// loaded with, so nothing is promised of it.
#[verifier::external_body]
fn render_template(engine: &tera::Tera, name: &str, level_name: &str) -> Result<
    String,
    tera::Error,
> {
    let mut context = tera::Context::new();
    context.insert("alert_level", level_name);
    engine.render(name, &context)
}

/// A named body template.
#[derive(Clone, Copy, Debug, PartialEq, Eq, Structural)]
pub enum Template {
    Alert,
}

impl Template {
    /// The file name the template engine knows this template by.
    pub fn file_name(self) -> (r: &'static str)
        ensures
            r@ == "alert.html"@,
    {
        match self {
            Template::Alert => "alert.html",
        }
    }

    /// Render this template for the given alert-level name with the given
    /// engine. Whether a body comes back is the engine's affair; a failure
    /// is reported as a render error.
    pub fn render(&self, level_name: &str, engine: &tera::Tera) -> (r: Result<
        String,
        RenderError,
    >)
        ensures
            r matches Err(e) ==> e == RenderError::TemplateFailure,
    {
        match render_template(engine, self.file_name(), level_name) {
            Ok(body) => Ok(body),
            Err(_) => Err(RenderError::TemplateFailure),
        }
    }
}

} // verus!
