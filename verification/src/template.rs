//! The template subcommand on its own: list the templates or name one.

use vstd::prelude::*;
use vstd::string::*;
use crate::executor::{resolve_template, resolve_template_pattern};
use crate::templates::TemplateRegistry;

verus! {

/// The text shown where the template subcommand is asked for nothing.
pub open spec fn template_no_action_message() -> Seq<char> {
    "Template command requires either --list or --use <NAME|NUMBER>"@
}

/// What the template subcommand answers: nothing to hand on where the
/// templates are listed, else the pattern of the template asked for.
pub open spec fn template_command(
    listing: Seq<(Seq<char>, Seq<char>)>,
    templates: Map<Seq<char>, Seq<char>>,
    list: bool,
    use_template: Option<Seq<char>>,
) -> Result<Option<Seq<char>>, Seq<char>> {
    if list {
        Ok(None)
    } else {
        match use_template {
            Some(request) => match resolve_template(listing, templates, request) {
                Ok(pattern) => Ok(Some(pattern)),
                Err(e) => Err(e),
            },
            None => Err(template_no_action_message()),
        }
    }
}

/// Answers the template subcommand. Listing wins over use. The caller shows
/// the listing, or the pattern that comes back.
pub fn handle_template_command(
    template_registry: &TemplateRegistry,
    list: bool,
    use_template: Option<String>,
) -> (r: Result<Option<String>, String>)
    ensures
        match template_command(
            template_registry.listing(),
            template_registry@,
            list,
            crate::text::opt_view(use_template),
        ) {
            Ok(Some(pattern)) => r is Ok && r->Ok_0 is Some && r->Ok_0->Some_0@ == pattern,
            Ok(None) => r is Ok && r->Ok_0 is None,
            Err(e) => r is Err && r->Err_0@ == e,
        },
{
    if list {
        Ok(None)
    } else {
        match use_template {
            Some(request) => match resolve_template_pattern(template_registry, request.as_str()) {
                Ok(pattern) => Ok(Some(pattern)),
                Err(e) => Err(e),
            },
            None => Err(
                String::from_str("Template command requires either --list or --use <NAME|NUMBER>"),
            ),
        }
    }
}

} // verus!
