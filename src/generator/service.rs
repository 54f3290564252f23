//! The service layer of a component.
use vstd::prelude::*;
use vstd::string::*;
use crate::generator::{snake_of, to_snake_case, Templates, Step, StepModel, render, render_of, plan_view, write_and_export, write_and_export_exec};

verus! {

/// The plan for the service of component `name`.
pub open spec fn plan(template: Seq<char>, name: Seq<char>) -> Seq<StepModel> {
    write_and_export(
        "src/service/"@ + snake_of(name) + "_service.rs"@,
        render_of(template, name),
        "src/service/mod.rs"@,
        snake_of(name) + "_service"@,
    )
}

/// Renders the service template into `src/service/<snake>_service.rs` and
/// declares the module in `src/service/mod.rs`.
pub fn generate(templates: &Templates, name: &str) -> (r: Vec<Step>)
    ensures
        plan_view(r@) == plan(templates.service@, name@),
{
    let content = render(templates.service.as_str(), name);
    let snake = to_snake_case(name);
    let mut path = String::from_str("src/service/");
    path.append(snake.as_str());
    path.append("_service.rs");
    let mut module = String::from_str(snake.as_str());
    module.append("_service");
    write_and_export_exec(path, content, "src/service/mod.rs", module)
}

} // verus!
