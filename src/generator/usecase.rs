//! The use-case layer of a component.
use vstd::prelude::*;
use vstd::string::*;
use crate::generator::{snake_of, to_snake_case, Templates, Step, StepModel, render, render_of, plan_view, write_and_export, write_and_export_exec};

verus! {

/// The plan for the use-case of component `name`.
pub open spec fn plan(template: Seq<char>, name: Seq<char>) -> Seq<StepModel> {
    write_and_export(
        "src/usecase/"@ + snake_of(name) + "_usecase.rs"@,
        render_of(template, name),
        "src/usecase/mod.rs"@,
        snake_of(name) + "_usecase"@,
    )
}

/// Renders the use-case template into `src/usecase/<snake>_usecase.rs` and
/// declares the module in `src/usecase/mod.rs`.
pub fn generate(templates: &Templates, name: &str) -> (r: Vec<Step>)
    ensures
        plan_view(r@) == plan(templates.usecase@, name@),
{
    let content = render(templates.usecase.as_str(), name);
    let snake = to_snake_case(name);
    let mut path = String::from_str("src/usecase/");
    path.append(snake.as_str());
    path.append("_usecase.rs");
    let mut module = String::from_str(snake.as_str());
    module.append("_usecase");
    write_and_export_exec(path, content, "src/usecase/mod.rs", module)
}

} // verus!
