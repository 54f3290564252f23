//! The repository interface of a component.
use vstd::prelude::*;
use vstd::string::*;
use crate::generator::{snake_of, to_snake_case, Templates, Step, StepModel, render, render_of, plan_view, write_and_export, write_and_export_exec};

verus! {

/// The plan for the repository of component `name`.
pub open spec fn plan(template: Seq<char>, name: Seq<char>) -> Seq<StepModel> {
    write_and_export(
        "src/repository/"@ + snake_of(name) + ".rs"@,
        render_of(template, name),
        "src/repository/mod.rs"@,
        snake_of(name),
    )
}

/// Renders the repository template into `src/repository/<snake>.rs` and
/// declares the module in `src/repository/mod.rs`.
pub fn generate(templates: &Templates, name: &str) -> (r: Vec<Step>)
    ensures
        plan_view(r@) == plan(templates.repository@, name@),
{
    let content = render(templates.repository.as_str(), name);
    let snake = to_snake_case(name);
    let mut path = String::from_str("src/repository/");
    path.append(snake.as_str());
    path.append(".rs");
    let module = String::from_str(snake.as_str());
    write_and_export_exec(path, content, "src/repository/mod.rs", module)
}

} // verus!
