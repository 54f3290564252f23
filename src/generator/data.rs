//! The data model of a component.
use vstd::prelude::*;
use vstd::string::*;
use crate::generator::{snake_of, to_snake_case, Templates, Step, StepModel, render, render_of, plan_view, write_and_export, write_and_export_exec};

verus! {

/// The plan for the data model of component `name`.
pub open spec fn plan(template: Seq<char>, name: Seq<char>) -> Seq<StepModel> {
    write_and_export(
        "src/data/"@ + snake_of(name) + "_data.rs"@,
        render_of(template, name),
        "src/data/mod.rs"@,
        snake_of(name) + "_data"@,
    )
}

/// Renders the data model template into `src/data/<snake>_data.rs` and
/// declares the module in `src/data/mod.rs`.
pub fn generate(templates: &Templates, name: &str) -> (r: Vec<Step>)
    ensures
        plan_view(r@) == plan(templates.data@, name@),
{
    let content = render(templates.data.as_str(), name);
    let snake = to_snake_case(name);
    let mut path = String::from_str("src/data/");
    path.append(snake.as_str());
    path.append("_data.rs");
    let mut module = String::from_str(snake.as_str());
    module.append("_data");
    write_and_export_exec(path, content, "src/data/mod.rs", module)
}

} // verus!
