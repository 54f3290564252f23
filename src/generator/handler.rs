//! The handler layer of a component, and its wiring into the entry point.
use vstd::prelude::*;
use vstd::string::*;
use crate::context::Context;
use crate::generator::{snake_of, to_snake_case, 
    Templates, Step, StepModel, render, render_of, plan_view, write_and_export,
    write_and_export_exec,
};
use crate::weaver::{Weave, weave, weave_of, weave_view};

verus! {

/// The plan for the handler of component `name`: the handler file, its
/// declaration, and the weave into the entry point.
pub open spec fn plan(template: Seq<char>, name: Seq<char>) -> Seq<StepModel> {
    write_and_export(
        "src/handler/"@ + snake_of(name) + "_handler.rs"@,
        render_of(template, name),
        "src/handler/mod.rs"@,
        snake_of(name) + "_handler"@,
    ).push(StepModel::Weave { name })
}

/// Renders the handler template into `src/handler/<snake>_handler.rs`,
/// declares it, and weaves it into the entry point.
pub fn generate(templates: &Templates, name: &str) -> (r: Vec<Step>)
    ensures
        plan_view(r@) == plan(templates.handler@, name@),
{
    let content = render(templates.handler.as_str(), name);
    let snake = to_snake_case(name);
    let mut path = String::from_str("src/handler/");
    path.append(snake.as_str());
    path.append("_handler.rs");
    let mut module = String::from_str(snake.as_str());
    module.append("_handler");
    let mut r = write_and_export_exec(path, content, "src/handler/mod.rs", module);
    r.push(Step::Weave { name: String::from_str(name) });
    assert(plan_view(r@) =~= plan(templates.handler@, name@));
    r
}

/// The weave of one component into the entry point, and whether its text
/// is to be written back.
pub struct EntryUpdate {
    pub outcome: Weave,
    pub write: bool,
}

/// Whether the entry point is written back after weaving `name` into `content`.
pub open spec fn entry_writes(ctx: Context, content: Seq<char>, name: Seq<char>) -> bool {
    !ctx.dry_run && weave_of(content, name, ctx.is_new_all) is Some
}

/// The weave of component `name` into the entry-point text `content` under
/// the options `ctx`: the outcome is the same with and without a dry run;
/// the new text is written only when the component was woven and the run is
/// not a dry run.
pub fn update_main_router(ctx: &Context, content: &str, name: &str) -> (r: EntryUpdate)
    ensures
        weave_view(r.outcome) == weave_of(content@, name@, ctx.is_new_all),
        r.write == entry_writes(*ctx, content@, name@),
{
    let outcome = weave(content, name, ctx.is_new_all);
    let woven = match &outcome {
        Weave::AlreadyWoven => false,
        Weave::Woven { .. } => true,
    };
    EntryUpdate { outcome, write: woven && !ctx.dry_run }
}

} // verus!
