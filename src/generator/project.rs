//! The skeleton of a new project.
use vstd::prelude::*;
use vstd::string::*;
use crate::generator::{Templates, Step, StepModel, render, render_of, plan_view, EXPORTS_MARK};

verus! {

/// The layer directories of a project, in the order they are created.
pub open spec fn layer_dirs() -> Seq<Seq<char>> {
    seq![
        "service"@,
        "usecase"@,
        "repository"@,
        "data"@,
        "adapter"@,
        "config"@,
        "factory"@,
        "handler"@,
    ]
}

/// The empty module index of layer directory `dir` in project `name`.
pub open spec fn index_step(name: Seq<char>, dir: Seq<char>) -> StepModel {
    StepModel::Write {
        path: name + "/src/"@ + dir + "/mod.rs"@,
        content: EXPORTS_MARK@ + "\n"@,
    }
}

/// The plan for project `name`: its manifest, entry point, library root,
/// and an empty module index in each layer directory.
pub open spec fn plan(t: Templates, name: Seq<char>) -> Seq<StepModel> {
    seq![
        StepModel::Write { path: name + "/Cargo.toml"@, content: render_of(t.project_cargo@, name) },
        StepModel::Write { path: name + "/src/main.rs"@, content: render_of(t.project_main@, name) },
        StepModel::Write { path: name + "/src/lib.rs"@, content: render_of(t.project_lib@, name) },
    ] + layer_dirs().map_values(|d: Seq<char>| index_step(name, d))
}

fn project_file(name: &str, tail: &str, content: String) -> (r: Step)
    ensures
        r@ == (StepModel::Write { path: name@ + tail@, content: content@ }),
{
    let mut path = String::from_str(name);
    path.append(tail);
    Step::Write { path, content }
}

/// Lays out project `name`.
pub fn generate(templates: &Templates, name: &str) -> (r: Vec<Step>)
    ensures
        plan_view(r@) == plan(*templates, name@),
{
    let mut r: Vec<Step> = Vec::new();
    r.push(project_file(name, "/Cargo.toml", render(templates.project_cargo.as_str(), name)));
    r.push(project_file(name, "/src/main.rs", render(templates.project_main.as_str(), name)));
    r.push(project_file(name, "/src/lib.rs", render(templates.project_lib.as_str(), name)));
    let dirs: [&str; 8] = [
        "service",
        "usecase",
        "repository",
        "data",
        "adapter",
        "config",
        "factory",
        "handler",
    ];
    assert(dirs@.map_values(|d: &str| d@) =~= layer_dirs());
    let mut i: usize = 0;
    while i < 8
        invariant
            i <= 8,
            dirs@.map_values(|d: &str| d@) == layer_dirs(),
            plan_view(r@) == plan(*templates, name@).subrange(0, 3 + i),
        decreases 8 - i,
    {
        let mut path = String::from_str(name);
        path.append("/src/");
        path.append(dirs[i]);
        path.append("/mod.rs");
        let mut content = String::from_str(EXPORTS_MARK);
        content.append("\n");
        let ghost k = i as int;
        let ghost whole = plan(*templates, name@);
        assert(layer_dirs()[k] == dirs@[k]@);
        assert(whole[3 + k] == index_step(name@, layer_dirs()[k]));
        let step = Step::Write { path, content };
        assert(step@ == index_step(name@, layer_dirs()[k]));
        let ghost before = r@;
        r.push(step);
        i = i + 1;
        assert(whole.len() == 11);
        assert(r@ == before.push(step));
        assert(plan_view(r@) =~= plan_view(before).push(index_step(name@, layer_dirs()[k])));
        assert(plan_view(r@) =~= whole.subrange(0, 3 + i));
    }
    assert(plan(*templates, name@).subrange(0, 11) =~= plan(*templates, name@));
    r
}

} // verus!
