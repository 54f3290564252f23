//! Unit and integration tests of a component.
use vstd::prelude::*;
use vstd::string::*;
use crate::generator::{snake_of, to_snake_case, Templates, Step, StepModel, render, render_of, plan_view};

verus! {

/// The plan for the unit tests of component `name`: appended to its service file.
pub open spec fn unit_tests_plan(t: Templates, name: Seq<char>) -> Seq<StepModel> {
    seq![
        StepModel::AppendTests {
            path: "src/service/"@ + snake_of(name) + "_service.rs"@,
            content: render_of(t.unit_test@, name),
        },
    ]
}

/// Renders the unit tests of component `name`, to be appended to
/// `src/service/<snake>_service.rs`.
pub fn generate_unit_tests(templates: &Templates, name: &str) -> (r: Vec<Step>)
    ensures
        plan_view(r@) == unit_tests_plan(*templates, name@),
{
    let content = render(templates.unit_test.as_str(), name);
    let snake = to_snake_case(name);
    let mut path = String::from_str("src/service/");
    path.append(snake.as_str());
    path.append("_service.rs");
    let mut r: Vec<Step> = Vec::new();
    r.push(Step::AppendTests { path, content });
    assert(plan_view(r@) =~= unit_tests_plan(*templates, name@));
    r
}

/// The plan for the integration tests of component `name`.
pub open spec fn integration_tests_plan(t: Templates, name: Seq<char>) -> Seq<StepModel> {
    seq![
        StepModel::IntegrationTests {
            path: "tests/"@ + snake_of(name) + "_test.rs"@,
            content: render_of(t.integration_test@, name),
            common: render_of(t.test_common@, name),
        },
    ]
}

/// Renders the integration tests of component `name` into
/// `tests/<snake>_test.rs`, with the shared helpers of `tests/common.rs`.
pub fn generate_integration_tests(templates: &Templates, name: &str) -> (r: Vec<Step>)
    ensures
        plan_view(r@) == integration_tests_plan(*templates, name@),
{
    let content = render(templates.integration_test.as_str(), name);
    let common = render(templates.test_common.as_str(), name);
    let snake = to_snake_case(name);
    let mut path = String::from_str("tests/");
    path.append(snake.as_str());
    path.append("_test.rs");
    let mut r: Vec<Step> = Vec::new();
    r.push(Step::IntegrationTests { path, content, common });
    assert(plan_view(r@) =~= integration_tests_plan(*templates, name@));
    r
}

/// Unit tests, then integration tests.
pub fn generate_all_tests(templates: &Templates, name: &str) -> (r: Vec<Step>)
    ensures
        plan_view(r@) == unit_tests_plan(*templates, name@) + integration_tests_plan(*templates, name@),
{
    let mut r = generate_unit_tests(templates, name);
    crate::generator::append_plan(&mut r, generate_integration_tests(templates, name));
    r
}

} // verus!
