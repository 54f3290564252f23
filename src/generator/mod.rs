//! Name forms, template rendering, and the generators that turn a component
//! name into a plan of file writes and index updates.
use vstd::prelude::*;
use vstd::string::*;
use crate::context::Context;
use crate::text::{
    chars_of, string_of, replace_all, replace_all_exec, push_str, has_sub, find_from, contains,
    find, slice_exec, same_chars, lemma_find_from_bounds, has_line, contains_line,
};

pub mod service;
pub mod usecase;
pub mod repository;
pub mod data;
pub mod adapter;
pub mod handler;
pub mod dispatch;
pub mod test;
pub mod migration;
pub mod project;

verus! {

/// A separator between the words of a raw component name.
pub open spec fn is_sep(c: char) -> bool {
    c == '-' || c == '_'
}

/// The snake form: every hyphen becomes an underscore, nothing else changes.
pub open spec fn snake_of(s: Seq<char>) -> Seq<char> {
    s.map_values(|c: char| if c == '-' { '_' } else { c })
}

/// What `char::to_uppercase` yields for `c`.
pub uninterp spec fn upper_of(c: char) -> Seq<char>;

/// The pascal form of `s`, where `at_start` says whether `s` begins a word:
/// separators vanish and the first character of each word is upper-cased.
pub open spec fn pascal_from(s: Seq<char>, at_start: bool) -> Seq<char>
    decreases s.len(),
{
    if s.len() == 0 {
        Seq::empty()
    } else if is_sep(s[0]) {
        pascal_from(s.drop_first(), true)
    } else if at_start {
        upper_of(s[0]) + pascal_from(s.drop_first(), false)
    } else {
        seq![s[0]] + pascal_from(s.drop_first(), false)
    }
}

/// The pascal form of a raw name.
pub open spec fn pascal_of(s: Seq<char>) -> Seq<char> {
    pascal_from(s, true)
}

/// Relies on `char::to_uppercase`, collected into a string: the upper-case
/// mapping of `c`, which depends on `c` alone.
#[verifier::external_body]
fn upper_case(c: char) -> (r: String)
    ensures
        r@ == upper_of(c),
{
    c.to_uppercase().collect()
}

/// Replaces every hyphen with an underscore.
pub fn to_snake_case(s: &str) -> (r: String)
    ensures
        r@ == snake_of(s@),
{
    let v = chars_of(s);
    let mut out: Vec<char> = Vec::new();
    let mut i: usize = 0;
    while i < v.len()
        invariant
            i <= v.len(),
            out@ == snake_of(v@.subrange(0, i as int)),
        decreases v.len() - i,
    {
        let c = v[i];
        if c == '-' {
            out.push('_');
        } else {
            out.push(c);
        }
        i = i + 1;
        assert(snake_of(v@.subrange(0, i as int)) =~= snake_of(v@.subrange(0, i - 1)).push(
            if c == '-' { '_' } else { c },
        ));
    }
    assert(v@.subrange(0, v.len() as int) =~= v@);
    string_of(&out)
}

/// Splits on hyphens and underscores, upper-cases the first character of
/// each non-empty word, and joins the words.
pub fn to_pascal_case(s: &str) -> (r: String)
    ensures
        r@ == pascal_of(s@),
{
    let v = chars_of(s);
    let mut out: Vec<char> = Vec::new();
    let mut at_start = true;
    let mut i: usize = 0;
    assert(v@.subrange(0, v.len() as int) =~= v@);
    while i < v.len()
        invariant
            i <= v.len(),
            pascal_of(v@) == out@ + pascal_from(v@.subrange(i as int, v.len() as int), at_start),
        decreases v.len() - i,
    {
        let ghost rest = v@.subrange(i as int, v.len() as int);
        assert(rest.drop_first() =~= v@.subrange(i + 1, v.len() as int));
        let c = v[i];
        if c == '-' || c == '_' {
            at_start = true;
        } else if at_start {
            let u = upper_case(c);
            push_str(&mut out, u.as_str());
            at_start = false;
        } else {
            out.push(c);
            at_start = false;
        }
        i = i + 1;
    }
    assert(v@.subrange(v.len() as int, v.len() as int) =~= Seq::<char>::empty());
    assert(out@ + Seq::<char>::empty() =~= out@);
    string_of(&out)
}

/// Snake form and pascal form agree on names that differ only in which
/// separator joins their words: the pascal form of a name equals the pascal
/// form of its snake form.
pub proof fn lemma_pascal_of_snake(s: Seq<char>, at_start: bool)
    ensures
        pascal_from(snake_of(s), at_start) == pascal_from(s, at_start),
    decreases s.len(),
{
    if s.len() > 0 {
        assert(snake_of(s).drop_first() =~= snake_of(s.drop_first()));
        lemma_pascal_of_snake(s.drop_first(), true);
        lemma_pascal_of_snake(s.drop_first(), false);
    }
}

/// A raw component name together with the name forms derived from it.
pub struct Identity {
    pub raw: String,
    pub snake: String,
    pub pascal: String,
}

impl Identity {
    /// The forms are those that `to_snake_case` and `to_pascal_case` give.
    pub open spec fn wf(&self) -> bool {
        &&& self.snake@ == snake_of(self.raw@)
        &&& self.pascal@ == pascal_of(self.raw@)
    }
}

/// Derives the snake and pascal forms of a raw component name.
pub fn normalize(raw: &str) -> (r: Identity)
    ensures
        r.wf(),
        r.raw@ == raw@,
{
    Identity {
        raw: string_of(&chars_of(raw)),
        snake: to_snake_case(raw),
        pascal: to_pascal_case(raw),
    }
}

/// `template` with each placeholder replaced: the raw name first, then the
/// snake form, then the pascal form.
pub open spec fn render_of(template: Seq<char>, name: Seq<char>) -> Seq<char> {
    replace_all(
        replace_all(replace_all(template, "{{package_name}}"@, name), "{{name}}"@, snake_of(name)),
        "{{Name}}"@,
        pascal_of(name),
    )
}

/// Substitutes the name forms of `name` for the placeholders of `template`.
pub fn render(template: &str, name: &str) -> (r: String)
    ensures
        r@ == render_of(template@, name@),
{
    let pascal = to_pascal_case(name);
    let snake = to_snake_case(name);
    let t = chars_of(template);
    let pkg = chars_of("{{package_name}}");
    let snake_tag = chars_of("{{name}}");
    let pascal_tag = chars_of("{{Name}}");
    proof {
        reveal_strlit("{{package_name}}");
        reveal_strlit("{{name}}");
        reveal_strlit("{{Name}}");
    }
    let step1 = replace_all_exec(&t, &pkg, &chars_of(name));
    let step2 = replace_all_exec(&step1, &snake_tag, &chars_of(snake.as_str()));
    let step3 = replace_all_exec(&step2, &pascal_tag, &chars_of(pascal.as_str()));
    string_of(&step3)
}

/// The template texts that the generators render. Each holds placeholders
/// for the raw name, the snake form and the pascal form.
pub struct Templates {
    pub service: String,
    pub usecase: String,
    pub repository: String,
    pub data: String,
    pub handler: String,
    pub adapter_postgres: String,
    pub adapter_mysql: String,
    pub adapter_mongodb: String,
    pub adapter_sqlite: String,
    pub config: String,
    pub factory: String,
    pub example_main: String,
    pub example_usage: String,
    pub unit_test: String,
    pub integration_test: String,
    pub test_common: String,
    pub migration_postgres: String,
    pub migration_mysql: String,
    pub migration_sqlite: String,
    pub migration_mongodb: String,
    pub project_cargo: String,
    pub project_main: String,
    pub project_lib: String,
}

/// One file-system effect of a generation step.
pub enum Step {
    /// Write `content` to `path`, under the policy of `write_action`.
    Write { path: String, content: String },
    /// Declare module `module` in the index file `index` (see `update_module_exports`).
    Export { index: String, module: String },
    /// Weave component `name` into the entry point (see `handler::update_main_router`).
    Weave { name: String },
    /// Append the unit tests `content` to the service file `path` (see `append_unit_tests`).
    AppendTests { path: String, content: String },
    /// Write the integration tests `content` to `path` under the policy of
    /// `write_action`; then, where it is missing, the shared helpers `common`.
    IntegrationTests { path: String, content: String, common: String },
    /// Write a migration named `file` into the migrations directory, under
    /// the policy of `write_action`.
    Migration { file: String, content: String },
}

/// The model of a `Step`.
pub enum StepModel {
    Write { path: Seq<char>, content: Seq<char> },
    Export { index: Seq<char>, module: Seq<char> },
    Weave { name: Seq<char> },
    AppendTests { path: Seq<char>, content: Seq<char> },
    IntegrationTests { path: Seq<char>, content: Seq<char>, common: Seq<char> },
    Migration { file: Seq<char>, content: Seq<char> },
}

impl View for Step {
    type V = StepModel;

    open spec fn view(&self) -> StepModel {
        match self {
            Step::Write { path, content } => StepModel::Write { path: path@, content: content@ },
            Step::Export { index, module } => StepModel::Export { index: index@, module: module@ },
            Step::Weave { name } => StepModel::Weave { name: name@ },
            Step::AppendTests { path, content } => StepModel::AppendTests {
                path: path@,
                content: content@,
            },
            Step::IntegrationTests { path, content, common } => StepModel::IntegrationTests {
                path: path@,
                content: content@,
                common: common@,
            },
            Step::Migration { file, content } => StepModel::Migration {
                file: file@,
                content: content@,
            },
        }
    }
}

/// The model of a plan.
pub open spec fn plan_view(v: Seq<Step>) -> Seq<StepModel> {
    v.map_values(|x: Step| x@)
}

/// A file written and declared in its module index: the common shape of the
/// layer generators.
pub open spec fn write_and_export(
    path: Seq<char>,
    content: Seq<char>,
    index: Seq<char>,
    module: Seq<char>,
) -> Seq<StepModel> {
    seq![
        StepModel::Write { path, content },
        StepModel::Export { index, module },
    ]
}

pub fn write_and_export_exec(path: String, content: String, index: &str, module: String) -> (r: Vec<
    Step,
>)
    ensures
        plan_view(r@) == write_and_export(path@, content@, index@, module@),
{
    let mut r: Vec<Step> = Vec::new();
    r.push(Step::Write { path, content });
    r.push(Step::Export { index: String::from_str(index), module });
    assert(plan_view(r@) =~= write_and_export(path@, content@, index@, module@));
    r
}

/// Appends the steps of `b` to `a`.
pub fn append_plan(a: &mut Vec<Step>, b: Vec<Step>)
    ensures
        final(a)@ == old(a)@ + b@,
        plan_view(final(a)@) == plan_view(old(a)@) + plan_view(b@),
{
    let mut b = b;
    let ghost orig = b@;
    let mut rest: Vec<Step> = Vec::new();
    // `b` is taken apart from the back; collect it reversed, then push in order.
    while b.len() > 0
        invariant
            orig == b@ + rest@.reverse(),
        decreases b.len(),
    {
        let x = b.pop().unwrap();
        rest.push(x);
        assert(orig =~= b@ + rest@.reverse());
    }
    assert(rest@.reverse() =~= orig);
    let ghost start = a@;
    while rest.len() > 0
        invariant
            a@ + rest@.reverse() == start + orig,
        decreases rest.len(),
    {
        let x = rest.pop().unwrap();
        a.push(x);
        assert(a@ + rest@.reverse() =~= start + orig);
    }
    assert(a@ =~= start + orig);
    assert(plan_view(a@) =~= plan_view(start) + plan_view(orig));
}

/// A database kind that adapters and migrations are generated for.
#[derive(PartialEq, Eq, Structural, Clone, Copy, Debug)]
pub enum DbKind {
    Postgres,
    Mysql,
    Mongodb,
    Sqlite,
}

/// The name of a database kind, as it appears in file and module names.
pub open spec fn db_name(k: DbKind) -> Seq<char> {
    match k {
        DbKind::Postgres => "postgres"@,
        DbKind::Mysql => "mysql"@,
        DbKind::Mongodb => "mongodb"@,
        DbKind::Sqlite => "sqlite"@,
    }
}

pub fn db_name_exec(k: DbKind) -> (r: &'static str)
    ensures
        r@ == db_name(k),
{
    match k {
        DbKind::Postgres => "postgres",
        DbKind::Mysql => "mysql",
        DbKind::Mongodb => "mongodb",
        DbKind::Sqlite => "sqlite",
    }
}

/// The database kind named `s` exactly, if any.
pub open spec fn db_kind_of(s: Seq<char>) -> Option<DbKind> {
    if s == "postgres"@ {
        Some(DbKind::Postgres)
    } else if s == "mysql"@ {
        Some(DbKind::Mysql)
    } else if s == "mongodb"@ {
        Some(DbKind::Mongodb)
    } else if s == "sqlite"@ {
        Some(DbKind::Sqlite)
    } else {
        None
    }
}

pub fn db_kind(s: &str) -> (r: Option<DbKind>)
    ensures
        r == db_kind_of(s@),
{
    let v = chars_of(s);
    if same_chars(&v, &chars_of("postgres")) {
        Some(DbKind::Postgres)
    } else if same_chars(&v, &chars_of("mysql")) {
        Some(DbKind::Mysql)
    } else if same_chars(&v, &chars_of("mongodb")) {
        Some(DbKind::Mongodb)
    } else if same_chars(&v, &chars_of("sqlite")) {
        Some(DbKind::Sqlite)
    } else {
        None
    }
}

/// A request that names something the generators do not support.
pub enum GenError {
    /// The adapter database kind is not one of postgres, mysql, mongodb, sqlite.
    UnsupportedDatabase(String),
    /// The migration database kind is not one of postgres, mysql, sqlite, mongodb, all.
    UnknownDatabase(String),
    /// The system clock, which names migrations, reads before 1970 or beyond
    /// the supported date range.
    ClockUnavailable,
}

impl GenError {
    /// The message shown to the operator: names the rejected kind and the
    /// supported ones.
    pub fn message(&self) -> (r: String)
        ensures
            self matches GenError::UnsupportedDatabase(d) ==> r@ == "Unsupported database type '"@
                + d@ + "' (supported types: postgres, mysql, mongodb, sqlite)"@,
            self matches GenError::UnknownDatabase(d) ==> r@ == "Unknown database type: "@ + d@
                + " (supported types: postgres, mysql, sqlite, mongodb, all)"@,
            self is ClockUnavailable ==> r@ == "The system clock cannot name a migration"@,
    {
        match self {
            GenError::UnsupportedDatabase(d) => {
                let mut m = String::from_str("Unsupported database type '");
                m.append(d.as_str());
                m.append("' (supported types: postgres, mysql, mongodb, sqlite)");
                m
            },
            GenError::UnknownDatabase(d) => {
                let mut m = String::from_str("Unknown database type: ");
                m.append(d.as_str());
                m.append(" (supported types: postgres, mysql, sqlite, mongodb, all)");
                m
            },
            GenError::ClockUnavailable => String::from_str("The system clock cannot name a migration"),
        }
    }
}

/// What the file writer does with one target.
#[derive(PartialEq, Eq, Structural, Clone, Copy, Debug)]
pub enum WriteAction {
    /// Dry run: report the intended write and touch nothing.
    Preview,
    /// The target exists and overwriting is off: report a skip.
    Skip,
    /// Create parent directories as needed and write the full content.
    Write,
}

pub open spec fn write_action_of(ctx: Context, exists: bool) -> WriteAction {
    if ctx.dry_run {
        WriteAction::Preview
    } else if exists && !ctx.force {
        WriteAction::Skip
    } else {
        WriteAction::Write
    }
}

/// The file-writing policy: a dry run previews, an existing target is
/// skipped unless overwriting is on, anything else is written.
pub fn write_action(ctx: &Context, exists: bool) -> (r: WriteAction)
    ensures
        r == write_action_of(*ctx, exists),
{
    if ctx.dry_run {
        WriteAction::Preview
    } else if exists && !ctx.force {
        WriteAction::Skip
    } else {
        WriteAction::Write
    }
}

/// The extension point of a module index.
pub const EXPORTS_MARK: &'static str = "// Add your modules here";

/// The declaration line of module `m`.
pub open spec fn export_line(m: Seq<char>) -> Seq<char> {
    "pub mod "@ + m + ";"@
}

/// Whether `c` has the Unicode `White_Space` property, as
/// `char::is_whitespace` tests it: tab to carriage return, space, next line,
/// no-break space, ogham space mark, the spaces from en quad to hair space,
/// line and paragraph separators, narrow no-break space, medium
/// mathematical space, and ideographic space.
pub open spec fn white_space(c: char) -> bool {
    let u = c as u32;
    (0x9 <= u && u <= 0xd) || u == 0x20 || u == 0x85 || u == 0xa0 || u == 0x1680 || (0x2000 <= u
        && u <= 0x200a) || u == 0x2028 || u == 0x2029 || u == 0x202f || u == 0x205f || u == 0x3000
}

/// `s` without its leading white space.
pub open spec fn trim_start_of(s: Seq<char>) -> Seq<char>
    decreases s.len(),
{
    if s.len() > 0 && white_space(s[0]) {
        trim_start_of(s.drop_first())
    } else {
        s
    }
}

/// `s` without its trailing white space.
pub open spec fn trim_end_of(s: Seq<char>) -> Seq<char>
    decreases s.len(),
{
    if s.len() > 0 && white_space(s.last()) {
        trim_end_of(s.drop_last())
    } else {
        s
    }
}

/// `s` without its leading and trailing white space.
pub open spec fn trim_of(s: Seq<char>) -> Seq<char> {
    trim_end_of(trim_start_of(s))
}

/// Relies on `str::trim`: `s` without leading and trailing white space, as
/// `char::is_whitespace` defines it.
#[verifier::external_body]
fn trimmed(s: &str) -> (r: String)
    ensures
        r@ == trim_of(s@),
        r@.len() > 0 ==> !white_space(r@[0]) && !white_space(r@.last()),
{
    s.trim().to_string()
}

/// Relies on `str::trim_end`: `s` without trailing white space, as
/// `char::is_whitespace` defines it.
#[verifier::external_body]
fn trimmed_end(s: &str) -> (r: String)
    ensures
        r@ == trim_end_of(s@),
        r@.len() > 0 ==> !white_space(r@.last()),
{
    s.trim_end().to_string()
}

/// The new index text, or `None` when nothing is to be written: on a dry
/// run, or when one of its lines is the declaration already.
pub open spec fn exports_update_of(ctx: Context, current: Seq<char>, m: Seq<char>) -> Option<Seq<char>> {
    if ctx.dry_run || has_line(current, export_line(m)) {
        None
    } else if has_sub(current, EXPORTS_MARK@) {
        Some(replace_all(current, EXPORTS_MARK@, export_line(m) + "\n"@ + EXPORTS_MARK@))
    } else {
        Some(trim_of(current) + "\n"@ + export_line(m) + "\n"@)
    }
}

/// Declares `module_name` in the index text `current` (a missing index
/// reads as empty), unless one of its lines is that declaration already: at
/// the extension point where there is one, else at the end. `None` when
/// nothing is to be written.
pub fn update_module_exports(ctx: &Context, current: &str, module_name: &str) -> (r: Option<String>)
    ensures
        r matches Some(x) ==> exports_update_of(*ctx, current@, module_name@) == Some(x@),
        r is None ==> exports_update_of(*ctx, current@, module_name@) is None,
{
    if ctx.dry_run {
        return None;
    }
    let text = chars_of(current);
    let mut line = chars_of("pub mod ");
    push_str(&mut line, module_name);
    push_str(&mut line, ";");
    if contains_line(&text, &line) {
        return None;
    }
    let mark = chars_of(EXPORTS_MARK);
    if contains(&text, &mark) {
        let mut rep = line;
        push_str(&mut rep, "\n");
        push_str(&mut rep, EXPORTS_MARK);
        proof {
            reveal_strlit("// Add your modules here");
        }
        Some(string_of(&replace_all_exec(&text, &mark, &rep)))
    } else {
        let mut out = trimmed(current);
        out.append("\n");
        out.append(string_of(&line).as_str());
        out.append("\n");
        Some(out)
    }
}

/// The marker of a test module.
pub const TEST_MARK: &'static str = "#[cfg(test)]";

/// The service file with the unit tests `tests` appended, or `None` when
/// nothing is to be written: on a dry run, or when the file holds tests
/// already and overwriting is off. Existing tests are cut off, with the
/// white space before them, when overwriting.
pub open spec fn append_unit_tests_of(ctx: Context, current: Seq<char>, tests: Seq<char>) -> Option<Seq<char>> {
    if ctx.dry_run {
        None
    } else {
        match find_from(current, TEST_MARK@, 0) {
            Some(pos) => if ctx.force {
                Some(trim_end_of(current.subrange(0, pos)) + "\n\n"@ + tests)
            } else {
                None
            },
            None => Some(current + "\n\n"@ + tests),
        }
    }
}

/// Appends the unit tests `tests` to the service file text `current`.
pub fn append_unit_tests(ctx: &Context, current: &str, tests: &str) -> (r: Option<String>)
    ensures
        r matches Some(x) ==> append_unit_tests_of(*ctx, current@, tests@) == Some(x@),
        r is None ==> append_unit_tests_of(*ctx, current@, tests@) is None,
{
    if ctx.dry_run {
        return None;
    }
    let force = ctx.force;
    let text = chars_of(current);
    match find(&text, &chars_of(TEST_MARK), 0) {
        Some(pos) => {
            if !force {
                return None;
            }
            proof {
                lemma_find_from_bounds(text@, TEST_MARK@, 0);
            }
            let head = string_of(&slice_exec(&text, 0, pos));
            let mut out = trimmed_end(head.as_str());
            out.append("\n\n");
            out.append(tests);
            Some(out)
        },
        None => {
            let mut out = String::from_str(current);
            out.append("\n\n");
            out.append(tests);
            Some(out)
        },
    }
}

} // verus!
