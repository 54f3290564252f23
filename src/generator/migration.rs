//! Database migrations of a component: one file per database kind, named
//! with the generation time so that components never collide.
use vstd::prelude::*;
use vstd::string::*;
use crate::generator::{snake_of, to_snake_case, Templates, Step, StepModel, DbKind, GenError, db_name, db_name_exec};
use crate::text::{slice_exec, chars_of, same_chars, replace_all, replace_all_exec, push_chars, string_of};

verus! {

/// A UTC date and time of day, as calendar fields.
#[derive(Clone, Copy, Debug)]
pub struct Timestamp {
    pub year: i32,
    pub month: u32,
    pub day: u32,
    pub hour: u32,
    pub minute: u32,
    pub second: u32,
}

impl Timestamp {
    /// Each field lies in its calendar range.
    pub open spec fn wf(&self) -> bool {
        &&& 1 <= self.month <= 12
        &&& 1 <= self.day <= 31
        &&& self.hour <= 23
        &&& self.minute <= 59
        &&& self.second <= 59
    }
}

/// Relies on `SystemTime::now` and chrono's `DateTime::from_timestamp`, read
/// through the `Datelike` / `Timelike` accessors: the current UTC time to the
/// second, or `None` when the clock reads before 1970 or beyond chrono's date
/// range. Its month is 1 to 12, day 1 to 31, hour 0 to 23, and minute and
/// second 0 to 59.
#[verifier::external_body]
fn utc_now() -> (r: Option<Timestamp>)
    ensures
        r matches Some(ts) ==> ts.wf(),
{
    let since = std::time::SystemTime::now().duration_since(std::time::UNIX_EPOCH).ok()?;
    let now = chrono::DateTime::from_timestamp(i64::try_from(since.as_secs()).ok()?, 0)?;
    Some(Timestamp {
        year: chrono::Datelike::year(&now),
        month: chrono::Datelike::month(&now),
        day: chrono::Datelike::day(&now),
        hour: chrono::Timelike::hour(&now),
        minute: chrono::Timelike::minute(&now),
        second: chrono::Timelike::second(&now),
    })
}

/// The decimal digit for `d < 10`.
pub open spec fn digit(d: nat) -> char {
    if d == 0 {
        '0'
    } else if d == 1 {
        '1'
    } else if d == 2 {
        '2'
    } else if d == 3 {
        '3'
    } else if d == 4 {
        '4'
    } else if d == 5 {
        '5'
    } else if d == 6 {
        '6'
    } else if d == 7 {
        '7'
    } else if d == 8 {
        '8'
    } else {
        '9'
    }
}

/// The decimal digits of `n`, without leading zeros.
pub open spec fn dec(n: nat) -> Seq<char>
    decreases n,
{
    if n < 10 {
        seq![digit(n)]
    } else {
        dec(n / 10).push(digit(n % 10))
    }
}

/// The decimal digits of `n`, zero-padded to at least `w` characters.
pub open spec fn padded(n: nat, w: nat) -> Seq<char> {
    if dec(n).len() >= w {
        dec(n)
    } else {
        Seq::new((w - dec(n).len()) as nat, |_i: int| '0') + dec(n)
    }
}

/// The year as chrono's `%Y` writes it: four digits, zero-padded, for years
/// 0 to 9999, and signed outside that range.
pub open spec fn year_text(y: int) -> Seq<char> {
    if 0 <= y <= 9999 {
        padded(y as nat, 4)
    } else if y > 9999 {
        seq!['+'] + padded(y as nat, 4)
    } else {
        seq!['-'] + padded((-y) as nat, 4)
    }
}

/// The timestamp as `%Y%m%d%H%M%S`.
pub open spec fn stamp_of(ts: Timestamp) -> Seq<char> {
    year_text(ts.year as int) + padded(ts.month as nat, 2) + padded(ts.day as nat, 2) + padded(
        ts.hour as nat,
        2,
    ) + padded(ts.minute as nat, 2) + padded(ts.second as nat, 2)
}

fn digit_char(d: u64) -> (r: char)
    requires
        d < 10,
    ensures
        r == digit(d as nat),
{
    if d == 0 {
        '0'
    } else if d == 1 {
        '1'
    } else if d == 2 {
        '2'
    } else if d == 3 {
        '3'
    } else if d == 4 {
        '4'
    } else if d == 5 {
        '5'
    } else if d == 6 {
        '6'
    } else if d == 7 {
        '7'
    } else if d == 8 {
        '8'
    } else {
        '9'
    }
}

fn dec_exec(n: u64) -> (r: Vec<char>)
    ensures
        r@ == dec(n as nat),
    decreases n,
{
    if n < 10 {
        let mut r: Vec<char> = Vec::new();
        r.push(digit_char(n));
        assert(r@ =~= seq![digit(n as nat)]);
        r
    } else {
        let mut r = dec_exec(n / 10);
        r.push(digit_char(n % 10));
        r
    }
}

fn padded_exec(n: u64, w: usize) -> (r: Vec<char>)
    ensures
        r@ == padded(n as nat, w as nat),
{
    let d = dec_exec(n);
    if d.len() >= w {
        return d;
    }
    let mut r: Vec<char> = Vec::new();
    let mut k: usize = d.len();
    while k < w
        invariant
            d.len() <= k <= w,
            r@ == Seq::new((k - d.len()) as nat, |_i: int| '0'),
        decreases w - k,
    {
        r.push('0');
        k = k + 1;
        assert(r@ =~= Seq::new((k - d.len()) as nat, |_i: int| '0'));
    }
    push_chars(&mut r, &d);
    r
}

/// Formats `ts` as `%Y%m%d%H%M%S`.
pub fn format_stamp(ts: &Timestamp) -> (r: String)
    ensures
        r@ == stamp_of(*ts),
{
    let y = ts.year as i64;
    let mut out: Vec<char> = Vec::new();
    if 0 <= y && y <= 9999 {
        out = padded_exec(y as u64, 4);
    } else if y > 9999 {
        out.push('+');
        push_chars(&mut out, &padded_exec(y as u64, 4));
    } else {
        out.push('-');
        push_chars(&mut out, &padded_exec((-y) as u64, 4));
    }
    assert(out@ =~= year_text(ts.year as int));
    push_chars(&mut out, &padded_exec(ts.month as u64, 2));
    push_chars(&mut out, &padded_exec(ts.day as u64, 2));
    push_chars(&mut out, &padded_exec(ts.hour as u64, 2));
    push_chars(&mut out, &padded_exec(ts.minute as u64, 2));
    push_chars(&mut out, &padded_exec(ts.second as u64, 2));
    string_of(&out)
}

/// The migration template for database kind `k`.
pub open spec fn migration_template(t: Templates, k: DbKind) -> Seq<char> {
    match k {
        DbKind::Postgres => t.migration_postgres@,
        DbKind::Mysql => t.migration_mysql@,
        DbKind::Mongodb => t.migration_mongodb@,
        DbKind::Sqlite => t.migration_sqlite@,
    }
}

/// The file name of the migration of `name` for kind `k` made at `stamp`:
/// the table kinds carry the stamp, the document store's setup script does
/// not.
pub open spec fn migration_file(name: Seq<char>, k: DbKind, stamp: Seq<char>) -> Seq<char> {
    match k {
        DbKind::Mongodb => "setup_"@ + name + "s_collection.rs"@,
        _ => stamp + "_create_"@ + name + "s_table_"@ + db_name(k) + ".sql"@,
    }
}

/// The migration of `name` for kind `k` made at `ts`; its template has the
/// raw name substituted.
pub open spec fn migration_step(t: Templates, name: Seq<char>, k: DbKind, ts: Timestamp) -> StepModel {
    StepModel::Migration {
        file: migration_file(snake_of(name), k, stamp_of(ts)),
        content: replace_all(migration_template(t, k), "{{name}}"@, snake_of(name)),
    }
}

/// The migration of `name` for kind `k` made at `ts`.
pub fn migration_for(templates: &Templates, name: &str, k: DbKind, ts: &Timestamp) -> (r: Step)
    ensures
        r@ == migration_step(*templates, name@, k, *ts),
{
    let template = match k {
        DbKind::Postgres => &templates.migration_postgres,
        DbKind::Mysql => &templates.migration_mysql,
        DbKind::Mongodb => &templates.migration_mongodb,
        DbKind::Sqlite => &templates.migration_sqlite,
    };
    let tag = chars_of("{{name}}");
    proof {
        reveal_strlit("{{name}}");
    }
    let snake = to_snake_case(name);
    let content = string_of(
        &replace_all_exec(&chars_of(template.as_str()), &tag, &chars_of(snake.as_str())),
    );
    let file = match k {
        DbKind::Mongodb => {
            let mut f = String::from_str("setup_");
            f.append(snake.as_str());
            f.append("s_collection.rs");
            f
        },
        _ => {
            let mut f = format_stamp(ts);
            f.append("_create_");
            f.append(snake.as_str());
            f.append("s_table_");
            f.append(db_name_exec(k));
            f.append(".sql");
            f
        },
    };
    Step::Migration { file, content }
}

/// Whether `s` is the migration of `name` for kind `k` made at some time.
pub open spec fn is_migration(s: StepModel, t: Templates, name: Seq<char>, k: DbKind) -> bool {
    exists|ts: Timestamp| ts.wf() && s == migration_step(t, name, k, ts)
}

/// The PostgreSQL migration of `name`, stamped with the current time.
pub fn generate_postgres_migration(templates: &Templates, name: &str) -> (r: Result<Step, GenError>)
    ensures
        r matches Ok(step) ==> is_migration(step@, *templates, name@, DbKind::Postgres),
        r matches Err(e) ==> e is ClockUnavailable,
{
    match utc_now() {
        Some(ts) => Ok(migration_for(templates, name, DbKind::Postgres, &ts)),
        None => Err(GenError::ClockUnavailable),
    }
}

/// The MySQL migration of `name`, stamped with the current time.
pub fn generate_mysql_migration(templates: &Templates, name: &str) -> (r: Result<Step, GenError>)
    ensures
        r matches Ok(step) ==> is_migration(step@, *templates, name@, DbKind::Mysql),
        r matches Err(e) ==> e is ClockUnavailable,
{
    match utc_now() {
        Some(ts) => Ok(migration_for(templates, name, DbKind::Mysql, &ts)),
        None => Err(GenError::ClockUnavailable),
    }
}

/// The SQLite migration of `name`, stamped with the current time.
pub fn generate_sqlite_migration(templates: &Templates, name: &str) -> (r: Result<Step, GenError>)
    ensures
        r matches Ok(step) ==> is_migration(step@, *templates, name@, DbKind::Sqlite),
        r matches Err(e) ==> e is ClockUnavailable,
{
    match utc_now() {
        Some(ts) => Ok(migration_for(templates, name, DbKind::Sqlite, &ts)),
        None => Err(GenError::ClockUnavailable),
    }
}

/// The MongoDB collection setup of `name`; its name carries no time.
pub fn generate_mongodb_setup(templates: &Templates, name: &str) -> (r: Step)
    ensures
        forall|ts: Timestamp| r@ == migration_step(*templates, name@, DbKind::Mongodb, ts),
{
    let ts = Timestamp { year: 0, month: 1, day: 1, hour: 0, minute: 0, second: 0 };
    migration_for(templates, name, DbKind::Mongodb, &ts)
}

/// The database kinds that `db_type` selects, in generation order; `None`
/// for a name that is not a kind nor `all`.
pub open spec fn migration_kinds(db_type: Seq<char>) -> Option<Seq<DbKind>> {
    if db_type == "postgres"@ {
        Some(seq![DbKind::Postgres])
    } else if db_type == "mysql"@ {
        Some(seq![DbKind::Mysql])
    } else if db_type == "sqlite"@ {
        Some(seq![DbKind::Sqlite])
    } else if db_type == "mongodb"@ {
        Some(seq![DbKind::Mongodb])
    } else if db_type == "all"@ {
        Some(seq![DbKind::Postgres, DbKind::Mysql, DbKind::Sqlite, DbKind::Mongodb])
    } else {
        None
    }
}

/// The migrations for the kinds that `db_type` names exactly (or all of
/// them, for `all`), each stamped with the time it was made. Any other name
/// is an error; so is a clock that cannot be read, where a kind needs it.
pub fn generate_migration(templates: &Templates, name: &str, db_type: &str) -> (r: Result<
    Vec<Step>,
    GenError,
>)
    ensures
        migration_kinds(db_type@) is None ==> (r matches Err(e) && e matches GenError::UnknownDatabase(d)
            && d@ == db_type@),
        db_type@ == "mongodb"@ ==> r is Ok,
        r matches Ok(plan) ==> (migration_kinds(db_type@) matches Some(kinds) && plan@.len()
            == kinds.len() && forall|i: int|
            0 <= i < kinds.len() ==> is_migration(#[trigger] plan@[i]@, *templates, name@, kinds[i])),
        r matches Err(e) ==> (e is ClockUnavailable && migration_kinds(db_type@) is Some) || (e is UnknownDatabase && migration_kinds(db_type@) is None),
{
    let d = chars_of(db_type);
    let mut r: Vec<Step> = Vec::new();
    proof {
        reveal_strlit("mongodb");
        reveal_strlit("postgres");
        reveal_strlit("mysql");
        reveal_strlit("sqlite");
        assert("mongodb"@.len() != "postgres"@.len());
        assert("mongodb"@.len() != "mysql"@.len());
        assert("mongodb"@.len() != "sqlite"@.len());
    }
    if same_chars(&d, &chars_of("postgres")) {
        r.push(generate_postgres_migration(templates, name)?);
    } else if same_chars(&d, &chars_of("mysql")) {
        r.push(generate_mysql_migration(templates, name)?);
    } else if same_chars(&d, &chars_of("sqlite")) {
        r.push(generate_sqlite_migration(templates, name)?);
    } else if same_chars(&d, &chars_of("mongodb")) {
        r.push(generate_mongodb_setup(templates, name));
        assert(is_migration(r@[0]@, *templates, name@, DbKind::Mongodb)) by {
            let ts = Timestamp { year: 0, month: 1, day: 1, hour: 0, minute: 0, second: 0 };
            assert(ts.wf());
        }
    } else if same_chars(&d, &chars_of("all")) {
        r.push(generate_postgres_migration(templates, name)?);
        r.push(generate_mysql_migration(templates, name)?);
        r.push(generate_sqlite_migration(templates, name)?);
        r.push(generate_mongodb_setup(templates, name));
        assert(is_migration(r@[3]@, *templates, name@, DbKind::Mongodb)) by {
            let ts = Timestamp { year: 0, month: 1, day: 1, hour: 0, minute: 0, second: 0 };
            assert(ts.wf());
        }
    } else {
        return Err(GenError::UnknownDatabase(String::from_str(db_type)));
    }
    Ok(r)
}

/// Whether `c` can stand in a time stamp: a digit or a sign.
pub open spec fn stamp_char(c: char) -> bool {
    ('0' <= c && c <= '9') || c == '+' || c == '-'
}

/// The migration file name `f` without its leading time stamp: equal for two
/// migrations of the same component and database kind.
pub open spec fn migration_key(f: Seq<char>) -> Seq<char>
    decreases f.len(),
{
    if f.len() > 0 && stamp_char(f[0]) {
        migration_key(f.drop_first())
    } else {
        f
    }
}

/// Whether one of the file names `existing` is a migration of the same
/// component and database kind as the migration named `file`.
pub open spec fn migration_present_of(existing: Seq<Seq<char>>, file: Seq<char>) -> bool {
    exists|i: int| 0 <= i < existing.len() && migration_key(existing[i]) == migration_key(file)
}

fn migration_key_exec(f: &Vec<char>) -> (r: Vec<char>)
    ensures
        r@ == migration_key(f@),
{
    let mut i: usize = 0;
    assert(f@.subrange(0, f.len() as int) =~= f@);
    while i < f.len() && ((f[i] >= '0' && f[i] <= '9') || f[i] == '+' || f[i] == '-')
        invariant
            i <= f.len(),
            migration_key(f@) == migration_key(f@.subrange(i as int, f.len() as int)),
        decreases f.len() - i,
    {
        assert(f@.subrange(i as int, f.len() as int).drop_first() =~= f@.subrange(
            i + 1,
            f.len() as int,
        ));
        i = i + 1;
    }
    assert(f@.subrange(0, f.len() as int) =~= f@);
    slice_exec(f, i, f.len())
}

/// Whether the migrations directory, whose file names are `existing`,
/// holds a migration of the same component and database kind as `file`:
/// such a migration makes a new one a skip, whatever its time stamp.
pub fn migration_present(existing: &Vec<String>, file: &str) -> (r: bool)
    ensures
        r == migration_present_of(existing@.map_values(|e: String| e@), file@),
{
    let key = migration_key_exec(&chars_of(file));
    let ghost names = existing@.map_values(|e: String| e@);
    let mut i: usize = 0;
    while i < existing.len()
        invariant
            i <= existing.len(),
            names == existing@.map_values(|e: String| e@),
            key@ == migration_key(file@),
            forall|k: int| 0 <= k < i ==> migration_key(#[trigger] names[k]) != migration_key(file@),
        decreases existing.len() - i,
    {
        let other = migration_key_exec(&chars_of(existing[i].as_str()));
        if same_chars(&other, &key) {
            assert(migration_key(names[i as int]) == migration_key(file@));
            return true;
        }
        i = i + 1;
    }
    false
}

} // verus!
