//! Properties of the weaver, stated over its spec functions and proved.
use vstd::prelude::*;
use crate::text::{
    occurs_at, has_sub, find_from, find_last, insert_at, replace_all, lemma_find_from_bounds,
    lemma_find_last_bounds, lemma_insert_keeps, lemma_insert_keeps_occurrence,
};
use crate::generator::{snake_of, write_action_of, exports_update_of, append_unit_tests_of, WriteAction};
use crate::generator::handler::entry_writes;
use crate::context::Context;
use crate::weaver::{
    handler_import, bootstrap_imports, after_last_line, import_phase, main_phase, weave_text,
    weave_of, construction_phase, construction_block, doc_var_phase, doc_var_decl, route_phase,
    route_clause, docs_phase, layer_imports, factory_import, service_import, usecase_import,
    factory_marker, service_marker, usecase_marker, mode_of, WeaveMode, HANDLER_USE, MOD_HANDLER,
    BANNER, SWAGGER_MERGE, SWAGGER_OPEN,
};
use crate::text::{splice, lemma_has_sub_find};

verus! {

/// The document after a request to weave `name`: unchanged when the
/// component is woven already, else the woven text.
pub open spec fn woven_text(t: Seq<char>, name: Seq<char>, rich: bool) -> Seq<char> {
    match weave_of(t, name, rich) {
        Some(r) => r.1,
        None => t,
    }
}

/// A prefix of an occurring text occurs at the same index.
proof fn lemma_prefix_occurs(t: Seq<char>, x: Seq<char>, m: Seq<char>, q: int)
    requires
        occurs_at(t, x, q),
        m.len() <= x.len(),
        x.subrange(0, m.len() as int) == m,
    ensures
        occurs_at(t, m, q),
{
    assert(t.subrange(q, q + m.len()) =~= t.subrange(q, q + x.len()).subrange(0, m.len() as int));
}

/// Replacing every occurrence of a non-empty pattern that occurs in `t`
/// leaves the replacement in the result.
proof fn lemma_replace_all_writes(t: Seq<char>, p: Seq<char>, r: Seq<char>)
    requires
        p.len() > 0,
        has_sub(t, p),
    ensures
        has_sub(replace_all(t, p, r), r),
    decreases t.len(),
{
    let i = choose|i: int| occurs_at(t, p, i);
    if t.subrange(0, p.len() as int) == p {
        assert(occurs_at(replace_all(t, p, r), r, 0)) by {
            let out = replace_all(t, p, r);
            assert(out.subrange(0, r.len() as int) =~= r);
        }
    } else {
        let rest = t.subrange(1, t.len() as int);
        assert(i > 0);
        assert(occurs_at(rest, p, i - 1)) by {
            assert(rest.subrange(i - 1, i - 1 + p.len()) =~= t.subrange(i, i + p.len()));
        }
        lemma_replace_all_writes(rest, p, r);
        let j = choose|j: int| occurs_at(replace_all(rest, p, r), r, j);
        let out = replace_all(t, p, r);
        assert(out == seq![t[0]] + replace_all(rest, p, r));
        assert(occurs_at(out, r, j + 1)) by {
            assert(out.subrange(j + 1, j + 1 + r.len()) =~= replace_all(rest, p, r).subrange(
                j,
                j + r.len(),
            ));
        }
    }
}

/// The handler import of a component is in the document after the import
/// phase, wherever the phase finds its anchor: the module declaration of a
/// document that imports no handler yet, or the end of the last handler
/// import line of one that does.
pub proof fn lemma_import_phase_writes_import(t: Seq<char>, s: Seq<char>, p: Seq<char>, rich: bool)
    requires
        !has_sub(t, HANDLER_USE@) ==> has_sub(t, MOD_HANDLER@),
        has_sub(t, HANDLER_USE@) ==> (find_last(t, HANDLER_USE@) matches Some(l) && find_from(
            t,
            "\n"@,
            l,
        ) is Some),
        rich ==> !s.contains('\n') && !p.contains('\n'),
    ensures
        has_sub(import_phase(t, s, p, rich), handler_import(s, p)),
{
    reveal_strlit("mod handler;");
    reveal_strlit("use handler::");
    reveal_strlit("\n");
    let h = handler_import(s, p);
    let r = import_phase(t, s, p, rich);
    if !has_sub(t, HANDLER_USE@) {
        let block = bootstrap_imports(s, p, rich);
        lemma_replace_all_writes(t, MOD_HANDLER@, block);
        let k = choose|k: int| occurs_at(r, block, k);
        assert(occurs_at(r, h, k + block.len() - h.len())) by {
            assert(block.subrange(block.len() - h.len(), block.len() as int) =~= h);
            assert(r.subrange(k + block.len() - h.len(), k + block.len()) =~= block.subrange(
                block.len() - h.len(),
                block.len() as int,
            ));
        }
    } else {
        let l = find_last(t, HANDLER_USE@)->0;
        let j = find_from(t, "\n"@, l)->0;
        lemma_find_last_bounds(t, HANDLER_USE@, t.len() - HANDLER_USE@.len());
        lemma_find_from_bounds(t, "\n"@, l);
        let line = h + "\n"@;
        let t1 = insert_at(t, j + 1, line);
        lemma_insert_keeps(t, j + 1, line);
        assert(line.subrange(0, h.len() as int) =~= h);
        lemma_prefix_occurs(t1, line, h, j + 1);
        if rich {
            // The layer imports go in after whole lines and hold no handler
            // import of their own; the import line is kept by them.
            lemma_handler_import_one_line(s, p);
            lemma_layer_imports_keep(t1, s, p, h, j + 1);
        }
    }
}

/// An insertion after a whole line keeps a text without line breaks.
proof fn lemma_after_line_keeps(t: Seq<char>, marker: Seq<char>, ins: Seq<char>, e: Seq<char>, a: int)
    requires
        occurs_at(t, e, a),
        !e.contains('\n'),
    ensures
        has_sub(after_last_line(t, marker, ins), e),
{
    reveal_strlit("\n");
    match find_last(t, marker) {
        Some(l) => {
            lemma_find_last_bounds(t, marker, t.len() - marker.len());
            match find_from(t, "\n"@, l) {
                Some(j) => {
                    lemma_find_from_bounds(t, "\n"@, l);
                    assert(t[j] == '\n') by {
                        assert(t.subrange(j, j + 1)[0] == "\n"@[0]);
                    }
                    if a < j + 1 && j + 1 < a + e.len() {
                        assert(e[j - a] == t.subrange(a, a + e.len())[j - a]);
                        assert(e.contains('\n'));
                    }
                    lemma_insert_keeps_occurrence(t, e, a, j + 1, ins);
                },
                None => {},
            }
        },
        None => {},
    }
}

/// A handler import line holds no line break when the name forms hold none.
proof fn lemma_handler_import_one_line(s: Seq<char>, p: Seq<char>)
    requires
        !s.contains('\n'),
        !p.contains('\n'),
    ensures
        !handler_import(s, p).contains('\n'),
{
    reveal_strlit("use handler::");
    reveal_strlit("_handler::{");
    reveal_strlit("Handler, ");
    reveal_strlit("ApiDoc};");
    assert(!"use handler::"@.contains('\n'));
    assert(!"_handler::{"@.contains('\n'));
    assert(!"Handler, "@.contains('\n'));
    assert(!"ApiDoc};"@.contains('\n'));
    lemma_concat_lacks("use handler::"@, s, '\n');
    lemma_concat_lacks("use handler::"@ + s, "_handler::{"@, '\n');
    lemma_concat_lacks("use handler::"@ + s + "_handler::{"@, p, '\n');
    lemma_concat_lacks("use handler::"@ + s + "_handler::{"@ + p, "Handler, "@, '\n');
    lemma_concat_lacks("use handler::"@ + s + "_handler::{"@ + p + "Handler, "@, p, '\n');
    lemma_concat_lacks("use handler::"@ + s + "_handler::{"@ + p + "Handler, "@ + p, "ApiDoc};"@, '\n');
}

/// The layer imports go in after whole lines, so they keep a text without
/// line breaks.
proof fn lemma_layer_imports_keep(t: Seq<char>, s: Seq<char>, p: Seq<char>, e: Seq<char>, a: int)
    requires
        occurs_at(t, e, a),
        !e.contains('\n'),
    ensures
        has_sub(crate::weaver::layer_imports(t, s, p), e),
{
    let f = crate::weaver::factory_marker(s);
    let t1 = if has_sub(t, f) {
        t
    } else {
        after_last_line(t, HANDLER_USE@, crate::weaver::factory_import(s))
    };
    if !has_sub(t, f) {
        lemma_after_line_keeps(t, HANDLER_USE@, crate::weaver::factory_import(s), e, a);
    }
    let a1 = choose|k: int| occurs_at(t1, e, k);
    let t2 = if has_sub(t1, crate::weaver::service_marker(s)) {
        t1
    } else {
        after_last_line(t1, "use factory::"@, crate::weaver::service_import(s, p))
    };
    if !has_sub(t1, crate::weaver::service_marker(s)) {
        lemma_after_line_keeps(t1, "use factory::"@, crate::weaver::service_import(s, p), e, a1);
    }
    let a2 = choose|k: int| occurs_at(t2, e, k);
    if !has_sub(t2, crate::weaver::usecase_marker(s)) {
        lemma_after_line_keeps(t2, "use service::"@, crate::weaver::usecase_import(s, p), e, a2);
    }
}

/// An insertion after a whole line keeps two texts without line breaks,
/// and keeps their order.
proof fn lemma_after_line_keeps_pair(
    t: Seq<char>,
    marker: Seq<char>,
    ins: Seq<char>,
    e1: Seq<char>,
    a1: int,
    e2: Seq<char>,
    a2: int,
) -> (r: (int, int))
    requires
        occurs_at(t, e1, a1),
        occurs_at(t, e2, a2),
        a1 + e1.len() <= a2,
        !e1.contains('\n'),
        !e2.contains('\n'),
    ensures
        occurs_at(after_last_line(t, marker, ins), e1, r.0),
        occurs_at(after_last_line(t, marker, ins), e2, r.1),
        r.0 + e1.len() <= r.1,
{
    reveal_strlit("\n");
    match find_last(t, marker) {
        Some(l) => {
            lemma_find_last_bounds(t, marker, t.len() - marker.len());
            match find_from(t, "\n"@, l) {
                Some(j) => {
                    lemma_find_from_bounds(t, "\n"@, l);
                    assert(t[j] == '\n') by {
                        assert(t.subrange(j, j + 1)[0] == "\n"@[0]);
                    }
                    let q = j + 1;
                    if a1 < q && q < a1 + e1.len() {
                        assert(e1[j - a1] == t.subrange(a1, a1 + e1.len())[j - a1]);
                    }
                    if a2 < q && q < a2 + e2.len() {
                        assert(e2[j - a2] == t.subrange(a2, a2 + e2.len())[j - a2]);
                    }
                    lemma_insert_keeps_occurrence(t, e1, a1, q, ins);
                    lemma_insert_keeps_occurrence(t, e2, a2, q, ins);
                    let b1 = if a1 + e1.len() <= q { a1 } else { a1 + ins.len() };
                    let b2 = if a2 + e2.len() <= q { a2 } else { a2 + ins.len() };
                    (b1, b2)
                },
                None => (a1, a2),
            }
        },
        None => (a1, a2),
    }
}

/// The layer imports keep two one-line texts and their order.
proof fn lemma_layer_imports_keep_pair(
    t: Seq<char>,
    s: Seq<char>,
    p: Seq<char>,
    e1: Seq<char>,
    a1: int,
    e2: Seq<char>,
    a2: int,
)
    requires
        occurs_at(t, e1, a1),
        occurs_at(t, e2, a2),
        a1 + e1.len() <= a2,
        !e1.contains('\n'),
        !e2.contains('\n'),
    ensures
        exists|b1: int, b2: int|
            occurs_at(crate::weaver::layer_imports(t, s, p), e1, b1) && occurs_at(
                crate::weaver::layer_imports(t, s, p),
                e2,
                b2,
            ) && b1 + e1.len() <= b2,
{
    let fi = crate::weaver::factory_import(s);
    let si = crate::weaver::service_import(s, p);
    let ui = crate::weaver::usecase_import(s, p);
    let (c1, c2) = if has_sub(t, crate::weaver::factory_marker(s)) {
        (a1, a2)
    } else {
        lemma_after_line_keeps_pair(t, HANDLER_USE@, fi, e1, a1, e2, a2)
    };
    let t1 = if has_sub(t, crate::weaver::factory_marker(s)) {
        t
    } else {
        after_last_line(t, HANDLER_USE@, fi)
    };
    let (d1, d2) = if has_sub(t1, crate::weaver::service_marker(s)) {
        (c1, c2)
    } else {
        lemma_after_line_keeps_pair(t1, "use factory::"@, si, e1, c1, e2, c2)
    };
    let t2 = if has_sub(t1, crate::weaver::service_marker(s)) {
        t1
    } else {
        after_last_line(t1, "use factory::"@, si)
    };
    let (f1, f2) = if has_sub(t2, crate::weaver::usecase_marker(s)) {
        (d1, d2)
    } else {
        lemma_after_line_keeps_pair(t2, "use service::"@, ui, e1, d1, e2, d2)
    };
    assert(occurs_at(crate::weaver::layer_imports(t, s, p), e1, f1));
    assert(occurs_at(crate::weaver::layer_imports(t, s, p), e2, f2));
}

/// Whether the import phase finds its anchor in `t`: the module declaration
/// where no handler is imported yet, else a line end after the last handler
/// import.
pub open spec fn import_anchored(t: Seq<char>) -> bool {
    &&& !has_sub(t, HANDLER_USE@) ==> has_sub(t, MOD_HANDLER@)
    &&& has_sub(t, HANDLER_USE@) ==> (find_last(t, HANDLER_USE@) matches Some(l) && find_from(
        t,
        "\n"@,
        l,
    ) is Some)
}

/// Weaving a component twice leaves the document as one weave left it: the
/// second request finds the component's handler import and changes nothing.
/// This holds wherever the first weave left that import in the document.
pub proof fn lemma_weave_idempotent(t: Seq<char>, name: Seq<char>, rich: bool)
    requires
        has_sub(
            woven_text(t, name, rich),
            handler_import(snake_of(name), crate::generator::pascal_of(name)),
        ),
    ensures
        weave_of(woven_text(t, name, rich), name, rich) is None,
        woven_text(woven_text(t, name, rich), name, rich) == woven_text(t, name, rich),
{
}

/// Under minimal wiring, on a document whose placeholder entry function is
/// gone, a weave whose import anchor is present writes the handler import;
/// so weaving the same component twice gives the document that one weave
/// gives.
pub proof fn lemma_weave_idempotent_minimal(t: Seq<char>, name: Seq<char>)
    requires
        import_anchored(t),
        !has_sub(t, BANNER@),
    ensures
        woven_text(woven_text(t, name, false), name, false) == woven_text(t, name, false),
{
    let s = snake_of(name);
    let p = crate::generator::pascal_of(name);
    if !has_sub(t, handler_import(s, p)) {
        lemma_import_phase_writes_import(t, s, p, false);
        assert(weave_text(t, s, p, false) == import_phase(t, s, p, false));
    }
    lemma_weave_idempotent(t, name, false);
}

/// Arrival order of imports in the import phase: in a document that imports
/// handlers already, the handler import of a new component goes in after
/// each one-line handler import already there, and each of those is kept.
pub proof fn lemma_import_order(t: Seq<char>, s: Seq<char>, p: Seq<char>, rich: bool, e: Seq<char>, a: int)
    requires
        occurs_at(t, e, a),
        occurs_at(e, HANDLER_USE@, 0),
        !e.contains('\n'),
        !s.contains('\n'),
        !p.contains('\n'),
        import_anchored(t),
    ensures
        exists|b: int, q: int|
            occurs_at(import_phase(t, s, p, rich), e, b) && occurs_at(
                import_phase(t, s, p, rich),
                handler_import(s, p),
                q,
            ) && b + e.len() <= q,
{
    reveal_strlit("use handler::");
    reveal_strlit("\n");
    let hu = HANDLER_USE@;
    assert(occurs_at(t, hu, a)) by {
        assert(t.subrange(a, a + hu.len()) =~= t.subrange(a, a + e.len()).subrange(0, hu.len() as int));
    }
    assert(has_sub(t, hu));
    let h = handler_import(s, p);
    let line = h + "\n"@;
    let l = find_last(t, hu)->0;
    let j = find_from(t, "\n"@, l)->0;
    lemma_find_last_bounds(t, hu, t.len() - hu.len());
    lemma_find_from_bounds(t, "\n"@, l);
    assert(t[j] == '\n') by {
        assert(t.subrange(j, j + 1)[0] == "\n"@[0]);
    }
    if j < a + e.len() {
        assert(e[j - a] == t.subrange(a, a + e.len())[j - a]);
    }
    let t1 = insert_at(t, j + 1, line);
    lemma_insert_keeps(t, j + 1, line);
    lemma_insert_keeps_occurrence(t, e, a, j + 1, line);
    assert(line.subrange(0, h.len() as int) =~= h);
    lemma_prefix_occurs(t1, line, h, j + 1);
    lemma_handler_import_one_line(s, p);
    assert(after_last_line(t, hu, line) == t1);
    if rich {
        assert(import_phase(t, s, p, rich) == crate::weaver::layer_imports(t1, s, p));
        lemma_layer_imports_keep_pair(t1, s, p, e, a, h, j + 1);
    } else {
        assert(import_phase(t, s, p, rich) == t1);
        assert(a + e.len() <= j + 1);
        assert(occurs_at(import_phase(t, s, p, rich), e, a) && occurs_at(
            import_phase(t, s, p, rich),
            h,
            j + 1,
        ) && a + e.len() <= j + 1);
    }
}

/// Arrival order of construction blocks: the block of a new component goes
/// in after every construction statement already there, and the document is
/// kept on both sides of it.
pub proof fn lemma_construction_order(t: Seq<char>, s: Seq<char>, p: Seq<char>)
    requires
        find_last(t, "let service"@) matches Some(l) && find_from(t, ";\n"@, l) is Some,
    ensures
        exists|q: int|
            0 <= q <= t.len() && construction_phase(t, s, p) == insert_at(
                t,
                q,
                "\n"@ + construction_block(s, p) + "\n"@,
            ) && forall|a: int| occurs_at(t, "let service"@, a) ==> a < q,
{
    reveal_strlit(";\n");
    let l = find_last(t, "let service"@)->0;
    let j = find_from(t, ";\n"@, l)->0;
    lemma_find_last_bounds(t, "let service"@, t.len() - "let service"@.len());
    lemma_find_from_bounds(t, ";\n"@, l);
    assert(forall|a: int| occurs_at(t, "let service"@, a) ==> a <= l);
    let q = j + 2;
    assert(0 <= q <= t.len() && construction_phase(t, s, p) == insert_at(
        t,
        q,
        "\n"@ + construction_block(s, p) + "\n"@,
    ) && forall|a: int| occurs_at(t, "let service"@, a) ==> a < q);
}

/// Arrival order of documentation aggregates: the aggregate of a new
/// component is declared after every aggregate already declared, and the
/// document is kept on both sides of it.
pub proof fn lemma_doc_var_order(t: Seq<char>, s: Seq<char>, p: Seq<char>)
    requires
        find_last(t, "let openapi"@) matches Some(l) && find_from(t, "ApiDoc::openapi();"@, l) is Some,
    ensures
        exists|q: int|
            0 <= q <= t.len() && doc_var_phase(t, s, p) == insert_at(t, q, doc_var_decl(s, p))
                && forall|a: int| occurs_at(t, "let openapi"@, a) ==> a < q,
{
    let l = find_last(t, "let openapi"@)->0;
    let j = find_from(t, "ApiDoc::openapi();"@, l)->0;
    lemma_find_last_bounds(t, "let openapi"@, t.len() - "let openapi"@.len());
    lemma_find_from_bounds(t, "ApiDoc::openapi();"@, l);
    reveal_strlit("ApiDoc::openapi();");
    assert(forall|a: int| occurs_at(t, "let openapi"@, a) ==> a <= l);
    let q = j + "ApiDoc::openapi();"@.len();
    assert(0 <= q <= t.len() && doc_var_phase(t, s, p) == insert_at(t, q, doc_var_decl(s, p))
        && forall|a: int| occurs_at(t, "let openapi"@, a) ==> a < q);
}

/// Routes before documentation: a new route-merge clause goes in directly in
/// front of the documentation-serving clause of the route table, which so
/// stays the last clause; the document is kept on both sides of it.
pub proof fn lemma_route_before_docs(t: Seq<char>, s: Seq<char>, p: Seq<char>)
    requires
        find_from(t, "let app = Router::new()"@, 0) matches Some(a) && find_from(
            t,
            SWAGGER_MERGE@,
            a,
        ) is Some,
    ensures
        exists|w: int|
            0 <= w <= t.len() && route_phase(t, s, p) == insert_at(t, w, route_clause(s, p))
                && occurs_at(route_phase(t, s, p), route_clause(s, p) + SWAGGER_MERGE@, w),
{
    let a = find_from(t, "let app = Router::new()"@, 0)->0;
    let w = find_from(t, SWAGGER_MERGE@, a)->0;
    lemma_find_from_bounds(t, "let app = Router::new()"@, 0);
    lemma_find_from_bounds(t, SWAGGER_MERGE@, a);
    let x = route_clause(s, p);
    let r = insert_at(t, w, x);
    lemma_insert_keeps(t, w, x);
    lemma_insert_keeps_occurrence(t, SWAGGER_MERGE@, w, w, x);
    let m = SWAGGER_MERGE@;
    assert(r.subrange(w, w + x.len() + m.len()) =~= r.subrange(w, w + x.len()) + r.subrange(
        w + x.len(),
        w + x.len() + m.len(),
    ));
}

/// A dry run writes nothing: the file writer only previews (files,
/// integration tests, migrations), no module index is updated, no unit tests
/// are appended, and the entry point is not written back; the weave it
/// reports (mode and new text) is the one that the same run without the
/// dry-run option performs.
pub proof fn lemma_dry_run_writes_nothing(
    ctx: Context,
    exists: bool,
    index: Seq<char>,
    module: Seq<char>,
    entry: Seq<char>,
    name: Seq<char>,
    service: Seq<char>,
    tests: Seq<char>,
)
    requires
        ctx.dry_run,
    ensures
        write_action_of(ctx, exists) == WriteAction::Preview,
        exports_update_of(ctx, index, module) is None,
        append_unit_tests_of(ctx, service, tests) is None,
        !entry_writes(ctx, entry, name),
        weave_of(entry, name, ctx.is_new_all) == weave_of(
            entry,
            name,
            (Context { dry_run: false, ..ctx }).is_new_all,
        ),
{
}

// ----- the documentation clause is neither created nor split by insertions -----

/// Joining two texts that lack `c` gives a text that lacks `c`.
proof fn lemma_concat_lacks(x: Seq<char>, y: Seq<char>, c: char)
    requires
        !x.contains(c),
        !y.contains(c),
    ensures
        !(x + y).contains(c),
{
    if (x + y).contains(c) {
        let k = choose|k: int| 0 <= k < (x + y).len() && (x + y)[k] == c;
        if k < x.len() {
            assert(x[k] == c);
        } else {
            assert(y[k - x.len()] == c);
        }
    }
}

/// The characters that the documentation clause is made of.
proof fn lemma_swagger_open_chars()
    ensures
        SWAGGER_OPEN@.contains('"'),
        !SWAGGER_OPEN@.contains('\n'),
        !SWAGGER_OPEN@.contains(';'),
        SWAGGER_OPEN@.len() > 0,
{
    reveal_strlit(".merge(SwaggerUi::new(\"/swagger-ui\")");
    assert(SWAGGER_OPEN@[22] == '"');
}

/// An occurrence of `p` in `t` with `x` inserted at `q` is an occurrence in
/// `t` (shifted when after the insertion), provided that no occurrence can
/// reach across either edge of `x` and none lies inside `x`.
proof fn lemma_insert_occurrences(t: Seq<char>, q: int, x: Seq<char>, p: Seq<char>, c: char, k: int)
    requires
        0 <= q <= t.len(),
        q == 0 || !p.contains(t[q - 1]),
        x.len() > 0,
        !p.contains(x[x.len() - 1]),
        p.contains(c),
        !x.contains(c),
        occurs_at(insert_at(t, q, x), p, k),
    ensures
        (k + p.len() <= q && occurs_at(t, p, k)) || (k >= q + x.len() && occurs_at(
            t,
            p,
            k - x.len(),
        )),
{
    let u = insert_at(t, q, x);
    lemma_insert_keeps(t, q, x);
    let win = u.subrange(k, k + p.len());
    if k + p.len() <= q {
        assert(t.subrange(k, k + p.len()) =~= win);
    } else if k >= q + x.len() {
        assert(t.subrange(k - x.len(), k - x.len() + p.len()) =~= win);
    } else if k < q {
        assert(p[q - 1 - k] == win[q - 1 - k]);
        assert(u[q - 1] == t[q - 1]);
        assert(p.contains(t[q - 1]));
    } else if k + p.len() >= q + x.len() {
        assert(p[q + x.len() - 1 - k] == win[q + x.len() - 1 - k]);
        assert(u[q + x.len() - 1] == x[x.len() - 1]);
        assert(p.contains(x[x.len() - 1]));
    } else {
        let i = choose|i: int| 0 <= i < p.len() && p[i] == c;
        assert(win[i] == u[k + i]);
        assert(u[k + i] == x[k + i - q]);
        assert(x.contains(c));
    }
}

/// `e` occurs at `m` and ends before every documentation clause.
pub open spec fn before_docs(u: Seq<char>, e: Seq<char>, m: int) -> bool {
    &&& occurs_at(u, e, m)
    &&& forall|k: int| occurs_at(u, SWAGGER_OPEN@, k) ==> m + e.len() <= k
}

/// A text that fits on one line, holds no period or quote, and holds a
/// semicolon at most as its last character.
pub open spec fn plain_line(e: Seq<char>) -> bool {
    &&& !e.contains('\n')
    &&& !e.contains('.')
    &&& !e.contains('"')
    &&& forall|i: int| 0 <= i < e.len() - 1 ==> e[i] != ';'
}

/// An insertion after a line break or a semicolon, of a quote-free text that
/// ends in one, keeps a plain line that lies before every documentation
/// clause before them.
proof fn lemma_insert_keeps_before_docs(u: Seq<char>, q: int, x: Seq<char>, e: Seq<char>, m: int) -> (m2: int)
    requires
        before_docs(u, e, m),
        plain_line(e),
        0 < q <= u.len(),
        u[q - 1] == '\n' || u[q - 1] == ';',
        x.len() > 0,
        x[x.len() - 1] == '\n' || x[x.len() - 1] == ';',
        !x.contains('"'),
    ensures
        before_docs(insert_at(u, q, x), e, m2),
        has_sub(u, SWAGGER_OPEN@) ==> has_sub(insert_at(u, q, x), SWAGGER_OPEN@),
{
    lemma_swagger_open_chars();
    if has_sub(u, SWAGGER_OPEN@) {
        let k = choose|k: int| occurs_at(u, SWAGGER_OPEN@, k);
        if k < q && q < k + SWAGGER_OPEN@.len() {
            assert(SWAGGER_OPEN@[q - 1 - k] == u.subrange(k, k + SWAGGER_OPEN@.len())[q - 1 - k]);
        }
        lemma_insert_keeps_occurrence(u, SWAGGER_OPEN@, k, q, x);
    }
    if m < q && q < m + e.len() {
        assert(e[q - 1 - m] == u.subrange(m, m + e.len())[q - 1 - m]);
        if u[q - 1] == '\n' {
            assert(e.contains('\n'));
        } else {
            assert(e[q - 1 - m] == ';');
        }
    }
    lemma_insert_keeps_occurrence(u, e, m, q, x);
    let m2 = if m + e.len() <= q { m } else { m + x.len() };
    let v = insert_at(u, q, x);
    assert forall|k: int| occurs_at(v, SWAGGER_OPEN@, k) implies m2 + e.len() <= k by {
        lemma_insert_occurrences(u, q, x, SWAGGER_OPEN@, '"', k);
    }
    m2
}

/// An insertion after the line that holds the last `marker`, of a
/// quote-free text that ends in a line break, keeps a plain line that lies
/// before every documentation clause before them.
proof fn lemma_after_line_keeps_before_docs(u: Seq<char>, marker: Seq<char>, x: Seq<char>, e: Seq<char>, m: int) -> (m2: int)
    requires
        before_docs(u, e, m),
        plain_line(e),
        x.len() > 0,
        x[x.len() - 1] == '\n',
        !x.contains('"'),
    ensures
        before_docs(after_last_line(u, marker, x), e, m2),
        has_sub(u, SWAGGER_OPEN@) ==> has_sub(after_last_line(u, marker, x), SWAGGER_OPEN@),
{
    reveal_strlit("\n");
    match find_last(u, marker) {
        Some(l) => match find_from(u, "\n"@, l) {
            Some(j) => {
                lemma_find_last_bounds(u, marker, u.len() - marker.len());
                lemma_find_from_bounds(u, "\n"@, l);
                assert(u[j] == '\n') by {
                    assert(u.subrange(j, j + 1)[0] == "\n"@[0]);
                }
                lemma_insert_keeps_before_docs(u, j + 1, x, e, m)
            },
            None => m,
        },
        None => m,
    }
}

proof fn lemma_construction_keeps(u: Seq<char>, s: Seq<char>, p: Seq<char>, e: Seq<char>, m: int) -> (m2: int)
    requires
        before_docs(u, e, m),
        plain_line(e),
        !s.contains('"'),
        !p.contains('"'),
    ensures
        before_docs(construction_phase(u, s, p), e, m2),
        has_sub(u, SWAGGER_OPEN@) ==> has_sub(construction_phase(u, s, p), SWAGGER_OPEN@),
{
    reveal_strlit(";\n");
    lemma_inserted_texts(s, p);
    let x = "\n"@ + construction_block(s, p) + "\n"@;
    match find_last(u, "let service"@) {
        Some(i) => match find_from(u, ";\n"@, i) {
            Some(j) => {
                lemma_find_last_bounds(u, "let service"@, u.len() - "let service"@.len());
                lemma_find_from_bounds(u, ";\n"@, i);
                assert(u[j + 1] == '\n') by {
                    assert(u.subrange(j, j + 2)[1] == ";\n"@[1]);
                }
                lemma_insert_keeps_before_docs(u, j + 2, x, e, m)
            },
            None => m,
        },
        None => m,
    }
}

proof fn lemma_doc_var_keeps(u: Seq<char>, s: Seq<char>, p: Seq<char>, e: Seq<char>, m: int) -> (m2: int)
    requires
        before_docs(u, e, m),
        plain_line(e),
        !s.contains('"'),
        !p.contains('"'),
    ensures
        before_docs(doc_var_phase(u, s, p), e, m2),
        has_sub(u, SWAGGER_OPEN@) ==> has_sub(doc_var_phase(u, s, p), SWAGGER_OPEN@),
{
    reveal_strlit("ApiDoc::openapi();");
    lemma_inserted_texts(s, p);
    let end = "ApiDoc::openapi();"@;
    match find_last(u, "let openapi"@) {
        Some(i) => match find_from(u, end, i) {
            Some(j) => {
                lemma_find_last_bounds(u, "let openapi"@, u.len() - "let openapi"@.len());
                lemma_find_from_bounds(u, end, i);
                assert(u[j + end.len() - 1] == ';') by {
                    assert(u.subrange(j, j + end.len())[end.len() - 1] == end[end.len() - 1]);
                }
                lemma_insert_keeps_before_docs(u, j + end.len(), doc_var_decl(s, p), e, m)
            },
            None => m,
        },
        None => m,
    }
}

/// The rebuilt documentation clause replaces text from the first clause on,
/// so it keeps what lies before every clause.
proof fn lemma_docs_keeps(u: Seq<char>, e: Seq<char>, m: int)
    requires
        before_docs(u, e, m),
    ensures
        occurs_at(docs_phase(u), e, m),
{
    match find_from(u, SWAGGER_OPEN@, 0) {
        Some(st) => match find_from(u, "))"@, st) {
            Some(en) => {
                lemma_find_from_bounds(u, SWAGGER_OPEN@, 0);
                lemma_find_from_bounds(u, "))"@, st);
                let r = docs_phase(u);
                if r != u {
                    assert(r.subrange(m, m + e.len()) =~= u.subrange(m, m + e.len()));
                }
            },
            None => {},
        },
        None => {},
    }
}

/// The route clause goes in at the start of the documentation clause, which
/// begins with a period; a text without periods is kept.
proof fn lemma_route_keeps(u: Seq<char>, s: Seq<char>, p: Seq<char>, e: Seq<char>, m: int)
    requires
        occurs_at(u, e, m),
        !e.contains('.'),
    ensures
        has_sub(route_phase(u, s, p), e),
{
    reveal_strlit(".merge(SwaggerUi::");
    match find_from(u, "let app = Router::new()"@, 0) {
        Some(a) => match find_from(u, SWAGGER_MERGE@, a) {
            Some(w) => {
                lemma_find_from_bounds(u, SWAGGER_MERGE@, a);
                assert(u[w] == '.') by {
                    assert(u.subrange(w, w + SWAGGER_MERGE@.len())[0] == SWAGGER_MERGE@[0]);
                }
                if m < w && w < m + e.len() {
                    assert(e[w - m] == u.subrange(m, m + e.len())[w - m]);
                }
                lemma_insert_keeps_occurrence(u, e, m, w, route_clause(s, p));
            },
            None => {},
        },
        None => {},
    }
}

/// Two plain lines in order, both before every documentation clause.
pub open spec fn ordered_before_docs(u: Seq<char>, e1: Seq<char>, m1: int, e2: Seq<char>, m2: int) -> bool {
    &&& before_docs(u, e1, m1)
    &&& before_docs(u, e2, m2)
    &&& m1 + e1.len() <= m2
}

proof fn lemma_insert_keeps_pair(
    u: Seq<char>,
    q: int,
    x: Seq<char>,
    e1: Seq<char>,
    m1: int,
    e2: Seq<char>,
    m2: int,
) -> (r: (int, int))
    requires
        ordered_before_docs(u, e1, m1, e2, m2),
        plain_line(e1),
        plain_line(e2),
        0 < q <= u.len(),
        u[q - 1] == '\n' || u[q - 1] == ';',
        x.len() > 0,
        x[x.len() - 1] == '\n' || x[x.len() - 1] == ';',
        !x.contains('"'),
    ensures
        ordered_before_docs(insert_at(u, q, x), e1, r.0, e2, r.1),
{
    let n1 = lemma_insert_keeps_before_docs(u, q, x, e1, m1);
    let n2 = lemma_insert_keeps_before_docs(u, q, x, e2, m2);
    // Each line either stays or moves right by the inserted length, as its
    // place relative to the insertion point says; so the order is kept.
    let a1 = if m1 + e1.len() <= q { m1 } else { m1 + x.len() };
    let a2 = if m2 + e2.len() <= q { m2 } else { m2 + x.len() };
    lemma_insert_keeps_occurrence(u, e1, m1, q, x);
    lemma_insert_keeps_occurrence(u, e2, m2, q, x);
    lemma_swagger_open_chars();
    assert(m1 + e1.len() <= q || q <= m1) by {
        if m1 < q && q < m1 + e1.len() {
            assert(e1[q - 1 - m1] == u.subrange(m1, m1 + e1.len())[q - 1 - m1]);
            if u[q - 1] == '\n' {
                assert(e1.contains('\n'));
            }
        }
    }
    assert(m2 + e2.len() <= q || q <= m2) by {
        if m2 < q && q < m2 + e2.len() {
            assert(e2[q - 1 - m2] == u.subrange(m2, m2 + e2.len())[q - 1 - m2]);
            if u[q - 1] == '\n' {
                assert(e2.contains('\n'));
            }
        }
    }
    let v = insert_at(u, q, x);
    assert forall|k: int| occurs_at(v, SWAGGER_OPEN@, k) implies a1 + e1.len() <= k
        && a2 + e2.len() <= k by {
        lemma_insert_occurrences(u, q, x, SWAGGER_OPEN@, '"', k);
    }
    (a1, a2)
}

proof fn lemma_after_line_keeps_pair_docs(
    u: Seq<char>,
    marker: Seq<char>,
    x: Seq<char>,
    e1: Seq<char>,
    m1: int,
    e2: Seq<char>,
    m2: int,
) -> (r: (int, int))
    requires
        ordered_before_docs(u, e1, m1, e2, m2),
        plain_line(e1),
        plain_line(e2),
        x.len() > 0,
        x[x.len() - 1] == '\n',
        !x.contains('"'),
    ensures
        ordered_before_docs(after_last_line(u, marker, x), e1, r.0, e2, r.1),
{
    reveal_strlit("\n");
    match find_last(u, marker) {
        Some(l) => match find_from(u, "\n"@, l) {
            Some(j) => {
                lemma_find_last_bounds(u, marker, u.len() - marker.len());
                lemma_find_from_bounds(u, "\n"@, l);
                assert(u[j] == '\n') by {
                    assert(u.subrange(j, j + 1)[0] == "\n"@[0]);
                }
                lemma_insert_keeps_pair(u, j + 1, x, e1, m1, e2, m2)
            },
            None => (m1, m2),
        },
        None => (m1, m2),
    }
}

proof fn lemma_construction_keeps_pair(
    u: Seq<char>,
    s: Seq<char>,
    p: Seq<char>,
    e1: Seq<char>,
    m1: int,
    e2: Seq<char>,
    m2: int,
) -> (r: (int, int))
    requires
        ordered_before_docs(u, e1, m1, e2, m2),
        plain_line(e1),
        plain_line(e2),
        !s.contains('"'),
        !p.contains('"'),
    ensures
        ordered_before_docs(construction_phase(u, s, p), e1, r.0, e2, r.1),
{
    reveal_strlit(";\n");
    lemma_inserted_texts(s, p);
    let x = "\n"@ + construction_block(s, p) + "\n"@;
    match find_last(u, "let service"@) {
        Some(i) => match find_from(u, ";\n"@, i) {
            Some(j) => {
                lemma_find_last_bounds(u, "let service"@, u.len() - "let service"@.len());
                lemma_find_from_bounds(u, ";\n"@, i);
                assert(u[j + 1] == '\n') by {
                    assert(u.subrange(j, j + 2)[1] == ";\n"@[1]);
                }
                lemma_insert_keeps_pair(u, j + 2, x, e1, m1, e2, m2)
            },
            None => (m1, m2),
        },
        None => (m1, m2),
    }
}

proof fn lemma_doc_var_keeps_pair(
    u: Seq<char>,
    s: Seq<char>,
    p: Seq<char>,
    e1: Seq<char>,
    m1: int,
    e2: Seq<char>,
    m2: int,
) -> (r: (int, int))
    requires
        ordered_before_docs(u, e1, m1, e2, m2),
        plain_line(e1),
        plain_line(e2),
        !s.contains('"'),
        !p.contains('"'),
    ensures
        ordered_before_docs(doc_var_phase(u, s, p), e1, r.0, e2, r.1),
{
    reveal_strlit("ApiDoc::openapi();");
    lemma_inserted_texts(s, p);
    let end = "ApiDoc::openapi();"@;
    match find_last(u, "let openapi"@) {
        Some(i) => match find_from(u, end, i) {
            Some(j) => {
                lemma_find_last_bounds(u, "let openapi"@, u.len() - "let openapi"@.len());
                lemma_find_from_bounds(u, end, i);
                assert(u[j + end.len() - 1] == ';') by {
                    assert(u.subrange(j, j + end.len())[end.len() - 1] == end[end.len() - 1]);
                }
                lemma_insert_keeps_pair(u, j + end.len(), doc_var_decl(s, p), e1, m1, e2, m2)
            },
            None => (m1, m2),
        },
        None => (m1, m2),
    }
}

proof fn lemma_route_keeps_pair(
    u: Seq<char>,
    s: Seq<char>,
    p: Seq<char>,
    e1: Seq<char>,
    m1: int,
    e2: Seq<char>,
    m2: int,
) -> (r: (int, int))
    requires
        occurs_at(u, e1, m1),
        occurs_at(u, e2, m2),
        m1 + e1.len() <= m2,
        !e1.contains('.'),
        !e2.contains('.'),
    ensures
        occurs_at(route_phase(u, s, p), e1, r.0),
        occurs_at(route_phase(u, s, p), e2, r.1),
        r.0 + e1.len() <= r.1,
{
    reveal_strlit(".merge(SwaggerUi::");
    match find_from(u, "let app = Router::new()"@, 0) {
        Some(a) => match find_from(u, SWAGGER_MERGE@, a) {
            Some(w) => {
                lemma_find_from_bounds(u, SWAGGER_MERGE@, a);
                assert(u[w] == '.') by {
                    assert(u.subrange(w, w + SWAGGER_MERGE@.len())[0] == SWAGGER_MERGE@[0]);
                }
                if m1 < w && w < m1 + e1.len() {
                    assert(e1[w - m1] == u.subrange(m1, m1 + e1.len())[w - m1]);
                }
                if m2 < w && w < m2 + e2.len() {
                    assert(e2[w - m2] == u.subrange(m2, m2 + e2.len())[w - m2]);
                }
                let x = route_clause(s, p);
                lemma_insert_keeps_occurrence(u, e1, m1, w, x);
                lemma_insert_keeps_occurrence(u, e2, m2, w, x);
                let a1 = if m1 + e1.len() <= w { m1 } else { m1 + x.len() };
                let a2 = if m2 + e2.len() <= w { m2 } else { m2 + x.len() };
                (a1, a2)
            },
            None => (m1, m2),
        },
        None => (m1, m2),
    }
}

/// A component name form fit for the lines the weaver writes: no line
/// break, period, quote or semicolon.
pub open spec fn plain_name(s: Seq<char>) -> bool {
    &&& !s.contains('\n')
    &&& !s.contains('.')
    &&& !s.contains('"')
    &&& !s.contains(';')
}

/// The texts that an incremental weave inserts hold no quote, and each ends
/// in a line break, except the documentation aggregate, which ends in a
/// semicolon.
proof fn lemma_inserted_texts(s: Seq<char>, p: Seq<char>)
    requires
        !s.contains('"'),
        !p.contains('"'),
    ensures
        !(handler_import(s, p) + "\n"@).contains('"'),
        (handler_import(s, p) + "\n"@).last() == '\n',
        !factory_import(s).contains('"'),
        factory_import(s).last() == '\n',
        !service_import(s, p).contains('"'),
        service_import(s, p).last() == '\n',
        !usecase_import(s, p).contains('"'),
        usecase_import(s, p).last() == '\n',
        !("\n"@ + construction_block(s, p) + "\n"@).contains('"'),
        ("\n"@ + construction_block(s, p) + "\n"@).last() == '\n',
        !doc_var_decl(s, p).contains('"'),
        doc_var_decl(s, p).last() == ';',
        (handler_import(s, p) + "\n"@).len() > 0,
        factory_import(s).len() > 0,
        service_import(s, p).len() > 0,
        usecase_import(s, p).len() > 0,
        ("\n"@ + construction_block(s, p) + "\n"@).len() > 0,
        doc_var_decl(s, p).len() > 0,
{
    let q = '"';
    reveal_strlit("\n");
    reveal_strlit("use handler::");
    reveal_strlit("_handler::{");
    reveal_strlit("Handler, ");
    reveal_strlit("ApiDoc};");
    let h = handler_import(s, p);
    lemma_concat_lacks("use handler::"@, s, q);
    lemma_concat_lacks("use handler::"@ + s, "_handler::{"@, q);
    lemma_concat_lacks("use handler::"@ + s + "_handler::{"@, p, q);
    lemma_concat_lacks("use handler::"@ + s + "_handler::{"@ + p, "Handler, "@, q);
    lemma_concat_lacks("use handler::"@ + s + "_handler::{"@ + p + "Handler, "@, p, q);
    lemma_concat_lacks("use handler::"@ + s + "_handler::{"@ + p + "Handler, "@ + p, "ApiDoc};"@, q);
    lemma_concat_lacks(h, "\n"@, q);
    reveal_strlit("use factory::");
    reveal_strlit("_factory;\n");
    lemma_concat_lacks("use factory::"@, s, q);
    lemma_concat_lacks("use factory::"@ + s, "_factory;\n"@, q);
    reveal_strlit("use service::");
    reveal_strlit("_service::");
    reveal_strlit("Service;\n");
    lemma_concat_lacks("use service::"@, s, q);
    lemma_concat_lacks("use service::"@ + s, "_service::"@, q);
    lemma_concat_lacks("use service::"@ + s + "_service::"@, p, q);
    lemma_concat_lacks("use service::"@ + s + "_service::"@ + p, "Service;\n"@, q);
    reveal_strlit("use usecase::");
    reveal_strlit("_usecase::");
    reveal_strlit("Usecase;\n");
    lemma_concat_lacks("use usecase::"@, s, q);
    lemma_concat_lacks("use usecase::"@ + s, "_usecase::"@, q);
    lemma_concat_lacks("use usecase::"@ + s + "_usecase::"@, p, q);
    lemma_concat_lacks("use usecase::"@ + s + "_usecase::"@ + p, "Usecase;\n"@, q);
    lemma_construction_block_lacks_quote(s, p);
    lemma_concat_lacks("\n"@, construction_block(s, p), q);
    lemma_concat_lacks("\n"@ + construction_block(s, p), "\n"@, q);
    reveal_strlit("\n    let openapi_");
    reveal_strlit(" = ");
    reveal_strlit("ApiDoc::openapi();");
    lemma_concat_lacks("\n    let openapi_"@, s, q);
    lemma_concat_lacks("\n    let openapi_"@ + s, " = "@, q);
    lemma_concat_lacks("\n    let openapi_"@ + s + " = "@, p, q);
    lemma_concat_lacks("\n    let openapi_"@ + s + " = "@ + p, "ApiDoc::openapi();"@, q);
}

proof fn lemma_construction_block_lacks_quote(s: Seq<char>, p: Seq<char>)
    requires
        !s.contains('"'),
        !p.contains('"'),
    ensures
        !construction_block(s, p).contains('"'),
{
    let q = '"';
    reveal_strlit("    let repository_");
    reveal_strlit(" = factory::");
    reveal_strlit("_factory::create_");
    reveal_strlit("_repository(&config).await?;\n    let usecase_");
    reveal_strlit(" = Arc::new(usecase::");
    reveal_strlit("_usecase::");
    reveal_strlit("Usecase::new(repository_");
    reveal_strlit("));\n    let service_");
    reveal_strlit(" = Arc::new(service::");
    reveal_strlit("_service::");
    reveal_strlit("Service::new(usecase_");
    reveal_strlit("));");
    let a0 = "    let repository_"@;
    let a1 = a0 + s;
    lemma_concat_lacks(a0, s, q);
    let a2 = a1 + " = factory::"@;
    lemma_concat_lacks(a1, " = factory::"@, q);
    let a3 = a2 + s;
    lemma_concat_lacks(a2, s, q);
    let a4 = a3 + "_factory::create_"@;
    lemma_concat_lacks(a3, "_factory::create_"@, q);
    let a5 = a4 + s;
    lemma_concat_lacks(a4, s, q);
    let a6 = a5 + "_repository(&config).await?;\n    let usecase_"@;
    lemma_concat_lacks(a5, "_repository(&config).await?;\n    let usecase_"@, q);
    let a7 = a6 + s;
    lemma_concat_lacks(a6, s, q);
    let a8 = a7 + " = Arc::new(usecase::"@;
    lemma_concat_lacks(a7, " = Arc::new(usecase::"@, q);
    let a9 = a8 + s;
    lemma_concat_lacks(a8, s, q);
    let a10 = a9 + "_usecase::"@;
    lemma_concat_lacks(a9, "_usecase::"@, q);
    let a11 = a10 + p;
    lemma_concat_lacks(a10, p, q);
    let a12 = a11 + "Usecase::new(repository_"@;
    lemma_concat_lacks(a11, "Usecase::new(repository_"@, q);
    let a13 = a12 + s;
    lemma_concat_lacks(a12, s, q);
    let a14 = a13 + "));\n    let service_"@;
    lemma_concat_lacks(a13, "));\n    let service_"@, q);
    let a15 = a14 + s;
    lemma_concat_lacks(a14, s, q);
    let a16 = a15 + " = Arc::new(service::"@;
    lemma_concat_lacks(a15, " = Arc::new(service::"@, q);
    let a17 = a16 + s;
    lemma_concat_lacks(a16, s, q);
    let a18 = a17 + "_service::"@;
    lemma_concat_lacks(a17, "_service::"@, q);
    let a19 = a18 + p;
    lemma_concat_lacks(a18, p, q);
    let a20 = a19 + "Service::new(usecase_"@;
    lemma_concat_lacks(a19, "Service::new(usecase_"@, q);
    let a21 = a20 + s;
    lemma_concat_lacks(a20, s, q);
    lemma_concat_lacks(a21, "));"@, q);
}

/// Weaving a component twice into a document that already imports handlers
/// gives the document that one weave gives, under either wiring, when the
/// document's placeholder entry function is gone, the line of its last
/// handler import ends before its documentation clause, and the name forms
/// are plain (without line break, period, quote or semicolon).
pub proof fn lemma_weave_idempotent_incremental(t: Seq<char>, name: Seq<char>, rich: bool)
    requires
        !has_sub(t, BANNER@),
        find_last(t, HANDLER_USE@) matches Some(l) && (find_from(t, "\n"@, l) matches Some(j)
            && forall|k: int| occurs_at(t, SWAGGER_OPEN@, k) ==> j < k),
        plain_name(snake_of(name)),
        plain_name(crate::generator::pascal_of(name)),
    ensures
        woven_text(woven_text(t, name, rich), name, rich) == woven_text(t, name, rich),
{
    let s = snake_of(name);
    let p = crate::generator::pascal_of(name);
    let mk = handler_import(s, p);
    if has_sub(t, mk) {
        lemma_weave_idempotent(t, name, rich);
    } else {
        reveal_strlit("\n");
        let hu = HANDLER_USE@;
        let l = find_last(t, hu)->0;
        let j = find_from(t, "\n"@, l)->0;
        lemma_find_last_bounds(t, hu, t.len() - hu.len());
        lemma_find_from_bounds(t, "\n"@, l);
        assert(has_sub(t, hu));
        lemma_handler_line_plain(s, p);
        lemma_inserted_texts(s, p);
        lemma_swagger_open_chars();
        assert(t[j] == '\n') by {
            assert(t.subrange(j, j + 1)[0] == "\n"@[0]);
        }
        let h = handler_import(s, p);
        let line = h + "\n"@;
        let q = j + 1;
        let t1 = insert_at(t, q, line);
        assert(after_last_line(t, hu, line) == t1);
        lemma_insert_keeps(t, q, line);
        assert(line.subrange(0, h.len() as int) =~= h);
        lemma_prefix_occurs(t1, line, h, q);
        assert forall|k: int| occurs_at(t1, SWAGGER_OPEN@, k) implies q + mk.len() <= k by {
            lemma_insert_occurrences(t, q, line, SWAGGER_OPEN@, '"', k);
        }
        assert(before_docs(t1, mk, q));
        if rich {
            let tc = layer_imports(t1, s, p);
            let mc = lemma_layer_imports_keep_before_docs(t1, s, p, mk, q);
            assert(import_phase(t, s, p, rich) == tc);
            let td = construction_phase(tc, s, p);
            let md = lemma_construction_keeps(tc, s, p, mk, mc);
            let te = doc_var_phase(td, s, p);
            let me = lemma_doc_var_keeps(td, s, p, mk, md);
            let tf = docs_phase(te);
            lemma_docs_keeps(te, mk, me);
            lemma_route_keeps(tf, s, p, mk, me);
            assert(weave_text(t, s, p, rich) == route_phase(tf, s, p));
        } else {
            assert(weave_text(t, s, p, rich) == t1);
        }
        lemma_weave_idempotent(t, name, rich);
    }
}

/// Arrival order and preservation of imports over a whole weave: weaving
/// component `name` into a document that already imports handlers keeps
/// each plain handler import line `e` that lies before the documentation
/// clause, verbatim, and writes the new handler import after it, under
/// either wiring. As for idempotence, the placeholder entry function is
/// gone, the line of the last handler import ends before the documentation
/// clause, and the name forms are plain.
pub proof fn lemma_weave_keeps_import_order(t: Seq<char>, name: Seq<char>, rich: bool, e: Seq<char>, a: int)
    requires
        !has_sub(t, BANNER@),
        find_last(t, HANDLER_USE@) matches Some(l) && (find_from(t, "\n"@, l) matches Some(j)
            && forall|k: int| occurs_at(t, SWAGGER_OPEN@, k) ==> j < k),
        plain_name(snake_of(name)),
        plain_name(crate::generator::pascal_of(name)),
        occurs_at(t, e, a),
        occurs_at(e, HANDLER_USE@, 0),
        plain_line(e),
        !has_sub(t, handler_import(snake_of(name), crate::generator::pascal_of(name))),
    ensures
        weave_of(t, name, rich) == Some(
            (
                WeaveMode::Incremental,
                weave_text(t, snake_of(name), crate::generator::pascal_of(name), rich),
            ),
        ),
        exists|b: int, c: int|
            occurs_at(
                weave_text(t, snake_of(name), crate::generator::pascal_of(name), rich),
                e,
                b,
            ) && occurs_at(
                weave_text(t, snake_of(name), crate::generator::pascal_of(name), rich),
                handler_import(snake_of(name), crate::generator::pascal_of(name)),
                c,
            ) && b + e.len() <= c,
{
    let s = snake_of(name);
    let p = crate::generator::pascal_of(name);
    reveal_strlit("\n");
    reveal_strlit("use handler::");
    let hu = HANDLER_USE@;
    let l = find_last(t, hu)->0;
    let j = find_from(t, "\n"@, l)->0;
    lemma_find_last_bounds(t, hu, t.len() - hu.len());
    lemma_find_from_bounds(t, "\n"@, l);
    assert(occurs_at(t, hu, a)) by {
        assert(t.subrange(a, a + hu.len()) =~= t.subrange(a, a + e.len()).subrange(0, hu.len() as int));
    }
    assert(has_sub(t, hu));
    lemma_inserted_texts(s, p);
    lemma_swagger_open_chars();
    assert(t[j] == '\n') by {
        assert(t.subrange(j, j + 1)[0] == "\n"@[0]);
    }
    let h = handler_import(s, p);
    lemma_handler_line_plain(s, p);
    let line = h + "\n"@;
    let q = j + 1;
    // The earlier line ends at or before the line break that ends the last
    // handler import line.
    if j < a + e.len() {
        assert(e[j - a] == t.subrange(a, a + e.len())[j - a]);
        assert(e.contains('\n'));
    }
    let t1 = insert_at(t, q, line);
    assert(after_last_line(t, hu, line) == t1);
    lemma_insert_keeps(t, q, line);
    lemma_insert_keeps_occurrence(t, e, a, q, line);
    assert(line.subrange(0, h.len() as int) =~= h);
    lemma_prefix_occurs(t1, line, h, q);
    assert forall|k: int| occurs_at(t1, SWAGGER_OPEN@, k) implies a + e.len() <= k && q + h.len() <= k by {
        lemma_insert_occurrences(t, q, line, SWAGGER_OPEN@, '"', k);
    }
    assert(ordered_before_docs(t1, e, a, h, q));
    if rich {
        let fi = factory_import(s);
        let si = service_import(s, p);
        let ui = usecase_import(s, p);
        let ta = if has_sub(t1, factory_marker(s)) {
            t1
        } else {
            after_last_line(t1, hu, fi)
        };
        let ra = if has_sub(t1, factory_marker(s)) {
            (a, q)
        } else {
            lemma_after_line_keeps_pair_docs(t1, hu, fi, e, a, h, q)
        };
        let tb = if has_sub(ta, service_marker(s)) {
            ta
        } else {
            after_last_line(ta, "use factory::"@, si)
        };
        let rb = if has_sub(ta, service_marker(s)) {
            ra
        } else {
            lemma_after_line_keeps_pair_docs(ta, "use factory::"@, si, e, ra.0, h, ra.1)
        };
        let tc = if has_sub(tb, usecase_marker(s)) {
            tb
        } else {
            after_last_line(tb, "use service::"@, ui)
        };
        let rc = if has_sub(tb, usecase_marker(s)) {
            rb
        } else {
            lemma_after_line_keeps_pair_docs(tb, "use service::"@, ui, e, rb.0, h, rb.1)
        };
        assert(import_phase(t, s, p, rich) == tc);
        let td = construction_phase(tc, s, p);
        let rd = lemma_construction_keeps_pair(tc, s, p, e, rc.0, h, rc.1);
        let te = doc_var_phase(td, s, p);
        let re = lemma_doc_var_keeps_pair(td, s, p, e, rd.0, h, rd.1);
        let tf = docs_phase(te);
        lemma_docs_keeps(te, e, re.0);
        lemma_docs_keeps(te, h, re.1);
        let rf = lemma_route_keeps_pair(tf, s, p, e, re.0, h, re.1);
        assert(weave_text(t, s, p, rich) == route_phase(tf, s, p));
        assert(occurs_at(weave_text(t, s, p, rich), e, rf.0) && occurs_at(
            weave_text(t, s, p, rich),
            h,
            rf.1,
        ) && rf.0 + e.len() <= rf.1);
    } else {
        assert(weave_text(t, s, p, rich) == t1);
        assert(occurs_at(weave_text(t, s, p, rich), e, a) && occurs_at(
            weave_text(t, s, p, rich),
            h,
            q,
        ) && a + e.len() <= q);
    }
    assert(mode_of(t) == WeaveMode::Incremental);
    assert(weave_of(t, name, rich) == Some((WeaveMode::Incremental, weave_text(t, s, p, rich))));
}

/// The handler import line of plain name forms is a plain line.
proof fn lemma_handler_line_plain(s: Seq<char>, p: Seq<char>)
    requires
        plain_name(s),
        plain_name(p),
    ensures
        plain_line(handler_import(s, p)),
{
    reveal_strlit("use handler::");
    reveal_strlit("_handler::{");
    reveal_strlit("Handler, ");
    reveal_strlit("ApiDoc};");
    let l0 = "use handler::"@;
    let l1 = "_handler::{"@;
    let l2 = "Handler, "@;
    let l3 = "ApiDoc}"@;
    reveal_strlit("ApiDoc}");
    assert("ApiDoc};"@ =~= l3 + seq![';']);
    let body = l0 + s + l1 + p + l2 + p + l3;
    assert(handler_import(s, p) =~= body + seq![';']);
    let cs = seq!['\n', '.', '"', ';'];
    assert forall|i: int| 0 <= i < 4 implies !body.contains(#[trigger] cs[i]) by {
        let c = cs[i];
        assert(!l0.contains(c) && !l1.contains(c) && !l2.contains(c) && !l3.contains(c));
        lemma_concat_lacks(l0, s, c);
        lemma_concat_lacks(l0 + s, l1, c);
        lemma_concat_lacks(l0 + s + l1, p, c);
        lemma_concat_lacks(l0 + s + l1 + p, l2, c);
        lemma_concat_lacks(l0 + s + l1 + p + l2, p, c);
        lemma_concat_lacks(l0 + s + l1 + p + l2 + p, l3, c);
    }
    assert(!body.contains(cs[0]) && !body.contains(cs[1]) && !body.contains(cs[2]) && !body.contains(cs[3]));
    let h = handler_import(s, p);
    assert forall|i: int| 0 <= i < h.len() - 1 implies h[i] != ';' by {
        assert(h[i] == body[i]);
    }
    assert(!h.contains('\n')) by {
        if h.contains('\n') {
            let k = choose|k: int| 0 <= k < h.len() && h[k] == '\n';
            if k < body.len() {
                assert(body[k] == '\n');
            }
        }
    }
    assert(!h.contains('.')) by {
        if h.contains('.') {
            let k = choose|k: int| 0 <= k < h.len() && h[k] == '.';
            if k < body.len() {
                assert(body[k] == '.');
            }
        }
    }
    assert(!h.contains('"')) by {
        if h.contains('"') {
            let k = choose|k: int| 0 <= k < h.len() && h[k] == '"';
            if k < body.len() {
                assert(body[k] == '"');
            }
        }
    }
}

// ----- the first weave -----

/// Replacing every occurrence scans from the left: up to the first
/// occurrence nothing changes, and the first occurrence is replaced.
proof fn lemma_replace_all_first(t: Seq<char>, p: Seq<char>, r: Seq<char>, i: int)
    requires
        p.len() > 0,
        find_from(t, p, 0) == Some(i),
    ensures
        replace_all(t, p, r) == t.subrange(0, i) + r + replace_all(
            t.subrange(i + p.len(), t.len() as int),
            p,
            r,
        ),
    decreases i,
{
    lemma_find_from_bounds(t, p, 0);
    if i == 0 {
        assert(t.subrange(0, p.len() as int) == p);
        assert(t.subrange(0, 0) + r =~= r);
    } else {
        let rest = t.subrange(1, t.len() as int);
        assert(!occurs_at(t, p, 0));
        assert(t.subrange(0, p.len() as int) != p);
        lemma_find_from_bounds(rest, p, 0);
        assert forall|k: int| 0 <= k < i - 1 implies !occurs_at(rest, p, k) by {
            if occurs_at(rest, p, k) {
                assert(t.subrange(k + 1, k + 1 + p.len()) =~= rest.subrange(k, k + p.len()));
                assert(occurs_at(t, p, k + 1));
            }
        }
        assert(occurs_at(rest, p, i - 1)) by {
            assert(t.subrange(i, i + p.len()) =~= rest.subrange(i - 1, i - 1 + p.len()));
        }
        lemma_find_from_first(rest, p, i - 1);
        lemma_replace_all_first(rest, p, r, i - 1);
        assert(rest.subrange(i - 1 + p.len(), rest.len() as int) =~= t.subrange(
            i + p.len(),
            t.len() as int,
        ));
        assert(seq![t[0]] + rest.subrange(0, i - 1) =~= t.subrange(0, i));
    }
}

/// An occurrence with none before it is the one that the search from the
/// start finds.
proof fn lemma_find_from_first(t: Seq<char>, p: Seq<char>, i: int)
    requires
        occurs_at(t, p, i),
        forall|k: int| 0 <= k < i ==> !occurs_at(t, p, k),
    ensures
        find_from(t, p, 0) == Some(i),
{
    lemma_find_from_bounds(t, p, 0);
    match find_from(t, p, 0) {
        Some(j) => {
            if j > i {
                assert(!occurs_at(t, p, i));
            }
        },
        None => {
            assert(!occurs_at(t, p, i));
        },
    }
}

/// The first import block holds no `#` when the name forms hold none.
proof fn lemma_bootstrap_imports_lack_hash(s: Seq<char>, p: Seq<char>, rich: bool)
    requires
        !s.contains('#'),
        !p.contains('#'),
    ensures
        !bootstrap_imports(s, p, rich).contains('#'),
        bootstrap_imports(s, p, rich).len() >= 2,
        bootstrap_imports(s, p, rich)[0] == 'm',
        bootstrap_imports(s, p, rich)[1] == 'o',
{
    let c = '#';
    reveal_strlit("mod handler;\n\nuse axum::Router;\nuse std::sync::Arc;\nuse tokio::net::TcpListener;\nuse utoipa::OpenApi;\nuse utoipa_swagger_ui::SwaggerUi;\n");
    reveal_strlit("\nuse config::database::DatabaseConfig;\n");
    reveal_strlit("use handler::");
    reveal_strlit("_handler::{");
    reveal_strlit("Handler, ");
    reveal_strlit("ApiDoc};");
    reveal_strlit("use factory::");
    reveal_strlit("_factory;\n");
    reveal_strlit("use service::");
    reveal_strlit("_service::");
    reveal_strlit("Service;\n");
    reveal_strlit("use usecase::");
    reveal_strlit("_usecase::");
    reveal_strlit("Usecase;\n");
    let base = crate::weaver::IMPORTS_BASE@;
    let config = crate::weaver::IMPORTS_CONFIG@;
    assert(!base.contains(c));
    assert(!config.contains(c));
    let h0 = "use handler::"@;
    let h1 = "_handler::{"@;
    let h2 = "Handler, "@;
    let h3 = "ApiDoc};"@;
    assert(!h0.contains(c) && !h1.contains(c) && !h2.contains(c) && !h3.contains(c));
    lemma_concat_lacks(h0, s, c);
    lemma_concat_lacks(h0 + s, h1, c);
    lemma_concat_lacks(h0 + s + h1, p, c);
    lemma_concat_lacks(h0 + s + h1 + p, h2, c);
    lemma_concat_lacks(h0 + s + h1 + p + h2, p, c);
    lemma_concat_lacks(h0 + s + h1 + p + h2 + p, h3, c);
    let h = handler_import(s, p);
    if rich {
        let f0 = "use factory::"@;
        let f1 = "_factory;\n"@;
        assert(!f0.contains(c) && !f1.contains(c));
        lemma_concat_lacks(f0, s, c);
        lemma_concat_lacks(f0 + s, f1, c);
        let s0 = "use service::"@;
        let s1 = "_service::"@;
        let s2 = "Service;\n"@;
        assert(!s0.contains(c) && !s1.contains(c) && !s2.contains(c));
        lemma_concat_lacks(s0, s, c);
        lemma_concat_lacks(s0 + s, s1, c);
        lemma_concat_lacks(s0 + s + s1, p, c);
        lemma_concat_lacks(s0 + s + s1 + p, s2, c);
        let u0 = "use usecase::"@;
        let u1 = "_usecase::"@;
        let u2 = "Usecase;\n"@;
        assert(!u0.contains(c) && !u1.contains(c) && !u2.contains(c));
        lemma_concat_lacks(u0, s, c);
        lemma_concat_lacks(u0 + s, u1, c);
        lemma_concat_lacks(u0 + s + u1, p, c);
        lemma_concat_lacks(u0 + s + u1 + p, u2, c);
        let fi = factory_import(s);
        let si = service_import(s, p);
        let ui = usecase_import(s, p);
        lemma_concat_lacks(base, config, c);
        lemma_concat_lacks(base + config, fi, c);
        lemma_concat_lacks(base + config + fi, si, c);
        lemma_concat_lacks(base + config + fi + si, ui, c);
        lemma_concat_lacks(base + config + fi + si + ui, h, c);
    } else {
        lemma_concat_lacks(base, h, c);
    }
}

/// Weaving a component twice into a document that imports no handler yet
/// and still has its placeholder entry function gives the document that one
/// weave gives, under either wiring, when the first module declaration ends
/// before every entry-function attribute and the name forms hold no `#`.
pub proof fn lemma_weave_idempotent_bootstrap(t: Seq<char>, name: Seq<char>, rich: bool)
    requires
        !has_sub(t, HANDLER_USE@),
        has_sub(t, BANNER@),
        find_from(t, MOD_HANDLER@, 0) matches Some(i) && forall|k: int|
            occurs_at(t, "#[tokio::main]"@, k) ==> i + MOD_HANDLER@.len() <= k,
        !snake_of(name).contains('#'),
        !crate::generator::pascal_of(name).contains('#'),
    ensures
        woven_text(woven_text(t, name, rich), name, rich) == woven_text(t, name, rich),
{
    let s = snake_of(name);
    let p = crate::generator::pascal_of(name);
    let mk = handler_import(s, p);
    if has_sub(t, mk) {
        lemma_weave_idempotent(t, name, rich);
    } else {
        reveal_strlit("mod handler;");
        reveal_strlit("#[tokio::main]");
        let mh = MOD_HANDLER@;
        let tm = "#[tokio::main]"@;
        let i = find_from(t, mh, 0)->0;
        lemma_find_from_bounds(t, mh, 0);
        let block = bootstrap_imports(s, p, rich);
        lemma_bootstrap_imports_lack_hash(s, p, rich);
        let rest = replace_all(t.subrange(i + mh.len(), t.len() as int), mh, block);
        lemma_replace_all_first(t, mh, block, i);
        let t1 = t.subrange(0, i) + block + rest;
        assert(import_phase(t, s, p, rich) == t1);
        assert(occurs_at(t1, block, i)) by {
            assert(t1.subrange(i, i + block.len()) =~= block);
        }
        // No entry-function attribute starts before the end of the block.
        assert forall|k: int| occurs_at(t1, tm, k) implies i + block.len() <= k by {
            if k < i + block.len() {
                if k >= i {
                    assert(t1[k] == block[k - i]);
                    assert(tm[0] == '#');
                    assert(t1.subrange(k, k + tm.len())[0] == tm[0]);
                    assert(block.contains('#'));
                } else if k + tm.len() <= i {
                    assert(t.subrange(k, k + tm.len()) =~= t1.subrange(k, k + tm.len()));
                    assert(occurs_at(t, tm, k));
                } else {
                    let d = i - k;
                    assert(t1.subrange(k, k + tm.len())[d] == t1[i]);
                    assert(t1[i] == block[0]);
                    assert(tm[d] == 'm');
                    assert(d == 9);
                    assert(t1.subrange(k, k + tm.len())[10] == t1[i + 1]);
                    assert(t1[i + 1] == block[1]);
                }
            }
        }
        let r = main_phase(t1, s, p, rich);
        match find_from(t1, tm, 0) {
            Some(st) => {
                lemma_find_from_bounds(t1, tm, 0);
                match find_from(t1, "\n}\n"@, st) {
                    Some(en) => {
                        lemma_find_from_bounds(t1, "\n}\n"@, st);
                        assert(r.subrange(i, i + block.len()) =~= block);
                        assert(occurs_at(r, block, i));
                    },
                    None => {},
                }
            },
            None => {},
        }
        assert(occurs_at(r, block, i));
        assert(weave_text(t, s, p, rich) == r);
        let h = handler_import(s, p);
        assert(occurs_at(r, h, i + block.len() - h.len())) by {
            assert(block.subrange(block.len() - h.len(), block.len() as int) =~= h);
            assert(r.subrange(i + block.len() - h.len(), i + block.len()) =~= block.subrange(
                block.len() - h.len(),
                block.len() as int,
            ));
        }
        lemma_weave_idempotent(t, name, rich);
    }
}

/// The route table's constructor.
pub open spec fn route_table_head() -> Seq<char> {
    "let app = Router::new()"@
}

/// Routes before documentation over a whole weave: under the richer wiring,
/// weaving a new component into a document that already imports handlers,
/// whose route table starts before its documentation clause, puts the new
/// route-merge clause directly in front of the documentation-serving clause,
/// which so stays the last clause of the route table. The placeholder entry
/// function is gone and the name forms hold no quote.
pub proof fn lemma_weave_route_before_docs(t: Seq<char>, name: Seq<char>, a: int)
    requires
        has_sub(t, HANDLER_USE@),
        !has_sub(t, BANNER@),
        !has_sub(t, handler_import(snake_of(name), crate::generator::pascal_of(name))),
        before_docs(t, route_table_head(), a),
        has_sub(t, SWAGGER_OPEN@),
        !snake_of(name).contains('"'),
        !crate::generator::pascal_of(name).contains('"'),
    ensures
        weave_of(t, name, true) == Some(
            (
                WeaveMode::Incremental,
                weave_text(t, snake_of(name), crate::generator::pascal_of(name), true),
            ),
        ),
        exists|w: int|
            occurs_at(
                weave_text(t, snake_of(name), crate::generator::pascal_of(name), true),
                route_clause(snake_of(name), crate::generator::pascal_of(name)) + SWAGGER_MERGE@,
                w,
            ),
{
    let s = snake_of(name);
    let p = crate::generator::pascal_of(name);
    let la = route_table_head();
    reveal_strlit("let app = Router::new()");
    assert(plain_line(la)) by {
        assert(!la.contains('\n') && !la.contains('.') && !la.contains('"'));
        assert(forall|i: int| 0 <= i < la.len() - 1 ==> la[i] != ';');
    }
    lemma_inserted_texts(s, p);
    lemma_swagger_open_chars();
    let tc = import_phase(t, s, p, true);
    let mc = lemma_import_phase_keeps(t, s, p, true, la, a);
    let td = construction_phase(tc, s, p);
    let md = lemma_construction_keeps(tc, s, p, la, mc);
    let te = doc_var_phase(td, s, p);
    let me = lemma_doc_var_keeps(td, s, p, la, md);
    let tf = docs_phase(te);
    lemma_docs_keeps(te, la, me);
    // The documentation-serving clause still starts where the first
    // documentation clause started.
    let sm = SWAGGER_MERGE@;
    lemma_has_sub_find(te, SWAGGER_OPEN@);
    let st = find_from(te, SWAGGER_OPEN@, 0)->0;
    lemma_find_from_bounds(te, SWAGGER_OPEN@, 0);
    assert(me + la.len() <= st);
    lemma_docs_clause_stays(te, st);
    // The route table head is found at or before its known place, and the
    // documentation clause after it.
    lemma_has_sub_find(tf, la);
    let a2 = find_from(tf, la, 0)->0;
    lemma_find_from_bounds(tf, la, 0);
    assert(a2 <= me);
    lemma_find_from_bounds(tf, sm, a2);
    assert(find_from(tf, sm, a2) is Some);
    lemma_route_before_docs(tf, s, p);
    assert(weave_text(t, s, p, true) == route_phase(tf, s, p));
    assert(mode_of(t) == WeaveMode::Incremental);
}

/// The incremental import phase of the richer wiring inserts whole lines
/// only, so it keeps a plain line that lies before every documentation
/// clause before them, and keeps the clauses.
proof fn lemma_import_phase_keeps(t: Seq<char>, s: Seq<char>, p: Seq<char>, rich: bool, e: Seq<char>, m: int) -> (m2: int)
    requires
        has_sub(t, HANDLER_USE@),
        before_docs(t, e, m),
        plain_line(e),
        !s.contains('"'),
        !p.contains('"'),
    ensures
        before_docs(import_phase(t, s, p, rich), e, m2),
        has_sub(t, SWAGGER_OPEN@) ==> has_sub(import_phase(t, s, p, rich), SWAGGER_OPEN@),
{
    lemma_inserted_texts(s, p);
    let line = handler_import(s, p) + "\n"@;
    let t1 = after_last_line(t, HANDLER_USE@, line);
    let m1 = lemma_after_line_keeps_before_docs(t, HANDLER_USE@, line, e, m);
    if rich {
        lemma_layer_imports_keep_before_docs(t1, s, p, e, m1)
    } else {
        m1
    }
}

/// The layer imports insert whole lines only, so they keep a plain line that
/// lies before every documentation clause before them, and keep the clauses.
proof fn lemma_layer_imports_keep_before_docs(t1: Seq<char>, s: Seq<char>, p: Seq<char>, e: Seq<char>, m1: int) -> (m2: int)
    requires
        before_docs(t1, e, m1),
        plain_line(e),
        !s.contains('"'),
        !p.contains('"'),
    ensures
        before_docs(layer_imports(t1, s, p), e, m2),
        has_sub(t1, SWAGGER_OPEN@) ==> has_sub(layer_imports(t1, s, p), SWAGGER_OPEN@),
{
    lemma_inserted_texts(s, p);
    let hu = HANDLER_USE@;
    let fi = factory_import(s);
    let si = service_import(s, p);
    let ui = usecase_import(s, p);
    let ta = if has_sub(t1, factory_marker(s)) {
        t1
    } else {
        after_last_line(t1, hu, fi)
    };
    let ma = if has_sub(t1, factory_marker(s)) {
        m1
    } else {
        lemma_after_line_keeps_before_docs(t1, hu, fi, e, m1)
    };
    let tb = if has_sub(ta, service_marker(s)) {
        ta
    } else {
        after_last_line(ta, "use factory::"@, si)
    };
    let mb = if has_sub(ta, service_marker(s)) {
        ma
    } else {
        lemma_after_line_keeps_before_docs(ta, "use factory::"@, si, e, ma)
    };
    if has_sub(tb, usecase_marker(s)) {
        mb
    } else {
        lemma_after_line_keeps_before_docs(tb, "use service::"@, ui, e, mb)
    }
}

/// Preservation of earlier wiring: an incremental weave keeps, verbatim,
/// every plain line that lies before the documentation clause (such as the
/// handler imports, the documentation aggregates and the service statements
/// of components woven before), under either wiring, when the placeholder
/// entry function is gone and the name forms hold no quote.
pub proof fn lemma_weave_keeps_plain_lines(t: Seq<char>, name: Seq<char>, rich: bool, e: Seq<char>, m: int)
    requires
        has_sub(t, HANDLER_USE@),
        !has_sub(t, BANNER@),
        before_docs(t, e, m),
        plain_line(e),
        !snake_of(name).contains('"'),
        !crate::generator::pascal_of(name).contains('"'),
    ensures
        has_sub(woven_text(t, name, rich), e),
{
    let s = snake_of(name);
    let p = crate::generator::pascal_of(name);
    if !has_sub(t, handler_import(s, p)) {
        let tc = import_phase(t, s, p, rich);
        let mc = lemma_import_phase_keeps(t, s, p, rich, e, m);
        if rich {
            let td = construction_phase(tc, s, p);
            let md = lemma_construction_keeps(tc, s, p, e, mc);
            let te = doc_var_phase(td, s, p);
            let me = lemma_doc_var_keeps(td, s, p, e, md);
            lemma_docs_keeps(te, e, me);
            lemma_route_keeps(docs_phase(te), s, p, e, me);
        }
    }
}

/// The rebuilt documentation clause starts where the first documentation
/// clause started.
proof fn lemma_docs_clause_stays(te: Seq<char>, st: int)
    requires
        find_from(te, SWAGGER_OPEN@, 0) == Some(st),
    ensures
        occurs_at(docs_phase(te), SWAGGER_MERGE@, st),
{
    reveal_strlit(".merge(SwaggerUi::");
    reveal_strlit(".merge(SwaggerUi::new(\"/swagger-ui\")");
    let sm = SWAGGER_MERGE@;
    let so = SWAGGER_OPEN@;
    let tf = docs_phase(te);
    assert(so.subrange(0, sm.len() as int) =~= sm);
    lemma_find_from_bounds(te, so, 0);
    match find_from(te, "))"@, st) {
        Some(en) => {
            lemma_find_from_bounds(te, "))"@, st);
            if tf != te {
                let y = so + url_list_of(te) + ")"@;
                assert(tf == splice(te, st, en + 2, y));
                assert(tf.subrange(st, st + sm.len()) =~= y.subrange(0, sm.len() as int));
                assert(y.subrange(0, sm.len() as int) =~= so.subrange(0, sm.len() as int));
            } else {
                lemma_prefix_occurs(te, so, sm, st);
            }
        },
        None => {
            lemma_prefix_occurs(te, so, sm, st);
        },
    }
}

/// The registrations of every aggregate declared in `u`.
spec fn url_list_of(u: Seq<char>) -> Seq<char> {
    crate::weaver::url_list(u, crate::weaver::doc_vars_from(u, 0))
}

} // verus!
