//! Serialized forms of the query builder's operators, checked against
//! hand-written reference bytes.
use reql_driver::ast::{term, Ast};
use reql_driver::concatenator::Concatenator;
use reql_driver::json::to_json;
use reql_driver::query::{
    args, db, db_create, db_drop, db_list, expr, AnyOut, MaxVal, MinVal, Null, NullOr, NumberOut,
    StringOut, VarSource,
};

fn json_of<OutT, OptsT>(q: reql_driver::query::Expr<OutT, OptsT>) -> Vec<u8> {
    to_json(&q.ast)
}

#[test]
fn datum_forms() {
    assert_eq!(json_of(expr(Null)), b"null".to_vec());
    assert_eq!(json_of(expr(true)), b"true".to_vec());
    assert_eq!(json_of(expr(false)), b"false".to_vec());
    assert_eq!(json_of(expr(30u64)), b"30".to_vec());
    assert_eq!(json_of(expr(0u32)), b"0".to_vec());
    assert_eq!(json_of(expr(-17i64)), b"-17".to_vec());
    assert_eq!(json_of(expr(i64::MIN)), b"-9223372036854775808".to_vec());
    assert_eq!(json_of(expr("plain")), b"\"plain\"".to_vec());
    assert_eq!(json_of(expr(String::from("owned"))), b"\"owned\"".to_vec());
}

#[test]
fn string_escaping() {
    assert_eq!(json_of(expr("a\"b")), b"\"a\\\"b\"".to_vec());
    assert_eq!(json_of(expr("a\\b")), b"\"a\\\\b\"".to_vec());
    assert_eq!(json_of(expr("a\nb\tc\rd")), b"\"a\\nb\\tc\\rd\"".to_vec());
    assert_eq!(json_of(expr("\u{08}\u{0c}")), b"\"\\b\\f\"".to_vec());
    assert_eq!(json_of(expr("\u{01}")), b"\"\\u0001\"".to_vec());
    assert_eq!(json_of(expr("\u{1f}")), b"\"\\u001f\"".to_vec());
    // Non-ASCII passes through as UTF-8.
    assert_eq!(json_of(expr("é")), "\"é\"".as_bytes().to_vec());
}

#[test]
fn tuples_and_arrays_make_arrays() {
    assert_eq!(json_of(expr((1u64,))), b"[2,[1]]".to_vec());
    assert_eq!(json_of(expr((1u64, "a"))), b"[2,[1,\"a\"]]".to_vec());
    assert_eq!(json_of(expr((1u64, "a", true))), b"[2,[1,\"a\",true]]".to_vec());
    assert_eq!(json_of(expr([1u64, 2, 3])), b"[2,[1,2,3]]".to_vec());
    assert_eq!(json_of(expr(["x", "y"])), b"[2,[\"x\",\"y\"]]".to_vec());
    let empty: [u64; 0] = [];
    assert_eq!(json_of(expr(empty)), b"[2,[]]".to_vec());
}

#[test]
fn min_max_val_forms() {
    // With both ends open-ended the key category is told explicitly.
    let q = db("d").table("t").between::<MinVal, MaxVal, StringOut>(MinVal, MaxVal);
    assert_eq!(
        json_of(q),
        b"[182,[[15,[[14,[\"d\"]],\"t\"]],[180],[181]]]".to_vec()
    );
}

#[test]
fn database_and_table_management() {
    assert_eq!(json_of(db("blog")), b"[14,[\"blog\"]]".to_vec());
    assert_eq!(json_of(db_create("blog")), b"[57,[\"blog\"]]".to_vec());
    assert_eq!(json_of(db_drop("blog")), b"[58,[\"blog\"]]".to_vec());
    assert_eq!(json_of(db_list()), b"[59,[]]".to_vec());
    assert_eq!(json_of(db("d").table("t")), b"[15,[[14,[\"d\"]],\"t\"]]".to_vec());
    assert_eq!(
        json_of(db("d").table_create("t")),
        b"[60,[[14,[\"d\"]],\"t\"]]".to_vec()
    );
    assert_eq!(json_of(db("d").table_drop("t")), b"[61,[[14,[\"d\"]],\"t\"]]".to_vec());
    assert_eq!(json_of(db("d").table_list()), b"[62,[[14,[\"d\"]]]]".to_vec());
}

#[test]
fn index_management() {
    let t = || db("d").table("t");
    assert_eq!(
        json_of(t().index_create("i")),
        b"[75,[[15,[[14,[\"d\"]],\"t\"]],\"i\"]]".to_vec()
    );
    assert_eq!(
        json_of(t().index_drop("i")),
        b"[76,[[15,[[14,[\"d\"]],\"t\"]],\"i\"]]".to_vec()
    );
    assert_eq!(json_of(db("d").index_list()), b"[77,[[14,[\"d\"]]]]".to_vec());
    assert_eq!(
        json_of(t().index_rename("a", "b")),
        b"[156,[[15,[[14,[\"d\"]],\"t\"]],\"a\",\"b\"]]".to_vec()
    );
    assert_eq!(
        json_of(t().index_status("i")),
        b"[139,[[15,[[14,[\"d\"]],\"t\"]],\"i\"]]".to_vec()
    );
    assert_eq!(
        json_of(t().index_wait("i")),
        b"[140,[[15,[[14,[\"d\"]],\"t\"]],\"i\"]]".to_vec()
    );
}

#[test]
fn selection_and_writes() {
    let t = || db("d").table("t");
    assert_eq!(
        json_of(t().get("k")),
        b"[16,[[15,[[14,[\"d\"]],\"t\"]],\"k\"]]".to_vec()
    );
    assert_eq!(
        json_of(t().get(5u64)),
        b"[16,[[15,[[14,[\"d\"]],\"t\"]],5]]".to_vec()
    );
    assert_eq!(json_of(t().delete()), b"[54,[[15,[[14,[\"d\"]],\"t\"]]]]".to_vec());
    assert_eq!(json_of(t().sync()), b"[138,[[15,[[14,[\"d\"]],\"t\"]]]]".to_vec());
    assert_eq!(
        json_of(t().insert(t().get("k").as_object())),
        b"[56,[[15,[[14,[\"d\"]],\"t\"]],[16,[[15,[[14,[\"d\"]],\"t\"]],\"k\"]]]]".to_vec()
    );
    assert_eq!(
        json_of(t().update(t().get("k").as_object())),
        b"[53,[[15,[[14,[\"d\"]],\"t\"]],[16,[[15,[[14,[\"d\"]],\"t\"]],\"k\"]]]]".to_vec()
    );
    let mut vars = VarSource::new();
    let row = vars.fresh();
    assert_eq!(
        json_of(t().update_with(row, expr(row).as_object())),
        b"[53,[[15,[[14,[\"d\"]],\"t\"]],[69,[[2,[0]],[10,[0]]]]]]".to_vec()
    );
}

#[test]
fn get_all_reference_form() {
    // The reference form: db("d").table("t").get_all("k").in_index("i").
    let q = db("d").table("t").get_all("k").in_index("i");
    assert_eq!(
        json_of(q),
        b"[78,[[15,[[14,[\"d\"]],\"t\"]],\"k\"],{\"index\":\"i\"}]".to_vec()
    );
}

#[test]
fn get_all_spliced_arguments() {
    let q = db("d").table("t").get_all(args(("k1", "k2")));
    assert_eq!(
        json_of(q),
        b"[78,[[15,[[14,[\"d\"]],\"t\"]],[154,[[2,[\"k1\",\"k2\"]]]]]]".to_vec()
    );
}

#[test]
fn between_reference_form() {
    let q = db("d")
        .table("t")
        .between(MinVal, "B")
        .in_index("a")
        .with_right_bound("open");
    assert_eq!(
        json_of(q),
        b"[182,[[15,[[14,[\"d\"]],\"t\"]],[180],\"B\"],{\"index\":\"a\",\"right_bound\":\"open\"}]"
            .to_vec()
    );
}

#[test]
fn between_all_bounds_in_any_order() {
    let q = db("d")
        .table("t")
        .between("A", "B")
        .with_right_bound("open")
        .with_left_bound("closed")
        .in_index("i");
    // Options always serialize in the order index, left_bound, right_bound.
    assert_eq!(
        json_of(q),
        b"[182,[[15,[[14,[\"d\"]],\"t\"]],\"A\",\"B\"],{\"index\":\"i\",\"left_bound\":\"closed\",\"right_bound\":\"open\"}]"
            .to_vec()
    );
}

#[test]
fn sequence_operators() {
    let t = || db("d").table("t");
    assert_eq!(
        json_of(t().skip(2u64)),
        b"[70,[[15,[[14,[\"d\"]],\"t\"]],2]]".to_vec()
    );
    assert_eq!(
        json_of(t().limit(1u64)),
        b"[71,[[15,[[14,[\"d\"]],\"t\"]],1]]".to_vec()
    );
    assert_eq!(
        json_of(t().slice_after(3u64)),
        b"[30,[[15,[[14,[\"d\"]],\"t\"]],3]]".to_vec()
    );
    assert_eq!(
        json_of(t().slice(1u64, 4u64)),
        b"[30,[[15,[[14,[\"d\"]],\"t\"]],1,4]]".to_vec()
    );
    assert_eq!(
        json_of(t().nth(0u64)),
        b"[45,[[15,[[14,[\"d\"]],\"t\"]],0]]".to_vec()
    );
    assert_eq!(json_of(t().is_empty()), b"[86,[[15,[[14,[\"d\"]],\"t\"]]]]".to_vec());
    assert_eq!(json_of(t().distinct()), b"[42,[[15,[[14,[\"d\"]],\"t\"]]]]".to_vec());
    assert_eq!(json_of(t().zip()), b"[72,[[15,[[14,[\"d\"]],\"t\"]]]]".to_vec());
    assert_eq!(json_of(t().min()), b"[147,[[15,[[14,[\"d\"]],\"t\"]]]]".to_vec());
    assert_eq!(json_of(t().max()), b"[148,[[15,[[14,[\"d\"]],\"t\"]]]]".to_vec());
    assert_eq!(json_of(expr([1u64, 2]).sum()), b"[145,[[2,[1,2]]]]".to_vec());
    assert_eq!(json_of(expr([1u64, 2]).avg()), b"[146,[[2,[1,2]]]]".to_vec());
    assert_eq!(
        json_of(expr([1u64, 2]).contains(3u64)),
        b"[93,[[2,[1,2]],3]]".to_vec()
    );
    assert_eq!(
        json_of(t().with_fields("a")),
        b"[96,[[15,[[14,[\"d\"]],\"t\"]],\"a\"]]".to_vec()
    );
    assert_eq!(
        json_of(t().with_fields(args(("a", "b")))),
        b"[96,[[15,[[14,[\"d\"]],\"t\"]],[154,[[2,[\"a\",\"b\"]]]]]]".to_vec()
    );
}

#[test]
fn field_access() {
    let t = || db("d").table("t");
    assert_eq!(
        json_of(t().get("k").get_field("f")),
        b"[31,[[16,[[15,[[14,[\"d\"]],\"t\"]],\"k\"]],\"f\"]]".to_vec()
    );
    assert_eq!(
        json_of(t().get("k").g("f")),
        b"[31,[[16,[[15,[[14,[\"d\"]],\"t\"]],\"k\"]],\"f\"]]".to_vec()
    );
    assert_eq!(
        json_of(t().get("k").get_object("f")),
        b"[31,[[16,[[15,[[14,[\"d\"]],\"t\"]],\"k\"]],\"f\"]]".to_vec()
    );
    // On a table, field access distributes over the selection.
    assert_eq!(
        json_of(t().get_field("f")),
        b"[31,[[15,[[14,[\"d\"]],\"t\"]],\"f\"]]".to_vec()
    );
}

#[test]
fn arithmetic_logic_and_comparison() {
    assert_eq!(json_of(expr(1u64).add(2u64)), b"[24,[1,2]]".to_vec());
    assert_eq!(json_of(expr("a").add("b")), b"[24,[\"a\",\"b\"]]".to_vec());
    assert_eq!(
        json_of(expr([1u64, 2]).add([3u64, 4])),
        b"[24,[[2,[1,2]],[2,[3,4]]]]".to_vec()
    );
    assert_eq!(json_of(expr(5u64).sub(2u64)), b"[25,[5,2]]".to_vec());
    assert_eq!(json_of(expr(5u64).mul(2u64)), b"[26,[5,2]]".to_vec());
    assert_eq!(json_of(expr(5u64).div(2u64)), b"[27,[5,2]]".to_vec());
    assert_eq!(json_of(expr(5u64).modulo(2u64)), b"[28,[5,2]]".to_vec());
    assert_eq!(json_of(expr(true).and(false)), b"[67,[true,false]]".to_vec());
    assert_eq!(json_of(expr(true).or(false)), b"[66,[true,false]]".to_vec());
    assert_eq!(json_of(expr(1u64).eq(2u64)), b"[17,[1,2]]".to_vec());
    assert_eq!(json_of(expr("a").ne("b")), b"[18,[\"a\",\"b\"]]".to_vec());
    assert_eq!(
        json_of(expr([1u64, 2]).eq([1u64, 2])),
        b"[17,[[2,[1,2]],[2,[1,2]]]]".to_vec()
    );
}

#[test]
fn functions_bind_the_minted_variable() {
    let mut vars = VarSource::new();
    let x = vars.fresh();
    let q = db("d").table("t").filter(x, expr(x).g("age").eq(30u64));
    assert_eq!(
        json_of(q),
        b"[39,[[15,[[14,[\"d\"]],\"t\"]],[69,[[2,[0]],[17,[[31,[[10,[0]],\"age\"]],30]]]]]]"
            .to_vec()
    );
    let mut vars = VarSource::new();
    let x = vars.fresh();
    let m = db("d").table("t").map(x, expr(x).g("age"));
    assert_eq!(
        json_of(m),
        b"[38,[[15,[[14,[\"d\"]],\"t\"]],[69,[[2,[0]],[31,[[10,[0]],\"age\"]]]]]]".to_vec()
    );
    let mut vars = VarSource::new();
    let x = vars.fresh();
    let cm = db("d").table("t").concat_map(x, expr(x).g("tags"));
    assert_eq!(
        json_of(cm),
        b"[40,[[15,[[14,[\"d\"]],\"t\"]],[69,[[2,[0]],[31,[[10,[0]],\"tags\"]]]]]]".to_vec()
    );
}

#[test]
fn one_source_keeps_nested_variables_distinct() {
    let mut vars = VarSource::new();
    let x = vars.fresh();
    let y = vars.fresh();
    let q = db("d")
        .table("t")
        .filter(x, expr(x).g("tags").map(y, expr(y).eq(1u64)).is_empty());
    assert_eq!(
        json_of(q),
        b"[39,[[15,[[14,[\"d\"]],\"t\"]],[69,[[2,[0]],[86,[[38,[[31,[[10,[0]],\"tags\"]],[69,[[2,[1]],[17,[[10,[1]],1]]]]]]]]]]]]"
            .to_vec()
    );
}

#[test]
fn captured_expressions_cannot_shadow_the_outer_variable() {
    // A body that runs a second function over a separately built sequence
    // still binds a distinct variable, because both come from one source.
    let mut vars = VarSource::new();
    let x = vars.fresh();
    let y = vars.fresh();
    let arr = expr([1u64, 2]);
    let q = db("d")
        .table("t")
        .filter(x, arr.map(y, expr(y).add(expr(x).g("n"))).is_empty());
    assert_eq!(
        json_of(q),
        b"[39,[[15,[[14,[\"d\"]],\"t\"]],[69,[[2,[0]],[86,[[38,[[2,[1,2]],[69,[[2,[1]],[24,[[10,[1]],[31,[[10,[0]],\"n\"]]]]]]]]]]]]]]"
            .to_vec()
    );
}

#[test]
fn any_category_composes_everywhere() {
    // A field read yields the `Any` category, which keeps composing as a
    // number, a string, a boolean, a sequence and a comparable value
    // without any wrapping step.
    let f = || db("d").table("t").get("k").g("f");
    assert_eq!(json_of(f().add(1u64)), {
        let mut v = b"[24,[".to_vec();
        v.extend_from_slice(&json_of(f()));
        v.extend_from_slice(b",1]]");
        v
    });
    let _typed: reql_driver::query::Expr<AnyOut, _> = f();
    let composed = f().eq("x").and(f().eq(1u64)).or(f().is_empty());
    let expected = {
        let mut v = b"[66,[[67,[[17,[".to_vec();
        v.extend_from_slice(&json_of(f()));
        v.extend_from_slice(b",\"x\"]],[17,[");
        v.extend_from_slice(&json_of(f()));
        v.extend_from_slice(b",1]]]],[86,[");
        v.extend_from_slice(&json_of(f()));
        v.extend_from_slice(b"]]]]");
        v
    };
    assert_eq!(json_of(composed), expected);
    // A sequence-shaped Any also takes sequence operators and rebinding.
    let s = db("d").table("t").get_field("f").limit(1u64);
    assert_eq!(
        json_of(s),
        b"[71,[[31,[[15,[[14,[\"d\"]],\"t\"]],\"f\"]],1]]".to_vec()
    );
}

#[test]
fn coercions_keep_the_tree() {
    let q = db("d").table("t").get("k").g("f");
    let bytes = json_of(q);
    let again = db("d").table("t").get("k").g("f");
    assert_eq!(json_of(again.as_number()), bytes);
    let again = db("d").table("t").get("k").g("f");
    assert_eq!(json_of(again.as_string()), bytes);
    let again = db("d").table("t").get("k").g("f");
    assert_eq!(json_of(again.as_bool()), bytes);
    let again = db("d").table("t").get("k").g("f");
    assert_eq!(json_of(again.as_object()), bytes);
}

#[test]
fn rebinding_and_null_assertions_keep_the_tree() {
    let q = expr([1u64, 2]).items_as::<NullOr<NumberOut>>();
    assert_eq!(json_of(q), b"[2,[1,2]]".to_vec());
    let picked = expr([1u64, 2])
        .items_as::<NullOr<NumberOut>>()
        .nth(0u64)
        .assert_not_null();
    assert_eq!(json_of(picked.add(1u64)), b"[24,[[45,[[2,[1,2]],0]],1]]".to_vec());
}

#[test]
fn concatenator_splices_argument_lists() {
    let prefix = vec![Ast::Str(String::from("a"))];
    let spliced = vec![Ast::UInt(1), Ast::UInt(2)];
    let joined = Concatenator(prefix, spliced).into_args();
    let node = term(2, joined);
    assert_eq!(to_json(&node), b"[2,[\"a\",1,2]]".to_vec());
}
