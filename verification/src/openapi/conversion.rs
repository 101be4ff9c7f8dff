//! What the conversion of a document changes, and what it leaves.

use vstd::prelude::*;
use super::dialect::{
    example_list, has_examples, has_null_type, is_null_type, items_without_examples,
    items_without_null_types, names_null, non_null, type_list, type_of, values_without_examples,
    values_without_null_types, without_examples, without_null_types,
};
use super::export::{
    contract_tree, converted, holds_mapping, is_exportable, parameters_tree, takes_keys, under,
    with_key, DIALECT,
};
use super::laws::{
    lemma_literals, lemma_names_null_stays, lemma_put_elsewhere, lemma_put_here,
    lemma_with_key_reads_back, the_export_names_its_dialect,
};
use super::yaml::{lemma_position, lemma_position_is, position, put, YamlTree};
use crate::outside::yaml_integer;

verus! {

/// The null type is named by the text `null`, tags aside, and by nothing else.
pub proof fn what_names_the_null_type(t: YamlTree)
    ensures
        t matches YamlTree::Text(s) ==> (is_null_type(t) <==> s == "null"@),
        t matches YamlTree::Tagged(tag, inner) ==> is_null_type(t) == is_null_type(*inner),
        !(t is Text) && !(t is Tagged) ==> !is_null_type(t),
{
}

/// Putting a value under a key puts it there, in place of what the key held or
/// else at the end, and leaves every other entry where it stands.
pub proof fn what_putting_changes(
    entries: Seq<(YamlTree, YamlTree)>,
    key: Seq<char>,
    value: YamlTree,
    i: int,
)
    requires
        0 <= i < entries.len(),
    ensures
        put(entries, key, value)[i].0 == entries[i].0,
        entries[i].0 != YamlTree::Text(key) ==> put(entries, key, value)[i] == entries[i],
        (forall|j: int| 0 <= j < i ==> (#[trigger] entries[j]).0 != YamlTree::Text(key))
            && entries[i].0 == YamlTree::Text(key) ==> put(entries, key, value)[i].1 == value && put(
            entries,
            key,
            value,
        ).len() == entries.len(),
        (forall|j: int|
            0 <= j < entries.len() ==> (#[trigger] entries[j]).0 != YamlTree::Text(key)) ==> put(
            entries,
            key,
            value,
        ) == entries.push((YamlTree::Text(key), value)),
{
    lemma_position(entries, key);
    if (forall|j: int| 0 <= j < i ==> (#[trigger] entries[j]).0 != YamlTree::Text(key))
        && entries[i].0 == YamlTree::Text(key) {
        lemma_position_is(entries, key, i);
    }
    if forall|j: int| 0 <= j < entries.len() ==> (#[trigger] entries[j]).0 != YamlTree::Text(key) {
        lemma_position_is(entries, key, entries.len() as int);
    }
}

/// Scalars and what stands behind a tag are left as they are; a sequence is
/// converted item by item.
pub proof fn what_conversion_leaves(t: YamlTree, i: int)
    ensures
        !(t is Sequence) && !(t is Mapping) ==> without_null_types(t) == t && without_examples(t)
            == t,
        t matches YamlTree::Sequence(s) ==> (without_null_types(t) matches YamlTree::Sequence(r)
            && r.len() == s.len() && (0 <= i < s.len() ==> r[i] == without_null_types(s[i]))),
        t matches YamlTree::Sequence(s) ==> (without_examples(t) matches YamlTree::Sequence(r)
            && r.len() == s.len() && (0 <= i < s.len() ==> r[i] == without_examples(s[i]))),
{
}

proof fn lemma_values_keep_keys(e: Seq<(YamlTree, YamlTree)>, key: Seq<char>)
    ensures
        position(values_without_null_types(e), key) == position(e, key),
        position(values_without_examples(e), key) == position(e, key),
{
    lemma_position(e, key);
    let k = position(e, key);
    let (a, b) = (values_without_null_types(e), values_without_examples(e));
    assert forall|i: int| 0 <= i < k implies (#[trigger] a[i]).0 != YamlTree::Text(key) by {
        assert(e[i].0 != YamlTree::Text(key));
    }
    assert forall|i: int| 0 <= i < k implies (#[trigger] b[i]).0 != YamlTree::Text(key) by {
        assert(e[i].0 != YamlTree::Text(key));
    }
    lemma_position_is(a, key, k);
    lemma_position_is(b, key, k);
}

/// A schema whose list of types does not name the null type is converted value
/// by value and keeps its keys.
pub proof fn a_schema_without_the_null_type_stays(e: Seq<(YamlTree, YamlTree)>, i: int)
    requires
        forall|k: int|
            0 <= k < e.len() && (#[trigger] e[k]).0 == YamlTree::Text("type"@) ==> (
            e[k].1 matches YamlTree::Sequence(types) ==> forall|j: int|
                0 <= j < types.len() ==> !is_null_type(#[trigger] types[j])),
    ensures
        without_null_types(YamlTree::Mapping(e)) matches YamlTree::Mapping(f) && f.len() == e.len()
            && (0 <= i < e.len() ==> f[i] == (e[i].0, without_null_types(e[i].1))),
{
    lemma_values_keep_keys(e, "type"@);
    lemma_position(e, "type"@);
    let k = position(e, "type"@);
    let mid = values_without_null_types(e);
    if k < e.len() {
        assert(e[k].0 == YamlTree::Text("type"@));
        if let YamlTree::Sequence(types) = e[k].1 {
            assert(!names_null(types));
            lemma_names_null_stays(types);
            assert(type_list(mid) == Some(items_without_null_types(types)));
        }
    }
    assert(!has_null_type(mid));
}

/// A schema whose list of types names the null type says `nullable: true` in
/// its place. Its type is what is left of the list: the only type, or the list
/// of the types that are left, in their order. Every other entry keeps its
/// place and its key and is converted, and none is added but `nullable`.
pub proof fn a_nullable_schema_says_so(
    e: Seq<(YamlTree, YamlTree)>,
    k: int,
    types: Seq<YamlTree>,
    n: int,
    i: int,
)
    requires
        0 <= k < e.len(),
        e[k] == (YamlTree::Text("type"@), YamlTree::Sequence(types)),
        forall|j: int| 0 <= j < k ==> (#[trigger] e[j]).0 != YamlTree::Text("type"@),
        0 <= n < types.len(),
        is_null_type(types[n]),
        0 <= i < e.len(),
    ensures
        ({
            let rest = types.filter(|t: YamlTree| !is_null_type(t));
            let t = without_null_types(YamlTree::Mapping(e));
            let f = t->Mapping_0;
            &&& t is Mapping
            &&& under(t, "nullable"@) == YamlTree::Bool(true)
            &&& rest.len() == 1 ==> f[k].1 == without_null_types(rest[0])
            &&& rest.len() != 1 ==> f[k].1 == without_null_types(YamlTree::Sequence(rest))
            &&& f[i].0 == e[i].0
            &&& e[i].0 != YamlTree::Text("nullable"@) && i != k ==> f[i].1 == without_null_types(
                e[i].1,
            )
            &&& f.len() == e.len() || f == f.take(e.len() as int).push(
                (YamlTree::Text("nullable"@), YamlTree::Bool(true)),
            )
        }),
{
    lemma_values_keep_keys(e, "type"@);
    lemma_values_keep_keys(e, "nullable"@);
    lemma_position_is(e, "type"@, k);
    lemma_position(e, "nullable"@);
    lemma_literals();
    let mid = values_without_null_types(e);
    lemma_names_null_stays(types);
    assert(names_null(types)) by {
        assert(is_null_type(types[n]));
    }
    assert(type_list(mid) == Some(items_without_null_types(types)));
    assert(has_null_type(mid));
    let rest = types.filter(|t: YamlTree| !is_null_type(t));
    assert(rest == non_null(types));
    let left = non_null(items_without_null_types(types));
    assert(left == items_without_null_types(rest));
    let typed = put(mid, "type"@, type_of(left));
    let f = put(typed, "nullable"@, YamlTree::Bool(true));
    assert(without_null_types(YamlTree::Mapping(e)) == YamlTree::Mapping(f));
    lemma_put_here(typed, "nullable"@, YamlTree::Bool(true));
    lemma_put_elsewhere(mid, "type"@, type_of(left), "nullable"@);
    lemma_position(typed, "nullable"@);
    assert(typed == mid.update(k, (mid[k].0, type_of(left))));
    assert(typed[k].1 == type_of(left));
    if position(typed, "nullable"@) < typed.len() {
        assert(f.len() == e.len());
    } else {
        assert(f == typed.push((YamlTree::Text("nullable"@), YamlTree::Bool(true))));
        assert(f.take(e.len() as int) =~= typed);
    }
}

/// A schema without a list of examples is converted value by value and keeps
/// its keys.
pub proof fn a_schema_without_examples_stays(e: Seq<(YamlTree, YamlTree)>, i: int)
    requires
        forall|k: int|
            0 <= k < e.len() && (#[trigger] e[k]).0 == YamlTree::Text("examples"@) ==> (
            e[k].1 matches YamlTree::Sequence(examples) ==> examples.len() == 0),
    ensures
        without_examples(YamlTree::Mapping(e)) matches YamlTree::Mapping(f) && f.len() == e.len()
            && (0 <= i < e.len() ==> f[i] == (e[i].0, without_examples(e[i].1))),
{
    lemma_values_keep_keys(e, "examples"@);
    lemma_position(e, "examples"@);
    let k = position(e, "examples"@);
    if k < e.len() {
        assert(e[k].0 == YamlTree::Text("examples"@));
        if let YamlTree::Sequence(examples) = e[k].1 {
            assert(example_list(values_without_examples(e)) == Some(
                items_without_examples(examples),
            ));
        }
    }
    assert(!has_examples(values_without_examples(e)));
}

/// A schema with a list of examples keeps the first of them as its `example`
/// and loses the list. Every other entry keeps its key and its order and is
/// converted.
pub proof fn the_first_example_is_kept(
    e: Seq<(YamlTree, YamlTree)>,
    k: int,
    examples: Seq<YamlTree>,
    i: int,
)
    requires
        0 <= k < e.len(),
        e[k] == (YamlTree::Text("examples"@), YamlTree::Sequence(examples)),
        forall|j: int| 0 <= j < k ==> (#[trigger] e[j]).0 != YamlTree::Text("examples"@),
        examples.len() > 0,
        0 <= i < e.len(),
        i != k,
    ensures
        ({
            let t = without_examples(YamlTree::Mapping(e));
            let f = t->Mapping_0;
            let p = if i < k {
                i
            } else {
                i - 1
            };
            &&& t is Mapping
            &&& under(t, "example"@) == without_examples(examples[0])
            &&& f[p].0 == e[i].0
            &&& e[i].0 != YamlTree::Text("example"@) ==> f[p].1 == without_examples(e[i].1)
            &&& f.len() == e.len() - 1 || f == f.take(e.len() - 1).push(
                (YamlTree::Text("example"@), without_examples(examples[0])),
            )
        }),
{
    lemma_values_keep_keys(e, "examples"@);
    lemma_position_is(e, "examples"@, k);
    let mid = values_without_examples(e);
    assert(mid[k].1 == YamlTree::Sequence(items_without_examples(examples)));
    assert(example_list(mid) == Some(items_without_examples(examples)));
    assert(has_examples(mid));
    let first = without_examples(examples[0]);
    assert(example_list(mid)->0[0] == first);
    let rest = mid.remove(k);
    let f = put(rest, "example"@, first);
    assert(without_examples(YamlTree::Mapping(e)) == YamlTree::Mapping(f));
    lemma_put_here(rest, "example"@, first);
    lemma_position(rest, "example"@);
    let p = if i < k {
        i
    } else {
        i - 1
    };
    assert(rest[p] == mid[i]);
    what_putting_changes(rest, "example"@, first, p);
    if position(rest, "example"@) < rest.len() {
        assert(f.len() == e.len() - 1);
    } else {
        assert(f.take(e.len() - 1) =~= rest);
    }
}

proof fn lemma_under_nullable(e: Seq<(YamlTree, YamlTree)>, key: Seq<char>)
    requires
        key != "type"@,
        key != "nullable"@,
    ensures
        under(without_null_types(YamlTree::Mapping(e)), key) == without_null_types(
            under(YamlTree::Mapping(e), key),
        ),
{
    let mid = values_without_null_types(e);
    lemma_values_keep_keys(e, key);
    lemma_position(e, key);
    if has_null_type(mid) {
        let value = type_of(non_null(type_list(mid)->0));
        lemma_put_elsewhere(mid, "type"@, value, key);
        lemma_put_elsewhere(put(mid, "type"@, value), "nullable"@, YamlTree::Bool(true), key);
        lemma_position(mid, key);
        lemma_position(put(mid, "type"@, value), key);
    }
}

proof fn lemma_under_example(e: Seq<(YamlTree, YamlTree)>, key: Seq<char>)
    requires
        key != "examples"@,
        key != "example"@,
    ensures
        under(without_examples(YamlTree::Mapping(e)), key) == without_examples(
            under(YamlTree::Mapping(e), key),
        ),
{
    let mid = values_without_examples(e);
    lemma_values_keep_keys(e, key);
    lemma_position(e, key);
    lemma_position(mid, key);
    if has_examples(mid) {
        let p = position(mid, "examples"@);
        lemma_position(mid, "examples"@);
        let k = position(mid, key);
        let rest = mid.remove(p);
        let q = if k < p {
            k
        } else {
            k - 1
        };
        assert(k != p);
        assert forall|i: int| 0 <= i < q implies (#[trigger] rest[i]).0 != YamlTree::Text(key) by {
            let j = if i < p {
                i
            } else {
                i + 1
            };
            assert(rest[i] == mid[j]);
            assert(mid[j].0 != YamlTree::Text(key));
        }
        if k < mid.len() {
            assert(rest[q] == mid[k]);
        }
        lemma_position_is(rest, key, q);
        lemma_put_elsewhere(rest, "example"@, example_list(mid)->0[0], key);
    }
}

proof fn lemma_converted_under(t: YamlTree, key: Seq<char>)
    requires
        t is Mapping || t is Null,
        key != "openapi"@,
        key != "type"@,
        key != "nullable"@,
        key != "examples"@,
        key != "example"@,
    ensures
        converted(t) is Mapping,
        under(converted(t), key) == without_examples(without_null_types(under(t, key))),
{
    let version = YamlTree::Text(DIALECT@);
    let versioned = with_key(t, "openapi"@, version);
    lemma_with_key_reads_back(t, "openapi"@, version, key);
    let e = versioned->Mapping_0;
    assert(versioned == YamlTree::Mapping(e));
    lemma_under_nullable(e, key);
    let plain = without_null_types(versioned);
    lemma_under_example(plain->Mapping_0, key);
}

/// The export names the dialect in its version field, whatever stood there,
/// and converts everything else in place: what stands under a key of the
/// document stands there in the older dialect. Of the components only the
/// reusable parameters are replaced.
pub proof fn the_export_keeps_the_rest(t: YamlTree, key: Seq<char>, component: Seq<char>)
    requires
        is_exportable(t),
        t is Mapping || t is Null,
        key != "openapi"@,
        key != "components"@,
        key != "type"@,
        key != "nullable"@,
        key != "examples"@,
        key != "example"@,
        component != "parameters"@,
    ensures
        under(contract_tree(t), "openapi"@) == YamlTree::Text("3.0.3"@),
        under(contract_tree(t), key) == without_examples(without_null_types(under(t, key))),
        under(under(contract_tree(t), "components"@), component) == under(
            without_examples(without_null_types(under(t, "components"@))),
            component,
        ),
        under(under(contract_tree(t), "components"@), "parameters"@) == parameters_tree(),
{
    the_export_names_its_dialect(t);
    lemma_literals();
    reveal_strlit("components");
    reveal_strlit("nullable");
    reveal_strlit("example");
    assert("components"@.len() == 10 && "nullable"@.len() == 8 && "example"@.len() == 7);
    lemma_converted_under(t, key);
    lemma_converted_under(t, "components"@);
    let done = converted(t);
    let components = under(done, "components"@);
    let filled = with_key(components, "parameters"@, parameters_tree());
    lemma_with_key_reads_back(done, "components"@, filled, key);
    lemma_with_key_reads_back(components, "parameters"@, parameters_tree(), component);
}

/// The reusable path parameters, spelled out: each is required in the path; a
/// subscriber is named by a text of at most 255 characters, a notification and
/// a broadcast by their ids.
pub proof fn what_the_reusable_parameters_are()
    ensures
        parameters_tree() == YamlTree::Mapping(
            seq![
                (
                    YamlTree::Text("SubscriberIdPath"@),
                    YamlTree::Mapping(
                        seq![
                            (YamlTree::Text("name"@), YamlTree::Text("subscriber_id"@)),
                            (YamlTree::Text("in"@), YamlTree::Text("path"@)),
                            (YamlTree::Text("required"@), YamlTree::Bool(true)),
                            (
                                YamlTree::Text("schema"@),
                                YamlTree::Mapping(
                                    seq![
                                        (YamlTree::Text("type"@), YamlTree::Text("string"@)),
                                        (
                                            YamlTree::Text("maxLength"@),
                                            YamlTree::Number(yaml_integer(255)),
                                        ),
                                    ],
                                ),
                            ),
                            (
                                YamlTree::Text("description"@),
                                YamlTree::Text(
                                    "Customer-provided subscriber id (e.g. `usr_42`)."@,
                                ),
                            ),
                        ],
                    ),
                ),
                (
                    YamlTree::Text("NotificationIdPath"@),
                    YamlTree::Mapping(
                        seq![
                            (YamlTree::Text("name"@), YamlTree::Text("id"@)),
                            (YamlTree::Text("in"@), YamlTree::Text("path"@)),
                            (YamlTree::Text("required"@), YamlTree::Bool(true)),
                            (
                                YamlTree::Text("schema"@),
                                YamlTree::Mapping(
                                    seq![
                                        (
                                            YamlTree::Text("$ref"@),
                                            YamlTree::Text("#/components/schemas/NotificationId"@),
                                        ),
                                    ],
                                ),
                            ),
                        ],
                    ),
                ),
                (
                    YamlTree::Text("BroadcastIdPath"@),
                    YamlTree::Mapping(
                        seq![
                            (YamlTree::Text("name"@), YamlTree::Text("id"@)),
                            (YamlTree::Text("in"@), YamlTree::Text("path"@)),
                            (YamlTree::Text("required"@), YamlTree::Bool(true)),
                            (
                                YamlTree::Text("schema"@),
                                YamlTree::Mapping(
                                    seq![
                                        (
                                            YamlTree::Text("$ref"@),
                                            YamlTree::Text("#/components/schemas/BroadcastId"@),
                                        ),
                                    ],
                                ),
                            ),
                        ],
                    ),
                ),
            ],
        ),
{
}

/// A document can be exported when it is a mapping or nothing, tags aside for
/// a mapping, and so are its components.
pub proof fn what_can_be_exported(t: YamlTree)
    ensures
        t is Null ==> takes_keys(t),
        t is Mapping ==> takes_keys(t),
        t matches YamlTree::Tagged(tag, inner) ==> takes_keys(t) == holds_mapping(*inner),
        t is Bool || t is Number || t is Text || t is Sequence ==> !takes_keys(t),
        holds_mapping(t) <==> takes_keys(t) && !(t is Null),
        is_exportable(t) <==> takes_keys(t) && takes_keys(under(converted(t), "components"@)),
        t is Mapping || t is Null ==> (is_exportable(t) <==> takes_keys(
            without_examples(without_null_types(under(t, "components"@))),
        )),
{
    if t is Mapping || t is Null {
        lemma_literals();
        reveal_strlit("components");
        reveal_strlit("nullable");
        reveal_strlit("example");
        assert("components"@.len() == 10 && "nullable"@.len() == 8 && "example"@.len() == 7);
        lemma_converted_under(t, "components"@);
    }
}

/// A value put under a key, tags aside, is found there, and what stands under
/// any other key is what stood there.
pub proof fn what_is_put_is_found(t: YamlTree, key: Seq<char>, value: YamlTree, other: Seq<char>)
    requires
        takes_keys(t),
        key != other,
    ensures
        under(with_key(t, key, value), key) == value,
        under(with_key(t, key, value), other) == under(t, other),
        t is Tagged ==> with_key(t, key, value) is Tagged && with_key(t, key, value)->Tagged_0
            == t->Tagged_0,
{
    lemma_with_key_reads_back(t, key, value, other);
}

} // verus!
