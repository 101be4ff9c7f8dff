//! What holds of every exported document.

use vstd::prelude::*;
use super::dialect::{
    example_list, has_examples, has_null_type, is_null_type, items_without_examples,
    items_without_null_types, names_null, non_null, type_list, type_of, values_without_examples,
    values_without_null_types, with_example, with_nullable, without_examples, without_null_types,
};
use super::export::{
    contract_tree, converted, holds_mapping, is_exportable, lemma_converted_holds_mapping,
    mapping_with, parameters_tree, reference_parameter, subscriber_parameter, takes_keys, under,
    with_key, DIALECT,
};
use super::yaml::{is_plain, lemma_position, lemma_position_is, plain_keys, position, put, YamlTree};

verus! {

/// Putting a value keeps the keys plain.
pub proof fn lemma_put_keeps_keys(
    entries: Seq<(YamlTree, YamlTree)>,
    key: Seq<char>,
    value: YamlTree,
)
    requires
        plain_keys(entries),
    ensures
        plain_keys(put(entries, key, value)),
{
    lemma_position(entries, key);
    let k = position(entries, key);
    let after = put(entries, key, value);
    assert forall|i: int, j: int|
        0 <= i < after.len() && 0 <= j < after.len() && (#[trigger] after[i]).0 == (
        #[trigger] after[j]).0 implies i == j by {
        if k < entries.len() {
            assert(after[i].0 == entries[i].0 && after[j].0 == entries[j].0);
        } else if i < entries.len() && j < entries.len() {
            assert(after[i] == entries[i] && after[j] == entries[j]);
        } else if i < entries.len() {
            assert(entries[i].0 != YamlTree::Text(key));
        } else if j < entries.len() {
            assert(entries[j].0 != YamlTree::Text(key));
        }
    }
    assert forall|i: int| 0 <= i < after.len() implies (#[trigger] after[i]).0 is Text by {
        if i < entries.len() {
            assert(entries[i].0 is Text);
        }
    }
}

/// Putting a plain value keeps a mapping plain.
pub proof fn lemma_put_is_plain(
    entries: Seq<(YamlTree, YamlTree)>,
    key: Seq<char>,
    value: YamlTree,
)
    requires
        is_plain(YamlTree::Mapping(entries)),
        is_plain(value),
    ensures
        is_plain(YamlTree::Mapping(put(entries, key, value))),
{
    lemma_put_keeps_keys(entries, key, value);
    lemma_position(entries, key);
    let after = put(entries, key, value);
    let k = position(entries, key);
    assert forall|i: int| 0 <= i < after.len() implies is_plain((#[trigger] after[i]).1) by {
        if i < entries.len() && i != k {
            assert(is_plain(entries[i].1));
        }
    }
}

proof fn lemma_non_null(types: Seq<YamlTree>)
    ensures
        forall|i: int| 0 <= i < non_null(types).len() ==> types.contains(#[trigger] non_null(types)[i])
            && !is_null_type(non_null(types)[i]),
        names_null(types) ==> non_null(types).len() < types.len(),
        !names_null(types) ==> non_null(types) == types,
    decreases types.len(),
{
    reveal(Seq::filter);
    let p = |t: YamlTree| !is_null_type(t);
    if types.len() > 0 {
        let short = types.drop_last();
        lemma_non_null(short);
        assert forall|i: int| 0 <= i < non_null(types).len() implies types.contains(
            #[trigger] non_null(types)[i],
        ) && !is_null_type(non_null(types)[i]) by {
            if i < non_null(short).len() {
                assert(non_null(types)[i] == non_null(short)[i]);
                let j = choose|j: int| 0 <= j < short.len() && short[j] == non_null(short)[i];
                assert(types[j] == short[j]);
            } else {
                assert(types[types.len() - 1] == non_null(types)[i]);
            }
        }
        if names_null(types) && !is_null_type(types.last()) {
            let i = choose|i: int| 0 <= i < types.len() && is_null_type(#[trigger] types[i]);
            assert(is_null_type(short[i]));
        }
        if !names_null(types) {
            assert(!is_null_type(types[types.len() - 1]));
            assert(!names_null(short)) by {
                if names_null(short) {
                    let i = choose|i: int| 0 <= i < short.len() && is_null_type(#[trigger] short[i]);
                    assert(is_null_type(types[i]));
                }
            }
            assert(non_null(types) =~= types);
        }
    } else {
        assert(non_null(types) =~= types);
    }
}

proof fn lemma_with_nullable_is_plain(entries: Seq<(YamlTree, YamlTree)>)
    requires
        is_plain(YamlTree::Mapping(entries)),
    ensures
        is_plain(YamlTree::Mapping(with_nullable(entries))),
{
    if has_null_type(entries) {
        let types = type_list(entries)->0;
        let rest = non_null(types);
        lemma_position(entries, "type"@);
        assert(is_plain(entries[position(entries, "type"@)].1));
        lemma_non_null(types);
        assert forall|i: int| 0 <= i < rest.len() implies is_plain(#[trigger] rest[i]) by {
            let j = choose|j: int| 0 <= j < types.len() && types[j] == rest[i];
            assert(is_plain(types[j]));
        }
        assert(is_plain(type_of(rest)));
        lemma_put_is_plain(entries, "type"@, type_of(rest));
        lemma_put_is_plain(
            put(entries, "type"@, type_of(rest)),
            "nullable"@,
            YamlTree::Bool(true),
        );
    }
}

/// Downconverting nullability keeps the keys of every mapping plain.
pub proof fn nullability_keeps_keys_plain(t: YamlTree)
    requires
        is_plain(t),
    ensures
        is_plain(without_null_types(t)),
    decreases t,
{
    match t {
        YamlTree::Sequence(s) => {
            let after = items_without_null_types(s);
            assert forall|i: int| 0 <= i < after.len() implies is_plain(#[trigger] after[i]) by {
                assert(is_plain(s[i]));
                nullability_keeps_keys_plain(s[i]);
            }
        },
        YamlTree::Mapping(e) => {
            let after = values_without_null_types(e);
            assert forall|i: int| 0 <= i < after.len() implies is_plain((#[trigger] after[i]).1) by {
                assert(is_plain(e[i].1));
                assert(decreases_to!(e => e[i]));
                assert(decreases_to!(e[i] => e[i].1));
                nullability_keeps_keys_plain(e[i].1);
            }
            assert forall|i: int| 0 <= i < after.len() implies (#[trigger] after[i]).0 is Text by {
                assert(e[i].0 is Text);
            }
            assert forall|i: int, j: int|
                0 <= i < after.len() && 0 <= j < after.len() && (#[trigger] after[i]).0 == (
                #[trigger] after[j]).0 implies i == j by {
                assert(e[i].0 == e[j].0);
            }
            assert(plain_keys(after));
            lemma_with_nullable_is_plain(after);
        },
        _ => {},
    }
}

proof fn lemma_with_example_is_plain(entries: Seq<(YamlTree, YamlTree)>)
    requires
        is_plain(YamlTree::Mapping(entries)),
    ensures
        is_plain(YamlTree::Mapping(with_example(entries))),
{
    if has_examples(entries) {
        let k = position(entries, "examples"@);
        let examples = example_list(entries)->0;
        lemma_position(entries, "examples"@);
        assert(is_plain(entries[k].1));
        assert(is_plain(examples[0]));
        let rest = entries.remove(k);
        assert forall|i: int| 0 <= i < rest.len() implies is_plain((#[trigger] rest[i]).1)
            && rest[i].0 is Text by {
            let j = if i < k { i } else { i + 1 };
            assert(rest[i] == entries[j]);
            assert(is_plain(entries[j].1));
        }
        assert forall|i: int, j: int|
            0 <= i < rest.len() && 0 <= j < rest.len() && (#[trigger] rest[i]).0 == (
            #[trigger] rest[j]).0 implies i == j by {
            let i0 = if i < k { i } else { i + 1 };
            let j0 = if j < k { j } else { j + 1 };
            assert(entries[i0].0 == entries[j0].0);
        }
        assert(plain_keys(rest));
        lemma_put_is_plain(rest, "example"@, examples[0]);
    }
}

/// Folding examples keeps the keys of every mapping plain.
pub proof fn folding_keeps_keys_plain(t: YamlTree)
    requires
        is_plain(t),
    ensures
        is_plain(without_examples(t)),
    decreases t,
{
    match t {
        YamlTree::Sequence(s) => {
            let after = items_without_examples(s);
            assert forall|i: int| 0 <= i < after.len() implies is_plain(#[trigger] after[i]) by {
                assert(is_plain(s[i]));
                folding_keeps_keys_plain(s[i]);
            }
        },
        YamlTree::Mapping(e) => {
            let after = values_without_examples(e);
            assert forall|i: int| 0 <= i < after.len() implies is_plain((#[trigger] after[i]).1) by {
                assert(is_plain(e[i].1));
                assert(decreases_to!(e => e[i]));
                assert(decreases_to!(e[i] => e[i].1));
                folding_keeps_keys_plain(e[i].1);
            }
            assert forall|i: int| 0 <= i < after.len() implies (#[trigger] after[i]).0 is Text by {
                assert(e[i].0 is Text);
            }
            assert forall|i: int, j: int|
                0 <= i < after.len() && 0 <= j < after.len() && (#[trigger] after[i]).0 == (
                #[trigger] after[j]).0 implies i == j by {
                assert(e[i].0 == e[j].0);
            }
            assert(plain_keys(after));
            lemma_with_example_is_plain(after);
        },
        _ => {},
    }
}

/// No schema names the null type in a list.
pub open spec fn no_null_types(t: YamlTree) -> bool
    decreases t,
{
    match t {
        YamlTree::Sequence(s) => forall|i: int| 0 <= i < s.len() ==> no_null_types(#[trigger] s[i]),
        YamlTree::Mapping(e) => !has_null_type(e) && forall|i: int|
            0 <= i < e.len() ==> no_null_types((#[trigger] e[i]).1),
        _ => true,
    }
}

/// A list of types whose only other member is itself a list that names the
/// null type.
pub open spec fn nests_null_type(entries: Seq<(YamlTree, YamlTree)>) -> bool {
    has_null_type(entries) && {
        let rest = non_null(type_list(entries)->0);
        rest.len() == 1 && (rest[0] matches YamlTree::Sequence(inner) && names_null(inner))
    }
}

/// No schema nests one list of types in another that way.
pub open spec fn types_are_flat(t: YamlTree) -> bool
    decreases t,
{
    match t {
        YamlTree::Sequence(s) => forall|i: int| 0 <= i < s.len() ==> types_are_flat(#[trigger] s[i]),
        YamlTree::Mapping(e) => !nests_null_type(e) && forall|i: int|
            0 <= i < e.len() ==> types_are_flat((#[trigger] e[i]).1),
        _ => true,
    }
}

proof fn lemma_null_type_stays(t: YamlTree)
    ensures
        is_null_type(without_null_types(t)) == is_null_type(t),
{
}

pub(crate) proof fn lemma_names_null_stays(types: Seq<YamlTree>)
    ensures
        names_null(items_without_null_types(types)) == names_null(types),
        non_null(items_without_null_types(types)) == items_without_null_types(non_null(types)),
    decreases types.len(),
{
    let after = items_without_null_types(types);
    assert(names_null(after) == names_null(types)) by {
        if names_null(types) {
            let i = choose|i: int| 0 <= i < types.len() && is_null_type(#[trigger] types[i]);
            lemma_null_type_stays(types[i]);
            assert(is_null_type(after[i]));
        }
        if names_null(after) {
            let i = choose|i: int| 0 <= i < after.len() && is_null_type(#[trigger] after[i]);
            lemma_null_type_stays(types[i]);
            assert(is_null_type(types[i]));
        }
    }
    reveal(Seq::filter);
    if types.len() > 0 {
        let short = types.drop_last();
        lemma_names_null_stays(short);
        assert(after.drop_last() =~= items_without_null_types(short));
        assert(after.last() == without_null_types(types.last()));
        lemma_null_type_stays(types.last());
        if is_null_type(types.last()) {
            assert(non_null(types) == non_null(short));
        } else {
            assert(non_null(types) == non_null(short).push(types.last()));
            assert(items_without_null_types(non_null(types)) =~= items_without_null_types(
                non_null(short),
            ).push(without_null_types(types.last())));
        }
    } else {
        assert(non_null(after) =~= items_without_null_types(non_null(types)));
    }
}

proof fn lemma_values_keep_types(e: Seq<(YamlTree, YamlTree)>)
    ensures
        position(values_without_null_types(e), "type"@) == position(e, "type"@),
        match type_list(e) {
            Some(types) => type_list(values_without_null_types(e)) == Some(
                items_without_null_types(types),
            ),
            None => type_list(values_without_null_types(e)) is None,
        },
        has_null_type(values_without_null_types(e)) == has_null_type(e),
{
    let after = values_without_null_types(e);
    let k = position(e, "type"@);
    lemma_position(e, "type"@);
    assert forall|i: int| 0 <= i < k implies (#[trigger] after[i]).0 != YamlTree::Text("type"@) by {
        assert(e[i].0 != YamlTree::Text("type"@));
    }
    lemma_position_is(after, "type"@, k);
    if let Some(types) = type_list(e) {
        lemma_names_null_stays(types);
    }
}

/// Putting a value under another key leaves a key where it stands.
pub(crate) proof fn lemma_put_elsewhere(
    entries: Seq<(YamlTree, YamlTree)>,
    key: Seq<char>,
    value: YamlTree,
    other: Seq<char>,
)
    requires
        key != other,
    ensures
        put(entries, key, value).len() >= entries.len(),
        position(entries, other) < entries.len() ==> position(put(entries, key, value), other)
            == position(entries, other) && put(entries, key, value)[position(entries, other)]
            == entries[position(entries, other)],
        position(entries, other) == entries.len() ==> position(put(entries, key, value), other)
            == put(entries, key, value).len(),
{
    let after = put(entries, key, value);
    let k = position(entries, other);
    lemma_position(entries, other);
    lemma_position(entries, key);
    let p = if k < entries.len() { k } else { after.len() as int };
    assert forall|i: int| 0 <= i < p implies (#[trigger] after[i]).0 != YamlTree::Text(other) by {
        if i < entries.len() {
            assert(entries[i].0 != YamlTree::Text(other));
        }
    }
    lemma_position_is(after, other, p);
}

/// Putting a value puts it under its key.
pub proof fn lemma_put_here(
    entries: Seq<(YamlTree, YamlTree)>,
    key: Seq<char>,
    value: YamlTree,
)
    ensures
        position(put(entries, key, value), key) < put(entries, key, value).len(),
        put(entries, key, value)[position(put(entries, key, value), key)].1 == value,
{
    let after = put(entries, key, value);
    let k = position(entries, key);
    lemma_position(entries, key);
    assert forall|i: int| 0 <= i < k implies (#[trigger] after[i]).0 != YamlTree::Text(key) by {
        assert(entries[i].0 != YamlTree::Text(key));
    }
    lemma_position_is(after, key, k);
}

pub(crate) proof fn lemma_literals()
    ensures
        "type"@ != "nullable"@,
        "type"@ != "example"@,
        "type"@ != "examples"@,
        "examples"@ != "example"@,
        "examples"@ != "nullable"@,
        "openapi"@ != "type"@,
        "openapi"@ != "examples"@,
        "openapi"@ != "components"@,
        "openapi"@ != "nullable"@,
        "openapi"@ != "example"@,
        "components"@ != "type"@,
        "components"@ != "examples"@,
        "parameters"@ != "type"@,
        "parameters"@ != "examples"@,
{
    reveal_strlit("type");
    reveal_strlit("nullable");
    reveal_strlit("example");
    reveal_strlit("examples");
    reveal_strlit("openapi");
    reveal_strlit("components");
    reveal_strlit("parameters");
    assert("type"@.len() == 4 && "nullable"@.len() == 8 && "example"@.len() == 7
        && "examples"@.len() == 8 && "openapi"@.len() == 7 && "components"@.len() == 10
        && "parameters"@.len() == 10);
    assert("examples"@[0] == 'e' && "nullable"@[0] == 'n');
    assert("openapi"@[0] == 'o' && "example"@[0] == 'e');
}

proof fn lemma_put_no_null_types(
    entries: Seq<(YamlTree, YamlTree)>,
    key: Seq<char>,
    value: YamlTree,
)
    requires
        forall|i: int| 0 <= i < entries.len() ==> no_null_types((#[trigger] entries[i]).1),
        no_null_types(value),
    ensures
        forall|i: int|
            0 <= i < put(entries, key, value).len() ==> no_null_types(
                (#[trigger] put(entries, key, value)[i]).1,
            ),
{
    lemma_position(entries, key);
    let after = put(entries, key, value);
    assert forall|i: int| 0 <= i < after.len() implies no_null_types((#[trigger] after[i]).1) by {
        if i < entries.len() && i != position(entries, key) {
            assert(no_null_types(entries[i].1));
        }
    }
}

/// After the downconversion no schema names the null type in a list, provided
/// that no list of types held, besides the null type, nothing but another list
/// that names it.
pub proof fn no_null_type_is_left(t: YamlTree)
    requires
        types_are_flat(t),
    ensures
        no_null_types(without_null_types(t)),
    decreases t,
{
    match t {
        YamlTree::Sequence(s) => {
            let after = items_without_null_types(s);
            assert forall|i: int| 0 <= i < after.len() implies no_null_types(#[trigger] after[i]) by {
                assert(types_are_flat(s[i]));
                no_null_type_is_left(s[i]);
            }
        },
        YamlTree::Mapping(e) => {
            let mid = values_without_null_types(e);
            assert forall|i: int| 0 <= i < mid.len() implies no_null_types((#[trigger] mid[i]).1) by {
                assert(types_are_flat(e[i].1));
                assert(decreases_to!(e => e[i]));
                assert(decreases_to!(e[i] => e[i].1));
                no_null_type_is_left(e[i].1);
            }
            lemma_values_keep_types(e);
            if has_null_type(e) {
                let types = type_list(e)->0;
                let types1 = items_without_null_types(types);
                lemma_names_null_stays(types);
                let rest = non_null(types);
                let rest1 = non_null(types1);
                assert(rest1 == items_without_null_types(rest));
                lemma_non_null(types1);
                let k = position(mid, "type"@);
                lemma_position(mid, "type"@);
                assert(no_null_types(mid[k].1));
                assert forall|i: int| 0 <= i < rest1.len() implies no_null_types(
                    #[trigger] rest1[i],
                ) by {
                    let j = choose|j: int| 0 <= j < types1.len() && types1[j] == rest1[i];
                    assert(no_null_types(types1[j]));
                }
                let value = type_of(rest1);
                assert(no_null_types(value));
                assert(!(value matches YamlTree::Sequence(inner) && names_null(inner))) by {
                    if rest1.len() == 1 {
                        assert(rest1[0] == without_null_types(rest[0]));
                        if let YamlTree::Sequence(inner) = rest[0] {
                            lemma_names_null_stays(inner);
                        }
                    } else {
                        assert(!names_null(rest1)) by {
                            if names_null(rest1) {
                                let i = choose|i: int|
                                    0 <= i < rest1.len() && is_null_type(#[trigger] rest1[i]);
                                assert(!is_null_type(rest1[i]));
                            }
                        }
                    }
                }
                let typed = put(mid, "type"@, value);
                lemma_put_here(mid, "type"@, value);
                lemma_put_no_null_types(mid, "type"@, value);
                lemma_literals();
                lemma_put_elsewhere(typed, "nullable"@, YamlTree::Bool(true), "type"@);
                lemma_put_no_null_types(typed, "nullable"@, YamlTree::Bool(true));
                assert(!has_null_type(with_nullable(mid)));
            }
        },
        _ => {},
    }
}

/// A document in which no schema names the null type in a list stays as it is.
pub proof fn nothing_to_downconvert_stays(t: YamlTree)
    requires
        no_null_types(t),
    ensures
        without_null_types(t) == t,
    decreases t,
{
    match t {
        YamlTree::Sequence(s) => {
            assert forall|i: int| 0 <= i < s.len() implies #[trigger] items_without_null_types(s)[i]
                == s[i] by {
                assert(no_null_types(s[i]));
                nothing_to_downconvert_stays(s[i]);
            }
            assert(items_without_null_types(s) =~= s);
        },
        YamlTree::Mapping(e) => {
            assert forall|i: int| 0 <= i < e.len() implies #[trigger] values_without_null_types(
                e,
            )[i] == e[i] by {
                assert(no_null_types(e[i].1));
                assert(decreases_to!(e => e[i]));
                assert(decreases_to!(e[i] => e[i].1));
                nothing_to_downconvert_stays(e[i].1);
            }
            assert(values_without_null_types(e) =~= e);
        },
        _ => {},
    }
}

/// Downconverting nullability twice is downconverting it once.
pub proof fn nullability_is_downconverted_once(t: YamlTree)
    requires
        types_are_flat(t),
    ensures
        without_null_types(without_null_types(t)) == without_null_types(t),
{
    no_null_type_is_left(t);
    nothing_to_downconvert_stays(without_null_types(t));
}

/// No schema has a list of examples.
pub open spec fn no_examples(t: YamlTree) -> bool
    decreases t,
{
    match t {
        YamlTree::Sequence(s) => forall|i: int| 0 <= i < s.len() ==> no_examples(#[trigger] s[i]),
        YamlTree::Mapping(e) => !has_examples(e) && forall|i: int|
            0 <= i < e.len() ==> no_examples((#[trigger] e[i]).1),
        _ => true,
    }
}

/// In every mapping a text stands as a key at most once.
pub open spec fn keys_stand_once(t: YamlTree) -> bool
    decreases t,
{
    match t {
        YamlTree::Sequence(s) => forall|i: int| 0 <= i < s.len() ==> keys_stand_once(#[trigger] s[i]),
        YamlTree::Mapping(e) => texts_stand_once(e) && forall|i: int|
            0 <= i < e.len() ==> keys_stand_once((#[trigger] e[i]).1),
        _ => true,
    }
}

/// A text stands as a key at most once.
pub open spec fn texts_stand_once(entries: Seq<(YamlTree, YamlTree)>) -> bool {
    forall|i: int, j: int|
        0 <= i < entries.len() && 0 <= j < entries.len() && (#[trigger] entries[i]).0 is Text
            && entries[i].0 == (#[trigger] entries[j]).0 ==> i == j
}

proof fn lemma_put_no_examples(
    entries: Seq<(YamlTree, YamlTree)>,
    key: Seq<char>,
    value: YamlTree,
)
    requires
        forall|i: int| 0 <= i < entries.len() ==> no_examples((#[trigger] entries[i]).1),
        no_examples(value),
    ensures
        forall|i: int|
            0 <= i < put(entries, key, value).len() ==> no_examples(
                (#[trigger] put(entries, key, value)[i]).1,
            ),
{
    lemma_position(entries, key);
    let after = put(entries, key, value);
    assert forall|i: int| 0 <= i < after.len() implies no_examples((#[trigger] after[i]).1) by {
        if i < entries.len() && i != position(entries, key) {
            assert(no_examples(entries[i].1));
        }
    }
}

/// After the fold no schema has a list of examples.
pub proof fn no_example_list_is_left(t: YamlTree)
    requires
        keys_stand_once(t),
    ensures
        no_examples(without_examples(t)),
    decreases t,
{
    match t {
        YamlTree::Sequence(s) => {
            let after = items_without_examples(s);
            assert forall|i: int| 0 <= i < after.len() implies no_examples(#[trigger] after[i]) by {
                assert(keys_stand_once(s[i]));
                no_example_list_is_left(s[i]);
            }
        },
        YamlTree::Mapping(e) => {
            let mid = values_without_examples(e);
            assert forall|i: int| 0 <= i < mid.len() implies no_examples((#[trigger] mid[i]).1) by {
                assert(keys_stand_once(e[i].1));
                assert(decreases_to!(e => e[i]));
                assert(decreases_to!(e[i] => e[i].1));
                no_example_list_is_left(e[i].1);
            }
            if has_examples(mid) {
                let k = position(mid, "examples"@);
                let examples = example_list(mid)->0;
                lemma_position(mid, "examples"@);
                assert(no_examples(mid[k].1));
                assert(no_examples(examples[0]));
                let rest = mid.remove(k);
                assert forall|i: int| 0 <= i < rest.len() implies no_examples(
                    (#[trigger] rest[i]).1,
                ) && rest[i].0 != YamlTree::Text("examples"@) by {
                    let j = if i < k { i } else { i + 1 };
                    assert(rest[i] == mid[j]);
                    assert(no_examples(mid[j].1));
                    assert(mid[j].0 == e[j].0 && mid[k].0 == e[k].0);
                    if e[j].0 == YamlTree::Text("examples"@) {
                        assert(e[k].0 == e[j].0);
                        assert(k == j);
                    }
                }
                lemma_position_is(rest, "examples"@, rest.len() as int);
                lemma_literals();
                lemma_put_elsewhere(rest, "example"@, examples[0], "examples"@);
                lemma_put_no_examples(rest, "example"@, examples[0]);
                assert(!has_examples(with_example(mid)));
            }
        },
        _ => {},
    }
}

/// A document in which no schema has a list of examples stays as it is.
pub proof fn nothing_to_fold_stays(t: YamlTree)
    requires
        no_examples(t),
    ensures
        without_examples(t) == t,
    decreases t,
{
    match t {
        YamlTree::Sequence(s) => {
            assert forall|i: int| 0 <= i < s.len() implies #[trigger] items_without_examples(s)[i]
                == s[i] by {
                assert(no_examples(s[i]));
                nothing_to_fold_stays(s[i]);
            }
            assert(items_without_examples(s) =~= s);
        },
        YamlTree::Mapping(e) => {
            assert forall|i: int| 0 <= i < e.len() implies #[trigger] values_without_examples(e)[i]
                == e[i] by {
                assert(no_examples(e[i].1));
                assert(decreases_to!(e => e[i]));
                assert(decreases_to!(e[i] => e[i].1));
                nothing_to_fold_stays(e[i].1);
            }
            assert(values_without_examples(e) =~= e);
        },
        _ => {},
    }
}

/// Folding examples twice is folding them once.
pub proof fn examples_are_folded_once(t: YamlTree)
    requires
        keys_stand_once(t),
    ensures
        without_examples(without_examples(t)) == without_examples(t),
{
    no_example_list_is_left(t);
    nothing_to_fold_stays(without_examples(t));
}

proof fn lemma_put_keeps_texts(
    entries: Seq<(YamlTree, YamlTree)>,
    key: Seq<char>,
    value: YamlTree,
)
    requires
        keys_stand_once(YamlTree::Mapping(entries)),
        keys_stand_once(value),
    ensures
        keys_stand_once(YamlTree::Mapping(put(entries, key, value))),
{
    lemma_position(entries, key);
    let k = position(entries, key);
    let after = put(entries, key, value);
    assert forall|i: int, j: int|
        0 <= i < after.len() && 0 <= j < after.len() && (#[trigger] after[i]).0 is Text
            && after[i].0 == (#[trigger] after[j]).0 implies i == j by {
        if k < entries.len() {
            assert(after[i].0 == entries[i].0 && after[j].0 == entries[j].0);
        } else if i < entries.len() && j < entries.len() {
            assert(after[i] == entries[i] && after[j] == entries[j]);
        } else if i < entries.len() {
            assert(entries[i].0 != YamlTree::Text(key));
        } else if j < entries.len() {
            assert(entries[j].0 != YamlTree::Text(key));
        }
    }
    assert forall|i: int| 0 <= i < after.len() implies keys_stand_once((#[trigger] after[i]).1) by {
        if i < entries.len() && i != k {
            assert(keys_stand_once(entries[i].1));
        }
    }
}

/// Downconverting nullability keeps every text key standing once.
pub proof fn nullability_keeps_keys_standing_once(t: YamlTree)
    requires
        keys_stand_once(t),
    ensures
        keys_stand_once(without_null_types(t)),
    decreases t,
{
    match t {
        YamlTree::Sequence(s) => {
            let after = items_without_null_types(s);
            assert forall|i: int| 0 <= i < after.len() implies keys_stand_once(
                #[trigger] after[i],
            ) by {
                assert(keys_stand_once(s[i]));
                nullability_keeps_keys_standing_once(s[i]);
            }
        },
        YamlTree::Mapping(e) => {
            let mid = values_without_null_types(e);
            assert forall|i: int| 0 <= i < mid.len() implies keys_stand_once(
                (#[trigger] mid[i]).1,
            ) by {
                assert(keys_stand_once(e[i].1));
                assert(decreases_to!(e => e[i]));
                assert(decreases_to!(e[i] => e[i].1));
                nullability_keeps_keys_standing_once(e[i].1);
            }
            assert forall|i: int, j: int|
                0 <= i < mid.len() && 0 <= j < mid.len() && (#[trigger] mid[i]).0 is Text
                    && mid[i].0 == (#[trigger] mid[j]).0 implies i == j by {
                assert(e[i].0 == e[j].0);
            }
            assert(keys_stand_once(YamlTree::Mapping(mid)));
            if has_null_type(mid) {
                let types = type_list(mid)->0;
                let rest = non_null(types);
                lemma_position(mid, "type"@);
                assert(keys_stand_once(mid[position(mid, "type"@)].1));
                lemma_non_null(types);
                assert forall|i: int| 0 <= i < rest.len() implies keys_stand_once(
                    #[trigger] rest[i],
                ) by {
                    let j = choose|j: int| 0 <= j < types.len() && types[j] == rest[i];
                    assert(keys_stand_once(types[j]));
                }
                assert(keys_stand_once(type_of(rest)));
                lemma_put_keeps_texts(mid, "type"@, type_of(rest));
                lemma_put_keeps_texts(
                    put(mid, "type"@, type_of(rest)),
                    "nullable"@,
                    YamlTree::Bool(true),
                );
            }
        },
        _ => {},
    }
}

proof fn lemma_names_null_folds(types: Seq<YamlTree>)
    ensures
        names_null(items_without_examples(types)) == names_null(types),
{
    let after = items_without_examples(types);
    if names_null(types) {
        let i = choose|i: int| 0 <= i < types.len() && is_null_type(#[trigger] types[i]);
        assert(is_null_type(after[i]));
    }
    if names_null(after) {
        let i = choose|i: int| 0 <= i < after.len() && is_null_type(#[trigger] after[i]);
        assert(is_null_type(types[i]));
    }
}

/// Folding examples brings back no null type.
pub proof fn folding_brings_back_no_null_type(t: YamlTree)
    requires
        no_null_types(t),
    ensures
        no_null_types(without_examples(t)),
    decreases t,
{
    match t {
        YamlTree::Sequence(s) => {
            let after = items_without_examples(s);
            assert forall|i: int| 0 <= i < after.len() implies no_null_types(#[trigger] after[i]) by {
                assert(no_null_types(s[i]));
                folding_brings_back_no_null_type(s[i]);
            }
        },
        YamlTree::Mapping(e) => {
            let mid = values_without_examples(e);
            assert forall|i: int| 0 <= i < mid.len() implies no_null_types((#[trigger] mid[i]).1) by {
                assert(no_null_types(e[i].1));
                assert(decreases_to!(e => e[i]));
                assert(decreases_to!(e[i] => e[i].1));
                folding_brings_back_no_null_type(e[i].1);
            }
            let k = position(e, "type"@);
            lemma_position(e, "type"@);
            assert forall|i: int| 0 <= i < k implies (#[trigger] mid[i]).0 != YamlTree::Text(
                "type"@,
            ) by {
                assert(e[i].0 != YamlTree::Text("type"@));
            }
            lemma_position_is(mid, "type"@, k);
            if let Some(types) = type_list(e) {
                lemma_names_null_folds(types);
            }
            assert(!has_null_type(mid));
            if has_examples(mid) {
                let p = position(mid, "examples"@);
                let examples = example_list(mid)->0;
                lemma_position(mid, "examples"@);
                assert(no_null_types(mid[p].1));
                assert(no_null_types(examples[0]));
                let rest = mid.remove(p);
                lemma_literals();
                assert forall|i: int| 0 <= i < rest.len() implies no_null_types(
                    (#[trigger] rest[i]).1,
                ) by {
                    let j = if i < p { i } else { i + 1 };
                    assert(rest[i] == mid[j]);
                    assert(no_null_types(mid[j].1));
                }
                let q = if k <= p && k < mid.len() { k } else { k - 1 };
                assert(k != p || k == mid.len());
                assert forall|i: int| 0 <= i < q implies (#[trigger] rest[i]).0 != YamlTree::Text(
                    "type"@,
                ) by {
                    let j = if i < p { i } else { i + 1 };
                    assert(rest[i] == mid[j]);
                    assert(j < k ==> e[j].0 != YamlTree::Text("type"@));
                }
                if k < mid.len() {
                    assert(rest[q] == mid[k]);
                }
                lemma_position_is(rest, "type"@, q);
                assert(!has_null_type(rest));
                lemma_put_elsewhere(rest, "example"@, examples[0], "type"@);
                lemma_put_no_null_types(rest, "example"@, examples[0]);
                assert(!has_null_type(with_example(mid)));
            }
        },
        _ => {},
    }
}

proof fn lemma_with_key_no_null_types(t: YamlTree, key: Seq<char>, value: YamlTree)
    requires
        no_null_types(t),
        no_null_types(value),
        key != "type"@,
    ensures
        no_null_types(with_key(t, key, value)),
{
    match t {
        YamlTree::Mapping(e) => {
            lemma_put_no_null_types(e, key, value);
            lemma_put_elsewhere(e, key, value, "type"@);
            lemma_position(e, "type"@);
            assert(with_key(t, key, value) == YamlTree::Mapping(put(e, key, value)));
        },
        YamlTree::Null => {
            let e = seq![(YamlTree::Text(key), value)];
            lemma_position_is(e, "type"@, 1);
            assert(with_key(t, key, value) == YamlTree::Mapping(e));
        },
        _ => {},
    }
}

proof fn lemma_with_key_no_examples(t: YamlTree, key: Seq<char>, value: YamlTree)
    requires
        no_examples(t),
        no_examples(value),
        key != "examples"@,
    ensures
        no_examples(with_key(t, key, value)),
{
    match t {
        YamlTree::Mapping(e) => {
            lemma_put_no_examples(e, key, value);
            lemma_put_elsewhere(e, key, value, "examples"@);
            lemma_position(e, "examples"@);
            assert(with_key(t, key, value) == YamlTree::Mapping(put(e, key, value)));
        },
        YamlTree::Null => {
            let e = seq![(YamlTree::Text(key), value)];
            lemma_position_is(e, "examples"@, 1);
            assert(with_key(t, key, value) == YamlTree::Mapping(e));
        },
        _ => {},
    }
}

proof fn lemma_version_set(t: YamlTree)
    requires
        types_are_flat(t),
        keys_stand_once(t),
    ensures
        types_are_flat(with_key(t, "openapi"@, YamlTree::Text(DIALECT@))),
        keys_stand_once(with_key(t, "openapi"@, YamlTree::Text(DIALECT@))),
{
    let value = YamlTree::Text(DIALECT@);
    assert(types_are_flat(value) && keys_stand_once(value));
    lemma_literals();
    match t {
        YamlTree::Mapping(e) => {
            let after = put(e, "openapi"@, value);
            lemma_put_keeps_texts(e, "openapi"@, value);
            lemma_put_elsewhere(e, "openapi"@, value, "type"@);
            lemma_position(e, "openapi"@);
            lemma_position(e, "type"@);
            assert(type_list(after) == type_list(e));
            assert forall|i: int| 0 <= i < after.len() implies types_are_flat(
                (#[trigger] after[i]).1,
            ) by {
                if i < e.len() && i != position(e, "openapi"@) {
                    assert(types_are_flat(e[i].1));
                }
            }
            assert(with_key(t, "openapi"@, value) == YamlTree::Mapping(after));
        },
        YamlTree::Null => {
            let e = seq![(YamlTree::Text("openapi"@), value)];
            lemma_position_is(e, "type"@, 1);
            assert(with_key(t, "openapi"@, value) == YamlTree::Mapping(e));
        },
        _ => {},
    }
}

proof fn lemma_under_is_clean(t: YamlTree, key: Seq<char>)
    requires
        t is Mapping ==> no_null_types(t) && no_examples(t),
    ensures
        t is Mapping ==> no_null_types(under(t, key)) && no_examples(under(t, key)),
{
    if let YamlTree::Mapping(e) = t {
        lemma_position(e, key);
        if position(e, key) < e.len() {
            assert(no_null_types(e[position(e, key)].1));
            assert(no_examples(e[position(e, key)].1));
        }
    }
}

proof fn lemma_parameters_speak_the_dialect()
    ensures
        no_null_types(parameters_tree()),
        no_examples(parameters_tree()),
{
    reveal_with_fuel(no_null_types, 4);
    reveal_with_fuel(no_examples, 4);
    reveal_strlit("name");
    reveal_strlit("in");
    reveal_strlit("required");
    reveal_strlit("schema");
    reveal_strlit("description");
    reveal_strlit("type");
    reveal_strlit("maxLength");
    reveal_strlit("$ref");
    reveal_strlit("examples");
    reveal_strlit("SubscriberIdPath");
    reveal_strlit("NotificationIdPath");
    reveal_strlit("BroadcastIdPath");
    assert("type"@[0] == 't' && "name"@[0] == 'n' && "$ref"@[0] == '$');
    assert("examples"@[0] == 'e' && "required"@[0] == 'r');
    assert("in"@.len() == 2 && "schema"@.len() == 6 && "description"@.len() == 11
        && "maxLength"@.len() == 9 && "SubscriberIdPath"@.len() == 16
        && "NotificationIdPath"@.len() == 18 && "BroadcastIdPath"@.len() == 15 && "type"@.len() == 4
        && "examples"@.len() == 8);
    let all = parameters_tree()->Mapping_0;
    lemma_position_is(all, "type"@, 3);
    lemma_position_is(all, "examples"@, 3);
    assert forall|name: Seq<char>, target: Seq<char>|
        no_null_types(#[trigger] reference_parameter(name, target)) && no_examples(
            reference_parameter(name, target),
        ) by {
        let e = reference_parameter(name, target)->Mapping_0;
        let schema = e[3].1->Mapping_0;
        lemma_position_is(schema, "type"@, 1);
        lemma_position_is(schema, "examples"@, 1);
        assert(no_null_types(e[3].1) && no_examples(e[3].1));
        lemma_position_is(e, "type"@, 4);
        lemma_position_is(e, "examples"@, 4);
    }
    assert(no_null_types(subscriber_parameter()) && no_examples(subscriber_parameter())) by {
        let e = subscriber_parameter()->Mapping_0;
        let schema = e[3].1->Mapping_0;
        lemma_position_is(schema, "type"@, 0);
        lemma_position_is(schema, "examples"@, 2);
        assert(no_null_types(e[3].1) && no_examples(e[3].1));
        lemma_position_is(e, "type"@, 5);
        lemma_position_is(e, "examples"@, 5);
    }
    assert(no_null_types(all[0].1) && no_null_types(all[1].1) && no_null_types(all[2].1));
    assert(no_examples(all[0].1) && no_examples(all[1].1) && no_examples(all[2].1));
}

/// The exported document speaks the older dialect: no schema names the null
/// type in a list and none has a list of examples, provided that no list of
/// types nested the null type. What stands behind a tag is not looked at.
pub proof fn the_export_speaks_the_dialect(t: YamlTree)
    requires
        is_exportable(t),
        types_are_flat(t),
        keys_stand_once(t),
    ensures
        no_null_types(contract_tree(t)),
        no_examples(contract_tree(t)),
{
    let versioned = with_key(t, "openapi"@, YamlTree::Text(DIALECT@));
    let plain = without_null_types(versioned);
    let done = converted(t);
    if t is Tagged {
        assert(contract_tree(t) is Tagged);
    } else {
        lemma_version_set(t);
        no_null_type_is_left(versioned);
        nullability_keeps_keys_standing_once(versioned);
        no_example_list_is_left(plain);
        folding_brings_back_no_null_type(plain);
        lemma_converted_holds_mapping(t);
        lemma_under_is_clean(done, "components"@);
        lemma_parameters_speak_the_dialect();
        lemma_literals();
        let components = under(done, "components"@);
        lemma_with_key_no_null_types(components, "parameters"@, parameters_tree());
        lemma_with_key_no_examples(components, "parameters"@, parameters_tree());
        let filled = with_key(components, "parameters"@, parameters_tree());
        lemma_with_key_no_null_types(done, "components"@, filled);
        lemma_with_key_no_examples(done, "components"@, filled);
    }
}

proof fn lemma_mapping_with_reads_back(
    t: YamlTree,
    key: Seq<char>,
    value: YamlTree,
    other: Seq<char>,
)
    requires
        holds_mapping(t),
        key != other,
    ensures
        under(mapping_with(t, key, value), key) == value,
        under(mapping_with(t, key, value), other) == under(t, other),
    decreases t,
{
    match t {
        YamlTree::Mapping(e) => {
            lemma_put_here(e, key, value);
            lemma_put_elsewhere(e, key, value, other);
            lemma_position(e, other);
        },
        YamlTree::Tagged(tag, inner) => lemma_mapping_with_reads_back(*inner, key, value, other),
        _ => {},
    }
}

pub(crate) proof fn lemma_with_key_reads_back(
    t: YamlTree,
    key: Seq<char>,
    value: YamlTree,
    other: Seq<char>,
)
    requires
        takes_keys(t),
        key != other,
    ensures
        under(with_key(t, key, value), key) == value,
        under(with_key(t, key, value), other) == under(t, other),
{
    if t is Null {
        let e = seq![(YamlTree::Text(key), value)];
        lemma_position_is(e, key, 0);
        lemma_position_is(e, other, 1);
    } else {
        lemma_mapping_with_reads_back(t, key, value, other);
    }
}

proof fn lemma_version_survives_nullability(e: Seq<(YamlTree, YamlTree)>)
    requires
        position(e, "openapi"@) < e.len(),
        e[position(e, "openapi"@)].1 is Text,
    ensures
        under(without_null_types(YamlTree::Mapping(e)), "openapi"@) == e[position(e, "openapi"@)].1,
{
    let k = position(e, "openapi"@);
    let mid = values_without_null_types(e);
    lemma_position(e, "openapi"@);
    assert forall|i: int| 0 <= i < k implies (#[trigger] mid[i]).0 != YamlTree::Text("openapi"@) by {
        assert(e[i].0 != YamlTree::Text("openapi"@));
    }
    lemma_position_is(mid, "openapi"@, k);
    lemma_literals();
    if has_null_type(mid) {
        let value = type_of(non_null(type_list(mid)->0));
        lemma_put_elsewhere(mid, "type"@, value, "openapi"@);
        lemma_put_elsewhere(
            put(mid, "type"@, value),
            "nullable"@,
            YamlTree::Bool(true),
            "openapi"@,
        );
    }
}

proof fn lemma_version_survives_folding(e: Seq<(YamlTree, YamlTree)>)
    requires
        position(e, "openapi"@) < e.len(),
        e[position(e, "openapi"@)].1 is Text,
    ensures
        under(without_examples(YamlTree::Mapping(e)), "openapi"@) == e[position(e, "openapi"@)].1,
{
    let k = position(e, "openapi"@);
    let mid = values_without_examples(e);
    lemma_position(e, "openapi"@);
    assert forall|i: int| 0 <= i < k implies (#[trigger] mid[i]).0 != YamlTree::Text("openapi"@) by {
        assert(e[i].0 != YamlTree::Text("openapi"@));
    }
    lemma_position_is(mid, "openapi"@, k);
    lemma_literals();
    if has_examples(mid) {
        let p = position(mid, "examples"@);
        lemma_position(mid, "examples"@);
        let rest = mid.remove(p);
        let q = if k < p { k } else { k - 1 };
        assert(k != p);
        assert forall|i: int| 0 <= i < q implies (#[trigger] rest[i]).0 != YamlTree::Text(
            "openapi"@,
        ) by {
            let j = if i < p { i } else { i + 1 };
            assert(rest[i] == mid[j]);
            assert(e[j].0 != YamlTree::Text("openapi"@));
        }
        assert(rest[q] == mid[k]);
        lemma_position_is(rest, "openapi"@, q);
        lemma_put_elsewhere(rest, "example"@, example_list(mid)->0[0], "openapi"@);
    }
}

/// The exported document names the dialect it speaks and has the reusable
/// parameters among its components.
pub proof fn the_export_names_its_dialect(t: YamlTree)
    requires
        is_exportable(t),
    ensures
        under(contract_tree(t), "openapi"@) == YamlTree::Text(DIALECT@),
        under(under(contract_tree(t), "components"@), "parameters"@) == parameters_tree(),
{
    let version = YamlTree::Text(DIALECT@);
    let versioned = with_key(t, "openapi"@, version);
    let done = converted(t);
    lemma_literals();
    lemma_with_key_reads_back(t, "openapi"@, version, "components"@);
    lemma_converted_holds_mapping(t);
    assert(under(done, "openapi"@) == version) by {
        if let YamlTree::Mapping(e) = versioned {
            lemma_position(e, "openapi"@);
            lemma_version_survives_nullability(e);
            if let YamlTree::Mapping(f) = without_null_types(versioned) {
                lemma_position(f, "openapi"@);
                lemma_version_survives_folding(f);
            }
        }
    }
    let components = under(done, "components"@);
    lemma_with_key_reads_back(components, "parameters"@, parameters_tree(), "type"@);
    let filled = with_key(components, "parameters"@, parameters_tree());
    lemma_with_key_reads_back(done, "components"@, filled, "openapi"@);
}

} // verus!
